use autograph::autograd::graph::Graph;
use autograph::autograd::parameter::{Parameter, ParameterViewMut};
use autograph::autograd::variable::{Variable, Variable2};
use autograph::criterion::{cross_entropy_kernel, CrossEntropy, CrossEntropyKernel};
use autograph::error::Error;
use autograph::kernel::descriptor_dims;
use autograph::labels::{accuracy, one_hot};
use autograph::layer::builder::Init;
use autograph::layer::dense::Dense;
use autograph::layer::{Forward, Identity, Layer, ParameterMutVec, ParameterVec, Relu};
use autograph::linalg::{gemm, Transpose};
use autograph::network::{update_views, ClassificationTrainer};
use autograph::optimizer::{sgd, Optimizer, Sgd};
use autograph::scalar::{Device, ScalarType};
use autograph::tensor::Tensor;
use std::collections::HashMap;

fn vector(data: Vec<i64>) -> Tensor {
    Tensor::from_vec(vec![data.len()], data).unwrap()
}

fn matrix(rows: usize, cols: usize, data: Vec<i64>) -> Tensor {
    Tensor::from_vec(vec![rows, cols], data).unwrap()
}

#[test]
fn sgd_steps_against_the_gradient() {
    let mut value = vector(vec![10, 20]);
    sgd(&mut value, &vector(vec![1, -2]), -3).unwrap();
    assert_eq!(value.data(), &vec![7, 26]);
    assert_eq!(sgd(&mut value, &vector(vec![1]), -3).err(), Some(Error::Mismatch));
    assert_eq!(value.data(), &vec![7, 26]);
}

#[test]
fn sgd_updates_the_parameter_that_has_a_gradient() {
    let mut optimizer = Sgd::builder().learning_rate(2).build();
    assert_eq!(optimizer.learning_rate(), 2);
    assert_eq!(optimizer.momentum(), 0);
    let mut gradients = HashMap::new();
    gradients.insert(1u64, vector(vec![1, 1]));
    let mut with = Parameter::new(1, vector(vec![10, 20]));
    let mut without = Parameter::new(2, vector(vec![10, 20]));
    optimizer.update(with.make_view_mut().unwrap(), &gradients).unwrap();
    optimizer.update(without.make_view_mut().unwrap(), &gradients).unwrap();
    assert_eq!(with.value().data(), &vec![8, 18]);
    assert_eq!(without.value().data(), &vec![10, 20]);
    let mut other = Parameter::new(1, vector(vec![1, 2, 3]));
    assert_eq!(
        optimizer.update(other.make_view_mut().unwrap(), &gradients).err(),
        Some(Error::Mismatch)
    );
    assert_eq!(other.value().data(), &vec![1, 2, 3]);
    let default = Sgd::default();
    assert_eq!((default.learning_rate(), default.momentum()), (1, 0));
    assert_eq!(Sgd::builder().momentum(5).build().momentum(), 5);
}

fn network() -> Dense<Relu> {
    Dense::builder()
        .inputs(2)
        .outputs(2)
        .bias(true)
        .activation(Relu)
        .build(Init { weight_id: 1, weight: vec![1, 0, 0, 1], bias_id: 2, bias: vec![0, 0] })
        .unwrap()
}

#[test]
fn trainer_predicts_the_class_of_each_row() {
    let trainer = ClassificationTrainer::from_network_optimizer(network(), Sgd::default());
    let input = matrix(3, 2, vec![1, 5, 7, 2, 3, 3]);
    assert_eq!(trainer.predict(input.copy()).unwrap(), vec![1, 0, 0]);
    assert_eq!(trainer.test_step(input.copy(), &vec![1, 0, 1]).unwrap(), 2);
    assert_eq!(trainer.test_step(input.copy(), &vec![1]).err(), Some(Error::Mismatch));
    assert_eq!(trainer.predict(vector(vec![1, 2])).err(), Some(Error::Mismatch));
    assert_eq!(trainer.network().weight().id(), 1);
    assert_eq!(trainer.optimizer().learning_rate(), 1);
}

#[test]
fn trainer_step_updates_the_network() {
    let mut trainer = ClassificationTrainer::from_network_optimizer(network(), Sgd::default());
    trainer.network_mut().set_training(true).unwrap();
    let mut graph = Graph::new(1);
    let input = matrix(1, 2, vec![3, 4]);
    let output = trainer.forward(input, &mut graph).unwrap();
    assert_eq!(output.value().data(), &vec![3, 4]);
    let target = one_hot(&vec![1], 2).unwrap();
    // what a kernel could have computed: a loss for each element and the slope of the loss
    let computed = CrossEntropy {
        losses: matrix(1, 2, vec![5, 6]),
        slope: matrix(1, 2, vec![1, -1]),
    };
    // while another handle shares the weight's storage, the weight cannot be updated
    let handle = trainer.network().weight().share();
    assert_eq!(trainer.update(&HashMap::new()).err(), Some(Error::Shared));
    drop(handle);
    let loss = trainer.train_step(&output, &target, computed, &mut graph).unwrap();
    assert!(graph.is_consumed());
    assert_eq!(loss.data(), &vec![11]);
    // the weight's gradient is the input transposed times the slope: [[3, -3], [4, -4]]
    assert_eq!(trainer.network().weight().value().data(), &vec![-2, 3, -4, 5]);
    assert_eq!(trainer.network().bias().unwrap().value().data(), &vec![-1, 1]);
}

#[test]
fn cross_entropy_is_recorded_with_the_kernel_results() {
    assert_eq!(cross_entropy_kernel(10), Ok(CrossEntropyKernel::Classes64));
    assert_eq!(cross_entropy_kernel(64), Ok(CrossEntropyKernel::Classes64));
    assert_eq!(cross_entropy_kernel(65), Ok(CrossEntropyKernel::Classes256));
    assert_eq!(cross_entropy_kernel(1024), Ok(CrossEntropyKernel::Classes1024));
    assert_eq!(cross_entropy_kernel(1025), Err(Error::Unimplemented));

    let mut graph = Graph::new(1);
    let mut p = Parameter::new(3, matrix(2, 2, vec![1, 2, 3, 4]));
    p.set_training(true);
    let scores: Variable2 = p.to_variable(&mut graph).unwrap();
    let target = one_hot(&vec![0, 1], 2).unwrap();
    let computed = || CrossEntropy {
        losses: matrix(2, 2, vec![1, 0, 0, 2]),
        slope: matrix(2, 2, vec![-1, 1, 1, -1]),
    };
    let loss = scores.cross_entropy_loss(&target, computed(), &mut graph).unwrap();
    assert_eq!(loss.value().data(), &vec![3]);
    assert_eq!(loss.value().shape(), &Vec::<usize>::new());
    let gradients = loss.backward(&mut graph).unwrap();
    assert_eq!(gradients.get(&3).unwrap().data(), &vec![-1, 1, 1, -1]);

    let mut graph = Graph::new(2);
    let scores = Variable::from(matrix(2, 2, vec![1, 2, 3, 4]));
    let wrong = one_hot(&vec![0, 1, 1], 2).unwrap();
    assert_eq!(
        scores.cross_entropy_loss(&wrong, computed(), &mut graph).err(),
        Some(Error::Mismatch)
    );
    let short = CrossEntropy { losses: vector(vec![1]), slope: matrix(2, 2, vec![0; 4]) };
    assert_eq!(
        scores.cross_entropy_loss(&target, short, &mut graph).err(),
        Some(Error::Mismatch)
    );
    let many = Variable::from(Tensor::zeros(vec![1, 1025]).unwrap());
    let target = Tensor::zeros(vec![1, 1025]).unwrap();
    let computed = CrossEntropy {
        losses: Tensor::zeros(vec![1, 1025]).unwrap(),
        slope: Tensor::zeros(vec![1, 1025]).unwrap(),
    };
    assert_eq!(
        many.cross_entropy_loss(&target, computed, &mut graph).err(),
        Some(Error::Unimplemented)
    );
    let flat = Variable::from(vector(vec![1, 2]));
    assert_eq!(
        flat.cross_entropy_loss(&vector(vec![1, 0]), CrossEntropy { losses: vector(vec![0, 0]), slope: vector(vec![0, 0]) }, &mut graph).err(),
        Some(Error::Mismatch)
    );
}

#[test]
fn labels() {
    let t = one_hot(&vec![2, 0, 5], 3).unwrap();
    assert_eq!(t.shape(), &vec![3, 3]);
    assert_eq!(t.data(), &vec![0, 0, 1, 1, 0, 0, 0, 0, 0]);
    assert_eq!(one_hot(&vec![], 4).unwrap().len(), 0);
    assert_eq!(one_hot(&vec![1, 2], usize::MAX).err(), Some(Error::TooLarge));
    assert_eq!(accuracy(&vec![1, 2, 3], &vec![1, 0, 3]), Ok(2));
    assert_eq!(accuracy(&vec![], &vec![]), Ok(0));
    assert_eq!(accuracy(&vec![1], &vec![]), Err(Error::Mismatch));
    // the one-hot rows agree with rows written out class by class
    for n in [1usize, 7, 64] {
        for classes in [1usize, 5, 10] {
            let labels: Vec<usize> = (0..classes).cycle().take(n).collect();
            let expected: Vec<i64> = labels
                .iter()
                .flat_map(|x| (0..classes).map(move |i| (i == *x) as i64))
                .collect();
            assert_eq!(one_hot(&labels, classes).unwrap().data(), &expected);
        }
    }
}

#[test]
fn general_matrix_product() {
    let a = matrix(2, 3, vec![1, 2, 3, 4, 5, 6]);
    let b = matrix(2, 3, vec![1, 0, 1, 0, 1, 0]);
    let mut c = matrix(2, 2, vec![1, 1, 1, 1]);
    // c <- 2 * a . b^T + 10 * c
    gemm(2, &a, Transpose::No, &b, Transpose::Yes, 10, &mut c).unwrap();
    assert_eq!(c.data(), &vec![18, 14, 30, 20]);
    let mut d = matrix(3, 3, vec![0; 9]);
    gemm(1, &a, Transpose::Yes, &b, Transpose::No, 0, &mut d).unwrap();
    assert_eq!(d.data(), &vec![1, 4, 1, 2, 5, 2, 3, 6, 3]);
    assert_eq!(
        gemm(1, &a, Transpose::No, &b, Transpose::No, 0, &mut d).err(),
        Some(Error::Mismatch)
    );
    assert_eq!(
        gemm(1, &a, Transpose::No, &b, Transpose::Yes, 0, &mut d).err(),
        Some(Error::Mismatch)
    );
    assert_eq!(d.data(), &vec![1, 4, 1, 2, 5, 2, 3, 6, 3]);
}

#[test]
fn broadcasting_and_its_gradient() {
    let x = vector(vec![1, 2]);
    let y = x.broadcast(3).unwrap();
    assert_eq!(y.shape(), &vec![3, 2]);
    assert_eq!(y.data(), &vec![1, 2, 1, 2, 1, 2]);
    let dy = matrix(3, 2, vec![1, 2, 3, 4, 5, 6]);
    let dx = dy.broadcast_backward().unwrap();
    assert_eq!(dx.shape(), &vec![2]);
    assert_eq!(dx.data(), &vec![9, 12]);
    let cube = Tensor::from_vec(vec![2, 1, 2], vec![1, 2, 3, 4]).unwrap();
    let summed = cube.broadcast_backward().unwrap();
    assert_eq!(summed.shape(), &vec![1, 2]);
    assert_eq!(summed.data(), &vec![4, 6]);
    assert_eq!(Tensor::scalar(1).broadcast_backward().err(), Some(Error::Mismatch));
    assert_eq!(x.broadcast(usize::MAX).err(), Some(Error::TooLarge));
    assert_eq!(x.broadcast(0).unwrap().len(), 0);
    let hollow = Tensor::from_vec(vec![0, usize::MAX, usize::MAX], vec![]).unwrap();
    assert_eq!(hollow.broadcast_backward().err(), Some(Error::TooLarge));
}

#[test]
fn descriptors_pad_the_shape_to_four_axes() {
    assert_eq!(descriptor_dims(&vec![]), Ok([1, 1, 1, 1]));
    assert_eq!(descriptor_dims(&vec![5, 7]), Ok([5, 7, 1, 1]));
    assert_eq!(descriptor_dims(&vec![2, 3, 4, 5]), Ok([2, 3, 4, 5]));
    assert_eq!(descriptor_dims(&vec![1, 2, 3, 4, 5]), Err(Error::Unimplemented));
    assert_eq!(descriptor_dims(&vec![1, 1 << 31]), Err(Error::TooLarge));
    assert_eq!(descriptor_dims(&vec![(1 << 31) - 1]), Ok([i32::MAX, 1, 1, 1]));
}

#[test]
fn layers_one_behind_the_other() {
    let mut layers: Vec<Dense<Relu>> = vec![
        Dense::builder()
            .inputs(2)
            .outputs(2)
            .activation(Relu)
            .build(Init { weight_id: 1, weight: vec![1, -1, -1, 1], bias_id: 2, bias: vec![] })
            .unwrap(),
        Dense::builder()
            .inputs(2)
            .outputs(1)
            .bias(true)
            .activation(Relu)
            .build(Init { weight_id: 3, weight: vec![2, 3], bias_id: 4, bias: vec![1] })
            .unwrap(),
    ];
    layers.set_training(true).unwrap();
    assert!(layers[1].weight().is_training());
    {
        let parameters = layers.parameters();
        assert_eq!(parameters.len(), 3);
        assert_eq!(parameters.get(0).unwrap().id(), 1);
        assert_eq!(parameters.get(1).unwrap().id(), 3);
        assert_eq!(parameters.get(2).unwrap().id(), 4);
    }
    {
        let views = layers.parameters_mut().unwrap().into_vec();
        assert_eq!(views.iter().map(ParameterViewMut::id).collect::<Vec<_>>(), vec![1, 3, 4]);
    }
    let mut graph = Graph::new(1);
    let x = Variable::from(matrix(1, 2, vec![5, 2]));
    // first layer: [3, -3] rectified to [3, 0]; second: 6 + 1
    let y = layers.forward(x, &mut graph).unwrap();
    assert_eq!(y.value().data(), &vec![7]);
    let gradients = y.sum(&mut graph).unwrap().backward(&mut graph).unwrap();
    assert_eq!(gradients.len(), 3);
    assert_eq!(gradients.get(&3).unwrap().data(), &vec![3, 0]);
    assert_eq!(gradients.get(&4).unwrap().data(), &vec![1]);
    assert_eq!(gradients.get(&1).unwrap().data(), &vec![10, 0, 4, 0]);
    drop(y);
    layers.cast_mut(ScalarType::BF16).unwrap();
    assert_eq!(layers[0].weight().value().scalar_type(), ScalarType::BF16);
    assert_eq!(layers.cast_mut(ScalarType::U8).err(), Some(Error::Unimplemented));
    layers.to_device_mut(Device::Accelerator(2)).unwrap();
    let layers = layers.into_device(Device::Host).unwrap();
    assert_eq!(layers[1].bias().unwrap().value().device(), Device::Host);

    let none: Vec<Identity> = Vec::new();
    let mut graph = Graph::new(2);
    let x = Variable::from(vector(vec![1, 2]));
    assert_eq!(none.forward(x, &mut graph).unwrap().value().data(), &vec![1, 2]);
    assert_eq!(none.parameters().len(), 0);
    // the first layer that fails ends the pass
    let mixed: Vec<Relu> = vec![Relu, Relu];
    let mut bytes = vector(vec![1, 2]);
    bytes.cast_mut(ScalarType::U8);
    assert_eq!(
        mixed.forward(Variable::from(bytes), &mut graph).err(),
        Some(Error::Unimplemented)
    );
}

/// A layer written outside the library: it doubles its input.
struct Twice;

impl Layer for Twice {
    fn set_training(&mut self, _training: bool) -> Result<(), Error> {
        Ok(())
    }
    fn parameters(&self) -> ParameterVec {
        ParameterVec::new()
    }
    fn parameters_mut(&mut self) -> Result<ParameterMutVec<'_>, Error> {
        Ok(ParameterMutVec::new())
    }
    fn cast_mut(&mut self, _scalar_type: ScalarType) -> Result<(), Error> {
        Ok(())
    }
    fn to_device_mut(&mut self, _device: Device) -> Result<(), Error> {
        Ok(())
    }
    fn into_device(self, _device: Device) -> Result<Self, Error> {
        Ok(self)
    }
}

impl Forward for Twice {
    fn forward(&self, input: Variable, graph: &mut Graph) -> Result<Variable, Error> {
        input.add(&input, graph)
    }
}

#[test]
fn a_layer_of_ones_own() {
    let dense = Dense::builder()
        .inputs(1)
        .outputs(1)
        .activation(Twice)
        .build(Init { weight_id: 1, weight: vec![3], bias_id: 2, bias: vec![] })
        .unwrap();
    let mut trainer = ClassificationTrainer::from_network_optimizer(dense, Sgd::default());
    trainer.network_mut().set_training(true).unwrap();
    let mut graph = Graph::new(1);
    let y = trainer.forward(matrix(1, 1, vec![5]), &mut graph).unwrap();
    assert_eq!(y.value().data(), &vec![30]);
    let gradients = y.sum(&mut graph).unwrap().backward(&mut graph).unwrap();
    assert_eq!(gradients.get(&1).unwrap().data(), &vec![10]);
    drop(y);
    trainer.update(&gradients).unwrap();
    assert_eq!(trainer.network().weight().value().data(), &vec![-7]);
}

#[test]
fn views_are_updated_first_to_last_until_the_optimizer_refuses() {
    let mut optimizer = Sgd::builder().learning_rate(1).build();
    assert!(optimizer.is_ready());
    assert!(Sgd::builder().momentum(-3).build().is_ready());
    assert!(!Sgd::builder().momentum(2).build().is_ready());
    let mut gradients = HashMap::new();
    gradients.insert(1u64, vector(vec![1, 1]));
    gradients.insert(2u64, vector(vec![5]));
    gradients.insert(3u64, vector(vec![7, 7]));
    let mut a = Parameter::new(1, vector(vec![10, 20]));
    let mut b = Parameter::new(2, vector(vec![10, 20]));
    let mut c = Parameter::new(3, vector(vec![10, 20]));
    {
        let views = vec![
            a.make_view_mut().unwrap(),
            b.make_view_mut().unwrap(),
            c.make_view_mut().unwrap(),
        ];
        // the gradient of the second parameter is of another kind than its value
        assert_eq!(
            update_views(&mut optimizer, views, &gradients).err(),
            Some(Error::Mismatch)
        );
    }
    assert_eq!(a.value().data(), &vec![9, 19]);
    assert_eq!(b.value().data(), &vec![10, 20]);
    assert_eq!(c.value().data(), &vec![10, 20]);
    gradients.remove(&2);
    {
        let views = vec![
            a.make_view_mut().unwrap(),
            b.make_view_mut().unwrap(),
            c.make_view_mut().unwrap(),
        ];
        assert_eq!(update_views(&mut optimizer, views, &gradients), Ok(()));
    }
    assert_eq!(a.value().data(), &vec![8, 18]);
    assert_eq!(b.value().data(), &vec![10, 20]);
    assert_eq!(c.value().data(), &vec![3, 13]);
    assert_eq!(update_views(&mut optimizer, Vec::new(), &gradients), Ok(()));
}

#[test]
fn layers_are_made_of_parameters_with_identities_of_their_own() {
    let weight = Parameter::new(1, matrix(1, 1, vec![1]));
    let bias = Parameter::new(1, vector(vec![1]));
    assert_eq!(Dense::from_parts(weight, Some(bias), Identity).err(), Some(Error::Mismatch));
    let weight = Parameter::new(1, matrix(1, 1, vec![1]));
    let bias = Parameter::new(2, vector(vec![1]));
    let dense = Dense::from_parts(weight, Some(bias), Identity).unwrap();
    assert_eq!(dense.bias().unwrap().id(), 2);
    let weight = Parameter::new(1, matrix(1, 1, vec![1]));
    assert!(Dense::from_parts(weight, None, Relu).is_ok());
}
