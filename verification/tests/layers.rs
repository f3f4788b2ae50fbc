use autograph::autograd::graph::Graph;
use autograph::autograd::parameter::Parameter;
use autograph::autograd::variable::Variable;
use autograph::error::Error;
use autograph::layer::builder::{DenseBuilder, Init, MaxPoolBuilder};
use autograph::layer::dense::Dense;
use autograph::layer::pool::{MaxPool1, MaxPool2};
use autograph::layer::{
    scalar_relu, scalar_relu_backward, Flatten, Forward, Identity, Layer, Relu,
};
use autograph::scalar::{Device, ScalarType};
use autograph::tensor::Tensor;
use std::sync::Arc;

fn cycle(shape: Vec<usize>) -> Tensor {
    let len: usize = shape.iter().product();
    Tensor::from_vec(shape, (0..10).cycle().take(len).collect()).unwrap()
}

#[test]
fn max_pool2_takes_the_greatest_of_each_window() {
    let pool = MaxPool2::builder().filter([2, 2]).build();
    let mut graph = Graph::new(1);
    let x = cycle(vec![1, 1, 4, 4]);
    let y = pool.forward(Variable::from(x), &mut graph).unwrap();
    assert_eq!(y.value().shape(), &vec![1, 1, 2, 2]);
    assert_eq!(y.value().data(), &vec![5, 7, 9, 5]);
    assert_eq!(graph.len(), 0);
}

#[test]
fn max_pool2_backward_routes_to_the_greatest() {
    let pool = MaxPool2::builder().filter([2, 2]).build();
    let x = cycle(vec![1, 1, 4, 4]);
    let dy = Tensor::from_vec(vec![1, 1, 2, 2], vec![0, 1, 2, 3]).unwrap();
    let dx = pool.backward(&x, &dy).unwrap();
    assert_eq!(dx.shape(), &vec![1, 1, 4, 4]);
    assert_eq!(
        dx.data(),
        &vec![0, 0, 0, 0, 0, 0, 0, 1, 0, 2, 0, 0, 0, 0, 0, 3]
    );
    let wrong = Tensor::from_vec(vec![3], vec![0, 1, 2]).unwrap();
    assert_eq!(pool.backward(&x, &wrong).err(), Some(Error::Mismatch));
}

#[test]
fn overlapping_windows_sum_their_gradients() {
    let pool = MaxPool2::builder().filter([2, 2]).stride([1, 1]).build();
    let x = Tensor::from_vec(vec![1, 1, 3, 3], vec![1, 2, 1, 2, 9, 2, 1, 2, 1]).unwrap();
    let mut graph = Graph::new(1);
    let mut p = Parameter::new(4, x);
    p.set_training(true);
    let xv = p.to_variable(&mut graph).unwrap();
    let y = pool.forward(xv, &mut graph).unwrap();
    assert_eq!(y.value().shape(), &vec![1, 1, 2, 2]);
    assert_eq!(y.value().data(), &vec![9, 9, 9, 9]);
    let grads = y.sum(&mut graph).unwrap().backward(&mut graph).unwrap();
    assert_eq!(
        grads.get(&4).unwrap().data(),
        &vec![0, 0, 0, 0, 4, 0, 0, 0, 0]
    );
}

#[test]
fn max_pool2_on_batches_and_channels() {
    let pool = MaxPool2::builder().filter([2, 2]).build();
    let mut graph = Graph::new(1);
    let x = cycle(vec![2, 3, 4, 4]);
    let expected: Vec<i64> = {
        let data = x.data().clone();
        let mut out = Vec::new();
        for plane in 0..6 {
            for oy in 0..2 {
                for ox in 0..2 {
                    let mut best = i64::MIN;
                    for ky in 0..2 {
                        for kx in 0..2 {
                            best = best.max(data[plane * 16 + (oy * 2 + ky) * 4 + ox * 2 + kx]);
                        }
                    }
                    out.push(best);
                }
            }
        }
        out
    };
    let y = pool.forward(Variable::from(x), &mut graph).unwrap();
    assert_eq!(y.value().shape(), &vec![2, 3, 2, 2]);
    assert_eq!(y.value().data(), &expected);
}

#[test]
fn max_pool_refuses_what_it_cannot_pool() {
    let mut graph = Graph::new(1);
    let unset = MaxPoolBuilder::<[usize; 2]>::new().build();
    assert_eq!(
        unset.forward(Variable::from(cycle(vec![1, 1, 4, 4])), &mut graph).err(),
        Some(Error::Mismatch)
    );
    let pool = MaxPool2::builder().filter([2, 2]).build();
    assert_eq!(
        pool.forward(Variable::from(cycle(vec![4, 4])), &mut graph).err(),
        Some(Error::Mismatch)
    );
    let mut bytes = cycle(vec![1, 1, 4, 4]);
    bytes.cast_mut(ScalarType::U8);
    assert_eq!(
        pool.forward(Variable::from(bytes), &mut graph).err(),
        Some(Error::Unimplemented)
    );
    let small = pool.forward(Variable::from(cycle(vec![1, 1, 1, 4])), &mut graph).unwrap();
    assert_eq!(small.value().shape(), &vec![1, 1, 0, 2]);
    assert_eq!(small.value().len(), 0);
}

#[test]
fn max_pool1_pools_signals() {
    let pool = MaxPool1::builder().filter([2]).build();
    let mut graph = Graph::new(1);
    let x = Tensor::from_vec(vec![1, 2, 4], vec![1, 5, 2, 2, 7, 3, 0, 9]).unwrap();
    let y = pool.forward(Variable::from(x), &mut graph).unwrap();
    assert_eq!(y.value().shape(), &vec![1, 2, 2]);
    assert_eq!(y.value().data(), &vec![5, 2, 7, 9]);
    let strided = MaxPool1::builder().filter([2]).stride([1]).build();
    let x = Tensor::from_vec(vec![1, 1, 4], vec![1, 5, 2, 3]).unwrap();
    let y = strided.forward(Variable::from(x), &mut graph).unwrap();
    assert_eq!(y.value().data(), &vec![5, 5, 3]);
}

fn init(weight: Vec<i64>, bias: Vec<i64>) -> Init {
    Init { weight_id: 10, weight, bias_id: 11, bias }
}

#[test]
fn dense_builder_checks_its_settings() {
    let dense = Dense::builder()
        .inputs(2)
        .outputs(3)
        .bias(true)
        .build(init(vec![1, 2, 3, 4, 5, 6], vec![7, 8, 9]))
        .unwrap();
    assert_eq!(dense.weight().value().shape(), &vec![2, 3]);
    assert_eq!(dense.weight().value().data(), &vec![1, 2, 3, 4, 5, 6]);
    assert_eq!(dense.weight().id(), 10);
    assert!(!dense.weight().is_training());
    assert_eq!(dense.bias().unwrap().value().shape(), &vec![3]);
    assert_eq!(dense.bias().unwrap().id(), 11);
    assert_eq!(dense.weight().value().scalar_type(), ScalarType::F32);
    assert_eq!(dense.weight().value().device(), Device::Host);

    let no_bias = DenseBuilder::new()
        .inputs(1)
        .outputs(2)
        .scalar_type(ScalarType::BF16)
        .device(Device::Accelerator(1))
        .build(init(vec![1, 2], vec![]))
        .unwrap();
    assert!(no_bias.bias().is_none());
    assert_eq!(no_bias.weight().value().scalar_type(), ScalarType::BF16);
    assert_eq!(no_bias.weight().value().device(), Device::Accelerator(1));

    assert_eq!(
        Dense::builder()
            .inputs(2)
            .outputs(3)
            .scalar_type(ScalarType::F64)
            .build(init(vec![0; 6], vec![]))
            .err(),
        Some(Error::Unimplemented)
    );
    assert_eq!(
        Dense::builder().inputs(2).outputs(3).build(init(vec![0; 5], vec![])).err(),
        Some(Error::Mismatch)
    );
    assert_eq!(
        Dense::builder()
            .inputs(2)
            .outputs(3)
            .bias(true)
            .build(init(vec![0; 6], vec![0; 2]))
            .err(),
        Some(Error::Mismatch)
    );
    assert_eq!(
        Dense::builder()
            .inputs(2)
            .outputs(3)
            .bias(true)
            .build(Init { weight_id: 1, weight: vec![0; 6], bias_id: 1, bias: vec![0; 3] })
            .err(),
        Some(Error::Mismatch)
    );
}

#[test]
fn dense_forward_and_backward() {
    let mut dense = Dense::builder()
        .inputs(2)
        .outputs(2)
        .bias(true)
        .activation(Relu)
        .build(init(vec![1, -1, 2, 1], vec![0, -10]))
        .unwrap();
    dense.set_training(true).unwrap();
    let mut graph = Graph::new(1);
    let x = Variable::from(Tensor::from_vec(vec![2, 2], vec![1, 2, 3, 4]).unwrap());
    // x . w = [[5, 1], [11, 1]]; with the bias [[5, -9], [11, -9]]; rectified [[5, 0], [11, 0]]
    let y = dense.forward(x, &mut graph).unwrap();
    assert_eq!(y.value().data(), &vec![5, 0, 11, 0]);
    let loss = y.sum(&mut graph).unwrap();
    let grads = loss.backward(&mut graph).unwrap();
    // the gradient of the output reaches the first column only
    assert_eq!(grads.get(&10).unwrap().data(), &vec![4, 0, 6, 0]);
    assert_eq!(grads.get(&11).unwrap().data(), &vec![2, 0]);
}

#[test]
fn dense_in_inference_records_nothing() {
    let dense = Dense::builder()
        .inputs(2)
        .outputs(1)
        .build(init(vec![3, 4], vec![]))
        .unwrap();
    let mut graph = Graph::new(1);
    let x = Variable::from(Tensor::from_vec(vec![1, 2], vec![1, 2]).unwrap());
    let y = dense.forward(x, &mut graph).unwrap();
    assert_eq!(y.value().data(), &vec![11]);
    assert_eq!(y.node(), None);
    assert_eq!(graph.len(), 0);
}

#[test]
fn dense_parameters_share_storage() {
    let mut dense = Dense::builder()
        .inputs(1)
        .outputs(2)
        .bias(true)
        .build(init(vec![1, 2], vec![3, 4]))
        .unwrap();
    {
        let parameters = dense.parameters();
        assert_eq!(parameters.len(), 2);
        assert_eq!(parameters.get(0).unwrap().id(), 10);
        assert_eq!(parameters.get(0).unwrap().value().data(), &vec![1, 2]);
        assert_eq!(parameters.get(1).unwrap().id(), 11);
        assert_eq!(parameters.get(1).unwrap().value().data(), &vec![3, 4]);
        assert!(parameters.get(2).is_none());
        // the handles share the storage, so the layer cannot be updated in place
        assert_eq!(dense.weight_view_mut().err(), Some(Error::Shared));
        assert_eq!(dense.bias_view_mut().err(), Some(Error::Shared));
        assert_eq!(dense.parameters_mut().err(), Some(Error::Shared));
    }
    {
        let views = dense.parameters_mut().unwrap();
        assert_eq!(views.len(), 2);
        let views = views.into_vec();
        assert_eq!(views[0].id(), 10);
        assert_eq!(views[1].id(), 11);
    }
    {
        let weight = dense.weight_view_mut().unwrap();
        weight.value.scaled_add(2, &Tensor::from_vec(vec![1, 2], vec![10, 20]).unwrap()).unwrap();
    }
    assert_eq!(dense.weight().value().data(), &vec![21, 42]);
    assert!(dense.bias_view_mut().unwrap().is_some());
    let mut plain = Dense::builder().inputs(1).outputs(1).build(init(vec![1], vec![])).unwrap();
    assert!(plain.bias_view_mut().unwrap().is_none());
    assert_eq!(plain.parameters().len(), 1);
}

#[test]
fn dense_casts_and_moves_its_parameters() {
    let mut dense = Dense::builder()
        .inputs(1)
        .outputs(2)
        .bias(true)
        .build(init(vec![1, 2], vec![3, 4]))
        .unwrap();
    dense.cast_mut(ScalarType::BF16).unwrap();
    assert_eq!(dense.weight().value().scalar_type(), ScalarType::BF16);
    assert_eq!(dense.bias().unwrap().value().scalar_type(), ScalarType::BF16);
    assert_eq!(dense.cast_mut(ScalarType::U32).err(), Some(Error::Unimplemented));
    assert_eq!(dense.weight().value().scalar_type(), ScalarType::BF16);
    dense.to_device_mut(Device::Accelerator(0)).unwrap();
    assert_eq!(dense.bias().unwrap().value().device(), Device::Accelerator(0));
    let dense = dense.into_device(Device::Host).unwrap();
    assert_eq!(dense.weight().value().device(), Device::Host);
    assert_eq!(dense.weight().value().data(), &vec![1, 2]);
}

#[test]
fn simple_layers() {
    let mut graph = Graph::new(1);
    let x = Tensor::from_vec(vec![2, 1, 2], vec![-1, 2, 3, -4]).unwrap();
    let same = Identity.forward(Variable::from(x.copy()), &mut graph).unwrap();
    assert_eq!(same.value().data(), x.data());
    assert_eq!(same.value().shape(), x.shape());
    let flat = Flatten.forward(Variable::from(x.copy()), &mut graph).unwrap();
    assert_eq!(flat.value().shape(), &vec![2, 2]);
    let rectified = Relu.forward(Variable::from(x.copy()), &mut graph).unwrap();
    assert_eq!(rectified.value().data(), &vec![0, 2, 3, 0]);
    let dy = Tensor::from_vec(vec![2, 1, 2], vec![5, 6, 7, 8]).unwrap();
    assert_eq!(
        Relu.backward(&x, Arc::new(dy)).unwrap().data(),
        &vec![0, 6, 7, 0]
    );
    let mut relu = Relu;
    assert!(relu.set_training(true).is_ok());
    assert_eq!(relu.parameters().len(), 0);
    assert_eq!(relu.parameters_mut().unwrap().len(), 0);
    assert!(relu.cast_mut(ScalarType::BF16).is_ok());
    assert!(relu.to_device_mut(Device::Host).is_ok());
    assert!(Flatten.into_device(Device::Host).is_ok());
}

#[test]
fn optional_layers() {
    let mut graph = Graph::new(1);
    let x = Tensor::from_vec(vec![2], vec![-1, 2]).unwrap();
    let absent: Option<Relu> = None;
    assert_eq!(
        absent.forward(Variable::from(x.copy()), &mut graph).unwrap().value().data(),
        &vec![-1, 2]
    );
    let present = Some(Relu);
    assert_eq!(
        present.forward(Variable::from(x.copy()), &mut graph).unwrap().value().data(),
        &vec![0, 2]
    );
    let mut dense = Some(
        Dense::builder().inputs(1).outputs(1).build(init(vec![5], vec![])).unwrap(),
    );
    dense.set_training(true).unwrap();
    assert!(dense.as_ref().unwrap().weight().is_training());
    assert_eq!(dense.parameters().len(), 1);
    assert_eq!(dense.parameters_mut().unwrap().len(), 1);
    let mut none: Option<Dense> = None;
    assert!(none.set_training(true).is_ok());
    assert_eq!(none.parameters().len(), 0);
    assert!(none.cast_mut(ScalarType::U8).is_ok());
    assert!(none.into_device(Device::Host).unwrap().is_none());
}

#[test]
fn relu_works_in_place_where_nothing_shares_the_storage() {
    let x = Arc::new(Tensor::from_vec(vec![3], vec![-1, 0, 2]).unwrap());
    let storage = Arc::as_ptr(&x);
    let y = scalar_relu(x).unwrap();
    assert_eq!(y.data(), &vec![0, 0, 2]);
    assert_eq!(Arc::as_ptr(&y), storage);

    let x = Arc::new(Tensor::from_vec(vec![3], vec![-1, 0, 2]).unwrap());
    let other = x.clone();
    let y = scalar_relu(x).unwrap();
    assert_eq!(y.data(), &vec![0, 0, 2]);
    assert_eq!(other.data(), &vec![-1, 0, 2]);
    assert!(!Arc::ptr_eq(&y, &other));

    let dy = Arc::new(Tensor::from_vec(vec![3], vec![1, 1, 1]).unwrap());
    let storage = Arc::as_ptr(&dy);
    let dx = scalar_relu_backward(&other, dy).unwrap();
    assert_eq!(dx.data(), &vec![0, 0, 1]);
    assert_eq!(Arc::as_ptr(&dx), storage);
    let dy = Arc::new(Tensor::from_vec(vec![3], vec![1, 1, 1]).unwrap());
    let kept = dy.clone();
    let dx = scalar_relu_backward(&other, dy).unwrap();
    assert_eq!(dx.data(), &vec![0, 0, 1]);
    assert_eq!(kept.data(), &vec![1, 1, 1]);
    let short = Arc::new(Tensor::from_vec(vec![1], vec![1]).unwrap());
    assert_eq!(scalar_relu_backward(&other, short).err(), Some(Error::Mismatch));

    let mut bytes = Tensor::from_vec(vec![1], vec![1]).unwrap();
    bytes.cast_mut(ScalarType::U8);
    assert_eq!(bytes.relu_mut().err(), Some(Error::Unimplemented));
    assert_eq!(scalar_relu(Arc::new(bytes)).err(), Some(Error::Unimplemented));
    let mut t = Tensor::from_vec(vec![2], vec![-5, 5]).unwrap();
    t.relu_mut().unwrap();
    assert_eq!(t.data(), &vec![0, 5]);
    let mut dy = Tensor::from_vec(vec![2], vec![7, 8]).unwrap();
    t.relu_backward_mut(&mut dy).unwrap();
    assert_eq!(dy.data(), &vec![0, 8]);
}

#[test]
fn dense_of_a_variable_multiplies_by_the_transposed_weight() {
    // the weight has one row for each output and one column for each input
    let mut weight = Parameter::new(1, Tensor::from_vec(vec![3, 2], vec![1, 0, 0, 1, 1, 1]).unwrap());
    let mut bias = Parameter::new(2, Tensor::from_vec(vec![3], vec![10, 20, 30]).unwrap());
    weight.set_training(true);
    bias.set_training(true);
    let mut graph = Graph::new(1);
    let x = Variable::from(Tensor::from_vec(vec![1, 2], vec![5, 7]).unwrap());
    let y = x.dense(&weight, Some(&bias), &mut graph).unwrap();
    assert_eq!(y.value().shape(), &vec![1, 3]);
    assert_eq!(y.value().data(), &vec![15, 27, 42]);
    let gradients = y.sum(&mut graph).unwrap().backward(&mut graph).unwrap();
    assert_eq!(gradients.get(&1).unwrap().shape(), &vec![3, 2]);
    assert_eq!(gradients.get(&1).unwrap().data(), &vec![5, 7, 5, 7, 5, 7]);
    assert_eq!(gradients.get(&2).unwrap().data(), &vec![1, 1, 1]);

    let mut graph = Graph::new(2);
    let plain = x.dense(&weight, None, &mut graph).unwrap();
    assert_eq!(plain.value().data(), &vec![5, 7, 12]);
    let narrow = Variable::from(Tensor::from_vec(vec![1, 3], vec![1, 2, 3]).unwrap());
    assert_eq!(narrow.dense(&weight, None, &mut graph).err(), Some(Error::Mismatch));
    let mut bytes = Tensor::from_vec(vec![1, 1], vec![1]).unwrap();
    bytes.cast_mut(ScalarType::U8);
    let unsupported = Parameter::new(3, bytes);
    assert_eq!(x.dense(&unsupported, None, &mut graph).err(), Some(Error::Unimplemented));
    let flat = Parameter::new(4, Tensor::from_vec(vec![2], vec![1, 2]).unwrap());
    assert_eq!(x.dense(&flat, None, &mut graph).err(), Some(Error::Mismatch));
}

#[test]
fn dense_weight_gradient_is_the_transposed_signal_times_the_input() {
    let mut weight = Parameter::new(1, Tensor::from_vec(vec![3, 2], vec![1, 0, 0, 1, 1, 1]).unwrap());
    weight.set_training(true);
    let mut graph = Graph::new(1);
    let x = Tensor::from_vec(vec![2, 2], vec![5, 7, -1, 2]).unwrap();
    let dy = Tensor::from_vec(vec![2, 3], vec![1, 2, 3, 4, 5, 6]).unwrap();
    let y = Variable::from(x.copy()).dense(&weight, None, &mut graph).unwrap();
    assert_eq!(y.value().data(), &vec![5, 7, 12, -1, 2, 1]);
    let weighed = y.mul(&Variable::from(dy.copy()), &mut graph).unwrap();
    let gradients = weighed.sum(&mut graph).unwrap().backward(&mut graph).unwrap();
    let expected = dy.transpose().unwrap().dot(&x).unwrap();
    assert_eq!(expected.shape(), &vec![3, 2]);
    assert_eq!(expected.data(), &vec![1, 15, 5, 24, 9, 33]);
    assert_eq!(gradients.get(&1).unwrap().shape(), &vec![3, 2]);
    assert_eq!(gradients.get(&1).unwrap().data(), expected.data());
}

#[test]
fn the_transpose_of_a_product_is_the_product_of_the_transposes() {
    let a = Tensor::from_vec(vec![2, 3], vec![1, -2, 3, 4, 5, -6]).unwrap();
    let b = Tensor::from_vec(vec![3, 2], vec![2, 0, -1, 3, 4, 1]).unwrap();
    let left = a.dot(&b).unwrap().transpose().unwrap();
    let right = b.transpose().unwrap().dot(&a.transpose().unwrap()).unwrap();
    assert_eq!(left.shape(), right.shape());
    assert_eq!(left.data(), right.data());
    assert_eq!(left.data(), &vec![16, -21, -3, 9]);
    assert_eq!(a.transpose().unwrap().transpose().unwrap().data(), a.data());
}
