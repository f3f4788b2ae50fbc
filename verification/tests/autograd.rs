use autograph::autograd::grad_fn::GradFn;
use autograph::autograd::graph::{Graph, NodeId};
use autograph::autograd::parameter::Parameter;
use autograph::autograd::variable::Variable;
use autograph::error::Error;
use autograph::scalar::ScalarType;
use autograph::tensor::Tensor;
use std::sync::Arc;

fn vector(data: Vec<i64>) -> Tensor {
    Tensor::from_vec(vec![data.len()], data).unwrap()
}

fn trained(id: u64, value: Tensor) -> Parameter {
    let mut p = Parameter::new(id, value);
    p.set_training(true);
    p
}

#[test]
fn sum_of_products_gradient_is_the_other_factor() {
    let mut graph = Graph::new(1);
    let x = Variable::from(vector(vec![1, 2]));
    let w = trained(7, vector(vec![3, 4]));
    let wv = w.to_variable(&mut graph).unwrap();
    let xw = x.mul(&wv, &mut graph).unwrap();
    let y = xw.sum(&mut graph).unwrap();
    assert_eq!(y.value().data(), &vec![11]);
    let grads = y.backward(&mut graph).unwrap();
    assert_eq!(grads.len(), 1);
    assert_eq!(grads.get(&7).unwrap().data(), &vec![1, 2]);
    assert_eq!(grads.get(&7).unwrap().shape(), &vec![2]);
}

#[test]
fn wrapped_input_receives_the_weights() {
    let mut graph = Graph::new(1);
    let x = trained(1, vector(vec![1, 2]));
    let w = trained(2, vector(vec![3, 4]));
    let xv = x.to_variable(&mut graph).unwrap();
    let wv = w.to_variable(&mut graph).unwrap();
    let y = xv.mul(&wv, &mut graph).unwrap().sum(&mut graph).unwrap();
    let grads = y.backward(&mut graph).unwrap();
    assert_eq!(grads.len(), 2);
    assert_eq!(grads.get(&1).unwrap().data(), &vec![3, 4]);
    assert_eq!(grads.get(&2).unwrap().data(), &vec![1, 2]);
}

#[test]
fn relu_gradient_through_the_graph() {
    let mut graph = Graph::new(1);
    let x = trained(1, vector(vec![-1, 0, 2]));
    let xv = x.to_variable(&mut graph).unwrap();
    let y = xv.relu(&mut graph).unwrap();
    assert_eq!(y.value().data(), &vec![0, 0, 2]);
    let loss = y.sum(&mut graph).unwrap();
    let grads = loss.backward(&mut graph).unwrap();
    assert_eq!(grads.get(&1).unwrap().data(), &vec![0, 0, 1]);
}

#[test]
fn fan_out_sums_both_contributions() {
    // y = sum(x * a) + sum(x * b): the gradient by x is a + b.
    let mut graph = Graph::new(1);
    let x = trained(1, vector(vec![5, 6]));
    let a = Variable::from(vector(vec![10, 20]));
    let b = Variable::from(vector(vec![1, 2]));
    let xv = x.to_variable(&mut graph).unwrap();
    let f = xv.mul(&a, &mut graph).unwrap().sum(&mut graph).unwrap();
    let g = xv.mul(&b, &mut graph).unwrap().sum(&mut graph).unwrap();
    let y = f.add(&g, &mut graph).unwrap();
    assert_eq!(y.value().data(), &vec![5 * 10 + 6 * 20 + 5 + 12]);
    let grads = y.backward(&mut graph).unwrap();
    assert_eq!(grads.len(), 1);
    assert_eq!(grads.get(&1).unwrap().data(), &vec![11, 22]);
}

#[test]
fn a_value_used_twice_by_one_operation_registers_two_edges() {
    // y = sum(x * x): the gradient by x is 2x.
    let mut graph = Graph::new(1);
    let x = trained(1, vector(vec![3, -4]));
    let xv = x.to_variable(&mut graph).unwrap();
    let y = xv.mul(&xv, &mut graph).unwrap().sum(&mut graph).unwrap();
    assert_eq!(y.value().data(), &vec![25]);
    let grads = y.backward(&mut graph).unwrap();
    assert_eq!(grads.get(&1).unwrap().data(), &vec![6, -8]);
}

#[test]
fn a_parameter_used_twice_has_one_node_and_one_entry() {
    let mut graph = Graph::new(1);
    let w = trained(9, vector(vec![2, 3]));
    let first = w.to_variable(&mut graph).unwrap();
    assert_eq!(graph.len(), 1);
    let second = w.to_variable(&mut graph).unwrap();
    assert_eq!(graph.len(), 1);
    assert_eq!(first.node(), second.node());
    assert_eq!(first.node(), Some(NodeId { scope: 1, index: 0 }));
    let a = Variable::from(vector(vec![10, 20]));
    let b = Variable::from(vector(vec![1, 2]));
    let f = first.mul(&a, &mut graph).unwrap();
    let g = second.mul(&b, &mut graph).unwrap();
    let y = f.add(&g, &mut graph).unwrap().sum(&mut graph).unwrap();
    let grads = y.backward(&mut graph).unwrap();
    assert_eq!(grads.len(), 1);
    assert_eq!(grads.get(&9).unwrap().data(), &vec![11, 22]);
}

#[test]
fn inference_records_nothing() {
    let mut graph = Graph::new(1);
    let w = Parameter::new(7, vector(vec![3, 4]));
    assert!(!w.is_training());
    let x = Variable::from(vector(vec![1, 2]));
    let wv = w.to_variable(&mut graph).unwrap();
    assert_eq!(wv.node(), None);
    let y = x
        .mul(&wv, &mut graph)
        .unwrap()
        .relu(&mut graph)
        .unwrap()
        .sum(&mut graph)
        .unwrap();
    assert_eq!(y.node(), None);
    assert_eq!(y.value().data(), &vec![11]);
    assert_eq!(graph.len(), 0);
    for _ in 0..3 {
        let grads = y.backward(&mut graph).unwrap();
        assert!(grads.is_empty());
        assert_eq!(graph.len(), 0);
        assert!(!graph.is_consumed());
    }
}

#[test]
fn second_backward_is_refused() {
    let mut graph = Graph::new(1);
    let w = trained(2, vector(vec![3, 4]));
    let y = w.to_variable(&mut graph).unwrap().sum(&mut graph).unwrap();
    assert!(y.backward(&mut graph).is_ok());
    assert_eq!(y.backward(&mut graph).err(), Some(Error::Consumed));
    assert!(graph.is_consumed());
    assert_eq!(graph.len(), 0);
    assert_eq!(w.to_variable(&mut graph).err(), Some(Error::Consumed));
    assert_eq!(y.sum(&mut graph).err(), Some(Error::Consumed));
}

#[test]
fn backward_needs_a_scalar() {
    let mut graph = Graph::new(1);
    let w = trained(2, vector(vec![3, 4]));
    let wv = w.to_variable(&mut graph).unwrap();
    assert_eq!(wv.backward(&mut graph).err(), Some(Error::Mismatch));
    assert!(!graph.is_consumed());
    assert_eq!(graph.len(), 1);
}

#[test]
fn variables_of_another_graph_are_refused() {
    let mut first = Graph::new(1);
    let mut second = Graph::new(2);
    let w = trained(2, vector(vec![3, 4]));
    let wv = w.to_variable(&mut first).unwrap();
    assert_eq!(wv.sum(&mut second).err(), Some(Error::Scope));
    assert_eq!(second.len(), 0);
    let y = wv.sum(&mut first).unwrap();
    assert_eq!(y.backward(&mut second).err(), Some(Error::Scope));
    assert!(y.backward(&mut first).is_ok());
}

#[test]
fn unreached_parameters_have_no_entry() {
    let mut graph = Graph::new(1);
    let used = trained(1, vector(vec![1, 2]));
    let unused = trained(2, vector(vec![3, 4]));
    let u = used.to_variable(&mut graph).unwrap();
    let v = unused.to_variable(&mut graph).unwrap();
    let _branch = v.relu(&mut graph).unwrap();
    let y = u.sum(&mut graph).unwrap();
    let grads = y.backward(&mut graph).unwrap();
    assert_eq!(grads.len(), 1);
    assert!(grads.get(&2).is_none());
    assert_eq!(grads.get(&1).unwrap().data(), &vec![1, 1]);
}

#[test]
fn builder_without_edges_builds_a_leaf() {
    let mut graph = Graph::new(1);
    let v = Variable::builder().build(&mut graph, vector(vec![1])).unwrap();
    assert_eq!(v.node(), None);
    assert_eq!(graph.len(), 0);
}

#[test]
fn builder_checks_the_edges() {
    let mut graph = Graph::new(1);
    let w = trained(2, vector(vec![3, 4]));
    let wv = w.to_variable(&mut graph).unwrap();
    let node = wv.node().unwrap();
    // the transform gives a gradient of three elements to a node of two
    let mut builder = Variable::builder();
    builder.edge(node, GradFn::Identity);
    assert_eq!(
        builder.build(&mut graph, vector(vec![1, 2, 3])).err(),
        Some(Error::Mismatch)
    );
    assert_eq!(graph.len(), 1);
    // a node that the graph does not have
    let mut builder = Variable::builder();
    builder.edge(NodeId { scope: 1, index: 5 }, GradFn::Identity);
    assert_eq!(
        builder.build(&mut graph, vector(vec![1, 2])).err(),
        Some(Error::Scope)
    );
    // a well-formed edge
    let mut builder = Variable::builder();
    builder.edge(node, GradFn::Mul(Arc::new(vector(vec![5, 6]))));
    let v = builder.build(&mut graph, vector(vec![15, 24])).unwrap();
    assert_eq!(v.node(), Some(NodeId { scope: 1, index: 1 }));
    assert_eq!(graph.len(), 2);
    let grads = v.sum(&mut graph).unwrap().backward(&mut graph).unwrap();
    assert_eq!(grads.get(&2).unwrap().data(), &vec![5, 6]);
}

#[test]
fn gradient_transforms() {
    let dy = Tensor::from_vec(vec![2, 2], vec![1, 2, 3, 4]).unwrap();
    let w = Arc::new(Tensor::from_vec(vec![3, 2], vec![1, 0, 0, 1, 1, 1]).unwrap());
    let dx = GradFn::DotLhs(w.clone()).apply(&dy).unwrap();
    assert_eq!(dx.shape(), &vec![2, 3]);
    assert_eq!(dx.data(), &vec![1, 2, 3, 3, 4, 7]);
    let x = Arc::new(Tensor::from_vec(vec![2, 3], vec![1, 2, 3, 4, 5, 6]).unwrap());
    let dw = GradFn::DotRhs(x).apply(&dy).unwrap();
    assert_eq!(dw.shape(), &vec![3, 2]);
    assert_eq!(dw.data(), &vec![13, 18, 17, 24, 21, 30]);
    assert_eq!(GradFn::SumRows.apply(&dy).unwrap().data(), &vec![4, 6]);
    assert_eq!(
        GradFn::Reshape(vec![4]).apply(&dy).unwrap().shape(),
        &vec![4]
    );
    assert_eq!(GradFn::Reshape(vec![3]).apply(&dy).err(), Some(Error::Mismatch));
    let c = Arc::new(vector(vec![2, 3]));
    let scalar = Tensor::scalar(4);
    assert_eq!(GradFn::ScaleBy(c.clone()).apply(&scalar).unwrap().data(), &vec![8, 12]);
    assert_eq!(GradFn::ScaleBy(c).apply(&dy).err(), Some(Error::Mismatch));
    assert_eq!(GradFn::Identity.apply(&dy).unwrap().data(), dy.data());
}

#[test]
fn dense_gradients_by_finite_differences() {
    // loss = sum(x . w + b): perturbing one element by one changes the loss by the gradient.
    let x = Tensor::from_vec(vec![2, 3], vec![1, -2, 3, 4, 5, -6]).unwrap();
    let w = Tensor::from_vec(vec![3, 2], vec![2, 0, -1, 3, 4, 1]).unwrap();
    let b = vector(vec![7, -8]);
    let loss = |x: &Tensor, w: &Tensor, b: &Tensor| -> i64 {
        x.dot(w).unwrap().add_rows(b).unwrap().sum().data()[0]
    };
    let mut graph = Graph::new(3);
    let xp = trained(1, x.copy());
    let wp = trained(2, w.copy());
    let bp = trained(3, b.copy());
    let xv = xp.to_variable(&mut graph).unwrap();
    let wv = wp.to_variable(&mut graph).unwrap();
    let bv = bp.to_variable(&mut graph).unwrap();
    let y = xv
        .dot(&wv, &mut graph)
        .unwrap()
        .add_rows(&bv, &mut graph)
        .unwrap()
        .sum(&mut graph)
        .unwrap();
    let base = loss(&x, &w, &b);
    assert_eq!(y.value().data(), &vec![base]);
    let grads = y.backward(&mut graph).unwrap();
    for i in 0..6 {
        let mut data = x.data().clone();
        data[i] += 1;
        let moved = Tensor::from_vec(vec![2, 3], data).unwrap();
        assert_eq!(loss(&moved, &w, &b) - base, grads.get(&1).unwrap().data()[i]);
    }
    for i in 0..6 {
        let mut data = w.data().clone();
        data[i] += 1;
        let moved = Tensor::from_vec(vec![3, 2], data).unwrap();
        assert_eq!(loss(&x, &moved, &b) - base, grads.get(&2).unwrap().data()[i]);
    }
    for i in 0..2 {
        let mut data = b.data().clone();
        data[i] += 1;
        let moved = vector(data);
        assert_eq!(loss(&x, &w, &moved) - base, grads.get(&3).unwrap().data()[i]);
    }
}

#[test]
fn a_shared_parameter_cannot_be_viewed_mutably() {
    let mut graph = Graph::new(1);
    let mut w = trained(7, vector(vec![3, 4]));
    {
        let view = w.make_view_mut().unwrap();
        assert_eq!(view.id(), 7);
        view.value.scaled_add(1, &vector(vec![1, 1])).unwrap();
    }
    assert_eq!(w.value().data(), &vec![4, 5]);
    let wv = w.to_variable(&mut graph).unwrap();
    assert_eq!(w.make_view_mut().err(), Some(Error::Shared));
    assert_eq!(w.value().data(), &vec![4, 5]);
    drop(wv);
    assert!(w.make_view_mut().is_ok());
    let handle = w.share();
    assert_eq!(w.make_view_mut().err(), Some(Error::Shared));
    assert_eq!(handle.value().data(), &vec![4, 5]);
    assert_eq!(handle.id(), 7);
    drop(handle);
    assert!(w.make_view_mut().is_ok());
}

#[test]
fn a_cast_between_forward_and_backward_is_detected() {
    let mut graph = Graph::new(1);
    let mut w = trained(7, vector(vec![3, 4]));
    let wv = w.to_variable(&mut graph).unwrap();
    assert_eq!(w.cast_mut(ScalarType::I32).err(), Some(Error::Unimplemented));
    w.cast_mut(ScalarType::BF16).unwrap();
    assert_eq!(w.value().scalar_type(), ScalarType::BF16);
    assert_eq!(wv.value().scalar_type(), ScalarType::F32);
    assert_eq!(w.to_variable(&mut graph).err(), Some(Error::Mismatch));
    assert_eq!(graph.len(), 1);
}

#[test]
fn flatten_keeps_the_first_axis() {
    let mut graph = Graph::new(1);
    let x = trained(1, Tensor::from_vec(vec![2, 1, 3], vec![1, 2, 3, 4, 5, 6]).unwrap());
    let xv = x.to_variable(&mut graph).unwrap();
    let flat = xv.flatten(&mut graph).unwrap();
    assert_eq!(flat.value().shape(), &vec![2, 3]);
    let loss = flat.sum(&mut graph).unwrap();
    let grads = loss.backward(&mut graph).unwrap();
    assert_eq!(grads.get(&1).unwrap().shape(), &vec![2, 1, 3]);
    assert_eq!(grads.get(&1).unwrap().data(), &vec![1; 6]);
    let mut other = Graph::new(2);
    let scalar = Variable::from(Tensor::scalar(3));
    assert_eq!(scalar.flatten(&mut other).err(), Some(Error::Mismatch));
}

#[test]
fn the_graph_releases_what_it_holds_when_it_is_walked() {
    let mut graph = Graph::new(1);
    let x = trained(1, Tensor::from_vec(vec![1, 2], vec![1, 2]).unwrap());
    let mut w = trained(2, Tensor::from_vec(vec![2, 1], vec![3, 4]).unwrap());
    let y = {
        let xv = x.to_variable(&mut graph).unwrap();
        let wv = w.to_variable(&mut graph).unwrap();
        xv.dot(&wv, &mut graph).unwrap().sum(&mut graph).unwrap()
    };
    // the edge to `x` holds the weight for the backward walk
    assert_eq!(w.make_view_mut().err(), Some(Error::Shared));
    let grads = y.backward(&mut graph).unwrap();
    assert_eq!(grads.get(&1).unwrap().data(), &vec![3, 4]);
    assert_eq!(grads.get(&2).unwrap().data(), &vec![1, 2]);
    // the walk has dropped the nodes and what they held
    assert!(w.make_view_mut().is_ok());
    // a graph that is dropped without a walk releases what it holds as well
    let mut dropped = Graph::new(2);
    {
        let xv = x.to_variable(&mut dropped).unwrap();
        let wv = w.to_variable(&mut dropped).unwrap();
        xv.dot(&wv, &mut dropped).unwrap();
    }
    assert_eq!(w.make_view_mut().err(), Some(Error::Shared));
    drop(dropped);
    assert!(w.make_view_mut().is_ok());
}

#[test]
fn values_of_variables() {
    let v = Variable::from(vector(vec![1, 2]));
    assert_eq!(v.value().data(), &vec![1, 2]);
    assert_eq!(v.node(), None);
    let shared = v.into_value();
    assert_eq!(shared.data(), &vec![1, 2]);
    let mut graph = Graph::new(4);
    let reshaped = Variable::from(vector(vec![1, 2, 3, 4]))
        .into_shape(vec![2, 2], &mut graph)
        .unwrap();
    assert_eq!(reshaped.value().shape(), &vec![2, 2]);
    assert_eq!(
        reshaped.into_shape(vec![3], &mut graph).err(),
        Some(Error::Mismatch)
    );
    assert_eq!(graph.scope(), 4);
}

#[test]
fn sum_of_products_by_finite_differences() {
    let x = vector(vec![4, -7, 0, 9]);
    let w = vector(vec![3, 2, -5, 1]);
    let f = |w: &Tensor| x.mul(w).unwrap().sum().data()[0];
    let mut graph = Graph::new(1);
    let p = trained(1, w.copy());
    let wv = p.to_variable(&mut graph).unwrap();
    let y = Variable::from(x.copy())
        .mul(&wv, &mut graph)
        .unwrap()
        .sum(&mut graph)
        .unwrap();
    let gradients = y.backward(&mut graph).unwrap();
    for i in 0..4 {
        let mut data = w.data().clone();
        data[i] += 1;
        assert_eq!(f(&vector(data)) - f(&w), gradients.get(&1).unwrap().data()[i]);
    }
    // where the sum saturates, the difference is lost
    let x = vector(vec![i64::MAX, 1]);
    let w = vector(vec![1, 1]);
    let f = |w: &Tensor| x.mul(w).unwrap().sum().data()[0];
    assert_eq!(f(&vector(vec![1, 2])) - f(&w), 0);
}

#[test]
fn gradients_have_the_kinds_of_their_parameters() {
    let mut graph = Graph::new(1);
    let mut value = Tensor::from_vec(vec![2, 3], vec![1, 2, 3, 4, 5, 6]).unwrap();
    value.cast_mut(ScalarType::BF16);
    let p = trained(1, value);
    let v = p.to_variable(&mut graph).unwrap();
    let y = v
        .relu(&mut graph)
        .unwrap()
        .flatten(&mut graph)
        .unwrap()
        .into_shape(vec![3, 2], &mut graph)
        .unwrap()
        .sum(&mut graph)
        .unwrap();
    let gradients = y.backward(&mut graph).unwrap();
    let gradient = gradients.get(&1).unwrap();
    assert_eq!(gradient.shape(), &vec![2, 3]);
    assert_eq!(gradient.scalar_type(), ScalarType::BF16);
    assert_eq!(gradient.data(), &vec![1; 6]);
}

#[test]
fn a_value_rectified_twice_receives_both_gradients() {
    // y = sum(relu(x) * a) + sum(relu(x) * b): a + b where x is positive, zero elsewhere.
    let mut graph = Graph::new(1);
    let x = trained(1, vector(vec![-1, 0, 2]));
    let a = Variable::from(vector(vec![10, 20, 30]));
    let b = Variable::from(vector(vec![1, 2, 3]));
    let xv = x.to_variable(&mut graph).unwrap();
    let f = xv.relu(&mut graph).unwrap().mul(&a, &mut graph).unwrap().sum(&mut graph).unwrap();
    let g = xv.relu(&mut graph).unwrap().mul(&b, &mut graph).unwrap().sum(&mut graph).unwrap();
    let y = f.add(&g, &mut graph).unwrap();
    assert_eq!(y.value().data(), &vec![66]);
    let grads = y.backward(&mut graph).unwrap();
    assert_eq!(grads.len(), 1);
    assert_eq!(grads.get(&1).unwrap().data(), &vec![0, 0, 33]);
}

#[test]
fn each_entry_of_a_product_moves_by_the_other_factor() {
    let x = Tensor::from_vec(vec![2, 3], vec![1, -2, 3, 4, 5, -6]).unwrap();
    let w = Tensor::from_vec(vec![3, 2], vec![2, 0, -1, 3, 4, 1]).unwrap();
    let b = vector(vec![7, -8]);
    let y = x.dot(&w).unwrap();
    for t in 0..3 {
        for c in 0..2 {
            let mut data = w.data().clone();
            data[t * 2 + c] += 1;
            let moved = x.dot(&Tensor::from_vec(vec![3, 2], data).unwrap()).unwrap();
            for i in 0..2 {
                for j in 0..2 {
                    let by = if j == c { x.data()[i * 3 + t] } else { 0 };
                    assert_eq!(moved.data()[i * 2 + j] - y.data()[i * 2 + j], by);
                }
            }
        }
    }
    for r in 0..2 {
        for t in 0..3 {
            let mut data = x.data().clone();
            data[r * 3 + t] += 1;
            let moved = Tensor::from_vec(vec![2, 3], data).unwrap().dot(&w).unwrap();
            for i in 0..2 {
                for j in 0..2 {
                    let by = if i == r { w.data()[t * 2 + j] } else { 0 };
                    assert_eq!(moved.data()[i * 2 + j] - y.data()[i * 2 + j], by);
                }
            }
        }
    }
    let z = y.add_rows(&b).unwrap();
    let moved = y.add_rows(&vector(vec![7, -7])).unwrap();
    assert_eq!(z.data(), &vec![23, -11, -14, 1]);
    assert_eq!(moved.data(), &vec![23, -10, -14, 2]);
}
