use autograph::tensor::Tensor;
use ndarray::Array2;

fn gen_array(dim: [usize; 2]) -> Array2<i64> {
    let n = dim[0] * dim[1];
    let vec: Vec<i64> = (1..10).cycle().take(n).collect();
    Array2::from_shape_vec(dim, vec).unwrap()
}

fn tensor_dot(m: usize, k: usize, n: usize) {
    let a1 = gen_array([m, k]);
    let a2 = gen_array([k, n]);
    let t1 = Tensor::from_vec(vec![m, k], a1.iter().copied().collect()).unwrap();
    let t2 = Tensor::from_vec(vec![k, n], a2.iter().copied().collect()).unwrap();
    let a_true = a1.dot(&a2);
    let a_out = t1.dot(&t2).unwrap();
    assert_eq!(a_out.shape(), &vec![m, n]);
    let expected: Vec<i64> = a_true.iter().copied().collect();
    assert_eq!(a_out.data(), &expected);
}

#[test]
fn tensor_dot_f32_m2_k2_n2_nn() {
    tensor_dot(2, 2, 2);
}

#[test]
fn tensor_dot_agrees_with_ndarray_on_larger_matrices() {
    tensor_dot(4, 5, 8);
    tensor_dot(16, 3, 1);
}

#[test]
fn scaled_add_agrees_with_ndarray() {
    for n in [7usize, 64, 300] {
        let x: Vec<i64> = (1..10).cycle().take(n).collect();
        let y: Vec<i64> = (11..20).cycle().take(n).collect();
        let x_array = ndarray::Array1::from(x.clone());
        let mut y_array = ndarray::Array1::from(y.clone());
        y_array.scaled_add(2, &x_array);
        let xt = Tensor::from_vec(vec![n], x).unwrap();
        let mut yt = Tensor::from_vec(vec![n], y).unwrap();
        yt.scaled_add(2, &xt).unwrap();
        let expected: Vec<i64> = y_array.iter().copied().collect();
        assert_eq!(yt.data(), &expected);
    }
}
