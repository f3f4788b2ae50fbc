use autograph::scalar::{Device, ScalarType};
use autograph::tensor::Tensor;

#[test]
fn tensor_zeros() {
    let t = Tensor::zeros(vec![64, 1, 28, 28]).unwrap();
    assert_eq!(t.shape(), &vec![64, 1, 28, 28]);
    assert_eq!(t.len(), 64 * 28 * 28);
    assert!(t.data().iter().all(|x| *x == 0));
    assert_eq!(t.scalar_type(), ScalarType::F32);
    assert_eq!(t.device(), Device::Host);
}

#[test]
fn tensor_from_shape_cow() {
    Tensor::from_vec(vec![64, 1, 28, 28], vec![1; 64 * 1 * 28 * 28]).unwrap();
    let x = vec![1, 2, 3, 4];
    let y = Tensor::from_vec(vec![x.len()], x.clone()).unwrap();
    assert_eq!(&x, y.data());
}

#[test]
fn tensor_from_array() {
    let x = ndarray::Array2::<i64>::from_shape_vec([2, 2], vec![1, 2, 3, 4]).unwrap();
    let y = Tensor::from_vec(vec![2, 2], x.iter().copied().collect()).unwrap();
    assert_eq!(y.data(), &vec![1, 2, 3, 4]);
    let y_t = y.transpose().unwrap();
    let x_t: Vec<i64> = x.t().iter().copied().collect();
    assert_eq!(y_t.data(), &x_t);
    assert_eq!(y_t.data(), &vec![1, 3, 2, 4]);
}

fn tensor_from_elem(xs: &[i64]) {
    let n = 1200;
    for x in xs.iter().copied() {
        let y = Tensor::from_elem(vec![n], x).unwrap();
        assert_eq!(y.data(), &vec![x; n]);
    }
}

#[test]
fn test_from_elem_u32() {
    tensor_from_elem(&[1, 33, 1000]);
}

#[test]
fn test_from_elem_i32() {
    tensor_from_elem(&[1, 33, 1000]);
}
