use autograph::error::Error;
use autograph::kernel::get_nblocks_nthreads;
use autograph::scalar::{
    relu_backward_impl, relu_impl, scalar_add, scalar_mul, Device, ScalarType,
};
use autograph::tensor::{checked_size, Tensor};

fn vector(data: Vec<i64>) -> Tensor {
    Tensor::from_vec(vec![data.len()], data).unwrap()
}

#[test]
fn scalar_arithmetic_saturates() {
    assert_eq!(scalar_add(2, 3), 5);
    assert_eq!(scalar_add(i64::MAX, 1), i64::MAX);
    assert_eq!(scalar_add(i64::MIN, -1), i64::MIN);
    assert_eq!(scalar_mul(-4, 5), -20);
    assert_eq!(scalar_mul(i64::MAX, 2), i64::MAX);
    assert_eq!(scalar_mul(i64::MAX, -2), i64::MIN);
    assert_eq!(scalar_mul(i64::MIN, -1), i64::MAX);
}

#[test]
fn relu_of_scalars() {
    assert_eq!(relu_impl(-3), 0);
    assert_eq!(relu_impl(0), 0);
    assert_eq!(relu_impl(7), 7);
    assert_eq!(relu_backward_impl(-1, 5), 0);
    assert_eq!(relu_backward_impl(0, 5), 0);
    assert_eq!(relu_backward_impl(2, 5), 5);
}

#[test]
fn relu_backward_does_not_propagate_at_the_boundary() {
    let x = vector(vec![-1, 0, 2]);
    let y = x.relu().unwrap();
    assert_eq!(y.data(), &vec![0, 0, 2]);
    let dy = vector(vec![1, 1, 1]);
    let dx = x.relu_backward(&dy).unwrap();
    assert_eq!(dx.data(), &vec![0, 0, 1]);
}

#[test]
fn relu_is_implemented_for_two_precisions() {
    let mut x = vector(vec![-1, 1]);
    x.cast_mut(ScalarType::BF16);
    assert_eq!(x.relu().unwrap().data(), &vec![0, 1]);
    x.cast_mut(ScalarType::U8);
    assert_eq!(x.relu().err(), Some(Error::Unimplemented));
    assert!(ScalarType::F32.trainable());
    assert!(!ScalarType::F64.trainable());
}

#[test]
fn from_vec_checks_the_number_of_elements() {
    assert!(Tensor::from_vec(vec![2, 3], vec![0; 6]).is_ok());
    assert_eq!(Tensor::from_vec(vec![2, 3], vec![0; 5]).err(), Some(Error::Mismatch));
    assert_eq!(Tensor::from_vec(vec![], vec![]).err(), Some(Error::Mismatch));
    assert!(Tensor::from_vec(vec![], vec![9]).is_ok());
    assert!(Tensor::from_vec(vec![usize::MAX, 0, usize::MAX], vec![]).is_ok());
    assert_eq!(
        Tensor::from_vec(vec![usize::MAX, 2], vec![1]).err(),
        Some(Error::Mismatch)
    );
}

#[test]
fn sizes_of_shapes() {
    assert_eq!(checked_size(&vec![]), Some(1));
    assert_eq!(checked_size(&vec![2, 3, 4]), Some(24));
    assert_eq!(checked_size(&vec![5, 0, 7]), Some(0));
    assert_eq!(checked_size(&vec![usize::MAX, 2]), None);
    assert_eq!(checked_size(&vec![usize::MAX, 2, 0]), Some(0));
    assert_eq!(
        Tensor::from_elem(vec![usize::MAX, 2], 1).err(),
        Some(Error::TooLarge)
    );
}

#[test]
fn elementwise_operations() {
    let a = vector(vec![1, -2, 3]);
    let b = vector(vec![10, 20, 30]);
    assert_eq!(a.add(&b).unwrap().data(), &vec![11, 18, 33]);
    assert_eq!(a.mul(&b).unwrap().data(), &vec![10, -40, 90]);
    assert_eq!(a.scale(-3).data(), &vec![-3, 6, -9]);
    assert_eq!(a.sum().data(), &vec![2]);
    assert_eq!(a.sum().shape(), &Vec::<usize>::new());
    assert_eq!(a.full_like(4).data(), &vec![4, 4, 4]);
    assert_eq!(a.copy().data(), a.data());
    let c = vector(vec![1, 2]);
    assert_eq!(a.add(&c).err(), Some(Error::Mismatch));
    assert_eq!(a.mul(&c).err(), Some(Error::Mismatch));
    assert_eq!(a.relu_backward(&c).err(), Some(Error::Mismatch));
}

#[test]
fn kinds_must_agree_in_precision_and_device() {
    let a = vector(vec![1, 2]);
    let mut b = vector(vec![3, 4]);
    b.cast_mut(ScalarType::BF16);
    assert_eq!(a.add(&b).err(), Some(Error::Mismatch));
    b.cast_mut(ScalarType::F32);
    b.to_device_mut(Device::Accelerator(0));
    assert_eq!(a.add(&b).err(), Some(Error::Mismatch));
    assert_eq!(b.device(), Device::Accelerator(0));
    b.to_device_mut(Device::Host);
    assert_eq!(a.add(&b).unwrap().data(), &vec![4, 6]);
}

#[test]
fn sum_saturates_front_to_back() {
    let a = vector(vec![i64::MAX, 1, -1]);
    assert_eq!(a.sum().data(), &vec![i64::MAX - 1]);
    let b = vector(vec![1, -1, i64::MAX]);
    assert_eq!(b.sum().data(), &vec![i64::MAX]);
}

#[test]
fn scaled_add_in_place() {
    let mut y = vector(vec![11, 12, 13]);
    let x = vector(vec![1, 2, 3]);
    y.scaled_add(2, &x).unwrap();
    assert_eq!(y.data(), &vec![13, 16, 19]);
    let z = vector(vec![1]);
    assert_eq!(y.scaled_add(2, &z).err(), Some(Error::Mismatch));
    assert_eq!(y.data(), &vec![13, 16, 19]);
}

#[test]
fn reshaping_keeps_the_elements() {
    let a = Tensor::from_vec(vec![2, 3], vec![1, 2, 3, 4, 5, 6]).unwrap();
    let b = a.copy().into_shape(vec![3, 2]).unwrap();
    assert_eq!(b.shape(), &vec![3, 2]);
    assert_eq!(b.data(), &vec![1, 2, 3, 4, 5, 6]);
    assert_eq!(a.into_shape(vec![4]).err(), Some(Error::Mismatch));
}

#[test]
fn matrix_operations() {
    let a = Tensor::from_vec(vec![2, 3], vec![1, 2, 3, 4, 5, 6]).unwrap();
    let b = Tensor::from_vec(vec![3, 2], vec![7, 8, 9, 10, 11, 12]).unwrap();
    let c = a.dot(&b).unwrap();
    assert_eq!(c.shape(), &vec![2, 2]);
    assert_eq!(c.data(), &vec![58, 64, 139, 154]);
    assert_eq!(a.dot(&a).err(), Some(Error::Mismatch));
    let t = a.transpose().unwrap();
    assert_eq!(t.shape(), &vec![3, 2]);
    assert_eq!(t.data(), &vec![1, 4, 2, 5, 3, 6]);
    let bias = vector(vec![10, 20, 30]);
    assert_eq!(a.add_rows(&bias).unwrap().data(), &vec![11, 22, 33, 14, 25, 36]);
    assert_eq!(a.add_rows(&vector(vec![1, 2])).err(), Some(Error::Mismatch));
    let s = a.sum_rows().unwrap();
    assert_eq!(s.shape(), &vec![3]);
    assert_eq!(s.data(), &vec![5, 7, 9]);
    assert_eq!(bias.sum_rows().err(), Some(Error::Mismatch));
    assert_eq!(bias.transpose().err(), Some(Error::Mismatch));
}

#[test]
fn argmax_takes_the_first_greatest_element() {
    let a = Tensor::from_vec(vec![3, 3], vec![1, 5, 5, 9, 2, 3, -4, -4, -7]).unwrap();
    assert_eq!(a.argmax_rows().unwrap(), vec![1, 0, 0]);
    let empty = Tensor::from_vec(vec![2, 0], vec![]).unwrap();
    assert_eq!(empty.argmax_rows().err(), Some(Error::Mismatch));
    assert_eq!(vector(vec![1]).argmax_rows().err(), Some(Error::Mismatch));
}

#[test]
fn launch_layout_covers_every_item() {
    assert_eq!(get_nblocks_nthreads(0), (0, 32));
    assert_eq!(get_nblocks_nthreads(1), (1, 32));
    assert_eq!(get_nblocks_nthreads(32), (1, 32));
    assert_eq!(get_nblocks_nthreads(33), (2, 32));
    assert_eq!(get_nblocks_nthreads(u32::MAX), (134217728, 32));
}
