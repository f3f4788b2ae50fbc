use autograph::autograd::graph::Graph;
use autograph::autograd::variable::Variable;
use autograph::conv::{im2col_conv2_index, Conv2Options};
use autograph::layer::pool::MaxPool2;
use autograph::layer::{Forward, Relu};
use autograph::tensor::Tensor;
use std::sync::Arc;

fn cycle(shape: &[usize], from: i64, to: i64) -> Tensor {
    let len: usize = shape.iter().product();
    Tensor::from_vec(shape.to_vec(), (from..to).cycle().take(len).collect()).unwrap()
}

fn relu(input_shape: [usize; 2]) {
    let x = cycle(&input_shape, -10, 10);
    let expected: Vec<i64> = x.data().iter().map(|x| if *x >= 0 { *x } else { 0 }).collect();
    let mut graph = Graph::new(1);
    let y = Relu.forward(Variable::from(x), &mut graph).unwrap();
    assert_eq!(y.value().shape(), &input_shape.to_vec());
    assert_eq!(y.value().data(), &expected);
}

#[test]
fn relu_of_cycles() {
    for input_shape in [[1, 8], [15, 20]] {
        relu(input_shape);
    }
}

fn relu_backward(input_shape: [usize; 2]) {
    let x = cycle(&input_shape, -10, 10);
    let dy = cycle(&input_shape, 0, x.len() as i64);
    let expected: Vec<i64> = x
        .data()
        .iter()
        .zip(dy.data().iter())
        .map(|(x, dy)| if *x > 0 { *dy } else { 0 })
        .collect();
    let dx = Relu.backward(&x, Arc::new(dy)).unwrap();
    assert_eq!(dx.data(), &expected);
}

#[test]
fn relu_backward_of_cycles() {
    for input_shape in [[1, 8], [15, 20]] {
        relu_backward(input_shape);
    }
}

fn pooled(x: &Tensor, filter: [usize; 2], stride: [usize; 2]) -> (Vec<i64>, Vec<usize>, [usize; 4]) {
    let (n, c, ih, iw) = (x.shape()[0], x.shape()[1], x.shape()[2], x.shape()[3]);
    let oh = if ih >= filter[0] { (ih - filter[0]) / stride[0] + 1 } else { 0 };
    let ow = if iw >= filter[1] { (iw - filter[1]) / stride[1] + 1 } else { 0 };
    let mut values = Vec::new();
    let mut places = Vec::new();
    for plane in 0..n * c {
        for oy in 0..oh {
            for ox in 0..ow {
                let mut best = None;
                for ky in 0..filter[0] {
                    for kx in 0..filter[1] {
                        let place = (plane * ih + oy * stride[0] + ky) * iw + ox * stride[1] + kx;
                        match best {
                            Some(b) if x.data()[place] <= x.data()[b] => {}
                            _ => best = Some(place),
                        }
                    }
                }
                let best: usize = best.unwrap();
                values.push(x.data()[best]);
                places.push(best);
            }
        }
    }
    (values, places, [n, c, oh, ow])
}

#[test]
fn max_pool2_of_cycles() {
    let pool = MaxPool2::builder().filter([2, 2]).build();
    for input_shape in [[1, 1, 4, 4], [1, 1, 12, 12], [2, 3, 4, 4], [1, 1, 24, 24]] {
        let x = cycle(&input_shape, 0, 10);
        let (values, _, shape) = pooled(&x, [2, 2], [2, 2]);
        let mut graph = Graph::new(1);
        let y = pool.forward(Variable::from(x), &mut graph).unwrap();
        assert_eq!(y.value().shape(), &shape.to_vec());
        assert_eq!(y.value().data(), &values);
    }
}

#[test]
fn max_pool2_backward_of_cycles() {
    let pool = MaxPool2::builder().filter([2, 2]).build();
    for input_shape in [[1, 1, 4, 4], [1, 1, 12, 12], [2, 3, 4, 4], [1, 1, 24, 24]] {
        let x = cycle(&input_shape, 0, 10);
        let (values, places, shape) = pooled(&x, [2, 2], [2, 2]);
        let dy = Tensor::from_vec(shape.to_vec(), (0..values.len() as i64).collect()).unwrap();
        let mut expected = vec![0; x.len()];
        for (p, place) in places.iter().enumerate() {
            expected[*place] += dy.data()[p];
        }
        let dx = pool.backward(&x, &dy).unwrap();
        assert_eq!(dx.shape(), x.shape());
        assert_eq!(dx.data(), &expected);
    }
}

#[test]
fn max_pool2_with_strides_that_overlap() {
    let pool = MaxPool2::builder().filter([3, 2]).stride([1, 2]).build();
    let x = cycle(&[2, 2, 7, 6], -3, 8);
    let (values, places, shape) = pooled(&x, [3, 2], [1, 2]);
    let mut graph = Graph::new(1);
    let y = pool.forward(Variable::from(x.copy()), &mut graph).unwrap();
    assert_eq!(y.value().shape(), &shape.to_vec());
    assert_eq!(y.value().data(), &values);
    let dy = Tensor::from_elem(shape.to_vec(), 1).unwrap();
    let mut expected = vec![0; x.len()];
    for place in places {
        expected[place] += 1;
    }
    assert_eq!(pool.backward(&x, &dy).unwrap().data(), &expected);
}

#[test]
fn im2col_conv2_of_counts() {
    let options = Conv2Options { filter: [5, 5], padding: [0, 0], stride: [1, 1], dilation: [1, 1] };
    for input_shape in [[1, 1, 5, 5], [1, 1, 12, 12], [2, 3, 5, 5], [1, 1, 24, 24]] {
        let len: usize = input_shape.iter().product();
        let x = Tensor::from_vec(input_shape.to_vec(), (1..=len as i64).collect()).unwrap();
        let patches = im2col_conv2_index(&x, &options).unwrap();
        let [bs, c, ih, iw] = input_shape;
        let (oh, ow) = (ih - 4, iw - 4);
        assert_eq!((patches.oh, patches.ow), (oh, ow));
        assert_eq!(patches.shape, vec![bs * oh * ow, c * 25]);
        let y = x.gather(&patches.index, patches.shape.clone()).unwrap();
        let mut expected = Vec::new();
        for b in 0..bs {
            for oy in 0..oh {
                for ox in 0..ow {
                    for ci in 0..c {
                        for ky in 0..5 {
                            for kx in 0..5 {
                                let place = ((b * c + ci) * ih + oy + ky) * iw + ox + kx;
                                expected.push(x.data()[place]);
                            }
                        }
                    }
                }
            }
        }
        assert_eq!(y.data(), &expected);
        // the patches scattered back: each element counts the patches that hold it
        let ones = Tensor::from_elem(patches.shape.clone(), 1).unwrap();
        let counts = ones.scatter(&patches.index, x.kind()).unwrap();
        let mut expected = vec![0; len];
        for place in patches.index.iter().flatten() {
            expected[*place] += 1;
        }
        assert_eq!(counts.data(), &expected);
    }
}
