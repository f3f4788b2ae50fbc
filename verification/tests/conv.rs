use autograph::autograd::graph::Graph;
use autograph::autograd::parameter::Parameter;
use autograph::autograd::variable::Variable;
use autograph::conv::{im2col_conv2_index, transpose_index, Conv2Options};
use autograph::error::Error;
use autograph::layer::builder::{ConvBuilder, Init};
use autograph::layer::conv::{conv2, Conv1, Conv2, ConvOptions};
use autograph::layer::dense::Dense;
use autograph::layer::pool::MaxPool2;
use autograph::layer::{Flatten, Forward, Layer, Relu};
use autograph::scalar::Device;
use autograph::scalar::ScalarType;
use autograph::tensor::Tensor;

fn counting(shape: Vec<usize>) -> Tensor {
    let len: usize = shape.iter().product();
    Tensor::from_vec(shape, (1..=len as i64).collect()).unwrap()
}

fn plain() -> ConvOptions<[usize; 2]> {
    ConvOptions { padding: [0, 0], stride: [1, 1], dilation: [1, 1] }
}

fn trained(id: u64, value: Tensor) -> Parameter {
    let mut p = Parameter::new(id, value);
    p.set_training(true);
    p
}

/// The convolution written out tap by tap.
fn reference(x: &Tensor, w: &Tensor, bias: Option<&Tensor>, o: &ConvOptions<[usize; 2]>) -> Vec<i64> {
    let (bs, c, ih, iw) = (x.shape()[0], x.shape()[1], x.shape()[2], x.shape()[3]);
    let (outputs, fh, fw) = (w.shape()[0], w.shape()[2], w.shape()[3]);
    let oh = (ih + 2 * o.padding[0] - o.dilation[0] * (fh - 1) - 1) / o.stride[0] + 1;
    let ow = (iw + 2 * o.padding[1] - o.dilation[1] * (fw - 1) - 1) / o.stride[1] + 1;
    let mut out = Vec::new();
    for b in 0..bs {
        for oc in 0..outputs {
            for oy in 0..oh {
                for ox in 0..ow {
                    let mut sum = 0;
                    for ci in 0..c {
                        for ky in 0..fh {
                            for kx in 0..fw {
                                let y = (oy * o.stride[0] + ky * o.dilation[0]) as i64
                                    - o.padding[0] as i64;
                                let xx = (ox * o.stride[1] + kx * o.dilation[1]) as i64
                                    - o.padding[1] as i64;
                                if y >= 0 && (y as usize) < ih && xx >= 0 && (xx as usize) < iw {
                                    let xi = ((b * c + ci) * ih + y as usize) * iw + xx as usize;
                                    let wi = ((oc * c + ci) * fh + ky) * fw + kx;
                                    sum += x.data()[xi] * w.data()[wi];
                                }
                            }
                        }
                    }
                    if let Some(bias) = bias {
                        sum += bias.data()[oc];
                    }
                    out.push(sum);
                }
            }
        }
    }
    out
}

#[test]
fn conv2_of_one_image_with_one_filter() {
    let mut graph = Graph::new(1);
    let x = trained(1, counting(vec![1, 1, 3, 3]));
    let w = trained(2, Tensor::from_vec(vec![1, 1, 2, 2], vec![1, 0, 0, 1]).unwrap());
    let xv = x.to_variable(&mut graph).unwrap();
    let wv = w.to_variable(&mut graph).unwrap();
    let y = conv2(&xv, &wv, plain(), None, &mut graph).unwrap();
    assert_eq!(y.value().shape(), &vec![1, 1, 2, 2]);
    assert_eq!(y.value().data(), &vec![6, 8, 12, 14]);
    let grads = y.sum(&mut graph).unwrap().backward(&mut graph).unwrap();
    assert_eq!(grads.get(&2).unwrap().shape(), &vec![1, 1, 2, 2]);
    assert_eq!(grads.get(&2).unwrap().data(), &vec![12, 16, 24, 28]);
    assert_eq!(grads.get(&1).unwrap().shape(), &vec![1, 1, 3, 3]);
    assert_eq!(grads.get(&1).unwrap().data(), &vec![1, 1, 0, 1, 2, 1, 0, 1, 1]);
}

#[test]
fn conv2_adds_the_bias_to_every_place() {
    let mut graph = Graph::new(1);
    let x = Variable::from(counting(vec![1, 1, 3, 3]));
    let w = Variable::from(Tensor::from_vec(vec![1, 1, 2, 2], vec![1, 0, 0, 1]).unwrap());
    let b = trained(3, Tensor::from_vec(vec![1], vec![10]).unwrap());
    let bv = b.to_variable(&mut graph).unwrap();
    let y = conv2(&x, &w, plain(), Some(&bv), &mut graph).unwrap();
    assert_eq!(y.value().data(), &vec![16, 18, 22, 24]);
    let grads = y.sum(&mut graph).unwrap().backward(&mut graph).unwrap();
    assert_eq!(grads.get(&3).unwrap().data(), &vec![4]);
}

#[test]
fn conv2_pads_with_zeros() {
    let mut graph = Graph::new(1);
    let x = Variable::from(counting(vec![1, 1, 2, 2]));
    let w = Variable::from(Tensor::from_elem(vec![1, 1, 3, 3], 1).unwrap());
    let options = ConvOptions { padding: [1, 1], stride: [1, 1], dilation: [1, 1] };
    let y = conv2(&x, &w, options, None, &mut graph).unwrap();
    assert_eq!(y.value().shape(), &vec![1, 1, 2, 2]);
    assert_eq!(y.value().data(), &vec![10, 10, 10, 10]);
    assert_eq!(graph.len(), 0);
}

#[test]
fn conv2_agrees_with_the_convolution_written_out() {
    let x = counting(vec![2, 3, 5, 6]);
    let w = Tensor::from_vec(
        vec![4, 3, 3, 2],
        (0..72).map(|i| (i % 7) as i64 - 3).collect(),
    )
    .unwrap();
    let bias = Tensor::from_vec(vec![4], vec![1, -2, 3, -4]).unwrap();
    for (padding, stride, dilation) in [
        ([0, 0], [1, 1], [1, 1]),
        ([1, 2], [2, 1], [1, 1]),
        ([2, 1], [1, 2], [2, 2]),
    ] {
        let options = || ConvOptions { padding, stride, dilation };
        let mut graph = Graph::new(1);
        let y = conv2(
            &Variable::from(x.copy()),
            &Variable::from(w.copy()),
            options(),
            Some(&Variable::from(bias.copy())),
            &mut graph,
        )
        .unwrap();
        assert_eq!(y.value().data(), &reference(&x, &w, Some(&bias), &options()));
        assert_eq!(y.value().shape()[0], 2);
        assert_eq!(y.value().shape()[1], 4);
    }
}

#[test]
fn conv2_gradients_by_finite_differences() {
    let x = Tensor::from_vec(vec![1, 2, 3, 3], (0..18).map(|i| (i % 5) as i64 - 2).collect())
        .unwrap();
    let w = Tensor::from_vec(vec![2, 2, 2, 2], (0..16).map(|i| (i % 3) as i64 - 1).collect())
        .unwrap();
    let options = || ConvOptions { padding: [1, 0], stride: [2, 1], dilation: [1, 1] };
    let loss = |x: &Tensor, w: &Tensor| -> i64 { reference(x, w, None, &options()).iter().sum() };
    let mut graph = Graph::new(1);
    let xp = trained(1, x.copy());
    let wp = trained(2, w.copy());
    let xv = xp.to_variable(&mut graph).unwrap();
    let wv = wp.to_variable(&mut graph).unwrap();
    let y = conv2(&xv, &wv, options(), None, &mut graph)
        .unwrap()
        .sum(&mut graph)
        .unwrap();
    let base = loss(&x, &w);
    assert_eq!(y.value().data(), &vec![base]);
    let grads = y.backward(&mut graph).unwrap();
    for i in 0..x.len() {
        let mut data = x.data().clone();
        data[i] += 1;
        let moved = Tensor::from_vec(x.shape().clone(), data).unwrap();
        assert_eq!(loss(&moved, &w) - base, grads.get(&1).unwrap().data()[i]);
    }
    for i in 0..w.len() {
        let mut data = w.data().clone();
        data[i] += 1;
        let moved = Tensor::from_vec(w.shape().clone(), data).unwrap();
        assert_eq!(loss(&x, &moved) - base, grads.get(&2).unwrap().data()[i]);
    }
}

#[test]
fn conv2_refuses_what_does_not_fit() {
    let mut graph = Graph::new(1);
    let x = Variable::from(counting(vec![1, 2, 3, 3]));
    let w = Variable::from(counting(vec![1, 1, 2, 2]));
    assert_eq!(conv2(&x, &w, plain(), None, &mut graph).err(), Some(Error::Mismatch));
    let flat = Variable::from(counting(vec![2, 9]));
    assert_eq!(conv2(&flat, &w, plain(), None, &mut graph).err(), Some(Error::Mismatch));
    let x = Variable::from(counting(vec![1, 1, 3, 3]));
    let still = ConvOptions { padding: [0, 0], stride: [0, 1], dilation: [1, 1] };
    assert_eq!(conv2(&x, &w, still, None, &mut graph).err(), Some(Error::Mismatch));
    let wide = ConvOptions { padding: [usize::MAX, 0], stride: [1, 1], dilation: [1, 1] };
    assert_eq!(conv2(&x, &w, wide, None, &mut graph).err(), Some(Error::TooLarge));
    let mut bytes = counting(vec![1, 1, 3, 3]);
    bytes.cast_mut(ScalarType::U8);
    assert_eq!(
        conv2(&Variable::from(bytes), &w, plain(), None, &mut graph).err(),
        Some(Error::Unimplemented)
    );
    let large = Variable::from(counting(vec![1, 1, 4, 4]));
    let small = Variable::from(counting(vec![1, 1, 2, 2]));
    let y = conv2(&small, &large, plain(), None, &mut graph).unwrap();
    assert_eq!(y.value().shape(), &vec![1, 1, 0, 0]);
    assert_eq!(graph.len(), 0);
}

#[test]
fn patches_of_an_image() {
    let x = counting(vec![1, 1, 3, 3]);
    let options = Conv2Options { filter: [2, 2], padding: [0, 0], stride: [1, 1], dilation: [1, 1] };
    let patches = im2col_conv2_index(&x, &options).unwrap();
    assert_eq!(patches.shape, vec![4, 4]);
    assert_eq!((patches.oh, patches.ow), (2, 2));
    let places: Vec<usize> = patches.index.iter().map(|p| p.unwrap()).collect();
    assert_eq!(places, vec![0, 1, 3, 4, 1, 2, 4, 5, 3, 4, 6, 7, 4, 5, 7, 8]);
    let padded = Conv2Options { filter: [1, 1], padding: [1, 0], stride: [1, 1], dilation: [1, 1] };
    let patches = im2col_conv2_index(&counting(vec![1, 1, 1, 2]), &padded).unwrap();
    assert_eq!(
        patches.index,
        vec![None, None, Some(0), Some(1), None, None]
    );
}

#[test]
fn transposes_in_batches() {
    let index = transpose_index(2, 2, 3).unwrap();
    let places: Vec<usize> = index.iter().map(|p| p.unwrap()).collect();
    assert_eq!(places, vec![0, 3, 1, 4, 2, 5, 6, 9, 7, 10, 8, 11]);
    assert_eq!(transpose_index(usize::MAX, 2, 1).err(), Some(Error::TooLarge));
    assert!(transpose_index(0, usize::MAX, usize::MAX).unwrap().is_empty());
}

#[test]
fn conv_layers() {
    let init = Init { weight_id: 5, weight: vec![1, 0, 0, 1], bias_id: 6, bias: vec![-20] };
    let mut conv = Conv2::builder()
        .inputs(1)
        .outputs(1)
        .filter([2, 2])
        .bias(true)
        .activation(Relu)
        .build(init)
        .unwrap();
    assert_eq!(conv.weight().value().shape(), &vec![1, 1, 2, 2]);
    assert_eq!(conv.bias().unwrap().value().shape(), &vec![1]);
    conv.set_training(true).unwrap();
    let mut graph = Graph::new(1);
    let y = conv.forward(Variable::from(counting(vec![1, 1, 3, 3])), &mut graph).unwrap();
    // [6, 8, 12, 14] - 20, rectified
    assert_eq!(y.value().data(), &vec![0, 0, 0, 0]);
    let grads = y.sum(&mut graph).unwrap().backward(&mut graph).unwrap();
    assert_eq!(grads.get(&5).unwrap().data(), &vec![0, 0, 0, 0]);
    assert_eq!(grads.get(&6).unwrap().data(), &vec![0]);
    assert_eq!(conv.parameters().len(), 2);
    assert!(conv.weight_view_mut().is_ok());
    assert!(conv.bias_view_mut().unwrap().is_some());
    conv.cast_mut(ScalarType::BF16).unwrap();
    assert_eq!(conv.weight().value().scalar_type(), ScalarType::BF16);

    let strided = ConvBuilder::<[usize; 2]>::new()
        .inputs(1)
        .outputs(2)
        .filter([1, 1])
        .stride([2, 2])
        .padding([0, 0])
        .dilation([1, 1])
        .build(Init { weight_id: 1, weight: vec![1, -1], bias_id: 2, bias: vec![] })
        .unwrap();
    let mut graph = Graph::new(2);
    let y = strided.forward(Variable::from(counting(vec![1, 1, 3, 3])), &mut graph).unwrap();
    assert_eq!(y.value().shape(), &vec![1, 2, 2, 2]);
    assert_eq!(y.value().data(), &vec![1, 3, 7, 9, -1, -3, -7, -9]);

    assert_eq!(
        Conv2::builder()
            .inputs(1)
            .outputs(1)
            .filter([2, 2])
            .build(Init { weight_id: 1, weight: vec![1, 2, 3], bias_id: 2, bias: vec![] })
            .err(),
        Some(Error::Mismatch)
    );
    assert_eq!(
        Conv2::builder()
            .scalar_type(ScalarType::I8)
            .build(Init { weight_id: 1, weight: vec![], bias_id: 2, bias: vec![] })
            .err(),
        Some(Error::Unimplemented)
    );
}

#[test]
fn conv1_convolves_signals() {
    let mut conv = Conv1::builder()
        .inputs(1)
        .outputs(1)
        .filter([2])
        .build(Init { weight_id: 5, weight: vec![1, 1], bias_id: 6, bias: vec![] })
        .unwrap();
    conv.set_training(true).unwrap();
    let mut graph = Graph::new(1);
    let x = Tensor::from_vec(vec![1, 1, 4], vec![1, 2, 3, 4]).unwrap();
    let y = conv.forward(Variable::from(x), &mut graph).unwrap();
    assert_eq!(y.value().shape(), &vec![1, 1, 3]);
    assert_eq!(y.value().data(), &vec![3, 5, 7]);
    let grads = y.sum(&mut graph).unwrap().backward(&mut graph).unwrap();
    assert_eq!(grads.get(&5).unwrap().shape(), &vec![1, 1, 2]);
    assert_eq!(grads.get(&5).unwrap().data(), &vec![6, 9]);
    let mut graph = Graph::new(2);
    let images = Variable::from(counting(vec![1, 1, 2, 2]));
    assert_eq!(conv.forward(images, &mut graph).err(), Some(Error::Mismatch));
}

#[test]
fn gather_and_scatter() {
    let x = Tensor::from_vec(vec![4], vec![10, 20, 30, 40]).unwrap();
    let index = vec![Some(3), None, Some(0), Some(3)];
    let y = x.gather(&index, vec![2, 2]).unwrap();
    assert_eq!(y.shape(), &vec![2, 2]);
    assert_eq!(y.data(), &vec![40, 0, 10, 40]);
    assert_eq!(x.gather(&index, vec![3]).err(), Some(Error::Mismatch));
    assert_eq!(x.gather(&vec![Some(4)], vec![1]).err(), Some(Error::Mismatch));
    let dy = Tensor::from_vec(vec![2, 2], vec![1, 2, 3, 4]).unwrap();
    let dx = dy.scatter(&index, x.kind()).unwrap();
    assert_eq!(dx.shape(), &vec![4]);
    assert_eq!(dx.data(), &vec![3, 0, 0, 5]);
    assert_eq!(
        Tensor::scalar(1).scatter(&index, x.kind()).err(),
        Some(Error::Mismatch)
    );
    let mut graph = Graph::new(1);
    let p = trained(1, x);
    let v = p.to_variable(&mut graph).unwrap();
    let g = v.gather(index, vec![2, 2], &mut graph).unwrap();
    let grads = g.sum(&mut graph).unwrap().backward(&mut graph).unwrap();
    assert_eq!(grads.get(&1).unwrap().data(), &vec![1, 0, 0, 2]);
}

#[test]
fn a_network_of_layers_of_several_types() {
    let conv = Conv2::builder()
        .inputs(1)
        .outputs(2)
        .filter([2, 2])
        .activation(Relu)
        .build(Init { weight_id: 1, weight: vec![1, 0, 0, 1, 1, 1, 1, 1], bias_id: 2, bias: vec![] })
        .unwrap();
    let pool = MaxPool2::builder().filter([2, 2]).build();
    let dense = Dense::builder()
        .inputs(2)
        .outputs(1)
        .bias(true)
        .build(Init { weight_id: 3, weight: vec![1, -1], bias_id: 4, bias: vec![100] })
        .unwrap();
    let mut network = (conv, (pool, (Flatten, dense)));
    network.set_training(true).unwrap();
    {
        let parameters = network.parameters();
        assert_eq!(parameters.len(), 3);
        assert_eq!(parameters.get(0).unwrap().id(), 1);
        assert_eq!(parameters.get(1).unwrap().id(), 3);
        assert_eq!(parameters.get(2).unwrap().id(), 4);
    }
    let mut graph = Graph::new(1);
    // the first filter gives [[6, 8], [12, 14]], the second [[12, 16], [24, 28]];
    // pooled: 14 and 28; the dense layer: 14 - 28 + 100
    let y = network.forward(Variable::from(counting(vec![1, 1, 3, 3])), &mut graph).unwrap();
    assert_eq!(y.value().shape(), &vec![1, 1]);
    assert_eq!(y.value().data(), &vec![86]);
    let gradients = y.sum(&mut graph).unwrap().backward(&mut graph).unwrap();
    assert_eq!(gradients.get(&3).unwrap().data(), &vec![14, 28]);
    assert_eq!(gradients.get(&4).unwrap().data(), &vec![1]);
    // the greatest of each channel is the last place, whose patch is [5, 6, 8, 9]
    assert_eq!(
        gradients.get(&1).unwrap().data(),
        &vec![5, 6, 8, 9, -5, -6, -8, -9]
    );
    drop(y);
    {
        let views = network.parameters_mut().unwrap().into_vec();
        assert_eq!(views.iter().map(|v| v.id()).collect::<Vec<_>>(), vec![1, 3, 4]);
    }
    network.to_device_mut(Device::Accelerator(1)).unwrap();
    let network = network.into_device(Device::Host).unwrap();
    assert_eq!(network.0.weight().value().device(), Device::Host);
    // a layer that fails ends the pass
    let mut graph = Graph::new(2);
    assert_eq!(
        network.forward(Variable::from(counting(vec![3, 3])), &mut graph).err(),
        Some(Error::Mismatch)
    );
}

#[test]
fn scattering_back_is_the_gradient_of_gathering() {
    let inner = |a: &Tensor, b: &Tensor| -> i64 {
        a.data().iter().zip(b.data().iter()).map(|(x, y)| x * y).sum()
    };
    let x = Tensor::from_vec(vec![3], vec![1, 2, 3]).unwrap();
    let index = vec![Some(2), None, Some(0), Some(2)];
    let g = Tensor::from_vec(vec![4], vec![5, 6, 7, 8]).unwrap();
    let gathered = x.gather(&index, vec![4]).unwrap();
    assert_eq!(gathered.data(), &vec![3, 0, 1, 3]);
    let back = g.scatter(&index, x.kind()).unwrap();
    assert_eq!(back.data(), &vec![7, 0, 13]);
    assert_eq!(inner(&gathered, &g), 46);
    assert_eq!(inner(&x, &back), 46);
    for q in 0..3 {
        let mut data = x.data().clone();
        data[q] += 1;
        let moved = Tensor::from_vec(vec![3], data).unwrap();
        let again = moved.gather(&index, vec![4]).unwrap();
        assert_eq!(inner(&again, &g) - inner(&gathered, &g), back.data()[q]);
    }
}

#[test]
fn the_patches_of_a_convolution_send_their_gradients_back_to_the_image() {
    let inner = |a: &Tensor, b: &Tensor| -> i64 {
        a.data().iter().zip(b.data().iter()).map(|(x, y)| x * y).sum()
    };
    let image = counting(vec![1, 1, 3, 3]);
    let options = Conv2Options { filter: [2, 2], padding: [1, 0], stride: [1, 1], dilation: [1, 1] };
    let patches = im2col_conv2_index(&image, &options).unwrap();
    let rows = patches.index.len() / 4;
    let gathered = image.gather(&patches.index, vec![rows, 4]).unwrap();
    let g = Tensor::from_vec(vec![rows, 4], (0..(rows * 4) as i64).map(|v| 2 * v - 7).collect()).unwrap();
    let back = g.scatter(&patches.index, image.kind()).unwrap();
    assert_eq!(inner(&gathered, &g), inner(&image, &back));
    for q in 0..9 {
        let mut data = image.data().clone();
        data[q] += 1;
        let moved = Tensor::from_vec(vec![1, 1, 3, 3], data).unwrap();
        let again = moved.gather(&patches.index, vec![rows, 4]).unwrap();
        assert_eq!(inner(&again, &g) - inner(&gathered, &g), back.data()[q]);
    }
}
