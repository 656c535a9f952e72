use condor::buffer::Buffer;
use condor::error::ShapeError;
use condor::tensor::{DimType, MatMul, Repeat1, Repeat2, Repeat3, Tensor};

fn t(dims: &[u64]) -> Tensor {
    Tensor::new(dims).unwrap()
}

#[test]
fn new_keeps_the_axes() {
    let x = t(&[15, 50, 100]);
    assert_eq!(x.size(), vec![15, 50, 100]);
    assert_eq!(x.rank(), 3);
    assert_eq!(x.numel(), 75_000);
    assert_eq!(x.last_dim(), 100);
    assert_eq!(x.dim(1), Some(50));
    assert_eq!(x.dim(3), None);
}

#[test]
fn new_rejects_what_is_no_shape() {
    assert_eq!(Tensor::new(&[]).unwrap_err(), ShapeError::Invalid);
    assert_eq!(Tensor::new(&[1, 2, 3, 4, 5, 6]).unwrap_err(), ShapeError::Invalid);
    assert_eq!(Tensor::new(&[3, 0, 2]).unwrap_err(), ShapeError::Invalid);
    assert_eq!(Tensor::new(&[u64::MAX, 2]).unwrap_err(), ShapeError::TooLarge);
    assert_eq!(
        Tensor::new(&[1 << 20, 1 << 20, 1 << 20, 1 << 4]).unwrap_err(),
        ShapeError::TooLarge
    );
    assert_eq!(t(&[1 << 20, 1 << 20, 1 << 20, 1 << 3]).numel(), 1 << 63);
}

#[test]
fn tests_test_1d_tensor() {
    let tmp = [3., 2., 4.];
    let tensor: Buffer<f32> = Buffer::from_arr(&tmp).unwrap();

    let tmp = [3., 2., 3.];
    let tensor2: Buffer<f32> = Buffer::from_arr(&tmp).unwrap();

    let tensor3 = tensor.zip_with(&tensor2, |a, b| a + b).unwrap();
    let tensor4 = tensor.zip_with(&tensor2, |a, b| a - b).unwrap();
    let tensor5 = tensor.zip_with(&tensor2, |a, b| a * b).unwrap();
    let tensor6 = tensor.zip_with(&tensor2, |a, b| a / b).unwrap();
    for result in [&tensor3, &tensor4, &tensor5, &tensor6] {
        assert_eq!(result.shape().size(), vec![3]);
    }
    assert_eq!(tensor3.data(), &vec![6., 4., 7.]);
    assert_eq!(tensor4.data(), &vec![0., 0., 1.]);
    assert_eq!(tensor5.data(), &vec![9., 4., 12.]);
    assert_eq!(tensor6.data(), &vec![1., 1., 4. / 3.]);

    let shape = tensor.shape();
    assert_eq!(shape.add(&tensor2.shape()).unwrap().size(), vec![3]);
    assert_eq!(shape.sub(&tensor2.shape()).unwrap().size(), vec![3]);
    assert_eq!(shape.mul(&tensor2.shape()).unwrap().size(), vec![3]);
    assert_eq!(shape.div(&tensor2.shape()).unwrap().size(), vec![3]);
}

#[test]
fn tests_test_2d_tensor() {
    let tmp = vec![vec![3., 2., 4.], vec![3.4, 4.5, 2.3]];
    let tensor: Buffer<f32> = Buffer::from_arr_2d(&tmp).unwrap();

    let tmp = vec![vec![3., 2., 3.], vec![12.3, 4.4, 56.4]];
    let tensor2: Buffer<f32> = Buffer::from_arr_2d(&tmp).unwrap();

    let tensor3 = tensor.zip_with(&tensor2, |a, b| a + b).unwrap();
    let tensor4 = tensor.zip_with(&tensor2, |a, b| a - b).unwrap();
    let tensor5 = tensor.zip_with(&tensor2, |a, b| a * b).unwrap();
    let tensor6 = tensor.zip_with(&tensor2, |a, b| a / b).unwrap();
    for result in [&tensor3, &tensor4, &tensor5, &tensor6] {
        assert_eq!(result.shape().size(), vec![2, 3]);
    }
    assert_eq!(tensor3.data(), &vec![6., 4., 7., 3.4f32 + 12.3, 4.5f32 + 4.4, 2.3f32 + 56.4]);
    assert_eq!(tensor4.data(), &vec![0., 0., 1., 3.4f32 - 12.3, 4.5f32 - 4.4, 2.3f32 - 56.4]);
    assert_eq!(tensor5.data(), &vec![9., 4., 12., 3.4f32 * 12.3, 4.5f32 * 4.4, 2.3f32 * 56.4]);
    assert_eq!(tensor6.data(), &vec![1., 1., 4. / 3., 3.4f32 / 12.3, 4.5f32 / 4.4, 2.3f32 / 56.4]);

    let shape = tensor.shape();
    assert_eq!(shape.add(&tensor2.shape()).unwrap().size(), vec![2, 3]);
    assert_eq!(shape.sub(&tensor2.shape()).unwrap().size(), vec![2, 3]);
    assert_eq!(shape.mul(&tensor2.shape()).unwrap().size(), vec![2, 3]);
    assert_eq!(shape.div(&tensor2.shape()).unwrap().size(), vec![2, 3]);
}

#[test]
fn tests_add_tensors_fn() {
    fn add(t1: &Buffer<f32>, t2: &Buffer<f32>) -> Buffer<f32> {
        t1.zip_with(t2, |a, b| a + b).unwrap()
    }

    let tmp = vec![vec![3., 2., 4.], vec![3.4, 4.5, 2.3]];
    let tensor: Buffer<f32> = Buffer::from_arr_2d(&tmp).unwrap();

    let tmp = vec![vec![3., 2., 3.], vec![12.3, 4.4, 56.4]];
    let tensor2: Buffer<f32> = Buffer::from_arr_2d(&tmp).unwrap();

    let tensor3 = add(&tensor, &tensor2);
    assert!(tensor3.shape().same_shape(&tensor.shape()));
    assert_eq!(tensor3.data(), &vec![6., 4., 7., 3.4f32 + 12.3, 4.5f32 + 4.4, 2.3f32 + 56.4]);
}

#[test]
fn test_reshape() {
    fn unsqueeze_repeat_tensor2(tensor2: Buffer<f32>, repeats: u64) -> Buffer<f32> {
        tensor2.repeat(0, repeats).unwrap()
    }
    const BATCH: u64 = 10;
    let tensor: Buffer<f32> =
        Buffer::from_arr_2d(&vec![vec![0.25, 0.5, 0.75], vec![0.125, 0.375, 0.625]]).unwrap();
    let tensor1 = tensor.unsqueeze_start().unwrap();
    assert_eq!(tensor1.shape().size(), vec![1, 2, 3]);
    assert_eq!(tensor1.shape().repeat_1(BATCH).unwrap().size(), vec![10, 2, 3]);
    let tensor2 = unsqueeze_repeat_tensor2(tensor1, BATCH);
    assert_eq!(tensor2.shape().size(), vec![10, 2, 3]);
    for i in 0..BATCH {
        assert_eq!(tensor2.get(i).unwrap().data(), tensor.data());
    }
}

#[test]
fn elementwise_needs_equal_shapes_or_a_bias() {
    let m = t(&[4, 7]);
    assert_eq!(m.add(&t(&[7])).unwrap().size(), vec![4, 7]);
    assert_eq!(t(&[2, 4, 7]).mul(&t(&[7])).unwrap().size(), vec![2, 4, 7]);
    assert_eq!(m.add(&t(&[4])).unwrap_err(), ShapeError::Mismatch);
    assert_eq!(m.sub(&t(&[7, 4])).unwrap_err(), ShapeError::Mismatch);
    assert_eq!(m.div(&t(&[1, 7])).unwrap_err(), ShapeError::Mismatch);
    assert_eq!(t(&[7]).add(&m).unwrap_err(), ShapeError::Mismatch);
    // the sum has the left shape, so taking the operand away again is defined
    let sum = m.add(&t(&[7])).unwrap();
    assert!(sum.sub(&t(&[7])).unwrap().same_shape(&m));
}

#[test]
fn matmul_of_matrices() {
    let a = t(&[3, 4]);
    let b = t(&[4, 5]);
    assert_eq!(Tensor::matmul(&a, &b).unwrap().size(), vec![3, 5]);
    assert_eq!(MatMul::matmul(&a, &b).unwrap().size(), vec![3, 5]);
    assert_eq!(a.matmul(&t(&[5, 4])).unwrap_err(), ShapeError::Mismatch);
    // (A B)^T and B^T A^T
    let left = a.matmul(&b).unwrap().tr().unwrap();
    let right = b.tr().unwrap().matmul(&a.tr().unwrap()).unwrap();
    assert_eq!(left.size(), vec![5, 3]);
    assert!(left.same_shape(&right));
}

#[test]
fn matmul_of_other_ranks() {
    assert_eq!(t(&[4]).matmul(&t(&[4, 5])).unwrap().size(), vec![5]);
    assert_eq!(t(&[3, 4]).matmul(&t(&[4])).unwrap().size(), vec![3]);
    assert_eq!(t(&[2, 3, 4]).matmul(&t(&[4, 5])).unwrap().size(), vec![2, 3, 5]);
    assert_eq!(t(&[2, 3, 4]).matmul(&t(&[4])).unwrap().size(), vec![2, 3]);
    assert_eq!(
        t(&[2, 6, 3, 4]).matmul(&t(&[2, 6, 4, 3])).unwrap().size(),
        vec![2, 6, 3, 3]
    );
    assert_eq!(
        t(&[2, 6, 3, 4]).matmul(&t(&[2, 5, 4, 3])).unwrap_err(),
        ShapeError::Mismatch
    );
    assert_eq!(t(&[4]).matmul(&t(&[4])).unwrap_err(), ShapeError::NotImplemented);
    assert_eq!(t(&[3, 4]).matmul(&t(&[2, 4, 5])).unwrap_err(), ShapeError::NotImplemented);
    assert_eq!(t(&[4]).matmul(&t(&[2, 4, 5])).unwrap_err(), ShapeError::NotImplemented);
    assert_eq!(
        t(&[1 << 40, 1]).matmul(&t(&[1, 1 << 40])).unwrap_err(),
        ShapeError::TooLarge
    );
}

#[test]
fn transpose_exchanges_two_axes() {
    let x = t(&[2, 3, 4, 5]);
    assert_eq!(x.transpose(1, 2).unwrap().size(), vec![2, 4, 3, 5]);
    assert_eq!(x.transpose(3, 0).unwrap().size(), vec![5, 3, 4, 2]);
    assert_eq!(x.transpose(2, 2).unwrap().size(), vec![2, 3, 4, 5]);
    assert_eq!(x.transpose(1, 4).unwrap_err(), ShapeError::OutOfRange);
    assert_eq!(x.tr().unwrap_err(), ShapeError::Mismatch);
    assert_eq!(t(&[2, 3]).tr().unwrap().size(), vec![3, 2]);
}

#[test]
fn reshape_keeps_the_element_count() {
    let x = t(&[2, 3, 4]);
    assert_eq!(x.reshape(&[6, 4]).unwrap().size(), vec![6, 4]);
    assert_eq!(x.reshape(&[24]).unwrap().size(), vec![24]);
    assert_eq!(x.reshape(&[5, 5]).unwrap_err(), ShapeError::Mismatch);
    assert_eq!(x.reshape(&[]).unwrap_err(), ShapeError::Invalid);
    assert_eq!(x.reshape(&[24, 0]).unwrap_err(), ShapeError::Invalid);
    assert_eq!(x.reshape(&[u64::MAX, 24]).unwrap_err(), ShapeError::TooLarge);
}

#[test]
fn unsqueeze_and_squeeze_undo_each_other() {
    let x = t(&[2, 3]);
    let front = x.unsqueeze_start().unwrap();
    assert_eq!(front.size(), vec![1, 2, 3]);
    assert!(front.squeeze_start().unwrap().same_shape(&x));
    let back = x.unsqueeze_end().unwrap();
    assert_eq!(back.size(), vec![2, 3, 1]);
    assert!(back.squeeze_end().unwrap().same_shape(&x));
    assert_eq!(x.squeeze_start().unwrap_err(), ShapeError::Mismatch);
    assert_eq!(x.squeeze_end().unwrap_err(), ShapeError::Mismatch);
    assert_eq!(t(&[1]).squeeze_start().unwrap_err(), ShapeError::Invalid);
    assert_eq!(t(&[1]).squeeze_end().unwrap_err(), ShapeError::Invalid);
    let full = t(&[1, 2, 3, 4, 5]);
    assert_eq!(full.unsqueeze_start().unwrap_err(), ShapeError::Invalid);
    assert_eq!(full.unsqueeze_end().unwrap_err(), ShapeError::Invalid);
}

#[test]
fn repeat_tiles_an_axis_of_size_one() {
    let x = t(&[1, 3, 1]);
    assert_eq!(x.repeat_1(5).unwrap().size(), vec![5, 3, 1]);
    assert_eq!(x.repeat_3(4).unwrap().size(), vec![1, 3, 4]);
    assert_eq!(t(&[2, 1]).repeat_2(7).unwrap().size(), vec![2, 7]);
    assert_eq!(x.repeat(0, 1).unwrap().size(), vec![1, 3, 1]);
    assert_eq!(x.repeat_2(2).unwrap_err(), ShapeError::Mismatch);
    assert_eq!(x.repeat(3, 2).unwrap_err(), ShapeError::OutOfRange);
    assert_eq!(x.repeat(0, 0).unwrap_err(), ShapeError::Invalid);
    assert_eq!(t(&[1, 1 << 63]).repeat(0, 4).unwrap_err(), ShapeError::TooLarge);
    // every entry of the tiled tensor has the shape of the one entry before
    let tiled = x.repeat_1(5).unwrap();
    for i in 0..5 {
        assert!(tiled.get(i).unwrap().same_shape(&x.get(0).unwrap()));
    }
    assert_eq!(tiled.get(5).unwrap_err(), ShapeError::OutOfRange);
}

#[test]
fn cat_adds_up_one_axis() {
    let a = t(&[2, 3, 4]);
    assert_eq!(a.cat_1(&t(&[5, 3, 4])).unwrap().size(), vec![7, 3, 4]);
    assert_eq!(a.cat_2(&t(&[2, 1, 4])).unwrap().size(), vec![2, 4, 4]);
    assert_eq!(a.cat_3(&t(&[2, 3, 6])).unwrap().size(), vec![2, 3, 10]);
    assert_eq!(a.cat(&t(&[2, 3, 6]), 2).unwrap().size(), vec![2, 3, 10]);
    assert_eq!(a.cat_1(&t(&[5, 3, 5])).unwrap_err(), ShapeError::Mismatch);
    assert_eq!(a.cat_1(&t(&[5, 3])).unwrap_err(), ShapeError::Mismatch);
    assert_eq!(a.cat(&a, 3).unwrap_err(), ShapeError::OutOfRange);
    assert_eq!(
        t(&[u64::MAX]).cat_1(&t(&[1])).unwrap_err(),
        ShapeError::TooLarge
    );
    assert_eq!(
        t(&[1 << 62, 2]).cat_1(&t(&[1 << 62, 2])).unwrap_err(),
        ShapeError::TooLarge
    );
}

#[test]
fn get_and_set_go_by_the_first_axis() {
    let x = t(&[4, 5, 6]);
    assert_eq!(x.get(0).unwrap().size(), vec![5, 6]);
    assert_eq!(x.get(3).unwrap().size(), vec![5, 6]);
    assert_eq!(x.get(4).unwrap_err(), ShapeError::OutOfRange);
    assert_eq!(t(&[4]).get(2).unwrap().size(), vec![1]);
    assert_eq!(x.set(3, &t(&[5, 6])), Ok(()));
    assert_eq!(x.set(4, &t(&[5, 6])), Err(ShapeError::OutOfRange));
    assert_eq!(x.set(0, &t(&[6, 5])), Err(ShapeError::Mismatch));
    assert_eq!(t(&[4]).set(0, &t(&[1])), Ok(()));
    assert_eq!(t(&[4]).set(0, &t(&[2])), Err(ShapeError::Mismatch));
}

#[test]
fn test_activations() {
    let tensor = t(&[10, 64, 1000]);
    let tensor = tensor.relu();
    let tensor = tensor.gelu();
    let tensor = tensor.sigmoid();
    assert_eq!(tensor.size(), vec![10, 64, 1000]);
    assert_eq!(tensor.prelu(&t(&[1])).unwrap().size(), vec![10, 64, 1000]);
    assert_eq!(tensor.prelu(&t(&[1, 1])).unwrap().size(), vec![10, 64, 1000]);
    assert_eq!(tensor.prelu(&t(&[2])).unwrap_err(), ShapeError::Mismatch);
}

#[test]
fn masked_fill_takes_a_mask_that_covers() {
    let att = t(&[2, 8, 5, 5]);
    assert_eq!(att.masked_fill(&t(&[1, 1, 5, 5])).unwrap().size(), vec![2, 8, 5, 5]);
    assert_eq!(att.masked_fill(&att).unwrap().size(), vec![2, 8, 5, 5]);
    assert_eq!(att.masked_fill(&t(&[1, 1, 4, 5])).unwrap_err(), ShapeError::Mismatch);
    assert_eq!(att.masked_fill(&t(&[5, 5])).unwrap_err(), ShapeError::Mismatch);
}

#[test]
fn a_declaration_is_met_axis_by_axis() {
    let x = t(&[15, 50, 100]);
    assert!(x.conforms(&[DimType::Static(15), DimType::Static(50), DimType::Static(100)]));
    assert!(x.conforms(&[DimType::Dynamic, DimType::Dynamic, DimType::Static(100)]));
    assert!(x.conforms(&[DimType::Dynamic; 3]));
    assert!(!x.conforms(&[DimType::Dynamic, DimType::Static(51), DimType::Static(100)]));
    assert!(!x.conforms(&[DimType::Dynamic, DimType::Dynamic]));
    assert!(!x.conforms(&[DimType::Dynamic; 4]));
    assert!(!x.conforms(&[]));
}
