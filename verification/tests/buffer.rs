use condor::buffer::Buffer;
use condor::error::{ShapeError, WeightCopyError};
use condor::tensor::Tensor;
use condor::transformer::base::mask_future;

fn t(dims: &[u64]) -> Tensor {
    Tensor::new(dims).unwrap()
}

fn counted(dims: &[u64]) -> Buffer<u32> {
    let shape = t(dims);
    let data: Vec<u32> = (0..shape.numel() as u32).collect();
    Buffer::new(shape, data).unwrap()
}

#[test]
fn a_buffer_holds_one_value_for_each_element() {
    let b = Buffer::new(t(&[2, 3]), vec![1u8, 2, 3, 4, 5, 6]).unwrap();
    assert_eq!(b.shape().size(), vec![2, 3]);
    assert_eq!(b.data(), &vec![1, 2, 3, 4, 5, 6]);
    assert_eq!(Buffer::new(t(&[2, 3]), vec![1u8, 2, 3, 4, 5]).unwrap_err(), ShapeError::Mismatch);
    assert_eq!(Buffer::new(t(&[2, 3]), Vec::<u8>::new()).unwrap_err(), ShapeError::Mismatch);
}

#[test]
fn filled_repeats_one_value() {
    let zeros = Buffer::filled(t(&[2, 2, 2]), 0.0f32).unwrap();
    assert_eq!(zeros.shape().size(), vec![2, 2, 2]);
    assert_eq!(zeros.data(), &vec![0.0f32; 8]);
    let one = Buffer::filled(Tensor::scalar(), 7i64).unwrap();
    assert_eq!(one.data(), &vec![7]);
}

#[test]
fn from_arr_makes_a_vector() {
    let v = Buffer::from_arr(&[3.0f32, 2.0, 4.0]).unwrap();
    assert_eq!(v.shape().size(), vec![3]);
    assert_eq!(v.data(), &vec![3.0, 2.0, 4.0]);
    let none: [f32; 0] = [];
    assert_eq!(Buffer::from_arr(&none).unwrap_err(), ShapeError::Invalid);
}

#[test]
fn from_arr_2d_joins_the_rows() {
    let m = Buffer::from_arr_2d(&vec![vec![3.0f32, 2.0, 4.0], vec![3.4, 4.5, 2.3]]).unwrap();
    assert_eq!(m.shape().size(), vec![2, 3]);
    assert_eq!(m.data(), &vec![3.0, 2.0, 4.0, 3.4, 4.5, 2.3]);
    assert_eq!(
        Buffer::from_arr_2d(&vec![vec![1u8, 2], vec![3]]).unwrap_err(),
        ShapeError::Mismatch
    );
    assert_eq!(Buffer::from_arr_2d(&Vec::<Vec<u8>>::new()).unwrap_err(), ShapeError::Invalid);
    assert_eq!(
        Buffer::from_arr_2d(&vec![Vec::<u8>::new(), vec![1]]).unwrap_err(),
        ShapeError::Invalid
    );
}

#[test]
fn vectors_combine_element_by_element() {
    let tensor = Buffer::from_arr(&[3.0f32, 2.0, 4.0]).unwrap();
    let tensor2 = Buffer::from_arr(&[3.0f32, 2.0, 3.0]).unwrap();
    assert_eq!(tensor.zip_with(&tensor2, |a, b| a + b).unwrap().data(), &vec![6.0, 4.0, 7.0]);
    assert_eq!(tensor.zip_with(&tensor2, |a, b| a - b).unwrap().data(), &vec![0.0, 0.0, 1.0]);
    assert_eq!(tensor.zip_with(&tensor2, |a, b| a * b).unwrap().data(), &vec![9.0, 4.0, 12.0]);
    assert_eq!(
        tensor.zip_with(&tensor2, |a, b| a / b).unwrap().data(),
        &vec![1.0, 1.0, 4.0f32 / 3.0]
    );
}

#[test]
fn matrices_combine_element_by_element() {
    let tensor = Buffer::from_arr_2d(&vec![vec![3.0f64, 2.0, 4.0], vec![3.4, 4.5, 2.3]]).unwrap();
    let tensor2 =
        Buffer::from_arr_2d(&vec![vec![3.0f64, 2.0, 3.0], vec![12.3, 4.4, 56.4]]).unwrap();
    let sum = tensor.zip_with(&tensor2, |a, b| a + b).unwrap();
    assert_eq!(sum.shape().size(), vec![2, 3]);
    assert_eq!(sum.data(), &vec![6.0, 4.0, 7.0, 3.4 + 12.3, 4.5 + 4.4, 2.3 + 56.4]);
    let quotient = tensor.zip_with(&tensor2, |a, b| a / b).unwrap();
    assert_eq!(
        quotient.data(),
        &vec![1.0, 1.0, 4.0 / 3.0, 3.4 / 12.3, 4.5 / 4.4, 2.3 / 56.4]
    );
}

#[test]
fn a_bias_lies_along_each_row() {
    let m = counted(&[2, 3]);
    let bias = Buffer::from_arr(&[10u32, 20, 30]).unwrap();
    let sum = m.zip_with(&bias, |a, b| a + b).unwrap();
    assert_eq!(sum.shape().size(), vec![2, 3]);
    assert_eq!(sum.data(), &vec![10, 21, 32, 13, 24, 35]);
    let cube = counted(&[2, 2, 3]);
    let sum = cube.zip_with(&bias, |a, b| a + b).unwrap();
    assert_eq!(sum.data(), &vec![10, 21, 32, 13, 24, 35, 16, 27, 38, 19, 30, 41]);
}

#[test]
fn unequal_shapes_do_not_combine() {
    let m = counted(&[2, 3]);
    assert_eq!(m.zip_with(&counted(&[3, 2]), |a, b| a + b).unwrap_err(), ShapeError::Mismatch);
    assert_eq!(m.zip_with(&counted(&[2]), |a, b| a + b).unwrap_err(), ShapeError::Mismatch);
    assert_eq!(m.zip_with(&counted(&[6]), |a, b| a + b).unwrap_err(), ShapeError::Mismatch);
    assert_eq!(counted(&[3]).zip_with(&m, |a, b| a + b).unwrap_err(), ShapeError::Mismatch);
}

#[test]
fn map_keeps_the_shape() {
    let m = counted(&[2, 3]);
    let doubled = m.map(|x| 2 * x);
    assert_eq!(doubled.shape().size(), vec![2, 3]);
    assert_eq!(doubled.data(), &vec![0, 2, 4, 6, 8, 10]);
}

#[test]
fn get_takes_one_entry_of_the_first_axis() {
    let cube = counted(&[2, 3, 2]);
    let second = cube.get(1).unwrap();
    assert_eq!(second.shape().size(), vec![3, 2]);
    assert_eq!(second.data(), &vec![6, 7, 8, 9, 10, 11]);
    let row = second.get(2).unwrap();
    assert_eq!(row.shape().size(), vec![2]);
    assert_eq!(row.data(), &vec![10, 11]);
    let element = row.get(0).unwrap();
    assert_eq!(element.shape().size(), vec![1]);
    assert_eq!(element.data(), &vec![10]);
    assert_eq!(cube.get(2).unwrap_err(), ShapeError::OutOfRange);
}

#[test]
fn set_overwrites_one_entry_of_the_first_axis() {
    let mut m = counted(&[3, 2]);
    let row = Buffer::from_arr(&[70u32, 80]).unwrap();
    m.set(1, &row).unwrap();
    assert_eq!(m.shape().size(), vec![3, 2]);
    assert_eq!(m.data(), &vec![0, 1, 70, 80, 4, 5]);
    m.set(2, &row).unwrap();
    assert_eq!(m.data(), &vec![0, 1, 70, 80, 70, 80]);
    assert_eq!(m.set(3, &row).unwrap_err(), ShapeError::OutOfRange);
    let long = Buffer::from_arr(&[1u32, 2, 3]).unwrap();
    assert_eq!(m.set(0, &long).unwrap_err(), ShapeError::Mismatch);
    assert_eq!(m.data(), &vec![0, 1, 70, 80, 70, 80]);
    assert_eq!(m.get(1).unwrap().data(), row.data());
}

#[test]
fn an_axis_of_size_one_comes_and_goes() {
    let m = counted(&[2, 3]);
    let front = m.unsqueeze_start().unwrap();
    assert_eq!(front.shape().size(), vec![1, 2, 3]);
    assert_eq!(front.data(), m.data());
    let back = front.squeeze_start().unwrap();
    assert_eq!(back.shape().size(), vec![2, 3]);
    assert_eq!(back.data(), m.data());
    let behind = m.unsqueeze_end().unwrap();
    assert_eq!(behind.shape().size(), vec![2, 3, 1]);
    let again = behind.squeeze_end().unwrap();
    assert_eq!(again.shape().size(), vec![2, 3]);
    assert_eq!(again.data(), m.data());
    assert_eq!(m.squeeze_start().unwrap_err(), m.shape().squeeze_start().unwrap_err());
    assert_eq!(m.squeeze_end().unwrap_err(), m.shape().squeeze_end().unwrap_err());
    assert_eq!(
        counted(&[1, 1, 1, 1, 1]).unsqueeze_start().unwrap_err(),
        t(&[1, 1, 1, 1, 1]).unsqueeze_start().unwrap_err()
    );
}

#[test]
fn repeat_tiles_the_first_axis() {
    let m = Buffer::from_arr_2d(&vec![vec![1.5f32, 2.5, 3.5], vec![4.5, 5.5, 6.5]]).unwrap();
    let one = m.unsqueeze_start().unwrap();
    let batch = one.repeat(0, 10).unwrap();
    assert_eq!(batch.shape().size(), vec![10, 2, 3]);
    assert_eq!(batch.data().len(), 60);
    for i in 0..10 {
        let entry = batch.get(i).unwrap();
        assert_eq!(entry.shape().size(), vec![2, 3]);
        assert_eq!(entry.data(), m.data());
    }
    assert_eq!(batch.get(10).unwrap_err(), ShapeError::OutOfRange);
}

#[test]
fn repeat_tiles_an_inner_axis() {
    let m = counted(&[2, 1, 2]);
    let wide = m.repeat(1, 3).unwrap();
    assert_eq!(wide.shape().size(), vec![2, 3, 2]);
    assert_eq!(wide.data(), &vec![0, 1, 0, 1, 0, 1, 2, 3, 2, 3, 2, 3]);
    let column = counted(&[3, 1]);
    let spread = column.repeat(1, 2).unwrap();
    assert_eq!(spread.shape().size(), vec![3, 2]);
    assert_eq!(spread.data(), &vec![0, 0, 1, 1, 2, 2]);
}

#[test]
fn repeat_refuses_what_the_shape_refuses() {
    let m = counted(&[2, 3]);
    assert_eq!(m.repeat(0, 4).unwrap_err(), ShapeError::Mismatch);
    assert_eq!(m.repeat(2, 4).unwrap_err(), ShapeError::OutOfRange);
    assert_eq!(counted(&[1, 3]).repeat(0, 0).unwrap_err(), ShapeError::Invalid);
    assert_eq!(counted(&[1, 3]).repeat(0, u64::MAX).unwrap_err(), ShapeError::TooLarge);
}

#[test]
fn cat_joins_along_an_axis() {
    let a = counted(&[2, 2]);
    let b = Buffer::new(t(&[1, 2]), vec![10u32, 11]).unwrap();
    let rows = a.cat(&b, 0).unwrap();
    assert_eq!(rows.shape().size(), vec![3, 2]);
    assert_eq!(rows.data(), &vec![0, 1, 2, 3, 10, 11]);
    let c = Buffer::new(t(&[2, 1]), vec![10u32, 11]).unwrap();
    let columns = a.cat(&c, 1).unwrap();
    assert_eq!(columns.shape().size(), vec![2, 3]);
    assert_eq!(columns.data(), &vec![0, 1, 10, 2, 3, 11]);
    let cube = counted(&[2, 2, 2]);
    let slab = Buffer::new(t(&[2, 1, 2]), vec![90u32, 91, 92, 93]).unwrap();
    let joined = cube.cat(&slab, 1).unwrap();
    assert_eq!(joined.shape().size(), vec![2, 3, 2]);
    assert_eq!(joined.data(), &vec![0, 1, 2, 3, 90, 91, 4, 5, 6, 7, 92, 93]);
    assert_eq!(a.cat(&c, 0).unwrap_err(), a.shape().cat(&c.shape(), 0).unwrap_err());
    assert_eq!(a.cat(&b, 2).unwrap_err(), a.shape().cat(&b.shape(), 2).unwrap_err());
}

#[test]
fn copy_from_takes_over_the_values() {
    let mut dst = Buffer::filled(t(&[2, 3]), 0u32).unwrap();
    let src = counted(&[2, 3]);
    dst.copy_from(&src).unwrap();
    assert_eq!(dst.shape().size(), vec![2, 3]);
    assert_eq!(dst.data(), src.data());
}

#[test]
fn copy_from_refuses_another_shape_and_changes_nothing() {
    let mut dst = Buffer::filled(t(&[2, 3]), 9u32).unwrap();
    let err = dst.copy_from(&counted(&[3, 2])).unwrap_err();
    assert!(matches!(err, WeightCopyError::SizeMismatch));
    assert_eq!(dst.shape().size(), vec![2, 3]);
    assert_eq!(dst.data(), &vec![9; 6]);
    let err = dst.copy_from(&counted(&[6])).unwrap_err();
    assert!(matches!(err, WeightCopyError::SizeMismatch));
    assert_eq!(dst.data(), &vec![9; 6]);
}

#[test]
fn masked_fill_keeps_what_is_visible() {
    let scores = counted(&[2, 2, 2]);
    let visible = vec![vec![true, false], vec![false, true]];
    let masked = scores.masked_fill(&visible, 99).unwrap();
    assert_eq!(masked.shape().size(), vec![2, 2, 2]);
    assert_eq!(masked.data(), &vec![0, 99, 99, 3, 4, 99, 99, 7]);
    let ragged = vec![vec![true, false], vec![false]];
    assert_eq!(scores.masked_fill(&ragged, 99).unwrap_err(), ShapeError::Mismatch);
    let large = vec![vec![true; 3]; 3];
    assert_eq!(scores.masked_fill(&large, 99).unwrap_err(), ShapeError::Mismatch);
    assert_eq!(counted(&[2, 3]).masked_fill(&visible, 99).unwrap_err(), ShapeError::Mismatch);
    assert_eq!(counted(&[2]).masked_fill(&visible, 99).unwrap_err(), ShapeError::Mismatch);
}

#[test]
fn masked_scores_do_not_show_later_keys() {
    let scores = counted(&[1, 5, 5]).map(|x| x + 1);
    let masked = mask_future(&scores, 0).unwrap();
    assert_eq!(
        masked.data(),
        &vec![
            1, 0, 0, 0, 0, //
            6, 7, 0, 0, 0, //
            11, 12, 13, 0, 0, //
            16, 17, 18, 19, 0, //
            21, 22, 23, 24, 25,
        ]
    );
    // another score for the last key changes the last query alone
    let mut changed = scores.data().clone();
    for q in 0..5 {
        changed[q * 5 + 4] += 1000;
    }
    let changed = Buffer::new(t(&[1, 5, 5]), changed).unwrap();
    let masked_changed = mask_future(&changed, 0).unwrap();
    assert_eq!(masked_changed.data()[..20], masked.data()[..20]);
    assert_eq!(masked_changed.data()[24], 1025);
    assert_eq!(mask_future(&counted(&[5, 4]), 0).unwrap_err(), ShapeError::Mismatch);
    assert_eq!(mask_future(&counted(&[5]), 0).unwrap_err(), ShapeError::Mismatch);
}

#[test]
fn reshape_keeps_the_elements_in_order() {
    let m = counted(&[2, 6]);
    let cube = m.reshape(&[3, 2, 2]).unwrap();
    assert_eq!(cube.shape().size(), vec![3, 2, 2]);
    assert_eq!(cube.data(), m.data());
    assert_eq!(cube.get(2).unwrap().data(), &vec![8, 9, 10, 11]);
    assert_eq!(m.reshape(&[5, 2]).unwrap_err(), ShapeError::Mismatch);
    assert_eq!(m.reshape(&[]).unwrap_err(), ShapeError::Invalid);
    assert_eq!(m.reshape(&[12, 0]).unwrap_err(), ShapeError::Invalid);
}
