use condor::activation::{
    Activation, GeLU1, GeLU2, GeLU3, PReLU1, PReLU2, PReLU3, ReLU1, ReLU2, ReLU3, Sigmoid1,
    Sigmoid2, Sigmoid3,
};
use condor::error::{ShapeError, WeightCopyError};
use condor::linear::Linear;
use condor::module::{count_parameters, Init, Module, ModuleCopy, Parameter};
use condor::other::{Embedding, LayerNorm};
use condor::rnn::{RNNCell, RNN};
use condor::sequential::{Connector, Sequential};
use condor::tensor::Tensor;

fn t(dims: &[u64]) -> Tensor {
    Tensor::new(dims).unwrap()
}

#[test]
fn test_linear() {
    let linear = Linear::new(100, 50);
    let inp = t(&[10, 100]);
    let output = linear.forward(inp).unwrap();
    assert_eq!(output.size(), vec![10, 50]);
}

#[test]
fn linear_maps_the_last_axis() {
    let linear = Linear::new(100, 50);
    assert_eq!(linear.forward(t(&[100])).unwrap().size(), vec![50]);
    assert_eq!(linear.forward(t(&[4, 7, 100])).unwrap().size(), vec![4, 7, 50]);
    assert_eq!(linear.forward(t(&[2, 3, 4, 5, 100])).unwrap().size(), vec![2, 3, 4, 5, 50]);
    assert_eq!(linear.forward(t(&[100, 50])).unwrap_err(), ShapeError::Mismatch);
    assert_eq!(linear.forward(t(&[10, 99])).unwrap_err(), ShapeError::Mismatch);
    let wide = Linear::new(1, 1 << 32);
    assert_eq!(wide.forward(t(&[1 << 32, 1])).unwrap_err(), ShapeError::TooLarge);
    assert_eq!(linear.ws().size(), vec![50, 100]);
    assert_eq!(linear.bs().size(), vec![50]);
}

#[test]
fn linear_parameters() {
    let linear = Linear::new(10, 20);
    let params = linear.parameters();
    assert_eq!(params.len(), 2);
    assert_eq!(params[0].shape.size(), vec![20, 10]);
    assert_eq!(params[0].init, Init::Normal { std_milli: 20 });
    assert!(params[0].trainable);
    assert_eq!(params[1].shape.size(), vec![20]);
    assert_eq!(params[1].init, Init::Zeros);
    assert!(params[1].trainable);
    assert_eq!(linear.parameter_count(), Some(220));
    assert_eq!(count_parameters(&params), Some(220));

    let no_bias = Linear::no_bias(10, 20);
    assert!(!no_bias.parameters()[1].trainable);
    assert_eq!(no_bias.parameter_count(), Some(200));

    let scaled = Linear::variance_init(10, 20);
    assert_eq!(scaled.parameters()[0].init, Init::FanIn);
    assert_eq!(scaled.parameters()[1].init, Init::FanIn);
    assert_eq!(scaled.parameter_count(), Some(220));

    assert!(Linear::dims_ok(10, 20));
    assert!(!Linear::dims_ok(0, 20));
    assert!(!Linear::dims_ok(10, 0));
    assert!(!Linear::dims_ok(1 << 32, 1 << 32));
    assert!(Linear::dims_ok(u64::MAX, 1));
    // the weight alone fits, weight and bias together do not
    assert_eq!(Linear::new(1, u64::MAX).parameter_count(), None);
}

#[test]
fn linear_copy() {
    let mut dst = Linear::new(10, 20);
    assert!(dst.copy(&Linear::variance_init(10, 20)).is_ok());
    assert!(matches!(dst.copy(&Linear::new(10, 21)), Err(WeightCopyError::SizeMismatch)));
    assert!(matches!(dst.copy(&Linear::new(11, 20)), Err(WeightCopyError::SizeMismatch)));
    assert!(matches!(dst.copy(&Linear::new(20, 10)), Err(WeightCopyError::SizeMismatch)));
    // the destination is as it was
    assert_eq!(dst.ws().size(), vec![20, 10]);
    assert_eq!(dst.parameter_count(), Some(220));
    assert_eq!(WeightCopyError::SizeMismatch.message(), "size mismatch");
    assert_eq!(WeightCopyError::Other("why".to_string()).message(), "why");
}

#[test]
fn test_sequential() {
    let sequential = Connector::new(Linear::new(50, 100), Linear::new(100, 25));
    let input = t(&[100, 50]);
    let output = sequential.forward(input).unwrap();
    assert_eq!(output.size(), vec![100, 25]);
}

#[test]
fn connector_chains_and_adds_up() {
    let first = Linear::new(50, 20);
    let second = Linear::new(20, 10);
    let mut chain = Connector::new(first, second);
    assert_eq!(chain.forward(t(&[8, 50])).unwrap().size(), vec![8, 10]);
    assert_eq!(chain.forward(t(&[8, 20])).unwrap_err(), ShapeError::Mismatch);
    assert_eq!(
        chain.parameter_count(),
        Some(first.parameter_count().unwrap() + second.parameter_count().unwrap())
    );
    assert_eq!(chain.parameter_count(), Some(50 * 20 + 20 + 20 * 10 + 10));
    assert_eq!(chain.parameters().len(), 4);
    chain.train();
    chain.eval();
    assert_eq!(chain.forward(t(&[8, 50])).unwrap().size(), vec![8, 10]);
    // the second does not take what the first gives
    let broken = Connector::new(Linear::new(50, 20), Linear::new(30, 10));
    assert_eq!(broken.forward(t(&[8, 50])).unwrap_err(), ShapeError::Mismatch);
    let three = Connector::new(chain, Linear::new(10, 3));
    assert_eq!(three.forward(t(&[8, 50])).unwrap().size(), vec![8, 3]);
    assert_eq!(three.parameter_count(), Some(1230 + 33));
}

#[test]
fn activations_keep_the_shape_of_their_rank() {
    let one = t(&[7]);
    let two = t(&[7, 8]);
    let three = t(&[7, 8, 9]);
    assert_eq!(ReLU1::default().forward(one).unwrap().size(), vec![7]);
    assert_eq!(ReLU2::default().forward(two).unwrap().size(), vec![7, 8]);
    assert_eq!(ReLU3::default().forward(three).unwrap().size(), vec![7, 8, 9]);
    assert_eq!(GeLU1::default().apply(one).unwrap().size(), vec![7]);
    assert_eq!(GeLU2::default().apply(two).unwrap().size(), vec![7, 8]);
    assert_eq!(GeLU3::default().apply(three).unwrap().size(), vec![7, 8, 9]);
    assert_eq!(Sigmoid1::default().forward(one).unwrap().size(), vec![7]);
    assert_eq!(Sigmoid2::default().forward(two).unwrap().size(), vec![7, 8]);
    assert_eq!(Sigmoid3::default().forward(three).unwrap().size(), vec![7, 8, 9]);
    assert_eq!(PReLU1::default().forward(one).unwrap().size(), vec![7]);
    assert_eq!(PReLU2::default().forward(two).unwrap().size(), vec![7, 8]);
    assert_eq!(PReLU3::default().forward(three).unwrap().size(), vec![7, 8, 9]);
    assert_eq!(ReLU1::default().forward(two).unwrap_err(), ShapeError::Mismatch);
    assert_eq!(ReLU2::default().forward(three).unwrap_err(), ShapeError::Mismatch);
    assert_eq!(ReLU3::default().forward(one).unwrap_err(), ShapeError::Mismatch);
    assert_eq!(GeLU1::default().forward(three).unwrap_err(), ShapeError::Mismatch);
    assert_eq!(GeLU2::default().forward(one).unwrap_err(), ShapeError::Mismatch);
    assert_eq!(GeLU3::default().forward(two).unwrap_err(), ShapeError::Mismatch);
    assert_eq!(Sigmoid1::default().forward(two).unwrap_err(), ShapeError::Mismatch);
    assert_eq!(Sigmoid2::default().forward(one).unwrap_err(), ShapeError::Mismatch);
    assert_eq!(Sigmoid3::default().forward(two).unwrap_err(), ShapeError::Mismatch);
    assert_eq!(PReLU1::new().forward(two).unwrap_err(), ShapeError::Mismatch);
    assert_eq!(PReLU2::new().forward(three).unwrap_err(), ShapeError::Mismatch);
    assert_eq!(PReLU3::new().forward(two).unwrap_err(), ShapeError::Mismatch);
}

#[test]
fn activation_parameters() {
    assert_eq!(ReLU2::default().parameter_count(), Some(0));
    assert_eq!(GeLU3::default().parameters().len(), 0);
    assert_eq!(Sigmoid1::default().parameter_count(), Some(0));
    let mut prelu = PReLU3::default();
    assert_eq!(prelu.parameter_count(), Some(1));
    assert_eq!(prelu.weight().size(), vec![1]);
    assert_eq!(prelu.parameters()[0].init, Init::Uniform);
    assert!(prelu.copy(&PReLU3::new()).is_ok());
    assert!(PReLU1::new().copy(&PReLU1::new()).is_ok());
    assert!(PReLU2::new().copy(&PReLU2::new()).is_ok());
    assert_eq!(PReLU1::new().weight().size(), vec![1]);
    assert_eq!(PReLU2::new().weight().size(), vec![1]);
    prelu.train();
    prelu.eval();
    assert_eq!(prelu.forward(t(&[10, 64, 1000])).unwrap().size(), vec![10, 64, 1000]);
}

#[test]
fn layer_norm() {
    let mut norm = LayerNorm::new(t(&[100]));
    assert_eq!(norm.forward(t(&[15, 50, 100])).unwrap().size(), vec![15, 50, 100]);
    assert_eq!(norm.forward(t(&[100])).unwrap().size(), vec![100]);
    assert_eq!(norm.forward(t(&[15, 50, 99])).unwrap_err(), ShapeError::Mismatch);
    assert_eq!(norm.parameter_count(), Some(200));
    assert_eq!(norm.parameters()[0].init, Init::Ones);
    assert_eq!(norm.parameters()[1].init, Init::Zeros);
    assert_eq!(norm.ws().unwrap().size(), vec![100]);
    assert_eq!(norm.bs().unwrap().size(), vec![100]);
    assert_eq!(norm.normalized_shape().size(), vec![100]);
    let over_two = LayerNorm::new(t(&[50, 100]));
    assert_eq!(over_two.forward(t(&[15, 50, 100])).unwrap().size(), vec![15, 50, 100]);
    assert_eq!(over_two.forward(t(&[15, 100, 50])).unwrap_err(), ShapeError::Mismatch);
    assert_eq!(over_two.forward(t(&[100])).unwrap_err(), ShapeError::Mismatch);
    assert_eq!(over_two.parameter_count(), Some(10_000));
    let plain = LayerNorm::plain(t(&[7]));
    assert_eq!(plain.parameter_count(), Some(0));
    assert!(plain.ws().is_none() && plain.bs().is_none());
    assert_eq!(plain.forward(t(&[3, 7])).unwrap().size(), vec![3, 7]);
    assert!(norm.copy(&LayerNorm::new(t(&[100]))).is_ok());
    assert!(matches!(norm.copy(&LayerNorm::new(t(&[99]))), Err(WeightCopyError::SizeMismatch)));
    assert!(matches!(norm.copy(&over_two), Err(WeightCopyError::SizeMismatch)));
    // what only one side has is passed over
    assert!(norm.copy(&plain).is_ok());
    let mut bare = LayerNorm::plain(t(&[7]));
    assert!(bare.copy(&norm).is_ok());
}

#[test]
fn embedding() {
    let mut table = Embedding::new(120, 100);
    assert_eq!(table.forward(t(&[15, 50])).unwrap().size(), vec![15, 50, 100]);
    assert_eq!(table.forward(t(&[50])).unwrap().size(), vec![50, 100]);
    assert_eq!(table.forward(t(&[2, 3, 4, 5])).unwrap().size(), vec![2, 3, 4, 5, 100]);
    assert_eq!(table.forward(t(&[2, 3, 4, 5, 6])).unwrap_err(), ShapeError::Invalid);
    assert_eq!(table.forward(t(&[1 << 60])).unwrap_err(), ShapeError::TooLarge);
    assert_eq!(table.parameter_count(), Some(12_000));
    assert_eq!(table.parameters()[0].init, Init::Normal { std_milli: 1000 });
    assert_eq!(table.ws().size(), vec![120, 100]);
    assert!(table.accepts_token(0));
    assert!(table.accepts_token(119));
    assert!(!table.accepts_token(120));
    assert!(!table.accepts_token(-1));
    assert!(!table.accepts_token(i64::MIN));
    assert!(Embedding::dims_ok(120, 100));
    assert!(!Embedding::dims_ok(0, 100));
    assert!(!Embedding::dims_ok(120, 0));
    assert!(!Embedding::dims_ok(1 << 40, 1 << 40));
    assert!(table.copy(&Embedding::new(120, 100)).is_ok());
    assert!(matches!(table.copy(&Embedding::new(121, 100)), Err(WeightCopyError::SizeMismatch)));
    assert!(matches!(table.copy(&Embedding::new(100, 120)), Err(WeightCopyError::SizeMismatch)));
}

#[test]
fn parameters_are_counted_where_they_are_trained() {
    let params = vec![
        Parameter { shape: t(&[3, 4]), init: Init::Zeros, trainable: true },
        Parameter { shape: t(&[1000]), init: Init::Ones, trainable: false },
        Parameter { shape: t(&[5]), init: Init::FanIn, trainable: true },
    ];
    assert_eq!(count_parameters(&params), Some(17));
    assert_eq!(count_parameters(&Vec::new()), Some(0));
    let huge = vec![
        Parameter { shape: t(&[1 << 63]), init: Init::Zeros, trainable: true },
        Parameter { shape: t(&[1 << 63]), init: Init::Zeros, trainable: false },
        Parameter { shape: t(&[(1 << 63) - 1]), init: Init::Zeros, trainable: true },
    ];
    assert_eq!(count_parameters(&huge), Some(u64::MAX));
    let more = vec![
        Parameter { shape: t(&[1 << 63]), init: Init::Zeros, trainable: true },
        Parameter { shape: t(&[1 << 63]), init: Init::Zeros, trainable: true },
    ];
    assert_eq!(count_parameters(&more), None);
}

#[test]
fn sequential_rows() {
    let mut row: Sequential<Linear> = Sequential::new();
    assert_eq!(row.len(), 0);
    // the empty row gives back what it takes
    assert_eq!(row.forward(t(&[3, 9])).unwrap().size(), vec![3, 9]);
    assert_eq!(row.parameter_count(), Some(0));
    row.push(Linear::new(50, 20));
    row.push(Linear::new(20, 10));
    row.push(Linear::no_bias(10, 4));
    assert_eq!(row.len(), 3);
    assert_eq!(row.layers().len(), 3);
    assert_eq!(row.forward(t(&[8, 50])).unwrap().size(), vec![8, 4]);
    assert_eq!(row.forward(t(&[8, 20])).unwrap_err(), ShapeError::Mismatch);
    assert_eq!(row.parameter_count(), Some(1020 + 210 + 40));
    assert_eq!(row.parameters().len(), 6);
    row.eval();
    row.train();
    assert_eq!(row.forward(t(&[8, 50])).unwrap().size(), vec![8, 4]);
    // the first layer that refuses ends the row
    row.push(Linear::new(5, 1));
    assert_eq!(row.forward(t(&[8, 50])).unwrap_err(), ShapeError::Mismatch);
    let mut wide: Sequential<Linear> = Sequential::new();
    wide.push(Linear::new(1, 1 << 40));
    wide.push(Linear::new(5, 1));
    assert_eq!(wide.forward(t(&[1 << 30, 1])).unwrap_err(), ShapeError::TooLarge);
}

#[test]
fn rnn_cell() {
    let mut cell = RNNCell::new(12, 30, 5, ReLU2::default(), Sigmoid2::default());
    let (output, hidden) = cell.forward((t(&[8, 12]), t(&[8, 30]))).unwrap();
    assert_eq!(output.size(), vec![8, 5]);
    assert_eq!(hidden.size(), vec![8, 30]);
    assert_eq!(cell.forward((t(&[8, 13]), t(&[8, 30]))).unwrap_err(), ShapeError::Mismatch);
    assert_eq!(cell.forward((t(&[8, 12]), t(&[8, 31]))).unwrap_err(), ShapeError::Mismatch);
    assert_eq!(cell.forward((t(&[8, 12]), t(&[9, 30]))).unwrap_err(), ShapeError::Mismatch);
    // the activations are declared for matrices
    assert_eq!(cell.forward((t(&[12]), t(&[30]))).unwrap_err(), ShapeError::Mismatch);
    assert_eq!(cell.parameter_count(), Some(12 * 30 + 30 + 30 * 30 + 30 + 30 * 5 + 5));
    cell.train();
    cell.eval();
    let learned = RNNCell::new(12, 30, 5, PReLU2::new(), PReLU2::new());
    assert_eq!(learned.parameter_count(), Some(12 * 30 + 30 + 30 * 30 + 30 + 30 * 5 + 5 + 2));
    assert!(RNNCell::<ReLU2, ReLU2>::dims_ok(12, 30, 5));
    assert!(!RNNCell::<ReLU2, ReLU2>::dims_ok(0, 30, 5));
    assert!(!RNNCell::<ReLU2, ReLU2>::dims_ok(12, 1 << 32, 5));
}

#[test]
fn rnn_over_sequences() {
    let mut rnn = RNN::new(12, 30, 5, false, GeLU2::default(), ReLU2::default());
    assert!(!rnn.is_bidirectional());
    // sequence first, then batch
    assert_eq!(rnn.forward(t(&[40, 8, 12])).unwrap().size(), vec![40, 8, 5]);
    assert_eq!(rnn.forward(t(&[40, 8, 13])).unwrap_err(), ShapeError::Mismatch);
    assert_eq!(rnn.forward(t(&[8, 12])).unwrap_err(), ShapeError::Mismatch);
    let wide = RNN::new(1, 1, 1 << 40, false, GeLU2::default(), ReLU2::default());
    assert_eq!(wide.forward(t(&[1 << 20, 1, 1])).unwrap().size(), vec![1 << 20, 1, 1 << 40]);
    assert_eq!(wide.forward(t(&[1 << 30, 1, 1])).unwrap_err(), ShapeError::TooLarge);
    let one_way = 12 * 30 + 30 + 30 * 30 + 30 + 30 * 5 + 5 + 30;
    assert_eq!(rnn.parameter_count(), Some(one_way));
    rnn.eval();
    rnn.train();
    let mut both = RNN::new(12, 30, 5, true, GeLU2::default(), ReLU2::default());
    assert!(both.is_bidirectional());
    assert_eq!(both.forward(t(&[40, 8, 12])).unwrap().size(), vec![40, 8, 10]);
    assert_eq!(both.parameter_count(), Some(2 * one_way));
    both.eval();
    assert_eq!(both.forward(t(&[1, 1, 12])).unwrap().size(), vec![1, 1, 10]);
    // activations for vectors do not take the matrices of a batch
    let wrong = RNN::new(12, 30, 5, false, GeLU1::default(), ReLU1::default());
    assert_eq!(wrong.forward(t(&[40, 8, 12])).unwrap_err(), ShapeError::Mismatch);
}
