use condor::error::{ShapeError, WeightCopyError};
use condor::module::{count_parameters, Module, ModuleCopy};
use condor::tensor::Tensor;
use condor::transformer::base::causal_mask;
use condor::transformer::seq2seq::GENERATION_CAP;
use condor::transformer::{
    DecoderSelfAttention, Generation, GenerationStatus, InferenceMode, LanguageModel,
    LanguageModelProps, PositionTable, PositionalEncoding, Seq2SeqTransformer,
    Seq2SeqTransformerProps, SelfAttention, TransformerAggregator, TransformerAggregatorProps,
    TransformerBlock, TransformerDecoder, TransformerDecoderBlock, TransformerDecoderProps,
    TransformerEncoder, TransformerEncoderProps,
};

fn t(dims: &[u64]) -> Tensor {
    Tensor::new(dims).unwrap()
}

fn encoder_props(kind: PositionalEncoding) -> TransformerEncoderProps {
    TransformerEncoderProps {
        n_embd: 100,
        n_head: 10,
        n_layers: 3,
        vocab_size: 120,
        positional_encoding: kind,
        max_len: 110,
        causal_mask: true,
    }
}

#[test]
fn test_transformer_encoder() {
    let transformer_encoder = TransformerEncoder::new(encoder_props(PositionalEncoding::Learned));
    let input = t(&[15, 50]);
    let output = transformer_encoder.forward(input).unwrap();
    assert_eq!(output.size(), &[15, 50, 100]);
    assert_eq!(count_parameters(&transformer_encoder.parameters()), Some(266_500));
    assert_eq!(transformer_encoder.parameter_count(), Some(266_500));
}

#[test]
fn encoder_counts_go_by_the_encoding() {
    let sines = TransformerEncoder::new(encoder_props(PositionalEncoding::Sinusoidal));
    assert_eq!(sines.parameter_count(), Some(266_500 - 110 * 100));
    let rotary = TransformerEncoder::new(encoder_props(PositionalEncoding::Rotary));
    assert_eq!(rotary.parameter_count(), Some(266_500 - 110 * 100));
    // token table, positions, last norm, and three blocks of 81100
    assert_eq!(120 * 100 + 110 * 100 + 200 + 3 * 81_100, 266_500);
    let block = TransformerBlock::new(100, 10, false);
    assert_eq!(block.parameter_count(), Some(81_100));
    assert_eq!(block.parameters().len(), 16);
    let attention = SelfAttention::new(100, 10, false);
    assert_eq!(attention.parameter_count(), Some(40_400));
}

#[test]
fn encoder_shapes() {
    let encoder = TransformerEncoder::new(encoder_props(PositionalEncoding::Sinusoidal));
    assert_eq!(encoder.forward(t(&[1, 1])).unwrap().size(), vec![1, 1, 100]);
    assert_eq!(encoder.forward(t(&[7, 110])).unwrap().size(), vec![7, 110, 100]);
    assert_eq!(encoder.forward(t(&[7, 111])).unwrap_err(), ShapeError::OutOfRange);
    assert_eq!(encoder.forward(t(&[7])).unwrap_err(), ShapeError::Mismatch);
    assert_eq!(encoder.forward(t(&[7, 5, 100])).unwrap_err(), ShapeError::Mismatch);
    assert_eq!(encoder.forward(t(&[1 << 60, 2])).unwrap_err(), ShapeError::TooLarge);
    assert_eq!(
        encoder.forward_no_embed(&t(&[7, 5, 100])).unwrap().size(),
        vec![7, 5, 100]
    );
    assert_eq!(encoder.forward_no_embed(&t(&[7, 5, 99])).unwrap_err(), ShapeError::Mismatch);
    assert_eq!(encoder.forward_no_embed(&t(&[7, 5])).unwrap_err(), ShapeError::Mismatch);
    assert_eq!(
        encoder.forward_no_embed(&t(&[7, 111, 100])).unwrap_err(),
        ShapeError::OutOfRange
    );
    let rotary = TransformerEncoder::new(encoder_props(PositionalEncoding::Rotary));
    assert_eq!(rotary.forward(t(&[7, 5])).unwrap_err(), ShapeError::NotImplemented);
    assert_eq!(rotary.forward(t(&[7])).unwrap_err(), ShapeError::Mismatch);
    assert_eq!(
        rotary.forward_no_embed(&t(&[7, 5, 100])).unwrap_err(),
        ShapeError::NotImplemented
    );
}

#[test]
fn encoder_props_are_checked() {
    let good = encoder_props(PositionalEncoding::Learned);
    assert!(good.is_valid());
    assert!(!TransformerEncoderProps { n_head: 3, ..good }.is_valid());
    assert!(!TransformerEncoderProps { n_head: 0, ..good }.is_valid());
    assert!(!TransformerEncoderProps { n_layers: 0, ..good }.is_valid());
    assert!(!TransformerEncoderProps { n_embd: 0, ..good }.is_valid());
    assert!(!TransformerEncoderProps { vocab_size: 0, ..good }.is_valid());
    assert!(!TransformerEncoderProps { max_len: 0, ..good }.is_valid());
    assert!(!TransformerEncoderProps { n_embd: 1 << 32, n_head: 1, ..good }.is_valid());
    assert!(!TransformerEncoderProps { vocab_size: u64::MAX, ..good }.is_valid());
    let encoder = TransformerEncoder::new(good);
    let back = encoder.props();
    assert_eq!(back.n_embd, 100);
    assert_eq!(back.n_head, 10);
    assert_eq!(back.n_layers, 3);
    assert_eq!(back.vocab_size, 120);
    assert_eq!(back.positional_encoding, PositionalEncoding::Learned);
    assert_eq!(back.max_len, 110);
    assert!(back.causal_mask);
    assert!(encoder.token_embedding().accepts_token(119));
    assert!(!encoder.token_embedding().accepts_token(120));
    assert!(!encoder.token_embedding().accepts_token(-1));
    assert_eq!(encoder.position_embedding().positions(), 110);
}

#[test]
fn encoder_modes() {
    let mut encoder = TransformerEncoder::new(encoder_props(PositionalEncoding::Learned));
    assert!(encoder.is_training());
    encoder.eval();
    assert!(!encoder.is_training());
    assert_eq!(encoder.parameter_count(), Some(266_500));
    assert_eq!(encoder.forward(t(&[15, 50])).unwrap().size(), vec![15, 50, 100]);
    encoder.train();
    assert!(encoder.is_training());
    let mut block = TransformerBlock::new(8, 2, true);
    assert!(block.is_training() && block.attention().is_training());
    block.eval();
    assert!(!block.is_training() && !block.attention().is_training());
    block.train();
    assert!(block.is_training() && block.attention().is_training());
    assert!(block.attention().is_causal());
}

#[test]
fn encoder_copy() {
    let props = encoder_props(PositionalEncoding::Learned);
    let mut dst = TransformerEncoder::new(props);
    assert!(dst.copy(&TransformerEncoder::new(props)).is_ok());
    let other = |p: TransformerEncoderProps| TransformerEncoder::new(p);
    assert!(matches!(
        dst.copy(&other(TransformerEncoderProps { n_layers: 2, ..props })),
        Err(WeightCopyError::SizeMismatch)
    ));
    assert!(matches!(
        dst.copy(&other(TransformerEncoderProps { vocab_size: 121, ..props })),
        Err(WeightCopyError::SizeMismatch)
    ));
    assert!(matches!(
        dst.copy(&other(TransformerEncoderProps { n_embd: 110, ..props })),
        Err(WeightCopyError::SizeMismatch)
    ));
    assert!(matches!(
        dst.copy(&other(TransformerEncoderProps { max_len: 111, ..props })),
        Err(WeightCopyError::SizeMismatch)
    ));
    // the number of heads and the mask are no parameters
    assert!(dst.copy(&other(TransformerEncoderProps { n_head: 5, causal_mask: false, ..props })).is_ok());
    match dst.copy(&other(encoder_props(PositionalEncoding::Sinusoidal))) {
        Err(WeightCopyError::Other(text)) => {
            assert_eq!(text, "Positional Encodings are of wrong type!")
        }
        _ => panic!("a table of sines is no learned table"),
    }
    match dst.copy(&other(encoder_props(PositionalEncoding::Rotary))) {
        Err(WeightCopyError::Other(text)) => {
            assert_eq!(text, "Positional Encodings are of wrong type!")
        }
        _ => panic!("a rotation is no learned table"),
    }
    // a size that differs is reported before an encoding that differs
    assert!(matches!(
        dst.copy(&other(TransformerEncoderProps {
            vocab_size: 121,
            ..encoder_props(PositionalEncoding::Rotary)
        })),
        Err(WeightCopyError::SizeMismatch)
    ));
    let mut rotary = other(encoder_props(PositionalEncoding::Rotary));
    assert!(rotary
        .copy(&other(TransformerEncoderProps {
            max_len: 7,
            ..encoder_props(PositionalEncoding::Rotary)
        }))
        .is_ok());
    assert_eq!(dst.parameter_count(), Some(266_500));
}

#[test]
fn position_tables() {
    let learned = PositionTable::new(PositionalEncoding::Learned, 110, 100);
    assert_eq!(learned.table().unwrap().size(), vec![1, 110, 100]);
    assert_eq!(learned.lookup(15, 50).unwrap().size(), vec![15, 50, 100]);
    assert_eq!(learned.lookup(15, 111).unwrap_err(), ShapeError::OutOfRange);
    assert_eq!(learned.lookup(0, 50).unwrap_err(), ShapeError::Invalid);
    assert_eq!(learned.lookup(15, 0).unwrap_err(), ShapeError::Invalid);
    assert_eq!(learned.lookup(1 << 60, 50).unwrap_err(), ShapeError::TooLarge);
    assert_eq!(learned.parameters().len(), 1);
    assert!(learned.rotary_tensors().is_none());
    let sines = PositionTable::new(PositionalEncoding::Sinusoidal, 110, 100);
    assert_eq!(sines.table().unwrap().size(), vec![110, 100]);
    assert_eq!(sines.lookup(15, 50).unwrap().size(), vec![15, 50, 100]);
    assert_eq!(sines.lookup(15, 111).unwrap_err(), ShapeError::OutOfRange);
    assert!(sines.parameters().is_empty());
    let rotary = PositionTable::new(PositionalEncoding::Rotary, 110, 100);
    assert!(rotary.table().is_none());
    assert_eq!(rotary.lookup(15, 50).unwrap_err(), ShapeError::NotImplemented);
    assert_eq!(rotary.lookup(15, 500).unwrap_err(), ShapeError::NotImplemented);
    let (inv_freq, cos, sin) = rotary.rotary_tensors().unwrap();
    assert_eq!(inv_freq.size(), vec![1]);
    assert_eq!(cos.size(), vec![1]);
    assert_eq!(sin.size(), vec![1]);
    assert_eq!(rotary.encoding(), PositionalEncoding::Rotary);
    assert_eq!(rotary.width(), 100);
}

#[test]
fn attention_shapes() {
    let attention = SelfAttention::new(100, 10, true);
    assert_eq!(attention.forward(t(&[15, 50, 100])).unwrap().size(), vec![15, 50, 100]);
    assert_eq!(attention.forward(t(&[15, 50, 99])).unwrap_err(), ShapeError::Mismatch);
    assert_eq!(attention.forward(t(&[50, 100])).unwrap_err(), ShapeError::Mismatch);
    assert_eq!(attention.forward(t(&[2, 15, 50, 100])).unwrap_err(), ShapeError::Mismatch);
    // the scores of 2^20 positions for ten heads and 2^21 sequences are too many
    assert_eq!(
        attention.forward(t(&[1 << 21, 1 << 20, 100])).unwrap_err(),
        ShapeError::TooLarge
    );
    assert_eq!(SelfAttention::generate_mask(5).unwrap().size(), vec![1, 1, 5, 5]);
    assert_eq!(SelfAttention::generate_mask(0).unwrap_err(), ShapeError::Invalid);
    assert_eq!(SelfAttention::generate_mask(1 << 32).unwrap_err(), ShapeError::TooLarge);
    assert!(SelfAttention::dims_ok(100, 10));
    assert!(!SelfAttention::dims_ok(100, 3));
    assert!(!SelfAttention::dims_ok(100, 0));
    assert!(!SelfAttention::dims_ok(0, 1));
    assert_eq!(attention.heads(), 10);
    assert_eq!(attention.width(), 100);
    let mut dst = SelfAttention::new(100, 10, true);
    assert!(dst.copy(&SelfAttention::new(100, 5, false)).is_ok());
    assert!(matches!(
        dst.copy(&SelfAttention::new(110, 10, true)),
        Err(WeightCopyError::SizeMismatch)
    ));
}

#[test]
fn block_shapes() {
    let block = TransformerBlock::new(100, 10, false);
    assert_eq!(block.forward(t(&[15, 50, 100])).unwrap().size(), vec![15, 50, 100]);
    assert_eq!(block.forward(t(&[15, 50, 10])).unwrap_err(), ShapeError::Mismatch);
    assert_eq!(block.forward(t(&[50, 100])).unwrap_err(), ShapeError::Mismatch);
    // the hidden layer is twice as wide as the embedding
    assert_eq!(block.forward(t(&[1 << 57, 1, 100])).unwrap_err(), ShapeError::TooLarge);
    assert_eq!(block.forward(t(&[1 << 56, 1, 100])).unwrap().size(), vec![1 << 56, 1, 100]);
    assert!(TransformerBlock::dims_ok(100, 10));
    assert!(!TransformerBlock::dims_ok(100, 7));
    assert!(TransformerBlock::dims_ok(1 << 31, 1));
    assert!(!TransformerBlock::dims_ok(3_037_000_500, 1));
    let mut dst = TransformerBlock::new(100, 10, false);
    assert!(dst.copy(&block).is_ok());
    assert!(matches!(
        dst.copy(&TransformerBlock::new(50, 10, false)),
        Err(WeightCopyError::SizeMismatch)
    ));
}

#[test]
fn the_causal_mask_hides_the_future() {
    let mask = causal_mask(5);
    assert_eq!(mask.len(), 5);
    for (query, row) in mask.iter().enumerate() {
        assert_eq!(row.len(), 5);
        for (key, &seen) in row.iter().enumerate() {
            assert_eq!(seen, key <= query);
        }
    }
    // position 4 is hidden from the positions 0 to 3
    assert!((0..4).all(|query| !mask[query][4]));
    assert!(mask[4][4]);
    assert!(causal_mask(0).is_empty());
}

fn aggregator_props() -> TransformerAggregatorProps {
    TransformerAggregatorProps {
        n_embd: 100,
        n_head: 10,
        n_layers: 3,
        aggregation_size: 150,
        vocab_size: 120,
        positional_encoding: PositionalEncoding::Learned,
        max_len: 110,
    }
}

#[test]
fn test_transformer_aggregator() {
    let transformer_aggregator = TransformerAggregator::new(aggregator_props());
    let input = t(&[15, 50]);
    let output = transformer_aggregator.forward(input).unwrap();
    assert_eq!(output.size(), &[15, 150]);
    assert_eq!(count_parameters(&transformer_aggregator.parameters()), Some(281_750));
}

#[test]
fn test_transformer_aggregator_from_encoder() {
    let transformer_encoder = TransformerEncoder::new(encoder_props(PositionalEncoding::Learned));
    assert!(TransformerAggregator::fits(&transformer_encoder, 150));
    let transformer_aggregator = TransformerAggregator::from_encoder(transformer_encoder, 150);
    let input = t(&[15, 50]);
    let output = transformer_aggregator.forward(input).unwrap();
    assert_eq!(output.size(), &[15, 150]);
    assert_eq!(count_parameters(&transformer_aggregator.parameters()), Some(281_750));
    // the encoder keeps its mask
    assert!(transformer_aggregator.encoder().props().causal_mask);
}

#[test]
fn aggregator_shapes() {
    let aggregator = TransformerAggregator::new(aggregator_props());
    assert!(aggregator_props().is_valid());
    assert!(!TransformerAggregatorProps { aggregation_size: 0, ..aggregator_props() }.is_valid());
    assert!(!TransformerAggregatorProps { n_head: 7, ..aggregator_props() }.is_valid());
    assert!(!aggregator.encoder().props().causal_mask);
    // the aggregation token takes one of the 110 positions
    assert_eq!(aggregator.forward(t(&[15, 109])).unwrap().size(), vec![15, 150]);
    assert_eq!(aggregator.forward(t(&[15, 110])).unwrap_err(), ShapeError::OutOfRange);
    assert_eq!(aggregator.forward(t(&[15])).unwrap_err(), ShapeError::Mismatch);
    assert_eq!(aggregator.forward(t(&[15, 5, 100])).unwrap_err(), ShapeError::Mismatch);
    assert_eq!(aggregator.forward(t(&[1 << 58, 1])).unwrap_err(), ShapeError::TooLarge);
    assert_eq!(aggregator.aggregation_embedding().size(), vec![100]);
    assert_eq!(aggregator.head().ws().size(), vec![150, 100]);
    let rotary = TransformerAggregator::new(TransformerAggregatorProps {
        positional_encoding: PositionalEncoding::Rotary,
        ..aggregator_props()
    });
    assert_eq!(rotary.forward(t(&[15, 50])).unwrap_err(), ShapeError::NotImplemented);
    // a head as wide as the batch allows, and one step wider
    let wide = TransformerAggregator::new(TransformerAggregatorProps {
        aggregation_size: 1 << 57,
        ..aggregator_props()
    });
    assert_eq!(wide.forward(t(&[64, 1])).unwrap().size(), vec![64, 1 << 57]);
    assert_eq!(wide.forward(t(&[128, 1])).unwrap_err(), ShapeError::TooLarge);
    let mut dst = TransformerAggregator::new(aggregator_props());
    assert!(dst.copy(&aggregator).is_ok());
    assert!(matches!(
        dst.copy(&TransformerAggregator::new(TransformerAggregatorProps {
            aggregation_size: 151,
            ..aggregator_props()
        })),
        Err(WeightCopyError::SizeMismatch)
    ));
    assert!(matches!(
        dst.copy(&TransformerAggregator::new(TransformerAggregatorProps {
            positional_encoding: PositionalEncoding::Sinusoidal,
            ..aggregator_props()
        })),
        Err(WeightCopyError::Other(_))
    ));
    dst.eval();
    assert!(!dst.encoder().is_training());
    dst.train();
    assert!(dst.encoder().is_training());
    assert_eq!(dst.parameter_count(), Some(281_750));
}

fn lm_props() -> LanguageModelProps {
    LanguageModelProps {
        n_embd: 100,
        n_head: 10,
        n_layers: 3,
        vocab_size: 120,
        positional_encoding: PositionalEncoding::Learned,
        max_len: 110,
    }
}

#[test]
fn language_model() {
    let mut lm = LanguageModel::new(lm_props());
    assert!(lm_props().is_valid());
    assert!(lm.transformer().props().causal_mask);
    assert_eq!(lm.forward(t(&[15, 50])).unwrap().size(), vec![15, 50, 120]);
    assert_eq!(lm.forward(t(&[15, 111])).unwrap_err(), ShapeError::OutOfRange);
    assert_eq!(lm.forward(t(&[15])).unwrap_err(), ShapeError::Mismatch);
    assert_eq!(lm.parameter_count(), Some(266_500 + 120 * 100 + 120));
    assert_eq!(lm.head().ws().size(), vec![120, 100]);
    lm.eval();
    assert!(!lm.transformer().is_training());
    lm.train();
    assert!(lm.transformer().is_training());
    let other = LanguageModel::from_encoder(
        TransformerEncoder::new(encoder_props(PositionalEncoding::Learned)),
        77,
    );
    assert_eq!(other.forward(t(&[15, 50])).unwrap().size(), vec![15, 50, 77]);
    assert!(matches!(lm.copy(&other), Err(WeightCopyError::SizeMismatch)));
    assert!(lm.copy(&LanguageModel::new(lm_props())).is_ok());
    // scores for 2^57 tokens at each of 16 positions are too many
    let wide = LanguageModel::from_encoder(
        TransformerEncoder::new(encoder_props(PositionalEncoding::Learned)),
        1 << 57,
    );
    assert_eq!(wide.forward(t(&[4, 2])).unwrap().size(), vec![4, 2, 1 << 57]);
    assert_eq!(wide.forward(t(&[64, 2])).unwrap_err(), ShapeError::TooLarge);
}

fn seq2seq_props() -> Seq2SeqTransformerProps {
    Seq2SeqTransformerProps {
        n_embd: 100,
        n_encoder_heads: 10,
        n_encoder_layers: 3,
        n_decoder_heads: 5,
        n_decoder_layers: 3,
        vocab_size: 120,
        positional_encoding: PositionalEncoding::Learned,
        max_len: 110,
    }
}

#[test]
fn test_transformer_seq2seq() {
    let transformer_seq2seq = Seq2SeqTransformer::new(seq2seq_props());
    // batch size : 15, seq len: 50
    let input = t(&[15, 50]);
    let output = transformer_seq2seq.forward((input, input)).unwrap();
    assert_eq!(output.size(), &[15, 50, 120]);
    assert_eq!(count_parameters(&transformer_seq2seq.parameters()), Some(666920));
}

#[test]
fn seq2seq_shapes() {
    let mut model = Seq2SeqTransformer::new(seq2seq_props());
    assert!(seq2seq_props().is_valid());
    assert!(!Seq2SeqTransformerProps { n_decoder_heads: 3, ..seq2seq_props() }.is_valid());
    assert!(!Seq2SeqTransformerProps { n_decoder_layers: 0, ..seq2seq_props() }.is_valid());
    assert!(!model.encoder().props().causal_mask);
    assert!(model.decoder().props().causal_mask);
    assert_eq!(model.decoder().props().n_head, 5);
    // source and target may differ in length, not in the number of sequences
    assert_eq!(model.forward((t(&[15, 20]), t(&[15, 7]))).unwrap().size(), vec![15, 7, 120]);
    assert_eq!(
        model.forward((t(&[15, 20]), t(&[14, 7]))).unwrap_err(),
        ShapeError::Mismatch
    );
    assert_eq!(
        model.forward((t(&[15, 111]), t(&[15, 7]))).unwrap_err(),
        ShapeError::OutOfRange
    );
    assert_eq!(
        model.forward((t(&[15, 20]), t(&[15, 111]))).unwrap_err(),
        ShapeError::OutOfRange
    );
    assert_eq!(model.forward((t(&[15]), t(&[15, 7]))).unwrap_err(), ShapeError::Mismatch);
    assert_eq!(model.forward((t(&[15, 20]), t(&[15]))).unwrap_err(), ShapeError::Mismatch);
    assert_eq!(
        model.decode(t(&[15, 7]), t(&[15, 20, 100])).unwrap().size(),
        vec![15, 7, 120]
    );
    assert_eq!(
        model.decode(t(&[15, 7]), t(&[15, 20, 99])).unwrap_err(),
        ShapeError::Mismatch
    );
    model.eval();
    assert!(!model.encoder().is_training() && !model.decoder().is_training());
    model.train();
    assert!(model.encoder().is_training() && model.decoder().is_training());
    assert_eq!(model.parameter_count(), Some(666_920));
    assert_eq!(model.head().ws().size(), vec![120, 100]);
    let mut dst = Seq2SeqTransformer::new(seq2seq_props());
    assert!(dst.copy(&model).is_ok());
    assert!(matches!(
        dst.copy(&Seq2SeqTransformer::new(Seq2SeqTransformerProps {
            n_decoder_layers: 2,
            ..seq2seq_props()
        })),
        Err(WeightCopyError::SizeMismatch)
    ));
    assert!(matches!(
        dst.copy(&Seq2SeqTransformer::new(Seq2SeqTransformerProps {
            vocab_size: 121,
            ..seq2seq_props()
        })),
        Err(WeightCopyError::SizeMismatch)
    ));
    assert!(matches!(
        dst.copy(&Seq2SeqTransformer::new(Seq2SeqTransformerProps {
            positional_encoding: PositionalEncoding::Sinusoidal,
            ..seq2seq_props()
        })),
        Err(WeightCopyError::Other(_))
    ));
}

fn decoder_props() -> TransformerDecoderProps {
    TransformerDecoderProps {
        n_embd: 100,
        n_head: 5,
        n_layers: 3,
        vocab_size: 120,
        positional_encoding: PositionalEncoding::Sinusoidal,
        max_len: 110,
        causal_mask: true,
    }
}

#[test]
fn decoder_shapes() {
    let mut decoder = TransformerDecoder::new(decoder_props());
    assert!(decoder_props().is_valid());
    assert!(!TransformerDecoderProps { n_layers: 0, ..decoder_props() }.is_valid());
    let enc = t(&[15, 20, 100]);
    assert_eq!(decoder.forward((t(&[15, 7]), enc)).unwrap().size(), vec![15, 7, 100]);
    assert_eq!(decoder.forward((t(&[15, 111]), enc)).unwrap_err(), ShapeError::OutOfRange);
    assert_eq!(decoder.forward((t(&[14, 7]), enc)).unwrap_err(), ShapeError::Mismatch);
    assert_eq!(decoder.forward((t(&[15, 7]), t(&[15, 20]))).unwrap_err(), ShapeError::Mismatch);
    assert_eq!(
        decoder.forward((t(&[15, 7]), t(&[15, 20, 101]))).unwrap_err(),
        ShapeError::Mismatch
    );
    // 12000 + 200 + 3 * 121700, and no learned positions
    assert_eq!(decoder.parameter_count(), Some(377_300));
    assert_eq!(decoder.props().n_layers, 3);
    assert!(decoder.token_embedding().accepts_token(0));
    decoder.eval();
    assert!(!decoder.is_training());
    decoder.train();
    assert!(decoder.is_training());
    let rotary = TransformerDecoder::new(TransformerDecoderProps {
        positional_encoding: PositionalEncoding::Rotary,
        ..decoder_props()
    });
    assert_eq!(rotary.forward((t(&[15, 7]), enc)).unwrap_err(), ShapeError::NotImplemented);
    let mut dst = TransformerDecoder::new(decoder_props());
    assert!(dst.copy(&decoder).is_ok());
    assert!(matches!(dst.copy(&rotary), Err(WeightCopyError::Other(_))));
    assert!(matches!(
        dst.copy(&TransformerDecoder::new(TransformerDecoderProps {
            max_len: 111,
            ..decoder_props()
        })),
        Err(WeightCopyError::SizeMismatch)
    ));
}

#[test]
fn decoder_block_shapes() {
    let mut block = TransformerDecoderBlock::new(100, 5, true);
    let enc = t(&[15, 20, 100]);
    assert_eq!(block.forward((t(&[15, 7, 100]), enc)).unwrap().size(), vec![15, 7, 100]);
    assert_eq!(block.forward((t(&[15, 7, 99]), enc)).unwrap_err(), ShapeError::Mismatch);
    assert_eq!(block.forward((t(&[15, 7]), enc)).unwrap_err(), ShapeError::Mismatch);
    assert_eq!(block.forward((t(&[14, 7, 100]), enc)).unwrap_err(), ShapeError::Mismatch);
    assert_eq!(block.parameter_count(), Some(121_700));
    assert_eq!(block.parameters().len(), 26);
    assert!(block.attention().is_causal());
    assert!(!block.cross_attention().is_causal());
    assert!(block.is_training());
    block.eval();
    assert!(!block.is_training());
    assert!(!block.attention().is_training());
    assert!(!block.cross_attention().is_training());
    block.train();
    assert!(block.cross_attention().is_training());
    let mut dst = TransformerDecoderBlock::new(100, 10, false);
    assert!(dst.copy(&block).is_ok());
    assert!(matches!(
        dst.copy(&TransformerDecoderBlock::new(50, 5, true)),
        Err(WeightCopyError::SizeMismatch)
    ));
}

#[test]
fn cross_attention_shapes() {
    let plain = DecoderSelfAttention::new(100, 5, false);
    let enc = t(&[15, 20, 100]);
    assert_eq!(plain.forward((t(&[15, 7, 100]), enc)).unwrap().size(), vec![15, 7, 100]);
    assert_eq!(plain.forward((t(&[15, 7, 100]), t(&[15, 20, 50]))).unwrap_err(), ShapeError::Mismatch);
    assert_eq!(plain.forward((t(&[15, 7, 100]), t(&[16, 20, 100]))).unwrap_err(), ShapeError::Mismatch);
    assert_eq!(plain.forward((t(&[7, 100]), enc)).unwrap_err(), ShapeError::Mismatch);
    assert_eq!(plain.parameter_count(), Some(40_400));
    // a square mask fits only where queries and keys are as many, or the query is one
    let masked = DecoderSelfAttention::new(100, 5, true);
    assert_eq!(masked.forward((t(&[15, 20, 100]), enc)).unwrap().size(), vec![15, 20, 100]);
    assert_eq!(masked.forward((t(&[15, 1, 100]), enc)).unwrap().size(), vec![15, 1, 100]);
    assert_eq!(masked.forward((t(&[15, 7, 100]), enc)).unwrap_err(), ShapeError::Mismatch);
    // 2^31 queries and keys for each of five heads are too many
    assert_eq!(
        plain.forward((t(&[1, 1 << 31, 100]), t(&[1, 1 << 31, 100]))).unwrap_err(),
        ShapeError::TooLarge
    );
    let mut dst = DecoderSelfAttention::new(100, 5, false);
    assert!(dst.copy(&masked).is_ok());
    assert!(matches!(
        dst.copy(&DecoderSelfAttention::new(10, 5, false)),
        Err(WeightCopyError::SizeMismatch)
    ));
    dst.eval();
    assert!(!dst.is_training());
    dst.train();
    assert!(dst.is_training());
}

#[test]
fn generation_of_n_tokens() {
    for n in [1u32, 2, 7] {
        let mut g = Generation::start(3, InferenceMode::NTokens(n));
        let mut steps = 0;
        while g.is_awaiting() {
            steps += 1;
            g.push(10 + steps as i64);
        }
        assert_eq!(steps, n);
        assert_eq!(g.produced(), n);
        assert_eq!(g.status(), GenerationStatus::TerminatedByCount);
        assert_eq!(g.output().len(), n as usize + 1);
        assert_eq!(g.output()[0], 3);
        assert_eq!(g.output()[n as usize], 10 + n as i64);
        // a token that comes too late is not taken
        assert_eq!(g.push(99), GenerationStatus::TerminatedByCount);
        assert_eq!(g.produced(), n);
        assert_eq!(g.mode(), InferenceMode::NTokens(n));
    }
    let none = Generation::start(3, InferenceMode::NTokens(0));
    assert!(!none.is_awaiting());
    assert_eq!(none.status(), GenerationStatus::TerminatedByCount);
    assert_eq!(none.into_output(), vec![3]);
}

#[test]
fn generation_up_to_an_end_token() {
    let mut g = Generation::start(0, InferenceMode::EndToken(9));
    assert_eq!(g.push(4), GenerationStatus::AwaitingNextToken);
    assert_eq!(g.push(5), GenerationStatus::AwaitingNextToken);
    assert_eq!(g.target().size(), vec![1, 3]);
    assert_eq!(g.push(9), GenerationStatus::TerminatedByEndToken);
    assert_eq!(g.push(6), GenerationStatus::TerminatedByEndToken);
    assert_eq!(g.into_output(), vec![0, 4, 5, 9]);
    // an end token that equals the start token ends it only when it is produced
    let mut same = Generation::start(9, InferenceMode::EndToken(9));
    assert!(same.is_awaiting());
    assert_eq!(same.push(9), GenerationStatus::TerminatedByEndToken);
}

#[test]
fn generation_stops_at_the_cap() {
    let mut g = Generation::start(0, InferenceMode::EndToken(-1));
    let mut steps = 0u32;
    while g.is_awaiting() {
        steps += 1;
        g.push(1);
    }
    assert_eq!(steps, GENERATION_CAP);
    assert_eq!(steps, 5000);
    assert_eq!(g.status(), GenerationStatus::TerminatedBySafetyCap);
    assert_eq!(g.produced(), 5000);
    assert_eq!(g.output().len(), 5001);
    // the end token at the very last step counts as the end token
    let mut g = Generation::start(0, InferenceMode::EndToken(-1));
    for _ in 0..4999 {
        g.push(1);
    }
    assert_eq!(g.push(-1), GenerationStatus::TerminatedByEndToken);
}

#[test]
fn generation_with_a_model() {
    let model = Seq2SeqTransformer::new(seq2seq_props());
    let (encoded, mut g) = model
        .forward_generate(t(&[1, 20]), 0, InferenceMode::NTokens(4))
        .unwrap();
    assert_eq!(encoded.size(), vec![1, 20, 100]);
    let mut lengths = Vec::new();
    while g.is_awaiting() {
        let logits = model.decode(g.target(), encoded).unwrap();
        lengths.push(logits.size());
        g.push(7);
    }
    assert_eq!(
        lengths,
        vec![vec![1, 1, 120], vec![1, 2, 120], vec![1, 3, 120], vec![1, 4, 120]]
    );
    assert_eq!(g.into_output(), vec![0, 7, 7, 7, 7]);
    // one sequence at a time
    assert_eq!(
        model.forward_generate(t(&[2, 20]), 0, InferenceMode::NTokens(4)).unwrap_err(),
        ShapeError::Mismatch
    );
    assert_eq!(
        model.forward_generate(t(&[1, 111]), 0, InferenceMode::NTokens(4)).unwrap_err(),
        ShapeError::OutOfRange
    );
    assert_eq!(
        model.forward_generate(t(&[1]), 0, InferenceMode::EndToken(4)).unwrap_err(),
        ShapeError::Mismatch
    );
}
