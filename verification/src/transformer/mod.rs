//! Transformer blocks and the models built from them.

pub mod base;
pub mod decoder;
pub mod encoder;
pub mod lm;
pub mod seq2seq;

pub use base::{PositionTable, PositionalEncoding, SelfAttention, TransformerBlock};
pub use decoder::{
    DecoderSelfAttention, TransformerDecoder, TransformerDecoderBlock, TransformerDecoderProps,
};
pub use encoder::{
    TransformerAggregator, TransformerAggregatorProps, TransformerEncoder, TransformerEncoderProps,
};
pub use lm::{LanguageModel, LanguageModelProps};
pub use seq2seq::{
    Generation, GenerationStatus, InferenceMode, Seq2SeqTransformer, Seq2SeqTransformerProps,
};
