//! Shape-checked building blocks for neural networks.
//!
//! A tensor is known to this crate by its shape. Every layer states which
//! input shapes it accepts and which shape it answers with, how many trainable
//! parameters it owns, and whether another instance can hand over its weights.
//! The numeric kernels belong to whatever tensor engine the caller links; they
//! are told what to do through the values these functions return.
//!
//! What moves elements without computing on them (taking an entry, tiling,
//! joining, masking, copying) is also done here, on a [`buffer::Buffer`] that
//! holds the elements of one tensor row by row.

pub mod activation;
pub mod buffer;
pub mod error;
pub mod linear;
pub mod module;
pub mod other;
pub mod progress;
pub mod rnn;
pub mod sequential;
pub mod tensor;
pub mod transformer;
pub mod utils;
