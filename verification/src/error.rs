use vstd::prelude::*;

verus! {

/// Why a shape operation was refused.
#[derive(Clone, Copy, Debug, PartialEq, Eq, Structural)]
pub enum ShapeError {
    /// The axes do not describe a tensor: fewer than one axis, more than five,
    /// or an axis of size zero.
    Invalid,
    /// The axes are fine one by one, but the element count does not fit in 64 bits.
    TooLarge,
    /// The operands' shapes do not agree under the operation's rule.
    Mismatch,
    /// An index or an axis number lies outside the tensor.
    OutOfRange,
    /// The path exists in the interface but has no implementation.
    NotImplemented,
}

/// Why weights could not be taken over from another instance.
#[derive(Debug)]
pub enum WeightCopyError {
    /// Two corresponding parameters differ in shape.
    SizeMismatch,
    /// Anything else; the text says what.
    Other(String),
}

impl WeightCopyError {
    /// A readable line for logs.
    pub fn message(&self) -> (text: String)
        ensures
            self is SizeMismatch ==> text@ == "size mismatch"@,
            self matches WeightCopyError::Other(m) ==> text@ == m@,
    {
        match self {
            WeightCopyError::SizeMismatch => "size mismatch".to_owned(),
            WeightCopyError::Other(m) => m.clone(),
        }
    }
}

} // verus!
