//! Errors of the numeric and persistence layers.
use vstd::prelude::*;
use crate::feature::FeatureType;

verus! {

/// Why an operation of this library failed.
#[derive(Debug, PartialEq, Eq)]
pub enum AppError {
    /// A mean or median was asked of no vectors.
    EmptyInput,
    /// Two vectors that must have the same length do not.
    DimensionMismatch,
    /// The storage driver failed; the text is its message.
    Storage(String),
    /// The stored blob of the row with this id cannot be decoded.
    Serialization(i64),
    /// An identity has no aggregate record of this kind.
    MissingAggregate(FeatureType),
}

} // verus!
