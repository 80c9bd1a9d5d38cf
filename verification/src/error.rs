use vstd::prelude::*;

verus! {

/// The ways in which an operation of this crate can refuse its operands.
#[derive(Debug, Clone, Copy, PartialEq, Eq, Structural)]
pub enum AlgebraError {
    /// The divisor of a complex division compared equal to zero in both parts.
    DivisionByZero,
    /// Two vectors that must have the same length do not.
    DimensionMismatch,
    /// An element count does not fit a shape, or two shapes do not fit each other.
    ShapeMismatch,
    /// A row or column index lies outside the matrix.
    OutOfRange,
}

} // verus!
