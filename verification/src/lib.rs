//! Complex numbers, complex vectors and complex matrices over a scalar type
//! that the caller chooses.
//!
//! The scalar `R` supplies the arithmetic of the real line through the
//! operators of `core::ops`. Nothing is assumed of those operators: every
//! contract in this crate says which scalar operations a function performs, in
//! which order, and on which operands, so that the result is pinned down as far
//! as the scalar's own arithmetic pins it down.
//!
//! What the scalar has no operator for (the square root, the arctangent, the
//! cosine and the sine) the caller hands to the functions that need it.
//!
//! The laws of the algebra, such as the symmetry of the inner product, are
//! proved in `laws` and `product_laws`, for scalars that compute exactly.

pub mod scalar;
pub mod error;
pub mod text;
pub mod complex_number;
pub mod coordinates;
pub mod complex_vector;
pub mod complex_matrix;
pub mod laws;
pub mod product_laws;

pub use crate::complex_number::Complex;
pub use crate::coordinates::{Cartesian, Polar};
pub use crate::complex_matrix::{product_matrix_vector, ComplexMatrix};
pub use crate::complex_vector::ComplexVector;
pub use crate::error::AlgebraError;
pub use crate::scalar::Scalar;
