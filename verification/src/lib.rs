//! Matrices over a field, with their constructors, elementary row operations and products,
//! and the monomial orders on multidegrees, each stated and proved against a mathematical
//! model.

pub mod field;
pub mod mat;
pub mod mat_laws;
pub mod mat_model;
pub mod mat_text;
pub mod mdeg;
pub mod ord;
pub mod ord_laws;
