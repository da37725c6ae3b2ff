//! Parameters of the curve, and the order of coefficients.

pub mod constants;
pub mod my_fq6;
