//! The native form: direct computation on field elements.

pub mod curves;
pub mod fields;
pub mod miller_loop;
