//! The mathematics the library is specified against: the base field, the
//! extension tower over it, and the pairing computation.

pub mod batching;
pub mod field;
pub mod formulas;
pub mod pairing;
pub mod ring;
pub mod tower;
