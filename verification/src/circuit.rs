//! The circuit form's ground: a record of gates over field wires, what it
//! means for an assignment of values to satisfy it, and how a witness is
//! filled.

pub mod builder;
pub mod witness;
