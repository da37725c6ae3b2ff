//! The circuit form of the field tower: elements as wires of a circuit,
//! and operations as gadgets that append gates.

pub mod fq12_target;
pub mod fq2_target;
pub mod fq6_target;
pub mod fq_target;
