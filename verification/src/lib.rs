//! Pairing arithmetic for BLS12-381 in two mirrored forms.
//!
//! The native form computes on field elements: it prepares a point of the
//! twisted curve into the coefficients of the lines of the Miller loop, and
//! evaluates the loop over pairs of points. The circuit form describes the
//! same computation as an arithmetic circuit: its values are wires, its
//! operations append gates to a record, and what it promises of a result is
//! promised of every assignment of values that satisfies the record.
//!
//! Both forms are held to one description of the mathematics, in `math`:
//! the base field as arithmetic on residues, the tower of extensions over
//! it, the preparation and the loop. So what the circuit form constrains a
//! wire to carry is what the native form computes, to the bit.
//!
//! * `math` holds that description and the laws proved of it;
//! * `native` holds the field elements as plain values, with the arithmetic
//!   that the arkworks types carry out, and the native Miller loop;
//! * `circuit` holds the record of gates, what it means to satisfy it, and
//!   the filling of a witness;
//! * `fields` and `curves` hold the tower and the points on wires;
//! * `miller_loop` holds the Miller loop on wires;
//! * `equivalence` sets the two forms side by side.
//!
//! The loop yields the raw value of the Miller function. The final
//! exponentiation, which makes a pairing of it, is left to the caller.

pub mod circuit;
pub mod curves;
pub mod equivalence;
pub mod fields;
pub mod math;
pub mod miller_loop;
pub mod native;
pub mod utils;
