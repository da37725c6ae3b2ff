//! Points of the two curves in circuit form.

pub mod g1;
pub mod g2;
