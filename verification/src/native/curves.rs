//! Points of the two curves in affine coordinates.

use crate::native::fields::{Fq, Fq2};
use vstd::prelude::*;

verus! {

/// A point of the base curve: its coordinates, or the point at infinity.
#[derive(Clone, Copy, Debug, PartialEq, Eq)]
pub struct G1Affine {
    pub x: Fq,
    pub y: Fq,
    pub infinity: bool,
}

/// A point of the twisted curve: its coordinates, or the point at infinity.
#[derive(Clone, Copy, Debug, PartialEq, Eq)]
pub struct G2Affine {
    pub x: Fq2,
    pub y: Fq2,
    pub infinity: bool,
}

impl G1Affine {
    /// The coordinates of a finite point are canonical; those of the point
    /// at infinity are never read.
    pub open spec fn wf(&self) -> bool {
        !self.infinity ==> self.x.wf() && self.y.wf()
    }

    pub fn is_zero(&self) -> (r: bool)
        ensures
            r == self.infinity,
    {
        self.infinity
    }

    /// The coordinates, unless this is the point at infinity.
    pub fn xy(&self) -> (r: Option<(Fq, Fq)>)
        ensures
            r == if self.infinity {
                None
            } else {
                Some((self.x, self.y))
            },
    {
        if self.infinity {
            None
        } else {
            Some((self.x, self.y))
        }
    }
}

impl G2Affine {
    /// The coordinates of a finite point are canonical; those of the point
    /// at infinity are never read.
    pub open spec fn wf(&self) -> bool {
        !self.infinity ==> self.x.wf() && self.y.wf()
    }

    pub fn is_zero(&self) -> (r: bool)
        ensures
            r == self.infinity,
    {
        self.infinity
    }

    /// The coordinates, unless this is the point at infinity.
    pub fn xy(&self) -> (r: Option<(Fq2, Fq2)>)
        ensures
            r == if self.infinity {
                None
            } else {
                Some((self.x, self.y))
            },
    {
        if self.infinity {
            None
        } else {
            Some((self.x, self.y))
        }
    }
}

} // verus!
