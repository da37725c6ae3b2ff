//! The record of a circuit under construction.
//!
//! A circuit is a sequence of gates. Gate number `i` owns wire number `i`
//! and may read the wires before it. Building a circuit is pure: a gadget
//! appends gates and hands back the wires that carry its result. What the
//! gates demand of the values on the wires is `satisfies`.

use crate::fields::fq6_target::Fq6InverseGenerator;
use crate::math::field::{fq_add, fq_mul, fq_neg, fq_sub, modulus};
use crate::native::fields::Fq;
use vstd::prelude::*;

verus! {

#[derive(Clone, Copy, Debug, PartialEq, Eq)]
pub enum Gate {
    /// A wire under no constraint. Its value comes from the caller or from
    /// a generator.
    Virtual,
    /// A wire constrained to carry zero or one.
    VirtualBool,
    /// A wire constrained to carry the given element.
    Constant(Fq),
    /// The sum of two wires.
    Add(usize, usize),
    /// The first wire less the second.
    Sub(usize, usize),
    /// The product of two wires.
    Mul(usize, usize),
    /// The additive inverse of a wire.
    Neg(usize),
    /// The second wire where the first, a flag, is set, and else the third.
    Select(usize, usize, usize),
    /// The constraint that two wires carry the same value. Its own wire
    /// carries zero.
    Connect(usize, usize),
    /// A generator: when the witness is filled, the six wires of the second
    /// array receive the coefficients of the inverse of the sextic element
    /// on the six wires of the first. It constrains nothing, and its own
    /// wire carries zero.
    Fq6Inverse([usize; 6], [usize; 6]),
}

impl Gate {
    /// A gate that computes its wire from the wires it reads.
    pub open spec fn is_arithmetic(self) -> bool {
        match self {
            Gate::Constant(_) => true,
            Gate::Add(_, _) => true,
            Gate::Sub(_, _) => true,
            Gate::Mul(_, _) => true,
            Gate::Neg(_) => true,
            Gate::Select(_, _, _) => true,
            _ => false,
        }
    }

    /// A gate whose wire can only carry zero or one.
    pub open spec fn is_flag(self) -> bool {
        match self {
            Gate::VirtualBool => true,
            Gate::Constant(c) => c@ <= 1,
            _ => false,
        }
    }
}

/// Gate number `i` of `gates` reads only wires before its own, a constant
/// is canonical, a selection is steered by a flag, and a generator fills
/// wires that are under no constraint.
pub open spec fn gate_wf(gates: Seq<Gate>, i: int) -> bool {
    match gates[i] {
        Gate::Virtual => true,
        Gate::VirtualBool => true,
        Gate::Constant(c) => c.wf(),
        Gate::Add(a, b) => a < i && b < i,
        Gate::Sub(a, b) => a < i && b < i,
        Gate::Mul(a, b) => a < i && b < i,
        Gate::Neg(a) => a < i,
        Gate::Select(f, a, b) => f < i && a < i && b < i && gates[f as int].is_flag(),
        Gate::Connect(a, b) => a < i && b < i,
        Gate::Fq6Inverse(x, inv) => forall|k: int|
            #![trigger x[k]]
            #![trigger inv[k]]
            0 <= k < 6 ==> x[k] < i && inv[k] < i && gates[inv[k] as int] == Gate::Virtual,
    }
}

pub open spec fn gates_wf(gates: Seq<Gate>) -> bool {
    forall|i: int| 0 <= i < gates.len() ==> #[trigger] gate_wf(gates, i)
}

/// What `gate`, as gate number `i`, demands of the values `w` on the wires.
pub open spec fn gate_holds(gate: Gate, w: Seq<nat>, i: int) -> bool {
    match gate {
        Gate::Virtual => true,
        Gate::VirtualBool => w[i] <= 1,
        Gate::Constant(c) => w[i] == c@,
        Gate::Add(a, b) => w[i] == fq_add(w[a as int], w[b as int]),
        Gate::Sub(a, b) => w[i] == fq_sub(w[a as int], w[b as int]),
        Gate::Mul(a, b) => w[i] == fq_mul(w[a as int], w[b as int]),
        Gate::Neg(a) => w[i] == fq_neg(w[a as int]),
        Gate::Select(f, a, b) => w[i] == if w[f as int] != 0 {
            w[a as int]
        } else {
            w[b as int]
        },
        Gate::Connect(a, b) => w[a as int] == w[b as int] && w[i] == 0,
        Gate::Fq6Inverse(_, _) => w[i] == 0,
    }
}

/// The values `w` on the wires satisfy the circuit: each is a canonical
/// field element, and each gate's demand is met.
pub open spec fn satisfies(gates: Seq<Gate>, w: Seq<nat>) -> bool {
    &&& gates.len() <= w.len()
    &&& forall|i: int| 0 <= i < gates.len() ==> (#[trigger] w[i]) < modulus()
    &&& forall|i: int| 0 <= i < gates.len() ==> gate_holds(#[trigger] gates[i], w, i)
}

/// `after` is `before` with gates appended.
pub open spec fn extends(before: Seq<Gate>, after: Seq<Gate>) -> bool {
    &&& before.len() <= after.len()
    &&& forall|i: int| 0 <= i < before.len() ==> #[trigger] after[i] == before[i]
}

/// From gate number `n` on, every gate of `gates` is arithmetic: none adds
/// a free wire, a constraint, or a generator.
pub open spec fn arithmetic_from(gates: Seq<Gate>, n: int) -> bool {
    forall|i: int| n <= i < gates.len() ==> (#[trigger] gates[i]).is_arithmetic()
}

/// `after` is the well-formed circuit `before` with arithmetic gates
/// appended: what satisfied the circuit before still has to, and nothing new
/// is asked but that the new wires carry what their gates compute.
pub open spec fn appends_arithmetic(before: Seq<Gate>, after: Seq<Gate>) -> bool {
    &&& gates_wf(after)
    &&& extends(before, after)
    &&& arithmetic_from(after, before.len() as int)
    &&& forall|w: Seq<nat>| #[trigger] satisfies(after, w) ==> satisfies(before, w)
}

/// `after` is the well-formed circuit `before` with gates of any kind
/// appended.
pub open spec fn appends(before: Seq<Gate>, after: Seq<Gate>) -> bool {
    &&& gates_wf(after)
    &&& extends(before, after)
    &&& forall|w: Seq<nat>| #[trigger] satisfies(after, w) ==> satisfies(before, w)
}

/// Values that satisfy a circuit satisfy every circuit that it extends.
pub proof fn lemma_extends_satisfies(before: Seq<Gate>, after: Seq<Gate>, w: Seq<nat>)
    requires
        extends(before, after),
        satisfies(after, w),
    ensures
        satisfies(before, w),
{
    assert forall|i: int| 0 <= i < before.len() implies gate_holds(#[trigger] before[i], w, i) by {
        assert(after[i] == before[i]);
    }
}

pub struct CircuitBuilder {
    pub gates: Vec<Gate>,
}

impl View for CircuitBuilder {
    type V = Seq<Gate>;

    open spec fn view(&self) -> Seq<Gate> {
        self.gates@
    }
}

impl CircuitBuilder {
    pub open spec fn wf(&self) -> bool {
        gates_wf(self@)
    }

    /// A circuit without gates.
    pub fn new() -> (r: Self)
        ensures
            r.wf(),
            r@.len() == 0,
    {
        CircuitBuilder { gates: Vec::new() }
    }

    /// The number of gates, which is the number of the next wire.
    pub fn num_gates(&self) -> (n: usize)
        ensures
            n == self@.len(),
    {
        self.gates.len()
    }

    /// Appends `gate` and returns the number of its wire.
    pub fn push(&mut self, gate: Gate) -> (wire: usize)
        requires
            old(self).wf(),
            gate_wf(old(self)@.push(gate), old(self)@.len() as int),
        ensures
            final(self).wf(),
            final(self)@ == old(self)@.push(gate),
            wire == old(self)@.len(),
            appends(old(self)@, final(self)@),
            gate.is_arithmetic() ==> appends_arithmetic(old(self)@, final(self)@),
            forall|w: Seq<nat>| #[trigger]
                satisfies(final(self)@, w) ==> gate_holds(gate, w, wire as int),
    {
        let wire = self.gates.len();
        self.gates.push(gate);
        proof {
            let old_gates = old(self)@;
            let new_gates = self@;
            assert(new_gates == old_gates.push(gate));
            assert forall|i: int| 0 <= i < new_gates.len() implies #[trigger] gate_wf(
                new_gates,
                i,
            ) by {
                if i < old_gates.len() {
                    assert(gate_wf(old_gates, i));
                    assert(new_gates[i] == old_gates[i]);
                    match old_gates[i] {
                        Gate::Select(f, a, b) => {
                            assert(new_gates[f as int] == old_gates[f as int]);
                        },
                        Gate::Fq6Inverse(x, inv) => {
                            assert forall|k: int| 0 <= k < 6 implies new_gates[(#[trigger] inv[k])
                                as int] == Gate::Virtual by {
                                assert(new_gates[inv[k] as int] == old_gates[inv[k] as int]);
                            }
                        },
                        _ => {},
                    }
                }
            }
            assert forall|w: Seq<nat>| #[trigger] satisfies(new_gates, w) implies satisfies(
                old_gates,
                w,
            ) && gate_holds(gate, w, wire as int) by {
                lemma_extends_satisfies(old_gates, new_gates, w);
                assert(new_gates[wire as int] == gate);
            }
        }
        wire
    }

    /// Registers `generator`: when the witness is filled, it will write
    /// onto its output wires, which no gate has yet given a value.
    pub fn add_simple_generator(&mut self, generator: Fq6InverseGenerator)
        requires
            old(self).wf(),
            generator.x.valid(old(self)@),
            generator.inv.valid(old(self)@),
            forall|k: int|
                0 <= k < 6 ==> old(self)@[(#[trigger] generator.inv.coeffs[k]).wire as int]
                    == Gate::Virtual,
        ensures
            final(self)@ == old(self)@.push(
                Gate::Fq6Inverse(generator.x.spec_wires(), generator.inv.spec_wires()),
            ),
            appends(old(self)@, final(self)@),
    {
        let gate = Gate::Fq6Inverse(generator.x.wires(), generator.inv.wires());
        proof {
            let (x, inv) = (generator.x.spec_wires(), generator.inv.spec_wires());
            let gates = self@.push(gate);
            assert forall|k: int|
                #![trigger x[k]]
                #![trigger inv[k]]
                0 <= k < 6 implies x[k] < self@.len() && inv[k] < self@.len() && gates[inv[k] as int]
                == Gate::Virtual by {
                assert(x[k] == generator.x.coeffs[k].wire);
                assert(inv[k] == generator.inv.coeffs[k].wire);
            }
        }
        self.push(gate);
    }
}

} // verus!
