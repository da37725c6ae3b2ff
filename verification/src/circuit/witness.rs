//! Witness filling: the phase that assigns a value to every wire of a
//! finished circuit.
//!
//! The gates are visited in their order. A gate that computes takes its
//! value from the wires it reads; a free wire takes the value that the
//! caller gave it, if any; a generator computes values outside the circuit
//! and writes them onto free wires; a constraint is checked. What a
//! generator writes is not trusted to be right: only the constraints that
//! the circuit puts on those wires make it so.

use crate::circuit::builder::{
    arithmetic_from, gate_holds, gates_wf, satisfies, CircuitBuilder, Gate,
};
use crate::fields::fq6_target::Fq6InverseGenerator;
use crate::fields::fq_target::FqTarget;
use crate::math::field::{fq_add, fq_mul, fq_neg, fq_sub, lemma_ops_canonical, modulus};
use crate::math::tower::{
    fq6_coefficients, fq6_from_coefficients, fq6_inv, fq6_is_inverse, fq6_zero, Fq6Value,
};
use crate::native::fields::Fq;
use vstd::prelude::*;

verus! {

/// Why a witness could not be filled. Each carries the number of that gate
/// at which filling stopped.
#[derive(Clone, Copy, Debug, PartialEq, Eq)]
pub enum WitnessError {
    /// A wire that is read has no value yet.
    Undetermined(usize),
    /// The values break a constraint, or a generator's value
    /// contradicts the value that a wire already has.
    Unsatisfied(usize),
    /// The input of the generator has no inverse.
    NotInvertible(usize),
}

/// The values that the caller gives to free wires, by the number of the
/// wire.
pub struct PartialWitness {
    pub values: Vec<Option<Fq>>,
}

/// The values that the wires have at some point of the filling.
pub struct PartitionWitness {
    pub values: Vec<Option<Fq>>,
}

/// The values that a generator has computed, each with its wire.
pub struct GeneratedValues {
    pub target_values: Vec<(FqTarget, Fq)>,
}

impl PartialWitness {
    /// No wire has been given a value.
    pub fn new() -> (r: Self)
        ensures
            r.values@.len() == 0,
    {
        PartialWitness { values: Vec::new() }
    }

    /// Gives the wire `target` the value `value`.
    pub fn set_target(&mut self, target: FqTarget, value: Fq)
        requires
            options_wf(old(self).values@),
            value.wf(),
        ensures
            options_wf(final(self).values@),
            final(self).values@.len() > target.wire,
            final(self).values@.len() >= old(self).values@.len(),
            forall|i: int|
                0 <= i < final(self).values@.len() ==> #[trigger] final(self).values@[i] == if i
                    == target.wire {
                    Some(value)
                } else if i < old(self).values@.len() {
                    old(self).values@[i]
                } else {
                    None
                },
    {
        while self.values.len() <= target.wire
            invariant
                options_wf(self.values@),
                self.values@.len() >= old(self).values@.len(),
                forall|i: int|
                    0 <= i < self.values@.len() ==> #[trigger] self.values@[i] == if i < old(
                        self,
                    ).values@.len() {
                        old(self).values@[i]
                    } else {
                        None
                    },
            decreases target.wire + 1 - self.values.len(),
        {
            self.values.push(None);
        }
        self.values.set(target.wire, Some(value));
    }

    /// What the wire number `wire` has been given.
    pub fn get(&self, wire: usize) -> (r: Option<Fq>)
        ensures
            option_value(r) == given(option_values(self.values@), wire as int),
            options_wf(self.values@) ==> (r matches Some(x) ==> x.wf()),
    {
        if wire < self.values.len() {
            self.values[wire]
        } else {
            None
        }
    }
}

impl PartitionWitness {
    /// The value on the wire `target`, which has one.
    pub fn get_target(&self, target: FqTarget) -> (r: Fq)
        requires
            target.wire < self.values@.len(),
            self.values@[target.wire as int] is Some,
        ensures
            Some(r) == self.values@[target.wire as int],
    {
        match self.values[target.wire] {
            Some(x) => x,
            None => Fq::zero(),
        }
    }
}

impl GeneratedValues {
    pub fn new() -> (r: Self)
        ensures
            r.target_values@.len() == 0,
    {
        GeneratedValues { target_values: Vec::new() }
    }

    /// Hands out `value` for the wire `target`.
    pub fn set_target(&mut self, target: FqTarget, value: Fq)
        ensures
            final(self).target_values@ == old(self).target_values@.push((target, value)),
    {
        self.target_values.push((target, value));
    }
}

pub open spec fn option_value(o: Option<Fq>) -> Option<nat> {
    match o {
        Some(x) => Some(x@),
        None => None,
    }
}

pub open spec fn option_values(s: Seq<Option<Fq>>) -> Seq<Option<nat>> {
    Seq::new(s.len(), |i: int| option_value(s[i]))
}

/// Every value of `s` is canonical.
pub open spec fn options_wf(s: Seq<Option<Fq>>) -> bool {
    forall|i: int| 0 <= i < s.len() ==> ((#[trigger] s[i]) matches Some(x) ==> x.wf())
}

/// What the caller gave to wire `i`.
pub open spec fn given(inputs: Seq<Option<nat>>, i: int) -> Option<nat> {
    if 0 <= i < inputs.len() {
        inputs[i]
    } else {
        None
    }
}

/// The values `vals` with the first `k` outputs of a generator written: the
/// value `y[j]` goes onto wire `out[j]`, unless the wire has that value
/// already. Nothing, if a wire has another value.
pub open spec fn assign_outputs(vals: Seq<Option<nat>>, out: [usize; 6], y: Seq<nat>, k: nat)
    -> Option<Seq<Option<nat>>>
    decreases k,
{
    if k == 0 {
        Some(vals)
    } else {
        match assign_outputs(vals, out, y, (k - 1) as nat) {
            None => None,
            Some(v) => match v[out[k - 1] as int] {
                None => Some(v.update(out[k - 1] as int, Some(y[k - 1]))),
                Some(u) => if u == y[k - 1] {
                    Some(v)
                } else {
                    None
                },
            },
        }
    }
}

/// The sextic element on the wires `x` under the values `vals`.
pub open spec fn generator_input(vals: Seq<Option<nat>>, x: [usize; 6]) -> Fq6Value {
    fq6_from_coefficients(Seq::new(6, |k: int| vals[x[k] as int]->0))
}

pub open spec fn all_determined(vals: Seq<Option<nat>>, x: [usize; 6]) -> bool {
    forall|k: int| 0 <= k < 6 ==> vals[(#[trigger] x[k]) as int] is Some
}

/// The values on the wires after gate number `i` has been visited, where
/// `vals` are the values on the wires before.
pub open spec fn fill_step(
    gates: Seq<Gate>,
    inputs: Seq<Option<nat>>,
    vals: Seq<Option<nat>>,
    i: int,
) -> Result<Seq<Option<nat>>, WitnessError> {
    match gates[i] {
        Gate::Virtual => Ok(vals.push(given(inputs, i))),
        Gate::VirtualBool => match given(inputs, i) {
            Some(v) => if v <= 1 {
                Ok(vals.push(Some(v)))
            } else {
                Err(WitnessError::Unsatisfied(i as usize))
            },
            None => Ok(vals.push(None)),
        },
        Gate::Constant(c) => Ok(vals.push(Some(c@))),
        Gate::Add(a, b) => match (vals[a as int], vals[b as int]) {
            (Some(x), Some(y)) => Ok(vals.push(Some(fq_add(x, y)))),
            _ => Err(WitnessError::Undetermined(i as usize)),
        },
        Gate::Sub(a, b) => match (vals[a as int], vals[b as int]) {
            (Some(x), Some(y)) => Ok(vals.push(Some(fq_sub(x, y)))),
            _ => Err(WitnessError::Undetermined(i as usize)),
        },
        Gate::Mul(a, b) => match (vals[a as int], vals[b as int]) {
            (Some(x), Some(y)) => Ok(vals.push(Some(fq_mul(x, y)))),
            _ => Err(WitnessError::Undetermined(i as usize)),
        },
        Gate::Neg(a) => match vals[a as int] {
            Some(x) => Ok(vals.push(Some(fq_neg(x)))),
            None => Err(WitnessError::Undetermined(i as usize)),
        },
        Gate::Select(f, a, b) => match (vals[f as int], vals[a as int], vals[b as int]) {
            (Some(flag), Some(x), Some(y)) => Ok(
                vals.push(
                    Some(
                        if flag != 0 {
                            x
                        } else {
                            y
                        },
                    ),
                ),
            ),
            _ => Err(WitnessError::Undetermined(i as usize)),
        },
        Gate::Connect(a, b) => match (vals[a as int], vals[b as int]) {
            (Some(x), Some(y)) => if x == y {
                Ok(vals.push(Some(0)))
            } else {
                Err(WitnessError::Unsatisfied(i as usize))
            },
            _ => Err(WitnessError::Undetermined(i as usize)),
        },
        Gate::Fq6Inverse(x, out) => {
            let input = generator_input(vals, x);
            let inverse = fq6_inv(input);
            if !all_determined(vals, x) {
                Err(WitnessError::Undetermined(i as usize))
            } else if input == fq6_zero() || !fq6_is_inverse(input, inverse) {
                Err(WitnessError::NotInvertible(i as usize))
            } else {
                match assign_outputs(vals, out, fq6_coefficients(inverse), 6) {
                    Some(v) => Ok(v.push(Some(0))),
                    None => Err(WitnessError::Unsatisfied(i as usize)),
                }
            }
        },
    }
}

/// The values on the wires after the first `n` gates have been visited.
pub open spec fn fill_gates(gates: Seq<Gate>, inputs: Seq<Option<nat>>, n: nat) -> Result<
    Seq<Option<nat>>,
    WitnessError,
>
    decreases n,
{
    if n == 0 {
        Ok(Seq::empty())
    } else {
        match fill_gates(gates, inputs, (n - 1) as nat) {
            Ok(vals) => fill_step(gates, inputs, vals, n - 1),
            Err(e) => Err(e),
        }
    }
}

/// The values `vals`, with zero on the wires that have none.
pub open spec fn completed(vals: Seq<Option<nat>>) -> Seq<nat> {
    Seq::new(
        vals.len(),
        |i: int|
            match vals[i] {
                Some(v) => v,
                None => 0,
            },
    )
}

/// The witness of the circuit `gates` for the inputs `inputs`, or the
/// reason for which there is none.
pub open spec fn filled_witness(gates: Seq<Gate>, inputs: Seq<Option<nat>>) -> Result<
    Seq<nat>,
    WitnessError,
> {
    match fill_gates(gates, inputs, gates.len()) {
        Ok(vals) => Ok(completed(vals)),
        Err(e) => Err(e),
    }
}

/// Every value that `vals` holds is canonical.
pub open spec fn canonical_values(vals: Seq<Option<nat>>) -> bool {
    forall|i: int| 0 <= i < vals.len() ==> ((#[trigger] vals[i]) matches Some(v) ==> v < modulus())
}

/// The values `vals` meet the demand of gate number `j` for good: the wires
/// it reads have their values, and its own wire has the value that its
/// constraint asks for.
pub open spec fn gate_settled(gates: Seq<Gate>, vals: Seq<Option<nat>>, j: int) -> bool {
    match gates[j] {
        Gate::Virtual => true,
        Gate::VirtualBool => vals[j] matches Some(v) ==> v <= 1,
        Gate::Constant(c) => vals[j] == Some(c@),
        Gate::Add(a, b) => vals[a as int] is Some && vals[b as int] is Some && vals[j] == Some(
            fq_add(vals[a as int]->0, vals[b as int]->0),
        ),
        Gate::Sub(a, b) => vals[a as int] is Some && vals[b as int] is Some && vals[j] == Some(
            fq_sub(vals[a as int]->0, vals[b as int]->0),
        ),
        Gate::Mul(a, b) => vals[a as int] is Some && vals[b as int] is Some && vals[j] == Some(
            fq_mul(vals[a as int]->0, vals[b as int]->0),
        ),
        Gate::Neg(a) => vals[a as int] is Some && vals[j] == Some(fq_neg(vals[a as int]->0)),
        Gate::Select(f, a, b) => vals[f as int] is Some && vals[a as int] is Some && vals[b as int]
            is Some && vals[j] == Some(
            if vals[f as int]->0 != 0 {
                vals[a as int]->0
            } else {
                vals[b as int]->0
            },
        ),
        Gate::Connect(a, b) => vals[a as int] is Some && vals[a as int] == vals[b as int]
            && vals[j] == Some(0nat),
        Gate::Fq6Inverse(_, _) => vals[j] == Some(0nat),
    }
}

/// The values `vals` are canonical values for the first `n` wires that
/// meet the demands of the first `n` gates for good.
pub open spec fn settled(gates: Seq<Gate>, vals: Seq<Option<nat>>, n: int) -> bool {
    &&& vals.len() == n
    &&& canonical_values(vals)
    &&& forall|j: int| 0 <= j < n ==> #[trigger] gate_settled(gates, vals, j)
}

/// A generator's outputs, written onto free wires, leave every demand met.
proof fn lemma_assign_outputs_settled(
    gates: Seq<Gate>,
    vals: Seq<Option<nat>>,
    out: [usize; 6],
    y: Seq<nat>,
    k: nat,
    n: int,
)
    requires
        k <= 6,
        n <= gates.len(),
        gates_wf(gates),
        settled(gates, vals, n),
        forall|j: int| 0 <= j < 6 ==> (#[trigger] out[j]) < n && gates[out[j] as int] == Gate::Virtual,
        forall|j: int| 0 <= j < 6 ==> (#[trigger] y[j]) < modulus(),
        assign_outputs(vals, out, y, k) is Some,
    ensures
        settled(gates, assign_outputs(vals, out, y, k)->0, n),
    decreases k,
{
    if k > 0 {
        let v = assign_outputs(vals, out, y, (k - 1) as nat)->0;
        lemma_assign_outputs_settled(gates, vals, out, y, (k - 1) as nat, n);
        let t = out[k - 1] as int;
        if v[t] is None {
            let u = v.update(t, Some(y[k - 1]));
            assert(gates[t] == Gate::Virtual);
            assert forall|j: int| 0 <= j < n implies #[trigger] gate_settled(gates, u, j) by {
                assert(gate_settled(gates, v, j));
                assert(crate::circuit::builder::gate_wf(gates, j));
            }
        }
    }
}

/// A visit to a gate leaves the demands of all gates so far met.
proof fn lemma_fill_step_settled(
    gates: Seq<Gate>,
    inputs: Seq<Option<nat>>,
    vals: Seq<Option<nat>>,
    i: int,
)
    requires
        0 <= i < gates.len(),
        gates_wf(gates),
        canonical_values(inputs),
        settled(gates, vals, i),
        fill_step(gates, inputs, vals, i) is Ok,
    ensures
        settled(gates, fill_step(gates, inputs, vals, i)->Ok_0, i + 1),
{
    let next = fill_step(gates, inputs, vals, i)->Ok_0;
    assert(crate::circuit::builder::gate_wf(gates, i));
    lemma_ops_canonical();
    match gates[i] {
        Gate::Fq6Inverse(x, out) => {
            let input = generator_input(vals, x);
            let inverse = fq6_inv(input);
            let y = fq6_coefficients(inverse);
            lemma_assign_outputs_settled(gates, vals, out, y, 6, i);
            let written = assign_outputs(vals, out, y, 6)->0;
            assert(next == written.push(Some(0nat)));
            assert forall|j: int| 0 <= j < i + 1 implies #[trigger] gate_settled(gates, next, j) by {
                if j < i {
                    assert(gate_settled(gates, written, j));
                    assert(crate::circuit::builder::gate_wf(gates, j));
                }
            }
        },
        _ => {
            assert forall|j: int| 0 <= j < i + 1 implies #[trigger] gate_settled(gates, next, j) by {
                if j < i {
                    assert(gate_settled(gates, vals, j));
                    assert(crate::circuit::builder::gate_wf(gates, j));
                }
            }
        },
    }
}

/// The visits to the first `n` gates leave their demands met.
proof fn lemma_fill_gates_settled(gates: Seq<Gate>, inputs: Seq<Option<nat>>, n: nat)
    requires
        n <= gates.len(),
        gates_wf(gates),
        canonical_values(inputs),
        fill_gates(gates, inputs, n) is Ok,
    ensures
        settled(gates, fill_gates(gates, inputs, n)->Ok_0, n as int),
    decreases n,
{
    if n > 0 {
        lemma_fill_gates_settled(gates, inputs, (n - 1) as nat);
        let vals = fill_gates(gates, inputs, (n - 1) as nat)->Ok_0;
        lemma_fill_step_settled(gates, inputs, vals, n - 1);
    }
}

/// A filled witness satisfies the circuit: whatever the generators wrote,
/// filling ends well only where every constraint holds.
pub proof fn lemma_filled_witness_satisfies(gates: Seq<Gate>, inputs: Seq<Option<nat>>)
    requires
        gates_wf(gates),
        canonical_values(inputs),
        filled_witness(gates, inputs) is Ok,
    ensures
        satisfies(gates, filled_witness(gates, inputs)->Ok_0),
{
    lemma_fill_gates_settled(gates, inputs, gates.len());
    let vals = fill_gates(gates, inputs, gates.len())->Ok_0;
    let w = completed(vals);
    assert forall|i: int| 0 <= i < gates.len() implies gate_holds(#[trigger] gates[i], w, i) by {
        assert(gate_settled(gates, vals, i));
        assert(crate::circuit::builder::gate_wf(gates, i));
    }
}

/// What holds of every assignment of values that satisfies the circuit
/// holds of the filled witness. So a wire that the circuit constrains to
/// carry the result of an operation of the tower carries, once the witness
/// is filled, what the native form computes.
pub proof fn lemma_filled_witness_has(
    gates: Seq<Gate>,
    inputs: Seq<Option<nat>>,
    property: spec_fn(Seq<nat>) -> bool,
)
    requires
        gates_wf(gates),
        canonical_values(inputs),
        filled_witness(gates, inputs) is Ok,
        forall|w: Seq<nat>| #[trigger] satisfies(gates, w) ==> property(w),
    ensures
        property(filled_witness(gates, inputs)->Ok_0),
{
    lemma_filled_witness_satisfies(gates, inputs);
}

/// Where every gate among the first `n` is arithmetic, their visits end
/// well and leave a value on every wire.
proof fn lemma_arithmetic_gates_fill(gates: Seq<Gate>, inputs: Seq<Option<nat>>, n: nat)
    requires
        n <= gates.len(),
        gates_wf(gates),
        arithmetic_from(gates, 0),
    ensures
        fill_gates(gates, inputs, n) matches Ok(vals) && vals.len() == n && forall|j: int|
            0 <= j < n ==> (#[trigger] vals[j]) is Some,
    decreases n,
{
    if n > 0 {
        lemma_arithmetic_gates_fill(gates, inputs, (n - 1) as nat);
        assert(crate::circuit::builder::gate_wf(gates, n - 1));
        assert(gates[n - 1].is_arithmetic());
    }
}

/// A circuit of arithmetic gates alone, which computes from constants, has
/// a witness whatever the inputs: its filling cannot fail.
pub proof fn lemma_arithmetic_circuit_fills(gates: Seq<Gate>, inputs: Seq<Option<nat>>)
    requires
        gates_wf(gates),
        arithmetic_from(gates, 0),
    ensures
        filled_witness(gates, inputs) is Ok,
{
    lemma_arithmetic_gates_fill(gates, inputs, gates.len());
}

pub open spec fn fq_values(s: Seq<Fq>) -> Seq<nat> {
    Seq::new(s.len(), |i: int| s[i]@)
}

/// Once filling has stopped at a gate, it has stopped for good.
pub proof fn lemma_fill_gates_error(gates: Seq<Gate>, inputs: Seq<Option<nat>>, m: nat, n: nat)
    requires
        m <= n,
        fill_gates(gates, inputs, m) is Err,
    ensures
        fill_gates(gates, inputs, n) == fill_gates(gates, inputs, m),
    decreases n - m,
{
    if m < n {
        lemma_fill_gates_error(gates, inputs, m, (n - 1) as nat);
    }
}

/// Once an output has met a wire with another value, the outputs cannot be
/// written.
proof fn lemma_assign_outputs_none(
    vals: Seq<Option<nat>>,
    out: [usize; 6],
    y: Seq<nat>,
    k: nat,
    n: nat,
)
    requires
        k <= n,
        assign_outputs(vals, out, y, k) is None,
    ensures
        assign_outputs(vals, out, y, n) is None,
    decreases n - k,
{
    if k < n {
        lemma_assign_outputs_none(vals, out, y, k, (n - 1) as nat);
    }
}

/// Runs the generator of gate number `i`, which reads the wires `x` and
/// writes onto the wires `out`.
fn fill_generator(witness: &mut PartitionWitness, x: [usize; 6], out: [usize; 6], i: usize) -> (r:
    Result<(), WitnessError>)
    requires
        old(witness).values@.len() == i,
        options_wf(old(witness).values@),
        forall|k: int| 0 <= k < 6 ==> (#[trigger] x[k]) < i,
        forall|k: int| 0 <= k < 6 ==> (#[trigger] out[k]) < i,
    ensures
        ({
            let before = option_values(old(witness).values@);
            let input = generator_input(before, x);
            let inverse = fq6_inv(input);
            match r {
                Ok(()) => {
                    &&& all_determined(before, x)
                    &&& input != fq6_zero()
                    &&& fq6_is_inverse(input, inverse)
                    &&& Some(option_values(final(witness).values@)) == assign_outputs(
                        before,
                        out,
                        fq6_coefficients(inverse),
                        6,
                    )
                    &&& options_wf(final(witness).values@)
                    &&& final(witness).values@.len() == i
                },
                Err(e) => {
                    if !all_determined(before, x) {
                        e == WitnessError::Undetermined(i)
                    } else if input == fq6_zero() || !fq6_is_inverse(input, inverse) {
                        e == WitnessError::NotInvertible(i)
                    } else {
                        &&& e == WitnessError::Unsatisfied(i)
                        &&& assign_outputs(before, out, fq6_coefficients(inverse), 6) is None
                    }
                },
            }
        }),
{
    let ghost before = option_values(witness.values@);
    let mut k: usize = 0;
    while k < 6
        invariant
            k <= 6,
            witness.values@.len() == i,
            witness.values@ == old(witness).values@,
            before == option_values(old(witness).values@),
            forall|j: int| 0 <= j < 6 ==> (#[trigger] x[j]) < i,
            forall|j: int| 0 <= j < k ==> witness.values@[(#[trigger] x[j]) as int] is Some,
        decreases 6 - k,
    {
        if witness.values[x[k]].is_none() {
            proof {
                assert(before[x[k as int] as int] is None);
            }
            return Err(WitnessError::Undetermined(i));
        }
        k += 1;
    }
    assert(all_determined(before, x)) by {
        assert forall|j: int| 0 <= j < 6 implies before[(#[trigger] x[j]) as int] is Some by {
            assert(witness.values@[x[j] as int] is Some);
        }
    }
    let generator = Fq6InverseGenerator {
        x: crate::fields::fq6_target::Fq6Target::from_wires(x),
        inv: crate::fields::fq6_target::Fq6Target::from_wires(out),
    };
    assert(generator.ready(witness)) by {
        assert forall|j: int| 0 <= j < 6 implies (#[trigger] generator.x.coeffs[j]).wire
            < witness.values.len() && witness.values[generator.x.coeffs[j].wire as int] is Some by {
            assert(generator.x.coeffs[j].wire == x[j]);
        }
    }
    let input = generator.input(witness);
    if input.is_zero() {
        return Err(WitnessError::NotInvertible(i));
    }
    let mut out_buffer = GeneratedValues::new();
    generator.run_once(witness, &mut out_buffer);
    let ghost y = fq6_coefficients(fq6_inv(input@));
    let mut k: usize = 0;
    while k < 6
        invariant
            k <= 6,
            witness.values@.len() == i,
            options_wf(witness.values@),
            forall|j: int| 0 <= j < 6 ==> (#[trigger] out[j]) < i,
            before == option_values(old(witness).values@),
            all_determined(before, x),
            input@ == generator_input(before, x),
            input@ != fq6_zero(),
            fq6_is_inverse(input@, fq6_inv(input@)),
            out_buffer.target_values@.len() == 6,
            generator.inv.spec_wires() == out,
            y == fq6_coefficients(fq6_inv(input@)),
            forall|j: int|
                0 <= j < 6 ==> {
                    let entry = #[trigger] out_buffer.target_values@[j];
                    &&& entry.0 == generator.inv.coeffs[j]
                    &&& entry.1.wf()
                    &&& entry.1@ == y[j]
                },
            Some(option_values(witness.values@)) == assign_outputs(before, out, y, k as nat),
        decreases 6 - k,
    {
        let (target, value) = out_buffer.target_values[k];
        assert(target.wire == out[k as int]) by {
            assert(generator.inv.spec_wires()[k as int] == generator.inv.coeffs[k as int].wire);
        }
        let ghost current = option_values(witness.values@);
        match witness.values[target.wire] {
            None => {
                witness.values.set(target.wire, Some(value));
                assert(option_values(witness.values@) =~= current.update(
                    target.wire as int,
                    Some(value@),
                ));
            },
            Some(u) => {
                if !u.equals(&value) {
                    proof {
                        assert(current[target.wire as int] == Some(u@));
                        assert(assign_outputs(before, out, y, (k + 1) as nat) is None);
                        lemma_assign_outputs_none(before, out, y, (k + 1) as nat, 6);
                    }
                    return Err(WitnessError::Unsatisfied(i));
                }
                assert(current[target.wire as int] == Some(u@));
            },
        }
        k += 1;
    }
    Ok(())
}

/// Visits gate number `i`.
fn fill_gate(
    builder: &CircuitBuilder,
    inputs: &PartialWitness,
    witness: &mut PartitionWitness,
    i: usize,
) -> (r: Result<(), WitnessError>)
    requires
        builder.wf(),
        i < builder@.len(),
        old(witness).values@.len() == i,
        options_wf(inputs.values@),
        options_wf(old(witness).values@),
    ensures
        ({
            let step = fill_step(
                builder@,
                option_values(inputs.values@),
                option_values(old(witness).values@),
                i as int,
            );
            match r {
                Ok(()) => {
                    &&& step == Ok::<Seq<Option<nat>>, WitnessError>(
                        option_values(final(witness).values@),
                    )
                    &&& options_wf(final(witness).values@)
                    &&& final(witness).values@.len() == i + 1
                },
                Err(e) => step == Err::<Seq<Option<nat>>, WitnessError>(e),
            }
        }),
{
    let ghost before = option_values(witness.values@);
    assert(crate::circuit::builder::gate_wf(builder@, i as int));
    let gate = builder.gates[i];
    match gate {
        Gate::Virtual => {
            let v = inputs.get(i);
            witness.values.push(v);
            assert(option_values(witness.values@) =~= before.push(option_value(v)));
            Ok(())
        },
        Gate::VirtualBool => {
            let v = inputs.get(i);
            match v {
                Some(x) => {
                    if !(x.is_zero() || x.equals(&Fq::one())) {
                        return Err(WitnessError::Unsatisfied(i));
                    }
                },
                None => {},
            }
            witness.values.push(v);
            assert(option_values(witness.values@) =~= before.push(option_value(v)));
            Ok(())
        },
        Gate::Constant(c) => {
            witness.values.push(Some(c));
            assert(option_values(witness.values@) =~= before.push(Some(c@)));
            Ok(())
        },
        Gate::Add(a, b) => {
            match (witness.values[a], witness.values[b]) {
                (Some(x), Some(y)) => {
                    let v = x.add(&y);
                    witness.values.push(Some(v));
                    assert(option_values(witness.values@) =~= before.push(Some(v@)));
                    Ok(())
                },
                _ => Err(WitnessError::Undetermined(i)),
            }
        },
        Gate::Sub(a, b) => {
            match (witness.values[a], witness.values[b]) {
                (Some(x), Some(y)) => {
                    let v = x.sub(&y);
                    witness.values.push(Some(v));
                    assert(option_values(witness.values@) =~= before.push(Some(v@)));
                    Ok(())
                },
                _ => Err(WitnessError::Undetermined(i)),
            }
        },
        Gate::Mul(a, b) => {
            match (witness.values[a], witness.values[b]) {
                (Some(x), Some(y)) => {
                    let v = x.mul(&y);
                    witness.values.push(Some(v));
                    assert(option_values(witness.values@) =~= before.push(Some(v@)));
                    Ok(())
                },
                _ => Err(WitnessError::Undetermined(i)),
            }
        },
        Gate::Neg(a) => {
            match witness.values[a] {
                Some(x) => {
                    let v = x.neg();
                    witness.values.push(Some(v));
                    assert(option_values(witness.values@) =~= before.push(Some(v@)));
                    Ok(())
                },
                None => Err(WitnessError::Undetermined(i)),
            }
        },
        Gate::Select(f, a, b) => {
            match (witness.values[f], witness.values[a], witness.values[b]) {
                (Some(flag), Some(x), Some(y)) => {
                    let v = if !flag.is_zero() {
                        x
                    } else {
                        y
                    };
                    witness.values.push(Some(v));
                    assert(option_values(witness.values@) =~= before.push(Some(v@)));
                    Ok(())
                },
                _ => Err(WitnessError::Undetermined(i)),
            }
        },
        Gate::Connect(a, b) => {
            match (witness.values[a], witness.values[b]) {
                (Some(x), Some(y)) => {
                    if x.equals(&y) {
                        witness.values.push(Some(Fq::zero()));
                        assert(option_values(witness.values@) =~= before.push(Some(0nat)));
                        Ok(())
                    } else {
                        Err(WitnessError::Unsatisfied(i))
                    }
                },
                _ => Err(WitnessError::Undetermined(i)),
            }
        },
        Gate::Fq6Inverse(x, out) => {
            match fill_generator(witness, x, out, i) {
                Ok(()) => {
                    let ghost written = option_values(witness.values@);
                    witness.values.push(Some(Fq::zero()));
                    assert(option_values(witness.values@) =~= written.push(Some(0nat)));
                    Ok(())
                },
                Err(e) => Err(e),
            }
        },
    }
}

/// Fills the witness of the finished circuit `builder`, with `inputs` for
/// the free wires that no generator fills.
pub fn fill_witness(builder: &CircuitBuilder, inputs: &PartialWitness) -> (r: Result<
    Vec<Fq>,
    WitnessError,
>)
    requires
        builder.wf(),
        options_wf(inputs.values@),
    ensures
        match r {
            Ok(w) => {
                &&& filled_witness(builder@, option_values(inputs.values@)) == Ok::<
                    Seq<nat>,
                    WitnessError,
                >(fq_values(w@))
                &&& forall|i: int| 0 <= i < w.len() ==> (#[trigger] w[i]).wf()
                &&& satisfies(builder@, fq_values(w@))
            },
            Err(e) => filled_witness(builder@, option_values(inputs.values@)) == Err::<
                Seq<nat>,
                WitnessError,
            >(e),
        },
{
    let ghost given_values = option_values(inputs.values@);
    let n = builder.num_gates();
    let mut witness = PartitionWitness { values: Vec::new() };
    let mut i: usize = 0;
    assert(option_values(witness.values@) =~= Seq::empty());
    while i < n
        invariant
            i <= n == builder@.len(),
            builder.wf(),
            options_wf(inputs.values@),
            given_values == option_values(inputs.values@),
            options_wf(witness.values@),
            witness.values@.len() == i,
            fill_gates(builder@, given_values, i as nat) == Ok::<Seq<Option<nat>>, WitnessError>(
                option_values(witness.values@),
            ),
        decreases n - i,
    {
        match fill_gate(builder, inputs, &mut witness, i) {
            Ok(()) => {},
            Err(e) => {
                proof {
                    lemma_fill_gates_error(builder@, given_values, (i + 1) as nat, n as nat);
                }
                return Err(e);
            },
        }
        i += 1;
    }
    let ghost vals = option_values(witness.values@);
    let mut w: Vec<Fq> = Vec::new();
    let mut j: usize = 0;
    while j < n
        invariant
            j <= n == witness.values@.len(),
            options_wf(witness.values@),
            vals == option_values(witness.values@),
            w@.len() == j,
            forall|k: int| 0 <= k < j ==> (#[trigger] w[k]).wf() && w[k]@ == completed(vals)[k],
        decreases n - j,
    {
        let v = match witness.values[j] {
            Some(v) => v,
            None => Fq::zero(),
        };
        w.push(v);
        j += 1;
    }
    assert(fq_values(w@) =~= completed(vals));
    proof {
        assert(canonical_values(given_values)) by {
            assert forall|k: int| 0 <= k < given_values.len() implies ((
            #[trigger] given_values[k]) matches Some(v) ==> v < modulus()) by {
                let _ = inputs.values@[k];
            }
        }
        lemma_filled_witness_satisfies(builder@, given_values);
    }
    Ok(w)
}

/// The values on the wires of a circuit of arithmetic gates alone.
pub fn evaluate(builder: &CircuitBuilder) -> (w: Vec<Fq>)
    requires
        builder.wf(),
        arithmetic_from(builder@, 0),
    ensures
        w@.len() == builder@.len(),
        forall|i: int| 0 <= i < w.len() ==> (#[trigger] w[i]).wf(),
        satisfies(builder@, fq_values(w@)),
        filled_witness(builder@, Seq::empty()) == Ok::<Seq<nat>, WitnessError>(fq_values(w@)),
{
    let inputs = PartialWitness::new();
    proof {
        assert(option_values(inputs.values@) =~= Seq::empty());
        lemma_arithmetic_circuit_fills(builder@, Seq::empty());
        lemma_arithmetic_gates_fill(builder@, Seq::empty(), builder@.len());
    }
    fill_witness(builder, &inputs).unwrap()
}

} // verus!
