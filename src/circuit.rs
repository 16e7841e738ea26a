//! The constraint system and its wires.
//!
//! A wire is either a constant, folded at build time, or a variable: the
//! position of its gate in the system, with its value. Gates are kept in
//! the order of the calls, so two builds of one shape have one structure,
//! and the system tracks whether every enforced equality holds.
use vstd::prelude::*;
use crate::field::{Fe, fadd, fmul, fpow, fe_add, fe_mul, fe_pow, modulus};

verus! {

/// Why building a circuit failed.
#[derive(Clone, Copy, Debug, PartialEq, Eq, Structural)]
pub enum SynthesisError {
    /// A value had to be assigned and none was supplied.
    AssignmentMissing,
    /// An array does not have the declared dimensions.
    ShapeMismatch,
}

/// How an allocated value is exposed.
#[derive(Clone, Copy, Debug, PartialEq, Eq, Structural)]
pub enum AllocationMode {
    /// Part of the circuit's structure; no variable is allocated.
    Constant,
    /// A public input, fixed by the verifier.
    Input,
    /// A private witness, known to the prover only.
    Witness,
}

/// A boolean wire.
#[derive(Clone, Copy, Debug)]
pub enum BoolWire {
    Constant(bool),
    /// The index of the wire's gate, and the wire's value.
    Var(usize, bool),
}

/// A wire carrying a field element.
#[derive(Clone, Copy, Debug)]
pub enum FieldWire {
    Constant(Fe),
    /// The index of the wire's gate, and the wire's value.
    Var(usize, Fe),
}

/// One emitted step of the circuit.
#[derive(Clone, Copy, Debug)]
pub enum Gate {
    /// A fresh boolean variable; `true` for a public input.
    AllocBool(bool, bool),
    /// A fresh field variable; `true` for a public input.
    AllocField(bool, Fe),
    Not(BoolWire),
    And(BoolWire, BoolWire),
    Or(BoolWire, BoolWire),
    Xor(BoolWire, BoolWire),
    /// The field element 0 or 1 of a boolean.
    BoolToField(BoolWire),
    FieldAdd(FieldWire, FieldWire),
    FieldMul(FieldWire, FieldWire),
    FieldPow(FieldWire, u64),
    EnforceBoolEq(BoolWire, BoolWire),
    EnforceFieldEq(FieldWire, FieldWire),
}

/// The gates emitted so far and whether the enforced equalities all hold.
pub struct ConstraintSystem {
    pub gates: Vec<Gate>,
    pub satisfied: bool,
}

/// The integer a boolean takes in an assignment.
pub open spec fn b2i(b: bool) -> int {
    if b { 1 } else { 0 }
}

/// The boolean a wire carries under an assignment of the variables.
pub open spec fn bool_at(asg: Seq<int>, w: BoolWire) -> bool {
    match w {
        BoolWire::Constant(b) => b,
        BoolWire::Var(i, _) => asg[i as int] == 1,
    }
}

/// The field element a wire carries under an assignment of the variables.
pub open spec fn field_at(asg: Seq<int>, w: FieldWire) -> int {
    match w {
        FieldWire::Constant(f) => f.val(),
        FieldWire::Var(i, _) => asg[i as int],
    }
}

/// The constraint gate `i` places on an assignment.
pub open spec fn gate_holds(g: Gate, i: int, asg: Seq<int>) -> bool {
    match g {
        Gate::AllocBool(_, _) => asg[i] == 0 || asg[i] == 1,
        Gate::AllocField(_, _) => 0 <= asg[i] < modulus(),
        Gate::Not(a) => asg[i] == b2i(!bool_at(asg, a)),
        Gate::And(a, b) => asg[i] == b2i(bool_at(asg, a) && bool_at(asg, b)),
        Gate::Or(a, b) => asg[i] == b2i(bool_at(asg, a) || bool_at(asg, b)),
        Gate::Xor(a, b) => asg[i] == b2i(bool_at(asg, a) != bool_at(asg, b)),
        Gate::BoolToField(a) => asg[i] == b2i(bool_at(asg, a)),
        Gate::FieldAdd(a, b) => asg[i] == fadd(field_at(asg, a), field_at(asg, b)),
        Gate::FieldMul(a, b) => asg[i] == fmul(field_at(asg, a), field_at(asg, b)),
        Gate::FieldPow(a, e) => asg[i] == fpow(field_at(asg, a), e as nat),
        Gate::EnforceBoolEq(a, b) => bool_at(asg, a) == bool_at(asg, b),
        Gate::EnforceFieldEq(a, b) => field_at(asg, a) == field_at(asg, b),
    }
}

/// An assignment of one integer per gate that meets every gate's
/// constraint.
pub open spec fn satisfies(gates: Seq<Gate>, asg: Seq<int>) -> bool {
    asg.len() >= gates.len() && forall|i: int| 0 <= i < gates.len() ==> #[trigger] gate_holds(gates[i], i, asg)
}

/// Whether a gate allocates a public input.
pub open spec fn is_public(g: Gate) -> bool {
    match g {
        Gate::AllocBool(p, _) => p,
        Gate::AllocField(p, _) => p,
        _ => false,
    }
}

/// The number of public inputs the gates allocate.
pub open spec fn num_public(gates: Seq<Gate>) -> nat
    decreases gates.len(),
{
    if gates.len() == 0 {
        0
    } else {
        num_public(gates.drop_last()) + (if is_public(gates.last()) { 1nat } else { 0nat })
    }
}

/// The gates grew from `old` to `new` without a new public input, and
/// every assignment satisfying `new` satisfies `old`.
pub open spec fn keeps(old: Seq<Gate>, new: Seq<Gate>) -> bool {
    &&& num_public(new) == num_public(old)
    &&& forall|asg: Seq<int>| #[trigger] satisfies(new, asg) ==> satisfies(old, asg)
}

/// Appending one private gate keeps the gates before it.
pub proof fn lemma_push_keeps(old: Seq<Gate>, g: Gate)
    requires
        !is_public(g),
    ensures
        keeps(old, old.push(g)),
        forall|asg: Seq<int>| #[trigger] satisfies(old.push(g), asg) ==> gate_holds(g, old.len() as int, asg),
{
    assert(old.push(g).drop_last() =~= old);
    assert forall|asg: Seq<int>| #[trigger] satisfies(old.push(g), asg) implies satisfies(old, asg) && gate_holds(g, old.len() as int, asg) by {
        assert forall|i: int| 0 <= i < old.len() implies #[trigger] gate_holds(old[i], i, asg) by {
            assert(old.push(g)[i] == old[i]);
        }
        assert(old.push(g)[old.len() as int] == g);
    }
}

/// Public inputs add up over concatenation.
pub proof fn lemma_num_public_concat(a: Seq<Gate>, b: Seq<Gate>)
    ensures
        num_public(a + b) == num_public(a) + num_public(b),
    decreases b.len(),
{
    if b.len() == 0 {
        assert(a + b =~= a);
    } else {
        assert((a + b).drop_last() =~= a + b.drop_last());
        lemma_num_public_concat(a, b.drop_last());
    }
}

/// A run of allocations adds one public input per value in input mode and
/// none otherwise.
pub proof fn lemma_num_public_alloc(values: Seq<bool>, mode: AllocationMode)
    ensures
        num_public(alloc_gates(values, mode)) == (if mode == AllocationMode::Input { values.len() as nat } else { 0nat }),
    decreases values.len(),
{
    if values.len() > 0 && mode != AllocationMode::Constant {
        assert(alloc_gates(values, mode).drop_last() =~= alloc_gates(values.drop_last(), mode));
        lemma_num_public_alloc(values.drop_last(), mode);
    }
}

/// The wire that allocating `v` as the `k`-th of a run starting at gate
/// `start` gives: a constant in constant mode, else that gate's variable.
pub open spec fn alloc_wire(start: int, k: int, v: bool, mode: AllocationMode) -> BoolWire {
    if mode == AllocationMode::Constant {
        BoolWire::Constant(v)
    } else {
        BoolWire::Var((start + k) as usize, v)
    }
}

/// The wires of a run of allocations, in order.
pub open spec fn alloc_wires(start: int, values: Seq<bool>, mode: AllocationMode) -> Seq<BoolWire> {
    Seq::new(values.len(), |k: int| alloc_wire(start, k, values[k], mode))
}

/// The gates a run of allocations appends: none in constant mode, else one
/// allocation per value, in order, public exactly in input mode.
pub open spec fn alloc_gates(values: Seq<bool>, mode: AllocationMode) -> Seq<Gate> {
    if mode == AllocationMode::Constant {
        Seq::empty()
    } else {
        values.map_values(|v: bool| Gate::AllocBool(mode == AllocationMode::Input, v))
    }
}

/// How many gates a run of `len` allocations appends.
pub open spec fn alloc_count(len: int, mode: AllocationMode) -> int {
    if mode == AllocationMode::Constant { 0 } else { len }
}

/// Runs of allocations compose.
pub proof fn lemma_alloc_split(start: int, a: Seq<bool>, b: Seq<bool>, mode: AllocationMode)
    ensures
        alloc_wires(start, a + b, mode) == alloc_wires(start, a, mode) + alloc_wires(start + alloc_count(a.len() as int, mode), b, mode),
        alloc_gates(a + b, mode) == alloc_gates(a, mode) + alloc_gates(b, mode),
        alloc_gates(a, mode).len() == alloc_count(a.len() as int, mode),
{
    assert(alloc_wires(start, a + b, mode) =~= alloc_wires(start, a, mode) + alloc_wires(start + alloc_count(a.len() as int, mode), b, mode));
    assert(alloc_gates(a + b, mode) =~= alloc_gates(a, mode) + alloc_gates(b, mode));
}

impl BoolWire {
    pub open spec fn value(self) -> bool {
        match self {
            BoolWire::Constant(b) => b,
            BoolWire::Var(_, b) => b,
        }
    }

    pub open spec fn is_constant(self) -> bool {
        self is Constant
    }

    pub fn constant(b: bool) -> (r: BoolWire)
        ensures
            r == BoolWire::Constant(b),
    {
        BoolWire::Constant(b)
    }

    /// The assigned value.
    pub fn get_value(&self) -> (r: bool)
        ensures
            r == self.value(),
    {
        match self {
            BoolWire::Constant(b) => *b,
            BoolWire::Var(_, b) => *b,
        }
    }

    /// Allocates a boolean in the given mode.
    pub fn new_variable(cs: &mut ConstraintSystem, value: bool, mode: AllocationMode) -> (r: BoolWire)
        ensures
            r.value() == value,
            r.is_constant() <==> mode == AllocationMode::Constant,
            r == alloc_wire(old(cs).gates@.len() as int, 0, value, mode),
            final(cs).gates@ == old(cs).gates@ + alloc_gates(seq![value], mode),
            final(cs).satisfied == old(cs).satisfied,
    {
        let r = match mode {
            AllocationMode::Constant => BoolWire::Constant(value),
            AllocationMode::Input => cs.push(Gate::AllocBool(true, value), BoolWire::Var(cs.next_index(), value)),
            AllocationMode::Witness => cs.push(Gate::AllocBool(false, value), BoolWire::Var(cs.next_index(), value)),
        };
        proof {
            assert(final(cs).gates@ =~= old(cs).gates@ + alloc_gates(seq![value], mode));
        }
        r
    }

    pub fn not(&self, cs: &mut ConstraintSystem) -> (r: BoolWire)
        ensures
            r.value() == !self.value(),
            r.is_constant() == self.is_constant(),
            keeps(old(cs).gates@, final(cs).gates@),
            forall|asg: Seq<int>| #[trigger] satisfies(final(cs).gates@, asg) ==> bool_at(asg, r) == !bool_at(asg, *self),
            final(cs).satisfied == old(cs).satisfied,
            self.is_constant() ==> *final(cs) == *old(cs),
    {
        match self {
            BoolWire::Constant(b) => BoolWire::Constant(!*b),
            BoolWire::Var(_, b) => {
                let v = !*b;
                proof { lemma_push_keeps(cs.gates@, Gate::Not(*self)); }
                cs.push(Gate::Not(*self), BoolWire::Var(cs.next_index(), v))
            },
        }
    }

    pub fn and(&self, cs: &mut ConstraintSystem, other: &BoolWire) -> (r: BoolWire)
        ensures
            r.value() == (self.value() && other.value()),
            self.is_constant() && other.is_constant() ==> r.is_constant(),
            keeps(old(cs).gates@, final(cs).gates@),
            forall|asg: Seq<int>| #[trigger] satisfies(final(cs).gates@, asg) ==> bool_at(asg, r) == (bool_at(asg, *self) && bool_at(asg, *other)),
            final(cs).satisfied == old(cs).satisfied,
            self.is_constant() || other.is_constant() ==> *final(cs) == *old(cs),
    {
        match (self, other) {
            (BoolWire::Constant(false), _) => BoolWire::Constant(false),
            (_, BoolWire::Constant(false)) => BoolWire::Constant(false),
            (BoolWire::Constant(true), x) => *x,
            (x, BoolWire::Constant(true)) => *x,
            (BoolWire::Var(_, a), BoolWire::Var(_, b)) => {
                let v = *a && *b;
                proof { lemma_push_keeps(cs.gates@, Gate::And(*self, *other)); }
                cs.push(Gate::And(*self, *other), BoolWire::Var(cs.next_index(), v))
            },
        }
    }

    pub fn or(&self, cs: &mut ConstraintSystem, other: &BoolWire) -> (r: BoolWire)
        ensures
            r.value() == (self.value() || other.value()),
            self.is_constant() && other.is_constant() ==> r.is_constant(),
            keeps(old(cs).gates@, final(cs).gates@),
            forall|asg: Seq<int>| #[trigger] satisfies(final(cs).gates@, asg) ==> bool_at(asg, r) == (bool_at(asg, *self) || bool_at(asg, *other)),
            final(cs).satisfied == old(cs).satisfied,
            self.is_constant() || other.is_constant() ==> *final(cs) == *old(cs),
    {
        match (self, other) {
            (BoolWire::Constant(true), _) => BoolWire::Constant(true),
            (_, BoolWire::Constant(true)) => BoolWire::Constant(true),
            (BoolWire::Constant(false), x) => *x,
            (x, BoolWire::Constant(false)) => *x,
            (BoolWire::Var(_, a), BoolWire::Var(_, b)) => {
                let v = *a || *b;
                proof { lemma_push_keeps(cs.gates@, Gate::Or(*self, *other)); }
                cs.push(Gate::Or(*self, *other), BoolWire::Var(cs.next_index(), v))
            },
        }
    }

    pub fn xor(&self, cs: &mut ConstraintSystem, other: &BoolWire) -> (r: BoolWire)
        ensures
            r.value() == (self.value() != other.value()),
            self.is_constant() && other.is_constant() ==> r.is_constant(),
            keeps(old(cs).gates@, final(cs).gates@),
            forall|asg: Seq<int>| #[trigger] satisfies(final(cs).gates@, asg) ==> bool_at(asg, r) == (bool_at(asg, *self) != bool_at(asg, *other)),
            final(cs).satisfied == old(cs).satisfied,
            self.is_constant() && other.is_constant() ==> *final(cs) == *old(cs),
    {
        match (self, other) {
            (BoolWire::Constant(false), x) => *x,
            (x, BoolWire::Constant(false)) => *x,
            (BoolWire::Constant(true), x) => x.not(cs),
            (x, BoolWire::Constant(true)) => x.not(cs),
            (BoolWire::Var(_, a), BoolWire::Var(_, b)) => {
                let v = *a != *b;
                proof { lemma_push_keeps(cs.gates@, Gate::Xor(*self, *other)); }
                cs.push(Gate::Xor(*self, *other), BoolWire::Var(cs.next_index(), v))
            },
        }
    }

    /// Enforces that both wires carry the same value.
    pub fn enforce_equal(&self, cs: &mut ConstraintSystem, other: &BoolWire)
        ensures
            final(cs).satisfied == (old(cs).satisfied && self.value() == other.value()),
            keeps(old(cs).gates@, final(cs).gates@),
            forall|asg: Seq<int>| #[trigger] satisfies(final(cs).gates@, asg) ==> bool_at(asg, *self) == bool_at(asg, *other),
    {
        proof { lemma_push_keeps(cs.gates@, Gate::EnforceBoolEq(*self, *other)); }
        let holds = self.get_value() == other.get_value();
        cs.gates.push(Gate::EnforceBoolEq(*self, *other));
        cs.satisfied = cs.satisfied && holds;
    }
}

impl FieldWire {
    pub open spec fn fe(self) -> Fe {
        match self {
            FieldWire::Constant(f) => f,
            FieldWire::Var(_, f) => f,
        }
    }

    pub open spec fn value(self) -> int {
        self.fe().val()
    }

    pub open spec fn wf(self) -> bool {
        self.fe().wf()
    }

    pub open spec fn is_constant(self) -> bool {
        self is Constant
    }

    /// The assigned element.
    pub fn get_value(&self) -> (r: Fe)
        ensures
            r == self.fe(),
    {
        match self {
            FieldWire::Constant(f) => *f,
            FieldWire::Var(_, f) => *f,
        }
    }

    pub fn zero() -> (r: FieldWire)
        ensures
            r.wf(),
            r.value() == 0,
            r == FieldWire::Constant(Fe { limbs: [0u64, 0u64, 0u64, 0u64] }),
    {
        FieldWire::Constant(Fe::zero())
    }

    /// Allocates a field element in the given mode.
    pub fn new_variable(cs: &mut ConstraintSystem, value: Fe, mode: AllocationMode) -> (r: FieldWire)
        ensures
            r.fe() == value,
            r.is_constant() <==> mode == AllocationMode::Constant,
            mode == AllocationMode::Constant ==> *final(cs) == *old(cs),
            mode != AllocationMode::Constant ==> final(cs).gates@ == old(cs).gates@.push(Gate::AllocField(mode == AllocationMode::Input, value)),
            final(cs).satisfied == old(cs).satisfied,
    {
        match mode {
            AllocationMode::Constant => FieldWire::Constant(value),
            AllocationMode::Input => cs.push_field(Gate::AllocField(true, value), value),
            AllocationMode::Witness => cs.push_field(Gate::AllocField(false, value), value),
        }
    }

    /// The element 0 or 1 standing for a boolean wire.
    pub fn from_bool(cs: &mut ConstraintSystem, b: &BoolWire) -> (r: FieldWire)
        ensures
            r.wf(),
            r.value() == (if b.value() { 1int } else { 0int }),
            b.is_constant() ==> r.is_constant(),
            keeps(old(cs).gates@, final(cs).gates@),
            forall|asg: Seq<int>| #[trigger] satisfies(final(cs).gates@, asg) ==> field_at(asg, r) == b2i(bool_at(asg, *b)),
            final(cs).satisfied == old(cs).satisfied,
    {
        match b {
            BoolWire::Constant(v) => {
                let f = Fe::from_bool(*v);
                proof {
                    assert(f.val() == b2i(*v));
                }
                FieldWire::Constant(f)
            },
            BoolWire::Var(_, v) => {
                proof { lemma_push_keeps(cs.gates@, Gate::BoolToField(*b)); }
                cs.push_field(Gate::BoolToField(*b), Fe::from_bool(*v))
            },
        }
    }

    pub fn add(&self, cs: &mut ConstraintSystem, other: &FieldWire) -> (r: FieldWire)
        requires
            self.wf(),
            other.wf(),
        ensures
            r.wf(),
            r.value() == fadd(self.value(), other.value()),
            self.is_constant() && other.is_constant() ==> r.is_constant(),
            keeps(old(cs).gates@, final(cs).gates@),
            forall|asg: Seq<int>| #[trigger] satisfies(final(cs).gates@, asg) ==> field_at(asg, r) == fadd(field_at(asg, *self), field_at(asg, *other)),
            final(cs).satisfied == old(cs).satisfied,
            self.is_constant() && other.is_constant() ==> *final(cs) == *old(cs),
    {
        let v = fe_add(&self.get_value(), &other.get_value());
        if self.is_const() && other.is_const() {
            proof {
                assert forall|asg: Seq<int>| satisfies(cs.gates@, asg) implies field_at(asg, FieldWire::Constant(v)) == fadd(field_at(asg, *self), field_at(asg, *other)) by {
                    assert(field_at(asg, *self) == self.value());
                    assert(field_at(asg, *other) == other.value());
                }
            }
            FieldWire::Constant(v)
        } else {
            proof { lemma_push_keeps(cs.gates@, Gate::FieldAdd(*self, *other)); }
            cs.push_field(Gate::FieldAdd(*self, *other), v)
        }
    }

    pub fn mul(&self, cs: &mut ConstraintSystem, other: &FieldWire) -> (r: FieldWire)
        requires
            self.wf(),
            other.wf(),
        ensures
            r.wf(),
            r.value() == fmul(self.value(), other.value()),
            self.is_constant() && other.is_constant() ==> r.is_constant(),
            keeps(old(cs).gates@, final(cs).gates@),
            forall|asg: Seq<int>| #[trigger] satisfies(final(cs).gates@, asg) ==> field_at(asg, r) == fmul(field_at(asg, *self), field_at(asg, *other)),
            final(cs).satisfied == old(cs).satisfied,
            self.is_constant() && other.is_constant() ==> *final(cs) == *old(cs),
    {
        let v = fe_mul(&self.get_value(), &other.get_value());
        if self.is_const() && other.is_const() {
            proof {
                assert forall|asg: Seq<int>| satisfies(cs.gates@, asg) implies field_at(asg, FieldWire::Constant(v)) == fmul(field_at(asg, *self), field_at(asg, *other)) by {
                    assert(field_at(asg, *self) == self.value());
                    assert(field_at(asg, *other) == other.value());
                }
            }
            FieldWire::Constant(v)
        } else {
            proof { lemma_push_keeps(cs.gates@, Gate::FieldMul(*self, *other)); }
            cs.push_field(Gate::FieldMul(*self, *other), v)
        }
    }

    /// Raises the wire to a fixed public exponent.
    pub fn pow_by_constant(&self, cs: &mut ConstraintSystem, e: u64) -> (r: FieldWire)
        requires
            self.wf(),
        ensures
            r.wf(),
            r.value() == fpow(self.value(), e as nat),
            self.is_constant() ==> r.is_constant(),
            keeps(old(cs).gates@, final(cs).gates@),
            forall|asg: Seq<int>| #[trigger] satisfies(final(cs).gates@, asg) ==> field_at(asg, r) == fpow(field_at(asg, *self), e as nat),
            final(cs).satisfied == old(cs).satisfied,
            self.is_constant() ==> *final(cs) == *old(cs),
    {
        let v = fe_pow(&self.get_value(), e);
        if self.is_const() {
            proof {
                assert forall|asg: Seq<int>| satisfies(cs.gates@, asg) implies field_at(asg, FieldWire::Constant(v)) == fpow(field_at(asg, *self), e as nat) by {
                    assert(field_at(asg, *self) == self.value());
                    
                }
            }
            FieldWire::Constant(v)
        } else {
            proof { lemma_push_keeps(cs.gates@, Gate::FieldPow(*self, e)); }
            cs.push_field(Gate::FieldPow(*self, e), v)
        }
    }

    /// Enforces that both wires carry the same element.
    pub fn enforce_equal(&self, cs: &mut ConstraintSystem, other: &FieldWire)
        ensures
            final(cs).satisfied == (old(cs).satisfied && self.value() == other.value()),
            keeps(old(cs).gates@, final(cs).gates@),
            forall|asg: Seq<int>| #[trigger] satisfies(final(cs).gates@, asg) ==> field_at(asg, *self) == field_at(asg, *other),
    {
        proof { lemma_push_keeps(cs.gates@, Gate::EnforceFieldEq(*self, *other)); }
        let holds = self.get_value().equals(&other.get_value());
        cs.gates.push(Gate::EnforceFieldEq(*self, *other));
        cs.satisfied = cs.satisfied && holds;
    }

    fn is_const(&self) -> (r: bool)
        ensures
            r == self.is_constant(),
    {
        match self {
            FieldWire::Constant(_) => true,
            FieldWire::Var(_, _) => false,
        }
    }
}

impl ConstraintSystem {
    /// An empty constraint system.
    pub fn new() -> (r: ConstraintSystem)
        ensures
            r.satisfied,
            r.gates@.len() == 0,
    {
        ConstraintSystem { gates: Vec::new(), satisfied: true }
    }

    /// Whether every enforced equality holds for the assignment.
    pub fn is_satisfied(&self) -> (r: bool)
        ensures
            r == self.satisfied,
    {
        self.satisfied
    }

    /// The number of gates emitted so far.
    pub fn num_gates(&self) -> (r: usize)
        ensures
            r == self.gates@.len(),
    {
        self.gates.len()
    }

    fn next_index(&self) -> (r: usize)
        ensures
            r == self.gates@.len(),
    {
        self.gates.len()
    }

    fn push(&mut self, g: Gate, w: BoolWire) -> (r: BoolWire)
        ensures
            r == w,
            final(self).gates@ == old(self).gates@.push(g),
            final(self).satisfied == old(self).satisfied,
    {
        self.gates.push(g);
        w
    }

    fn push_field(&mut self, g: Gate, v: Fe) -> (r: FieldWire)
        ensures
            forall|asg: Seq<int>| #[trigger] field_at(asg, r) == asg[old(self).gates@.len() as int],
            final(self).gates@ == old(self).gates@.push(g),
            r.fe() == v,
            !r.is_constant(),
            final(self).satisfied == old(self).satisfied,
    {
        let w = FieldWire::Var(self.gates.len(), v);
        self.gates.push(g);
        w
    }
}

} // verus!
