//! Byte wires and the unsigned comparison gadget over them.
use vstd::prelude::*;
use vstd::arithmetic::power2::{pow2, lemma_pow2_unfold, lemma2_to64};
use crate::circuit::{AllocationMode, BoolWire, ConstraintSystem, alloc_gates, alloc_wires, alloc_count, lemma_alloc_split, bool_at, keeps, satisfies};

verus! {

/// The unsigned number that big-endian bits stand for.
pub open spec fn bits_value(s: Seq<bool>) -> nat
    decreases s.len(),
{
    if s.len() == 0 {
        0
    } else {
        2 * bits_value(s.drop_last()) + (if s.last() { 1nat } else { 0nat })
    }
}

/// The values of a sequence of boolean wires.
pub open spec fn wire_values(s: Seq<BoolWire>) -> Seq<bool> {
    s.map_values(|w: BoolWire| w.value())
}

/// The booleans that wires carry under an assignment.
pub open spec fn bits_at(asg: Seq<int>, s: Seq<BoolWire>) -> Seq<bool> {
    s.map_values(|w: BoolWire| bool_at(asg, w))
}

/// A byte wire: eight boolean wires, most significant first.
#[derive(Clone, Debug)]
pub struct ByteWire {
    pub bits: Vec<BoolWire>,
}

impl ByteWire {
    pub open spec fn wf(&self) -> bool {
        self.bits@.len() == 8
    }

    /// The unsigned value of the byte.
    pub open spec fn value(&self) -> nat {
        bits_value(wire_values(self.bits@))
    }

    /// All eight bits are constants.
    pub open spec fn is_constant(&self) -> bool {
        forall|i: int| 0 <= i < self.bits@.len() ==> (#[trigger] self.bits@[i]).is_constant()
    }

    /// Allocates a byte, bit by bit from the most significant one.
    pub fn new_variable(cs: &mut ConstraintSystem, value: u8, mode: AllocationMode) -> (r: ByteWire)
        ensures
            r.wf(),
            r.value() == value as nat,
            mode == AllocationMode::Constant ==> r.is_constant(),
            r.bits@ == alloc_wires(old(cs).gates@.len() as int, wire_values(r.bits@), mode),
            final(cs).gates@ == old(cs).gates@ + alloc_gates(wire_values(r.bits@), mode),
            final(cs).satisfied == old(cs).satisfied,
    {
        let ghost start = cs.gates@.len() as int;
        let ghost g0 = cs.gates@;
        let bits = u8_to_bits_be(value);
        let mut wires: Vec<BoolWire> = Vec::new();
        let mut i: usize = 0;
        while i < 8
            invariant
                bits@.len() == 8,
                i <= 8,
                wires@.len() == i,
                wire_values(wires@) == bits@.take(i as int),
                mode == AllocationMode::Constant ==> forall|k: int| 0 <= k < i ==> (#[trigger] wires@[k]).is_constant(),
                start == g0.len(),
                wires@ == alloc_wires(start, bits@.take(i as int), mode),
                cs.gates@ == g0 + alloc_gates(bits@.take(i as int), mode),
                cs.satisfied == old(cs).satisfied,
            decreases 8 - i,
        {
            proof {
                lemma_alloc_split(start, bits@.take(i as int), seq![bits@[i as int]], mode);
                assert(bits@.take(i as int + 1) =~= bits@.take(i as int) + seq![bits@[i as int]]);
            }
            let w = BoolWire::new_variable(cs, bits[i], mode);
            wires.push(w);
            proof {
                assert(wire_values(wires@) =~= bits@.take(i as int + 1));
                assert(wires@ =~= alloc_wires(start, bits@.take(i as int), mode) + alloc_wires(start + alloc_count(i as int, mode), seq![bits@[i as int]], mode));
                assert(cs.gates@ =~= g0 + alloc_gates(bits@.take(i as int + 1), mode));
            }
            i = i + 1;
        }
        proof {
            assert(bits@.take(8) =~= bits@);
        }
        ByteWire { bits: wires }
    }

    /// A constant byte.
    pub fn constant(value: u8) -> (r: ByteWire)
        ensures
            r.wf(),
            r.value() == value as nat,
            r.is_constant(),
    {
        let mut scratch = ConstraintSystem::new();
        ByteWire::new_variable(&mut scratch, value, AllocationMode::Constant)
    }

    fn all_constant(&self) -> (r: bool)
        requires
            self.wf(),
        ensures
            r == self.is_constant(),
    {
        let mut i: usize = 0;
        while i < 8
            invariant
                self.wf(),
                i <= 8,
                forall|k: int| 0 <= k < i ==> (#[trigger] self.bits@[k]).is_constant(),
            decreases 8 - i,
        {
            match self.bits[i] {
                BoolWire::Var(_, _) => return false,
                BoolWire::Constant(_) => {},
            }
            i = i + 1;
        }
        true
    }
}

/// The value of the first `k + 1` bits, from that of the first `k`.
proof fn lemma_bits_value_step(s: Seq<bool>, k: int)
    requires
        0 <= k < s.len(),
    ensures
        bits_value(s.take(k + 1)) == 2 * bits_value(s.take(k)) + (if s[k] { 1nat } else { 0nat }),
{
    assert(s.take(k + 1).drop_last() =~= s.take(k));
}

/// The big-endian bits of a byte.
pub fn u8_to_bits_be(v: u8) -> (r: Vec<bool>)
    ensures
        r@.len() == 8,
        bits_value(r@) == v as nat,
{
    let mut bits: Vec<bool> = Vec::new();
    let mut scale: u32 = 256;
    let mut rest: u32 = v as u32;
    let mut i: usize = 0;
    proof {
        lemma2_to64();
    }
    while i < 8
        invariant
            i <= 8,
            bits@.len() == i,
            scale as int == pow2((8 - i) as nat),
            rest < scale,
            v as int == bits_value(bits@) * scale + rest,
        decreases 8 - i,
    {
        proof {
            lemma_pow2_unfold((8 - i) as nat);
            lemma2_to64();
        }
        let half: u32 = scale / 2;
        let bit = rest >= half;
        if bit {
            rest = rest - half;
        }
        let ghost old_bits = bits@;
        bits.push(bit);
        proof {
            assert(bits@.drop_last() =~= old_bits);
            let bv = bits_value(old_bits) as int;
            let b: int = if bit { 1 } else { 0 };
            assert(bits_value(bits@) == 2 * bv + b);
            assert((2 * bv + b) * half == bv * scale + b * half) by (nonlinear_arith)
                requires scale == 2 * half;
        }
        scale = half;
        i = i + 1;
    }
    proof {
        lemma2_to64();
        assert(scale == 1);
        assert(rest == 0);
        assert(bits_value(bits@) * 1 == bits_value(bits@));
    }
    bits
}

/// Order comparisons between wires of one kind.
pub trait CmpGadget: Sized {
    spec fn wf(&self) -> bool;

    /// The number the wire stands for.
    spec fn cmp_value(&self) -> int;

    spec fn cmp_constant(&self) -> bool;

    /// The number the wire stands for under an assignment.
    spec fn cmp_value_at(&self, asg: Seq<int>) -> int;

    /// A wire that is true iff `self < other`.
    fn is_lt(&self, cs: &mut ConstraintSystem, other: &Self) -> (r: BoolWire)
        requires
            self.wf(),
            other.wf(),
        ensures
            r.value() == (self.cmp_value() < other.cmp_value()),
            final(cs).satisfied == old(cs).satisfied,
            self.cmp_constant() && other.cmp_constant() ==> r.is_constant() && *final(cs) == *old(cs),
            keeps(old(cs).gates@, final(cs).gates@),
            forall|asg: Seq<int>| #[trigger] satisfies(final(cs).gates@, asg) ==> bool_at(asg, r) == (self.cmp_value_at(asg) < other.cmp_value_at(asg)),
    ;

    /// A wire that is true iff `self >= other`.
    fn is_geq(&self, cs: &mut ConstraintSystem, other: &Self) -> (r: BoolWire)
        requires
            self.wf(),
            other.wf(),
        ensures
            r.value() == (self.cmp_value() >= other.cmp_value()),
            final(cs).satisfied == old(cs).satisfied,
            self.cmp_constant() && other.cmp_constant() ==> r.is_constant() && *final(cs) == *old(cs),
            keeps(old(cs).gates@, final(cs).gates@),
            forall|asg: Seq<int>| #[trigger] satisfies(final(cs).gates@, asg) ==> bool_at(asg, r) == (self.cmp_value_at(asg) >= other.cmp_value_at(asg)),
    ;

    /// A wire that is true iff `self <= other`.
    fn is_leq(&self, cs: &mut ConstraintSystem, other: &Self) -> (r: BoolWire)
        requires
            self.wf(),
            other.wf(),
        ensures
            r.value() == (self.cmp_value() <= other.cmp_value()),
            final(cs).satisfied == old(cs).satisfied,
            self.cmp_constant() && other.cmp_constant() ==> r.is_constant() && *final(cs) == *old(cs),
            keeps(old(cs).gates@, final(cs).gates@),
            forall|asg: Seq<int>| #[trigger] satisfies(final(cs).gates@, asg) ==> bool_at(asg, r) == (self.cmp_value_at(asg) <= other.cmp_value_at(asg)),
    ;

    /// A wire that is true iff `self > other`.
    fn is_gt(&self, cs: &mut ConstraintSystem, other: &Self) -> (r: BoolWire)
        requires
            self.wf(),
            other.wf(),
        ensures
            r.value() == (self.cmp_value() > other.cmp_value()),
            final(cs).satisfied == old(cs).satisfied,
            self.cmp_constant() && other.cmp_constant() ==> r.is_constant() && *final(cs) == *old(cs),
            keeps(old(cs).gates@, final(cs).gates@),
            forall|asg: Seq<int>| #[trigger] satisfies(final(cs).gates@, asg) ==> bool_at(asg, r) == (self.cmp_value_at(asg) > other.cmp_value_at(asg)),
    ;
}

impl CmpGadget for ByteWire {
    open spec fn wf(&self) -> bool {
        self.bits@.len() == 8
    }

    open spec fn cmp_value(&self) -> int {
        self.value() as int
    }

    open spec fn cmp_constant(&self) -> bool {
        self.is_constant()
    }

    open spec fn cmp_value_at(&self, asg: Seq<int>) -> int {
        bits_value(bits_at(asg, self.bits@)) as int
    }

    /// Folds two constant bytes; otherwise scans the bits from the most
    /// significant one, keeping whether the bits seen so far are equal.
    fn is_lt(&self, cs: &mut ConstraintSystem, other: &ByteWire) -> (r: BoolWire) {
        if self.all_constant() && other.all_constant() {
            let mut i: usize = 0;
            let mut lt = false;
            let mut eq = true;
            while i < 8
                invariant
                    self.wf(),
                    other.wf(),
                    i <= 8,
                    lt == (bits_value(wire_values(self.bits@).take(i as int)) < bits_value(wire_values(other.bits@).take(i as int))),
                    eq == (bits_value(wire_values(self.bits@).take(i as int)) == bits_value(wire_values(other.bits@).take(i as int))),
                decreases 8 - i,
            {
                let a = self.bits[i].get_value();
                let b = other.bits[i].get_value();
                proof {
                    lemma_bits_value_step(wire_values(self.bits@), i as int);
                    lemma_bits_value_step(wire_values(other.bits@), i as int);
                }
                lt = lt || (eq && !a && b);
                eq = eq && a == b;
                i = i + 1;
            }
            proof {
                assert(wire_values(self.bits@).take(8) =~= wire_values(self.bits@));
                assert(wire_values(other.bits@).take(8) =~= wire_values(other.bits@));
                assert forall|asg: Seq<int>| #[trigger] satisfies(cs.gates@, asg) implies bool_at(asg, BoolWire::Constant(lt)) == (self.cmp_value_at(asg) < other.cmp_value_at(asg)) by {
                    assert(bits_at(asg, self.bits@) =~= wire_values(self.bits@));
                    assert(bits_at(asg, other.bits@) =~= wire_values(other.bits@));
                }
            }
            BoolWire::constant(lt)
        } else {
            let mut result = BoolWire::constant(false);
            let mut equal_so_far = BoolWire::constant(true);
            let mut i: usize = 0;
            proof {
                assert forall|asg: Seq<int>| #[trigger] satisfies(cs.gates@, asg) implies
                    bool_at(asg, result) == (bits_value(bits_at(asg, self.bits@).take(0)) < bits_value(bits_at(asg, other.bits@).take(0)))
                    && bool_at(asg, equal_so_far) == (bits_value(bits_at(asg, self.bits@).take(0)) == bits_value(bits_at(asg, other.bits@).take(0))) by {
                    assert(bits_value(bits_at(asg, self.bits@).take(0)) == 0);
                    assert(bits_value(bits_at(asg, other.bits@).take(0)) == 0);
                }
            }
            while i < 8
                invariant
                    self.wf(),
                    other.wf(),
                    i <= 8,
                    result.value() == (bits_value(wire_values(self.bits@).take(i as int)) < bits_value(wire_values(other.bits@).take(i as int))),
                    equal_so_far.value() == (bits_value(wire_values(self.bits@).take(i as int)) == bits_value(wire_values(other.bits@).take(i as int))),
                    cs.satisfied == old(cs).satisfied,
                    keeps(old(cs).gates@, cs.gates@),
                    forall|asg: Seq<int>| #[trigger] satisfies(cs.gates@, asg) ==>
                        bool_at(asg, result) == (bits_value(bits_at(asg, self.bits@).take(i as int)) < bits_value(bits_at(asg, other.bits@).take(i as int)))
                        && bool_at(asg, equal_so_far) == (bits_value(bits_at(asg, self.bits@).take(i as int)) == bits_value(bits_at(asg, other.bits@).take(i as int))),
                decreases 8 - i,
            {
                let a = &self.bits[i];
                let b = &other.bits[i];
                proof {
                    lemma_bits_value_step(wire_values(self.bits@), i as int);
                    lemma_bits_value_step(wire_values(other.bits@), i as int);
                }
                let ghost g0 = cs.gates@;
                let ghost r0 = result;
                let ghost e0 = equal_so_far;
                let unequal = a.xor(cs, b);
                let not_a = a.not(cs);
                let a_is_lt_b = not_a.and(cs, b);
                let bits_equal = unequal.not(cs);
                let here = a_is_lt_b.and(cs, &equal_so_far);
                result = result.or(cs, &here);
                equal_so_far = equal_so_far.and(cs, &bits_equal);
                proof {
                    assert forall|asg: Seq<int>| #[trigger] satisfies(cs.gates@, asg) implies
                        bool_at(asg, result) == (bits_value(bits_at(asg, self.bits@).take(i as int + 1)) < bits_value(bits_at(asg, other.bits@).take(i as int + 1)))
                        && bool_at(asg, equal_so_far) == (bits_value(bits_at(asg, self.bits@).take(i as int + 1)) == bits_value(bits_at(asg, other.bits@).take(i as int + 1))) by {
                        lemma_bits_value_step(bits_at(asg, self.bits@), i as int);
                        lemma_bits_value_step(bits_at(asg, other.bits@), i as int);
                        assert(satisfies(g0, asg));
                        assert(bits_at(asg, self.bits@)[i as int] == bool_at(asg, *a));
                        assert(bits_at(asg, other.bits@)[i as int] == bool_at(asg, *b));
                    }
                }
                i = i + 1;
            }
            proof {
                assert(wire_values(self.bits@).take(8) =~= wire_values(self.bits@));
                assert(wire_values(other.bits@).take(8) =~= wire_values(other.bits@));
                assert forall|asg: Seq<int>| #[trigger] satisfies(cs.gates@, asg) implies bool_at(asg, result) == (self.cmp_value_at(asg) < other.cmp_value_at(asg)) by {
                    assert(bits_at(asg, self.bits@).take(8) =~= bits_at(asg, self.bits@));
                    assert(bits_at(asg, other.bits@).take(8) =~= bits_at(asg, other.bits@));
                }
            }
            result
        }
    }

    fn is_geq(&self, cs: &mut ConstraintSystem, other: &ByteWire) -> (r: BoolWire) {
        let lt = self.is_lt(cs, other);
        lt.not(cs)
    }

    fn is_leq(&self, cs: &mut ConstraintSystem, other: &ByteWire) -> (r: BoolWire) {
        other.is_geq(cs, self)
    }

    fn is_gt(&self, cs: &mut ConstraintSystem, other: &ByteWire) -> (r: BoolWire) {
        let leq = self.is_leq(cs, other);
        leq.not(cs)
    }
}

} // verus!
