//! Arrays of wires, allocated element by element in row-major order.
use vstd::prelude::*;
use crate::circuit::{AllocationMode, BoolWire, ConstraintSystem, SynthesisError, alloc_gates, alloc_wires, alloc_count, lemma_alloc_split};
use crate::cmp::{ByteWire, wire_values};

verus! {

/// Whether a table of booleans is `n` rows of `n` entries.
pub open spec fn is_square(m: Seq<Seq<bool>>, n: int) -> bool {
    m.len() == n && forall|i: int| 0 <= i < n ==> (#[trigger] m[i]).len() == n
}

/// The view of a table of vectors as a table of sequences.
pub open spec fn rows_view(v: Seq<Vec<bool>>) -> Seq<Seq<bool>> {
    v.map_values(|r: Vec<bool>| r@)
}

/// The view of a stack of tables.
pub open spec fn stack_view(v: Seq<Vec<Vec<bool>>>) -> Seq<Seq<Seq<bool>>> {
    v.map_values(|t: Vec<Vec<bool>>| rows_view(t@))
}

/// The wires of a table, row by row.
pub open spec fn wire_rows(t: Seq<Vec<BoolWire>>) -> Seq<Seq<BoolWire>> {
    t.map_values(|r: Vec<BoolWire>| r@)
}

/// The entries of a table of values in row-major order.
pub open spec fn flat_values(v: Seq<Vec<bool>>) -> Seq<bool> {
    rows_view(v).flatten_alt()
}

/// The entries of a stack of tables: table by table, each row-major.
pub open spec fn flat_stack_values(v: Seq<Vec<Vec<bool>>>) -> Seq<bool> {
    v.map_values(|t: Vec<Vec<bool>>| flat_values(t@)).flatten_alt()
}

/// Byte wires, one per node.
pub struct Uint8Array(pub Vec<ByteWire>);

/// Boolean wires, one per node.
pub struct BooleanArray(pub Vec<BoolWire>);

/// A square table of boolean wires.
pub struct Boolean2DArray(pub Vec<Vec<BoolWire>>);

/// A stack of square tables of boolean wires.
pub struct Boolean3DArray(pub Vec<Vec<Vec<BoolWire>>>);

impl Uint8Array {
    pub open spec fn len(&self) -> int {
        self.0@.len() as int
    }

    /// Every element is a byte of eight bits.
    pub open spec fn wf(&self) -> bool {
        forall|i: int| 0 <= i < self.0@.len() ==> (#[trigger] self.0@[i]).wf()
    }

    pub open spec fn values(&self) -> Seq<nat> {
        self.0@.map_values(|b: ByteWire| b.value())
    }

    /// The bit wires of all bytes, byte by byte.
    pub open spec fn flat_bits(&self) -> Seq<BoolWire> {
        self.0@.map_values(|b: ByteWire| b.bits@).flatten_alt()
    }

    /// The values of those bits.
    pub open spec fn flat_bit_values(&self) -> Seq<bool> {
        self.0@.map_values(|b: ByteWire| wire_values(b.bits@)).flatten_alt()
    }

    /// Allocates `n` bytes; fails where no value is supplied or where it
    /// does not hold `n` bytes.
    pub fn new_variable(cs: &mut ConstraintSystem, n: usize, value: Option<&Vec<u8>>, mode: AllocationMode) -> (r: Result<Uint8Array, SynthesisError>)
        ensures
            value is None ==> r == Err::<Uint8Array, SynthesisError>(SynthesisError::AssignmentMissing),
            value is Some && value->0@.len() != n ==> r == Err::<Uint8Array, SynthesisError>(SynthesisError::ShapeMismatch),
            value is Some && value->0@.len() == n ==> r is Ok,
            r is Ok ==> r->Ok_0.wf() && r->Ok_0.len() == n && r->Ok_0.values() == value->0@.map_values(|x: u8| x as nat),
            r is Ok ==> r->Ok_0.flat_bits() == alloc_wires(old(cs).gates@.len() as int, r->Ok_0.flat_bit_values(), mode),
            r is Ok ==> final(cs).gates@ == old(cs).gates@ + alloc_gates(r->Ok_0.flat_bit_values(), mode),
            final(cs).satisfied == old(cs).satisfied,
            r is Err ==> *final(cs) == *old(cs),
    {
        let ghost start = cs.gates@.len() as int;
        let ghost g0 = cs.gates@;
        let v = match value {
            None => return Err(SynthesisError::AssignmentMissing),
            Some(v) => v,
        };
        if v.len() != n {
            return Err(SynthesisError::ShapeMismatch);
        }
        let mut out: Vec<ByteWire> = Vec::new();
        let mut i: usize = 0;
        proof {
            assert(out@.map_values(|b: ByteWire| b.bits@).flatten_alt() =~= alloc_wires(start, out@.map_values(|b: ByteWire| wire_values(b.bits@)).flatten_alt(), mode));
            assert(cs.gates@ =~= g0 + alloc_gates(out@.map_values(|b: ByteWire| wire_values(b.bits@)).flatten_alt(), mode));
        }
        while i < n
            invariant
                v@.len() == n,
                i <= n,
                out@.len() == i,
                forall|k: int| 0 <= k < i ==> (#[trigger] out@[k]).wf() && out@[k].value() == v@[k] as nat,
                start == g0.len(),
                out@.map_values(|b: ByteWire| b.bits@).flatten_alt() == alloc_wires(start, out@.map_values(|b: ByteWire| wire_values(b.bits@)).flatten_alt(), mode),
                cs.gates@ == g0 + alloc_gates(out@.map_values(|b: ByteWire| wire_values(b.bits@)).flatten_alt(), mode),
                cs.satisfied == old(cs).satisfied,
            decreases n - i,
        {
            let ghost prev = out@;
            let ghost pv = prev.map_values(|b: ByteWire| wire_values(b.bits@)).flatten_alt();
            let ghost cur = cs.gates@.len() as int;
            let b = ByteWire::new_variable(cs, v[i], mode);
            out.push(b);
            proof {
                lemma_alloc_split(start, pv, wire_values(b.bits@), mode);
                assert(alloc_gates(pv, mode).len() == alloc_count(pv.len() as int, mode));
                assert(out@.map_values(|b: ByteWire| b.bits@).drop_last() =~= prev.map_values(|b: ByteWire| b.bits@));
                assert(out@.map_values(|b: ByteWire| wire_values(b.bits@)).drop_last() =~= prev.map_values(|b: ByteWire| wire_values(b.bits@)));
                assert(cur == start + alloc_count(pv.len() as int, mode));
                if mode == AllocationMode::Constant {
                    assert(alloc_wires(cur, wire_values(b.bits@), mode) =~= alloc_wires(start + alloc_count(pv.len() as int, mode), wire_values(b.bits@), mode));
                }
                assert(cs.gates@ =~= g0 + alloc_gates(out@.map_values(|b: ByteWire| wire_values(b.bits@)).flatten_alt(), mode));
            }
            i = i + 1;
        }
        let r = Uint8Array(out);
        proof {
            assert(r.values() =~= v@.map_values(|x: u8| x as nat));
        }
        Ok(r)
    }

    pub fn new_witness(cs: &mut ConstraintSystem, n: usize, value: Option<&Vec<u8>>) -> (r: Result<Uint8Array, SynthesisError>)
        ensures
            value is None ==> r == Err::<Uint8Array, SynthesisError>(SynthesisError::AssignmentMissing),
            value is Some && value->0@.len() != n ==> r == Err::<Uint8Array, SynthesisError>(SynthesisError::ShapeMismatch),
            value is Some && value->0@.len() == n ==> r is Ok,
            r is Ok ==> r->Ok_0.wf() && r->Ok_0.len() == n && r->Ok_0.values() == value->0@.map_values(|x: u8| x as nat),
            r is Ok ==> r->Ok_0.flat_bits() == alloc_wires(old(cs).gates@.len() as int, r->Ok_0.flat_bit_values(), AllocationMode::Witness),
            r is Ok ==> final(cs).gates@ == old(cs).gates@ + alloc_gates(r->Ok_0.flat_bit_values(), AllocationMode::Witness),
            final(cs).satisfied == old(cs).satisfied,
            r is Err ==> *final(cs) == *old(cs),
    {
        Uint8Array::new_variable(cs, n, value, AllocationMode::Witness)
    }
}

impl BooleanArray {
    pub open spec fn len(&self) -> int {
        self.0@.len() as int
    }

    pub open spec fn values(&self) -> Seq<bool> {
        self.0@.map_values(|w: BoolWire| w.value())
    }

    /// `n` constant wires, all carrying `b`.
    pub fn constant(n: usize, b: bool) -> (r: BooleanArray)
        ensures
            r.len() == n,
            r.values() == Seq::new(n as nat, |i: int| b),
            forall|k: int| 0 <= k < n ==> #[trigger] r.0@[k] == BoolWire::Constant(b),
    {
        let mut out: Vec<BoolWire> = Vec::new();
        let mut i: usize = 0;
        while i < n
            invariant
                i <= n,
                out@.len() == i,
                forall|k: int| 0 <= k < i ==> (#[trigger] out@[k]).value() == b,
                forall|k: int| 0 <= k < i ==> #[trigger] out@[k] == BoolWire::Constant(b),
            decreases n - i,
        {
            out.push(BoolWire::constant(b));
            i = i + 1;
        }
        let r = BooleanArray(out);
        proof {
            assert(r.values() =~= Seq::new(n as nat, |i: int| b));
        }
        r
    }

    /// Allocates `n` booleans; fails where no value is supplied or where it
    /// does not hold `n` entries.
    pub fn new_variable(cs: &mut ConstraintSystem, n: usize, value: Option<&Vec<bool>>, mode: AllocationMode) -> (r: Result<BooleanArray, SynthesisError>)
        ensures
            value is None ==> r == Err::<BooleanArray, SynthesisError>(SynthesisError::AssignmentMissing),
            value is Some && value->0@.len() != n ==> r == Err::<BooleanArray, SynthesisError>(SynthesisError::ShapeMismatch),
            value is Some && value->0@.len() == n ==> r is Ok,
            r is Ok ==> r->Ok_0.len() == n && r->Ok_0.values() == value->0@,
            r is Ok ==> r->Ok_0.0@ == alloc_wires(old(cs).gates@.len() as int, value->0@, mode),
            r is Ok ==> final(cs).gates@ == old(cs).gates@ + alloc_gates(value->0@, mode),
            final(cs).satisfied == old(cs).satisfied,
            r is Err ==> *final(cs) == *old(cs),
    {
        let v = match value {
            None => return Err(SynthesisError::AssignmentMissing),
            Some(v) => v,
        };
        if v.len() != n {
            return Err(SynthesisError::ShapeMismatch);
        }
        let r = BooleanArray(alloc_row(cs, v, mode));
        proof {
            assert(r.values() =~= v@);
        }
        Ok(r)
    }

    pub fn new_witness(cs: &mut ConstraintSystem, n: usize, value: Option<&Vec<bool>>) -> (r: Result<BooleanArray, SynthesisError>)
        ensures
            value is None ==> r == Err::<BooleanArray, SynthesisError>(SynthesisError::AssignmentMissing),
            value is Some && value->0@.len() != n ==> r == Err::<BooleanArray, SynthesisError>(SynthesisError::ShapeMismatch),
            value is Some && value->0@.len() == n ==> r is Ok,
            r is Ok ==> r->Ok_0.len() == n && r->Ok_0.values() == value->0@,
            r is Ok ==> r->Ok_0.0@ == alloc_wires(old(cs).gates@.len() as int, value->0@, AllocationMode::Witness),
            r is Ok ==> final(cs).gates@ == old(cs).gates@ + alloc_gates(value->0@, AllocationMode::Witness),
            final(cs).satisfied == old(cs).satisfied,
            r is Err ==> *final(cs) == *old(cs),
    {
        BooleanArray::new_variable(cs, n, value, AllocationMode::Witness)
    }
}

/// Allocates one wire per entry, in order.
fn alloc_row(cs: &mut ConstraintSystem, v: &Vec<bool>, mode: AllocationMode) -> (r: Vec<BoolWire>)
    ensures
        r@ == alloc_wires(old(cs).gates@.len() as int, v@, mode),
        final(cs).gates@ == old(cs).gates@ + alloc_gates(v@, mode),
        final(cs).satisfied == old(cs).satisfied,
{
    let ghost start = cs.gates@.len() as int;
    let ghost g0 = cs.gates@;
    let mut out: Vec<BoolWire> = Vec::new();
    let mut i: usize = 0;
    proof {
        assert(out@ =~= alloc_wires(start, v@.take(0), mode));
        assert(cs.gates@ =~= g0 + alloc_gates(v@.take(0), mode));
    }
    while i < v.len()
        invariant
            start == g0.len(),
            i <= v@.len(),
            out@ == alloc_wires(start, v@.take(i as int), mode),
            cs.gates@ == g0 + alloc_gates(v@.take(i as int), mode),
            cs.satisfied == old(cs).satisfied,
        decreases v@.len() - i,
    {
        proof {
            lemma_alloc_split(start, v@.take(i as int), seq![v@[i as int]], mode);
            assert(v@.take(i as int + 1) =~= v@.take(i as int) + seq![v@[i as int]]);
        }
        let w = BoolWire::new_variable(cs, v[i], mode);
        out.push(w);
        proof {
            assert(out@ =~= alloc_wires(start, v@.take(i as int), mode) + alloc_wires(start + alloc_count(i as int, mode), seq![v@[i as int]], mode));
            assert(cs.gates@ =~= g0 + alloc_gates(v@.take(i as int + 1), mode));
        }
        i = i + 1;
    }
    proof {
        assert(v@.take(v@.len() as int) =~= v@);
    }
    out
}

/// Whether every row of a table has `n` entries.
fn rows_have_len(v: &Vec<Vec<bool>>, n: usize) -> (r: bool)
    ensures
        r == forall|i: int| 0 <= i < v@.len() ==> (#[trigger] v@[i])@.len() == n,
{
    let mut i: usize = 0;
    while i < v.len()
        invariant
            i <= v@.len(),
            forall|k: int| 0 <= k < i ==> (#[trigger] v@[k])@.len() == n,
        decreases v@.len() - i,
    {
        if v[i].len() != n {
            return false;
        }
        i = i + 1;
    }
    true
}

impl Boolean2DArray {
    pub open spec fn values(&self) -> Seq<Seq<bool>> {
        self.0@.map_values(|row: Vec<BoolWire>| row@.map_values(|w: BoolWire| w.value()))
    }

    /// The wires in row-major order.
    pub open spec fn flat_wires(&self) -> Seq<BoolWire> {
        wire_rows(self.0@).flatten_alt()
    }

    pub open spec fn shape_ok(&self, n: int) -> bool {
        self.0@.len() == n && forall|i: int| 0 <= i < n ==> (#[trigger] self.0@[i])@.len() == n
    }

    /// Allocates an `n` by `n` table, row by row; fails where no value is
    /// supplied or where it is not `n` rows of `n` entries.
    pub fn new_variable(cs: &mut ConstraintSystem, n: usize, value: Option<&Vec<Vec<bool>>>, mode: AllocationMode) -> (r: Result<Boolean2DArray, SynthesisError>)
        ensures
            value is None ==> r == Err::<Boolean2DArray, SynthesisError>(SynthesisError::AssignmentMissing),
            value is Some && !is_square(rows_view(value->0@), n as int) ==> r == Err::<Boolean2DArray, SynthesisError>(SynthesisError::ShapeMismatch),
            value is Some && is_square(rows_view(value->0@), n as int) ==> r is Ok,
            r is Ok ==> r->Ok_0.shape_ok(n as int) && r->Ok_0.values() == rows_view(value->0@),
            r is Ok ==> r->Ok_0.flat_wires() == alloc_wires(old(cs).gates@.len() as int, flat_values(value->0@), mode),
            r is Ok ==> final(cs).gates@ == old(cs).gates@ + alloc_gates(flat_values(value->0@), mode),
            final(cs).satisfied == old(cs).satisfied,
            r is Err ==> *final(cs) == *old(cs),
    {
        let ghost start = cs.gates@.len() as int;
        let ghost g0 = cs.gates@;
        let v = match value {
            None => return Err(SynthesisError::AssignmentMissing),
            Some(v) => v,
        };
        if v.len() != n || !rows_have_len(v, n) {
            proof {
                if is_square(rows_view(v@), n as int) {
                    assert forall|i: int| 0 <= i < v@.len() implies (#[trigger] v@[i])@.len() == n by {
                        assert(rows_view(v@)[i] == v@[i]@);
                    }
                }
            }
            return Err(SynthesisError::ShapeMismatch);
        }
        let mut out: Vec<Vec<BoolWire>> = Vec::new();
        let mut i: usize = 0;
        proof {
            assert(rows_view(v@.take(0)) =~= Seq::<Seq<bool>>::empty());
            assert(wire_rows(out@) =~= Seq::<Seq<BoolWire>>::empty());
            assert(alloc_wires(start, Seq::<bool>::empty(), mode) =~= Seq::<BoolWire>::empty());
            assert(cs.gates@ =~= g0 + alloc_gates(flat_values(v@.take(0)), mode));
        }
        while i < n
            invariant
                v@.len() == n,
                forall|k: int| 0 <= k < n ==> (#[trigger] v@[k])@.len() == n,
                i <= n,
                out@.len() == i,
                forall|k: int| 0 <= k < i ==> (#[trigger] out@[k])@.len() == n
                    && out@[k]@.map_values(|w: BoolWire| w.value()) == v@[k]@,
                start == g0.len(),
                wire_rows(out@).flatten_alt() == alloc_wires(start, flat_values(v@.take(i as int)), mode),
                cs.gates@ == g0 + alloc_gates(flat_values(v@.take(i as int)), mode),
                cs.satisfied == old(cs).satisfied,
            decreases n - i,
        {
            let ghost prev = out@;
            let ghost pv = flat_values(v@.take(i as int));
            let row = alloc_row(cs, &v[i], mode);
            proof {
                assert(row@.map_values(|w: BoolWire| w.value()) =~= v@[i as int]@);
            }
            out.push(row);
            proof {
                lemma_alloc_split(start, pv, v@[i as int]@, mode);
                assert(wire_rows(out@).drop_last() =~= wire_rows(prev));
                assert(rows_view(v@.take(i as int + 1)).drop_last() =~= rows_view(v@.take(i as int)));
                assert(rows_view(v@.take(i as int + 1)).last() == v@[i as int]@);
                assert(flat_values(v@.take(i as int + 1)) == pv + v@[i as int]@);
                assert(cs.gates@ =~= g0 + alloc_gates(flat_values(v@.take(i as int + 1)), mode));
            }
            i = i + 1;
        }
        let r = Boolean2DArray(out);
        proof {
            assert(v@.take(n as int) =~= v@);
            assert(r.values() =~= rows_view(v@));
        }
        Ok(r)
    }

    pub fn new_witness(cs: &mut ConstraintSystem, n: usize, value: Option<&Vec<Vec<bool>>>) -> (r: Result<Boolean2DArray, SynthesisError>)
        ensures
            value is None ==> r == Err::<Boolean2DArray, SynthesisError>(SynthesisError::AssignmentMissing),
            value is Some && !is_square(rows_view(value->0@), n as int) ==> r == Err::<Boolean2DArray, SynthesisError>(SynthesisError::ShapeMismatch),
            value is Some && is_square(rows_view(value->0@), n as int) ==> r is Ok,
            r is Ok ==> r->Ok_0.shape_ok(n as int) && r->Ok_0.values() == rows_view(value->0@),
            r is Ok ==> r->Ok_0.flat_wires() == alloc_wires(old(cs).gates@.len() as int, flat_values(value->0@), AllocationMode::Witness),
            r is Ok ==> final(cs).gates@ == old(cs).gates@ + alloc_gates(flat_values(value->0@), AllocationMode::Witness),
            final(cs).satisfied == old(cs).satisfied,
            r is Err ==> *final(cs) == *old(cs),
    {
        Boolean2DArray::new_variable(cs, n, value, AllocationMode::Witness)
    }
}

/// Whether a stack holds `m` tables of `n` rows of `n` entries.
pub open spec fn is_stack(v: Seq<Seq<Seq<bool>>>, m: int, n: int) -> bool {
    v.len() == m && forall|k: int| 0 <= k < m ==> is_square(#[trigger] v[k], n)
}

impl Boolean3DArray {
    pub open spec fn values(&self) -> Seq<Seq<Seq<bool>>> {
        self.0@.map_values(|t: Vec<Vec<BoolWire>>| t@.map_values(|row: Vec<BoolWire>| row@.map_values(|w: BoolWire| w.value())))
    }

    /// The wires table by table, each row-major.
    pub open spec fn flat_wires(&self) -> Seq<BoolWire> {
        self.0@.map_values(|t: Vec<Vec<BoolWire>>| wire_rows(t@).flatten_alt()).flatten_alt()
    }

    pub open spec fn shape_ok(&self, m: int, n: int) -> bool {
        &&& self.0@.len() == m
        &&& forall|k: int| 0 <= k < m ==> (#[trigger] self.0@[k])@.len() == n
        &&& forall|k: int, i: int| 0 <= k < m && 0 <= i < n ==> (#[trigger] self.0@[k]@[i])@.len() == n
    }

    /// Allocates `m` tables of `n` by `n` entries, one table after the
    /// other; fails where no value is supplied or where it has another
    /// shape.
    pub fn new_variable(cs: &mut ConstraintSystem, m: usize, n: usize, value: Option<&Vec<Vec<Vec<bool>>>>, mode: AllocationMode) -> (r: Result<Boolean3DArray, SynthesisError>)
        ensures
            value is None ==> r == Err::<Boolean3DArray, SynthesisError>(SynthesisError::AssignmentMissing),
            value is Some && !is_stack(stack_view(value->0@), m as int, n as int) ==> r == Err::<Boolean3DArray, SynthesisError>(SynthesisError::ShapeMismatch),
            value is Some && is_stack(stack_view(value->0@), m as int, n as int) ==> r is Ok,
            r is Ok ==> r->Ok_0.shape_ok(m as int, n as int) && r->Ok_0.values() == stack_view(value->0@),
            r is Ok ==> r->Ok_0.flat_wires() == alloc_wires(old(cs).gates@.len() as int, flat_stack_values(value->0@), mode),
            r is Ok ==> final(cs).gates@ == old(cs).gates@ + alloc_gates(flat_stack_values(value->0@), mode),
            final(cs).satisfied == old(cs).satisfied,
            r is Err ==> *final(cs) == *old(cs),
    {
        let ghost start = cs.gates@.len() as int;
        let ghost g0 = cs.gates@;
        let v = match value {
            None => return Err(SynthesisError::AssignmentMissing),
            Some(v) => v,
        };
        if v.len() != m {
            return Err(SynthesisError::ShapeMismatch);
        }
        let mut k: usize = 0;
        while k < m
            invariant
                value == Some(v),
                v@.len() == m,
                k <= m,
                forall|q: int| 0 <= q < k ==> is_square(#[trigger] rows_view(v@[q]@), n as int),
            decreases m - k,
        {
            if v[k].len() != n || !rows_have_len(&v[k], n) {
                proof {
                    assert(stack_view(v@)[k as int] == rows_view(v@[k as int]@));
                    if is_square(rows_view(v@[k as int]@), n as int) {
                        assert forall|i: int| 0 <= i < v@[k as int]@.len() implies (#[trigger] v@[k as int]@[i])@.len() == n by {
                            assert(rows_view(v@[k as int]@)[i] == v@[k as int]@[i]@);
                        }
                    }
                }
                return Err(SynthesisError::ShapeMismatch);
            }
            proof {
                assert forall|i: int| 0 <= i < n implies (#[trigger] rows_view(v@[k as int]@)[i]).len() == n by {
                    assert(rows_view(v@[k as int]@)[i] == v@[k as int]@[i]@);
                }
            }
            k = k + 1;
        }
        proof {
            assert forall|q: int| 0 <= q < m implies is_square(#[trigger] stack_view(v@)[q], n as int) by {
                assert(stack_view(v@)[q] == rows_view(v@[q]@));
            }
        }
        let mut out: Vec<Vec<Vec<BoolWire>>> = Vec::new();
        let mut k: usize = 0;
        proof {
            assert(v@.take(0).map_values(|t: Vec<Vec<bool>>| flat_values(t@)) =~= Seq::<Seq<bool>>::empty());
            assert(out@.map_values(|t: Vec<Vec<BoolWire>>| wire_rows(t@).flatten_alt()) =~= Seq::<Seq<BoolWire>>::empty());
            assert(alloc_wires(start, Seq::<bool>::empty(), mode) =~= Seq::<BoolWire>::empty());
            assert(cs.gates@ =~= g0 + alloc_gates(flat_stack_values(v@.take(0)), mode));
        }
        while k < m
            invariant
                value == Some(v),
                v@.len() == m,
                forall|q: int| 0 <= q < m ==> is_square(#[trigger] rows_view(v@[q]@), n as int),
                k <= m,
                out@.len() == k,
                forall|q: int| 0 <= q < k ==> (#[trigger] out@[q])@.len() == n,
                forall|q: int, i: int| 0 <= q < k && 0 <= i < n ==> (#[trigger] out@[q]@[i])@.len() == n,
                forall|q: int| 0 <= q < k ==> (#[trigger] out@[q])@.map_values(|row: Vec<BoolWire>| row@.map_values(|w: BoolWire| w.value())) == rows_view(v@[q]@),
                start == g0.len(),
                out@.map_values(|t: Vec<Vec<BoolWire>>| wire_rows(t@).flatten_alt()).flatten_alt() == alloc_wires(start, flat_stack_values(v@.take(k as int)), mode),
                cs.gates@ == g0 + alloc_gates(flat_stack_values(v@.take(k as int)), mode),
                cs.satisfied == old(cs).satisfied,
            decreases m - k,
        {
            let ghost prev = out@;
            let ghost pv = flat_stack_values(v@.take(k as int));
            let ghost cur = cs.gates@.len() as int;
            let t = Boolean2DArray::new_variable(cs, n, Some(&v[k]), mode);
            match t {
                Ok(t) => {
                    out.push(t.0);
                    proof {
                        lemma_alloc_split(start, pv, flat_values(v@[k as int]@), mode);
                        assert(alloc_gates(pv, mode).len() == alloc_count(pv.len() as int, mode));
                        assert(cur == start + alloc_count(pv.len() as int, mode));
                        if mode == AllocationMode::Constant {
                            assert(alloc_wires(cur, flat_values(v@[k as int]@), mode) =~= alloc_wires(start + alloc_count(pv.len() as int, mode), flat_values(v@[k as int]@), mode));
                        }
                        assert(out@.map_values(|t: Vec<Vec<BoolWire>>| wire_rows(t@).flatten_alt()).drop_last() =~= prev.map_values(|t: Vec<Vec<BoolWire>>| wire_rows(t@).flatten_alt()));
                        assert(v@.take(k as int + 1).map_values(|t: Vec<Vec<bool>>| flat_values(t@)).drop_last() =~= v@.take(k as int).map_values(|t: Vec<Vec<bool>>| flat_values(t@)));
                        assert(flat_stack_values(v@.take(k as int + 1)) == pv + flat_values(v@[k as int]@));
                        assert(cs.gates@ =~= g0 + alloc_gates(flat_stack_values(v@.take(k as int + 1)), mode));
                    }
                },
                Err(_) => {
                    return Err(SynthesisError::ShapeMismatch);
                },
            }
            k = k + 1;
        }
        let r = Boolean3DArray(out);
        proof {
            assert(v@.take(m as int) =~= v@);
            assert(r.values() =~= stack_view(v@));
        }
        Ok(r)
    }
}

} // verus!
