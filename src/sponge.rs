//! The Poseidon sponge over field wires: the in-circuit recomputation of
//! the commitment. Over constant wires every operation folds and no gate is
//! emitted; over variables each step emits the gates that let a verifier
//! audit it. The commitment outside any circuit is computed by
//! ark-crypto-primitives' sponge (see `hashing`).
use vstd::prelude::*;
use crate::circuit::{BoolWire, ConstraintSystem, FieldWire, keeps};
use crate::field::{Fe, fadd, fmul, fpow};

verus! {

/// The fixed parameters of a Poseidon permutation and sponge.
pub struct PoseidonParameters {
    pub full_rounds: usize,
    pub partial_rounds: usize,
    /// The S-box exponent.
    pub alpha: u64,
    /// Round constants, one row of `rate + capacity` per round.
    pub ark: Vec<Vec<Fe>>,
    /// The mixing matrix, `rate + capacity` square.
    pub mds: Vec<Vec<Fe>>,
    pub rate: usize,
    pub capacity: usize,
}

impl PoseidonParameters {
    pub open spec fn width(&self) -> int {
        self.rate + self.capacity
    }

    pub open spec fn num_rounds(&self) -> int {
        self.full_rounds + self.partial_rounds
    }

    pub open spec fn ark_val(&self, r: int, i: int) -> int {
        self.ark@[r]@[i].val()
    }

    pub open spec fn mds_val(&self, i: int, j: int) -> int {
        self.mds@[i]@[j].val()
    }

    /// The tables have the dimensions the rounds need and hold field
    /// elements.
    pub open spec fn wf(&self) -> bool {
        &&& self.rate >= 1
        &&& self.width() <= usize::MAX
        &&& self.ark@.len() == self.num_rounds()
        &&& forall|r: int| 0 <= r < self.num_rounds() ==> (#[trigger] self.ark@[r])@.len() == self.width()
        &&& forall|r: int, i: int| 0 <= r < self.num_rounds() && 0 <= i < self.width() ==> (#[trigger] self.ark@[r]@[i]).wf()
        &&& self.mds@.len() == self.width()
        &&& forall|i: int| 0 <= i < self.width() ==> (#[trigger] self.mds@[i])@.len() == self.width()
        &&& forall|i: int, j: int| 0 <= i < self.width() && 0 <= j < self.width() ==> (#[trigger] self.mds@[i]@[j]).wf()
    }

    /// Whether round `r` applies the S-box to every slot.
    pub open spec fn is_full_round(&self, r: int) -> bool {
        r < self.full_rounds / 2 || r >= self.full_rounds / 2 + self.partial_rounds
    }
}

/// The values carried by a sequence of field wires.
pub open spec fn wire_values(s: Seq<FieldWire>) -> Seq<int> {
    s.map_values(|w: FieldWire| w.value())
}

pub open spec fn all_wf(s: Seq<FieldWire>) -> bool {
    forall|i: int| 0 <= i < s.len() ==> (#[trigger] s[i]).wf()
}

/// Adds the round constants of round `r` to every slot.
pub open spec fn add_round_constants(p: PoseidonParameters, s: Seq<int>, r: int) -> Seq<int> {
    Seq::new(s.len(), |i: int| fadd(s[i], p.ark_val(r, i)))
}

/// Raises every slot, or only the first one, to the S-box exponent.
pub open spec fn sbox(p: PoseidonParameters, s: Seq<int>, full: bool) -> Seq<int> {
    Seq::new(s.len(), |i: int| if full || i == 0 { fpow(s[i], p.alpha as nat) } else { s[i] })
}

/// The sum of the first `k` products of the state with row `i` of the
/// mixing matrix.
pub open spec fn mds_dot(p: PoseidonParameters, i: int, s: Seq<int>, k: int) -> int
    decreases k,
{
    if k <= 0 {
        0
    } else {
        fadd(mds_dot(p, i, s, k - 1), fmul(s[k - 1], p.mds_val(i, k - 1)))
    }
}

/// Multiplies the state by the mixing matrix.
pub open spec fn mix(p: PoseidonParameters, s: Seq<int>) -> Seq<int> {
    Seq::new(s.len(), |i: int| mds_dot(p, i, s, s.len() as int))
}

/// Round `r` of the permutation.
pub open spec fn round(p: PoseidonParameters, s: Seq<int>, r: int) -> Seq<int> {
    mix(p, sbox(p, add_round_constants(p, s, r), p.is_full_round(r)))
}

/// The first `r` rounds.
pub open spec fn rounds(p: PoseidonParameters, s: Seq<int>, r: nat) -> Seq<int>
    decreases r,
{
    if r == 0 {
        s
    } else {
        round(p, rounds(p, s, (r - 1) as nat), r - 1)
    }
}

/// The Poseidon permutation: half the full rounds, the partial rounds,
/// then the other half of the full rounds, with constants indexed by the
/// round across all three phases.
pub open spec fn permutation(p: PoseidonParameters, s: Seq<int>) -> Seq<int> {
    rounds(p, s, p.num_rounds() as nat)
}

fn apply_ark(p: &PoseidonParameters, cs: &mut ConstraintSystem, state: &mut Vec<FieldWire>, r: usize)
    requires
        p.wf(),
        r < p.num_rounds(),
        old(state)@.len() == p.width(),
        all_wf(old(state)@),
    ensures
        final(state)@.len() == p.width(),
        all_wf(final(state)@),
        wire_values(final(state)@) == add_round_constants(*p, wire_values(old(state)@), r as int),
        final(cs).satisfied == old(cs).satisfied,
        keeps(old(cs).gates@, final(cs).gates@),
{
    let ghost s0 = wire_values(state@);
    let w = state.len();
    let mut i: usize = 0;
    while i < w
        invariant
            p.wf(),
            r < p.num_rounds(),
            w == p.width(),
            state@.len() == w,
            s0.len() == w,
            all_wf(state@),
            i <= w,
            forall|k: int| 0 <= k < i ==> (#[trigger] state@[k]).value() == fadd(s0[k], p.ark_val(r as int, k)),
            forall|k: int| i <= k < w ==> (#[trigger] state@[k]).value() == s0[k],
            cs.satisfied == old(cs).satisfied,
            keeps(old(cs).gates@, cs.gates@),
        decreases w - i,
    {
        let c = FieldWire::Constant(p.ark[r][i]);
        let v = state[i].add(cs, &c);
        state.set(i, v);
        i = i + 1;
    }
    proof {
        assert(wire_values(state@) =~= add_round_constants(*p, s0, r as int));
    }
}

fn apply_s_box(p: &PoseidonParameters, cs: &mut ConstraintSystem, state: &mut Vec<FieldWire>, full: bool)
    requires
        p.wf(),
        old(state)@.len() == p.width(),
        all_wf(old(state)@),
    ensures
        final(state)@.len() == p.width(),
        all_wf(final(state)@),
        wire_values(final(state)@) == sbox(*p, wire_values(old(state)@), full),
        final(cs).satisfied == old(cs).satisfied,
        keeps(old(cs).gates@, final(cs).gates@),
{
    let ghost s0 = wire_values(state@);
    let w = state.len();
    let mut i: usize = 0;
    while i < w
        invariant
            p.wf(),
            w == p.width(),
            state@.len() == w,
            s0.len() == w,
            all_wf(state@),
            i <= w,
            forall|k: int| 0 <= k < i ==> (#[trigger] state@[k]).value() == sbox(*p, s0, full)[k],
            forall|k: int| i <= k < w ==> (#[trigger] state@[k]).value() == s0[k],
            cs.satisfied == old(cs).satisfied,
            keeps(old(cs).gates@, cs.gates@),
        decreases w - i,
    {
        if full || i == 0 {
            let v = state[i].pow_by_constant(cs, p.alpha);
            state.set(i, v);
        }
        i = i + 1;
    }
    proof {
        assert(wire_values(state@) =~= sbox(*p, s0, full));
    }
}

fn apply_mds(p: &PoseidonParameters, cs: &mut ConstraintSystem, state: &mut Vec<FieldWire>)
    requires
        p.wf(),
        old(state)@.len() == p.width(),
        all_wf(old(state)@),
    ensures
        final(state)@.len() == p.width(),
        all_wf(final(state)@),
        wire_values(final(state)@) == mix(*p, wire_values(old(state)@)),
        final(cs).satisfied == old(cs).satisfied,
        keeps(old(cs).gates@, final(cs).gates@),
{
    let ghost s0 = wire_values(state@);
    let w = state.len();
    let mut new_state: Vec<FieldWire> = Vec::new();
    let mut i: usize = 0;
    while i < w
        invariant
            p.wf(),
            w == p.width(),
            state@.len() == w,
            s0 == wire_values(state@),
            all_wf(state@),
            i <= w,
            new_state@.len() == i,
            all_wf(new_state@),
            forall|k: int| 0 <= k < i ==> (#[trigger] new_state@[k]).value() == mds_dot(*p, k, s0, w as int),
            cs.satisfied == old(cs).satisfied,
            keeps(old(cs).gates@, cs.gates@),
        decreases w - i,
    {
        let mut cur = FieldWire::zero();
        let mut j: usize = 0;
        while j < w
            invariant
                p.wf(),
                w == p.width(),
                state@.len() == w,
                s0 == wire_values(state@),
                all_wf(state@),
                i < w,
                j <= w,
                cur.wf(),
                cur.value() == mds_dot(*p, i as int, s0, j as int),
                cs.satisfied == old(cs).satisfied,
                keeps(old(cs).gates@, cs.gates@),
            decreases w - j,
        {
            let m = FieldWire::Constant(p.mds[i][j]);
            let term = state[j].mul(cs, &m);
            cur = cur.add(cs, &term);
            j = j + 1;
        }
        new_state.push(cur);
        i = i + 1;
    }
    *state = new_state;
    proof {
        assert(wire_values(state@) =~= mix(*p, s0));
    }
}

/// Applies the permutation to a state of `rate + capacity` wires.
fn permute_state(p: &PoseidonParameters, cs: &mut ConstraintSystem, state: &mut Vec<FieldWire>)
    requires
        p.wf(),
        old(state)@.len() == p.width(),
        all_wf(old(state)@),
    ensures
        final(state)@.len() == p.width(),
        all_wf(final(state)@),
        wire_values(final(state)@) == permutation(*p, wire_values(old(state)@)),
        final(cs).satisfied == old(cs).satisfied,
        keeps(old(cs).gates@, final(cs).gates@),
{
    let ghost s0 = wire_values(state@);
    let total = p.ark.len();
    let half = p.full_rounds / 2;
    let mut r: usize = 0;
    while r < total
        invariant
            p.wf(),
            total == p.num_rounds(),
            half == p.full_rounds / 2,
            state@.len() == p.width(),
            all_wf(state@),
            r <= total,
            wire_values(state@) == rounds(*p, s0, r as nat),
            cs.satisfied == old(cs).satisfied,
            keeps(old(cs).gates@, cs.gates@),
        decreases total - r,
    {
        let full = r < half || r - half >= p.partial_rounds;
        apply_ark(p, cs, state, r);
        apply_s_box(p, cs, state, full);
        apply_mds(p, cs, state);
        r = r + 1;
    }
}

/// The field elements a bit is absorbed as.
pub open spec fn bit_as_field(b: bool) -> int {
    if b { 1 } else { 0 }
}

/// Values that a sponge can absorb, as a sequence of field elements.
pub trait AbsorbGadget {
    /// Whether the value can be turned into field elements.
    spec fn absorb_wf(&self) -> bool;

    /// The elements the value is absorbed as.
    spec fn sponge_elements(&self) -> Seq<int>;

    fn to_sponge_field_elements(&self, cs: &mut ConstraintSystem) -> (r: Vec<FieldWire>)
        requires
            self.absorb_wf(),
        ensures
            all_wf(r@),
            wire_values(r@) == self.sponge_elements(),
            final(cs).satisfied == old(cs).satisfied,
            keeps(old(cs).gates@, final(cs).gates@),
    ;
}

impl AbsorbGadget for FieldWire {
    open spec fn absorb_wf(&self) -> bool {
        self.wf()
    }

    open spec fn sponge_elements(&self) -> Seq<int> {
        seq![self.value()]
    }

    fn to_sponge_field_elements(&self, cs: &mut ConstraintSystem) -> (r: Vec<FieldWire>) {
        let mut out: Vec<FieldWire> = Vec::new();
        out.push(*self);
        proof {
            assert(wire_values(out@) =~= seq![self.value()]);
        }
        out
    }
}

impl AbsorbGadget for BoolWire {
    open spec fn absorb_wf(&self) -> bool {
        true
    }

    open spec fn sponge_elements(&self) -> Seq<int> {
        seq![bit_as_field(self.value())]
    }

    fn to_sponge_field_elements(&self, cs: &mut ConstraintSystem) -> (r: Vec<FieldWire>) {
        let f = FieldWire::from_bool(cs, self);
        let mut out: Vec<FieldWire> = Vec::new();
        out.push(f);
        proof {
            assert(wire_values(out@) =~= seq![bit_as_field(self.value())]);
        }
        out
    }
}

impl AbsorbGadget for Vec<FieldWire> {
    open spec fn absorb_wf(&self) -> bool {
        all_wf(self@)
    }

    open spec fn sponge_elements(&self) -> Seq<int> {
        wire_values(self@)
    }

    fn to_sponge_field_elements(&self, cs: &mut ConstraintSystem) -> (r: Vec<FieldWire>) {
        let mut out: Vec<FieldWire> = Vec::new();
        let mut k: usize = 0;
        while k < self.len()
            invariant
                all_wf(self@),
                k <= self@.len(),
                out@ == self@.take(k as int),
            decreases self@.len() - k,
        {
            out.push(self[k]);
            proof {
                assert(out@ =~= self@.take(k as int + 1));
            }
            k = k + 1;
        }
        proof {
            assert(self@.take(self@.len() as int) =~= self@);
        }
        out
    }
}

impl AbsorbGadget for Vec<BoolWire> {
    open spec fn absorb_wf(&self) -> bool {
        true
    }

    open spec fn sponge_elements(&self) -> Seq<int> {
        self@.map_values(|b: BoolWire| bit_as_field(b.value()))
    }

    fn to_sponge_field_elements(&self, cs: &mut ConstraintSystem) -> (r: Vec<FieldWire>) {
        let mut out: Vec<FieldWire> = Vec::new();
        let mut k: usize = 0;
        while k < self.len()
            invariant
                k <= self@.len(),
                out@.len() == k,
                all_wf(out@),
                forall|q: int| 0 <= q < k ==> (#[trigger] out@[q]).value() == bit_as_field(self@[q].value()),
                cs.satisfied == old(cs).satisfied,
                keeps(old(cs).gates@, cs.gates@),
            decreases self@.len() - k,
        {
            let f = FieldWire::from_bool(cs, &self[k]);
            out.push(f);
            k = k + 1;
        }
        proof {
            assert(wire_values(out@) =~= self@.map_values(|b: BoolWire| bit_as_field(b.value())));
        }
        out
    }
}

/// Where the sponge stands: absorbing, with the next rate slot to add
/// into, or squeezing, with the next rate slot to read.
#[derive(Clone, Copy, Debug, PartialEq, Eq, Structural)]
pub enum DuplexSpongeMode {
    Absorbing { next_absorb_index: usize },
    Squeezing { next_squeeze_index: usize },
}

/// Adds the first `k` elements into the rate slots from `idx` on.
pub open spec fn add_block(p: PoseidonParameters, s: Seq<int>, idx: int, elems: Seq<int>, k: int) -> Seq<int> {
    Seq::new(s.len(), |t: int| if p.capacity + idx <= t < p.capacity + idx + k { fadd(s[t], elems[t - p.capacity - idx]) } else { s[t] })
}

/// Absorbs `elems` from rate slot `idx` on, permuting whenever the rate
/// slots fill before the input is used up.
pub open spec fn absorb_from(p: PoseidonParameters, s: Seq<int>, idx: int, elems: Seq<int>) -> (Seq<int>, DuplexSpongeMode)
    decreases elems.len(), (if idx == p.rate { 1int } else { 0int }),
{
    if idx + elems.len() <= p.rate {
        (add_block(p, s, idx, elems, elems.len() as int), DuplexSpongeMode::Absorbing { next_absorb_index: (idx + elems.len()) as usize })
    } else if 0 <= idx <= p.rate && p.rate > 0 {
        let k = p.rate - idx;
        absorb_from(p, permutation(p, add_block(p, s, idx, elems, k)), 0, elems.skip(k))
    } else {
        (s, DuplexSpongeMode::Absorbing { next_absorb_index: 0 })
    }
}

/// The state and mode after absorbing `elems`.
pub open spec fn absorb_spec(p: PoseidonParameters, s: Seq<int>, mode: DuplexSpongeMode, elems: Seq<int>) -> (Seq<int>, DuplexSpongeMode) {
    if elems.len() == 0 {
        (s, mode)
    } else {
        match mode {
            DuplexSpongeMode::Absorbing { next_absorb_index } => if next_absorb_index == p.rate {
                absorb_from(p, permutation(p, s), 0, elems)
            } else {
                absorb_from(p, s, next_absorb_index as int, elems)
            },
            DuplexSpongeMode::Squeezing { .. } => absorb_from(p, permutation(p, s), 0, elems),
        }
    }
}

/// Reads `k` elements from rate slot `idx` on, permuting between rate
/// blocks; the state, mode and elements that result.
pub open spec fn squeeze_from(p: PoseidonParameters, s: Seq<int>, idx: int, k: int) -> (Seq<int>, DuplexSpongeMode, Seq<int>)
    decreases k,
{
    if idx + k <= p.rate {
        (s, DuplexSpongeMode::Squeezing { next_squeeze_index: (idx + k) as usize }, s.subrange(p.capacity + idx, p.capacity + idx + k))
    } else if 0 <= idx < p.rate {
        let n = p.rate - idx;
        let next = if k != p.rate { permutation(p, s) } else { s };
        let rest = squeeze_from(p, next, 0, k - n);
        (rest.0, rest.1, s.subrange(p.capacity + idx, p.capacity + p.rate) + rest.2)
    } else {
        (s, DuplexSpongeMode::Squeezing { next_squeeze_index: 0 }, Seq::empty())
    }
}

/// The state, mode and elements after squeezing `k` elements.
pub open spec fn squeeze_spec(p: PoseidonParameters, s: Seq<int>, mode: DuplexSpongeMode, k: int) -> (Seq<int>, DuplexSpongeMode, Seq<int>) {
    match mode {
        DuplexSpongeMode::Absorbing { .. } => squeeze_from(p, permutation(p, s), 0, k),
        DuplexSpongeMode::Squeezing { next_squeeze_index } => if next_squeeze_index == p.rate {
            squeeze_from(p, permutation(p, s), 0, k)
        } else {
            squeeze_from(p, s, next_squeeze_index as int, k)
        },
    }
}

/// The cursor of a mode never passes the rate.
pub open spec fn mode_wf(mode: DuplexSpongeMode, rate: int) -> bool {
    match mode {
        DuplexSpongeMode::Absorbing { next_absorb_index } => next_absorb_index <= rate,
        DuplexSpongeMode::Squeezing { next_squeeze_index } => next_squeeze_index <= rate,
    }
}

/// A Poseidon sponge whose state is a vector of field wires.
pub struct PoseidonSpongeVar {
    pub parameters: PoseidonParameters,
    pub state: Vec<FieldWire>,
    pub mode: DuplexSpongeMode,
}

impl PoseidonSpongeVar {
    pub open spec fn wf(&self) -> bool {
        &&& self.parameters.wf()
        &&& self.state@.len() == self.parameters.width()
        &&& all_wf(self.state@)
        &&& mode_wf(self.mode, self.parameters.rate as int)
    }

    /// The values of the state.
    pub open spec fn values(&self) -> Seq<int> {
        wire_values(self.state@)
    }

    /// A sponge in its initial state: all slots zero, absorbing from the
    /// first rate slot.
    pub fn new(parameters: PoseidonParameters) -> (r: PoseidonSpongeVar)
        requires
            parameters.wf(),
        ensures
            r.wf(),
            r.parameters == parameters,
            r.values() == Seq::new(parameters.width() as nat, |i: int| 0int),
            forall|i: int| 0 <= i < r.state@.len() ==> #[trigger] r.state@[i] == FieldWire::Constant(Fe { limbs: [0u64, 0u64, 0u64, 0u64] }),
            r.mode == (DuplexSpongeMode::Absorbing { next_absorb_index: 0 }),
    {
        let w = parameters.mds.len();
        let mut state: Vec<FieldWire> = Vec::new();
        let mut i: usize = 0;
        while i < w
            invariant
                i <= w,
                state@.len() == i,
                all_wf(state@),
                forall|k: int| 0 <= k < i ==> (#[trigger] state@[k]).value() == 0,
                forall|k: int| 0 <= k < i ==> #[trigger] state@[k] == FieldWire::Constant(Fe { limbs: [0u64, 0u64, 0u64, 0u64] }),
            decreases w - i,
        {
            state.push(FieldWire::zero());
            i = i + 1;
        }
        let r = PoseidonSpongeVar { parameters, state, mode: DuplexSpongeMode::Absorbing { next_absorb_index: 0 } };
        proof {
            assert(r.values() =~= Seq::new(parameters.width() as nat, |i: int| 0int));
        }
        r
    }

    fn permute(&mut self, cs: &mut ConstraintSystem)
        requires
            old(self).wf(),
        ensures
            final(self).wf(),
            final(self).parameters == old(self).parameters,
            final(self).mode == old(self).mode,
            final(self).values() == permutation(old(self).parameters, old(self).values()),
            final(cs).satisfied == old(cs).satisfied,
            keeps(old(cs).gates@, final(cs).gates@),
    {
        permute_state(&self.parameters, cs, &mut self.state);
    }

    fn absorb_internal(&mut self, cs: &mut ConstraintSystem, rate_start_index: usize, elements: &Vec<FieldWire>)
        requires
            old(self).wf(),
            rate_start_index <= old(self).parameters.rate,
            all_wf(elements@),
        ensures
            final(self).wf(),
            final(self).parameters == old(self).parameters,
            (final(self).values(), final(self).mode) == absorb_from(old(self).parameters, old(self).values(), rate_start_index as int, wire_values(elements@)),
            final(cs).satisfied == old(cs).satisfied,
            keeps(old(cs).gates@, final(cs).gates@),
    {
        let ghost goal = absorb_from(self.parameters, self.values(), rate_start_index as int, wire_values(elements@));
        let rate = self.parameters.rate;
        let cap = self.parameters.capacity;
        let n = elements.len();
        let mut idx = rate_start_index;
        let mut pos: usize = 0;
        proof {
            assert(wire_values(elements@).skip(0) =~= wire_values(elements@));
        }
        loop
            invariant
                goal == absorb_from(old(self).parameters, old(self).values(), rate_start_index as int, wire_values(elements@)),
                n == elements@.len(),
                self.wf(),
                self.parameters == old(self).parameters,
                rate == self.parameters.rate,
                cap == self.parameters.capacity,
                all_wf(elements@),
                pos <= elements@.len(),
                idx <= rate,
                absorb_from(self.parameters, self.values(), idx as int, wire_values(elements@).skip(pos as int)) == goal,
                cs.satisfied == old(cs).satisfied,
                keeps(old(cs).gates@, cs.gates@),
            decreases elements@.len() - pos, (if idx == rate { 1int } else { 0int }),
        {
            let ghost s0 = self.values();
            let ghost rest = wire_values(elements@).skip(pos as int);
            let remaining = n - pos;
            let take = if remaining <= rate - idx { remaining } else { rate - idx };
            let mut i: usize = 0;
            while i < take
                invariant
                    self.wf(),
                    self.parameters == old(self).parameters,
                    rate == self.parameters.rate,
                    cap == self.parameters.capacity,
                    all_wf(elements@),
                    n == elements@.len(),
                    pos + take <= n,
                    idx + take <= rate,
                    rest == wire_values(elements@).skip(pos as int),
                    s0.len() == self.parameters.width(),
                    i <= take,
                    forall|t: int| 0 <= t < self.state@.len() ==> (#[trigger] self.state@[t]).value() == (
                        if cap + idx <= t < cap + idx + i { fadd(s0[t], rest[t - cap - idx]) } else { s0[t] }),
                    cs.satisfied == old(cs).satisfied,
                    keeps(old(cs).gates@, cs.gates@),
                decreases take - i,
            {
                let t = cap + idx + i;
                let v = self.state[t].add(cs, &elements[pos + i]);
                self.state.set(t, v);
                i = i + 1;
            }
            proof {
                assert(self.values() =~= add_block(self.parameters, s0, idx as int, rest, take as int));
                assert(rest.len() == remaining);
            }
            if remaining <= rate - idx {
                self.mode = DuplexSpongeMode::Absorbing { next_absorb_index: idx + remaining };
                proof {
                    let p = self.parameters;
                    assert(idx + rest.len() <= p.rate);
                    assert(absorb_from(p, s0, idx as int, rest) == (add_block(p, s0, idx as int, rest, rest.len() as int), DuplexSpongeMode::Absorbing { next_absorb_index: (idx + rest.len()) as usize }));
                    assert(self.values() == add_block(p, s0, idx as int, rest, rest.len() as int));
                    assert(self.mode == DuplexSpongeMode::Absorbing { next_absorb_index: (idx + rest.len()) as usize });
                }
                return;
            }
            self.permute(cs);
            proof {
                assert(rest.skip(take as int) =~= wire_values(elements@).skip(pos + take));
            }
            pos = pos + take;
            idx = 0;
        }
    }

    /// Absorbs a value, as its field elements, into the rate slots.
    pub fn absorb<A: AbsorbGadget>(&mut self, cs: &mut ConstraintSystem, value: &A)
        requires
            old(self).wf(),
            value.absorb_wf(),
        ensures
            final(self).wf(),
            final(self).parameters == old(self).parameters,
            (final(self).values(), final(self).mode) == absorb_spec(old(self).parameters, old(self).values(), old(self).mode, value.sponge_elements()),
            final(cs).satisfied == old(cs).satisfied,
            keeps(old(cs).gates@, final(cs).gates@),
    {
        let input = value.to_sponge_field_elements(cs);
        let input = &input;
        if input.len() == 0 {
            return;
        }
        match self.mode {
            DuplexSpongeMode::Absorbing { next_absorb_index } => {
                let mut absorb_index = next_absorb_index;
                if absorb_index == self.parameters.rate {
                    self.permute(cs);
                    absorb_index = 0;
                }
                self.absorb_internal(cs, absorb_index, input);
            },
            DuplexSpongeMode::Squeezing { .. } => {
                self.permute(cs);
                self.absorb_internal(cs, 0, input);
            },
        }
    }

    fn squeeze_internal(&mut self, cs: &mut ConstraintSystem, rate_start_index: usize, num: usize) -> (r: Vec<FieldWire>)
        requires
            old(self).wf(),
            rate_start_index < old(self).parameters.rate || (rate_start_index == old(self).parameters.rate && num == 0),
        ensures
            final(self).wf(),
            final(self).parameters == old(self).parameters,
            (final(self).values(), final(self).mode, wire_values(r@)) == squeeze_from(old(self).parameters, old(self).values(), rate_start_index as int, num as int),
            all_wf(r@),
            r@.len() == num,
            final(cs).satisfied == old(cs).satisfied,
            keeps(old(cs).gates@, final(cs).gates@),
    {
        let ghost goal = squeeze_from(self.parameters, self.values(), rate_start_index as int, num as int);
        let rate = self.parameters.rate;
        let cap = self.parameters.capacity;
        let mut idx = rate_start_index;
        let mut remaining = num;
        let mut out: Vec<FieldWire> = Vec::new();
        loop
            invariant
                goal == squeeze_from(old(self).parameters, old(self).values(), rate_start_index as int, num as int),
                self.wf(),
                self.parameters == old(self).parameters,
                rate == self.parameters.rate,
                cap == self.parameters.capacity,
                idx < rate || (idx == rate && remaining == 0),
                all_wf(out@),
                out@.len() + remaining == num,
                ({
                    let rest = squeeze_from(self.parameters, self.values(), idx as int, remaining as int);
                    (rest.0, rest.1, wire_values(out@) + rest.2) == goal
                }),
                cs.satisfied == old(cs).satisfied,
                keeps(old(cs).gates@, cs.gates@),
            decreases remaining,
        {
            let ghost s0 = self.values();
            let ghost out0 = wire_values(out@);
            let take = if remaining <= rate - idx { remaining } else { rate - idx };
            let mut i: usize = 0;
            while i < take
                invariant
                    self.wf(),
                    s0 == self.values(),
                    cap == self.parameters.capacity,
                    idx + take <= rate,
                    rate == self.parameters.rate,
                    i <= take,
                    all_wf(out@),
                    out@.len() == out0.len() + i,
                    out0.len() + remaining == num,
                    take <= remaining,
                    wire_values(out@) == out0 + s0.subrange(cap + idx, cap + idx + i),
                decreases take - i,
            {
                let w = self.state[cap + idx + i];
                proof {
                    assert(w.value() == s0[cap + idx + i]);
                }
                let ghost prev = out@;
                out.push(w);
                proof {
                    assert(wire_values(out@) =~= wire_values(prev).push(w.value()));
                }
                proof {
                    assert(wire_values(out@) =~= out0 + s0.subrange(cap + idx, cap + idx + i + 1));
                }
                i = i + 1;
            }
            if remaining <= rate - idx {
                self.mode = DuplexSpongeMode::Squeezing { next_squeeze_index: idx + remaining };
                proof {
                    let p = self.parameters;
                    assert(squeeze_from(p, s0, idx as int, remaining as int) == (s0, DuplexSpongeMode::Squeezing { next_squeeze_index: (idx + remaining) as usize }, s0.subrange(cap + idx, cap + idx + remaining)));
                    assert(self.values() == s0);
                }
                return out;
            }
            let ghost p = self.parameters;
            let ghost next = if remaining != rate { permutation(p, s0) } else { s0 };
            if remaining != rate {
                self.permute(cs);
            }
            proof {
                let rest = squeeze_from(p, next, 0, remaining - take);
                assert(out0 + s0.subrange(cap + idx, cap + rate) + rest.2 =~= out0 + (s0.subrange(cap + idx, cap + rate) + rest.2));
            }
            remaining = remaining - take;
            idx = 0;
        }
    }

    /// Squeezes `num` field elements out of the sponge.
    pub fn squeeze_field_elements(&mut self, cs: &mut ConstraintSystem, num: usize) -> (r: Vec<FieldWire>)
        requires
            old(self).wf(),
        ensures
            final(self).wf(),
            final(self).parameters == old(self).parameters,
            (final(self).values(), final(self).mode, wire_values(r@)) == squeeze_spec(old(self).parameters, old(self).values(), old(self).mode, num as int),
            all_wf(r@),
            r@.len() == num,
            final(cs).satisfied == old(cs).satisfied,
            keeps(old(cs).gates@, final(cs).gates@),
    {
        match self.mode {
            DuplexSpongeMode::Absorbing { .. } => {
                self.permute(cs);
                self.squeeze_internal(cs, 0, num)
            },
            DuplexSpongeMode::Squeezing { next_squeeze_index } => {
                let mut squeeze_index = next_squeeze_index;
                if squeeze_index == self.parameters.rate {
                    self.permute(cs);
                    squeeze_index = 0;
                }
                self.squeeze_internal(cs, squeeze_index, num)
            },
        }
    }
}

} // verus!
