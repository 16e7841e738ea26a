//! The commitment to an adjacency matrix: the matrix is read row by row,
//! each entry absorbed as the field element 0 or 1, and one field element
//! is squeezed out.
use vstd::prelude::*;
use ark_crypto_primitives::sponge::poseidon::{PoseidonConfig, PoseidonSponge};
use ark_crypto_primitives::sponge::{CryptographicSponge, FieldBasedCryptographicSponge};
use ark_ff::{BigInt, PrimeField};
use crate::arrays::{Boolean2DArray, wire_rows};
use crate::circuit::{BoolWire, ConstraintSystem, FieldWire, keeps};
use crate::cmp::wire_values;
use crate::field::Fe;
use crate::sponge::{
    AbsorbGadget, DuplexSpongeMode, PoseidonParameters, PoseidonSpongeVar, absorb_spec, squeeze_spec, bit_as_field,
};

verus! {

/// The entries of a table in row-major order.
pub open spec fn flatten(m: Seq<Seq<bool>>) -> Seq<bool> {
    m.flatten_alt()
}

/// The field elements 0 and 1 that bits are absorbed as.
pub open spec fn bits_as_field(bits: Seq<bool>) -> Seq<int> {
    bits.map_values(|b: bool| bit_as_field(b))
}

/// The element squeezed after absorbing `input` into a fresh sponge.
pub open spec fn sponge_hash(p: PoseidonParameters, input: Seq<int>) -> int {
    let fresh = Seq::new(p.width() as nat, |i: int| 0int);
    let absorbed = absorb_spec(p, fresh, DuplexSpongeMode::Absorbing { next_absorb_index: 0 }, input);
    squeeze_spec(p, absorbed.0, absorbed.1, 1).2[0]
}

/// The commitment to a table of booleans.
pub open spec fn commitment(p: PoseidonParameters, m: Seq<Seq<bool>>) -> int {
    sponge_hash(p, bits_as_field(flatten(m)))
}

/// The values of a table of field elements.
pub open spec fn table_values(t: Seq<Vec<Fe>>) -> Seq<Seq<int>> {
    t.map_values(|row: Vec<Fe>| row@.map_values(|x: Fe| x.val()))
}

/// What ark-crypto-primitives' `PoseidonSponge` squeezes first after
/// absorbing `input`, with the given parameters.
pub uninterp spec fn poseidon_sponge_output(full_rounds: nat, partial_rounds: nat, alpha: nat, ark: Seq<Seq<int>>, mds: Seq<Seq<int>>, rate: nat, capacity: nat, input: Seq<bool>) -> int;

/// The native commitment with the given parameters.
pub open spec fn native_commitment(p: PoseidonParameters, input: Seq<bool>) -> int {
    poseidon_sponge_output(p.full_rounds as nat, p.partial_rounds as nat, p.alpha as nat, table_values(p.ark@), table_values(p.mds@), p.rate as nat, p.capacity as nat, input)
}

/// Relies on ark-crypto-primitives' `PoseidonSponge<Fr>`: `new` from a
/// `PoseidonConfig` with these tables, `absorb` of the bits (each the
/// element 0 or 1), then the first of `squeeze_native_field_elements(1)`.
/// The output is a field element, in canonical form by `into_bigint`.
#[verifier::external_body]
fn poseidon_sponge_squeeze(p: &PoseidonParameters, input: &Vec<bool>) -> (r: Fe)
    requires
        p.wf(),
    ensures
        r.wf(),
        r.val() == poseidon_sponge_output(p.full_rounds as nat, p.partial_rounds as nat, p.alpha as nat, table_values(p.ark@), table_values(p.mds@), p.rate as nat, p.capacity as nat, input@),
{
    let to_fr = |x: &Fe| ark_bls12_381::Fr::from_bigint(BigInt::new(x.limbs)).unwrap();
    let table = |t: &Vec<Vec<Fe>>| -> Vec<Vec<ark_bls12_381::Fr>> { t.iter().map(|row| row.iter().map(to_fr).collect()).collect() };
    let config = PoseidonConfig::new(p.full_rounds, p.partial_rounds, p.alpha, table(&p.mds), table(&p.ark), p.rate, p.capacity);
    let mut sponge = PoseidonSponge::<ark_bls12_381::Fr>::new(&config);
    sponge.absorb(input);
    let out = sponge.squeeze_native_field_elements(1);
    Fe { limbs: out[0].into_bigint().0 }
}

/// The wires of a square table in row-major order.
pub fn matrix_flattener_var(adj: &Boolean2DArray) -> (r: Vec<BoolWire>)
    ensures
        r@ == adj.flat_wires(),
        wire_values(r@) == flatten(adj.values()),
{
    let ghost m = adj.values();
    let mut out: Vec<BoolWire> = Vec::new();
    let mut i: usize = 0;
    while i < adj.0.len()
        invariant
            m == adj.values(),
            i <= adj.0@.len(),
            wire_values(out@) == m.take(i as int).flatten_alt(),
            out@ == wire_rows(adj.0@).take(i as int).flatten_alt(),
        decreases adj.0@.len() - i,
    {
        let ghost before = wire_values(out@);
        let ghost before_w = out@;
        let row = &adj.0[i];
        let mut j: usize = 0;
        while j < row.len()
            invariant
                i < adj.0@.len(),
                row == adj.0@[i as int],
                j <= row@.len(),
                wire_values(out@) == before + wire_values(row@).take(j as int),
                out@ == before_w + row@.take(j as int),
            decreases row@.len() - j,
        {
            let ghost prev = out@;
            let w = row[j];
            out.push(w);
            proof {
                assert(wire_values(out@) =~= wire_values(prev).push(w.value()));
                assert(wire_values(row@).take(j as int + 1) =~= wire_values(row@).take(j as int).push(w.value()));
                assert(wire_values(out@) =~= before + wire_values(row@).take(j as int + 1));
                assert(out@ =~= before_w + row@.take(j as int + 1));
            }
            j = j + 1;
        }
        proof {
            assert(m[i as int] == wire_values(row@));
            assert(wire_values(row@).take(row@.len() as int) =~= wire_values(row@));
            assert(m.take(i as int + 1).drop_last() =~= m.take(i as int));
            assert(row@.take(row@.len() as int) =~= row@);
            assert(wire_rows(adj.0@).take(i as int + 1).drop_last() =~= wire_rows(adj.0@).take(i as int));
            assert(wire_rows(adj.0@)[i as int] == row@);
        }
        i = i + 1;
    }
    proof {
        assert(m.take(adj.0@.len() as int) =~= m);
        assert(wire_rows(adj.0@).take(adj.0@.len() as int) =~= wire_rows(adj.0@));
    }
    out
}

/// The values of a square table in row-major order.
pub fn matrix_flattener(adj: &Boolean2DArray) -> (r: Vec<bool>)
    ensures
        r@ == flatten(adj.values()),
{
    let wires = matrix_flattener_var(adj);
    let mut out: Vec<bool> = Vec::new();
    let mut k: usize = 0;
    while k < wires.len()
        invariant
            k <= wires@.len(),
            out@ == wire_values(wires@).take(k as int),
        decreases wires@.len() - k,
    {
        out.push(wires[k].get_value());
        proof {
            assert(out@ =~= wire_values(wires@).take(k as int + 1));
        }
        k = k + 1;
    }
    proof {
        assert(wire_values(wires@).take(wires@.len() as int) =~= wire_values(wires@));
    }
    out
}

/// A fresh sponge that has absorbed the bits, each as the element 0 or 1.
pub fn sponge_create(cs: &mut ConstraintSystem, parameters: PoseidonParameters, input: &Vec<BoolWire>) -> (r: PoseidonSpongeVar)
    requires
        parameters.wf(),
    ensures
        r.wf(),
        r.parameters == parameters,
        (r.values(), r.mode) == absorb_spec(parameters, Seq::new(parameters.width() as nat, |i: int| 0int),
            DuplexSpongeMode::Absorbing { next_absorb_index: 0 }, bits_as_field(wire_values(input@))),
        final(cs).satisfied == old(cs).satisfied,
        keeps(old(cs).gates@, final(cs).gates@),
{
    let mut sponge = PoseidonSpongeVar::new(parameters);
    sponge.absorb(cs, input);
    proof {
        assert(input.sponge_elements() =~= bits_as_field(wire_values(input@)));
    }
    sponge
}

/// Squeezes the one element that serves as the hash.
pub fn squeeze_sponge(cs: &mut ConstraintSystem, sponge: &mut PoseidonSpongeVar) -> (r: Vec<FieldWire>)
    requires
        old(sponge).wf(),
    ensures
        final(sponge).wf(),
        final(sponge).parameters == old(sponge).parameters,
        r@.len() == 1,
        r@[0].wf(),
        r@[0].value() == squeeze_spec(old(sponge).parameters, old(sponge).values(), old(sponge).mode, 1).2[0],
        final(cs).satisfied == old(cs).satisfied,
        keeps(old(cs).gates@, final(cs).gates@),
{
    let out = sponge.squeeze_field_elements(cs, 1);
    proof {
        assert(crate::sponge::wire_values(out@)[0] == out@[0].value());
    }
    out
}

/// Recomputes the commitment to the table inside the circuit.
pub fn hasher_var(cs: &mut ConstraintSystem, adj: &Boolean2DArray, parameters: PoseidonParameters) -> (r: Vec<FieldWire>)
    requires
        parameters.wf(),
    ensures
        r@.len() == 1,
        r@[0].wf(),
        r@[0].value() == commitment(parameters, adj.values()),
        final(cs).satisfied == old(cs).satisfied,
        keeps(old(cs).gates@, final(cs).gates@),
{
    let flattened = matrix_flattener_var(adj);
    let mut sponge = sponge_create(cs, parameters, &flattened);
    squeeze_sponge(cs, &mut sponge)
}

/// Computes the commitment to the table outside any circuit, with
/// ark-crypto-primitives' Poseidon sponge.
pub fn hasher(adj: &Boolean2DArray, parameters: &PoseidonParameters) -> (r: Vec<Fe>)
    requires
        parameters.wf(),
    ensures
        r@.len() == 1,
        r@[0].wf(),
        r@[0].val() == native_commitment(*parameters, flatten(adj.values())),
{
    let bits = matrix_flattener(adj);
    let mut out: Vec<Fe> = Vec::new();
    out.push(poseidon_sponge_squeeze(parameters, &bits));
    out
}

/// Commitments are functions of the parameters and the table: computing
/// one twice on an unchanged table gives the same element, on either path.
pub proof fn lemma_commitment_deterministic(p: PoseidonParameters, m1: Seq<Seq<bool>>, m2: Seq<Seq<bool>>)
    requires
        m1 == m2,
    ensures
        commitment(p, m1) == commitment(p, m2),
        native_commitment(p, flatten(m1)) == native_commitment(p, flatten(m2)),
{
}

} // verus!
