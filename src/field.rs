//! Elements of the scalar field of BLS12-381, held as four little-endian
//! 64-bit limbs of their canonical value. The arithmetic is done by ark-ff.
use vstd::prelude::*;
use vstd::arithmetic::power::pow;
use ark_ff::{BigInt, Field, PrimeField};

verus! {

/// The order of the scalar field of BLS12-381.
pub open spec fn modulus() -> int {
    limbs_value(modulus_limbs())
}

/// The limbs of the field order.
pub open spec fn modulus_limbs() -> [u64; 4] {
    [0xffffffff00000001u64, 0x53bda402fffe5bfeu64, 0x3339d80809a1d805u64, 0x73eda753299d7d48u64]
}

pub open spec fn limb_base() -> int {
    18446744073709551616
}

/// The integer that four little-endian limbs stand for.
pub open spec fn limbs_value(l: [u64; 4]) -> int {
    l[0] as int + limb_base() * (l[1] as int + limb_base() * (l[2] as int + limb_base() * l[3] as int))
}

/// Field addition on canonical values.
pub open spec fn fadd(a: int, b: int) -> int {
    (a + b) % modulus()
}

/// Field multiplication on canonical values.
pub open spec fn fmul(a: int, b: int) -> int {
    (a * b) % modulus()
}

/// Field exponentiation on canonical values.
pub open spec fn fpow(a: int, e: nat) -> int {
    pow(a, e) % modulus()
}

/// A field element, as the limbs of its canonical value.
#[derive(Clone, Copy, Debug, PartialEq, Eq)]
pub struct Fe {
    pub limbs: [u64; 4],
}

impl Fe {
    /// The canonical value of the element.
    pub open spec fn val(self) -> int {
        limbs_value(self.limbs)
    }

    /// The limbs hold a value below the modulus.
    pub open spec fn wf(self) -> bool {
        self.val() < modulus()
    }

    pub fn zero() -> (r: Fe)
        ensures
            r.wf(),
            r.val() == 0,
            r.limbs == [0u64, 0u64, 0u64, 0u64],
    {
        Fe { limbs: [0, 0, 0, 0] }
    }

    pub fn one() -> (r: Fe)
        ensures
            r.wf(),
            r.val() == 1,
    {
        Fe { limbs: [1, 0, 0, 0] }
    }

    /// The element 0 or 1 that a bit stands for.
    pub fn from_bool(b: bool) -> (r: Fe)
        ensures
            r.wf(),
            r.val() == (if b { 1int } else { 0int }),
    {
        if b { Fe::one() } else { Fe::zero() }
    }

    /// The element with the given value; `None` where the value is not
    /// below the modulus.
    pub fn from_limbs(limbs: [u64; 4]) -> (r: Option<Fe>)
        ensures
            r is Some <==> limbs_value(limbs) < modulus(),
            r is Some ==> r->0.limbs == limbs,
    {
        let top: u64 = 0x73eda753299d7d48;
        let l = limbs;
        let below = if l[3] != top {
            l[3] < top
        } else if l[2] != 0x3339d80809a1d805 {
            l[2] < 0x3339d80809a1d805
        } else if l[1] != 0x53bda402fffe5bfe {
            l[1] < 0x53bda402fffe5bfe
        } else {
            l[0] < 0xffffffff00000001
        };
        proof { lemma_limbs_compare(l, modulus_limbs()); }
        if below { Some(Fe { limbs }) } else { None }
    }

    /// Whether two elements are equal.
    pub fn equals(&self, other: &Fe) -> (r: bool)
        ensures
            r == (self.val() == other.val()),
    {
        proof { lemma_limbs_injective(self.limbs, other.limbs); }
        self.limbs[0] == other.limbs[0] && self.limbs[1] == other.limbs[1]
            && self.limbs[2] == other.limbs[2] && self.limbs[3] == other.limbs[3]
    }
}

/// Limbs compare as the numbers they stand for, from the top limb down.
proof fn lemma_limbs_compare(a: [u64; 4], b: [u64; 4])
    ensures
        limbs_value(a) < limbs_value(b) <==> (
            a[3] < b[3] || (a[3] == b[3] && (a[2] < b[2] || (a[2] == b[2] && (a[1] < b[1] || (a[1] == b[1] && a[0] < b[0])))))),
{
    let base = limb_base();
    let a0 = a[0] as int; let a1 = a[1] as int; let a2 = a[2] as int; let a3 = a[3] as int;
    let b0 = b[0] as int; let b1 = b[1] as int; let b2 = b[2] as int; let b3 = b[3] as int;
    assert(0 <= a0 < base && 0 <= b0 < base && 0 <= a1 < base && 0 <= b1 < base);
    assert(0 <= a2 < base && 0 <= b2 < base && 0 <= a3 < base && 0 <= b3 < base);
    lemma_digit_compare(a0, a1 + base * (a2 + base * a3), b0, b1 + base * (b2 + base * b3), base);
    lemma_digit_compare(a1, a2 + base * a3, b1, b2 + base * b3, base);
    lemma_digit_compare(a2, a3, b2, b3, base);
}

/// Two-digit numbers `lo + base * hi` compare by the high digit first.
proof fn lemma_digit_compare(alo: int, ahi: int, blo: int, bhi: int, base: int)
    requires
        0 <= alo < base,
        0 <= blo < base,
        0 <= ahi,
        0 <= bhi,
    ensures
        alo + base * ahi < blo + base * bhi <==> (ahi < bhi || (ahi == bhi && alo < blo)),
        alo + base * ahi == blo + base * bhi <==> (ahi == bhi && alo == blo),
{
    if ahi < bhi {
        assert(base * ahi + base <= base * bhi) by (nonlinear_arith)
            requires ahi < bhi, base > 0;
    } else if ahi > bhi {
        assert(base * bhi + base <= base * ahi) by (nonlinear_arith)
            requires ahi > bhi, base > 0;
    }
}

/// Distinct limbs stand for distinct values.
proof fn lemma_limbs_injective(a: [u64; 4], b: [u64; 4])
    ensures
        limbs_value(a) == limbs_value(b) <==> (a[0] == b[0] && a[1] == b[1] && a[2] == b[2] && a[3] == b[3]),
{
    lemma_limbs_compare(a, b);
    lemma_limbs_compare(b, a);
}

/// Relies on ark-ff's addition in `ark_bls12_381::Fr`: the sum modulo the
/// field order, returned in canonical form by `into_bigint`.
#[verifier::external_body]
pub(crate) fn fe_add(a: &Fe, b: &Fe) -> (r: Fe)
    requires
        a.wf(),
        b.wf(),
    ensures
        r.wf(),
        r.val() == fadd(a.val(), b.val()),
{
    let x = ark_bls12_381::Fr::from_bigint(BigInt::new(a.limbs)).unwrap();
    let y = ark_bls12_381::Fr::from_bigint(BigInt::new(b.limbs)).unwrap();
    Fe { limbs: (x + y).into_bigint().0 }
}

/// Relies on ark-ff's multiplication in `ark_bls12_381::Fr`: the product
/// modulo the field order, returned in canonical form by `into_bigint`.
#[verifier::external_body]
pub(crate) fn fe_mul(a: &Fe, b: &Fe) -> (r: Fe)
    requires
        a.wf(),
        b.wf(),
    ensures
        r.wf(),
        r.val() == fmul(a.val(), b.val()),
{
    let x = ark_bls12_381::Fr::from_bigint(BigInt::new(a.limbs)).unwrap();
    let y = ark_bls12_381::Fr::from_bigint(BigInt::new(b.limbs)).unwrap();
    Fe { limbs: (x * y).into_bigint().0 }
}

/// Relies on ark-ff's `Field::pow` in `ark_bls12_381::Fr` with a one-limb
/// exponent: the power modulo the field order, in canonical form.
#[verifier::external_body]
pub(crate) fn fe_pow(a: &Fe, e: u64) -> (r: Fe)
    requires
        a.wf(),
    ensures
        r.wf(),
        r.val() == fpow(a.val(), e as nat),
{
    let x = ark_bls12_381::Fr::from_bigint(BigInt::new(a.limbs)).unwrap();
    Fe { limbs: x.pow([e]).into_bigint().0 }
}

} // verus!
