//! Scalars of the BLS12-381 scalar field and their arithmetic.
//!
//! A [`Scalar`] stores the canonical representative of a field element as four
//! little-endian 64-bit limbs. Its view is that representative as a natural
//! number, and the field operations are specified as integer arithmetic
//! followed by reduction modulo [`modulus`].

use ark_bls12_381::Fr;
use ark_ff::{BigInteger256, Field, PrimeField};
use vstd::arithmetic::div_mod::*;
use vstd::prelude::*;

verus! {

/// Least significant limb of the field order.
pub const MODULUS_LIMB_0: u64 = 0xffff_ffff_0000_0001;

/// Second limb of the field order.
pub const MODULUS_LIMB_1: u64 = 0x53bd_a402_fffe_5bfe;

/// Third limb of the field order.
pub const MODULUS_LIMB_2: u64 = 0x3339_d808_09a1_d805;

/// Most significant limb of the field order.
pub const MODULUS_LIMB_3: u64 = 0x73ed_a753_299d_7d48;

/// The order of the scalar field, a 255-bit prime.
pub open spec fn modulus() -> int {
    0x73ed_a753_299d_7d48_3339_d808_09a1_d805_53bd_a402_fffe_5bfe_ffff_ffff_0000_0001int
}

/// The value of four little-endian 64-bit limbs.
pub open spec fn limbs_value(l0: u64, l1: u64, l2: u64, l3: u64) -> int {
    l0 + l1 * 0x1_0000_0000_0000_0000int + l2 * 0x1_0000_0000_0000_0000_0000_0000_0000_0000int
        + l3 * 0x1_0000_0000_0000_0000_0000_0000_0000_0000_0000_0000_0000_0000int
}

/// The canonical representative of the residue class of `x`.
pub open spec fn reduce(x: int) -> int {
    x % modulus()
}

/// Sum of two field elements.
pub open spec fn field_add(a: int, b: int) -> int {
    reduce(a + b)
}

/// Difference of two field elements.
pub open spec fn field_sub(a: int, b: int) -> int {
    reduce(a - b)
}

/// Product of two field elements.
pub open spec fn field_mul(a: int, b: int) -> int {
    reduce(a * b)
}

/// Additive inverse of a field element.
pub open spec fn field_neg(a: int) -> int {
    reduce(-a)
}

/// An element of the scalar field, held as its canonical representative.
#[derive(Clone, Copy, Debug, PartialEq, Eq)]
pub struct Scalar {
    /// Little-endian limbs of the representative.
    pub limbs: [u64; 4],
}

impl View for Scalar {
    type V = int;

    open spec fn view(&self) -> int {
        limbs_value(self.limbs[0], self.limbs[1], self.limbs[2], self.limbs[3])
    }
}

impl Scalar {
    /// The limbs hold a representative below the field order.
    pub open spec fn wf(&self) -> bool {
        0 <= self@ < modulus()
    }

    /// The field element of a 64-bit integer.
    pub fn from_u64(value: u64) -> (r: Scalar)
        ensures
            r.wf(),
            r@ == value,
    {
        Scalar { limbs: [value, 0, 0, 0] }
    }

    /// The additive identity.
    pub fn zero() -> (r: Scalar)
        ensures
            r.wf(),
            r@ == 0,
    {
        Scalar::from_u64(0)
    }

    /// The multiplicative identity.
    pub fn one() -> (r: Scalar)
        ensures
            r.wf(),
            r@ == 1,
    {
        Scalar::from_u64(1)
    }

    /// The scalar with the given limbs, if they hold a canonical representative.
    pub fn from_limbs(limbs: [u64; 4]) -> (r: Option<Scalar>)
        ensures
            r.is_some() <==> limbs_value(limbs[0], limbs[1], limbs[2], limbs[3]) < modulus(),
            r.is_some() ==> r.unwrap().limbs == limbs && r.unwrap().wf(),
    {
        let below = if limbs[3] != MODULUS_LIMB_3 {
            limbs[3] < MODULUS_LIMB_3
        } else if limbs[2] != MODULUS_LIMB_2 {
            limbs[2] < MODULUS_LIMB_2
        } else if limbs[1] != MODULUS_LIMB_1 {
            limbs[1] < MODULUS_LIMB_1
        } else {
            limbs[0] < MODULUS_LIMB_0
        };
        if below {
            Some(Scalar { limbs })
        } else {
            None
        }
    }

    /// Whether this is the additive identity.
    pub fn is_zero(&self) -> (r: bool)
        ensures
            r <==> self@ == 0,
    {
        self.limbs[0] == 0 && self.limbs[1] == 0 && self.limbs[2] == 0 && self.limbs[3] == 0
    }
}

/// Two scalars with the same value have the same limbs.
pub proof fn lemma_scalar_value_injective(a: Scalar, b: Scalar)
    requires
        a@ == b@,
    ensures
        a == b,
{
    assert(a.limbs =~= b.limbs);
}

/// Calls `Add::add` of `ark_ff::Fp256`, which adds the two representatives
/// and subtracts the field order once if the sum reaches it.
#[verifier::external_body]
pub(crate) fn fr_add(a: &Scalar, b: &Scalar) -> (r: Scalar)
    requires
        a.wf(),
        b.wf(),
    ensures
        r.wf(),
        r@ == field_add(a@, b@),
{
    let x = Fr::from_repr(BigInteger256(a.limbs)).unwrap();
    let y = Fr::from_repr(BigInteger256(b.limbs)).unwrap();
    Scalar { limbs: (x + y).into_repr().0 }
}

/// Calls `Mul::mul` of `ark_ff::Fp256`, the Montgomery product of the two
/// elements, whose representative is the product of theirs modulo the field
/// order.
#[verifier::external_body]
pub(crate) fn fr_mul(a: &Scalar, b: &Scalar) -> (r: Scalar)
    requires
        a.wf(),
        b.wf(),
    ensures
        r.wf(),
        r@ == field_mul(a@, b@),
{
    let x = Fr::from_repr(BigInteger256(a.limbs)).unwrap();
    let y = Fr::from_repr(BigInteger256(b.limbs)).unwrap();
    Scalar { limbs: (x * y).into_repr().0 }
}

/// Calls `Sub::sub` of `ark_ff::Fp256`, which adds the field order to the
/// left representative when the right one is larger and then subtracts.
#[verifier::external_body]
pub(crate) fn fr_sub(a: &Scalar, b: &Scalar) -> (r: Scalar)
    requires
        a.wf(),
        b.wf(),
    ensures
        r.wf(),
        r@ == field_sub(a@, b@),
{
    let x = Fr::from_repr(BigInteger256(a.limbs)).unwrap();
    let y = Fr::from_repr(BigInteger256(b.limbs)).unwrap();
    Scalar { limbs: (x - y).into_repr().0 }
}

/// Calls `Neg::neg` of `ark_ff::Fp256`, which returns zero for zero and the
/// field order minus the representative otherwise.
#[verifier::external_body]
pub(crate) fn fr_neg(a: &Scalar) -> (r: Scalar)
    requires
        a.wf(),
    ensures
        r.wf(),
        r@ == field_neg(a@),
{
    let x = Fr::from_repr(BigInteger256(a.limbs)).unwrap();
    Scalar { limbs: (-x).into_repr().0 }
}

/// Calls `Field::square` of `ark_ff::Fp256`, the product of the element with
/// itself.
#[verifier::external_body]
pub(crate) fn fr_square(a: &Scalar) -> (r: Scalar)
    requires
        a.wf(),
    ensures
        r.wf(),
        r@ == field_mul(a@, a@),
{
    let x = Fr::from_repr(BigInteger256(a.limbs)).unwrap();
    Scalar { limbs: x.square().into_repr().0 }
}

/// Sum of two scalars that stand for the residues of `x` and `y`.
pub(crate) fn add_residues(a: &Scalar, b: &Scalar, Ghost(x): Ghost<int>, Ghost(y): Ghost<int>) -> (r:
    Scalar)
    requires
        a.wf(),
        b.wf(),
        a@ == reduce(x),
        b@ == reduce(y),
    ensures
        r.wf(),
        r@ == reduce(x + y),
{
    proof {
        lemma_add_congruent(a@, x, b@, y);
    }
    fr_add(a, b)
}

/// Difference of two scalars that stand for the residues of `x` and `y`.
pub(crate) fn sub_residues(a: &Scalar, b: &Scalar, Ghost(x): Ghost<int>, Ghost(y): Ghost<int>) -> (r:
    Scalar)
    requires
        a.wf(),
        b.wf(),
        a@ == reduce(x),
        b@ == reduce(y),
    ensures
        r.wf(),
        r@ == reduce(x - y),
{
    proof {
        lemma_sub_congruent(a@, x, b@, y);
    }
    fr_sub(a, b)
}

/// Product of two scalars that stand for the residues of `x` and `y`.
pub(crate) fn mul_residues(a: &Scalar, b: &Scalar, Ghost(x): Ghost<int>, Ghost(y): Ghost<int>) -> (r:
    Scalar)
    requires
        a.wf(),
        b.wf(),
        a@ == reduce(x),
        b@ == reduce(y),
    ensures
        r.wf(),
        r@ == reduce(x * y),
{
    proof {
        lemma_mul_congruent(a@, x, b@, y);
    }
    fr_mul(a, b)
}

/// Negation of a scalar that stands for the residue of `x`.
pub(crate) fn neg_residue(a: &Scalar, Ghost(x): Ghost<int>) -> (r: Scalar)
    requires
        a.wf(),
        a@ == reduce(x),
    ensures
        r.wf(),
        r@ == reduce(-x),
{
    proof {
        lemma_neg_congruent(a@, x);
    }
    fr_neg(a)
}

/// A canonical representative is its own reduction.
pub proof fn lemma_reduce_small(x: int)
    requires
        0 <= x < modulus(),
    ensures
        reduce(x) == x,
{
    lemma_small_mod(x as nat, modulus() as nat);
}

/// Adding two residues gives the residue of the sum.
pub proof fn lemma_add_congruent(a: int, x: int, b: int, y: int)
    requires
        a == reduce(x),
        b == reduce(y),
    ensures
        field_add(a, b) == reduce(x + y),
{
    lemma_add_mod_noop(x, y, modulus());
}

/// Subtracting two residues gives the residue of the difference.
pub proof fn lemma_sub_congruent(a: int, x: int, b: int, y: int)
    requires
        a == reduce(x),
        b == reduce(y),
    ensures
        field_sub(a, b) == reduce(x - y),
{
    lemma_sub_mod_noop(x, y, modulus());
}

/// Multiplying two residues gives the residue of the product.
pub proof fn lemma_mul_congruent(a: int, x: int, b: int, y: int)
    requires
        a == reduce(x),
        b == reduce(y),
    ensures
        field_mul(a, b) == reduce(x * y),
{
    lemma_mul_mod_noop(x, y, modulus());
}

/// Negating a residue gives the residue of the negation.
pub proof fn lemma_neg_congruent(a: int, x: int)
    requires
        a == reduce(x),
    ensures
        field_neg(a) == reduce(-x),
{
    lemma_sub_mod_noop(0, x, modulus());
    lemma_small_mod(0, modulus() as nat);
}

} // verus!
