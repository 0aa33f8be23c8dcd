//! Radix-2 evaluation domains of the scalar field.
//!
//! A domain of size `n`, a power of two, is the group of the `n`-th roots of
//! unity. It is generated by a primitive `n`-th root of unity and its first
//! element is one. Domains are constructed by `ark-poly`, which also evaluates
//! their Lagrange basis.

use crate::field::{field_mul, field_sub, modulus, reduce, Scalar};
use ark_bls12_381::Fr;
use ark_ff::{BigInteger256, PrimeField};
use ark_poly::{EvaluationDomain as ArkEvaluationDomain, GeneralEvaluationDomain};
use vstd::arithmetic::div_mod::*;
use vstd::arithmetic::power::*;
use vstd::arithmetic::power2::*;
use vstd::prelude::*;

verus! {

/// The largest domain size that the two-adicity of the field allows, `2^32`.
pub const MAX_DOMAIN_SIZE: u64 = 0x1_0000_0000;

/// The smallest power of two that is not below `n`.
pub open spec fn next_power_of_two(n: int) -> int
    decreases n,
{
    if n <= 1 {
        1
    } else {
        2 * next_power_of_two((n + 1) / 2)
    }
}

/// `n` is a power of two.
pub open spec fn is_power_of_two(n: int) -> bool
    decreases n,
{
    n == 1 || (n > 1 && n % 2 == 0 && is_power_of_two(n / 2))
}

/// The field and the machine have a domain for `num_coeffs` elements: the
/// size is at most `2^32` and can be addressed.
pub open spec fn has_domain(num_coeffs: int) -> bool {
    next_power_of_two(num_coeffs) <= MAX_DOMAIN_SIZE && next_power_of_two(num_coeffs)
        <= usize::MAX
}

/// The generator that `ark-ff` derives for the domain of the given size: the
/// field's fixed `2^32`-th root of unity, squared until its order is `size`.
pub uninterp spec fn root_of_unity(size: int) -> int;

/// The `e`-th power of a field element.
pub open spec fn field_pow(b: int, e: nat) -> int {
    reduce(pow(b, e))
}

/// The multiplicative inverse of a non-zero field element.
pub open spec fn field_inv(a: int) -> int {
    choose|b: int| 0 <= b < modulus() && #[trigger] field_mul(a, b) == 1
}

/// `g` generates the domain of the given size, a power of two: its order is
/// the size.
pub open spec fn is_generator(size: int, g: int) -> bool {
    in_domain(size, g) && (size > 1 ==> field_pow(g, (size / 2) as nat) != 1)
}

/// `tau` is an element of the domain of the given size.
pub open spec fn in_domain(size: int, tau: int) -> bool {
    0 <= tau < modulus() && size >= 0 && field_pow(tau, size as nat) == 1
}

/// The value at `tau` of the Lagrange basis polynomial that belongs to the
/// first element of the domain of the given size. On the domain it is the
/// indicator of the first element; elsewhere it is
/// `(tau^size - 1) / (size * (tau - 1))`.
pub open spec fn first_lagrange_coefficient(size: int, tau: int) -> int {
    let vanishing = field_sub(field_pow(tau, size as nat), 1);
    if vanishing == 0 {
        if tau == 1 {
            1
        } else {
            0
        }
    } else {
        field_inv(field_mul(field_mul(field_inv(vanishing), reduce(size)), field_sub(tau, 1)))
    }
}

/// A multiplicative subgroup of the field whose size is a power of two.
#[derive(Clone, Copy, Debug, PartialEq, Eq)]
pub struct EvaluationDomain {
    /// The number of elements.
    pub size: usize,
    /// A generator of the subgroup.
    pub group_gen: Scalar,
}

impl EvaluationDomain {
    /// The size is a supported power of two and the generator has that order.
    pub open spec fn wf(&self) -> bool {
        &&& is_power_of_two(self.size as int)
        &&& self.size <= MAX_DOMAIN_SIZE
        &&& self.group_gen.wf()
        &&& is_generator(self.size as int, self.group_gen@)
    }

    /// The smallest domain that holds `num_coeffs` elements, if there is one,
    /// with the generator that belongs to its size.
    pub fn new(num_coeffs: usize) -> (r: Option<EvaluationDomain>)
        ensures
            r.is_some() <==> has_domain(num_coeffs as int),
            r.is_some() ==> {
                &&& r.unwrap().wf()
                &&& r.unwrap().size == next_power_of_two(num_coeffs as int)
                &&& r.unwrap().group_gen@ == root_of_unity(r.unwrap().size as int)
            },
    {
        let half: usize = usize::MAX / 2 + 1;
        proof {
            lemma_size_limits_are_powers_of_two();
            lemma_next_power_of_two(num_coeffs as int);
            if num_coeffs <= MAX_DOMAIN_SIZE {
                lemma_next_power_of_two_least(num_coeffs as int, MAX_DOMAIN_SIZE as int);
            }
            if num_coeffs <= half {
                lemma_next_power_of_two_least(num_coeffs as int, half as int);
            } else {
                lemma_power_of_two_gap(half as int, next_power_of_two(num_coeffs as int));
            }
        }
        if num_coeffs as u64 > MAX_DOMAIN_SIZE || num_coeffs > half {
            None
        } else {
            radix2_domain(num_coeffs)
        }
    }

    /// The value at `tau` of the Lagrange basis polynomial of the first
    /// element of the domain.
    pub fn evaluate_first_lagrange_coefficient(&self, tau: &Scalar) -> (r: Scalar)
        requires
            self.wf(),
            tau.wf(),
        ensures
            r.wf(),
            r@ == first_lagrange_coefficient(self.size as int, tau@),
    {
        radix2_first_lagrange(self.size, tau)
    }
}

/// Calls `EvaluationDomain::new` of `ark_poly::GeneralEvaluationDomain`. It
/// rounds the number up to a power of two, gives up if that exceeds `2^32`,
/// and otherwise returns the radix-2 domain of that size, whose generator
/// comes from `FftField::get_root_of_unity`: the root of unity of that order.
#[verifier::external_body]
fn radix2_domain(num_coeffs: usize) -> (r: Option<EvaluationDomain>)
    requires
        next_power_of_two(num_coeffs as int) <= usize::MAX,
    ensures
        r.is_some() <==> next_power_of_two(num_coeffs as int) <= MAX_DOMAIN_SIZE,
        r.is_some() ==> {
            &&& r.unwrap().size == next_power_of_two(num_coeffs as int)
            &&& r.unwrap().group_gen.wf()
            &&& r.unwrap().group_gen@ == root_of_unity(r.unwrap().size as int)
            &&& is_generator(r.unwrap().size as int, r.unwrap().group_gen@)
        },
{
    match GeneralEvaluationDomain::<Fr>::new(num_coeffs) {
        Some(GeneralEvaluationDomain::Radix2(domain)) => Some(
            EvaluationDomain {
                size: domain.size(),
                group_gen: Scalar { limbs: domain.group_gen.into_repr().0 },
            },
        ),
        _ => None,
    }
}

/// Calls `EvaluationDomain::evaluate_all_lagrange_coefficients` of
/// `ark_poly::GeneralEvaluationDomain` on the domain of the given size and
/// returns the first coefficient. For a point of the domain the result is the
/// indicator vector of that point; for any other point the coefficient is the
/// inverse of `(tau^size - 1)^-1 * size * (tau - 1)`.
#[verifier::external_body]
fn radix2_first_lagrange(size: usize, tau: &Scalar) -> (r: Scalar)
    requires
        is_power_of_two(size as int),
        size <= MAX_DOMAIN_SIZE,
        tau.wf(),
    ensures
        r.wf(),
        r@ == first_lagrange_coefficient(size as int, tau@),
{
    let domain = GeneralEvaluationDomain::<Fr>::new(size).unwrap();
    let point = Fr::from_repr(BigInteger256(tau.limbs)).unwrap();
    Scalar { limbs: domain.evaluate_all_lagrange_coefficients(point)[0].into_repr().0 }
}

/// `next_power_of_two(n)` is a power of two and not below `n`.
pub proof fn lemma_next_power_of_two(n: int)
    ensures
        is_power_of_two(next_power_of_two(n)),
        n <= next_power_of_two(n),
    decreases n,
{
    if n > 1 {
        lemma_next_power_of_two((n + 1) / 2);
    }
}

/// No power of two between `n` and `next_power_of_two(n)` is smaller than the
/// latter.
pub proof fn lemma_next_power_of_two_least(n: int, m: int)
    requires
        is_power_of_two(m),
        n <= m,
    ensures
        next_power_of_two(n) <= m,
    decreases n,
{
    if n > 1 {
        lemma_next_power_of_two_least((n + 1) / 2, m / 2);
    }
}

/// Every `2^e` is a power of two.
pub proof fn lemma_pow2_is_power_of_two(e: nat)
    ensures
        is_power_of_two(pow2(e) as int),
    decreases e,
{
    lemma_pow2_pos(e);
    if e > 0 {
        lemma_pow2_unfold(e);
        lemma_pow2_is_power_of_two((e - 1) as nat);
    } else {
        lemma2_to64();
    }
}

/// The largest domain size and half the range of `usize` are powers of two.
proof fn lemma_size_limits_are_powers_of_two()
    ensures
        is_power_of_two(MAX_DOMAIN_SIZE as int),
        is_power_of_two((usize::MAX / 2 + 1) as int),
{
    lemma2_to64();
    lemma2_to64_rest();
    lemma_pow2_is_power_of_two(31);
    lemma_pow2_is_power_of_two(32);
    lemma_pow2_is_power_of_two(63);
}

/// Between a power of two and its double lies no other power of two.
pub proof fn lemma_power_of_two_gap(a: int, b: int)
    requires
        is_power_of_two(a),
        is_power_of_two(b),
        a < b,
    ensures
        2 * a <= b,
    decreases a,
{
    if a > 1 {
        lemma_power_of_two_gap(a / 2, b / 2);
    }
}

/// The first Lagrange basis polynomial is one at the first element of the
/// domain, which is the field's one.
pub proof fn lemma_first_lagrange_at_first_element(size: int)
    requires
        size >= 0,
    ensures
        in_domain(size, 1),
        first_lagrange_coefficient(size, 1) == 1,
{
    lemma1_pow(size as nat);
    lemma_small_mod(1, modulus() as nat);
    lemma_small_mod(0, modulus() as nat);
}

/// The first Lagrange basis polynomial is zero at every element of the
/// domain but the first.
pub proof fn lemma_first_lagrange_at_other_element(size: int, tau: int)
    requires
        in_domain(size, tau),
        tau != 1,
    ensures
        first_lagrange_coefficient(size, tau) == 0,
{
    lemma_small_mod(0, modulus() as nat);
}

} // verus!
