//! Dense univariate polynomials over the scalar field.
//!
//! A [`Polynomial`] stores its coefficients from the constant term upwards,
//! without a zero leading coefficient. Its view is the sequence of the
//! coefficients' values. Addition, scaling and evaluation are performed by
//! `ark-poly` and specified here coefficient by coefficient.

use crate::field::{field_add, field_mul, modulus, reduce, Scalar};
use ark_bls12_381::Fr;
use ark_ff::{BigInteger256, PrimeField};
use ark_poly::univariate::DensePolynomial;
use ark_poly::Polynomial as ArkPolynomial;
use vstd::arithmetic::div_mod::*;
use vstd::prelude::*;
use vstd::seq_lib::*;

verus! {

/// The coefficient of `x^i`, zero beyond the stored ones.
pub open spec fn coeff(s: Seq<int>, i: int) -> int {
    if 0 <= i < s.len() {
        s[i]
    } else {
        0
    }
}

/// The leading coefficient, if there is one, is not zero.
pub open spec fn is_normalised(s: Seq<int>) -> bool {
    s.len() == 0 || s.last() != 0
}

/// The same polynomial without zero leading coefficients.
pub open spec fn normalise(s: Seq<int>) -> Seq<int>
    decreases s.len(),
{
    if s.len() == 0 {
        s
    } else if s.last() == 0 {
        normalise(s.drop_last())
    } else {
        s
    }
}

/// The degree of a normalised polynomial; zero for the zero polynomial.
pub open spec fn poly_degree(s: Seq<int>) -> int {
    if s.len() == 0 {
        0
    } else {
        s.len() - 1
    }
}

/// Coefficient-wise sum over the longer of the two lengths.
pub open spec fn pointwise_sum(a: Seq<int>, b: Seq<int>) -> Seq<int> {
    Seq::new(
        if a.len() >= b.len() {
            a.len()
        } else {
            b.len()
        },
        |i: int| field_add(coeff(a, i), coeff(b, i)),
    )
}

/// Sum of two polynomials.
pub open spec fn poly_add(a: Seq<int>, b: Seq<int>) -> Seq<int> {
    normalise(pointwise_sum(a, b))
}

/// Product of a polynomial and a scalar.
pub open spec fn poly_scale(s: Seq<int>, k: int) -> Seq<int> {
    normalise(Seq::new(s.len(), |i: int| field_mul(s[i], k)))
}

/// Value of a polynomial at `x`.
pub open spec fn poly_eval(s: Seq<int>, x: int) -> int
    decreases s.len(),
{
    if s.len() == 0 {
        0
    } else {
        reduce(s[0] + x * poly_eval(s.subrange(1, s.len() as int), x))
    }
}

/// Sum of a sequence of polynomials, folded from the right.
pub open spec fn poly_sum(terms: Seq<Seq<int>>) -> Seq<int> {
    terms.fold_right(|p: Seq<int>, acc: Seq<int>| poly_add(p, acc), Seq::<int>::empty())
}

/// The values of a sequence of scalars.
pub open spec fn scalar_values(s: Seq<Scalar>) -> Seq<int> {
    Seq::new(s.len(), |i: int| s[i]@)
}

/// Every scalar of the sequence is well formed.
pub open spec fn all_wf(s: Seq<Scalar>) -> bool {
    forall|i: int| 0 <= i < s.len() ==> (#[trigger] s[i]).wf()
}

/// A polynomial in coefficient form.
#[derive(Clone, Debug, PartialEq, Eq)]
pub struct Polynomial {
    /// The coefficient of `x^i` is at index `i`.
    pub coeffs: Vec<Scalar>,
}

impl View for Polynomial {
    type V = Seq<int>;

    open spec fn view(&self) -> Seq<int> {
        scalar_values(self.coeffs@)
    }
}

impl Polynomial {
    /// The coefficients are well formed and the leading one is not zero.
    pub open spec fn wf(&self) -> bool {
        all_wf(self.coeffs@) && is_normalised(self@)
    }

    /// The polynomial with the given coefficients, constant term first.
    /// Zero leading coefficients are dropped.
    pub fn from_coefficients(coeffs: Vec<Scalar>) -> (r: Polynomial)
        requires
            all_wf(coeffs@),
        ensures
            r.wf(),
            r@ == normalise(scalar_values(coeffs@)),
    {
        let mut coeffs = coeffs;
        let ghost given = scalar_values(coeffs@);
        while coeffs.len() > 0 && coeffs[coeffs.len() - 1].is_zero()
            invariant
                all_wf(coeffs@),
                normalise(scalar_values(coeffs@)) == normalise(given),
            decreases coeffs.len(),
        {
            proof {
                assert(scalar_values(coeffs@).drop_last() =~= scalar_values(coeffs@.drop_last()));
            }
            coeffs.pop();
        }
        Polynomial { coeffs }
    }

    /// The zero polynomial.
    pub fn zero() -> (r: Polynomial)
        ensures
            r.wf(),
            r@ == Seq::<int>::empty(),
    {
        let r = Polynomial { coeffs: Vec::new() };
        assert(r@ =~= Seq::<int>::empty());
        r
    }

    /// The degree; zero for the zero polynomial.
    pub fn degree(&self) -> (r: usize)
        requires
            self.wf(),
        ensures
            r == poly_degree(self@),
    {
        if self.coeffs.len() == 0 {
            0
        } else {
            self.coeffs.len() - 1
        }
    }

    /// The value of the polynomial at `point`.
    pub fn evaluate(&self, point: &Scalar) -> (r: Scalar)
        requires
            self.wf(),
            point.wf(),
        ensures
            r.wf(),
            r@ == poly_eval(self@, point@),
    {
        dense_evaluate(self, point)
    }
}

/// Calls `Polynomial::evaluate` of `ark_poly::univariate::DensePolynomial`,
/// which returns zero for the zero polynomial, the constant term at the point
/// zero, and otherwise folds the coefficients from the leading one down by
/// Horner's rule.
#[verifier::external_body]
pub(crate) fn dense_evaluate(p: &Polynomial, point: &Scalar) -> (r: Scalar)
    requires
        p.wf(),
        point.wf(),
    ensures
        r.wf(),
        r@ == poly_eval(p@, point@),
{
    let dense = DensePolynomial::<Fr> {
        coeffs: p.coeffs.iter().map(|c| Fr::from_repr(BigInteger256(c.limbs)).unwrap()).collect(),
    };
    let at = Fr::from_repr(BigInteger256(point.limbs)).unwrap();
    Scalar { limbs: dense.evaluate(&at).into_repr().0 }
}

/// Calls `Add::add` on two `&ark_poly::univariate::DensePolynomial`, which
/// adds the coefficients of the shorter operand onto a copy of the longer one
/// and pops zero leading coefficients off the result.
#[verifier::external_body]
pub(crate) fn dense_add(a: &Polynomial, b: &Polynomial) -> (r: Polynomial)
    requires
        a.wf(),
        b.wf(),
    ensures
        r.wf(),
        r@ == poly_add(a@, b@),
{
    let lhs = DensePolynomial::<Fr> {
        coeffs: a.coeffs.iter().map(|c| Fr::from_repr(BigInteger256(c.limbs)).unwrap()).collect(),
    };
    let rhs = DensePolynomial::<Fr> {
        coeffs: b.coeffs.iter().map(|c| Fr::from_repr(BigInteger256(c.limbs)).unwrap()).collect(),
    };
    let sum = &lhs + &rhs;
    Polynomial { coeffs: sum.coeffs.iter().map(|c| Scalar { limbs: c.into_repr().0 }).collect() }
}

/// Calls `Mul::mul` of `&ark_poly::univariate::DensePolynomial` by a field
/// element, which returns the zero polynomial if either operand is zero and
/// otherwise multiplies every coefficient by the element. In a field the
/// leading coefficient of that product is not zero.
#[verifier::external_body]
pub(crate) fn dense_scale(p: &Polynomial, k: &Scalar) -> (r: Polynomial)
    requires
        p.wf(),
        k.wf(),
    ensures
        r.wf(),
        r@ == poly_scale(p@, k@),
{
    let dense = DensePolynomial::<Fr> {
        coeffs: p.coeffs.iter().map(|c| Fr::from_repr(BigInteger256(c.limbs)).unwrap()).collect(),
    };
    let by = Fr::from_repr(BigInteger256(k.limbs)).unwrap();
    let scaled = &dense * by;
    Polynomial { coeffs: scaled.coeffs.iter().map(|c| Scalar { limbs: c.into_repr().0 }).collect() }
}

/// Dropping zero leading coefficients changes no coefficient.
pub proof fn lemma_normalise_coeff(s: Seq<int>, i: int)
    ensures
        coeff(normalise(s), i) == coeff(s, i),
    decreases s.len(),
{
    if s.len() > 0 && s.last() == 0 {
        lemma_normalise_coeff(s.drop_last(), i);
    }
}

/// The result of `normalise` is normalised and no longer than its argument.
pub proof fn lemma_normalise_is_normalised(s: Seq<int>)
    ensures
        is_normalised(normalise(s)),
        normalise(s).len() <= s.len(),
    decreases s.len(),
{
    if s.len() > 0 && s.last() == 0 {
        lemma_normalise_is_normalised(s.drop_last());
    }
}

/// Two normalised polynomials with the same coefficients are the same
/// sequence.
pub proof fn lemma_normalised_unique(a: Seq<int>, b: Seq<int>)
    requires
        is_normalised(a),
        is_normalised(b),
        forall|i: int| coeff(a, i) == coeff(b, i),
    ensures
        a == b,
{
    if a.len() < b.len() {
        assert(coeff(a, b.len() - 1) == coeff(b, b.len() - 1));
    } else if b.len() < a.len() {
        assert(coeff(a, a.len() - 1) == coeff(b, a.len() - 1));
    }
    assert forall|i: int| 0 <= i < a.len() implies a[i] == b[i] by {
        assert(coeff(a, i) == coeff(b, i));
    }
    assert(a =~= b);
}

/// The coefficients of a sum are the sums of the coefficients.
pub proof fn lemma_poly_add_coeff(a: Seq<int>, b: Seq<int>, i: int)
    ensures
        coeff(poly_add(a, b), i) == field_add(coeff(a, i), coeff(b, i)),
{
    lemma_normalise_coeff(pointwise_sum(a, b), i);
    lemma_small_mod(0, modulus() as nat);
}

/// Scaling by zero gives the zero polynomial.
pub proof fn lemma_poly_scale_zero(s: Seq<int>)
    ensures
        poly_scale(s, 0) == Seq::<int>::empty(),
{
    let scaled = Seq::new(s.len(), |i: int| field_mul(s[i], 0));
    assert forall|i: int| 0 <= i < scaled.len() implies scaled[i] == 0 by {
        assert(s[i] * 0 == 0);
        lemma_small_mod(0, modulus() as nat);
    }
    lemma_normalise_zeros(scaled);
}

/// A sequence of zeros normalises to the empty sequence.
pub proof fn lemma_normalise_zeros(s: Seq<int>)
    requires
        forall|i: int| 0 <= i < s.len() ==> s[i] == 0,
    ensures
        normalise(s) == Seq::<int>::empty(),
    decreases s.len(),
{
    if s.len() > 0 {
        lemma_normalise_zeros(s.drop_last());
    } else {
        assert(s =~= Seq::<int>::empty());
    }
}

/// Polynomial addition is commutative.
pub proof fn lemma_poly_add_commutative(a: Seq<int>, b: Seq<int>)
    ensures
        poly_add(a, b) == poly_add(b, a),
{
    assert(pointwise_sum(a, b) =~= pointwise_sum(b, a));
}

/// Polynomial addition is associative.
pub proof fn lemma_poly_add_associative(a: Seq<int>, b: Seq<int>, c: Seq<int>)
    ensures
        poly_add(poly_add(a, b), c) == poly_add(a, poly_add(b, c)),
{
    let left = poly_add(poly_add(a, b), c);
    let right = poly_add(a, poly_add(b, c));
    lemma_normalise_is_normalised(pointwise_sum(poly_add(a, b), c));
    lemma_normalise_is_normalised(pointwise_sum(a, poly_add(b, c)));
    assert forall|i: int| coeff(left, i) == coeff(right, i) by {
        lemma_poly_add_coeff(poly_add(a, b), c, i);
        lemma_poly_add_coeff(a, b, i);
        lemma_poly_add_coeff(a, poly_add(b, c), i);
        lemma_poly_add_coeff(b, c, i);
        let (x, y, z) = (coeff(a, i), coeff(b, i), coeff(c, i));
        lemma_add_mod_noop(x + y, z, modulus());
        lemma_add_mod_noop(x, y + z, modulus());
        lemma_mod_twice(x + y, modulus());
        lemma_mod_twice(y + z, modulus());
        lemma_add_mod_noop((x + y) % modulus(), z, modulus());
        lemma_add_mod_noop(x, (y + z) % modulus(), modulus());
    }
    lemma_normalised_unique(left, right);
}

/// The sum of a sequence of polynomials does not depend on their order.
pub proof fn lemma_poly_sum_order_independent(first: Seq<Seq<int>>, second: Seq<Seq<int>>)
    requires
        first.to_multiset() == second.to_multiset(),
    ensures
        poly_sum(first) == poly_sum(second),
{
    let f = |p: Seq<int>, acc: Seq<int>| poly_add(p, acc);
    assert forall|x: Seq<int>, y: Seq<int>, v: Seq<int>| #[trigger] f(x, f(y, v)) == f(y, f(x, v)) by {
        lemma_poly_add_associative(x, y, v);
        lemma_poly_add_commutative(x, y);
        lemma_poly_add_associative(y, x, v);
    }
    lemma_fold_right_permutation(first, second, f, Seq::<int>::empty());
}

} // verus!
