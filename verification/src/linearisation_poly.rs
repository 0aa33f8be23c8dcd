//! The linearisation polynomial and the evaluations that accompany it in a
//! proof.
//!
//! The work is done in two steps around the five families of gates, whose
//! definitions live outside this crate. [`compute_gate_evaluations`] produces
//! the scalars that they need; from them the caller obtains one polynomial
//! per family, the [`GateContributions`]; [`compute`] then assembles the
//! linearisation polynomial and the [`Evaluations`].

use crate::domain::{has_domain, EvaluationDomain};
use crate::field::{field_mul, fr_mul, lemma_scalar_value_injective, modulus, Scalar};
use crate::permutation::{permutation_linearisation, PermutationProverKey};
use crate::polynomial::{
    coeff, dense_add, dense_evaluate, lemma_normalise_is_normalised, lemma_normalised_unique,
    lemma_poly_add_associative, lemma_poly_add_coeff, lemma_poly_sum_order_independent,
    pointwise_sum, poly_add, poly_degree, poly_eval, poly_sum, Polynomial,
};
use vstd::arithmetic::div_mod::*;
use vstd::prelude::*;

verus! {

/// The challenges of a proof, as derived by the caller.
#[derive(Clone, Copy, Debug, PartialEq, Eq)]
pub struct Challenges {
    /// Aggregates the terms of the permutation argument.
    pub alpha: Scalar,
    /// First randomiser of the permutation argument.
    pub beta: Scalar,
    /// Second randomiser of the permutation argument.
    pub gamma: Scalar,
    /// Separates the range gates.
    pub range_separation_challenge: Scalar,
    /// Separates the logic gates.
    pub logic_separation_challenge: Scalar,
    /// Separates the fixed-base scalar multiplication gates.
    pub fixed_base_separation_challenge: Scalar,
    /// Separates the variable-base curve addition gates.
    pub var_base_separation_challenge: Scalar,
    /// The point at which the polynomials are opened.
    pub z_challenge: Scalar,
}

impl Challenges {
    /// Every challenge is well formed.
    pub open spec fn wf(&self) -> bool {
        &&& self.alpha.wf()
        &&& self.beta.wf()
        &&& self.gamma.wf()
        &&& self.range_separation_challenge.wf()
        &&& self.logic_separation_challenge.wf()
        &&& self.fixed_base_separation_challenge.wf()
        &&& self.var_base_separation_challenge.wf()
        &&& self.z_challenge.wf()
    }
}

/// What the prover knows of a circuit for this stage: its wiring and the
/// selector polynomials that are opened at the challenge.
#[derive(Debug, PartialEq, Eq)]
pub struct ProverKey {
    /// The wiring.
    pub permutation: PermutationProverKey,
    /// Selector of the arithmetic gates.
    pub q_arith: Polynomial,
    /// Constant selector, opened for the logic and fixed-base gates.
    pub q_c: Polynomial,
    /// Left selector, opened for the fixed-base gates.
    pub q_l: Polynomial,
    /// Right selector, opened for the fixed-base gates.
    pub q_r: Polynomial,
}

impl ProverKey {
    /// The wiring and the selector polynomials are well formed.
    pub open spec fn wf(&self) -> bool {
        &&& self.permutation.wf()
        &&& self.q_arith.wf()
        &&& self.q_c.wf()
        &&& self.q_l.wf()
        &&& self.q_r.wf()
    }
}

/// The scalars that the five families of gates read: the wires at the challenge, the
/// left, right and fourth wire at the next row, and four selectors.
#[derive(Clone, Copy, Debug, PartialEq, Eq)]
pub struct GateEvaluations {
    /// Left wire at `z`.
    pub a_eval: Scalar,
    /// Right wire at `z`.
    pub b_eval: Scalar,
    /// Output wire at `z`.
    pub c_eval: Scalar,
    /// Fourth wire at `z`.
    pub d_eval: Scalar,
    /// Left wire at `z` times the generator.
    pub a_next_eval: Scalar,
    /// Right wire at `z` times the generator.
    pub b_next_eval: Scalar,
    /// Fourth wire at `z` times the generator.
    pub d_next_eval: Scalar,
    /// Arithmetic selector at `z`.
    pub q_arith_eval: Scalar,
    /// Constant selector at `z`.
    pub q_c_eval: Scalar,
    /// Left selector at `z`.
    pub q_l_eval: Scalar,
    /// Right selector at `z`.
    pub q_r_eval: Scalar,
}

impl GateEvaluations {
    /// Every evaluation is well formed.
    pub open spec fn wf(&self) -> bool {
        &&& self.a_eval.wf()
        &&& self.b_eval.wf()
        &&& self.c_eval.wf()
        &&& self.d_eval.wf()
        &&& self.a_next_eval.wf()
        &&& self.b_next_eval.wf()
        &&& self.d_next_eval.wf()
        &&& self.q_arith_eval.wf()
        &&& self.q_c_eval.wf()
        &&& self.q_l_eval.wf()
        &&& self.q_r_eval.wf()
    }

    /// These are the evaluations of the given polynomials at `z` and, for the
    /// next row, at `z` times `generator`.
    pub open spec fn are_evaluations_of(
        &self,
        generator: int,
        prover_key: &ProverKey,
        z: int,
        w_l: Seq<int>,
        w_r: Seq<int>,
        w_o: Seq<int>,
        w_4: Seq<int>,
    ) -> bool {
        &&& self.a_eval@ == poly_eval(w_l, z)
        &&& self.b_eval@ == poly_eval(w_r, z)
        &&& self.c_eval@ == poly_eval(w_o, z)
        &&& self.d_eval@ == poly_eval(w_4, z)
        &&& self.a_next_eval@ == poly_eval(w_l, field_mul(z, generator))
        &&& self.b_next_eval@ == poly_eval(w_r, field_mul(z, generator))
        &&& self.d_next_eval@ == poly_eval(w_4, field_mul(z, generator))
        &&& self.q_arith_eval@ == poly_eval(prover_key.q_arith@, z)
        &&& self.q_c_eval@ == poly_eval(prover_key.q_c@, z)
        &&& self.q_l_eval@ == poly_eval(prover_key.q_l@, z)
        &&& self.q_r_eval@ == poly_eval(prover_key.q_r@, z)
    }
}

/// The linearisation polynomials that the five gate families contribute.
#[derive(Clone, Debug, PartialEq, Eq)]
pub struct GateContributions {
    /// Fan-in and multiplication gates.
    pub arithmetic: Polynomial,
    /// Bounded-value decomposition.
    pub range: Polynomial,
    /// Bitwise decomposition.
    pub logic: Polynomial,
    /// Fixed-base scalar multiplication.
    pub fixed_base: Polynomial,
    /// Variable-base curve addition.
    pub variable_base: Polynomial,
}

impl GateContributions {
    /// Every contribution is well formed.
    pub open spec fn wf(&self) -> bool {
        &&& self.arithmetic.wf()
        &&& self.range.wf()
        &&& self.logic.wf()
        &&& self.fixed_base.wf()
        &&& self.variable_base.wf()
    }

    /// The contributions in the order in which they are summed.
    pub open spec fn terms(&self) -> Seq<Seq<int>> {
        seq![
            self.arithmetic@,
            self.range@,
            self.logic@,
            self.fixed_base@,
            self.variable_base@,
        ]
    }
}

/// The evaluations that go into a proof.
#[derive(Clone, Copy, Debug, PartialEq, Eq)]
pub struct ProofEvaluations {
    /// Left wire at `z`.
    pub a_eval: Scalar,
    /// Right wire at `z`.
    pub b_eval: Scalar,
    /// Output wire at `z`.
    pub c_eval: Scalar,
    /// Fourth wire at `z`.
    pub d_eval: Scalar,
    /// Left wire at `z` times the generator.
    pub a_next_eval: Scalar,
    /// Right wire at `z` times the generator.
    pub b_next_eval: Scalar,
    /// Fourth wire at `z` times the generator.
    pub d_next_eval: Scalar,
    /// Arithmetic selector at `z`.
    pub q_arith_eval: Scalar,
    /// Constant selector at `z`.
    pub q_c_eval: Scalar,
    /// Left selector at `z`.
    pub q_l_eval: Scalar,
    /// Right selector at `z`.
    pub q_r_eval: Scalar,
    /// Left sigma polynomial at `z`.
    pub left_sigma_eval: Scalar,
    /// Right sigma polynomial at `z`.
    pub right_sigma_eval: Scalar,
    /// Output sigma polynomial at `z`.
    pub out_sigma_eval: Scalar,
    /// The linearisation polynomial at `z`.
    pub lin_poly_eval: Scalar,
    /// The grand-product polynomial at `z` times the generator.
    pub perm_eval: Scalar,
}

impl ProofEvaluations {
    /// Every evaluation is well formed.
    pub open spec fn wf(&self) -> bool {
        &&& self.gate_evaluations().wf()
        &&& self.left_sigma_eval.wf()
        &&& self.right_sigma_eval.wf()
        &&& self.out_sigma_eval.wf()
        &&& self.lin_poly_eval.wf()
        &&& self.perm_eval.wf()
    }

    /// The part that is read by a family of gates.
    pub open spec fn gate_evaluations(&self) -> GateEvaluations {
        GateEvaluations {
            a_eval: self.a_eval,
            b_eval: self.b_eval,
            c_eval: self.c_eval,
            d_eval: self.d_eval,
            a_next_eval: self.a_next_eval,
            b_next_eval: self.b_next_eval,
            d_next_eval: self.d_next_eval,
            q_arith_eval: self.q_arith_eval,
            q_c_eval: self.q_c_eval,
            q_l_eval: self.q_l_eval,
            q_r_eval: self.q_r_eval,
        }
    }
}

impl Default for ProofEvaluations {
    /// All evaluations zero.
    fn default() -> (r: ProofEvaluations)
        ensures
            r.wf(),
            r.a_eval@ == 0,
            r.b_eval@ == 0,
            r.c_eval@ == 0,
            r.d_eval@ == 0,
            r.a_next_eval@ == 0,
            r.b_next_eval@ == 0,
            r.d_next_eval@ == 0,
            r.q_arith_eval@ == 0,
            r.q_c_eval@ == 0,
            r.q_l_eval@ == 0,
            r.q_r_eval@ == 0,
            r.left_sigma_eval@ == 0,
            r.right_sigma_eval@ == 0,
            r.out_sigma_eval@ == 0,
            r.lin_poly_eval@ == 0,
            r.perm_eval@ == 0,
    {
        let zero = Scalar::zero();
        ProofEvaluations {
            a_eval: zero,
            b_eval: zero,
            c_eval: zero,
            d_eval: zero,
            a_next_eval: zero,
            b_next_eval: zero,
            d_next_eval: zero,
            q_arith_eval: zero,
            q_c_eval: zero,
            q_l_eval: zero,
            q_r_eval: zero,
            left_sigma_eval: zero,
            right_sigma_eval: zero,
            out_sigma_eval: zero,
            lin_poly_eval: zero,
            perm_eval: zero,
        }
    }
}

/// The evaluations of a proof together with the quotient polynomial at `z`.
#[derive(Clone, Copy, Debug, PartialEq, Eq)]
pub struct Evaluations {
    /// The evaluations that go into the proof.
    pub proof: ProofEvaluations,
    /// The quotient polynomial at `z`.
    pub quot_eval: Scalar,
}

impl Evaluations {
    /// Every evaluation is well formed.
    pub open spec fn wf(&self) -> bool {
        self.proof.wf() && self.quot_eval.wf()
    }
}

/// The circuit-satisfiability polynomial: the five contributions, summed in
/// the order arithmetic, range, logic, fixed base, variable base.
pub open spec fn circuit_satisfiability(
    arithmetic: Seq<int>,
    range: Seq<int>,
    logic: Seq<int>,
    fixed_base: Seq<int>,
    variable_base: Seq<int>,
) -> Seq<int> {
    poly_add(poly_add(poly_add(poly_add(arithmetic, range), logic), fixed_base), variable_base)
}

/// The linearisation polynomial: the circuit-satisfiability polynomial plus
/// the linearised permutation argument over the evaluations at `z`.
pub open spec fn linearisation_polynomial(
    generator: int,
    prover_key: &ProverKey,
    challenges: &Challenges,
    w_l: Seq<int>,
    w_r: Seq<int>,
    w_o: Seq<int>,
    w_4: Seq<int>,
    z_poly: Seq<int>,
    gates: &GateContributions,
) -> Seq<int> {
    let z = challenges.z_challenge@;
    poly_add(
        circuit_satisfiability(
            gates.arithmetic@,
            gates.range@,
            gates.logic@,
            gates.fixed_base@,
            gates.variable_base@,
        ),
        permutation_linearisation(
            z_poly,
            prover_key.permutation.fourth_sigma.0@,
            z,
            (challenges.alpha@, challenges.beta@, challenges.gamma@),
            (poly_eval(w_l, z), poly_eval(w_r, z), poly_eval(w_o, z), poly_eval(w_4, z)),
            (
                poly_eval(prover_key.permutation.left_sigma.0@, z),
                poly_eval(prover_key.permutation.right_sigma.0@, z),
                poly_eval(prover_key.permutation.out_sigma.0@, z),
            ),
            poly_eval(z_poly, field_mul(z, generator)),
        ),
    )
}

/// `lin_poly` and `evaluations` are the linearisation polynomial and the
/// evaluations of the given inputs.
pub open spec fn is_linearisation(
    lin_poly: &Polynomial,
    evaluations: &Evaluations,
    domain: &EvaluationDomain,
    prover_key: &ProverKey,
    challenges: &Challenges,
    w_l: Seq<int>,
    w_r: Seq<int>,
    w_o: Seq<int>,
    w_4: Seq<int>,
    t_x: Seq<int>,
    z_poly: Seq<int>,
    gates: &GateContributions,
) -> bool {
    let z = challenges.z_challenge@;
    let generator = domain.group_gen@;
    let proof = evaluations.proof;
    &&& lin_poly.wf()
    &&& evaluations.wf()
    &&& lin_poly@ == linearisation_polynomial(
        generator,
        prover_key,
        challenges,
        w_l,
        w_r,
        w_o,
        w_4,
        z_poly,
        gates,
    )
    &&& proof.gate_evaluations().are_evaluations_of(generator, prover_key, z, w_l, w_r, w_o, w_4)
    &&& proof.left_sigma_eval@ == poly_eval(prover_key.permutation.left_sigma.0@, z)
    &&& proof.right_sigma_eval@ == poly_eval(prover_key.permutation.right_sigma.0@, z)
    &&& proof.out_sigma_eval@ == poly_eval(prover_key.permutation.out_sigma.0@, z)
    &&& proof.lin_poly_eval@ == poly_eval(lin_poly@, z)
    &&& proof.perm_eval@ == poly_eval(z_poly, field_mul(z, generator))
    &&& evaluations.quot_eval@ == poly_eval(t_x, z)
}

/// The evaluations that the five families of gates read: the wire polynomials and four
/// selectors at `z_challenge`, and the left, right and fourth wire at
/// `z_challenge` times the generator of the domain.
pub fn compute_gate_evaluations(
    domain: &EvaluationDomain,
    prover_key: &ProverKey,
    z_challenge: &Scalar,
    w_l_poly: &Polynomial,
    w_r_poly: &Polynomial,
    w_o_poly: &Polynomial,
    w_4_poly: &Polynomial,
) -> (r: GateEvaluations)
    requires
        domain.wf(),
        prover_key.wf(),
        z_challenge.wf(),
        w_l_poly.wf(),
        w_r_poly.wf(),
        w_o_poly.wf(),
        w_4_poly.wf(),
    ensures
        r.wf(),
        r.are_evaluations_of(
            domain.group_gen@,
            prover_key,
            z_challenge@,
            w_l_poly@,
            w_r_poly@,
            w_o_poly@,
            w_4_poly@,
        ),
{
    let a_eval = dense_evaluate(w_l_poly, z_challenge);
    let b_eval = dense_evaluate(w_r_poly, z_challenge);
    let c_eval = dense_evaluate(w_o_poly, z_challenge);
    let d_eval = dense_evaluate(w_4_poly, z_challenge);
    let q_arith_eval = dense_evaluate(&prover_key.q_arith, z_challenge);
    let q_c_eval = dense_evaluate(&prover_key.q_c, z_challenge);
    let q_l_eval = dense_evaluate(&prover_key.q_l, z_challenge);
    let q_r_eval = dense_evaluate(&prover_key.q_r, z_challenge);

    let next = fr_mul(z_challenge, &domain.group_gen);
    let a_next_eval = dense_evaluate(w_l_poly, &next);
    let b_next_eval = dense_evaluate(w_r_poly, &next);
    let d_next_eval = dense_evaluate(w_4_poly, &next);

    GateEvaluations {
        a_eval,
        b_eval,
        c_eval,
        d_eval,
        a_next_eval,
        b_next_eval,
        d_next_eval,
        q_arith_eval,
        q_c_eval,
        q_l_eval,
        q_r_eval,
    }
}

/// The circuit-satisfiability polynomial: the sum of the five gate
/// contributions.
pub fn compute_circuit_satisfiability(gates: &GateContributions) -> (r: Polynomial)
    requires
        gates.wf(),
    ensures
        r.wf(),
        r@ == circuit_satisfiability(
            gates.arithmetic@,
            gates.range@,
            gates.logic@,
            gates.fixed_base@,
            gates.variable_base@,
        ),
{
    let linearisation_poly = dense_add(&gates.arithmetic, &gates.range);
    let linearisation_poly = dense_add(&linearisation_poly, &gates.logic);
    let linearisation_poly = dense_add(&linearisation_poly, &gates.fixed_base);
    dense_add(&linearisation_poly, &gates.variable_base)
}

/// The linearisation polynomial and the evaluations of a proof.
///
/// `gates` holds the contributions that were computed, family by family, from the
/// result of [`compute_gate_evaluations`] on the same inputs and from their
/// separation challenges.
pub fn compute(
    domain: &EvaluationDomain,
    prover_key: &ProverKey,
    challenges: &Challenges,
    w_l_poly: &Polynomial,
    w_r_poly: &Polynomial,
    w_o_poly: &Polynomial,
    w_4_poly: &Polynomial,
    t_x_poly: &Polynomial,
    z_poly: &Polynomial,
    gates: &GateContributions,
) -> (r: (Polynomial, Evaluations))
    requires
        domain.wf(),
        prover_key.wf(),
        challenges.wf(),
        w_l_poly.wf(),
        w_r_poly.wf(),
        w_o_poly.wf(),
        w_4_poly.wf(),
        t_x_poly.wf(),
        z_poly.wf(),
        gates.wf(),
        has_domain(poly_degree(z_poly@)),
    ensures
        is_linearisation(
            &r.0,
            &r.1,
            domain,
            prover_key,
            challenges,
            w_l_poly@,
            w_r_poly@,
            w_o_poly@,
            w_4_poly@,
            t_x_poly@,
            z_poly@,
            gates,
        ),
{
    let z_challenge = challenges.z_challenge;
    let quot_eval = dense_evaluate(t_x_poly, &z_challenge);
    let gate_evals = compute_gate_evaluations(
        domain,
        prover_key,
        &z_challenge,
        w_l_poly,
        w_r_poly,
        w_o_poly,
        w_4_poly,
    );
    let left_sigma_eval = dense_evaluate(&prover_key.permutation.left_sigma.0, &z_challenge);
    let right_sigma_eval = dense_evaluate(&prover_key.permutation.right_sigma.0, &z_challenge);
    let out_sigma_eval = dense_evaluate(&prover_key.permutation.out_sigma.0, &z_challenge);

    let next = fr_mul(&z_challenge, &domain.group_gen);
    let perm_eval = dense_evaluate(z_poly, &next);

    let f_1 = compute_circuit_satisfiability(gates);

    let f_2 = prover_key.permutation.compute_linearisation(
        z_challenge,
        (challenges.alpha, challenges.beta, challenges.gamma),
        (gate_evals.a_eval, gate_evals.b_eval, gate_evals.c_eval, gate_evals.d_eval),
        (left_sigma_eval, right_sigma_eval, out_sigma_eval),
        perm_eval,
        z_poly,
    );

    let lin_poly = dense_add(&f_1, &f_2);

    let lin_poly_eval = dense_evaluate(&lin_poly, &z_challenge);

    (
        lin_poly,
        Evaluations {
            proof: ProofEvaluations {
                a_eval: gate_evals.a_eval,
                b_eval: gate_evals.b_eval,
                c_eval: gate_evals.c_eval,
                d_eval: gate_evals.d_eval,
                a_next_eval: gate_evals.a_next_eval,
                b_next_eval: gate_evals.b_next_eval,
                d_next_eval: gate_evals.d_next_eval,
                q_arith_eval: gate_evals.q_arith_eval,
                q_c_eval: gate_evals.q_c_eval,
                q_l_eval: gate_evals.q_l_eval,
                q_r_eval: gate_evals.q_r_eval,
                left_sigma_eval,
                right_sigma_eval,
                out_sigma_eval,
                lin_poly_eval,
                perm_eval,
            },
            quot_eval,
        },
    )
}

/// The linearisation is a function of its inputs: two results for the same
/// inputs have the same coefficients and the same evaluations, limb for limb.
pub proof fn lemma_linearisation_is_deterministic(
    first: (Polynomial, Evaluations),
    second: (Polynomial, Evaluations),
    domain: &EvaluationDomain,
    prover_key: &ProverKey,
    challenges: &Challenges,
    w_l: Seq<int>,
    w_r: Seq<int>,
    w_o: Seq<int>,
    w_4: Seq<int>,
    t_x: Seq<int>,
    z_poly: Seq<int>,
    gates: &GateContributions,
)
    requires
        is_linearisation(
            &first.0,
            &first.1,
            domain,
            prover_key,
            challenges,
            w_l,
            w_r,
            w_o,
            w_4,
            t_x,
            z_poly,
            gates,
        ),
        is_linearisation(
            &second.0,
            &second.1,
            domain,
            prover_key,
            challenges,
            w_l,
            w_r,
            w_o,
            w_4,
            t_x,
            z_poly,
            gates,
        ),
    ensures
        first.0.coeffs@ == second.0.coeffs@,
        first.1 == second.1,
{
    assert forall|i: int| 0 <= i < first.0.coeffs@.len() implies first.0.coeffs@[i]
        == second.0.coeffs@[i] by {
        assert(first.0@[i] == second.0@[i]);
        lemma_scalar_value_injective(first.0.coeffs@[i], second.0.coeffs@[i]);
    }
    assert(first.0@.len() == second.0@.len());
    assert(first.0.coeffs@ =~= second.0.coeffs@);
    let (p, q) = (first.1.proof, second.1.proof);
    lemma_scalar_value_injective(p.a_eval, q.a_eval);
    lemma_scalar_value_injective(p.b_eval, q.b_eval);
    lemma_scalar_value_injective(p.c_eval, q.c_eval);
    lemma_scalar_value_injective(p.d_eval, q.d_eval);
    lemma_scalar_value_injective(p.a_next_eval, q.a_next_eval);
    lemma_scalar_value_injective(p.b_next_eval, q.b_next_eval);
    lemma_scalar_value_injective(p.d_next_eval, q.d_next_eval);
    lemma_scalar_value_injective(p.q_arith_eval, q.q_arith_eval);
    lemma_scalar_value_injective(p.q_c_eval, q.q_c_eval);
    lemma_scalar_value_injective(p.q_l_eval, q.q_l_eval);
    lemma_scalar_value_injective(p.q_r_eval, q.q_r_eval);
    lemma_scalar_value_injective(p.left_sigma_eval, q.left_sigma_eval);
    lemma_scalar_value_injective(p.right_sigma_eval, q.right_sigma_eval);
    lemma_scalar_value_injective(p.out_sigma_eval, q.out_sigma_eval);
    lemma_scalar_value_injective(p.lin_poly_eval, q.lin_poly_eval);
    lemma_scalar_value_injective(p.perm_eval, q.perm_eval);
    lemma_scalar_value_injective(first.1.quot_eval, second.1.quot_eval);
}

/// The circuit-satisfiability polynomial does not depend on the order in
/// which the five contributions are summed: the sum of any rearrangement of
/// them is the same polynomial.
pub proof fn lemma_circuit_satisfiability_in_any_order(
    gates: &GateContributions,
    order: Seq<Seq<int>>,
)
    requires
        order.to_multiset() == gates.terms().to_multiset(),
    ensures
        poly_sum(order) == circuit_satisfiability(
            gates.arithmetic@,
            gates.range@,
            gates.logic@,
            gates.fixed_base@,
            gates.variable_base@,
        ),
{
    let (a, b, c, d, e) = (
        gates.arithmetic@,
        gates.range@,
        gates.logic@,
        gates.fixed_base@,
        gates.variable_base@,
    );
    let zero = Seq::<int>::empty();
    lemma_poly_sum_order_independent(order, gates.terms());
    let terms = gates.terms();
    assert(terms.drop_last() =~= seq![a, b, c, d]);
    assert(seq![a, b, c, d].drop_last() =~= seq![a, b, c]);
    assert(seq![a, b, c].drop_last() =~= seq![a, b]);
    assert(seq![a, b].drop_last() =~= seq![a]);
    assert(seq![a].drop_last() =~= Seq::<Seq<int>>::empty());
    reveal_with_fuel(Seq::fold_right, 6);
    assert(poly_sum(terms) == poly_add(
        a,
        poly_add(b, poly_add(c, poly_add(d, poly_add(e, zero)))),
    ));
    lemma_poly_add_absorbs_zero(d, e);
    lemma_poly_add_associative(poly_add(poly_add(a, b), c), d, e);
    lemma_poly_add_associative(poly_add(a, b), c, poly_add(d, e));
    lemma_poly_add_associative(a, b, poly_add(c, poly_add(d, e)));
}

/// Adding zero to the right operand of a sum does not change the sum.
proof fn lemma_poly_add_absorbs_zero(d: Seq<int>, e: Seq<int>)
    ensures
        poly_add(d, poly_add(e, Seq::<int>::empty())) == poly_add(d, e),
{
    let zero = Seq::<int>::empty();
    let left = poly_add(d, poly_add(e, zero));
    let right = poly_add(d, e);
    lemma_normalise_is_normalised(pointwise_sum(d, poly_add(e, zero)));
    lemma_normalise_is_normalised(pointwise_sum(d, e));
    assert forall|i: int| coeff(left, i) == coeff(right, i) by {
        lemma_poly_add_coeff(d, poly_add(e, zero), i);
        lemma_poly_add_coeff(e, zero, i);
        lemma_poly_add_coeff(d, e, i);
        let (x, y) = (coeff(d, i), coeff(e, i));
        lemma_add_mod_noop(x, y, modulus());
        lemma_add_mod_noop(x, y % modulus(), modulus());
        lemma_mod_twice(y, modulus());
    }
    lemma_normalised_unique(left, right);
}

} // verus!
