//! The permutation argument: the prover key that holds a circuit's wiring, the
//! per-row quotient identity of the grand product, and its linearised form.

use crate::domain::{
    first_lagrange_coefficient, has_domain, in_domain, lemma_first_lagrange_at_first_element,
    lemma_first_lagrange_at_other_element, next_power_of_two, EvaluationDomain,
};
use crate::field::{
    add_residues, fr_square, lemma_reduce_small, modulus, mul_residues, neg_residue, reduce,
    sub_residues, Scalar,
};
use crate::polynomial::{
    all_wf, dense_add, dense_scale, lemma_poly_scale_zero, poly_add, poly_degree, poly_scale,
    Polynomial,
};
use vstd::arithmetic::div_mod::*;
use vstd::prelude::*;

verus! {

/// Coset representative that labels the cells of the right wire.
pub const K1: u64 = 2;

/// Coset representative that labels the cells of the output wire.
pub const K2: u64 = 3;

/// Coset representative that labels the cells of the fourth wire.
pub const K3: u64 = 4;

/// One wire value combined with the label of its cell: `w + beta * label + gamma`.
pub open spec fn wire_term(w: int, beta: int, label: int, gamma: int) -> int {
    w + beta * label + gamma
}

/// The product of the four wires' terms for the given labels.
pub open spec fn permutation_product(
    wires: (int, int, int, int),
    labels: (int, int, int, int),
    beta: int,
    gamma: int,
) -> int {
    wire_term(wires.0, beta, labels.0, gamma) * wire_term(wires.1, beta, labels.1, gamma)
        * wire_term(wires.2, beta, labels.2, gamma) * wire_term(wires.3, beta, labels.3, gamma)
}

/// The labels that the identity permutation gives to the four cells of the
/// row with domain element `x`: the element itself in each wire's coset.
pub open spec fn coset_labels(x: int) -> (int, int, int, int) {
    (x, K1 * x, K2 * x, K3 * x)
}

/// Identity term of a row: the product over the identity labels, times the
/// grand product at the row, times `alpha`.
pub open spec fn quotient_identity_term(
    wires: (int, int, int, int),
    x: int,
    z_i: int,
    alpha: int,
    beta: int,
    gamma: int,
) -> int {
    reduce(permutation_product(wires, coset_labels(x), beta, gamma) * z_i * alpha)
}

/// Copy term of a row: minus the product over the permuted labels, times the
/// grand product at the next row, times `alpha`.
pub open spec fn quotient_copy_term(
    wires: (int, int, int, int),
    sigmas: (int, int, int, int),
    z_i_next: int,
    alpha: int,
    beta: int,
    gamma: int,
) -> int {
    reduce(-(permutation_product(wires, sigmas, beta, gamma) * z_i_next * alpha))
}

/// Boundary term of a row: `(z_i - 1) * l1_alpha_sq`.
pub open spec fn quotient_boundary_term(z_i: int, l1_alpha_sq: int) -> int {
    reduce((z_i - 1) * l1_alpha_sq)
}

/// The quotient contribution of a row: the sum of its three terms.
pub open spec fn quotient_row(
    wires: (int, int, int, int),
    x: int,
    sigmas: (int, int, int, int),
    z_i: int,
    z_i_next: int,
    alpha: int,
    l1_alpha_sq: int,
    beta: int,
    gamma: int,
) -> int {
    reduce(
        permutation_product(wires, coset_labels(x), beta, gamma) * z_i * alpha
            - permutation_product(wires, sigmas, beta, gamma) * z_i_next * alpha + (z_i - 1)
            * l1_alpha_sq,
    )
}

/// The scalar that multiplies the grand-product polynomial in the identity
/// term of the linearisation.
pub open spec fn lineariser_identity_scalar(
    wires: (int, int, int, int),
    z: int,
    alpha: int,
    beta: int,
    gamma: int,
) -> int {
    reduce(permutation_product(wires, coset_labels(z), beta, gamma) * alpha)
}

/// The scalar that multiplies the fourth sigma polynomial in the copy term of
/// the linearisation.
pub open spec fn lineariser_copy_scalar(
    wires: (int, int, int),
    sigmas: (int, int, int),
    z_eval: int,
    alpha: int,
    beta: int,
    gamma: int,
) -> int {
    reduce(
        -(wire_term(wires.0, beta, sigmas.0, gamma) * wire_term(wires.1, beta, sigmas.1, gamma)
            * wire_term(wires.2, beta, sigmas.2, gamma) * beta * z_eval * alpha),
    )
}

/// Boundary term of the linearisation: the grand-product polynomial times the
/// first Lagrange coefficient at `z`, times `alpha_sq`.
pub open spec fn lineariser_boundary_term(z_poly: Seq<int>, size: int, z: int, alpha_sq: int) -> Seq<
    int,
> {
    poly_scale(z_poly, reduce(first_lagrange_coefficient(size, z) * alpha_sq))
}

/// The linearised permutation argument: identity term plus copy term plus
/// boundary term, the last over the domain whose size is derived from the
/// degree of the grand-product polynomial.
pub open spec fn permutation_linearisation(
    z_poly: Seq<int>,
    fourth_sigma: Seq<int>,
    z: int,
    challenges: (int, int, int),
    wires: (int, int, int, int),
    sigmas: (int, int, int),
    z_eval: int,
) -> Seq<int> {
    let (alpha, beta, gamma) = challenges;
    poly_add(
        poly_add(
            poly_scale(z_poly, lineariser_identity_scalar(wires, z, alpha, beta, gamma)),
            poly_scale(
                fourth_sigma,
                lineariser_copy_scalar(
                    (wires.0, wires.1, wires.2),
                    sigmas,
                    z_eval,
                    alpha,
                    beta,
                    gamma,
                ),
            ),
        ),
        lineariser_boundary_term(
            z_poly,
            next_power_of_two(poly_degree(z_poly)),
            z,
            reduce(alpha * alpha),
        ),
    )
}

/// The quotient contributions of all rows of a circuit. Row `i` has the wire
/// values `wires[i]`, the domain element `elements[i]`, the sigma values
/// `sigmas[i]`, the grand product `z[i]` and the scaled first Lagrange value
/// `l1_alpha_sq[i]`; the row after the last one is the first.
pub open spec fn quotient_rows(
    wires: Seq<(int, int, int, int)>,
    elements: Seq<int>,
    sigmas: Seq<(int, int, int, int)>,
    z: Seq<int>,
    l1_alpha_sq: Seq<int>,
    alpha: int,
    beta: int,
    gamma: int,
) -> Seq<int> {
    Seq::new(
        z.len(),
        |i: int|
            quotient_row(
                wires[i],
                elements[i],
                sigmas[i],
                z[i],
                z[(i + 1) % (z.len() as int)],
                alpha,
                l1_alpha_sq[i],
                beta,
                gamma,
            ),
    )
}

/// The grand product `z` is the one of a satisfied permutation: it starts at
/// one, and from each row to the next, cyclically, it advances by the ratio
/// of the row's identity product to its copy product.
pub open spec fn is_grand_product(
    wires: Seq<(int, int, int, int)>,
    elements: Seq<int>,
    sigmas: Seq<(int, int, int, int)>,
    z: Seq<int>,
    beta: int,
    gamma: int,
) -> bool {
    &&& z.len() > 0
    &&& z[0] == 1
    &&& forall|i: int|
        0 <= i < z.len() ==> reduce(
            permutation_product(wires[i], coset_labels(elements[i]), beta, gamma) * #[trigger] z[i],
        ) == reduce(
            permutation_product(wires[i], sigmas[i], beta, gamma) * z[(i + 1) % (z.len() as int)],
        )
}

/// The elements label the rows of the domain of the given size: the first
/// is one, the others are elements of the domain other than one.
pub open spec fn is_domain_labelling(size: int, elements: Seq<int>) -> bool {
    &&& elements.len() > 0
    &&& elements[0] == 1
    &&& forall|i: int|
        0 < i < elements.len() ==> in_domain(size, #[trigger] elements[i]) && elements[i] != 1
}

/// The boundary scalar of every row: the first Lagrange basis polynomial at
/// the row's element, times `alpha` squared.
pub open spec fn scaled_first_lagrange(size: int, elements: Seq<int>, alpha: int) -> Seq<int> {
    Seq::new(
        elements.len(),
        |i: int| reduce(first_lagrange_coefficient(size, elements[i]) * reduce(alpha * alpha)),
    )
}

/// The sum of the quotient contributions of a sequence of rows.
pub open spec fn quotient_sum(rows: Seq<int>) -> int
    decreases rows.len(),
{
    if rows.len() == 0 {
        0
    } else {
        reduce(quotient_sum(rows.drop_last()) + rows.last())
    }
}

/// The wiring of a circuit: for each of the four wires the polynomial that
/// encodes where its cells are copied from and the values of that polynomial
/// on the domain, and the domain elements themselves.
#[derive(Debug, PartialEq, Eq)]
pub struct PermutationProverKey {
    /// Sigma polynomial of the left wire and its values on the domain.
    pub left_sigma: (Polynomial, Vec<Scalar>),
    /// Sigma polynomial of the right wire and its values on the domain.
    pub right_sigma: (Polynomial, Vec<Scalar>),
    /// Sigma polynomial of the output wire and its values on the domain.
    pub out_sigma: (Polynomial, Vec<Scalar>),
    /// Sigma polynomial of the fourth wire and its values on the domain.
    pub fourth_sigma: (Polynomial, Vec<Scalar>),
    /// The elements of the domain, row by row.
    pub linear_evaluations: Vec<Scalar>,
}

impl PermutationProverKey {
    /// The number of rows of the tables.
    pub open spec fn rows(&self) -> nat {
        self.linear_evaluations@.len()
    }

    /// The polynomials and table entries are well formed and the five tables
    /// have one length.
    pub open spec fn wf(&self) -> bool {
        &&& self.left_sigma.0.wf()
        &&& self.right_sigma.0.wf()
        &&& self.out_sigma.0.wf()
        &&& self.fourth_sigma.0.wf()
        &&& all_wf(self.left_sigma.1@)
        &&& all_wf(self.right_sigma.1@)
        &&& all_wf(self.out_sigma.1@)
        &&& all_wf(self.fourth_sigma.1@)
        &&& all_wf(self.linear_evaluations@)
        &&& self.left_sigma.1@.len() == self.rows()
        &&& self.right_sigma.1@.len() == self.rows()
        &&& self.out_sigma.1@.len() == self.rows()
        &&& self.fourth_sigma.1@.len() == self.rows()
    }

    /// The domain element of a row.
    pub open spec fn row_element(&self, index: int) -> int {
        self.linear_evaluations@[index]@
    }

    /// The domain elements of all rows.
    pub open spec fn elements(&self) -> Seq<int> {
        Seq::new(self.rows(), |i: int| self.row_element(i))
    }

    /// The values of the four sigma polynomials at all rows.
    pub open spec fn sigmas(&self) -> Seq<(int, int, int, int)> {
        Seq::new(self.rows(), |i: int| self.row_sigmas(i))
    }

    /// The values of the four sigma polynomials at a row.
    pub open spec fn row_sigmas(&self, index: int) -> (int, int, int, int) {
        (
            self.left_sigma.1@[index]@,
            self.right_sigma.1@[index]@,
            self.out_sigma.1@[index]@,
            self.fourth_sigma.1@[index]@,
        )
    }

    /// The quotient contribution of the row `index`.
    pub fn compute_quotient_i(
        &self,
        index: usize,
        w_l_i: Scalar,
        w_r_i: Scalar,
        w_o_i: Scalar,
        w_4_i: Scalar,
        z_i: Scalar,
        z_i_next: Scalar,
        alpha: Scalar,
        l1_alpha_sq: Scalar,
        beta: Scalar,
        gamma: Scalar,
    ) -> (r: Scalar)
        requires
            self.wf(),
            index < self.rows(),
            w_l_i.wf(),
            w_r_i.wf(),
            w_o_i.wf(),
            w_4_i.wf(),
            z_i.wf(),
            z_i_next.wf(),
            alpha.wf(),
            l1_alpha_sq.wf(),
            beta.wf(),
            gamma.wf(),
        ensures
            r.wf(),
            r@ == quotient_row(
                (w_l_i@, w_r_i@, w_o_i@, w_4_i@),
                self.row_element(index as int),
                self.row_sigmas(index as int),
                z_i@,
                z_i_next@,
                alpha@,
                l1_alpha_sq@,
                beta@,
                gamma@,
            ),
    {
        let a = self.compute_quotient_identity_range_check_i(
            index,
            w_l_i,
            w_r_i,
            w_o_i,
            w_4_i,
            z_i,
            alpha,
            beta,
            gamma,
        );
        let b = self.compute_quotient_copy_range_check_i(
            index,
            w_l_i,
            w_r_i,
            w_o_i,
            w_4_i,
            z_i_next,
            alpha,
            beta,
            gamma,
        );
        let c = self.compute_quotient_term_check_one_i(z_i, l1_alpha_sq);
        let ghost wires = (w_l_i@, w_r_i@, w_o_i@, w_4_i@);
        let ghost identity = permutation_product(
            wires,
            coset_labels(self.row_element(index as int)),
            beta@,
            gamma@,
        ) * z_i@ * alpha@;
        let ghost copy = permutation_product(wires, self.row_sigmas(index as int), beta@, gamma@)
            * z_i_next@ * alpha@;
        let ghost boundary = (z_i@ - 1) * l1_alpha_sq@;
        let a_b = add_residues(&a, &b, Ghost(identity), Ghost(-copy));
        add_residues(&a_b, &c, Ghost(identity + (-copy)), Ghost(boundary))
    }

    /// The identity term of the row `index`:
    /// `(w_l + beta x + gamma)(w_r + beta K1 x + gamma)(w_o + beta K2 x + gamma)
    /// (w_4 + beta K3 x + gamma) z_i alpha`, where `x` is the row's domain
    /// element.
    pub fn compute_quotient_identity_range_check_i(
        &self,
        index: usize,
        w_l_i: Scalar,
        w_r_i: Scalar,
        w_o_i: Scalar,
        w_4_i: Scalar,
        z_i: Scalar,
        alpha: Scalar,
        beta: Scalar,
        gamma: Scalar,
    ) -> (r: Scalar)
        requires
            self.wf(),
            index < self.rows(),
            w_l_i.wf(),
            w_r_i.wf(),
            w_o_i.wf(),
            w_4_i.wf(),
            z_i.wf(),
            alpha.wf(),
            beta.wf(),
            gamma.wf(),
        ensures
            r.wf(),
            r@ == quotient_identity_term(
                (w_l_i@, w_r_i@, w_o_i@, w_4_i@),
                self.row_element(index as int),
                z_i@,
                alpha@,
                beta@,
                gamma@,
            ),
    {
        let x = self.linear_evaluations[index];
        let k1 = Scalar::from_u64(K1);
        let k2 = Scalar::from_u64(K2);
        let k3 = Scalar::from_u64(K3);
        proof {
            lemma_reduce_small(x@);
            lemma_reduce_small(beta@);
            lemma_reduce_small(z_i@);
            lemma_reduce_small(alpha@);
            lemma_reduce_small(k1@);
            lemma_reduce_small(k2@);
            lemma_reduce_small(k3@);
            assert(beta@ * K1 * x@ == beta@ * (K1 * x@)) by (nonlinear_arith);
            assert(beta@ * K2 * x@ == beta@ * (K2 * x@)) by (nonlinear_arith);
            assert(beta@ * K3 * x@ == beta@ * (K3 * x@)) by (nonlinear_arith);
        }
        let beta_x = mul_residues(&beta, &x, Ghost(beta@), Ghost(x@));
        let f_0 = shifted_wire(&w_l_i, &beta_x, &gamma, Ghost(beta@ * x@));
        let beta_k1 = mul_residues(&beta, &k1, Ghost(beta@), Ghost(k1@));
        let beta_k1_x = mul_residues(&beta_k1, &x, Ghost(beta@ * k1@), Ghost(x@));
        let f_1 = shifted_wire(&w_r_i, &beta_k1_x, &gamma, Ghost(beta@ * k1@ * x@));
        let beta_k2 = mul_residues(&beta, &k2, Ghost(beta@), Ghost(k2@));
        let beta_k2_x = mul_residues(&beta_k2, &x, Ghost(beta@ * k2@), Ghost(x@));
        let f_2 = shifted_wire(&w_o_i, &beta_k2_x, &gamma, Ghost(beta@ * k2@ * x@));
        let beta_k3 = mul_residues(&beta, &k3, Ghost(beta@), Ghost(k3@));
        let beta_k3_x = mul_residues(&beta_k3, &x, Ghost(beta@ * k3@), Ghost(x@));
        let f_3 = shifted_wire(&w_4_i, &beta_k3_x, &gamma, Ghost(beta@ * k3@ * x@));
        let ghost e_0 = wire_term(w_l_i@, beta@, x@, gamma@);
        let ghost e_1 = wire_term(w_r_i@, beta@, K1 * x@, gamma@);
        let ghost e_2 = wire_term(w_o_i@, beta@, K2 * x@, gamma@);
        let ghost e_3 = wire_term(w_4_i@, beta@, K3 * x@, gamma@);
        let p_1 = mul_residues(&f_0, &f_1, Ghost(e_0), Ghost(e_1));
        let p_2 = mul_residues(&p_1, &f_2, Ghost(e_0 * e_1), Ghost(e_2));
        let p_3 = mul_residues(&p_2, &f_3, Ghost(e_0 * e_1 * e_2), Ghost(e_3));
        let p_z = mul_residues(&p_3, &z_i, Ghost(e_0 * e_1 * e_2 * e_3), Ghost(z_i@));
        mul_residues(&p_z, &alpha, Ghost(e_0 * e_1 * e_2 * e_3 * z_i@), Ghost(alpha@))
    }

    /// The copy term of the row `index`:
    /// `-(w_l + beta s1 + gamma)(w_r + beta s2 + gamma)(w_o + beta s3 + gamma)
    /// (w_4 + beta s4 + gamma) z_i_next alpha`, where `s1` to `s4` are the
    /// values of the sigma polynomials at the row.
    pub fn compute_quotient_copy_range_check_i(
        &self,
        index: usize,
        w_l_i: Scalar,
        w_r_i: Scalar,
        w_o_i: Scalar,
        w_4_i: Scalar,
        z_i_next: Scalar,
        alpha: Scalar,
        beta: Scalar,
        gamma: Scalar,
    ) -> (r: Scalar)
        requires
            self.wf(),
            index < self.rows(),
            w_l_i.wf(),
            w_r_i.wf(),
            w_o_i.wf(),
            w_4_i.wf(),
            z_i_next.wf(),
            alpha.wf(),
            beta.wf(),
            gamma.wf(),
        ensures
            r.wf(),
            r@ == quotient_copy_term(
                (w_l_i@, w_r_i@, w_o_i@, w_4_i@),
                self.row_sigmas(index as int),
                z_i_next@,
                alpha@,
                beta@,
                gamma@,
            ),
    {
        let left_sigma_eval = self.left_sigma.1[index];
        let right_sigma_eval = self.right_sigma.1[index];
        let out_sigma_eval = self.out_sigma.1[index];
        let fourth_sigma_eval = self.fourth_sigma.1[index];
        proof {
            lemma_reduce_small(left_sigma_eval@);
            lemma_reduce_small(right_sigma_eval@);
            lemma_reduce_small(out_sigma_eval@);
            lemma_reduce_small(fourth_sigma_eval@);
            lemma_reduce_small(beta@);
            lemma_reduce_small(z_i_next@);
            lemma_reduce_small(alpha@);
        }
        let f_0 = permuted_wire(&w_l_i, &beta, &left_sigma_eval, &gamma);
        let f_1 = permuted_wire(&w_r_i, &beta, &right_sigma_eval, &gamma);
        let f_2 = permuted_wire(&w_o_i, &beta, &out_sigma_eval, &gamma);
        let f_3 = permuted_wire(&w_4_i, &beta, &fourth_sigma_eval, &gamma);
        let ghost e_0 = wire_term(w_l_i@, beta@, left_sigma_eval@, gamma@);
        let ghost e_1 = wire_term(w_r_i@, beta@, right_sigma_eval@, gamma@);
        let ghost e_2 = wire_term(w_o_i@, beta@, out_sigma_eval@, gamma@);
        let ghost e_3 = wire_term(w_4_i@, beta@, fourth_sigma_eval@, gamma@);
        let p_1 = mul_residues(&f_0, &f_1, Ghost(e_0), Ghost(e_1));
        let p_2 = mul_residues(&p_1, &f_2, Ghost(e_0 * e_1), Ghost(e_2));
        let p_3 = mul_residues(&p_2, &f_3, Ghost(e_0 * e_1 * e_2), Ghost(e_3));
        let p_z = mul_residues(&p_3, &z_i_next, Ghost(e_0 * e_1 * e_2 * e_3), Ghost(z_i_next@));
        let product = mul_residues(
            &p_z,
            &alpha,
            Ghost(e_0 * e_1 * e_2 * e_3 * z_i_next@),
            Ghost(alpha@),
        );
        neg_residue(&product, Ghost(e_0 * e_1 * e_2 * e_3 * z_i_next@ * alpha@))
    }

    /// The boundary term of a row: `(z_i - 1) * l1_alpha_sq`.
    pub fn compute_quotient_term_check_one_i(&self, z_i: Scalar, l1_alpha_sq: Scalar) -> (r:
        Scalar)
        requires
            z_i.wf(),
            l1_alpha_sq.wf(),
        ensures
            r.wf(),
            r@ == quotient_boundary_term(z_i@, l1_alpha_sq@),
    {
        let one = Scalar::one();
        proof {
            lemma_reduce_small(z_i@);
            lemma_reduce_small(one@);
            lemma_reduce_small(l1_alpha_sq@);
        }
        let shifted = sub_residues(&z_i, &one, Ghost(z_i@), Ghost(1));
        mul_residues(&shifted, &l1_alpha_sq, Ghost(z_i@ - 1), Ghost(l1_alpha_sq@))
    }

    /// The linearised permutation argument for the evaluation challenge
    /// `z_challenge`. The domain of the boundary term is the smallest one
    /// that holds as many elements as the degree of `z_poly`.
    pub fn compute_linearisation(
        &self,
        z_challenge: Scalar,
        challenges: (Scalar, Scalar, Scalar),
        wire_evals: (Scalar, Scalar, Scalar, Scalar),
        sigma_evals: (Scalar, Scalar, Scalar),
        z_eval: Scalar,
        z_poly: &Polynomial,
    ) -> (r: Polynomial)
        requires
            self.wf(),
            z_challenge.wf(),
            challenges.0.wf(),
            challenges.1.wf(),
            challenges.2.wf(),
            wire_evals.0.wf(),
            wire_evals.1.wf(),
            wire_evals.2.wf(),
            wire_evals.3.wf(),
            sigma_evals.0.wf(),
            sigma_evals.1.wf(),
            sigma_evals.2.wf(),
            z_eval.wf(),
            z_poly.wf(),
            has_domain(poly_degree(z_poly@)),
        ensures
            r.wf(),
            r@ == permutation_linearisation(
                z_poly@,
                self.fourth_sigma.0@,
                z_challenge@,
                (challenges.0@, challenges.1@, challenges.2@),
                (wire_evals.0@, wire_evals.1@, wire_evals.2@, wire_evals.3@),
                (sigma_evals.0@, sigma_evals.1@, sigma_evals.2@),
                z_eval@,
            ),
    {
        let a = self.compute_lineariser_identity_range_check(
            wire_evals,
            z_challenge,
            challenges,
            z_poly,
        );
        let b = self.compute_lineariser_copy_range_check(
            (wire_evals.0, wire_evals.1, wire_evals.2),
            z_eval,
            sigma_evals.0,
            sigma_evals.1,
            sigma_evals.2,
            challenges,
            &self.fourth_sigma.0,
        );
        let domain = EvaluationDomain::new(z_poly.degree()).unwrap();
        let alpha_sq = fr_square(&challenges.0);
        let c = self.compute_lineariser_check_is_one(&domain, z_challenge, alpha_sq, z_poly);
        let a_b = dense_add(&a, &b);
        dense_add(&a_b, &c)
    }

    /// The identity term of the linearisation: `z_poly` times
    /// `(a + beta z + gamma)(b + beta K1 z + gamma)(c + beta K2 z + gamma)
    /// (d + beta K3 z + gamma) alpha`.
    pub fn compute_lineariser_identity_range_check(
        &self,
        wire_evals: (Scalar, Scalar, Scalar, Scalar),
        z_challenge: Scalar,
        challenges: (Scalar, Scalar, Scalar),
        z_poly: &Polynomial,
    ) -> (r: Polynomial)
        requires
            wire_evals.0.wf(),
            wire_evals.1.wf(),
            wire_evals.2.wf(),
            wire_evals.3.wf(),
            z_challenge.wf(),
            challenges.0.wf(),
            challenges.1.wf(),
            challenges.2.wf(),
            z_poly.wf(),
        ensures
            r.wf(),
            r@ == poly_scale(
                z_poly@,
                lineariser_identity_scalar(
                    (wire_evals.0@, wire_evals.1@, wire_evals.2@, wire_evals.3@),
                    z_challenge@,
                    challenges.0@,
                    challenges.1@,
                    challenges.2@,
                ),
            ),
    {
        let (a_eval, b_eval, c_eval, d_eval) = wire_evals;
        let (alpha, beta, gamma) = challenges;
        let k1 = Scalar::from_u64(K1);
        let k2 = Scalar::from_u64(K2);
        let k3 = Scalar::from_u64(K3);
        let ghost z = z_challenge@;
        proof {
            lemma_reduce_small(z);
            lemma_reduce_small(beta@);
            lemma_reduce_small(alpha@);
            lemma_reduce_small(k1@);
            lemma_reduce_small(k2@);
            lemma_reduce_small(k3@);
            assert(K1 * (beta@ * z) == beta@ * (K1 * z)) by (nonlinear_arith);
            assert(K2 * (beta@ * z) == beta@ * (K2 * z)) by (nonlinear_arith);
            assert(K3 * (beta@ * z) == beta@ * (K3 * z)) by (nonlinear_arith);
        }
        let beta_z = mul_residues(&beta, &z_challenge, Ghost(beta@), Ghost(z));
        let a_0 = shifted_wire(&a_eval, &beta_z, &gamma, Ghost(beta@ * z));
        let beta_z_k1 = mul_residues(&k1, &beta_z, Ghost(k1@), Ghost(beta@ * z));
        let a_1 = shifted_wire(&b_eval, &beta_z_k1, &gamma, Ghost(k1@ * (beta@ * z)));
        let beta_z_k2 = mul_residues(&k2, &beta_z, Ghost(k2@), Ghost(beta@ * z));
        let a_2 = shifted_wire(&c_eval, &beta_z_k2, &gamma, Ghost(k2@ * (beta@ * z)));
        let beta_z_k3 = mul_residues(&k3, &beta_z, Ghost(k3@), Ghost(beta@ * z));
        let a_3 = shifted_wire(&d_eval, &beta_z_k3, &gamma, Ghost(k3@ * (beta@ * z)));
        let ghost e_0 = wire_term(a_eval@, beta@, z, gamma@);
        let ghost e_1 = wire_term(b_eval@, beta@, K1 * z, gamma@);
        let ghost e_2 = wire_term(c_eval@, beta@, K2 * z, gamma@);
        let ghost e_3 = wire_term(d_eval@, beta@, K3 * z, gamma@);
        let p_1 = mul_residues(&a_0, &a_1, Ghost(e_0), Ghost(e_1));
        let p_2 = mul_residues(&p_1, &a_2, Ghost(e_0 * e_1), Ghost(e_2));
        let p_3 = mul_residues(&p_2, &a_3, Ghost(e_0 * e_1 * e_2), Ghost(e_3));
        let a = mul_residues(&p_3, &alpha, Ghost(e_0 * e_1 * e_2 * e_3), Ghost(alpha@));
        dense_scale(z_poly, &a)
    }

    /// The copy term of the linearisation: `fourth_sigma_poly` times
    /// `-(a + beta s1 + gamma)(b + beta s2 + gamma)(c + beta s3 + gamma)
    /// beta z_eval alpha`.
    pub fn compute_lineariser_copy_range_check(
        &self,
        wire_evals: (Scalar, Scalar, Scalar),
        z_eval: Scalar,
        sigma_1_eval: Scalar,
        sigma_2_eval: Scalar,
        sigma_3_eval: Scalar,
        challenges: (Scalar, Scalar, Scalar),
        fourth_sigma_poly: &Polynomial,
    ) -> (r: Polynomial)
        requires
            wire_evals.0.wf(),
            wire_evals.1.wf(),
            wire_evals.2.wf(),
            z_eval.wf(),
            sigma_1_eval.wf(),
            sigma_2_eval.wf(),
            sigma_3_eval.wf(),
            challenges.0.wf(),
            challenges.1.wf(),
            challenges.2.wf(),
            fourth_sigma_poly.wf(),
        ensures
            r.wf(),
            r@ == poly_scale(
                fourth_sigma_poly@,
                lineariser_copy_scalar(
                    (wire_evals.0@, wire_evals.1@, wire_evals.2@),
                    (sigma_1_eval@, sigma_2_eval@, sigma_3_eval@),
                    z_eval@,
                    challenges.0@,
                    challenges.1@,
                    challenges.2@,
                ),
            ),
    {
        let (a_eval, b_eval, c_eval) = wire_evals;
        let (alpha, beta, gamma) = challenges;
        proof {
            lemma_reduce_small(sigma_1_eval@);
            lemma_reduce_small(sigma_2_eval@);
            lemma_reduce_small(sigma_3_eval@);
            lemma_reduce_small(beta@);
            lemma_reduce_small(z_eval@);
            lemma_reduce_small(alpha@);
        }
        let a_0 = permuted_wire(&a_eval, &beta, &sigma_1_eval, &gamma);
        let a_1 = permuted_wire(&b_eval, &beta, &sigma_2_eval, &gamma);
        let a_2 = permuted_wire(&c_eval, &beta, &sigma_3_eval, &gamma);
        let beta_z_eval = mul_residues(&beta, &z_eval, Ghost(beta@), Ghost(z_eval@));
        let ghost e_0 = wire_term(a_eval@, beta@, sigma_1_eval@, gamma@);
        let ghost e_1 = wire_term(b_eval@, beta@, sigma_2_eval@, gamma@);
        let ghost e_2 = wire_term(c_eval@, beta@, sigma_3_eval@, gamma@);
        let p_1 = mul_residues(&a_0, &a_1, Ghost(e_0), Ghost(e_1));
        let p_2 = mul_residues(&p_1, &a_2, Ghost(e_0 * e_1), Ghost(e_2));
        let p_3 = mul_residues(&p_2, &beta_z_eval, Ghost(e_0 * e_1 * e_2), Ghost(beta@ * z_eval@));
        let a = mul_residues(
            &p_3,
            &alpha,
            Ghost(e_0 * e_1 * e_2 * (beta@ * z_eval@)),
            Ghost(alpha@),
        );
        proof {
            assert(e_0 * e_1 * e_2 * (beta@ * z_eval@) == e_0 * e_1 * e_2 * beta@ * z_eval@)
                by (nonlinear_arith);
        }
        let minus_a = neg_residue(&a, Ghost(e_0 * e_1 * e_2 * beta@ * z_eval@ * alpha@));
        dense_scale(fourth_sigma_poly, &minus_a)
    }

    /// The boundary term of the linearisation: `z_coeffs` times the first
    /// Lagrange coefficient of `domain` at `z_challenge`, times `alpha_sq`.
    pub fn compute_lineariser_check_is_one(
        &self,
        domain: &EvaluationDomain,
        z_challenge: Scalar,
        alpha_sq: Scalar,
        z_coeffs: &Polynomial,
    ) -> (r: Polynomial)
        requires
            domain.wf(),
            z_challenge.wf(),
            alpha_sq.wf(),
            z_coeffs.wf(),
        ensures
            r.wf(),
            r@ == lineariser_boundary_term(
                z_coeffs@,
                domain.size as int,
                z_challenge@,
                alpha_sq@,
            ),
    {
        let l_1_z = domain.evaluate_first_lagrange_coefficient(&z_challenge);
        proof {
            lemma_reduce_small(l_1_z@);
            lemma_reduce_small(alpha_sq@);
        }
        let scalar = mul_residues(&l_1_z, &alpha_sq, Ghost(l_1_z@), Ghost(alpha_sq@));
        dense_scale(z_coeffs, &scalar)
    }
}

/// A row contributes nothing to the quotient if the grand product advances
/// from it to the next row by the ratio of its identity product to its copy
/// product, and its boundary term is zero.
pub proof fn lemma_quotient_row_vanishes(
    wires: (int, int, int, int),
    x: int,
    sigmas: (int, int, int, int),
    z_i: int,
    z_i_next: int,
    alpha: int,
    l1_alpha_sq: int,
    beta: int,
    gamma: int,
)
    requires
        reduce(permutation_product(wires, coset_labels(x), beta, gamma) * z_i) == reduce(
            permutation_product(wires, sigmas, beta, gamma) * z_i_next,
        ),
        quotient_boundary_term(z_i, l1_alpha_sq) == 0,
    ensures
        quotient_row(wires, x, sigmas, z_i, z_i_next, alpha, l1_alpha_sq, beta, gamma) == 0,
{
    let identity = permutation_product(wires, coset_labels(x), beta, gamma) * z_i;
    let copy = permutation_product(wires, sigmas, beta, gamma) * z_i_next;
    let boundary = (z_i - 1) * l1_alpha_sq;
    lemma_mul_mod_noop_general(identity, alpha, modulus());
    lemma_mul_mod_noop_general(copy, alpha, modulus());
    lemma_sub_mod_noop(identity * alpha, copy * alpha, modulus());
    lemma_add_mod_noop(identity * alpha - copy * alpha, boundary, modulus());
    lemma_small_mod(0, modulus() as nat);
}

/// For a circuit whose grand product is the one of a satisfied permutation,
/// and with the boundary scalars derived from `alpha` and the first Lagrange
/// basis polynomial, the quotient contribution of every row is zero, and so
/// is their sum. The polynomial that interpolates the contributions is then
/// zero on the whole domain, which is to say a multiple of the domain's
/// vanishing polynomial.
pub proof fn lemma_quotient_vanishes_on_domain(
    size: int,
    wires: Seq<(int, int, int, int)>,
    elements: Seq<int>,
    sigmas: Seq<(int, int, int, int)>,
    z: Seq<int>,
    alpha: int,
    beta: int,
    gamma: int,
)
    requires
        is_domain_labelling(size, elements),
        elements.len() == z.len(),
        is_grand_product(wires, elements, sigmas, z, beta, gamma),
    ensures
        forall|i: int|
            0 <= i < z.len() ==> #[trigger] quotient_rows(
                wires,
                elements,
                sigmas,
                z,
                scaled_first_lagrange(size, elements, alpha),
                alpha,
                beta,
                gamma,
            )[i] == 0,
        quotient_sum(
            quotient_rows(
                wires,
                elements,
                sigmas,
                z,
                scaled_first_lagrange(size, elements, alpha),
                alpha,
                beta,
                gamma,
            ),
        ) == 0,
{
    let l1_alpha_sq = scaled_first_lagrange(size, elements, alpha);
    let rows = quotient_rows(wires, elements, sigmas, z, l1_alpha_sq, alpha, beta, gamma);
    assert forall|i: int| 0 <= i < z.len() implies #[trigger] rows[i] == 0 by {
        let next = z[(i + 1) % (z.len() as int)];
        assert(z[i] == z[i]);
        lemma_small_mod(0, modulus() as nat);
        if i == 0 {
            assert((z[i] - 1) * l1_alpha_sq[i] == 0) by (nonlinear_arith)
                requires
                    z[i] == 1,
            ;
        } else {
            assert(in_domain(size, elements[i]) && elements[i] != 1);
            lemma_first_lagrange_at_other_element(size, elements[i]);
            assert(0 * reduce(alpha * alpha) == 0);
            assert((z[i] - 1) * l1_alpha_sq[i] == 0) by (nonlinear_arith)
                requires
                    l1_alpha_sq[i] == 0,
            ;
        }
        lemma_quotient_row_vanishes(
            wires[i],
            elements[i],
            sigmas[i],
            z[i],
            next,
            alpha,
            l1_alpha_sq[i],
            beta,
            gamma,
        );
    }
    lemma_quotient_sum_of_zeros(rows);
}

/// Rows that are all zero sum to zero.
pub proof fn lemma_quotient_sum_of_zeros(rows: Seq<int>)
    requires
        forall|i: int| 0 <= i < rows.len() ==> rows[i] == 0,
    ensures
        quotient_sum(rows) == 0,
    decreases rows.len(),
{
    if rows.len() > 0 {
        lemma_quotient_sum_of_zeros(rows.drop_last());
        lemma_small_mod(0, modulus() as nat);
    }
}

/// At the first element of the domain the boundary term of the linearisation
/// is the grand-product polynomial times `alpha_sq`.
pub proof fn lemma_boundary_term_at_first_element(z_poly: Seq<int>, size: int, alpha_sq: int)
    requires
        size >= 0,
        0 <= alpha_sq < modulus(),
    ensures
        lineariser_boundary_term(z_poly, size, 1, alpha_sq) == poly_scale(z_poly, alpha_sq),
{
    lemma_first_lagrange_at_first_element(size);
    lemma_reduce_small(alpha_sq);
    assert(1 * alpha_sq == alpha_sq);
}

/// At every other element of the domain the boundary term of the
/// linearisation is the zero polynomial.
pub proof fn lemma_boundary_term_at_other_element(
    z_poly: Seq<int>,
    size: int,
    tau: int,
    alpha_sq: int,
)
    requires
        in_domain(size, tau),
        tau != 1,
    ensures
        lineariser_boundary_term(z_poly, size, tau, alpha_sq) == Seq::<int>::empty(),
{
    lemma_first_lagrange_at_other_element(size, tau);
    lemma_small_mod(0, modulus() as nat);
    assert(0 * alpha_sq == 0);
    lemma_poly_scale_zero(z_poly);
}

/// On the domain, and for a grand-product polynomial and an `alpha_sq` whose
/// product is not the zero polynomial, the boundary term of the
/// linearisation is that product exactly when the point is the first element.
pub proof fn lemma_boundary_term_on_domain(z_poly: Seq<int>, size: int, tau: int, alpha_sq: int)
    requires
        in_domain(size, tau),
        0 <= alpha_sq < modulus(),
        poly_scale(z_poly, alpha_sq) != Seq::<int>::empty(),
    ensures
        lineariser_boundary_term(z_poly, size, tau, alpha_sq) == poly_scale(z_poly, alpha_sq)
            <==> tau == 1,
{
    if tau == 1 {
        lemma_boundary_term_at_first_element(z_poly, size, alpha_sq);
    } else {
        lemma_boundary_term_at_other_element(z_poly, size, tau, alpha_sq);
    }
}

/// `w + beta_label + gamma`, where `beta_label` stands for the residue of `e`.
fn shifted_wire(w: &Scalar, beta_label: &Scalar, gamma: &Scalar, Ghost(e): Ghost<int>) -> (r:
    Scalar)
    requires
        w.wf(),
        beta_label.wf(),
        gamma.wf(),
        beta_label@ == reduce(e),
    ensures
        r.wf(),
        r@ == reduce(w@ + e + gamma@),
{
    proof {
        lemma_reduce_small(w@);
        lemma_reduce_small(gamma@);
    }
    let sum = add_residues(w, beta_label, Ghost(w@), Ghost(e));
    add_residues(&sum, gamma, Ghost(w@ + e), Ghost(gamma@))
}

/// `w + beta * sigma + gamma`.
fn permuted_wire(w: &Scalar, beta: &Scalar, sigma: &Scalar, gamma: &Scalar) -> (r: Scalar)
    requires
        w.wf(),
        beta.wf(),
        sigma.wf(),
        gamma.wf(),
    ensures
        r.wf(),
        r@ == reduce(wire_term(w@, beta@, sigma@, gamma@)),
{
    proof {
        lemma_reduce_small(beta@);
        lemma_reduce_small(sigma@);
    }
    let beta_sigma = mul_residues(beta, sigma, Ghost(beta@), Ghost(sigma@));
    shifted_wire(w, &beta_sigma, gamma, Ghost(beta@ * sigma@))
}

} // verus!
