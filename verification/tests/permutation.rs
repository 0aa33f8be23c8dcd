use ark_bls12_381::Fr;
use ark_ff::{BigInteger256, Field, PrimeField};
use ark_poly::univariate::DensePolynomial;
use ark_poly::{EvaluationDomain as ArkDomain, GeneralEvaluationDomain, Polynomial as ArkPoly};
use plonk_linearisation::domain::EvaluationDomain;
use plonk_linearisation::field::Scalar;
use plonk_linearisation::permutation::{PermutationProverKey, K1, K2, K3};
use plonk_linearisation::polynomial::Polynomial;

fn sc(value: u64) -> Scalar {
    Scalar::from_u64(value)
}

fn to_fr(value: &Scalar) -> Fr {
    Fr::from_repr(BigInteger256(value.limbs)).unwrap()
}

fn to_scalar(value: Fr) -> Scalar {
    Scalar { limbs: value.into_repr().0 }
}

fn minus(value: u64) -> Scalar {
    to_scalar(-Fr::from(value))
}

fn polynomial(coeffs: &[u64]) -> Polynomial {
    Polynomial::from_coefficients(coeffs.iter().map(|c| sc(*c)).collect())
}

fn to_dense(p: &Polynomial) -> DensePolynomial<Fr> {
    DensePolynomial { coeffs: p.coeffs.iter().map(to_fr).collect() }
}

fn to_polynomial(p: &DensePolynomial<Fr>) -> Polynomial {
    Polynomial { coeffs: p.coeffs.iter().map(|c| to_scalar(*c)).collect() }
}

fn table(values: &[u64]) -> Vec<Scalar> {
    values.iter().map(|v| sc(*v)).collect()
}

/// A key over four rows. The row elements are 1, 5, 6, 9; the sigma tables of
/// row 0 hold the identity labels of that row.
fn key() -> PermutationProverKey {
    PermutationProverKey {
        left_sigma: (polynomial(&[3, 1]), table(&[1, 2, 3, 4])),
        right_sigma: (polynomial(&[0, 2, 5]), table(&[2, 7, 1, 8])),
        out_sigma: (polynomial(&[7]), table(&[3, 11, 13, 17])),
        fourth_sigma: (polynomial(&[1, 0, 0, 4]), table(&[4, 19, 23, 29])),
        linear_evaluations: table(&[1, 5, 6, 9]),
    }
}

#[test]
fn coset_constants() {
    assert_eq!((K1, K2, K3), (2, 3, 4));
}

#[test]
fn quotient_identity_term_on_the_first_row() {
    // (2 + 3 + 1)(3 + 6 + 1)(5 + 9 + 1)(7 + 12 + 1) * 1 * 2
    let r = key().compute_quotient_identity_range_check_i(
        0,
        sc(2),
        sc(3),
        sc(5),
        sc(7),
        sc(1),
        sc(2),
        sc(3),
        sc(1),
    );
    assert_eq!(r, sc(36000));
}

#[test]
fn quotient_identity_term_reads_the_row_element() {
    // x = 5: (2 + 15 + 1)(3 + 30 + 1)(5 + 45 + 1)(7 + 60 + 1) * 3 * 2
    let r = key().compute_quotient_identity_range_check_i(
        1,
        sc(2),
        sc(3),
        sc(5),
        sc(7),
        sc(3),
        sc(2),
        sc(3),
        sc(1),
    );
    assert_eq!(r, sc(18 * 34 * 51 * 68 * 3 * 2));
}

#[test]
fn quotient_copy_term_is_the_negated_product() {
    // -(2 + 3 + 1)(3 + 6 + 1)(5 + 9 + 1)(7 + 12 + 1) * 1 * 2
    let r = key().compute_quotient_copy_range_check_i(
        0,
        sc(2),
        sc(3),
        sc(5),
        sc(7),
        sc(1),
        sc(2),
        sc(3),
        sc(1),
    );
    assert_eq!(r, minus(36000));
    // row 1: -(2 + 6 + 1)(3 + 21 + 1)(5 + 33 + 1)(7 + 57 + 1) * 4 * 2
    let r = key().compute_quotient_copy_range_check_i(
        1,
        sc(2),
        sc(3),
        sc(5),
        sc(7),
        sc(4),
        sc(2),
        sc(3),
        sc(1),
    );
    assert_eq!(r, minus(9 * 25 * 39 * 65 * 4 * 2));
}

#[test]
fn quotient_copy_term_of_a_zero_product_is_zero() {
    let r = key().compute_quotient_copy_range_check_i(
        0,
        sc(2),
        sc(3),
        sc(5),
        sc(7),
        sc(0),
        sc(2),
        sc(3),
        sc(1),
    );
    assert_eq!(r, sc(0));
}

#[test]
fn quotient_boundary_term() {
    let k = key();
    assert_eq!(k.compute_quotient_term_check_one_i(sc(5), sc(7)), sc(28));
    assert_eq!(k.compute_quotient_term_check_one_i(sc(1), sc(7)), sc(0));
    assert_eq!(k.compute_quotient_term_check_one_i(sc(0), sc(7)), minus(7));
    assert_eq!(k.compute_quotient_term_check_one_i(sc(5), sc(0)), sc(0));
}

#[test]
fn quotient_row_is_the_sum_of_the_three_terms() {
    // row 1, z_i = 3, z_i_next = 4, alpha = 2, l1_alpha_sq = 10, beta = 3, gamma = 1
    let r = key().compute_quotient_i(
        1,
        sc(2),
        sc(3),
        sc(5),
        sc(7),
        sc(3),
        sc(4),
        sc(2),
        sc(10),
        sc(3),
        sc(1),
    );
    let identity: u64 = 18 * 34 * 51 * 68 * 3 * 2;
    let copy: u64 = 9 * 25 * 39 * 65 * 4 * 2;
    let boundary: u64 = (3 - 1) * 10;
    assert_eq!(r, sc(identity - copy + boundary));
}

#[test]
fn quotient_row_vanishes_where_the_grand_product_holds() {
    // On row 0 the sigma values are the identity labels, so the grand product
    // stays at one; the boundary term vanishes because z_i is one.
    let r = key().compute_quotient_i(
        0,
        sc(2),
        sc(3),
        sc(5),
        sc(7),
        sc(1),
        sc(1),
        sc(2),
        sc(4),
        sc(3),
        sc(1),
    );
    assert_eq!(r, sc(0));
    // On row 1 the identity product is 18 * 34 * 51 * 68 and the copy product
    // 9 * 25 * 39 * 65: with z_i the latter and z_i_next the former the two
    // terms cancel, and off the first row the Lagrange value is zero.
    let r = key().compute_quotient_i(
        1,
        sc(2),
        sc(3),
        sc(5),
        sc(7),
        sc(9 * 25 * 39 * 65),
        sc(18 * 34 * 51 * 68),
        sc(2),
        sc(0),
        sc(3),
        sc(1),
    );
    assert_eq!(r, sc(0));
}

#[test]
fn quotient_row_does_not_vanish_for_a_wrong_wire_value() {
    let r = key().compute_quotient_i(
        0,
        sc(3),
        sc(3),
        sc(5),
        sc(7),
        sc(1),
        sc(1),
        sc(2),
        sc(4),
        sc(3),
        sc(1),
    );
    assert_eq!(r, sc(0));
    let r = key().compute_quotient_i(
        1,
        sc(3),
        sc(3),
        sc(5),
        sc(7),
        sc(9 * 25 * 39 * 65),
        sc(18 * 34 * 51 * 68),
        sc(2),
        sc(0),
        sc(3),
        sc(1),
    );
    assert_ne!(r, sc(0));
}

#[test]
fn lineariser_identity_term_scales_the_grand_product_polynomial() {
    // a = 2, b = 3, c = 5, d = 7, alpha = 2, beta = 3, gamma = 1, z = 5:
    // (2 + 3z + 1)(3 + 6z + 1)(5 + 9z + 1)(7 + 12z + 1) * 2
    let factor: u64 = 18 * 34 * 51 * 68 * 2;
    assert_eq!(factor, 4_244_832);
    let z_poly = polynomial(&[1, 2, 3]);
    let r = key().compute_lineariser_identity_range_check(
        (sc(2), sc(3), sc(5), sc(7)),
        sc(5),
        (sc(2), sc(3), sc(1)),
        &z_poly,
    );
    assert_eq!(r.coeffs, vec![sc(factor), sc(2 * factor), sc(3 * factor)]);
    assert_eq!(r.evaluate(&sc(5)), sc(86 * factor));
}

#[test]
fn lineariser_identity_term_without_gamma() {
    // a = 2, b = 3, c = 5, d = 7, alpha = 2, beta = 3, gamma = 0, z = 5:
    // (2 + 3z)(3 + 6z)(5 + 9z)(7 + 12z) * 2
    let factor: u64 = (2 + 3 * 5) * (3 + 6 * 5) * (5 + 9 * 5) * (7 + 12 * 5) * 2;
    assert_eq!(factor, 3_758_700);
    let z_poly = polynomial(&[1, 2, 3]);
    let r = key().compute_lineariser_identity_range_check(
        (sc(2), sc(3), sc(5), sc(7)),
        sc(5),
        (sc(2), sc(3), sc(0)),
        &z_poly,
    );
    assert_eq!(r.coeffs, vec![sc(factor), sc(2 * factor), sc(3 * factor)]);
    assert_eq!(r.evaluate(&sc(5)), sc(86 * factor));
}

#[test]
fn lineariser_identity_term_of_a_zero_factor_is_the_zero_polynomial() {
    let r = key().compute_lineariser_identity_range_check(
        (sc(2), sc(3), sc(5), sc(7)),
        sc(5),
        (sc(0), sc(3), sc(1)),
        &polynomial(&[1, 2, 3]),
    );
    assert_eq!(r, Polynomial::zero());
}

#[test]
fn lineariser_copy_term_scales_the_fourth_sigma_polynomial() {
    // a = 2, b = 3, c = 5, sigma = 4, 6, 8, z_eval = 7, alpha = 2, beta = 3, gamma = 1:
    // -(2 + 12 + 1)(3 + 18 + 1)(5 + 24 + 1) * 3 * 7 * 2
    let factor: u64 = 15 * 22 * 30 * 3 * 7 * 2;
    let k = key();
    let r = k.compute_lineariser_copy_range_check(
        (sc(2), sc(3), sc(5)),
        sc(7),
        sc(4),
        sc(6),
        sc(8),
        (sc(2), sc(3), sc(1)),
        &k.fourth_sigma.0,
    );
    assert_eq!(r.coeffs, vec![minus(factor), sc(0), sc(0), minus(4 * factor)]);
}

#[test]
fn lineariser_boundary_term_on_the_domain() {
    let domain = EvaluationDomain::new(4).unwrap();
    let z_poly = polynomial(&[1, 2, 3]);
    let k = key();
    // at the first element the term is z_poly times alpha squared
    let r = k.compute_lineariser_check_is_one(&domain, sc(1), sc(9), &z_poly);
    assert_eq!(r.coeffs, vec![sc(9), sc(18), sc(27)]);
    // at every other element it is zero
    let r = k.compute_lineariser_check_is_one(&domain, domain.group_gen, sc(9), &z_poly);
    assert_eq!(r, Polynomial::zero());
}

#[test]
fn lineariser_boundary_term_off_the_domain() {
    // the first Lagrange coefficient of the domain of size 4 at 5 is 39
    let domain = EvaluationDomain::new(4).unwrap();
    let r = key().compute_lineariser_check_is_one(&domain, sc(5), sc(9), &polynomial(&[1, 2, 3]));
    assert_eq!(r.coeffs, vec![sc(351), sc(702), sc(1053)]);
}

fn reference_linearisation(
    k: &PermutationProverKey,
    z: u64,
    challenges: (u64, u64, u64),
    wires: (u64, u64, u64, u64),
    sigmas: (u64, u64, u64),
    z_eval: u64,
    z_poly: &DensePolynomial<Fr>,
) -> DensePolynomial<Fr> {
    let f = |v: u64| Fr::from(v);
    let (alpha, beta, gamma) = (f(challenges.0), f(challenges.1), f(challenges.2));
    let z = f(z);
    let identity = (f(wires.0) + beta * z + gamma)
        * (f(wires.1) + beta * f(K1) * z + gamma)
        * (f(wires.2) + beta * f(K2) * z + gamma)
        * (f(wires.3) + beta * f(K3) * z + gamma)
        * alpha;
    let copy = (f(wires.0) + beta * f(sigmas.0) + gamma)
        * (f(wires.1) + beta * f(sigmas.1) + gamma)
        * (f(wires.2) + beta * f(sigmas.2) + gamma)
        * beta
        * f(z_eval)
        * alpha;
    let domain = GeneralEvaluationDomain::<Fr>::new(z_poly.degree()).unwrap();
    let l_1_z = domain.evaluate_all_lagrange_coefficients(z)[0];
    let a = z_poly * identity;
    let b = &to_dense(&k.fourth_sigma.0) * (-copy);
    let c = z_poly * (l_1_z * alpha.square());
    &(&a + &b) + &c
}

#[test]
fn linearisation_is_the_sum_of_the_three_terms() {
    let k = key();
    let z_poly = polynomial(&[1, 2, 3, 4, 5]);
    let r = k.compute_linearisation(
        sc(5),
        (sc(2), sc(3), sc(1)),
        (sc(2), sc(3), sc(5), sc(7)),
        (sc(4), sc(6), sc(8)),
        sc(7),
        &z_poly,
    );
    let identity: u64 = 18 * 34 * 51 * 68 * 2;
    let copy: u64 = 15 * 22 * 30 * 3 * 7 * 2;
    // degree 4 gives the domain of size 4, whose first Lagrange value at 5 is 39
    let boundary: u64 = 39 * 2 * 2;
    let scale = identity + boundary;
    assert_eq!(
        r.coeffs,
        vec![
            sc(scale - copy),
            sc(2 * scale),
            sc(3 * scale),
            sc(4 * scale - 4 * copy),
            sc(5 * scale),
        ]
    );
    let expected = reference_linearisation(
        &k,
        5,
        (2, 3, 1),
        (2, 3, 5, 7),
        (4, 6, 8),
        7,
        &to_dense(&z_poly),
    );
    assert_eq!(r, to_polynomial(&expected));
}

#[test]
fn linearisation_takes_the_domain_from_the_degree() {
    // degree 5 gives the domain of size 8: (5^8 - 1) / (8 * 4) = 12207
    let k = key();
    let z_poly = polynomial(&[0, 0, 0, 0, 0, 1]);
    let r = k.compute_linearisation(
        sc(5),
        (sc(2), sc(3), sc(1)),
        (sc(2), sc(3), sc(5), sc(7)),
        (sc(4), sc(6), sc(8)),
        sc(0),
        &z_poly,
    );
    let identity: u64 = 18 * 34 * 51 * 68 * 2;
    let boundary: u64 = 12207 * 2 * 2;
    assert_eq!(r.coeffs, vec![sc(0), sc(0), sc(0), sc(0), sc(0), sc(identity + boundary)]);
}

#[test]
fn linearisation_with_leading_terms_that_cancel() {
    // z_poly and the fourth sigma polynomial have degree 3; with an identity
    // and boundary scalar of s and a copy scalar of -c the leading coefficient
    // is s - 4c, which the inputs below make zero.
    let k = key();
    let z_poly = polynomial(&[1, 0, 0, 4]);
    let r = k.compute_linearisation(
        sc(1),
        (sc(1), sc(0), sc(1)),
        (sc(0), sc(0), sc(0), sc(0)),
        (sc(0), sc(0), sc(0)),
        sc(0),
        &z_poly,
    );
    // identity scalar 1, copy scalar 0, boundary scalar 1 at the first element
    assert_eq!(r.coeffs, vec![sc(2), sc(0), sc(0), sc(8)]);
    let expected = reference_linearisation(
        &k,
        1,
        (1, 0, 1),
        (0, 0, 0, 0),
        (0, 0, 0),
        0,
        &to_dense(&z_poly),
    );
    assert_eq!(r, to_polynomial(&expected));
}

struct Circuit {
    a: [u64; 4],
    b: [u64; 4],
    c: [u64; 4],
    d: [u64; 4],
}

/// A circuit of four rows in which the left wire of row 0 is copied to the
/// right wire of row 1, and the output wire of row 2 to the fourth wire of
/// row 3.
fn satisfied_circuit() -> Circuit {
    Circuit { a: [5, 1, 2, 3], b: [4, 5, 6, 7], c: [8, 9, 11, 10], d: [12, 13, 14, 11] }
}

fn wiring(domain: &EvaluationDomain) -> PermutationProverKey {
    let g = to_fr(&domain.group_gen);
    let x = [Fr::from(1u64), g, g * g, g * g * g];
    let label = |k: u64, i: usize| to_scalar(Fr::from(k) * x[i]);
    let mut left: Vec<Scalar> = (0..4).map(|i| label(1, i)).collect();
    let mut right: Vec<Scalar> = (0..4).map(|i| label(K1, i)).collect();
    let mut out: Vec<Scalar> = (0..4).map(|i| label(K2, i)).collect();
    let mut fourth: Vec<Scalar> = (0..4).map(|i| label(K3, i)).collect();
    left[0] = label(K1, 1);
    right[1] = label(1, 0);
    out[2] = label(K3, 3);
    fourth[3] = label(K2, 2);
    PermutationProverKey {
        left_sigma: (polynomial(&[1]), left),
        right_sigma: (polynomial(&[1]), right),
        out_sigma: (polynomial(&[1]), out),
        fourth_sigma: (polynomial(&[1]), fourth),
        linear_evaluations: x.iter().map(|e| to_scalar(*e)).collect(),
    }
}

/// The grand product of a circuit: one on the first row, then multiplied row
/// by row by the identity product over the copy product. The last entry is
/// the value after the last row.
fn grand_product(k: &PermutationProverKey, circuit: &Circuit, beta: Fr, gamma: Fr) -> Vec<Fr> {
    let f = |v: u64| Fr::from(v);
    let mut z = vec![Fr::from(1u64)];
    for i in 0..4 {
        let x = to_fr(&k.linear_evaluations[i]);
        let identity = (f(circuit.a[i]) + beta * x + gamma)
            * (f(circuit.b[i]) + beta * f(K1) * x + gamma)
            * (f(circuit.c[i]) + beta * f(K2) * x + gamma)
            * (f(circuit.d[i]) + beta * f(K3) * x + gamma);
        let copy = (f(circuit.a[i]) + beta * to_fr(&k.left_sigma.1[i]) + gamma)
            * (f(circuit.b[i]) + beta * to_fr(&k.right_sigma.1[i]) + gamma)
            * (f(circuit.c[i]) + beta * to_fr(&k.out_sigma.1[i]) + gamma)
            * (f(circuit.d[i]) + beta * to_fr(&k.fourth_sigma.1[i]) + gamma);
        let next = z[i] * identity * copy.inverse().unwrap();
        z.push(next);
    }
    z
}

fn quotient_of_every_row(circuit: &Circuit, z: &[Fr]) -> Vec<Scalar> {
    let domain = EvaluationDomain::new(4).unwrap();
    let k = wiring(&domain);
    let alpha = sc(1234567);
    let alpha_sq = to_fr(&alpha).square();
    (0..4)
        .map(|i| {
            let l1 = domain.evaluate_first_lagrange_coefficient(&k.linear_evaluations[i]);
            k.compute_quotient_i(
                i,
                sc(circuit.a[i]),
                sc(circuit.b[i]),
                sc(circuit.c[i]),
                sc(circuit.d[i]),
                to_scalar(z[i]),
                to_scalar(z[(i + 1) % 4]),
                alpha,
                to_scalar(to_fr(&l1) * alpha_sq),
                sc(987654321),
                sc(192837465),
            )
        })
        .collect()
}

#[test]
fn quotient_vanishes_on_every_row_of_a_satisfied_circuit() {
    let domain = EvaluationDomain::new(4).unwrap();
    let circuit = satisfied_circuit();
    let z = grand_product(
        &wiring(&domain),
        &circuit,
        Fr::from(987654321u64),
        Fr::from(192837465u64),
    );
    assert_eq!(z[4], Fr::from(1u64));
    assert_ne!(z[1], Fr::from(1u64));
    assert_eq!(quotient_of_every_row(&circuit, &z), vec![sc(0), sc(0), sc(0), sc(0)]);
}

#[test]
fn quotient_does_not_vanish_for_a_broken_copy_constraint() {
    let domain = EvaluationDomain::new(4).unwrap();
    let mut circuit = satisfied_circuit();
    circuit.b[1] = 6;
    let z = grand_product(
        &wiring(&domain),
        &circuit,
        Fr::from(987654321u64),
        Fr::from(192837465u64),
    );
    assert_ne!(z[4], Fr::from(1u64));
    let rows = quotient_of_every_row(&circuit, &z);
    assert_eq!(rows[0], sc(0));
    assert_eq!(rows[1], sc(0));
    assert_eq!(rows[2], sc(0));
    assert_ne!(rows[3], sc(0));
}

#[test]
fn quotient_does_not_vanish_for_a_grand_product_that_starts_elsewhere() {
    let domain = EvaluationDomain::new(4).unwrap();
    let circuit = satisfied_circuit();
    let z: Vec<Fr> = grand_product(
        &wiring(&domain),
        &circuit,
        Fr::from(987654321u64),
        Fr::from(192837465u64),
    )
    .iter()
    .map(|v| *v * Fr::from(2u64))
    .collect();
    let rows = quotient_of_every_row(&circuit, &z);
    assert_ne!(rows[0], sc(0));
    assert_eq!(rows[1], sc(0));
    assert_eq!(rows[2], sc(0));
    assert_eq!(rows[3], sc(0));
}
