use ark_bls12_381::Fr;
use ark_ff::{BigInteger256, Field, PrimeField};
use ark_poly::{EvaluationDomain as ArkDomain, GeneralEvaluationDomain};
use plonk_linearisation::domain::{EvaluationDomain, MAX_DOMAIN_SIZE};
use plonk_linearisation::field::{
    Scalar, MODULUS_LIMB_0, MODULUS_LIMB_1, MODULUS_LIMB_2, MODULUS_LIMB_3,
};
use plonk_linearisation::polynomial::Polynomial;

fn s(value: u64) -> Scalar {
    Scalar::from_u64(value)
}

fn as_fr(value: &Scalar) -> Fr {
    Fr::from_repr(BigInteger256(value.limbs)).unwrap()
}

fn as_scalar(value: Fr) -> Scalar {
    Scalar { limbs: value.into_repr().0 }
}

fn poly(coeffs: &[u64]) -> Polynomial {
    Polynomial::from_coefficients(coeffs.iter().map(|c| s(*c)).collect())
}

#[test]
fn scalar_from_u64_holds_the_value_in_the_lowest_limb() {
    assert_eq!(s(0).limbs, [0, 0, 0, 0]);
    assert_eq!(s(7).limbs, [7, 0, 0, 0]);
    assert_eq!(s(u64::MAX).limbs, [u64::MAX, 0, 0, 0]);
    assert_eq!(Scalar::zero(), s(0));
    assert_eq!(Scalar::one(), s(1));
    assert_eq!(as_fr(&s(7)), Fr::from(7u64));
}

#[test]
fn scalar_from_limbs_accepts_exactly_the_canonical_representatives() {
    let modulus = [MODULUS_LIMB_0, MODULUS_LIMB_1, MODULUS_LIMB_2, MODULUS_LIMB_3];
    assert_eq!(Scalar::from_limbs(modulus), None);
    let largest = [MODULUS_LIMB_0 - 1, MODULUS_LIMB_1, MODULUS_LIMB_2, MODULUS_LIMB_3];
    assert_eq!(Scalar::from_limbs(largest), Some(Scalar { limbs: largest }));
    assert_eq!(as_fr(&Scalar { limbs: largest }), -Fr::from(1u64));
    assert_eq!(Scalar::from_limbs([0, 0, 0, MODULUS_LIMB_3 + 1]), None);
    assert_eq!(Scalar::from_limbs([u64::MAX; 4]), None);
    assert_eq!(
        Scalar::from_limbs([u64::MAX, u64::MAX, u64::MAX, MODULUS_LIMB_3 - 1]),
        Some(Scalar { limbs: [u64::MAX, u64::MAX, u64::MAX, MODULUS_LIMB_3 - 1] })
    );
    assert_eq!(Scalar::from_limbs([0, MODULUS_LIMB_1 + 1, MODULUS_LIMB_2, MODULUS_LIMB_3]), None);
    assert_eq!(Scalar::from_limbs([5, 0, 0, 0]), Some(s(5)));
}

#[test]
fn scalar_is_zero_only_for_zero() {
    assert!(s(0).is_zero());
    assert!(!s(1).is_zero());
    assert!(!Scalar { limbs: [0, 0, 0, 1] }.is_zero());
    assert!(!Scalar { limbs: [0, 1, 0, 0] }.is_zero());
}

#[test]
fn polynomial_from_coefficients_drops_zero_leading_coefficients() {
    assert_eq!(poly(&[1, 2, 0, 0]).coeffs, vec![s(1), s(2)]);
    assert_eq!(poly(&[0, 0, 3]).coeffs, vec![s(0), s(0), s(3)]);
    assert_eq!(poly(&[0, 0, 0]).coeffs, Vec::<Scalar>::new());
    assert_eq!(poly(&[]), Polynomial::zero());
}

#[test]
fn polynomial_degree_is_one_less_than_the_coefficient_count() {
    assert_eq!(poly(&[]).degree(), 0);
    assert_eq!(poly(&[9]).degree(), 0);
    assert_eq!(poly(&[9, 1]).degree(), 1);
    assert_eq!(poly(&[1, 2, 3, 4, 5]).degree(), 4);
    assert_eq!(poly(&[1, 2, 3, 0, 0]).degree(), 2);
}

#[test]
fn polynomial_evaluate_gives_the_value_at_the_point() {
    // 1 + 2x + 3x^2 at 5
    assert_eq!(poly(&[1, 2, 3]).evaluate(&s(5)), s(86));
    assert_eq!(poly(&[1, 2, 3]).evaluate(&s(0)), s(1));
    assert_eq!(poly(&[]).evaluate(&s(5)), s(0));
    assert_eq!(poly(&[4]).evaluate(&s(123)), s(4));
    // x at p - 1 is p - 1
    let minus_one = as_scalar(-Fr::from(1u64));
    assert_eq!(poly(&[0, 1]).evaluate(&minus_one), minus_one);
    // x^2 at p - 1 wraps round to 1
    assert_eq!(poly(&[0, 0, 1]).evaluate(&minus_one), s(1));
}

#[test]
fn domain_new_rounds_the_size_up_to_a_power_of_two() {
    assert_eq!(EvaluationDomain::new(0).unwrap().size, 1);
    assert_eq!(EvaluationDomain::new(1).unwrap().size, 1);
    assert_eq!(EvaluationDomain::new(2).unwrap().size, 2);
    assert_eq!(EvaluationDomain::new(3).unwrap().size, 4);
    assert_eq!(EvaluationDomain::new(4).unwrap().size, 4);
    assert_eq!(EvaluationDomain::new(5).unwrap().size, 8);
    assert_eq!(EvaluationDomain::new(1000).unwrap().size, 1024);
}

#[test]
fn domain_new_knows_the_largest_size() {
    let largest = MAX_DOMAIN_SIZE as usize;
    assert_eq!(EvaluationDomain::new(largest).unwrap().size, largest);
    assert_eq!(EvaluationDomain::new(largest - 1).unwrap().size, largest);
    assert_eq!(EvaluationDomain::new(largest + 1), None);
    assert_eq!(EvaluationDomain::new(usize::MAX), None);
}

#[test]
fn domain_generator_has_the_order_of_the_domain() {
    let domain = EvaluationDomain::new(8).unwrap();
    let generator = as_fr(&domain.group_gen);
    assert_eq!(generator.pow([8u64]), Fr::from(1u64));
    assert_eq!(generator.pow([4u64]), -Fr::from(1u64));
    assert_eq!(EvaluationDomain::new(1).unwrap().group_gen, s(1));
    assert_eq!(EvaluationDomain::new(2).unwrap().group_gen, as_scalar(-Fr::from(1u64)));
    let theirs = GeneralEvaluationDomain::<Fr>::new(8).unwrap();
    assert_eq!(generator, theirs.element(1));
}

#[test]
fn first_lagrange_coefficient_is_the_indicator_of_the_first_element() {
    let domain = EvaluationDomain::new(4).unwrap();
    assert_eq!(domain.evaluate_first_lagrange_coefficient(&s(1)), s(1));
    let generator = as_fr(&domain.group_gen);
    let mut element = generator;
    for _ in 1..4 {
        assert_eq!(domain.evaluate_first_lagrange_coefficient(&as_scalar(element)), s(0));
        element *= generator;
    }
    assert_eq!(element, Fr::from(1u64));
}

#[test]
fn first_lagrange_coefficient_off_the_domain() {
    // (5^4 - 1) / (4 * (5 - 1)) = 624 / 16
    let domain = EvaluationDomain::new(4).unwrap();
    assert_eq!(domain.evaluate_first_lagrange_coefficient(&s(5)), s(39));
    // (3^2 - 1) / (2 * (3 - 1)) = 2
    let domain = EvaluationDomain::new(2).unwrap();
    assert_eq!(domain.evaluate_first_lagrange_coefficient(&s(3)), s(2));
    // the only basis polynomial of the domain of size one is the constant one
    let domain = EvaluationDomain::new(1).unwrap();
    assert_eq!(domain.evaluate_first_lagrange_coefficient(&s(77)), s(1));
    // (0 - 1) / (4 * (0 - 1)) = 1 / 4
    let domain = EvaluationDomain::new(4).unwrap();
    let quarter = as_scalar(Fr::from(4u64).inverse().unwrap());
    assert_eq!(domain.evaluate_first_lagrange_coefficient(&s(0)), quarter);
}
