use w3f_pcs::pcs::kzg::urs::URS;
use w3f_pcs::pcs::kzg::KZG;
use w3f_pcs::pcs::commitment::WrappedAffine;
use w3f_pcs::pcs::{PcsParams, PCS};
use ark_bn254::{Bn254, Fr, G1Affine, G2Affine};
use ark_ec::AffineRepr;
use ark_ff::{BigInt, PrimeField};
use ark_poly::univariate::DensePolynomial;
use ark_poly::{DenseUVPolynomial, Polynomial};
use ark_serialize::{CanonicalDeserialize, CanonicalSerialize};
use ark_std::test_rng;
use fflonk_decider::curve::{G1Point, G2Point};
use fflonk_decider::field::Scalar;
use fflonk_decider::kzg::{OpeningError, Urs};
use fflonk_decider::poly::{combine_pair, evaluate, opening_roots, roots_from_root};

fn sc(f: Fr) -> Scalar {
    Scalar::from_limbs(f.into_bigint().0).unwrap()
}

fn fr(s: &Scalar) -> Fr {
    Fr::from_bigint(BigInt::new(s.limbs())).unwrap()
}

fn rand_poly(d: usize, rng: &mut impl ark_std::rand::Rng) -> Vec<Scalar> {
    DensePolynomial::<Fr>::rand(d, rng).coeffs.iter().map(|c| sc(*c)).collect()
}

fn to_ark_poly(c: &[Scalar]) -> DensePolynomial<Fr> {
    DensePolynomial::from_coefficients_vec(c.iter().map(fr).collect())
}

fn g2_is_zero(p: &G2Point) -> bool {
    G2Affine::deserialize_uncompressed_unchecked(&p.to_uncompressed()[..]).unwrap().is_zero()
}

#[test]
fn test_w3f_pcs_kzg_integration() {
    let rng = &mut test_rng();
    let max_degree = 15;

    let urs = Urs::generate(max_degree + 1, 2, [7u8; 32]);
    let ck = urs.committer_key();
    let vk = urs.raw_verifier_key();

    let poly = rand_poly(max_degree, rng);
    let x = Scalar::from_u64(42);
    let y = evaluate(&poly, &x);

    let commitment = ck.commit(&poly).expect("Commit failed");
    let proof = ck.open(&poly, &x).expect("Open failed");

    let result = vk.check_opening(&commitment, &x, &y, &proof);
    assert!(result.is_ok(), "KZG verification failed");
}

#[test]
fn test_fflonk_prover_param_creation() {
    let max_degree = 31;
    let urs = Urs::generate(max_degree + 1, 2, [3u8; 32]);
    let kzg_ck = urs.committer_key();
    let _prover_param: fflonk_decider::decider::FflonkProverParam<()> =
        fflonk_decider::decider::FflonkProverParam { kzg_ck, cs_pp: () };
}

#[test]
fn test_urs_generation_validity() {
    let n1 = 64;
    let n2 = 2;

    let urs = Urs::generate(n1, n2, [5u8; 32]);
    let ck = urs.committer_key();
    let vk = urs.raw_verifier_key();

    assert_eq!(ck.max_degree() + 1, n1);
    assert!(!vk.g1.is_identity(), "G1 generator should not be zero");
    assert!(!g2_is_zero(&vk.g2), "G2 generator should not be zero");
    assert!(!g2_is_zero(&vk.tau_in_g2), "tau*g2 should not be zero");
}

#[test]
fn test_kzg_commit_open_verify_roundtrip() {
    let rng = &mut test_rng();
    let degree = 32;

    let urs = Urs::generate(degree + 1, 2, [9u8; 32]);
    let ck = urs.committer_key();
    let vk = urs.raw_verifier_key();

    let poly = rand_poly(degree, rng);
    let commitment = ck.commit(&poly).expect("Commit should succeed");

    for i in 1..=5u64 {
        let x = Scalar::from_u64(i);
        let y = evaluate(&poly, &x);
        let proof = ck.open(&poly, &x).expect("Open should succeed");
        let result = vk.check_opening(&commitment, &x, &y, &proof);
        assert!(result.is_ok(), "Verification at point {} failed", i);
    }
}

#[test]
fn test_kzg_verification_rejects_wrong_eval() {
    let rng = &mut test_rng();
    let degree = 16;

    let urs = Urs::generate(degree + 1, 2, [11u8; 32]);
    let ck = urs.committer_key();
    let vk = urs.raw_verifier_key();

    let poly = rand_poly(degree, rng);
    let commitment = ck.commit(&poly).unwrap();

    let x = Scalar::from_u64(42);
    let y_correct = evaluate(&poly, &x);
    let y_wrong = sc(fr(&y_correct) + Fr::from(1u64));

    let proof = ck.open(&poly, &x).unwrap();

    let result = vk.check_opening(&commitment, &x, &y_wrong, &proof);
    assert!(result.is_err(), "Should reject wrong evaluation");
    assert_eq!(result, Err(OpeningError::PairingMismatch));
}

#[test]
fn test_fflonk_combine_polynomials() {
    let rng = &mut test_rng();

    let w_poly = rand_poly(4, rng);
    let e_poly = rand_poly(4, rng);

    let t: usize = 2;
    let combined = combine_pair(w_poly.clone(), e_poly.clone());
    let degree = to_ark_poly(&combined).degree();

    assert!(degree <= t * (4 + 1) - 1, "Combined degree {} should be <= {}", degree, t * (4 + 1) - 1);

    let x = Fr::from(7u64);
    let x_squared = x * x;

    let expected = to_ark_poly(&w_poly).evaluate(&x_squared) + to_ark_poly(&e_poly).evaluate(&x_squared) * x;
    let actual = fr(&evaluate(&combined, &sc(x)));

    assert_eq!(expected, actual, "FFLONK combine formula verification failed");
}

#[test]
fn test_fflonk_roots() {
    let t: usize = 2;
    let root_of_16 = Scalar::from_u64(4);

    let roots = roots_from_root(&root_of_16);

    assert_eq!(roots.len(), t, "Should have t={} roots", t);

    let expected_value = Fr::from(16u64);
    for (i, root) in roots.iter().enumerate() {
        let root_squared = fr(root) * fr(root);
        assert_eq!(root_squared, expected_value, "Root {} squared should equal 16", i);
    }
    assert_eq!(fr(&roots[1]), -Fr::from(4u64));
}

#[test]
fn test_fflonk_batch_opening() {
    let rng = &mut test_rng();
    let max_degree = 15;
    let t: usize = 2;

    let urs = Urs::generate(max_degree * t + t + 1, 2, [13u8; 32]);
    let ck = urs.committer_key();
    let vk = urs.raw_verifier_key();

    let w_poly = rand_poly(max_degree / 2, rng);
    let e_poly = rand_poly(max_degree / 2, rng);
    let combined = combine_pair(w_poly, e_poly);

    let commitment = ck.commit(&combined).expect("Commit failed");

    let challenge_x = Scalar::from_u64(42);
    let y = evaluate(&combined, &challenge_x);
    let proof = ck.open(&combined, &challenge_x).expect("Open failed");

    let result = vk.check_opening(&commitment, &challenge_x, &y, &proof);
    assert!(result.is_ok(), "KZG verification of combined polynomial failed");

    for i in 1..=t as u64 {
        let x = Scalar::from_u64(i);
        let y = evaluate(&combined, &x);
        let c = ck.commit(&combined).unwrap();
        let p = ck.open(&combined, &x).unwrap();
        assert!(vk.check_opening(&c, &x, &y, &p).is_ok(), "Batch verification of combined polynomial failed");
    }
}

#[test]
fn commit_refuses_too_high_degree() {
    let rng = &mut test_rng();
    let urs = Urs::generate(4, 2, [1u8; 32]);
    let ck = urs.committer_key();
    let poly = rand_poly(3, rng);
    assert!(ck.commit(&poly).is_ok());
    let poly = rand_poly(4, rng);
    assert!(ck.commit(&poly).is_err());
    assert!(ck.open(&poly, &Scalar::from_u64(2)).is_ok());
    let poly = rand_poly(5, rng);
    assert!(ck.open(&poly, &Scalar::from_u64(2)).is_err());
}

#[test]
fn commitments_agree_with_w3f() {
    let rng = &mut test_rng();
    let urs = Urs::generate(9, 2, [21u8; 32]);
    let g1: Vec<G1Affine> = urs
        .powers_in_g1
        .iter()
        .map(|p| G1Affine::deserialize_uncompressed(&p.to_uncompressed()[..]).unwrap())
        .collect();
    let w3f_urs = URS::<Bn254> { powers_in_g1: g1, powers_in_g2: vec![] };
    let poly = rand_poly(8, rng);
    let c = urs.committer_key().commit(&poly).unwrap();
    let expected = KZG::<Bn254>::commit(&w3f_urs.ck(), &to_ark_poly(&poly)).unwrap();
    let mut bytes = vec![];
    expected.0.serialize_uncompressed(&mut bytes).unwrap();
    assert_eq!(c.to_uncompressed(), bytes);
}

#[test]
fn points_round_trip_and_compare() {
    let mut b = vec![];
    G1Affine::generator().serialize_uncompressed(&mut b).unwrap();
    let p = G1Point::from_uncompressed(b.clone()).unwrap();
    assert_eq!(p.to_uncompressed(), b);
    assert!(p.equals(&p.duplicate()));
    assert!(!p.is_identity());
    let mut z = vec![];
    G1Affine::zero().serialize_uncompressed(&mut z).unwrap();
    let zero = G1Point::from_uncompressed(z).unwrap();
    assert!(zero.is_identity());
    assert!(!p.equals(&zero));
    assert!(G1Point::from_uncompressed(vec![1, 2, 3]).is_none());
    let mut c = vec![];
    G2Affine::generator().serialize_uncompressed(&mut c).unwrap();
    assert!(G2Point::from_uncompressed(c).is_some());
}

#[test]
fn scalar_limbs_are_canonical() {
    assert!(Scalar::from_limbs([0x43e1f593f0000001, 0x2833e84879b97091, 0xb85045b68181585d, 0x30644e72e131a029]).is_none());
    let below = Scalar::from_limbs([0x43e1f593f0000000, 0x2833e84879b97091, 0xb85045b68181585d, 0x30644e72e131a029]).unwrap();
    assert_eq!(fr(&below), -Fr::from(1u64));
    assert!(Scalar::from_limbs([0, 0, 0, u64::MAX]).is_none());
    assert!(Scalar::from_u64(5).equals(&sc(Fr::from(5u64))));
    assert!(Scalar::from_u64(1).at_most(1));
    assert!(!Scalar::from_u64(2).at_most(1));
    assert!(!below.at_most(1));
}

#[test]
fn urs_read_from_compressed_encoding() {
    let rng = &mut test_rng();
    let w3f_urs = URS::<Bn254>::generate(8, 2, rng);
    let mut bytes = vec![];
    w3f_urs.serialize_compressed(&mut bytes).unwrap();
    let urs = Urs::from_compressed_bytes(&bytes).expect("decoding failed");
    assert_eq!(urs.powers_in_g1.len(), 8);
    assert_eq!(urs.powers_in_g2.len(), 2);
    for (p, q) in urs.powers_in_g1.iter().zip(w3f_urs.powers_in_g1.iter()) {
        let mut b = vec![];
        q.serialize_uncompressed(&mut b).unwrap();
        assert_eq!(p.to_uncompressed(), b);
    }
    let mut b = vec![];
    w3f_urs.powers_in_g2[1].serialize_uncompressed(&mut b).unwrap();
    assert_eq!(urs.powers_in_g2[1].to_uncompressed(), b);
    assert!(Urs::from_compressed_bytes(&bytes[..bytes.len() - 1].to_vec()).is_err());
    assert!(Urs::from_compressed_bytes(&vec![]).is_err());
}

#[test]
fn points_off_the_curve_are_refused() {
    let mut b = vec![];
    G1Affine::generator().serialize_uncompressed(&mut b).unwrap();
    b[0] ^= 1;
    assert!(G1Point::from_uncompressed(b).is_none());
    let mut c = vec![];
    G2Affine::generator().serialize_uncompressed(&mut c).unwrap();
    c[0] ^= 1;
    assert!(G2Point::from_uncompressed(c).is_none());
}

fn g1_of(p: &G1Point) -> G1Affine {
    G1Affine::deserialize_uncompressed(&p.to_uncompressed()[..]).unwrap()
}

#[test]
fn commitment_is_the_multi_scalar_sum() {
    let urs = Urs::generate(4, 2, [31u8; 32]);
    let ck = urs.committer_key();
    let bases: Vec<G1Affine> = urs.powers_in_g1.iter().map(g1_of).collect();
    let poly = vec![Scalar::from_u64(3), Scalar::from_u64(5), Scalar::from_u64(0)];
    let c = g1_of(&ck.commit(&poly).unwrap());
    let expected: G1Affine = (bases[0] * Fr::from(3u64) + bases[1] * Fr::from(5u64)).into();
    assert_eq!(c, expected);
    let zero = g1_of(&ck.commit(&vec![]).unwrap());
    assert!(zero.is_zero());
}

#[test]
fn opening_proof_commits_to_the_quotient() {
    let urs = Urs::generate(4, 2, [33u8; 32]);
    let ck = urs.committer_key();
    let bases: Vec<G1Affine> = urs.powers_in_g1.iter().map(g1_of).collect();
    // p = 2 + 7X + 4X^2; p / (X - 3) = (7 + 3*4) + 4X = 19 + 4X.
    let poly = vec![Scalar::from_u64(2), Scalar::from_u64(7), Scalar::from_u64(4)];
    let pi = g1_of(&ck.open(&poly, &Scalar::from_u64(3)).unwrap());
    let expected: G1Affine = (bases[0] * Fr::from(19u64) + bases[1] * Fr::from(4u64)).into();
    assert_eq!(pi, expected);
    let constant = g1_of(&ck.open(&vec![Scalar::from_u64(9)], &Scalar::from_u64(3)).unwrap());
    assert!(constant.is_zero());
}

#[test]
fn test_w3f_pcs_kzg_batch() {
    let rng = &mut test_rng();
    let max_degree = 15;
    let urs = Urs::generate(max_degree + 1, 2, [35u8; 32]);
    let ck = urs.committer_key();
    let w3f_urs = URS::<Bn254> {
        powers_in_g1: urs.powers_in_g1.iter().map(g1_of).collect(),
        powers_in_g2: urs
            .powers_in_g2
            .iter()
            .map(|p| G2Affine::deserialize_uncompressed(&p.to_uncompressed()[..]).unwrap())
            .collect(),
    };
    let vk = w3f_urs.vk();

    let mut commitments = Vec::new();
    let mut xs = Vec::new();
    let mut ys = Vec::new();
    let mut proofs = Vec::new();
    for i in 0..3u64 {
        let poly = rand_poly(max_degree, rng);
        let x = Scalar::from_u64(i + 1);
        commitments.push(WrappedAffine(g1_of(&ck.commit(&poly).unwrap())));
        proofs.push(g1_of(&ck.open(&poly, &x).unwrap()));
        ys.push(fr(&evaluate(&poly, &x)));
        xs.push(fr(&x));
    }
    let result = KZG::<Bn254>::batch_verify(&vk, commitments, xs, ys, proofs, rng);
    assert!(result.is_ok(), "KZG batch verification failed");
}

#[test]
fn opening_roots_are_square_roots_of_the_point() {
    let roots = opening_roots(&Scalar::from_u64(16)).unwrap();
    assert_eq!(roots.len(), 2);
    for root in roots.iter() {
        assert_eq!(fr(root) * fr(root), Fr::from(16u64));
    }
    assert_eq!(fr(&roots[1]), -fr(&roots[0]));
    assert!(opening_roots(&Scalar::from_u64(5)).is_none());
    assert_eq!(opening_roots(&Scalar::from_u64(0)).unwrap(), vec![Scalar::from_u64(0), Scalar::from_u64(0)]);
}

#[test]
fn identity_encoding_is_the_flagged_zero() {
    let mut z = vec![];
    G1Affine::zero().serialize_uncompressed(&mut z).unwrap();
    let mut expected = vec![0u8; 64];
    expected[63] = 0x40;
    assert_eq!(z, expected);
    let p = G1Point::from_uncompressed(expected).unwrap();
    assert!(p.is_identity());
}
