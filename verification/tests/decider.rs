use ark_bn254::{Fr, G1Affine, G1Projective, G2Affine};
use ark_ec::AffineRepr;
use ark_ff::{BigInt, PrimeField};
use ark_poly::univariate::DensePolynomial;
use ark_poly::{DenseUVPolynomial, Polynomial};
use ark_serialize::CanonicalSerialize;
use fflonk_decider::curve::{G1Point, G2Point};
use fflonk_decider::decider::{
    fold_commitments, urs_size, DeciderError, DeciderFflonk, DeciderWitness, FflonkProof, FflonkProverParam,
    FflonkVerifierParam, FFLONK_T,
};
use fflonk_decider::field::Scalar;
use fflonk_decider::solidity::{hex_literal, FflonkDeciderVerifier, FflonkVerifierKey};

type Decider = DeciderFflonk<G1Projective, ark_grumpkin::Projective, (), (), (), ()>;

fn sc(f: Fr) -> Scalar {
    Scalar::from_limbs(f.into_bigint().0).unwrap()
}

fn fr(s: &Scalar) -> Fr {
    Fr::from_bigint(BigInt::new(s.limbs())).unwrap()
}

fn g1(p: G1Affine) -> G1Point {
    let mut bytes = Vec::new();
    p.serialize_uncompressed(&mut bytes).unwrap();
    G1Point::from_uncompressed(bytes).unwrap()
}

fn g2(p: G2Affine) -> G2Point {
    let mut bytes = Vec::new();
    p.serialize_uncompressed(&mut bytes).unwrap();
    G2Point::from_uncompressed(bytes).unwrap()
}

fn g1_times(k: u64) -> G1Point {
    g1((G1Affine::generator() * Fr::from(k)).into())
}

fn small_poly(first: u64, len: usize) -> Vec<Scalar> {
    (0..len as u64).map(|i| Scalar::from_u64(first + 3 * i)).collect()
}

fn witness(w_len: usize, e_len: usize, n_proofs: usize, n_challenges: usize) -> DeciderWitness<()> {
    DeciderWitness {
        cmT: g1_times(7),
        r: Scalar::from_u64(99),
        // The first challenge, 9, is a square in Fr.
        kzg_challenges: (0..n_challenges as u64).map(|i| Scalar::from_u64(9 + i)).collect(),
        w_coeffs: small_poly(2, w_len),
        e_coeffs: small_poly(11, e_len),
        kzg_proofs: vec![(); n_proofs],
        // The running instance [2G, 3G] folded with the incoming [4G, 0],
        // cmT = 7G and r = 99.
        witness_commitments: vec![g1_times(398), g1_times(696)],
        evaluations: vec![Scalar::from_u64(17), Scalar::from_u64(19)],
        // pp_hash = 12345, i = 3, z_0 = [1], z_i = [7].
        public_input: vec![
            Scalar::from_u64(12345),
            Scalar::from_u64(3),
            Scalar::from_u64(1),
            Scalar::from_u64(7),
        ],
    }
}

fn params() -> (FflonkProverParam<()>, FflonkVerifierParam<()>) {
    // 8 constraints: maximal degree 16, 17 bases in G1.
    Decider::preprocess(8, Scalar::from_u64(12345), (), (), [1u8; 32])
}

fn good_proof() -> (FflonkProverParam<()>, FflonkVerifierParam<()>, FflonkProof<()>) {
    let (pp, vp) = params();
    let proof = Decider::prove(pp, witness(9, 8, 2, 2)).expect("prove failed");
    let (pp, _) = params();
    (pp, vp, proof)
}

fn running() -> Vec<G1Point> {
    vec![g1_times(2), g1_times(3)]
}

fn incoming() -> Vec<G1Point> {
    vec![g1_times(4), g1((G1Affine::generator() * Fr::from(0u64)).into())]
}

fn run_verify(
    vp: FflonkVerifierParam<()>,
    i: u64,
    proof: &FflonkProof<()>,
    running: &Vec<G1Point>,
    checks: Vec<bool>,
) -> Result<bool, DeciderError> {
    let (z_0, z_i) = (vec![Scalar::from_u64(1)], vec![Scalar::from_u64(7)]);
    Decider::verify(vp, Scalar::from_u64(i), z_0, z_i, running, &incoming(), proof, &checks)
}

#[test]
fn test_fflonk_types_exist() {
    fn _assert_send<T: Send>() {}
    fn _assert_sync<T: Sync>() {}
    _assert_send::<Decider>();
    _assert_sync::<Decider>();
}

#[test]
fn fflonk_vk_can_be_created() {
    let pp_hash = Scalar::from_u64(12345);
    let z_len = 3;
    let fflonk_vk = FflonkVerifierKey::new(
        pp_hash,
        z_len,
        g1(G1Affine::generator()),
        g2(G2Affine::generator()),
        g2(G2Affine::generator()),
    );
    assert_eq!(fflonk_vk.pp_hash, pp_hash);
    assert_eq!(fflonk_vk.z_len, z_len);
    assert!(!fflonk_vk.g1.is_identity());
}

#[test]
fn verifier_template_data() {
    let key = FflonkVerifierKey::new(
        Scalar::from_u64(0xDEADBEEF),
        4,
        g1(G1Affine::generator()),
        g2(G2Affine::generator()),
        g2(G2Affine::generator()),
    );
    let data = FflonkDeciderVerifier::from(key);
    assert_eq!(data.pp_hash, format!("0x{}deadbeef", "0".repeat(56)));
    assert_eq!(data.t, FFLONK_T);
    assert_eq!(data.t, 2);
    assert_eq!(data.z_len, 4);
}

#[test]
fn verifier_template_hash_of_large_element() {
    let minus_one = sc(-Fr::from(1u64));
    let key = FflonkVerifierKey::new(
        minus_one,
        1,
        g1(G1Affine::generator()),
        g2(G2Affine::generator()),
        g2(G2Affine::generator()),
    );
    let data = FflonkDeciderVerifier::from(key);
    assert_eq!(
        data.pp_hash,
        "0x30644e72e131a029b85045b68181585d2833e84879b9709143e1f593f0000000"
    );
}

#[test]
fn hex_literal_digits() {
    assert_eq!(hex_literal(&vec![]), "0x");
    assert_eq!(hex_literal(&vec![0x00, 0x0f, 0xa0, 0xff]), "0x000fa0ff");
}

#[test]
fn urs_size_of_small_circuits() {
    let s = urs_size(100);
    assert_eq!((s.num_constraints, s.max_degree, s.n1, s.n2), (100, 256, 257, 2));
    assert_eq!(s.estimated_mib, 0);
    let s = urs_size(0);
    assert_eq!((s.max_degree, s.n1, s.n2), (1, 2, 2));
    let s = urs_size(128);
    assert_eq!((s.max_degree, s.n1), (256, 257));
}

#[test]
fn urs_size_of_decider_circuits() {
    let s = urs_size(155_460);
    assert_eq!((s.max_degree, s.n1), (524_288, 524_289));
    assert_eq!(s.estimated_mib, 64);
    let s = urs_size(555_460);
    assert_eq!((s.max_degree, s.n1), (2_097_152, 2_097_153));
    assert_eq!(s.estimated_mib, 256);
    let s = urs_size(1_055_460);
    assert_eq!((s.max_degree, s.n1), (4_194_304, 4_194_305));
    assert_eq!(s.estimated_mib, 512);
}

#[test]
fn preprocess_keys_match() {
    let (pp, vp) = params();
    assert_eq!(pp.kzg_ck.max_degree(), 16);
    assert!(vp.kzg_vk.g1.equals(&pp.kzg_ck.powers_in_g1[0]));
    assert_eq!(vp.pp_hash, Scalar::from_u64(12345));
    let (pp2, _) = params();
    assert!(pp2.kzg_ck.powers_in_g1[5].equals(&pp.kzg_ck.powers_in_g1[5]));
}

#[test]
fn prove_combines_witness_polynomials() {
    let (_, _, proof) = good_proof();
    let w = DensePolynomial::from_coefficients_vec(small_poly(2, 9).iter().map(fr).collect());
    let e = DensePolynomial::from_coefficients_vec(small_poly(11, 8).iter().map(fr).collect());
    let x = Fr::from(9u64);
    let expected = w.evaluate(&(x * x)) + x * e.evaluate(&(x * x));
    assert_eq!(proof.combined_challenge, Some(Scalar::from_u64(9)));
    assert_eq!(proof.combined_eval_at_challenge, Some(sc(expected)));
    // The opening roots are the two square roots of the challenge 9.
    let roots = proof.opening_roots.clone().unwrap();
    let z = fr(&roots[0]);
    assert!(z == Fr::from(3u64) || z == -Fr::from(3u64));
    assert_eq!(fr(&roots[1]), -z);
    assert_eq!(z * z, x);
    let evals = proof.combined_evaluations.clone().unwrap();
    assert_eq!(evals[0], sc(w.evaluate(&x) + z * e.evaluate(&x)));
    assert_eq!(evals[1], sc(w.evaluate(&x) - z * e.evaluate(&x)));
    assert_eq!(proof.r, Scalar::from_u64(99));
    assert_eq!(proof.kzg_proofs.len(), 2);
}

#[test]
fn prove_then_verify_accepts() {
    let (_, vp, proof) = good_proof();
    let r = run_verify(vp, 3, &proof, &running(), vec![true, true]);
    assert_eq!(r, Ok(true));
}

#[test]
fn verify_refuses_one_step() {
    let (_, vp, proof) = good_proof();
    let r = run_verify(vp, 1, &proof, &running(), vec![true, true]);
    assert_eq!(r, Err(DeciderError::NotEnoughSteps));
}

#[test]
fn verify_refuses_other_commitments() {
    let (_, vp, proof) = good_proof();
    let other = vec![g1_times(2), g1_times(4)];
    let r = run_verify(vp, 3, &proof, &other, vec![true, true]);
    assert_eq!(r, Err(DeciderError::CommitmentVerificationFail));
}

#[test]
fn verify_refuses_rejected_opening() {
    let (_, vp, proof) = good_proof();
    let r = run_verify(vp, 3, &proof, &running(), vec![true, false]);
    assert_eq!(r, Err(DeciderError::OpeningProofRejected));
}

#[test]
fn verify_refuses_wrong_combined_value() {
    let (_, vp, mut proof) = good_proof();
    let y = fr(proof.combined_eval_at_challenge.as_ref().unwrap());
    proof.combined_eval_at_challenge = Some(sc(y + Fr::from(1u64)));
    let r = run_verify(vp, 3, &proof, &running(), vec![true, true]);
    assert_eq!(r, Err(DeciderError::FflonkVerificationFail));
}

#[test]
fn verify_refuses_missing_combined_opening() {
    let (_, vp, mut proof) = good_proof();
    proof.combined_commitment = None;
    let r = run_verify(vp, 3, &proof, &running(), vec![true, true]);
    assert_eq!(r, Err(DeciderError::FflonkVerificationFail));
}

#[test]
fn verify_refuses_wrong_public_input() {
    let (_, vp, proof) = good_proof();
    // Another current state.
    let r = Decider::verify(
        vp,
        Scalar::from_u64(3),
        vec![Scalar::from_u64(1)],
        vec![Scalar::from_u64(8)],
        &running(),
        &incoming(),
        &proof,
        &vec![true, true],
    );
    assert_eq!(r, Err(DeciderError::FflonkVerificationFail));
    // Another number of steps.
    let (_, vp, proof) = good_proof();
    let r = run_verify(vp, 4, &proof, &running(), vec![true, true]);
    assert_eq!(r, Err(DeciderError::FflonkVerificationFail));
    // Another parameter hash.
    let (_, mut vp, proof) = good_proof();
    vp.pp_hash = Scalar::from_u64(54321);
    let r = run_verify(vp, 3, &proof, &running(), vec![true, true]);
    assert_eq!(r, Err(DeciderError::FflonkVerificationFail));
}

#[test]
fn prove_refuses_a_challenge_without_square_root() {
    // 5 generates the multiplicative group of Fr, so it is not a square.
    let mut w = witness(3, 3, 2, 2);
    w.kzg_challenges[0] = Scalar::from_u64(5);
    let r = Decider::prove(params().0, w);
    assert!(matches!(r, Err(DeciderError::FflonkProveFail)));
}

#[test]
fn prove_refuses_wrong_lengths() {
    let r = Decider::prove(params().0, witness(3, 3, 1, 2));
    assert!(matches!(r, Err(DeciderError::NotExpectedLength(1, 2))));
    let r = Decider::prove(params().0, witness(3, 3, 2, 3));
    assert!(matches!(r, Err(DeciderError::NotExpectedLength(3, 2))));
}

#[test]
fn prove_refuses_too_large_polynomial() {
    // W of degree 9 gives g of degree 18 > 16.
    let r = Decider::prove(params().0, witness(10, 2, 2, 2));
    assert!(matches!(r, Err(DeciderError::KzgCommitFailed)));
    // E of degree 8 gives g of degree 17 > 16.
    let r = Decider::prove(params().0, witness(2, 9, 2, 2));
    assert!(matches!(r, Err(DeciderError::KzgCommitFailed)));
}

#[test]
fn fold_commitments_formula() {
    let f = fold_commitments(&running(), &incoming(), &g1_times(7), &Scalar::from_u64(99));
    assert_eq!(f.len(), 2);
    assert!(f[0].equals(&g1_times(398)));
    assert!(f[1].equals(&g1_times(696)));
    let f = fold_commitments(&running(), &incoming(), &g1_times(7), &Scalar::from_u64(0));
    assert!(f[0].equals(&g1_times(2)));
    assert!(f[1].equals(&g1_times(3)));
}

#[test]
fn verifier_template_default_is_empty() {
    let d = FflonkDeciderVerifier::default();
    assert_eq!(d.pp_hash, "");
    assert_eq!(d.t, 0);
    assert_eq!(d.z_len, 0);
}

#[test]
fn combined_evaluations_recover_witness_values() {
    let (_, _, proof) = good_proof();
    let w = DensePolynomial::from_coefficients_vec(small_poly(2, 9).iter().map(fr).collect());
    let e = DensePolynomial::from_coefficients_vec(small_poly(11, 8).iter().map(fr).collect());
    let x = Fr::from(9u64);
    let z = fr(&proof.opening_roots.clone().unwrap()[0]);
    let evals = proof.combined_evaluations.clone().unwrap();
    let (a, b) = (fr(&evals[0]), fr(&evals[1]));
    assert_eq!(a + b, Fr::from(2u64) * w.evaluate(&x));
    assert_eq!(a - b, Fr::from(2u64) * z * e.evaluate(&x));
}

#[test]
fn verify_refuses_one_step_whatever_the_commitments() {
    let (_, vp, proof) = good_proof();
    let r = Decider::verify(vp, Scalar::from_u64(0), vec![], vec![], &vec![], &vec![], &proof, &vec![]);
    assert_eq!(r, Err(DeciderError::NotEnoughSteps));
}

#[test]
fn fflonk_vk_serde_roundtrip() {
    let pp_hash = Scalar::from_u64(67890);
    let z_len = 5;
    let fflonk_vk = FflonkVerifierKey::new(
        pp_hash,
        z_len,
        g1(G1Affine::generator()),
        g2(G2Affine::generator()),
        g2(G2Affine::generator()),
    );

    let bytes = fflonk_vk.to_compressed_bytes();
    let obtained = FflonkVerifierKey::from_compressed_bytes(&bytes).unwrap();

    assert_eq!(obtained.pp_hash, fflonk_vk.pp_hash);
    assert_eq!(obtained.z_len, fflonk_vk.z_len);
    assert!(obtained.g1.equals(&fflonk_vk.g1));
    assert!(obtained.g2.equals(&fflonk_vk.g2));
    assert!(obtained.vk.equals(&fflonk_vk.vk));
}

#[test]
fn verifier_key_encoding_is_arkworks_layout() {
    let key = FflonkVerifierKey::new(
        Scalar::from_u64(12345),
        3,
        g1(G1Affine::generator()),
        g2(G2Affine::generator()),
        g2(G2Affine::generator()),
    );
    let mut expected = vec![];
    (Fr::from(12345u64), 3usize, G1Affine::generator(), G2Affine::generator(), G2Affine::generator())
        .serialize_compressed(&mut expected)
        .unwrap();
    assert_eq!(key.to_compressed_bytes(), expected);
    assert!(FflonkVerifierKey::from_compressed_bytes(&vec![1, 2, 3]).is_none());
}
