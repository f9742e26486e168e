//! KZG polynomial commitments over BN254: the universal reference string,
//! the keys derived from it, commitments, opening proofs and the pairing
//! check of an opening.
use vstd::prelude::*;
use crate::curve::{G1Point, g1_identity_encoding, G2Point, g1_sum, g1_scalar_mul, g2_sum, g2_scalar_mul, pairing, pairing_spec, g1_add, g1_mul, g2_add, g2_mul};
use crate::field::{Scalar, scalar_modulus};
use crate::poly::{all_wf, degree, neg_value, trim, values};
use ark_bn254::{Bn254, Fr, G1Affine};
use ark_ff::{BigInt, PrimeField};
use ark_poly::univariate::DensePolynomial;
use ark_poly::DenseUVPolynomial;
use ark_serialize::{CanonicalDeserialize, CanonicalSerialize, SerializationError};
use ark_std::rand::SeedableRng;
use w3f_pcs::pcs::kzg::urs::URS;
use w3f_pcs::pcs::kzg::KZG;
use w3f_pcs::pcs::{PcsParams, PCS};

verus! {

/// Largest number of bases a reference string can have: `2^28`, the
/// two-adicity of `Fr`.
pub open spec fn max_urs_bases() -> nat {
    0x1000_0000nat
}

/// Encodings of the bases `g1, tau*g1, ...` and `g2, tau*g2, ...` that
/// `URS::generate` derives from a `StdRng` seeded with `seed`.
pub uninterp spec fn urs_generation(n1: nat, n2: nat, seed: Seq<u8>) -> (Seq<Seq<u8>>, Seq<Seq<u8>>);

/// Encoding of the multi-scalar sum `sum_j coeffs[j] * powers[j]` in G1; the
/// empty sum is the identity.
pub open spec fn msm(powers: Seq<Seq<u8>>, coeffs: Seq<nat>) -> Seq<u8>
    decreases coeffs.len(),
{
    if coeffs.len() == 0 {
        g1_identity_encoding()
    } else {
        g1_sum(
            msm(powers, coeffs.drop_last()),
            g1_scalar_mul(powers[coeffs.len() - 1], coeffs.last()),
        )
    }
}

/// Coefficient `j` of the quotient of the polynomial `p` by `X - x` in `Fr`:
/// `sum_{k > j} p[k] * x^(k - 1 - j)`.
pub open spec fn quotient_coeff(p: Seq<nat>, x: nat, j: int) -> nat
    decreases p.len() - j,
{
    if j + 1 >= p.len() {
        0
    } else {
        ((p[j + 1] + x * quotient_coeff(p, x, j + 1)) % scalar_modulus()) as nat
    }
}

/// The coefficients of the quotient of `p` by `X - x` in `Fr` (none for a
/// constant).
pub open spec fn quotient(p: Seq<nat>, x: nat) -> Seq<nat> {
    if p.len() <= 1 {
        Seq::empty()
    } else {
        Seq::new((p.len() - 1) as nat, |j: int| quotient_coeff(p, x, j))
    }
}

/// Encoding of the KZG commitment to the polynomial with coefficients
/// `coeffs` under the bases `powers`: the multi-scalar sum of its
/// coefficients, trailing zeros removed, with the first bases.
pub open spec fn kzg_commitment(powers: Seq<Seq<u8>>, coeffs: Seq<nat>) -> Seq<u8> {
    msm(powers, trim(coeffs))
}

/// Encoding of the KZG proof that the polynomial with coefficients `coeffs`
/// is opened at `x`, under the bases `powers`: the commitment to its
/// quotient by `X - x`.
pub open spec fn kzg_opening_proof(powers: Seq<Seq<u8>>, coeffs: Seq<nat>, x: nat) -> Seq<u8> {
    msm(powers, quotient(trim(coeffs), x))
}

/// The encodings of a list of G1 points.
pub open spec fn g1_views(s: Seq<G1Point>) -> Seq<Seq<u8>> {
    s.map_values(|p: G1Point| p@)
}

/// The encodings of a list of G2 points.
pub open spec fn g2_views(s: Seq<G2Point>) -> Seq<Seq<u8>> {
    s.map_values(|p: G2Point| p@)
}

/// Every point of the list is well formed.
pub open spec fn all_g1_wf(s: Seq<G1Point>) -> bool {
    forall|i: int| 0 <= i < s.len() ==> #[trigger] s[i].wf()
}

/// Every point of the list is well formed.
pub open spec fn all_g2_wf(s: Seq<G2Point>) -> bool {
    forall|i: int| 0 <= i < s.len() ==> #[trigger] s[i].wf()
}

/// Universal reference string: `g1, tau*g1, ..., tau^(n1-1)*g1` and
/// `g2, tau*g2, ..., tau^(n2-1)*g2`.
pub struct Urs {
    pub powers_in_g1: Vec<G1Point>,
    pub powers_in_g2: Vec<G2Point>,
}

/// The prover's key: the powers of tau in G1.
pub struct CommitterKey {
    pub powers_in_g1: Vec<G1Point>,
}

/// The verifier's key in its serialisable form: `g1`, `g2` and `tau*g2`.
pub struct VerifierKey {
    pub g1: G1Point,
    pub g2: G2Point,
    pub tau_in_g2: G2Point,
}

/// Why an opening was not accepted.
#[derive(Debug, Clone, Copy, PartialEq, Eq, Structural)]
pub enum OpeningError {
    /// The two sides of the pairing equation differ.
    PairingMismatch,
    /// A final exponentiation had no result.
    PairingUndefined,
}

/// Generates a reference string.
///
/// Calls `URS::<Bn254>::generate` (w3f-pcs) with a `StdRng` seeded from
/// `seed`. Claimed: the bases are `urs_generation(n1, n2, seed)`, there are
/// `n1` and `n2` of them, and each is well formed. `generate` asserts
/// `0 < max(n1, n2) <= 2^28`, hence `requires`.
#[verifier::external_body]
fn urs_generate(n1: usize, n2: usize, seed: [u8; 32]) -> (r: Urs)
    requires
        0 < n1 || 0 < n2,
        n1 <= max_urs_bases(),
        n2 <= max_urs_bases(),
    ensures
        r.powers_in_g1@.len() == n1,
        r.powers_in_g2@.len() == n2,
        all_g1_wf(r.powers_in_g1@),
        all_g2_wf(r.powers_in_g2@),
        (g1_views(r.powers_in_g1@), g2_views(r.powers_in_g2@)) == urs_generation(n1 as nat, n2 as nat, seed@),
{
    let u = URS::<Bn254>::generate(n1, n2, &mut ark_std::rand::rngs::StdRng::from_seed(seed));
    let mut g1 = Vec::new();
    for p in u.powers_in_g1.iter() { let mut bytes = Vec::new(); p.serialize_uncompressed(&mut bytes).unwrap(); g1.push(G1Point { bytes }); }
    let mut g2 = Vec::new();
    for p in u.powers_in_g2.iter() { let mut bytes = Vec::new(); p.serialize_uncompressed(&mut bytes).unwrap(); g2.push(G2Point { bytes }); }
    Urs { powers_in_g1: g1, powers_in_g2: g2 }
}

/// Decoding of the compressed encoding `bytes` of a reference string: the
/// uncompressed encodings of its bases in G1 and in G2, or `None` where
/// `URS::deserialize_compressed` refuses the bytes.
pub uninterp spec fn urs_decoding(bytes: Seq<u8>) -> Option<(Seq<Seq<u8>>, Seq<Seq<u8>>)>;

#[verifier::external_type_specification]
#[verifier::external_body]
pub struct ExSerializationError(SerializationError);

/// Why the bytes do not encode a reference string (the variants of
/// `SerializationError`, an I/O error without its detail).
#[derive(Debug, Clone, Copy, PartialEq, Eq, Structural)]
pub enum UrsDecodingError {
    NotEnoughSpace,
    InvalidData,
    UnexpectedFlags,
    IoError,
}

/// The library's name for a `SerializationError` (ark-serialize): the
/// variant of the same name. Nothing is claimed beyond that conversion.
#[verifier::external_body]
fn decoding_error(e: SerializationError) -> UrsDecodingError {
    match e {
        SerializationError::NotEnoughSpace => UrsDecodingError::NotEnoughSpace,
        SerializationError::InvalidData => UrsDecodingError::InvalidData,
        SerializationError::UnexpectedFlags => UrsDecodingError::UnexpectedFlags,
        SerializationError::IoError(_) => UrsDecodingError::IoError,
    }
}

/// Reads a reference string from its compressed encoding.
///
/// Calls `URS::<Bn254>::deserialize_compressed` (w3f-pcs, derived with
/// ark-serialize, which checks every point); the bases are re-encoded
/// uncompressed. Claimed: the outcome is `urs_decoding(bytes)`, and each
/// base of a decoded string is well formed.
#[verifier::external_body]
fn urs_decode(bytes: &Vec<u8>) -> (r: Result<Urs, SerializationError>)
    ensures
        r matches Ok(u) ==> urs_decoding(bytes@) == Some((g1_views(u.powers_in_g1@), g2_views(u.powers_in_g2@)))
            && u.wf(),
        r is Err ==> urs_decoding(bytes@) is None,
{
    let u = URS::<Bn254>::deserialize_compressed(&bytes[..])?;
    let mut g1 = Vec::new();
    for p in u.powers_in_g1.iter() { let mut bytes = Vec::new(); p.serialize_uncompressed(&mut bytes).unwrap(); g1.push(G1Point { bytes }); }
    let mut g2 = Vec::new();
    for p in u.powers_in_g2.iter() { let mut bytes = Vec::new(); p.serialize_uncompressed(&mut bytes).unwrap(); g2.push(G2Point { bytes }); }
    Ok(Urs { powers_in_g1: g1, powers_in_g2: g2 })
}

/// Commits to a polynomial.
///
/// Calls `KZG::<Bn254>::commit` (w3f-pcs) with the committer key that
/// `URS::ck` makes from `powers`. Claimed, as its source shows: it fails
/// exactly when the degree exceeds `powers.len() - 1`; otherwise the
/// commitment is the multi-scalar sum (`VariableBaseMSM::msm`) of the
/// coefficients, trailing zeros removed, with the first bases, that is
/// `kzg_commitment(powers, coeffs)`, well formed.
#[verifier::external_body]
fn kzg_commit(powers: &Vec<G1Point>, coeffs: &Vec<Scalar>) -> (r: Result<G1Point, ()>)
    requires
        powers@.len() >= 1,
        all_g1_wf(powers@),
        all_wf(coeffs@),
    ensures
        r is Ok <==> degree(values(coeffs@)) <= powers@.len() - 1,
        r matches Ok(c) ==> c@ == kzg_commitment(g1_views(powers@), values(coeffs@)) && c.wf(),
{
    let g: Vec<G1Affine> = powers.iter().map(|p| G1Affine::deserialize_uncompressed_unchecked(&p.bytes[..]).unwrap()).collect();
    let ck = URS::<Bn254> { powers_in_g1: g, powers_in_g2: Vec::new() }.ck();
    let c: Vec<Fr> = coeffs.iter().map(|s| Fr::from_bigint(BigInt::new([s.l0, s.l1, s.l2, s.l3])).unwrap()).collect();
    KZG::<Bn254>::commit(&ck, &DensePolynomial::from_coefficients_vec(c)).map(|c| {
        let mut bytes = Vec::new();
        c.0.serialize_uncompressed(&mut bytes).unwrap();
        G1Point { bytes }
    })
}

/// Proves the value of a polynomial at a point.
///
/// Calls `KZG::<Bn254>::open` (w3f-pcs) with the committer key that
/// `URS::ck` makes from `powers`. Claimed, as its source shows: it commits
/// to the quotient by `X - x`, whose degree is one less than that of the
/// polynomial (0 for a constant), so it fails exactly when the degree
/// exceeds `powers.len()`; otherwise the proof is
/// `kzg_opening_proof(powers, coeffs, x)`, the commitment to the quotient
/// `p / (X - x)` that `compute_quotient` gives, well formed.
#[verifier::external_body]
fn kzg_open(powers: &Vec<G1Point>, coeffs: &Vec<Scalar>, x: &Scalar) -> (r: Result<G1Point, ()>)
    requires
        powers@.len() >= 1,
        all_g1_wf(powers@),
        all_wf(coeffs@),
        x.wf(),
    ensures
        r is Ok <==> degree(values(coeffs@)) <= powers@.len(),
        r matches Ok(c) ==> c@ == kzg_opening_proof(g1_views(powers@), values(coeffs@), x@) && c.wf(),
{
    let g: Vec<G1Affine> = powers.iter().map(|p| G1Affine::deserialize_uncompressed_unchecked(&p.bytes[..]).unwrap()).collect();
    let ck = URS::<Bn254> { powers_in_g1: g, powers_in_g2: Vec::new() }.ck();
    let to = |s: &Scalar| Fr::from_bigint(BigInt::new([s.l0, s.l1, s.l2, s.l3])).unwrap();
    KZG::<Bn254>::open(&ck, &DensePolynomial::from_coefficients_vec(coeffs.iter().map(to).collect()), to(x)).map(|c| {
        let mut bytes = Vec::new();
        c.serialize_uncompressed(&mut bytes).unwrap();
        G1Point { bytes }
    })
}

/// Negation in `Fr`.
///
/// Calls `Neg` on `Fr` (ark-ff). Claimed: the result is `-s`, canonical.
#[verifier::external_body]
fn scalar_neg(s: &Scalar) -> (r: Scalar)
    requires
        s.wf(),
    ensures
        r.wf(),
        r@ == neg_value(s@),
{
    let b = (-Fr::from_bigint(BigInt::new([s.l0, s.l1, s.l2, s.l3])).unwrap()).into_bigint().0;
    Scalar { l0: b[0], l1: b[1], l2: b[2], l3: b[3] }
}

fn copy_g1_points(s: &Vec<G1Point>) -> (r: Vec<G1Point>)
    ensures
        g1_views(r@) == g1_views(s@),
        all_g1_wf(s@) ==> all_g1_wf(r@),
{
    let mut r: Vec<G1Point> = Vec::new();
    let mut i: usize = 0;
    while i < s.len()
        invariant
            i <= s.len(),
            r@.len() == i,
            forall|j: int| 0 <= j < i ==> #[trigger] r@[j]@ == s@[j]@,
        decreases s.len() - i,
    {
        r.push(s[i].duplicate());
        i = i + 1;
    }
    assert(g1_views(r@) =~= g1_views(s@));
    assert(r@.len() == s@.len());
    assert forall|j: int| 0 <= j < r@.len() && all_g1_wf(s@) implies #[trigger] r@[j].wf() by {
        assert(s@[j].wf());
    }
    r
}

impl Urs {
    /// Every base is well formed.
    pub open spec fn wf(&self) -> bool {
        all_g1_wf(self.powers_in_g1@) && all_g2_wf(self.powers_in_g2@)
    }

    /// A reference string with `n1` bases in G1 and `n2` in G2, drawn from a
    /// random generator seeded with `seed`.
    pub fn generate(n1: usize, n2: usize, seed: [u8; 32]) -> (r: Urs)
        requires
            0 < n1 || 0 < n2,
            n1 <= max_urs_bases(),
            n2 <= max_urs_bases(),
        ensures
            r.powers_in_g1@.len() == n1,
            r.powers_in_g2@.len() == n2,
            r.wf(),
            (g1_views(r.powers_in_g1@), g2_views(r.powers_in_g2@)) == urs_generation(n1 as nat, n2 as nat, seed@),
    {
        urs_generate(n1, n2, seed)
    }

    /// The reference string of a compressed encoding (as a file of a
    /// trusted setup holds it), or why the bytes do not encode one.
    pub fn from_compressed_bytes(bytes: &Vec<u8>) -> (r: Result<Urs, UrsDecodingError>)
        ensures
            r matches Ok(u) ==> urs_decoding(bytes@) == Some((g1_views(u.powers_in_g1@), g2_views(u.powers_in_g2@)))
                && u.wf(),
            r is Err <==> urs_decoding(bytes@) is None,
    {
        match urs_decode(bytes) {
            Ok(u) => Ok(u),
            Err(e) => Err(decoding_error(e)),
        }
    }

    /// The committer key: all the G1 bases (as `URS::ck` makes it).
    pub fn committer_key(&self) -> (r: CommitterKey)
        ensures
            g1_views(r.powers_in_g1@) == g1_views(self.powers_in_g1@),
            r.powers_in_g1@.len() == self.powers_in_g1@.len(),
            self.wf() && self.powers_in_g1@.len() >= 1 ==> r.wf(),
    {
        CommitterKey { powers_in_g1: copy_g1_points(&self.powers_in_g1) }
    }

    /// The serialisable verifier key `(g1, g2, tau*g2)`: the first G1 base
    /// and the first two G2 bases (as `URS::raw_vk` makes it).
    pub fn raw_verifier_key(&self) -> (r: VerifierKey)
        requires
            self.powers_in_g1@.len() > 0,
            self.powers_in_g2@.len() > 1,
        ensures
            r.g1@ == self.powers_in_g1@[0]@,
            r.g2@ == self.powers_in_g2@[0]@,
            r.tau_in_g2@ == self.powers_in_g2@[1]@,
            self.wf() ==> r.wf(),
    {
        proof {
            if self.wf() {
                assert(self.powers_in_g1@[0].wf());
                assert(self.powers_in_g2@[0].wf());
                assert(self.powers_in_g2@[1].wf());
            }
        }
        VerifierKey {
            g1: self.powers_in_g1[0].duplicate(),
            g2: self.powers_in_g2[0].duplicate(),
            tau_in_g2: self.powers_in_g2[1].duplicate(),
        }
    }
}

impl CommitterKey {
    /// Every base is well formed and there is at least one.
    pub open spec fn wf(&self) -> bool {
        self.powers_in_g1@.len() >= 1 && all_g1_wf(self.powers_in_g1@)
    }

    /// The largest degree of a polynomial this key commits to.
    pub fn max_degree(&self) -> (r: usize)
        requires
            self.powers_in_g1@.len() >= 1,
        ensures
            r == self.powers_in_g1@.len() - 1,
    {
        self.powers_in_g1.len() - 1
    }

    /// The KZG commitment to a polynomial; `Err` exactly when its degree
    /// exceeds the key's maximal degree.
    pub fn commit(&self, coeffs: &Vec<Scalar>) -> (r: Result<G1Point, ()>)
        requires
            self.wf(),
            all_wf(coeffs@),
        ensures
            r is Ok <==> degree(values(coeffs@)) <= self.powers_in_g1@.len() - 1,
            r matches Ok(c) ==> c@ == kzg_commitment(g1_views(self.powers_in_g1@), values(coeffs@))
                && c.wf(),
    {
        kzg_commit(&self.powers_in_g1, coeffs)
    }

    /// The KZG proof of the value of a polynomial at `x`; `Err` exactly when
    /// its degree exceeds the number of bases.
    pub fn open(&self, coeffs: &Vec<Scalar>, x: &Scalar) -> (r: Result<G1Point, ()>)
        requires
            self.wf(),
            all_wf(coeffs@),
            x.wf(),
        ensures
            r is Ok <==> degree(values(coeffs@)) <= self.powers_in_g1@.len(),
            r matches Ok(c) ==> c@ == kzg_opening_proof(g1_views(self.powers_in_g1@), values(coeffs@), x@)
                && c.wf(),
    {
        kzg_open(&self.powers_in_g1, coeffs, x)
    }
}

/// The pairing equation of an opening: with `lhs = commitment - y*g1` and
/// `rhs = tau*g2 - z*g2`, the pairings `e(lhs, g2)` and `e(proof, rhs)`.
pub open spec fn opening_pairings(
    g1: Seq<u8>,
    g2: Seq<u8>,
    tau_in_g2: Seq<u8>,
    commitment: Seq<u8>,
    z: nat,
    y: nat,
    proof: Seq<u8>,
) -> (Option<Seq<u8>>, Option<Seq<u8>>) {
    let lhs = g1_sum(commitment, g1_scalar_mul(g1, neg_value(y)));
    let rhs = g2_sum(tau_in_g2, g2_scalar_mul(g2, neg_value(z)));
    (pairing_spec(lhs, g2), pairing_spec(proof, rhs))
}

impl VerifierKey {
    /// Every point is well formed.
    pub open spec fn wf(&self) -> bool {
        self.g1.wf() && self.g2.wf() && self.tau_in_g2.wf()
    }

    /// Checks that `proof` opens `commitment` to the value `y` at the point
    /// `z`: `e(commitment - y*g1, g2) == e(proof, tau*g2 - z*g2)`.
    pub fn check_opening(&self, commitment: &G1Point, z: &Scalar, y: &Scalar, proof: &G1Point) -> (r: Result<(), OpeningError>)
        requires
            self.wf(),
            commitment.wf(),
            proof.wf(),
            z.wf(),
            y.wf(),
        ensures
            ({
                let (l, rr) = opening_pairings(self.g1@, self.g2@, self.tau_in_g2@, commitment@, z@, y@, proof@);
                &&& r is Ok <==> (l is Some && rr is Some && l == rr)
                &&& r == Err::<(), OpeningError>(OpeningError::PairingUndefined) <==> (l is None || rr is None)
            }),
    {
        let neg_y = scalar_neg(y);
        let lhs = g1_add(commitment, &g1_mul(&self.g1, &neg_y));
        let neg_z = scalar_neg(z);
        let rhs = g2_add(&self.tau_in_g2, &g2_mul(&self.g2, &neg_z));
        let left = pairing(&lhs, &self.g2);
        let right = pairing(proof, &rhs);
        match (left, right) {
            (Some(a), Some(b)) => {
                if a.equals(&b) {
                    Ok(())
                } else {
                    Err(OpeningError::PairingMismatch)
                }
            },
            _ => Err(OpeningError::PairingUndefined),
        }
    }
}

/// The opening check compares `e(C - y*g1, g2)` with `e(pi, tau*g2 - z*g2)`
/// for the full field elements `y` and `z`: the point `C - y*g1` adds the
/// field negation of `y` times `g1` to the commitment, and `tau*g2 - z*g2`
/// adds that of `z` times `g2` to `tau*g2`.
pub proof fn lemma_opening_pairings_equation(
    g1: Seq<u8>,
    g2: Seq<u8>,
    tau_in_g2: Seq<u8>,
    commitment: Seq<u8>,
    z: nat,
    y: nat,
    proof: Seq<u8>,
)
    ensures
        ({
            let p = scalar_modulus() as int;
            opening_pairings(g1, g2, tau_in_g2, commitment, z, y, proof) == (
                pairing_spec(g1_sum(commitment, g1_scalar_mul(g1, ((p - y) % p) as nat)), g2),
                pairing_spec(proof, g2_sum(tau_in_g2, g2_scalar_mul(g2, ((p - z) % p) as nat))),
            )
        }),
{
}

} // verus!
