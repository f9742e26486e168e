//! Points of the BN254 groups G1 and G2 and elements of the pairing target
//! group, each held as its canonical uncompressed arkworks encoding.
use vstd::prelude::*;
use crate::field::{Scalar, base_modulus};
use ark_bn254::{Bn254, Fr, G1Affine, G2Affine};
use ark_ec::pairing::{MillerLoopOutput, Pairing};
use ark_ec::{AffineRepr, CurveGroup};
use ark_ff::{BigInt, PrimeField};
use ark_serialize::{CanonicalDeserialize, CanonicalSerialize};

verus! {

/// The uncompressed encoding, as `serialize_uncompressed` writes it, of the
/// G1 point that `G1Affine::deserialize_uncompressed` reads from the bytes
/// (checking that it lies on the curve, in the subgroup), or `None` where
/// it refuses them.
pub uninterp spec fn g1_decoding(bytes: Seq<u8>) -> Option<Seq<u8>>;

/// The uncompressed encoding of the G2 point that
/// `G2Affine::deserialize_uncompressed` reads from the bytes, or `None`
/// where it refuses them.
pub uninterp spec fn g2_decoding(bytes: Seq<u8>) -> Option<Seq<u8>>;

/// The uncompressed encoding of the identity of G1 as arkworks writes it:
/// the coordinates `0, 0`, the second carrying the point-at-infinity flag
/// (bit 6 of its last byte).
pub open spec fn g1_identity_encoding() -> Seq<u8> {
    Seq::new(64, |i: int| if i == 63 { 0x40u8 } else { 0u8 })
}

/// Encoding of `scalar * point` in G1.
pub uninterp spec fn g1_scalar_mul(point: Seq<u8>, scalar: nat) -> Seq<u8>;

/// Encoding of `a + b` in G1.
pub uninterp spec fn g1_sum(a: Seq<u8>, b: Seq<u8>) -> Seq<u8>;

/// Encoding of `scalar * point` in G2.
pub uninterp spec fn g2_scalar_mul(point: Seq<u8>, scalar: nat) -> Seq<u8>;

/// Encoding of `a + b` in G2.
pub uninterp spec fn g2_sum(a: Seq<u8>, b: Seq<u8>) -> Seq<u8>;

/// Encoding of the Miller loop output of the pair `(p, q)`.
pub uninterp spec fn miller_loop(p: Seq<u8>, q: Seq<u8>) -> Seq<u8>;

/// The number that the bytes write, least significant byte first.
pub open spec fn le_value(bytes: Seq<u8>) -> nat
    decreases bytes.len(),
{
    if bytes.len() == 0 {
        0
    } else {
        bytes[0] as nat + 256 * le_value(bytes.drop_first())
    }
}

/// The bytes decode as an element of the pairing's target field `Fq12`:
/// they start with twelve 32-byte little-endian coefficients, each below
/// the order of `Fq` (what `deserialize_uncompressed_unchecked` accepts).
pub open spec fn target_decodes(bytes: Seq<u8>) -> bool {
    &&& bytes.len() >= 384
    &&& forall|k: int| 0 <= k < 12 ==> #[trigger] le_value(bytes.subrange(32 * k, 32 * k + 32)) < base_modulus()
}

/// Encoding of the final exponentiation of a Miller loop output; `None`
/// when that output is zero and has no inverse.
pub uninterp spec fn final_exponentiation(m: Seq<u8>) -> Option<Seq<u8>>;

/// A point of G1.
pub struct G1Point {
    pub(crate) bytes: Vec<u8>,
}

/// A point of G2.
pub struct G2Point {
    pub(crate) bytes: Vec<u8>,
}

/// An element of the pairing target group.
pub struct PairingValue {
    pub(crate) bytes: Vec<u8>,
}

impl View for G1Point {
    type V = Seq<u8>;

    closed spec fn view(&self) -> Seq<u8> {
        self.bytes@
    }
}

impl View for G2Point {
    type V = Seq<u8>;

    closed spec fn view(&self) -> Seq<u8> {
        self.bytes@
    }
}

impl View for PairingValue {
    type V = Seq<u8>;

    closed spec fn view(&self) -> Seq<u8> {
        self.bytes@
    }
}

/// Whether two byte lists are equal.
pub fn bytes_equal(a: &Vec<u8>, b: &Vec<u8>) -> (r: bool)
    ensures
        r == (a@ == b@),
{
    if a.len() != b.len() {
        return false;
    }
    let mut i: usize = 0;
    while i < a.len()
        invariant
            a.len() == b.len(),
            i <= a.len(),
            forall|j: int| 0 <= j < i ==> a@[j] == b@[j],
        decreases a.len() - i,
    {
        if a[i] != b[i] {
            return false;
        }
        i = i + 1;
    }
    assert(a@ =~= b@);
    true
}

fn copy_bytes(a: &Vec<u8>) -> (r: Vec<u8>)
    ensures
        r@ == a@,
{
    let mut r: Vec<u8> = Vec::new();
    let mut i: usize = 0;
    while i < a.len()
        invariant
            i <= a.len(),
            r@ =~= a@.subrange(0, i as int),
        decreases a.len() - i,
    {
        r.push(a[i]);
        i = i + 1;
    }
    assert(a@.subrange(0, a@.len() as int) =~= a@);
    r
}

/// Reads a G1 point and writes it again.
///
/// Calls `G1Affine::deserialize_uncompressed` (ark-serialize, ark-ec), which
/// checks the point, and `serialize_uncompressed` on the result. Claimed:
/// the outcome is `g1_decoding(bytes)`, and an encoding so written is read
/// back as itself.
#[verifier::external_body]
fn g1_reencode(bytes: &Vec<u8>) -> (r: Option<Vec<u8>>)
    ensures
        r matches Some(v) ==> g1_decoding(bytes@) == Some(v@) && g1_decoding(v@) == Some(v@),
        r is None ==> g1_decoding(bytes@) is None,
{
    let p = G1Affine::deserialize_uncompressed(&bytes[..]).ok()?;
    let mut out = Vec::new();
    p.serialize_uncompressed(&mut out).unwrap();
    Some(out)
}

/// Reads a G2 point and writes it again.
///
/// Calls `G2Affine::deserialize_uncompressed` (ark-serialize, ark-ec), which
/// checks the point, and `serialize_uncompressed` on the result. Claimed:
/// the outcome is `g2_decoding(bytes)`, and an encoding so written is read
/// back as itself.
#[verifier::external_body]
fn g2_reencode(bytes: &Vec<u8>) -> (r: Option<Vec<u8>>)
    ensures
        r matches Some(v) ==> g2_decoding(bytes@) == Some(v@) && g2_decoding(v@) == Some(v@),
        r is None ==> g2_decoding(bytes@) is None,
{
    let p = G2Affine::deserialize_uncompressed(&bytes[..]).ok()?;
    let mut out = Vec::new();
    p.serialize_uncompressed(&mut out).unwrap();
    Some(out)
}

/// Whether a G1 point is the identity.
///
/// Calls `AffineRepr::is_zero` on the decoded point (ark-ec). Claimed: for
/// a point held as arkworks writes it, the result tells whether its
/// encoding is that of the identity, the only one with the
/// point-at-infinity flag.
#[verifier::external_body]
fn g1_check_zero(p: &G1Point) -> (r: bool)
    requires
        p.wf(),
    ensures
        r == (p@ == g1_identity_encoding()),
{
    G1Affine::deserialize_uncompressed_unchecked(&p.bytes[..]).unwrap().is_zero()
}

/// `s * p` in G1.
///
/// Calls `Mul<Fr>` on `G1Affine` (ark-ec), the result normalised with
/// `into_affine` and encoded uncompressed. Claimed: the encoding is
/// `g1_scalar_mul(p, s)` and is again a point held as arkworks writes it.
#[verifier::external_body]
pub(crate) fn g1_mul(p: &G1Point, s: &Scalar) -> (r: G1Point)
    requires
        p.wf(),
        s.wf(),
    ensures
        r@ == g1_scalar_mul(p@, s@),
        r.wf(),
{
    let a = G1Affine::deserialize_uncompressed_unchecked(&p.bytes[..]).unwrap();
    let f = Fr::from_bigint(BigInt::new([s.l0, s.l1, s.l2, s.l3])).unwrap();
    let mut bytes = Vec::new();
    (a * f).into_affine().serialize_uncompressed(&mut bytes).unwrap();
    G1Point { bytes }
}

/// `a + b` in G1.
///
/// Calls `Add` on `G1Affine` (ark-ec), the result normalised with
/// `into_affine` and encoded uncompressed. Claimed: the encoding is
/// `g1_sum(a, b)` and is again a point held as arkworks writes it.
#[verifier::external_body]
pub(crate) fn g1_add(a: &G1Point, b: &G1Point) -> (r: G1Point)
    requires
        a.wf(),
        b.wf(),
    ensures
        r@ == g1_sum(a@, b@),
        r.wf(),
{
    let x = G1Affine::deserialize_uncompressed_unchecked(&a.bytes[..]).unwrap();
    let y = G1Affine::deserialize_uncompressed_unchecked(&b.bytes[..]).unwrap();
    let mut bytes = Vec::new();
    (x + y).into_affine().serialize_uncompressed(&mut bytes).unwrap();
    G1Point { bytes }
}

/// `s * p` in G2.
///
/// Calls `Mul<Fr>` on `G2Affine` (ark-ec), the result normalised with
/// `into_affine` and encoded uncompressed. Claimed: the encoding is
/// `g2_scalar_mul(p, s)` and is again a point held as arkworks writes it.
#[verifier::external_body]
pub(crate) fn g2_mul(p: &G2Point, s: &Scalar) -> (r: G2Point)
    requires
        p.wf(),
        s.wf(),
    ensures
        r@ == g2_scalar_mul(p@, s@),
        r.wf(),
{
    let a = G2Affine::deserialize_uncompressed_unchecked(&p.bytes[..]).unwrap();
    let f = Fr::from_bigint(BigInt::new([s.l0, s.l1, s.l2, s.l3])).unwrap();
    let mut bytes = Vec::new();
    (a * f).into_affine().serialize_uncompressed(&mut bytes).unwrap();
    G2Point { bytes }
}

/// `a + b` in G2.
///
/// Calls `Add` on `G2Affine` (ark-ec), the result normalised with
/// `into_affine` and encoded uncompressed. Claimed: the encoding is
/// `g2_sum(a, b)` and is again a point held as arkworks writes it.
#[verifier::external_body]
pub(crate) fn g2_add(a: &G2Point, b: &G2Point) -> (r: G2Point)
    requires
        a.wf(),
        b.wf(),
    ensures
        r@ == g2_sum(a@, b@),
        r.wf(),
{
    let x = G2Affine::deserialize_uncompressed_unchecked(&a.bytes[..]).unwrap();
    let y = G2Affine::deserialize_uncompressed_unchecked(&b.bytes[..]).unwrap();
    let mut bytes = Vec::new();
    (x + y).into_affine().serialize_uncompressed(&mut bytes).unwrap();
    G2Point { bytes }
}

/// The Miller loop of one pair.
///
/// Calls `Bn254::multi_miller_loop` (ark-ec) on `[p]`, `[q]`; the output
/// field element is encoded uncompressed. Claimed: the encoding is
/// `miller_loop(p, q)`, and it decodes again as a target-field element.
#[verifier::external_body]
pub(crate) fn pairing_miller_loop(p: &G1Point, q: &G2Point) -> (r: Vec<u8>)
    requires
        p.wf(),
        q.wf(),
    ensures
        r@ == miller_loop(p@, q@),
        target_decodes(r@),
{
    let a = G1Affine::deserialize_uncompressed_unchecked(&p.bytes[..]).unwrap();
    let b = G2Affine::deserialize_uncompressed_unchecked(&q.bytes[..]).unwrap();
    let mut bytes = Vec::new();
    Bn254::multi_miller_loop([a], [b]).0.serialize_uncompressed(&mut bytes).unwrap();
    bytes
}

/// The final exponentiation of a Miller loop output.
///
/// Calls `Bn254::final_exponentiation` (ark-ec) on the decoded output.
/// Claimed: the result is `final_exponentiation(m)`, `None` exactly where
/// the outside function returns `None`.
#[verifier::external_body]
pub(crate) fn pairing_final_exponentiation(m: &Vec<u8>) -> (r: Option<PairingValue>)
    requires
        target_decodes(m@),
    ensures
        r matches Some(v) ==> final_exponentiation(m@) == Some(v@),
        r is None ==> final_exponentiation(m@) is None,
{
    let f = <Bn254 as Pairing>::TargetField::deserialize_uncompressed_unchecked(&m[..]).unwrap();
    Bn254::final_exponentiation(MillerLoopOutput(f)).map(|v| {
        let mut bytes = Vec::new();
        v.serialize_uncompressed(&mut bytes).unwrap();
        PairingValue { bytes }
    })
}

/// The pairing of `p` and `q`: the final exponentiation of their Miller
/// loop, `None` where that has no result.
pub open spec fn pairing_spec(p: Seq<u8>, q: Seq<u8>) -> Option<Seq<u8>> {
    final_exponentiation(miller_loop(p, q))
}

/// The pairing `e(p, q)`, or `None` where the final exponentiation has no
/// result.
pub fn pairing(p: &G1Point, q: &G2Point) -> (r: Option<PairingValue>)
    requires
        p.wf(),
        q.wf(),
    ensures
        r matches Some(v) ==> pairing_spec(p@, q@) == Some(v@),
        r is None ==> pairing_spec(p@, q@) is None,
{
    let m = pairing_miller_loop(p, q);
    pairing_final_exponentiation(&m)
}

impl G1Point {
    /// The bytes are the encoding of a point of G1 as arkworks writes it.
    pub open spec fn wf(&self) -> bool {
        g1_decoding(self@) == Some(self@)
    }

    /// The point that the uncompressed encoding `bytes` denotes, held in
    /// the form arkworks writes it, or `None` when the bytes do not encode
    /// a point of G1.
    pub fn from_uncompressed(bytes: Vec<u8>) -> (r: Option<G1Point>)
        ensures
            r is Some <==> g1_decoding(bytes@) is Some,
            r matches Some(p) ==> g1_decoding(bytes@) == Some(p@) && p.wf(),
    {
        match g1_reencode(&bytes) {
            Some(b) => Some(G1Point { bytes: b }),
            None => None,
        }
    }

    /// The uncompressed encoding of the point.
    pub fn to_uncompressed(&self) -> (r: Vec<u8>)
        ensures
            r@ == self@,
    {
        copy_bytes(&self.bytes)
    }

    /// A copy of the point.
    pub fn duplicate(&self) -> (r: G1Point)
        ensures
            r@ == self@,
    {
        G1Point { bytes: copy_bytes(&self.bytes) }
    }

    /// Whether two points have the same encoding; for points held as
    /// arkworks writes them, whether they are the same point.
    pub fn equals(&self, other: &G1Point) -> (r: bool)
        ensures
            r == (self@ == other@),
    {
        bytes_equal(&self.bytes, &other.bytes)
    }

    /// Whether the point is the identity of G1.
    pub fn is_identity(&self) -> (r: bool)
        requires
            self.wf(),
        ensures
            r == (self@ == g1_identity_encoding()),
    {
        g1_check_zero(self)
    }
}

impl G2Point {
    /// The bytes are the encoding of a point of G2 as arkworks writes it.
    pub open spec fn wf(&self) -> bool {
        g2_decoding(self@) == Some(self@)
    }

    /// The point that the uncompressed encoding `bytes` denotes, held in
    /// the form arkworks writes it, or `None` when the bytes do not encode
    /// a point of G2.
    pub fn from_uncompressed(bytes: Vec<u8>) -> (r: Option<G2Point>)
        ensures
            r is Some <==> g2_decoding(bytes@) is Some,
            r matches Some(p) ==> g2_decoding(bytes@) == Some(p@) && p.wf(),
    {
        match g2_reencode(&bytes) {
            Some(b) => Some(G2Point { bytes: b }),
            None => None,
        }
    }

    /// The uncompressed encoding of the point.
    pub fn to_uncompressed(&self) -> (r: Vec<u8>)
        ensures
            r@ == self@,
    {
        copy_bytes(&self.bytes)
    }

    /// A copy of the point.
    pub fn duplicate(&self) -> (r: G2Point)
        ensures
            r@ == self@,
    {
        G2Point { bytes: copy_bytes(&self.bytes) }
    }

    /// Whether two points have the same encoding; for points held as
    /// arkworks writes them, whether they are the same point.
    pub fn equals(&self, other: &G2Point) -> (r: bool)
        ensures
            r == (self@ == other@),
    {
        bytes_equal(&self.bytes, &other.bytes)
    }
}

impl PairingValue {
    /// Whether two target-group elements are equal.
    pub fn equals(&self, other: &PairingValue) -> (r: bool)
        ensures
            r == (self@ == other@),
    {
        bytes_equal(&self.bytes, &other.bytes)
    }
}

} // verus!
