//! The data of the FFLONK decider's Solidity verifier.
use vstd::prelude::*;
use vstd::string::StringExecFns;
use crate::curve::{G1Point, G2Point};
use crate::decider::FFLONK_T;
use crate::field::Scalar;
use ark_bn254::{Fr, G1Affine, G2Affine};
use ark_ff::{BigInt, BigInteger, PrimeField};
use ark_serialize::{CanonicalDeserialize, CanonicalSerialize};

verus! {

/// The big-endian encoding of `v` in `n` bytes.
pub open spec fn be_bytes(v: nat, n: nat) -> Seq<u8> {
    Seq::new(n, |i: int| ((v / vstd::arithmetic::power::pow(256, (n - 1 - i) as nat) as nat) % 256) as u8)
}

/// The lower-case hexadecimal digit of `d < 16`.
pub open spec fn hex_digit(d: nat) -> char {
    if d < 10 {
        (d + 48) as char
    } else {
        (d + 87) as char
    }
}

/// Two lower-case hexadecimal digits per byte, high digit first.
pub open spec fn hex_of_bytes(b: Seq<u8>) -> Seq<char> {
    Seq::new(
        2 * b.len(),
        |k: int| if k % 2 == 0 { hex_digit((b[k / 2] / 16) as nat) } else { hex_digit((b[k / 2] % 16) as nat) },
    )
}

/// The Solidity literal of a public-parameter hash: `0x` and the 64
/// lower-case hexadecimal digits of its 32-byte big-endian encoding.
pub open spec fn pp_hash_literal(v: nat) -> Seq<char> {
    "0x"@ + hex_of_bytes(be_bytes(v, 32))
}

/// Big-endian bytes of a field element.
///
/// Calls `BigInteger::to_bytes_be` (ark-ff) on the element's canonical
/// limbs, as `into_bigint().to_bytes_be()` gives them. Claimed: the 32-byte
/// big-endian encoding of the value.
#[verifier::external_body]
fn scalar_to_bytes_be(s: &Scalar) -> (r: Vec<u8>)
    ensures
        r@ == be_bytes(s@, 32),
{
    BigInt::new([s.l0, s.l1, s.l2, s.l3]).to_bytes_be()
}

/// Appends a character to a string.
///
/// Calls `String::push` (std). Claimed: the character is added at the end.
#[verifier::external_body]
fn push_char(s: &mut String, c: char)
    ensures
        final(s)@ == old(s)@.push(c),
{
    s.push(c)
}

fn hex_char(d: u8) -> (r: char)
    requires
        d < 16,
    ensures
        r == hex_digit(d as nat),
{
    if d < 10 {
        (d + 48) as char
    } else {
        (d + 87) as char
    }
}

/// `0x` and the lower-case hexadecimal digits of `bytes`.
pub fn hex_literal(bytes: &Vec<u8>) -> (r: String)
    requires
        2 * bytes@.len() + 2 <= usize::MAX,
    ensures
        r@ == "0x"@ + hex_of_bytes(bytes@),
{
    let mut s = String::from_str("0x");
    let ghost prefix = "0x"@;
    let mut i: usize = 0;
    while i < bytes.len()
        invariant
            i <= bytes@.len(),
            prefix == "0x"@,
            s@ =~= prefix + hex_of_bytes(bytes@.subrange(0, i as int)),
        decreases bytes.len() - i,
    {
        let b = bytes[i];
        let ghost before = s@;
        push_char(&mut s, hex_char(b / 16));
        push_char(&mut s, hex_char(b % 16));
        proof {
            let h1 = hex_of_bytes(bytes@.subrange(0, i + 1));
            let h0 = hex_of_bytes(bytes@.subrange(0, i as int));
            assert(h1 =~= h0.push(hex_digit((b / 16) as nat)).push(hex_digit((b % 16) as nat))) by {
                assert forall|k: int| 0 <= k < 2 * i implies h1[k] == h0[k] by {
                    assert(k / 2 < i);
                }
                assert((2 * i as int) / 2 == i && (2 * i as int + 1) / 2 == i);
            }
        }
        i = i + 1;
    }
    assert(bytes@.subrange(0, bytes@.len() as int) =~= bytes@);
    s
}

/// The verifier key of the FFLONK decider: the public-parameter hash, the
/// length of the state vectors and the KZG points `g1`, `g2`, `tau*g2`.
pub struct FflonkVerifierKey {
    pub pp_hash: Scalar,
    pub z_len: usize,
    pub g1: G1Point,
    pub g2: G2Point,
    pub vk: G2Point,
}

/// The bytes that `CanonicalSerialize::serialize_compressed` writes for a
/// verifier key with the hash `pp_hash`, the state length `z_len` and the
/// points whose uncompressed encodings are `g1`, `g2`, `vk`: its fields in
/// order, each compressed.
pub uninterp spec fn vk_encoding(pp_hash: nat, z_len: nat, g1: Seq<u8>, g2: Seq<u8>, vk: Seq<u8>) -> Seq<u8>;

/// The verifier key that `CanonicalDeserialize::deserialize_compressed`
/// reads from the bytes, as its hash, state length and the uncompressed
/// encodings of its points; `None` where it refuses them.
pub uninterp spec fn vk_decoding(bytes: Seq<u8>) -> Option<(nat, nat, Seq<u8>, Seq<u8>, Seq<u8>)>;

/// Writes a verifier key.
///
/// Calls `serialize_compressed` (ark-serialize) on its fields as arkworks
/// values, in order, which is what the derived `CanonicalSerialize` of the
/// key writes. Claimed: the bytes are `vk_encoding` of the fields, and
/// reading them back gives the same fields.
#[verifier::external_body]
fn vk_encode(k: &FflonkVerifierKey) -> (r: Vec<u8>)
    requires
        k.wf(),
    ensures
        r@ == vk_encoding(k.pp_hash@, k.z_len as nat, k.g1@, k.g2@, k.vk@),
        vk_decoding(r@) == Some((k.pp_hash@, k.z_len as nat, k.g1@, k.g2@, k.vk@)),
{
    let s = &k.pp_hash;
    let f = Fr::from_bigint(BigInt::new([s.l0, s.l1, s.l2, s.l3])).unwrap();
    let a = G1Affine::deserialize_uncompressed_unchecked(&k.g1.bytes[..]).unwrap();
    let b = G2Affine::deserialize_uncompressed_unchecked(&k.g2.bytes[..]).unwrap();
    let c = G2Affine::deserialize_uncompressed_unchecked(&k.vk.bytes[..]).unwrap();
    let mut out = Vec::new();
    (f, k.z_len, a, b, c).serialize_compressed(&mut out).unwrap();
    out
}

/// Reads a verifier key.
///
/// Calls `deserialize_compressed` (ark-serialize, which checks the points)
/// for the fields in order; the points are re-encoded uncompressed.
/// Claimed: the outcome is `vk_decoding(bytes)`, and a key read is well
/// formed.
#[verifier::external_body]
fn vk_decode(bytes: &Vec<u8>) -> (r: Option<FflonkVerifierKey>)
    ensures
        r matches Some(k) ==> vk_decoding(bytes@) == Some((k.pp_hash@, k.z_len as nat, k.g1@, k.g2@, k.vk@))
            && k.wf(),
        r is None ==> vk_decoding(bytes@) is None,
{
    let (f, z_len, a, b, c) = <(Fr, usize, G1Affine, G2Affine, G2Affine)>::deserialize_compressed(&bytes[..]).ok()?;
    let l = f.into_bigint().0;
    let (mut x, mut y, mut z) = (Vec::new(), Vec::new(), Vec::new());
    a.serialize_uncompressed(&mut x).unwrap();
    b.serialize_uncompressed(&mut y).unwrap();
    c.serialize_uncompressed(&mut z).unwrap();
    let pp_hash = Scalar { l0: l[0], l1: l[1], l2: l[2], l3: l[3] };
    Some(FflonkVerifierKey { pp_hash, z_len, g1: G1Point { bytes: x }, g2: G2Point { bytes: y }, vk: G2Point { bytes: z } })
}

impl FflonkVerifierKey {
    /// The hash is canonical and the points are well formed.
    pub open spec fn wf(&self) -> bool {
        &&& self.pp_hash.wf()
        &&& self.g1.wf()
        &&& self.g2.wf()
        &&& self.vk.wf()
    }

    /// The compressed encoding of the key, as its derived
    /// `CanonicalSerialize` writes it; reading it back gives the key again.
    pub fn to_compressed_bytes(&self) -> (r: Vec<u8>)
        requires
            self.wf(),
        ensures
            r@ == vk_encoding(self.pp_hash@, self.z_len as nat, self.g1@, self.g2@, self.vk@),
            vk_decoding(r@) == Some((self.pp_hash@, self.z_len as nat, self.g1@, self.g2@, self.vk@)),
    {
        vk_encode(self)
    }

    /// The key a compressed encoding holds, or `None` where the bytes do
    /// not encode one.
    pub fn from_compressed_bytes(bytes: &Vec<u8>) -> (r: Option<FflonkVerifierKey>)
        ensures
            r matches Some(k) ==> vk_decoding(bytes@) == Some((k.pp_hash@, k.z_len as nat, k.g1@, k.g2@, k.vk@))
                && k.wf(),
            r is None <==> vk_decoding(bytes@) is None,
    {
        vk_decode(bytes)
    }

    /// A verifier key from its parts.
    pub fn new(pp_hash: Scalar, z_len: usize, g1: G1Point, g2: G2Point, vk: G2Point) -> (r: Self)
        ensures
            r.pp_hash == pp_hash,
            r.z_len == z_len,
            r.g1@ == g1@,
            r.g2@ == g2@,
            r.vk@ == vk@,
    {
        FflonkVerifierKey { pp_hash, z_len, g1, g2, vk }
    }
}

/// What the Solidity verifier template is filled with.
pub struct FflonkDeciderVerifier {
    /// The public-parameter hash as a hexadecimal literal.
    pub pp_hash: String,
    /// The number of aggregated polynomials.
    pub t: usize,
    /// The length of the state vectors.
    pub z_len: usize,
}

impl FflonkDeciderVerifier {
    /// The template data of a verifier key: its hash as a `0x` literal of 64
    /// hexadecimal digits, `t = 2`, and its state length.
    pub fn from(data: FflonkVerifierKey) -> (r: Self)
        ensures
            r.pp_hash@ == pp_hash_literal(data.pp_hash@),
            r.t == FFLONK_T,
            r.z_len == data.z_len,
    {
        let bytes = scalar_to_bytes_be(&data.pp_hash);
        assert(bytes@.len() == 32);
        let pp_hash = hex_literal(&bytes);
        FflonkDeciderVerifier { pp_hash, t: FFLONK_T, z_len: data.z_len }
    }
}

impl Default for FflonkDeciderVerifier {
    /// Empty template data: no hash, `t = 0`, no state.
    fn default() -> (r: Self)
        ensures
            r.pp_hash@ == Seq::<char>::empty(),
            r.t == 0,
            r.z_len == 0,
    {
        FflonkDeciderVerifier { pp_hash: String::new(), t: 0, z_len: 0 }
    }
}

/// The literal of a hash is `0x` followed by 64 hexadecimal digits.
pub proof fn lemma_pp_hash_literal_shape(v: nat)
    ensures
        pp_hash_literal(v).len() == 66,
        pp_hash_literal(v)[0] == '0',
        pp_hash_literal(v)[1] == 'x',
        forall|k: int|
            2 <= k < 66 ==> {
                let c = #[trigger] pp_hash_literal(v)[k];
                ('0' <= c <= '9') || ('a' <= c <= 'f')
            },
{
    reveal_strlit("0x");
    let b = be_bytes(v, 32);
    assert forall|k: int| 2 <= k < 66 implies {
        let c = #[trigger] pp_hash_literal(v)[k];
        ('0' <= c <= '9') || ('a' <= c <= 'f')
    } by {
        let j = k - 2;
        assert(pp_hash_literal(v)[k] == hex_of_bytes(b)[j]);
        let byte = b[j / 2];
        assert(byte / 16 < 16 && byte % 16 < 16);
    }
}

/// The number that big-endian bytes write.
pub open spec fn be_value(b: Seq<u8>) -> nat
    decreases b.len(),
{
    if b.len() == 0 {
        0
    } else {
        be_value(b.drop_last()) * 256 + b.last() as nat
    }
}

proof fn lemma_be_bytes_split(v: nat, n: nat)
    requires
        n >= 1,
    ensures
        be_bytes(v, n) == be_bytes(v / 256, (n - 1) as nat).push((v % 256) as u8),
{
    let a = be_bytes(v, n);
    let b = be_bytes(v / 256, (n - 1) as nat).push((v % 256) as u8);
    assert forall|i: int| 0 <= i < n implies a[i] == b[i] by {
        if i < n - 1 {
            let k = (n - 2 - i) as nat;
            let pk = vstd::arithmetic::power::pow(256, k);
            vstd::arithmetic::power::lemma_pow_adds(256, 1, k);
            vstd::arithmetic::power::lemma_pow1(256);
            vstd::arithmetic::power::lemma_pow_positive(256, k);
            assert((n - 1 - i) as nat == 1 + k);
            assert(((n - 1) as nat - 1 - i) as nat == k);
            assert(vstd::arithmetic::power::pow(256, (n - 1 - i) as nat) == 256 * pk);
            vstd::arithmetic::div_mod::lemma_div_denominator(v as int, 256, pk);
            assert(a[i] == ((v / (256 * pk) as nat) % 256) as u8);
            assert(b[i] == be_bytes(v / 256, (n - 1) as nat)[i]);
            assert(b[i] == (((v / 256) / pk as nat) % 256) as u8);
            assert(((v as int) / 256) / pk == (v as int) / (256 * pk));
            assert((v / 256) / pk as nat == v / (256 * pk) as nat);
        } else {
            vstd::arithmetic::power::lemma_pow0(256);
            assert((n - 1 - i) as nat == 0);
            assert(v / 1 == v);
            assert(a[i] == ((v / 1) % 256) as u8);
            assert(b[i] == (v % 256) as u8);
        }
    }
    assert(a =~= b);
}

/// `n` big-endian bytes write back any number below `256^n`.
pub proof fn lemma_be_bytes_value(v: nat, n: nat)
    requires
        v < vstd::arithmetic::power::pow(256, n),
    ensures
        be_value(be_bytes(v, n)) == v,
    decreases n,
{
    if n == 0 {
        vstd::arithmetic::power::lemma_pow0(256);
        assert(be_bytes(v, 0) =~= Seq::<u8>::empty());
    } else {
        lemma_be_bytes_split(v, n);
        vstd::arithmetic::power::lemma_pow_adds(256, 1, (n - 1) as nat);
        vstd::arithmetic::power::lemma_pow1(256);
        assert((n - 1) as nat + 1 == n);
        vstd::arithmetic::div_mod::lemma_multiply_divide_lt(
            v as int,
            256,
            vstd::arithmetic::power::pow(256, (n - 1) as nat),
        );
        lemma_be_bytes_value(v / 256, (n - 1) as nat);
        let s = be_bytes(v, n);
        assert(s.drop_last() =~= be_bytes(v / 256, (n - 1) as nat));
        vstd::arithmetic::div_mod::lemma_fundamental_div_mod(v as int, 256);
    }
}

/// Distinct digits give distinct hexadecimal characters.
pub proof fn lemma_hex_digit_injective(a: nat, b: nat)
    requires
        a < 16,
        b < 16,
        hex_digit(a) == hex_digit(b),
    ensures
        a == b,
{
    assert(hex_digit(a) as u32 == if a < 10 { a + 48 } else { a + 87 });
    assert(hex_digit(b) as u32 == if b < 10 { b + 48 } else { b + 87 });
}

/// The hexadecimal text of a byte string determines the bytes.
pub proof fn lemma_hex_of_bytes_injective(a: Seq<u8>, b: Seq<u8>)
    requires
        hex_of_bytes(a) == hex_of_bytes(b),
    ensures
        a == b,
{
    assert(hex_of_bytes(a).len() == 2 * a.len());
    assert(hex_of_bytes(b).len() == 2 * b.len());
    assert forall|i: int| 0 <= i < a.len() implies a[i] == b[i] by {
        let k = 2 * i;
        assert(k % 2 == 0 && k / 2 == i);
        assert((k + 1) % 2 == 1 && (k + 1) / 2 == i);
        assert(hex_of_bytes(a)[k] == hex_of_bytes(b)[k]);
        assert(hex_of_bytes(a)[k + 1] == hex_of_bytes(b)[k + 1]);
        assert(hex_of_bytes(a)[k] == hex_digit((a[i] / 16) as nat));
        assert(hex_of_bytes(b)[k] == hex_digit((b[i] / 16) as nat));
        assert(hex_of_bytes(a)[k + 1] == hex_digit((a[i] % 16) as nat));
        assert(hex_of_bytes(b)[k + 1] == hex_digit((b[i] % 16) as nat));
        lemma_hex_digit_injective((a[i] / 16) as nat, (b[i] / 16) as nat);
        lemma_hex_digit_injective((a[i] % 16) as nat, (b[i] % 16) as nat);
    }
    assert(a =~= b);
}

/// The Solidity literal of a hash determines the hash: two hashes below
/// `2^256` with the same literal are equal.
pub proof fn lemma_pp_hash_literal_injective(v: nat, w: nat)
    requires
        v < vstd::arithmetic::power::pow(256, 32),
        w < vstd::arithmetic::power::pow(256, 32),
        pp_hash_literal(v) == pp_hash_literal(w),
    ensures
        v == w,
{
    reveal_strlit("0x");
    let hv = hex_of_bytes(be_bytes(v, 32));
    let hw = hex_of_bytes(be_bytes(w, 32));
    assert(pp_hash_literal(v).subrange(2, pp_hash_literal(v).len() as int) =~= hv);
    assert(pp_hash_literal(w).subrange(2, pp_hash_literal(w).len() as int) =~= hw);
    lemma_hex_of_bytes_injective(be_bytes(v, 32), be_bytes(w, 32));
    lemma_be_bytes_value(v, 32);
    lemma_be_bytes_value(w, 32);
}

/// Digit `d` is written as the `d`-th character of `0123456789abcdef`.
pub proof fn lemma_hex_digit_table(d: nat)
    requires
        d < 16,
    ensures
        hex_digit(d) == "0123456789abcdef"@[d as int],
{
    reveal_strlit("0123456789abcdef");
}

} // verus!
