//! The FFLONK decider: sizing and generation of its keys, assembly of its
//! proof around the aggregated opening of the witness polynomials, and the
//! decisions of its verifier.
use vstd::prelude::*;
use vstd::arithmetic::power2::{pow2, lemma2_to64, lemma_pow2_unfold, lemma_pow2_pos};
use core::marker::PhantomData;
use crate::curve::{G1Point, g1_add, g1_mul, g1_scalar_mul, g1_sum, g2_scalar_mul, g2_sum, pairing_spec};
use crate::field::{Scalar, scalar_modulus};
use crate::kzg::{
    CommitterKey, OpeningError, Urs, VerifierKey, all_g1_wf, g1_views, g2_views, kzg_commitment,
    kzg_opening_proof, max_urs_bases, opening_pairings, urs_generation,
};
use crate::poly::{
    all_wf, combine_pair, combine_spec, degree, evaluate, lemma_combine_pair_field, lemma_combine_pair_recovery,
    is_square, fr_sqrt, neg_value, opening_roots,
    poly_eval, roots_pair, values,
};

verus! {

/// Number of polynomials aggregated by FFLONK in this decider (`W` and `E`).
pub const FFLONK_T: usize = 2;

/// Errors of the decider.
#[derive(Debug, Clone, Copy, PartialEq, Eq, Structural)]
pub enum DeciderError {
    /// The proof covers too few folding steps (`i <= 1`).
    NotEnoughSteps,
    /// The proof's witness commitments differ from the folded ones.
    CommitmentVerificationFail,
    /// A list had the first length where the second was expected.
    NotExpectedLength(usize, usize),
    /// The combined polynomial exceeds the committer key.
    KzgCommitFailed,
    /// The opening proof of the combined polynomial could not be made.
    KzgOpenFailed,
    /// An opening proof of a witness commitment was rejected.
    OpeningProofRejected,
    /// The proof could not be made: the first challenge has no square root
    /// in `Fr`, so the opening roots of the combined polynomial do not exist.
    FflonkProveFail,
    /// The FFLONK part of the proof is refused: it was made for another
    /// public input, it lacks the combined opening, or the pairing equation
    /// of that opening does not hold.
    FflonkVerificationFail,
    /// A pairing of the combined opening has no result.
    PairingUndefined,
}

/// The FFLONK decider for Nova, over a primary curve `C1`, a secondary curve
/// `C2`, a step circuit `FC`, commitment schemes `CS1`, `CS2` and a folding
/// scheme `FS`.
pub struct DeciderFflonk<C1, C2, FC, CS1, CS2, FS> {
    _c1: PhantomData<C1>,
    _c2: PhantomData<C2>,
    _fc: PhantomData<FC>,
    _cs1: PhantomData<CS1>,
    _cs2: PhantomData<CS2>,
    _fs: PhantomData<FS>,
}

/// Parameters of the prover: the KZG committer key and the parameters of
/// the commitment scheme of the folding scheme.
pub struct FflonkProverParam<CSP> {
    pub kzg_ck: CommitterKey,
    pub cs_pp: CSP,
}

/// Parameters of the verifier: the hash of the public parameters, the KZG
/// verifier key and the verifier parameters of the commitment scheme.
pub struct FflonkVerifierParam<CSV> {
    pub pp_hash: Scalar,
    pub kzg_vk: VerifierKey,
    pub cs_vp: CSV,
}

/// A decider proof.
#[allow(non_snake_case)]
pub struct FflonkProof<P> {
    /// Commitments to the witness polynomials `[cmW, cmE]`.
    pub witness_commitments: Vec<G1Point>,
    /// Values of the witness polynomials at the challenges.
    pub evaluations: Vec<Scalar>,
    /// Opening proofs of the witness commitments (two of them).
    pub kzg_proofs: Vec<P>,
    /// Commitment to the cross term of the last fold.
    pub cmT: G1Point,
    /// Randomness of the last fold.
    pub r: Scalar,
    /// Challenges of the witness openings (two of them).
    pub kzg_challenges: Vec<Scalar>,
    /// The public input the proof was made for: the hash of the public
    /// parameters, the number of steps, the initial and the current state.
    pub public_input: Vec<Scalar>,
    /// Commitment to `g(X) = W(X^2) + X * E(X^2)`.
    pub combined_commitment: Option<G1Point>,
    /// The two square roots `z, -z` of the first challenge `x` (the `t = 2`
    /// roots of the challenge point).
    pub opening_roots: Option<Vec<Scalar>>,
    /// Values of `g` at the opening roots.
    pub combined_evaluations: Option<Vec<Scalar>>,
    /// The point `x` at which `g` is opened.
    pub combined_challenge: Option<Scalar>,
    /// KZG proof of the opening of `g` at `x`.
    pub combined_opening_proof: Option<G1Point>,
    /// Value of `g` at `x`.
    pub combined_eval_at_challenge: Option<Scalar>,
}

/// What the decider circuit derives from the folding scheme and what the
/// commitment scheme proves of it, handed to the prover.
#[allow(non_snake_case)]
pub struct DeciderWitness<P> {
    /// Commitment to the cross term of the last fold.
    pub cmT: G1Point,
    /// Randomness of the last fold.
    pub r: Scalar,
    /// Challenges of the witness openings.
    pub kzg_challenges: Vec<Scalar>,
    /// Coefficients of the witness polynomial `W`.
    pub w_coeffs: Vec<Scalar>,
    /// Coefficients of the error polynomial `E`.
    pub e_coeffs: Vec<Scalar>,
    /// Opening proofs of `W` and `E` at the challenges.
    pub kzg_proofs: Vec<P>,
    /// Commitments of the folded instance.
    pub witness_commitments: Vec<G1Point>,
    /// Values of the witness polynomials at the challenges.
    pub evaluations: Vec<Scalar>,
    /// The public input of the decider circuit: `pp_hash`, `i`, `z_0` and
    /// `z_i`, in this order.
    pub public_input: Vec<Scalar>,
}

/// The public input of the decider: the hash of the public parameters, the
/// number of steps, the initial state and the current state.
pub open spec fn public_input_of(pp_hash: nat, i: nat, z_0: Seq<Scalar>, z_i: Seq<Scalar>) -> Seq<nat> {
    seq![pp_hash, i] + values(z_0) + values(z_i)
}

/// Sizes of the reference string for a decider circuit.
#[derive(Debug, Clone, Copy, PartialEq, Eq, Structural)]
pub struct UrsSize {
    /// Constraints of the decider circuit.
    pub num_constraints: usize,
    /// Maximal polynomial degree: the least power of two not below twice the
    /// constraints.
    pub max_degree: usize,
    /// Bases in G1: `max_degree + 1`.
    pub n1: usize,
    /// Bases in G2: `g2` and `tau*g2`.
    pub n2: usize,
    /// Estimated memory of the reference string in MiB, at 128 bytes a base.
    pub estimated_mib: usize,
}

/// Least power of two not below `m`, searched from `p`.
pub open spec fn next_pow2_from(p: nat, m: nat) -> nat
    decreases (if p < m { m - p } else { 0 }),
    when p >= 1
{
    if p >= m {
        p
    } else {
        next_pow2_from(2 * p, m)
    }
}

/// Least power of two not below `m` (1 for `m = 0`).
pub open spec fn next_pow2(m: nat) -> nat {
    next_pow2_from(1, m)
}

/// The sizes that a decider circuit of `n` constraints asks of the
/// reference string.
pub open spec fn urs_size_spec(n: nat) -> UrsSize {
    let d = next_pow2(2 * n);
    UrsSize {
        num_constraints: n as usize,
        max_degree: d as usize,
        n1: (d + 1) as usize,
        n2: 2,
        estimated_mib: (((d + 1) * 128) / (1024 * 1024)) as usize,
    }
}

/// The sizes can be computed without overflow.
pub open spec fn urs_size_fits(n: nat) -> bool {
    &&& 2 * n <= usize::MAX
    &&& (next_pow2(2 * n) + 1) * 128 <= usize::MAX
}

proof fn lemma_next_pow2_from_bounds(k: nat, m: nat)
    requires
        pow2(k) >= 1,
    ensures
        next_pow2_from(pow2(k), m) >= pow2(k),
        next_pow2_from(pow2(k), m) >= m,
        pow2(k) < m ==> next_pow2_from(pow2(k), m) < 2 * m,
        exists|j: nat| j >= k && next_pow2_from(pow2(k), m) == #[trigger] pow2(j),
    decreases (if pow2(k) < m { m - pow2(k) } else { 0 }),
{
    lemma_pow2_unfold(k + 1);
    lemma_pow2_pos(k + 1);
    if pow2(k) < m {
        lemma_next_pow2_from_bounds(k + 1, m);
    } else {
        assert(next_pow2_from(pow2(k), m) == pow2(k));
    }
}

/// Least power of two not below `m`.
fn next_power_of_two(m: usize) -> (r: usize)
    requires
        next_pow2(m as nat) <= usize::MAX,
    ensures
        r == next_pow2(m as nat),
{
    let mut p: usize = 1;
    let ghost mut k: nat = 0;
    proof {
        lemma2_to64();
    }
    while p < m
        invariant
            p >= 1,
            p == pow2(k),
            next_pow2_from(p as nat, m as nat) == next_pow2(m as nat),
            next_pow2(m as nat) <= usize::MAX,
        decreases (if p < m { m - p } else { 0 }),
    {
        proof {
            lemma_pow2_unfold(k + 1);
            lemma_next_pow2_from_bounds(k + 1, m as nat);
            lemma_pow2_pos(k + 1);
        }
        p = p * 2;
        proof {
            k = k + 1;
        }
    }
    p
}

/// The sizes of the reference string for a decider circuit of
/// `num_constraints` constraints.
pub fn urs_size(num_constraints: usize) -> (r: UrsSize)
    requires
        urs_size_fits(num_constraints as nat),
    ensures
        r == urs_size_spec(num_constraints as nat),
{
    let max_degree = next_power_of_two(num_constraints * 2);
    let n1 = max_degree + 1;
    UrsSize { num_constraints, max_degree, n1, n2: 2, estimated_mib: (n1 * 128) / (1024 * 1024) }
}

/// The degree bound of the reference string: `max_degree` is a power of two
/// at least twice the constraints and, for a nonempty circuit, less than
/// four times them; there is one more G1 base than `max_degree`, and two G2
/// bases.
pub proof fn lemma_urs_size_bounds(n: nat)
    requires
        urs_size_fits(n),
    ensures
        urs_size_spec(n).max_degree >= 2 * n,
        n > 0 ==> urs_size_spec(n).max_degree < 4 * n,
        exists|j: nat| urs_size_spec(n).max_degree == #[trigger] pow2(j),
        urs_size_spec(n).n1 == urs_size_spec(n).max_degree + 1,
        urs_size_spec(n).n2 == 2,
{
    lemma2_to64();
    lemma_next_pow2_from_bounds(0, 2 * n);
}

/// The verifier key of a reference string starts the committer key: its
/// `g1` is the committer key's first base.
pub open spec fn keys_match(ck: &CommitterKey, vk: &VerifierKey) -> bool {
    ck.powers_in_g1@.len() >= 1 && vk.g1@ == ck.powers_in_g1@[0]@
}

impl<C1, C2, FC, CS1, CS2, FS> DeciderFflonk<C1, C2, FC, CS1, CS2, FS> {
    /// Prover and verifier parameters from a reference string: the committer
    /// key is all its G1 bases, the verifier key its first G1 base and first
    /// two G2 bases.
    pub fn preprocess_with_urs<CSP, CSV>(urs: &Urs, pp_hash: Scalar, cs_pp: CSP, cs_vp: CSV) -> (r: (
        FflonkProverParam<CSP>,
        FflonkVerifierParam<CSV>,
    ))
        requires
            urs.powers_in_g1@.len() > 0,
            urs.powers_in_g2@.len() > 1,
        ensures
            g1_views(r.0.kzg_ck.powers_in_g1@) == g1_views(urs.powers_in_g1@),
            r.0.cs_pp == cs_pp,
            r.1.pp_hash == pp_hash,
            r.1.cs_vp == cs_vp,
            r.1.kzg_vk.g1@ == urs.powers_in_g1@[0]@,
            r.1.kzg_vk.g2@ == urs.powers_in_g2@[0]@,
            r.1.kzg_vk.tau_in_g2@ == urs.powers_in_g2@[1]@,
            keys_match(&r.0.kzg_ck, &r.1.kzg_vk),
            urs.wf() ==> r.0.kzg_ck.wf() && r.1.kzg_vk.wf(),
    {
        let kzg_ck = urs.committer_key();
        let kzg_vk = urs.raw_verifier_key();
        proof {
            assert(g1_views(kzg_ck.powers_in_g1@)[0] == g1_views(urs.powers_in_g1@)[0]);
        }
        (FflonkProverParam { kzg_ck, cs_pp }, FflonkVerifierParam { pp_hash, kzg_vk, cs_vp })
    }

    /// Prover and verifier parameters for a decider circuit of
    /// `num_constraints` constraints, with a reference string generated from
    /// `seed` of the sizes `urs_size` gives.
    ///
    /// The reference string, and so its trapdoor, is a function of `seed`:
    /// the seed is the randomness of the setup and must be drawn fresh from
    /// a cryptographically secure generator and then discarded. Taking the
    /// seed rather than the generator lets the contract name the string; the
    /// prover itself reads no randomness.
    pub fn preprocess<CSP, CSV>(num_constraints: usize, pp_hash: Scalar, cs_pp: CSP, cs_vp: CSV, seed: [u8; 32]) -> (r: (
        FflonkProverParam<CSP>,
        FflonkVerifierParam<CSV>,
    ))
        requires
            urs_size_fits(num_constraints as nat),
            urs_size_spec(num_constraints as nat).n1 <= max_urs_bases(),
        ensures
            ({
                let size = urs_size_spec(num_constraints as nat);
                let (g1s, g2s) = urs_generation(size.n1 as nat, size.n2 as nat, seed@);
                &&& g1_views(r.0.kzg_ck.powers_in_g1@) == g1s
                &&& r.0.kzg_ck.powers_in_g1@.len() == size.n1
                &&& r.1.kzg_vk.g1@ == g1s[0]
                &&& r.1.kzg_vk.g2@ == g2s[0]
                &&& r.1.kzg_vk.tau_in_g2@ == g2s[1]
            }),
            r.0.cs_pp == cs_pp,
            r.1.pp_hash == pp_hash,
            r.1.cs_vp == cs_vp,
            keys_match(&r.0.kzg_ck, &r.1.kzg_vk),
            r.0.kzg_ck.wf(),
            r.1.kzg_vk.wf(),
    {
        let size = urs_size(num_constraints);
        let urs = Urs::generate(size.n1, size.n2, seed);
        let ghost gv = (g1_views(urs.powers_in_g1@), g2_views(urs.powers_in_g2@));
        assert(gv.0[0] == urs.powers_in_g1@[0]@);
        assert(gv.1[0] == urs.powers_in_g2@[0]@);
        assert(gv.1[1] == urs.powers_in_g2@[1]@);
        let r = Self::preprocess_with_urs(&urs, pp_hash, cs_pp, cs_vp);
        assert(r.0.kzg_ck.powers_in_g1@.len() == g1_views(urs.powers_in_g1@).len());
        r
    }
}

/// The combined polynomial `g(X) = W(X^2) + X * E(X^2)` of a witness.
pub open spec fn combined_of<P>(w: &DeciderWitness<P>) -> Seq<nat> {
    combine_spec(2, seq![values(w.w_coeffs@), values(w.e_coeffs@)])
}

/// Whether two lists of G1 points are equal.
fn points_equal(a: &Vec<G1Point>, b: &Vec<G1Point>) -> (r: bool)
    ensures
        r == (g1_views(a@) == g1_views(b@)),
{
    if a.len() != b.len() {
        proof {
            assert(g1_views(a@).len() != g1_views(b@).len());
        }
        return false;
    }
    let mut i: usize = 0;
    while i < a.len()
        invariant
            a.len() == b.len(),
            i <= a.len(),
            forall|j: int| 0 <= j < i ==> #[trigger] a@[j]@ == b@[j]@,
        decreases a.len() - i,
    {
        if !a[i].equals(&b[i]) {
            proof {
                assert(g1_views(a@)[i as int] != g1_views(b@)[i as int]);
            }
            return false;
        }
        i = i + 1;
    }
    assert(g1_views(a@) =~= g1_views(b@));
    true
}

/// The commitments of the instance folded from a running instance with
/// commitments `[cmW, cmE]`, an incoming one with `[cmW', _]`, the cross
/// term `cmT` and the randomness `r`: `[cmW + r*cmW', cmE + r*cmT]`.
pub open spec fn folded_commitments(running: Seq<Seq<u8>>, incoming: Seq<Seq<u8>>, cm_t: Seq<u8>, r: nat) -> Seq<
    Seq<u8>,
> {
    seq![g1_sum(running[0], g1_scalar_mul(incoming[0], r)), g1_sum(running[1], g1_scalar_mul(cm_t, r))]
}

/// Folds the commitments of a running and an incoming instance with the
/// cross term `cm_t` and the randomness `r`.
pub fn fold_commitments(running: &Vec<G1Point>, incoming: &Vec<G1Point>, cm_t: &G1Point, r: &Scalar) -> (f: Vec<
    G1Point,
>)
    requires
        running@.len() >= 2,
        incoming@.len() >= 2,
        all_g1_wf(running@),
        all_g1_wf(incoming@),
        cm_t.wf(),
        r.wf(),
    ensures
        g1_views(f@) == folded_commitments(g1_views(running@), g1_views(incoming@), cm_t@, r@),
        all_g1_wf(f@),
{
    proof {
        assert(running@[0].wf() && running@[1].wf() && incoming@[0].wf());
    }
    let cm_w = g1_add(&running[0], &g1_mul(&incoming[0], r));
    let cm_e = g1_add(&running[1], &g1_mul(cm_t, r));
    let mut f: Vec<G1Point> = Vec::new();
    f.push(cm_w);
    f.push(cm_e);
    assert(g1_views(f@) =~= folded_commitments(g1_views(running@), g1_views(incoming@), cm_t@, r@));
    f
}

/// Whether two lists of field elements hold the same values.
fn scalars_equal(a: &Vec<Scalar>, b: &Vec<Scalar>) -> (r: bool)
    ensures
        r == (values(a@) == values(b@)),
{
    if a.len() != b.len() {
        assert(values(a@).len() != values(b@).len());
        return false;
    }
    let mut k: usize = 0;
    while k < a.len()
        invariant
            a.len() == b.len(),
            k <= a.len(),
            forall|j: int| 0 <= j < k ==> #[trigger] a@[j]@ == b@[j]@,
        decreases a.len() - k,
    {
        if !a[k].equals(&b[k]) {
            assert(values(a@)[k as int] != values(b@)[k as int]);
            return false;
        }
        k = k + 1;
    }
    assert(values(a@) =~= values(b@));
    true
}

/// Whether `public_input` is the public input `pp_hash, i, z_0, z_i`.
fn public_input_matches(
    public_input: &Vec<Scalar>,
    pp_hash: &Scalar,
    i: &Scalar,
    z_0: &Vec<Scalar>,
    z_i: &Vec<Scalar>,
) -> (r: bool)
    ensures
        r == (values(public_input@) == public_input_of(pp_hash@, i@, z_0@, z_i@)),
{
    let mut expected: Vec<Scalar> = Vec::new();
    expected.push(*pp_hash);
    expected.push(*i);
    let mut k: usize = 0;
    while k < z_0.len()
        invariant
            k <= z_0.len(),
            values(expected@) == seq![pp_hash@, i@] + values(z_0@.subrange(0, k as int)),
        decreases z_0.len() - k,
    {
        let ghost before = expected@;
        expected.push(z_0[k]);
        assert(values(expected@) =~= values(before).push(z_0@[k as int]@));
        k = k + 1;
        assert(values(z_0@.subrange(0, k as int)) =~= values(z_0@.subrange(0, k - 1)).push(z_0@[k - 1]@));
        assert(values(expected@) =~= seq![pp_hash@, i@] + values(z_0@.subrange(0, k as int)));
    }
    assert(z_0@.subrange(0, z_0@.len() as int) =~= z_0@);
    let mut k: usize = 0;
    while k < z_i.len()
        invariant
            k <= z_i.len(),
            values(expected@) == seq![pp_hash@, i@] + values(z_0@) + values(z_i@.subrange(0, k as int)),
        decreases z_i.len() - k,
    {
        let ghost before = expected@;
        expected.push(z_i[k]);
        assert(values(expected@) =~= values(before).push(z_i@[k as int]@));
        k = k + 1;
        assert(values(z_i@.subrange(0, k as int)) =~= values(z_i@.subrange(0, k - 1)).push(z_i@[k - 1]@));
        assert(values(expected@) =~= seq![pp_hash@, i@] + values(z_0@) + values(z_i@.subrange(0, k as int)));
    }
    assert(z_i@.subrange(0, z_i@.len() as int) =~= z_i@);
    scalars_equal(public_input, &expected)
}

/// Smallest of three lengths.
pub open spec fn min3(a: nat, b: nat, c: nat) -> nat {
    if a <= b && a <= c {
        a
    } else if b <= c {
        b
    } else {
        c
    }
}

impl<P> FflonkProof<P> {
    /// The combined opening's points and field elements are well formed.
    pub open spec fn wf(&self) -> bool {
        &&& (self.combined_commitment matches Some(c) ==> c.wf())
        &&& (self.combined_opening_proof matches Some(c) ==> c.wf())
        &&& (self.combined_challenge matches Some(x) ==> x.wf())
        &&& (self.combined_eval_at_challenge matches Some(y) ==> y.wf())
    }

    /// The proof carries the whole combined opening.
    pub open spec fn has_combined_opening(&self) -> bool {
        &&& self.combined_commitment is Some
        &&& self.combined_challenge is Some
        &&& self.combined_opening_proof is Some
        &&& self.combined_eval_at_challenge is Some
    }
}

/// `proof` is the decider proof of `witness` under the committer key `ck`:
/// it carries the witness's data and public input, the commitment to the
/// combined polynomial `g`, its values at the opening roots `z, -z`, the two
/// square roots of the first challenge `x`, and its opening at `x`, whose
/// value is `W(x^2) + x * E(x^2)`.
pub open spec fn proof_of<P>(ck: &CommitterKey, witness: &DeciderWitness<P>, proof: &FflonkProof<P>) -> bool {
    let g = combined_of(witness);
    let x = witness.kzg_challenges@[0];
    &&& proof.combined_commitment matches Some(c) && c@ == kzg_commitment(g1_views(ck.powers_in_g1@), g)
        && c.wf()
    &&& proof.opening_roots matches Some(rs) && rs@.len() == 2 && (rs@[0]@ * rs@[0]@) % scalar_modulus() == x@
        && fr_sqrt(x@) == Some(rs@[0]@) && values(rs@) == roots_pair(rs@[0]@) && rs@[0].wf()
    &&& proof.combined_evaluations matches Some(ev) && values(ev@) == seq![
        poly_eval(g, proof.opening_roots->0@[0]@),
        poly_eval(g, neg_value(proof.opening_roots->0@[0]@)),
    ]
    &&& proof.combined_challenge == Some(x)
    &&& proof.combined_opening_proof matches Some(pi) && pi@ == kzg_opening_proof(
        g1_views(ck.powers_in_g1@),
        g,
        x@,
    ) && pi.wf()
    &&& proof.combined_eval_at_challenge matches Some(v) && v@ == poly_eval(g, x@) && v@ == (poly_eval(
        values(witness.w_coeffs@),
        (x@ * x@) % scalar_modulus(),
    ) + x@ * poly_eval(values(witness.e_coeffs@), (x@ * x@) % scalar_modulus())) % scalar_modulus()
    &&& g1_views(proof.witness_commitments@) == g1_views(witness.witness_commitments@)
    &&& proof.evaluations@ == witness.evaluations@
    &&& proof.kzg_proofs@ == witness.kzg_proofs@
    &&& proof.cmT@ == witness.cmT@
    &&& proof.r == witness.r
    &&& proof.kzg_challenges@ == witness.kzg_challenges@
    &&& proof.public_input@ == witness.public_input@
    &&& proof.wf()
}

/// What the verifier with KZG key `vk` and parameter hash `pp_hash` answers,
/// after `i` folding steps from the state `z_0` to the state `z_i`, to
/// `proof` for the running and incoming commitments `running`, `incoming`,
/// given the commitment scheme's verdicts `checks` on the witness openings.
pub open spec fn verify_outcome<P>(
    vk: &VerifierKey,
    pp_hash: nat,
    i: nat,
    z_0: Seq<Scalar>,
    z_i: Seq<Scalar>,
    running: Seq<Seq<u8>>,
    incoming: Seq<Seq<u8>>,
    proof: &FflonkProof<P>,
    checks: Seq<bool>,
) -> Result<bool, DeciderError> {
    let m = min3(2, proof.kzg_challenges@.len() as nat, proof.kzg_proofs@.len() as nat);
    if i <= 1 {
        Err(DeciderError::NotEnoughSteps)
    } else if g1_views(proof.witness_commitments@) != folded_commitments(running, incoming, proof.cmT@, proof.r@) {
        Err(DeciderError::CommitmentVerificationFail)
    } else if values(proof.public_input@) != public_input_of(pp_hash, i, z_0, z_i) {
        Err(DeciderError::FflonkVerificationFail)
    } else if !(forall|k: int| 0 <= k < m ==> #[trigger] checks[k]) {
        Err(DeciderError::OpeningProofRejected)
    } else if !proof.has_combined_opening() {
        Err(DeciderError::FflonkVerificationFail)
    } else {
        kzg_outcome(
            vk,
            proof.combined_commitment->0@,
            proof.combined_challenge->0@,
            proof.combined_eval_at_challenge->0@,
            proof.combined_opening_proof->0@,
        )
    }
}

/// The verifier's answer to an opening of `commitment` at `z` to `y` with
/// the proof `pi`: its pairing equation must hold.
pub open spec fn kzg_outcome(vk: &VerifierKey, commitment: Seq<u8>, z: nat, y: nat, pi: Seq<u8>) -> Result<
    bool,
    DeciderError,
> {
    let (l, rr) = opening_pairings(vk.g1@, vk.g2@, vk.tau_in_g2@, commitment, z, y, pi);
    if l is None || rr is None {
        Err(DeciderError::PairingUndefined)
    } else if l != rr {
        Err(DeciderError::FflonkVerificationFail)
    } else {
        Ok(true)
    }
}

impl<C1, C2, FC, CS1, CS2, FS> DeciderFflonk<C1, C2, FC, CS1, CS2, FS> {
    /// The decider proof of a witness: the witness polynomials `W` and `E`
    /// are combined into `g(X) = W(X^2) + X * E(X^2)`, which is committed to
    /// and opened at the first challenge `x`, and evaluated at the two
    /// square roots `z, -z` of `x`. The proof carries the witness's public
    /// input.
    pub fn prove<CSP, P>(pp: FflonkProverParam<CSP>, witness: DeciderWitness<P>) -> (r: Result<
        FflonkProof<P>,
        DeciderError,
    >)
        requires
            pp.kzg_ck.wf(),
            all_wf(witness.w_coeffs@),
            all_wf(witness.e_coeffs@),
            all_wf(witness.kzg_challenges@),
            witness.kzg_challenges@.len() >= 1,
            2 * witness.w_coeffs@.len() <= usize::MAX,
            2 * witness.e_coeffs@.len() <= usize::MAX,
        ensures
            ({
                let g = combined_of(&witness);
                let n = pp.kzg_ck.powers_in_g1@.len();
                let x = witness.kzg_challenges@[0];
                let np = witness.kzg_proofs@.len();
                let nc = witness.kzg_challenges@.len();
                let sq = is_square(x@);
                &&& !sq ==> r == Err::<FflonkProof<P>, DeciderError>(DeciderError::FflonkProveFail)
                &&& sq && degree(g) > n - 1 ==> r == Err::<FflonkProof<P>, DeciderError>(
                    DeciderError::KzgCommitFailed,
                )
                &&& sq && degree(g) <= n - 1 && np != 2 ==> r == Err::<FflonkProof<P>, DeciderError>(
                    DeciderError::NotExpectedLength(np as usize, 2),
                )
                &&& sq && degree(g) <= n - 1 && np == 2 && nc != 2 ==> r == Err::<FflonkProof<P>, DeciderError>(
                    DeciderError::NotExpectedLength(nc as usize, 2),
                )
                &&& r is Ok <==> sq && degree(g) <= n - 1 && np == 2 && nc == 2
                &&& r matches Ok(proof) ==> proof_of(&pp.kzg_ck, &witness, &proof)
            }),
    {
        let DeciderWitness {
            cmT,
            r,
            kzg_challenges,
            w_coeffs,
            e_coeffs,
            kzg_proofs,
            witness_commitments,
            evaluations,
            public_input,
        } = witness;
        let ghost wv = values(w_coeffs@);
        let ghost ev = values(e_coeffs@);
        let combined = combine_pair(w_coeffs, e_coeffs);
        let challenge_x = kzg_challenges[0];
        let opening_roots = match opening_roots(&challenge_x) {
            Some(rs) => rs,
            None => {
                return Err(DeciderError::FflonkProveFail);
            },
        };
        proof {
            assert(values(opening_roots@)[0] == opening_roots@[0]@);
            assert(values(opening_roots@)[1] == opening_roots@[1]@);
            assert(opening_roots@[0].wf() && opening_roots@[1].wf());
        }
        let at_first = evaluate(&combined, &opening_roots[0]);
        let at_second = evaluate(&combined, &opening_roots[1]);
        let mut combined_evaluations: Vec<Scalar> = Vec::new();
        combined_evaluations.push(at_first);
        combined_evaluations.push(at_second);
        assert(values(combined_evaluations@) =~= seq![at_first@, at_second@]);
        let FflonkProverParam { kzg_ck, cs_pp: _ } = pp;
        let combined_cm = match kzg_ck.commit(&combined) {
            Ok(c) => c,
            Err(_) => {
                return Err(DeciderError::KzgCommitFailed);
            },
        };
        let opening_proof = match kzg_ck.open(&combined, &challenge_x) {
            Ok(c) => c,
            Err(_) => {
                return Err(DeciderError::KzgOpenFailed);
            },
        };
        let eval_at_challenge = evaluate(&combined, &challenge_x);
        proof {
            lemma_combine_pair_field(wv, ev, challenge_x@);
        }
        if kzg_proofs.len() != 2 {
            return Err(DeciderError::NotExpectedLength(kzg_proofs.len(), 2));
        }
        if kzg_challenges.len() != 2 {
            return Err(DeciderError::NotExpectedLength(kzg_challenges.len(), 2));
        }
        Ok(FflonkProof {
            witness_commitments,
            evaluations,
            kzg_proofs,
            cmT,
            r,
            kzg_challenges,
            public_input,
            combined_commitment: Some(combined_cm),
            opening_roots: Some(opening_roots),
            combined_evaluations: Some(combined_evaluations),
            combined_challenge: Some(challenge_x),
            combined_opening_proof: Some(opening_proof),
            combined_eval_at_challenge: Some(eval_at_challenge),
        })
    }

    /// Verifies a decider proof after `i` folding steps from the state `z_0`
    /// to the state `z_i`, given the commitments of the running and incoming
    /// instances and whether each witness opening proof was accepted by the
    /// commitment scheme.
    ///
    /// In order: at most one step is refused; the proof's witness
    /// commitments must be the folded ones; the proof must have been made
    /// for the public input `pp_hash, i, z_0, z_i`; the first
    /// `min(2, challenges, proofs)` opening checks must pass; the proof must
    /// carry the combined opening, and its pairing equation must hold.
    /// After at most one step the answer is `NotEnoughSteps` whatever the
    /// other inputs; only past it must they be well formed.
    pub fn verify<CSV, P>(
        vp: FflonkVerifierParam<CSV>,
        i: Scalar,
        z_0: Vec<Scalar>,
        z_i: Vec<Scalar>,
        running_commitments: &Vec<G1Point>,
        incoming_commitments: &Vec<G1Point>,
        proof: &FflonkProof<P>,
        opening_checks: &Vec<bool>,
    ) -> (r: Result<bool, DeciderError>)
        requires
            i@ > 1 ==> {
                &&& vp.kzg_vk.wf()
                &&& proof.wf()
                &&& proof.cmT.wf()
                &&& proof.r.wf()
                &&& running_commitments@.len() >= 2
                &&& incoming_commitments@.len() >= 2
                &&& all_g1_wf(running_commitments@)
                &&& all_g1_wf(incoming_commitments@)
                &&& opening_checks@.len() >= min3(
                    2,
                    proof.kzg_challenges@.len() as nat,
                    proof.kzg_proofs@.len() as nat,
                )
            },
        ensures
            r == verify_outcome(
                &vp.kzg_vk,
                vp.pp_hash@,
                i@,
                z_0@,
                z_i@,
                g1_views(running_commitments@),
                g1_views(incoming_commitments@),
                proof,
                opening_checks@,
            ),
    {
        if i.at_most(1) {
            return Err(DeciderError::NotEnoughSteps);
        }
        let ghost vp_hash = vp.pp_hash@;
        let FflonkVerifierParam { pp_hash, kzg_vk, cs_vp: _ } = vp;
        let folded = fold_commitments(running_commitments, incoming_commitments, &proof.cmT, &proof.r);
        if !points_equal(&proof.witness_commitments, &folded) {
            return Err(DeciderError::CommitmentVerificationFail);
        }
        if !public_input_matches(&proof.public_input, &pp_hash, &i, &z_0, &z_i) {
            return Err(DeciderError::FflonkVerificationFail);
        }
        assert(folded@.len() == g1_views(folded@).len());
        let mut m = folded.len();
        if proof.kzg_challenges.len() < m {
            m = proof.kzg_challenges.len();
        }
        if proof.kzg_proofs.len() < m {
            m = proof.kzg_proofs.len();
        }
        let ghost gm = min3(2, proof.kzg_challenges@.len() as nat, proof.kzg_proofs@.len() as nat);
        assert(m == gm);
        let mut k: usize = 0;
        while k < m
            invariant
                m == gm,
                i@ > 1,
                g1_views(proof.witness_commitments@) == g1_views(folded@),
                g1_views(folded@) == folded_commitments(
                    g1_views(running_commitments@),
                    g1_views(incoming_commitments@),
                    proof.cmT@,
                    proof.r@,
                ),
                gm == min3(2, proof.kzg_challenges@.len() as nat, proof.kzg_proofs@.len() as nat),
                values(proof.public_input@) == public_input_of(pp_hash@, i@, z_0@, z_i@),
                pp_hash@ == vp_hash,
                vp_hash == vp.pp_hash@,
                m <= opening_checks@.len(),
                k <= m,
                forall|j: int| 0 <= j < k ==> #[trigger] opening_checks@[j],
            decreases m - k,
        {
            if !opening_checks[k] {
                assert(!opening_checks@[k as int]);
                return Err(DeciderError::OpeningProofRejected);
            }
            k = k + 1;
        }
        match (
            &proof.combined_commitment,
            &proof.combined_challenge,
            &proof.combined_opening_proof,
            &proof.combined_eval_at_challenge,
        ) {
            (Some(cm), Some(z), Some(pi), Some(y)) => {
                match kzg_vk.check_opening(cm, z, y, pi) {
                    Ok(()) => {},
                    Err(OpeningError::PairingMismatch) => {
                        return Err(DeciderError::FflonkVerificationFail);
                    },
                    Err(OpeningError::PairingUndefined) => {
                        return Err(DeciderError::PairingUndefined);
                    },
                }
            },
            _ => {
                return Err(DeciderError::FflonkVerificationFail);
            },
        }
        Ok(true)
    }
}

/// An honest proof is judged by the KZG equation alone: when `proof` is the
/// decider proof of `witness` under `ck`, the witness's commitments are the
/// fold of `running` and `incoming`, its public input is `pp_hash, i, z_0,
/// z_i`, more than one step was folded and the commitment scheme accepted
/// both witness openings, the verifier answers
/// as the pairing check of the opening of the combined polynomial `g` at the
/// first challenge `x` to `g(x)`, under the commitment and proof that `ck`
/// gives for `g`.
pub proof fn lemma_honest_proof_verification<P>(
    ck: &CommitterKey,
    vk: &VerifierKey,
    witness: &DeciderWitness<P>,
    proof: &FflonkProof<P>,
    pp_hash: nat,
    i: nat,
    z_0: Seq<Scalar>,
    z_i: Seq<Scalar>,
    running: Seq<Seq<u8>>,
    incoming: Seq<Seq<u8>>,
    checks: Seq<bool>,
)
    requires
        proof_of(ck, witness, proof),
        i > 1,
        values(witness.public_input@) == public_input_of(pp_hash, i, z_0, z_i),
        g1_views(witness.witness_commitments@) == folded_commitments(running, incoming, witness.cmT@, witness.r@),
        checks.len() >= 2,
        checks[0],
        checks[1],
    ensures
        ({
            let g = combined_of(witness);
            let x = witness.kzg_challenges@[0]@;
            let powers = g1_views(ck.powers_in_g1@);
            verify_outcome(vk, pp_hash, i, z_0, z_i, running, incoming, proof, checks) == kzg_outcome(
                vk,
                kzg_commitment(powers, g),
                x,
                poly_eval(g, x),
                kzg_opening_proof(powers, g, x),
            )
        }),
{
    let m = min3(2, proof.kzg_challenges@.len() as nat, proof.kzg_proofs@.len() as nat);
    assert forall|k: int| 0 <= k < m implies #[trigger] checks[k] by {
        assert(k == 0 || k == 1);
    }
}

/// The values of the combined polynomial at the opening roots `z, -z` that
/// a proof carries give back the witness polynomials' values at the first
/// challenge `x = z^2`: their sum is `2 * W(x)` and their difference
/// `2 * z * E(x)` in `Fr`.
pub proof fn lemma_combined_evaluations_recover_witness<P>(
    ck: &CommitterKey,
    witness: &DeciderWitness<P>,
    proof: &FflonkProof<P>,
)
    requires
        proof_of(ck, witness, proof),
    ensures
        ({
            let ev = values(proof.combined_evaluations->0@);
            let x = witness.kzg_challenges@[0]@;
            let z = proof.opening_roots->0@[0]@;
            let p = scalar_modulus() as int;
            &&& ev.len() == 2
            &&& (ev[0] as int + ev[1] as int) % p == (2 * poly_eval(values(witness.w_coeffs@), x) as int) % p
            &&& (ev[0] - ev[1]) % p == (2 * z * poly_eval(values(witness.e_coeffs@), x) as int) % p
        }),
{
    lemma_combine_pair_recovery(
        values(witness.w_coeffs@),
        values(witness.e_coeffs@),
        proof.opening_roots->0@[0]@,
    );
}

/// A decider proof depends on nothing but the committer key and the
/// witness (no random source is read): two proofs of the same witness under
/// the same key agree in every field.
pub proof fn lemma_proof_determined<P>(
    ck: &CommitterKey,
    witness: &DeciderWitness<P>,
    a: &FflonkProof<P>,
    b: &FflonkProof<P>,
)
    requires
        proof_of(ck, witness, a),
        proof_of(ck, witness, b),
    ensures
        g1_views(a.witness_commitments@) == g1_views(b.witness_commitments@),
        a.evaluations@ == b.evaluations@,
        a.kzg_proofs@ == b.kzg_proofs@,
        a.cmT@ == b.cmT@,
        a.r == b.r,
        a.kzg_challenges@ == b.kzg_challenges@,
        a.public_input@ == b.public_input@,
        a.combined_commitment->0@ == b.combined_commitment->0@,
        values(a.opening_roots->0@) == values(b.opening_roots->0@),
        values(a.combined_evaluations->0@) == values(b.combined_evaluations->0@),
        a.combined_challenge == b.combined_challenge,
        a.combined_opening_proof->0@ == b.combined_opening_proof->0@,
        a.combined_eval_at_challenge->0@ == b.combined_eval_at_challenge->0@,
{
}

/// The verifier's answer, stated from first principles. After `i` steps it
/// accepts a proof exactly when
/// - more than one step was folded;
/// - the proof's witness commitments are the fold of the running and
///   incoming ones with the full randomness `r`:
///   `[cmW + r*cmW', cmE + r*cmT]`;
/// - the proof was made for the public input `pp_hash, i, z_0, z_i`;
/// - the commitment scheme accepted every witness opening it checks (both,
///   when the proof carries two challenges and two opening proofs);
/// - the proof carries the combined opening `(C, z, y, pi)`, and the KZG
///   equation `e(C - y*g1, g2) == e(pi, tau*g2 - z*g2)` holds with defined
///   pairings;
/// and then it answers `Ok(true)`.
pub proof fn lemma_verify_accepts_exactly<P>(
    vk: &VerifierKey,
    pp_hash: nat,
    i: nat,
    z_0: Seq<Scalar>,
    z_i: Seq<Scalar>,
    running: Seq<Seq<u8>>,
    incoming: Seq<Seq<u8>>,
    proof: &FflonkProof<P>,
    checks: Seq<bool>,
)
    ensures
        ({
            let p = scalar_modulus() as int;
            let r = proof.r@;
            let accepted = {
                &&& i > 1
                &&& g1_views(proof.witness_commitments@) == seq![
                    g1_sum(running[0], g1_scalar_mul(incoming[0], r)),
                    g1_sum(running[1], g1_scalar_mul(proof.cmT@, r)),
                ]
                &&& values(proof.public_input@) == seq![pp_hash, i] + values(z_0) + values(z_i)
                &&& forall|k: int|
                    0 <= k < 2 && k < proof.kzg_challenges@.len() && k < proof.kzg_proofs@.len()
                        ==> #[trigger] checks[k]
                &&& proof.combined_commitment is Some
                &&& proof.combined_challenge is Some
                &&& proof.combined_opening_proof is Some
                &&& proof.combined_eval_at_challenge is Some
                &&& {
                    let c = proof.combined_commitment->0@;
                    let z = proof.combined_challenge->0@;
                    let y = proof.combined_eval_at_challenge->0@;
                    let pi = proof.combined_opening_proof->0@;
                    let lhs = g1_sum(c, g1_scalar_mul(vk.g1@, ((p - y) % p) as nat));
                    let rhs = g2_sum(vk.tau_in_g2@, g2_scalar_mul(vk.g2@, ((p - z) % p) as nat));
                    &&& pairing_spec(lhs, vk.g2@) is Some
                    &&& pairing_spec(lhs, vk.g2@) == pairing_spec(pi, rhs)
                }
            };
            let outcome = verify_outcome(vk, pp_hash, i, z_0, z_i, running, incoming, proof, checks);
            &&& outcome is Ok <==> accepted
            &&& outcome is Ok ==> outcome == Ok::<bool, DeciderError>(true)
        }),
{
    let m = min3(2, proof.kzg_challenges@.len() as nat, proof.kzg_proofs@.len() as nat);
    assert((forall|k: int| 0 <= k < m ==> #[trigger] checks[k]) <==> (forall|k: int|
        0 <= k < 2 && k < proof.kzg_challenges@.len() && k < proof.kzg_proofs@.len() ==> #[trigger] checks[k]));
}

/// Folding uses the full randomness `r`: the folded commitments are
/// `cmW + r*cmW'` and `cmE + r*cmT`.
pub proof fn lemma_fold_with_full_randomness(running: Seq<Seq<u8>>, incoming: Seq<Seq<u8>>, cm_t: Seq<u8>, r: nat)
    ensures
        folded_commitments(running, incoming, cm_t, r).len() == 2,
        folded_commitments(running, incoming, cm_t, r)[0] == g1_sum(running[0], g1_scalar_mul(incoming[0], r)),
        folded_commitments(running, incoming, cm_t, r)[1] == g1_sum(running[1], g1_scalar_mul(cm_t, r)),
{
}

} // verus!
