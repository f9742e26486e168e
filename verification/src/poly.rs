//! Univariate polynomials over `Fr`, given by their coefficient lists
//! (lowest degree first), and the FFLONK aggregation of several of them
//! into one.
use vstd::prelude::*;
use vstd::arithmetic::div_mod::{
    lemma_add_mod_noop, lemma_mod_multiples_vanish, lemma_mul_mod_noop_general, lemma_sub_mod_noop,
};
use crate::field::{Scalar, scalar_modulus};
use ark_bn254::Fr;
use ark_ff::{BigInt, Field, PrimeField};
use ark_poly::univariate::DensePolynomial;
use ark_poly::{DenseUVPolynomial, Polynomial};
use w3f_pcs::fflonk::Fflonk;

verus! {

/// The values of a list of field elements.
pub open spec fn values(s: Seq<Scalar>) -> Seq<nat> {
    s.map_values(|e: Scalar| e@)
}

/// Every element of the list is canonical.
pub open spec fn all_wf(s: Seq<Scalar>) -> bool {
    forall|i: int| 0 <= i < s.len() ==> #[trigger] s[i].wf()
}

/// The values of a list of polynomials.
pub open spec fn poly_values(fs: Seq<Vec<Scalar>>) -> Seq<Seq<nat>> {
    fs.map_values(|f: Vec<Scalar>| values(f@))
}

/// Coefficient `i` of a coefficient list, zero past its end.
pub open spec fn coeff(s: Seq<nat>, i: int) -> nat {
    if 0 <= i < s.len() {
        s[i]
    } else {
        0
    }
}

/// The coefficient list without its trailing zeros.
pub open spec fn trim(s: Seq<nat>) -> Seq<nat>
    decreases s.len(),
{
    if s.len() > 0 && s.last() == 0 {
        trim(s.drop_last())
    } else {
        s
    }
}

/// Degree of a polynomial; the zero polynomial has degree 0.
pub open spec fn degree(s: Seq<nat>) -> nat {
    if trim(s).len() == 0 {
        0
    } else {
        (trim(s).len() - 1) as nat
    }
}

/// The largest degree among a list of polynomials (0 for an empty list).
pub open spec fn max_degree(fs: Seq<Seq<nat>>) -> nat
    decreases fs.len(),
{
    if fs.len() == 0 {
        0
    } else {
        let d = degree(fs.last());
        let m = max_degree(fs.drop_last());
        if d > m {
            d
        } else {
            m
        }
    }
}

/// The coefficients of `g(X) = sum_i fs[i](X^t) * X^i`: coefficient `t*j + i`
/// of `g` is coefficient `j` of `fs[i]`, over `t * (max_degree + 1)`
/// positions, trailing zeros removed.
pub open spec fn combine_spec(t: nat, fs: Seq<Seq<nat>>) -> Seq<nat> {
    let n = max_degree(fs) + 1;
    trim(
        Seq::new(
            t * n,
            |k: int|
                if k % (t as int) < fs.len() {
                    coeff(fs[k % (t as int)], k / (t as int))
                } else {
                    0
                },
        ),
    )
}

/// The integer `sum_i c[i] * x^i`.
pub open spec fn eval_int(c: Seq<nat>, x: int) -> int
    decreases c.len(),
{
    if c.len() == 0 {
        0
    } else {
        c[0] + x * eval_int(c.drop_first(), x)
    }
}

/// The value in `Fr` of the polynomial with coefficients `c` at `x`.
pub open spec fn poly_eval(c: Seq<nat>, x: nat) -> nat {
    (eval_int(c, x as int) % (scalar_modulus() as int)) as nat
}

/// The additive inverse of `v` in `Fr`.
pub open spec fn neg_value(v: nat) -> nat {
    ((scalar_modulus() - v) % (scalar_modulus() as int)) as nat
}

/// The `t = 2` opening roots derived from a square root `z` of the opening
/// point: `z` and `-z`.
pub open spec fn roots_pair(z: nat) -> Seq<nat> {
    seq![z, neg_value(z)]
}

/// Evaluates a polynomial at a point.
///
/// Calls `DensePolynomial::<Fr>::evaluate` (ark-poly). Claimed: the result
/// is `sum_i c[i] * x^i` in `Fr`, which is what the Horner evaluation there
/// computes; the result is canonical.
#[verifier::external_body]
pub(crate) fn poly_evaluate(c: &Vec<Scalar>, x: &Scalar) -> (r: Scalar)
    requires
        all_wf(c@),
        x.wf(),
    ensures
        r.wf(),
        r@ == poly_eval(values(c@), x@),
{
    let to = |s: &Scalar| Fr::from_bigint(BigInt::new([s.l0, s.l1, s.l2, s.l3])).unwrap();
    let p = DensePolynomial::from_coefficients_vec(c.iter().map(to).collect());
    let b = p.evaluate(&to(x)).into_bigint().0;
    Scalar { l0: b[0], l1: b[1], l2: b[2], l3: b[3] }
}

/// Combines polynomials into one.
///
/// Calls `Fflonk::<Fr, DensePolynomial<Fr>>::combine` (w3f-pcs). Claimed, as
/// its source shows: with `n` one more than the largest degree, coefficient
/// `t*j + i` of the result is coefficient `j` of `fs[i]` (0 past the end or
/// for `i >= fs.len()`), over `t*n` positions, trailing zeros removed. It
/// asserts `fs.len() <= t` and takes a maximum over `fs`, hence the bounds on
/// `fs.len()`.
#[verifier::external_body]
pub(crate) fn fflonk_combine(t: usize, fs: &Vec<Vec<Scalar>>) -> (r: Vec<Scalar>)
    requires
        1 <= fs@.len() <= t,
        forall|i: int| 0 <= i < fs@.len() ==> all_wf(#[trigger] fs@[i]@),
        t * (max_degree(poly_values(fs@)) + 1) <= usize::MAX,
    ensures
        all_wf(r@),
        values(r@) == combine_spec(t as nat, poly_values(fs@)),
{
    let to = |s: &Scalar| Fr::from_bigint(BigInt::new([s.l0, s.l1, s.l2, s.l3])).unwrap();
    let ps: Vec<DensePolynomial<Fr>> =
        fs.iter().map(|f| DensePolynomial::from_coefficients_vec(f.iter().map(to).collect())).collect();
    let g = Fflonk::<Fr, DensePolynomial<Fr>>::combine(t, &ps);
    g.coeffs.iter().map(|c| {
        let b = c.into_bigint().0;
        Scalar { l0: b[0], l1: b[1], l2: b[2], l3: b[3] }
    }).collect()
}

/// The `t`-th roots of `z^t`, for `t = 2`.
///
/// Calls `Fflonk::<Fr, DensePolynomial<Fr>>::roots` (w3f-pcs). Claimed: the
/// result is `[z, z * w]` with `w` the primitive square root of unity of
/// `Fr`, that is `-1`, so `[z, -z]`. Other values of `t` are not used here,
/// and for them the result is left unstated.
#[verifier::external_body]
pub(crate) fn fflonk_roots(t: usize, z: &Scalar) -> (r: Vec<Scalar>)
    requires
        t == 2,
        z.wf(),
    ensures
        all_wf(r@),
        values(r@) == roots_pair(z@),
{
    let zf = Fr::from_bigint(BigInt::new([z.l0, z.l1, z.l2, z.l3])).unwrap();
    let rs = Fflonk::<Fr, DensePolynomial<Fr>>::roots(t, zf);
    rs.iter().map(|c| {
        let b = c.into_bigint().0;
        Scalar { l0: b[0], l1: b[1], l2: b[2], l3: b[3] }
    }).collect()
}

/// `x` has a square root in `Fr`.
pub open spec fn is_square(x: nat) -> bool {
    exists|z: nat| z < scalar_modulus() && #[trigger] ((z * z) % scalar_modulus()) == x
}

/// The square root that `Field::sqrt` gives for `x` in `Fr`, or `None`
/// where it gives none.
pub uninterp spec fn fr_sqrt(x: nat) -> Option<nat>;

/// A square root in `Fr`.
///
/// Calls `Field::sqrt` on `Fr` (ark-ff), which returns the square root of
/// the element if it exists. Claimed: a result squares to `x` and is
/// canonical; there is none exactly when `x` is not a square. Which of the
/// two roots comes back is named `fr_sqrt(x)`, not stated.
#[verifier::external_body]
fn scalar_sqrt(x: &Scalar) -> (r: Option<Scalar>)
    requires
        x.wf(),
    ensures
        r matches Some(z) ==> z.wf() && (z@ * z@) % scalar_modulus() == x@ && fr_sqrt(x@) == Some(z@),
        r is None ==> fr_sqrt(x@) is None,
        r is None <==> !is_square(x@),
{
    let f = Fr::from_bigint(BigInt::new([x.l0, x.l1, x.l2, x.l3])).unwrap();
    f.sqrt().map(|z| {
        let b = z.into_bigint().0;
        Scalar { l0: b[0], l1: b[1], l2: b[2], l3: b[3] }
    })
}

/// The value of the polynomial with coefficients `c` at `x`.
pub fn evaluate(c: &Vec<Scalar>, x: &Scalar) -> (r: Scalar)
    requires
        all_wf(c@),
        x.wf(),
    ensures
        r.wf(),
        r@ == poly_eval(values(c@), x@),
{
    poly_evaluate(c, x)
}

/// The FFLONK combination `g(X) = w(X^2) + X * e(X^2)` of two polynomials.
pub fn combine_pair(w: Vec<Scalar>, e: Vec<Scalar>) -> (r: Vec<Scalar>)
    requires
        all_wf(w@),
        all_wf(e@),
        2 * w@.len() <= usize::MAX,
        2 * e@.len() <= usize::MAX,
    ensures
        all_wf(r@),
        values(r@) == combine_spec(2, seq![values(w@), values(e@)]),
{
    let ghost wv = values(w@);
    let ghost ev = values(e@);
    let ghost w0 = w@;
    let ghost e0 = e@;
    let mut fs: Vec<Vec<Scalar>> = Vec::new();
    fs.push(w);
    fs.push(e);
    proof {
        assert(fs@[0]@ == w0);
        assert(fs@[1]@ == e0);
        assert(poly_values(fs@) =~= seq![wv, ev]);
        lemma_max_degree_pair_upper(wv, ev);
        lemma_degree_bound(wv);
        lemma_degree_bound(ev);
    }
    fflonk_combine(2, &fs)
}

/// The two square roots `z` and `-z` of `z^2`, given one of them `z`.
pub fn roots_from_root(z: &Scalar) -> (r: Vec<Scalar>)
    requires
        z.wf(),
    ensures
        all_wf(r@),
        r@.len() == 2,
        values(r@) == roots_pair(z@),
{
    let r = fflonk_roots(2, z);
    assert(values(r@).len() == 2);
    r
}

/// The opening roots of the combined polynomial at the point `x`: its two
/// square roots `z` and `-z` in `Fr`, `z` the one `Field::sqrt` gives, or
/// `None` where `x` is not a square.
pub fn opening_roots(x: &Scalar) -> (r: Option<Vec<Scalar>>)
    requires
        x.wf(),
    ensures
        r is None <==> !is_square(x@),
        r is None <==> fr_sqrt(x@) is None,
        r matches Some(rs) ==> {
            &&& all_wf(rs@)
            &&& rs@.len() == 2
            &&& (rs@[0]@ * rs@[0]@) % scalar_modulus() == x@
            &&& fr_sqrt(x@) == Some(rs@[0]@)
            &&& values(rs@) == roots_pair(rs@[0]@)
        },
{
    match scalar_sqrt(x) {
        Some(z) => {
            let r = roots_from_root(&z);
            assert(values(r@)[0] == r@[0]@);
            Some(r)
        },
        None => None,
    }
}

// ---------------------------------------------------------------------------
// Lemmas on coefficient lists.

proof fn lemma_eval_push_zero(s: Seq<nat>, x: int)
    ensures
        eval_int(s.push(0), x) == eval_int(s, x),
    decreases s.len(),
{
    let t = s.push(0);
    if s.len() == 0 {
        assert(t.drop_first() =~= Seq::<nat>::empty());
        assert(eval_int(t.drop_first(), x) == 0);
        assert(t[0] == 0);
        assert(x * 0 == 0);
    } else {
        assert(t.drop_first() =~= s.drop_first().push(0));
        lemma_eval_push_zero(s.drop_first(), x);
        assert(t[0] == s[0]);
        assert(eval_int(t, x) == t[0] + x * eval_int(t.drop_first(), x));
    }
}

/// Trailing zeros do not change the value of a polynomial.
pub proof fn lemma_eval_trim(s: Seq<nat>, x: int)
    ensures
        eval_int(trim(s), x) == eval_int(s, x),
    decreases s.len(),
{
    if s.len() > 0 && s.last() == 0 {
        lemma_eval_trim(s.drop_last(), x);
        assert(s =~= s.drop_last().push(0));
        lemma_eval_push_zero(s.drop_last(), x);
    }
}

proof fn lemma_coeff_trim(s: Seq<nat>, i: int)
    ensures
        coeff(trim(s), i) == coeff(s, i),
        trim(s).len() <= s.len(),
        trim(s).len() > 0 ==> trim(s).last() != 0,
    decreases s.len(),
{
    if s.len() > 0 && s.last() == 0 {
        lemma_coeff_trim(s.drop_last(), i);
    }
}

proof fn lemma_eval_zeros_tail(s: Seq<nat>, n: nat, x: int)
    requires
        s.len() <= n,
    ensures
        eval_int(Seq::new(n, |j: int| coeff(s, j)), x) == eval_int(s, x),
    decreases n - s.len(),
{
    if s.len() == n {
        assert(Seq::new(n, |j: int| coeff(s, j)) =~= s);
    } else {
        let s2 = s.push(0);
        lemma_eval_zeros_tail(s2, n, x);
        lemma_eval_push_zero(s, x);
        assert(Seq::new(n, |j: int| coeff(s2, j)) =~= Seq::new(n, |j: int| coeff(s, j)));
    }
}

/// `n` coefficients of `s` starting at `j0`.
spec fn window(s: Seq<nat>, j0: int, n: nat) -> Seq<nat> {
    Seq::new(n, |j: int| coeff(s, j0 + j))
}

/// `n` pairs of coefficients of `w` and `e`, interleaved, starting at `j0`.
spec fn interleave(w: Seq<nat>, e: Seq<nat>, j0: int, n: nat) -> Seq<nat> {
    Seq::new(2 * n, |k: int| if k % 2 == 0 { coeff(w, j0 + k / 2) } else { coeff(e, j0 + k / 2) })
}

proof fn lemma_interleave_eval(w: Seq<nat>, e: Seq<nat>, j0: int, n: nat, x: int)
    ensures
        eval_int(interleave(w, e, j0, n), x) == eval_int(window(w, j0, n), x * x) + x * eval_int(
            window(e, j0, n),
            x * x,
        ),
    decreases n,
{
    if n == 0 {
        assert(interleave(w, e, j0, n) =~= Seq::<nat>::empty());
        assert(window(w, j0, n) =~= Seq::<nat>::empty());
        assert(window(e, j0, n) =~= Seq::<nat>::empty());
    } else {
        let i0 = interleave(w, e, j0, n);
        let i1 = interleave(w, e, j0 + 1, (n - 1) as nat);
        assert(i0.drop_first().drop_first() =~= i1);
        assert(window(w, j0, n).drop_first() =~= window(w, j0 + 1, (n - 1) as nat));
        assert(window(e, j0, n).drop_first() =~= window(e, j0 + 1, (n - 1) as nat));
        lemma_interleave_eval(w, e, j0 + 1, (n - 1) as nat, x);
        let a = coeff(w, j0) as int;
        let b = coeff(e, j0) as int;
        let ew = eval_int(window(w, j0 + 1, (n - 1) as nat), x * x);
        let ee = eval_int(window(e, j0 + 1, (n - 1) as nat), x * x);
        assert(i0[0] == a && i0[1] == b);
        assert(i0.drop_first()[0] == b);
        assert(eval_int(i0.drop_first(), x) == b + x * eval_int(i1, x));
        assert(eval_int(i0, x) == a + x * eval_int(i0.drop_first(), x));
        assert(eval_int(i1, x) == ew + x * ee);
        assert(a + x * (b + x * (ew + x * ee)) == (a + (x * x) * ew) + x * (b + (x * x) * ee))
            by (nonlinear_arith);
    }
}

proof fn lemma_max_degree_pair(w: Seq<nat>, e: Seq<nat>)
    ensures
        max_degree(seq![w, e]) >= degree(w),
        max_degree(seq![w, e]) >= degree(e),
{
    let fs = seq![w, e];
    assert(fs.last() == e);
    assert(fs.drop_last() =~= seq![w]);
    assert(seq![w].drop_last() =~= Seq::<Seq<nat>>::empty());
    assert(seq![w].last() == w);
    assert(max_degree(Seq::<Seq<nat>>::empty()) == 0);
    assert(max_degree(seq![w]) >= degree(w));
    assert(max_degree(fs) >= max_degree(seq![w]));
}

/// A polynomial's degree is below its number of coefficients (or is 0).
pub proof fn lemma_degree_bound(s: Seq<nat>)
    ensures
        degree(s) + 1 <= if s.len() > 0 { s.len() } else { 1 },
{
    lemma_coeff_trim(s, 0);
}

/// The largest degree of two polynomials is one of theirs.
pub proof fn lemma_max_degree_pair_upper(w: Seq<nat>, e: Seq<nat>)
    ensures
        max_degree(seq![w, e]) == if degree(w) > degree(e) { degree(w) } else { degree(e) },
{
    let fs = seq![w, e];
    assert(fs.last() == e);
    assert(fs.drop_last() =~= seq![w]);
    assert(seq![w].drop_last() =~= Seq::<Seq<nat>>::empty());
    assert(seq![w].last() == w);
    assert(max_degree(Seq::<Seq<nat>>::empty()) == 0);
    assert(max_degree(seq![w]) == degree(w));
}

/// The FFLONK combination of two polynomials `w` and `e` is
/// `g(X) = w(X^2) + X * e(X^2)`: its value at every integer `x` is
/// `w(x*x) + x * e(x*x)`.
pub proof fn lemma_combine_pair_eval(w: Seq<nat>, e: Seq<nat>, x: int)
    ensures
        eval_int(combine_spec(2, seq![w, e]), x) == eval_int(w, x * x) + x * eval_int(e, x * x),
{
    let fs = seq![w, e];
    let n = max_degree(fs) + 1;
    let raw = Seq::new(
        2 * n,
        |k: int| if k % 2 < fs.len() { coeff(fs[k % 2], k / 2) } else { 0 },
    );
    assert(raw =~= interleave(w, e, 0, n));
    lemma_eval_trim(raw, x);
    lemma_interleave_eval(w, e, 0, n, x * 1);
    assert(x * 1 == x);
    lemma_max_degree_pair(w, e);
    lemma_coeff_trim(w, 0);
    lemma_coeff_trim(e, 0);
    assert(window(w, 0, n) =~= Seq::new(n, |j: int| coeff(trim(w), j))) by {
        assert forall|j: int| 0 <= j < n implies coeff(w, 0 + j) == coeff(trim(w), j) by {
            lemma_coeff_trim(w, j);
        }
    }
    assert(window(e, 0, n) =~= Seq::new(n, |j: int| coeff(trim(e), j))) by {
        assert forall|j: int| 0 <= j < n implies coeff(e, 0 + j) == coeff(trim(e), j) by {
            lemma_coeff_trim(e, j);
        }
    }
    lemma_eval_zeros_tail(trim(w), n, x * x);
    lemma_eval_zeros_tail(trim(e), n, x * x);
    lemma_eval_trim(w, x * x);
    lemma_eval_trim(e, x * x);
}

/// Polynomial values agree at points that agree modulo the field order.
pub proof fn lemma_eval_congruent(c: Seq<nat>, a: int, b: int)
    requires
        a % (scalar_modulus() as int) == b % (scalar_modulus() as int),
    ensures
        eval_int(c, a) % (scalar_modulus() as int) == eval_int(c, b) % (scalar_modulus() as int),
    decreases c.len(),
{
    let p = scalar_modulus() as int;
    if c.len() > 0 {
        lemma_eval_congruent(c.drop_first(), a, b);
        let ea = eval_int(c.drop_first(), a);
        let eb = eval_int(c.drop_first(), b);
        lemma_mul_mod_noop_general(a, ea, p);
        lemma_mul_mod_noop_general(b, eb, p);
        assert((a * ea) % p == (b * eb) % p) by {
            assert(((a % p) * (ea % p)) % p == ((b % p) * (eb % p)) % p);
        }
        lemma_add_mod_noop(c[0] as int, a * ea, p);
        lemma_add_mod_noop(c[0] as int, b * eb, p);
    }
}

/// In `Fr`, the FFLONK combination `g` of `w` and `e` satisfies
/// `g(x) = w(x^2) + x * e(x^2)`.
pub proof fn lemma_combine_pair_field(w: Seq<nat>, e: Seq<nat>, x: nat)
    requires
        x < scalar_modulus(),
    ensures
        poly_eval(combine_spec(2, seq![w, e]), x) == (poly_eval(w, (x * x) % scalar_modulus())
            + x * poly_eval(e, (x * x) % scalar_modulus())) % scalar_modulus(),
{
    let p = scalar_modulus() as int;
    let xi = x as int;
    let x2 = (x * x) % scalar_modulus();
    lemma_combine_pair_eval(w, e, xi);
    lemma_eval_congruent(w, xi * xi, x2 as int);
    lemma_eval_congruent(e, xi * xi, x2 as int);
    let ew = eval_int(w, xi * xi);
    let ee = eval_int(e, xi * xi);
    lemma_add_mod_noop(ew, xi * ee, p);
    lemma_mul_mod_noop_general(xi, ee, p);
    assert(xi % p == xi) by {
        vstd::arithmetic::div_mod::lemma_small_mod(x, scalar_modulus());
    }
    lemma_add_mod_noop(ew % p, xi * (ee % p), p);
    lemma_mul_mod_noop_general(xi, ee % p, p);
    assert((ee % p) % p == ee % p) by {
        vstd::arithmetic::div_mod::lemma_mod_twice(ee, p);
    }
    assert((ew % p) % p == ew % p) by {
        vstd::arithmetic::div_mod::lemma_mod_twice(ew, p);
    }
}

/// Both `t = 2` opening roots derived from `z` square to `z^2` in `Fr`.
pub proof fn lemma_roots_pair_square(z: nat)
    requires
        z < scalar_modulus(),
    ensures
        forall|i: int|
            0 <= i < 2 ==> (#[trigger] roots_pair(z)[i] * roots_pair(z)[i]) % scalar_modulus() == (z
                * z) % scalar_modulus(),
{
    let p = scalar_modulus() as int;
    let zi = z as int;
    let n = neg_value(z) as int;
    if z == 0 {
        assert(n == 0);
    } else {
        assert(n == p - zi) by {
            vstd::arithmetic::div_mod::lemma_small_mod((p - zi) as nat, p as nat);
        }
        assert((p - zi) * (p - zi) == p * (p - 2 * zi) + zi * zi) by (nonlinear_arith);
        lemma_mod_multiples_vanish(p - 2 * zi, zi * zi, p);
    }
    assert(roots_pair(z)[0] == z);
    assert(roots_pair(z)[1] == neg_value(z));
}

/// The values of the FFLONK combination `g` of `w` and `e` at the two
/// points `x` and `-x` give back the values of `w` and `e` at `x^2`:
/// `g(x) + g(-x) = 2 * w(x^2)` and `g(x) - g(-x) = 2 * x * e(x^2)` in `Fr`.
pub proof fn lemma_combine_pair_recovery(w: Seq<nat>, e: Seq<nat>, x: nat)
    requires
        x < scalar_modulus(),
    ensures
        ({
            let g = combine_spec(2, seq![w, e]);
            let p = scalar_modulus() as int;
            let x2 = (x * x) % scalar_modulus();
            &&& (poly_eval(g, x) as int + poly_eval(g, neg_value(x)) as int) % p == (2 * poly_eval(w, x2) as int) % p
            &&& (poly_eval(g, x) as int - poly_eval(g, neg_value(x)) as int) % p == (2 * x * poly_eval(e, x2) as int)
                % p
        }),
{
    let g = combine_spec(2, seq![w, e]);
    let p = scalar_modulus() as int;
    let xi = x as int;
    let x2 = (x * x) % scalar_modulus();
    lemma_combine_pair_eval(w, e, xi);
    lemma_combine_pair_eval(w, e, -xi);
    assert((-xi) * (-xi) == xi * xi) by (nonlinear_arith);
    let ew = eval_int(w, xi * xi);
    let ee = eval_int(e, xi * xi);
    let gi = eval_int(g, xi);
    let gn = eval_int(g, -xi);
    assert((-xi) * ee == -(xi * ee)) by (nonlinear_arith);
    assert(gi + gn == 2 * ew);
    assert(gi - gn == 2 * (xi * ee));
    // The second root is `-x` modulo the field order.
    let nv = neg_value(x) as int;
    assert(nv % p == (-xi) % p) by {
        if x == 0 {
            assert(nv == 0);
        } else {
            assert(nv == p - xi) by {
                vstd::arithmetic::div_mod::lemma_small_mod((p - xi) as nat, p as nat);
            }
            lemma_mod_multiples_vanish(1, -xi, p);
        }
    }
    lemma_eval_congruent(g, nv, -xi);
    lemma_eval_congruent(w, xi * xi, x2 as int);
    lemma_eval_congruent(e, xi * xi, x2 as int);
    let pw = poly_eval(w, x2) as int;
    let pe = poly_eval(e, x2) as int;
    assert(pw == ew % p);
    assert(pe == ee % p);
    assert(poly_eval(g, x) as int == gi % p);
    assert(poly_eval(g, neg_value(x)) as int == gn % p);
    lemma_add_mod_noop(gi, gn, p);
    lemma_sub_mod_noop(gi, gn, p);
    lemma_mul_mod_noop_general(2, ew, p);
    lemma_mul_mod_noop_general(2 * xi, ee, p);
    assert(2 * (xi * ee) == (2 * xi) * ee) by (nonlinear_arith);
    assert(2 * x * pe == (2 * xi) * pe) by (nonlinear_arith)
        requires
            xi == x,
    ;
}

} // verus!
