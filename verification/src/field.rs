//! Plain models of the BN254 scalar field `Fr` and base field `Fq`.
//!
//! An element is stored as four little-endian 64-bit limbs of its canonical
//! representative; its view is the natural number those limbs denote.
use vstd::prelude::*;
use ark_ff::{BigInt, PrimeField};

verus! {

/// 2^64.
pub open spec fn limb_base() -> nat {
    0x1_0000_0000_0000_0000nat
}

/// The number denoted by four little-endian 64-bit limbs.
pub open spec fn limbs_value(l: [u64; 4]) -> nat {
    l[0] as nat + limb_base() * (l[1] as nat + limb_base() * (l[2] as nat + limb_base() * l[3] as nat))
}

/// Order of the BN254 base field `Fq`.
pub open spec fn base_modulus() -> nat {
    21888242871839275222246405745257275088696311157297823662689037894645226208583nat
}

/// Order of the BN254 scalar field `Fr`.
pub open spec fn scalar_modulus() -> nat {
    21888242871839275222246405745257275088548364400416034343698204186575808495617nat
}

proof fn lemma_limbs_upper(l: [u64; 4])
    ensures
        limbs_value(l) < limb_base() * limb_base() * limb_base() * (l[3] as nat + 1),
        limbs_value(l) >= limb_base() * limb_base() * limb_base() * (l[3] as nat),
{
    let b = limb_base();
    let (a0, a1, a2, a3) = (l[0] as nat, l[1] as nat, l[2] as nat, l[3] as nat);
    assert(a0 < b && a1 < b && a2 < b);
    assert(a0 + b * (a1 + b * (a2 + b * a3)) < b * b * b * (a3 + 1)) by (nonlinear_arith)
        requires a0 < b, a1 < b, a2 < b, b > 0;
    assert(a0 + b * (a1 + b * (a2 + b * a3)) >= b * b * b * a3) by (nonlinear_arith)
        requires b > 0;
}

/// Strict comparison of two limb vectors as numbers.
fn limbs_less(a: [u64; 4], m: [u64; 4]) -> (r: bool)
    ensures
        r == (limbs_value(a) < limbs_value(m)),
{
    let b = Ghost(limb_base());
    proof {
        lemma_limbs_upper(a);
        lemma_limbs_upper(m);
    }
    if a[3] != m[3] {
        proof {
            if a[3] < m[3] {
                assert(b@ * b@ * b@ * (a[3] as nat + 1) <= b@ * b@ * b@ * (m[3] as nat)) by (nonlinear_arith)
                    requires a[3] < m[3];
            } else {
                assert(b@ * b@ * b@ * (m[3] as nat + 1) <= b@ * b@ * b@ * (a[3] as nat)) by (nonlinear_arith)
                    requires m[3] < a[3];
            }
        }
        return a[3] < m[3];
    }
    let ghost ra = a[0] as nat + b@ * (a[1] as nat + b@ * a[2] as nat);
    let ghost rm = m[0] as nat + b@ * (m[1] as nat + b@ * m[2] as nat);
    assert(limbs_value(a) == ra + b@ * b@ * b@ * a[3] as nat) by (nonlinear_arith)
        requires ra == a[0] as nat + b@ * (a[1] as nat + b@ * a[2] as nat),
            limbs_value(a) == a[0] as nat + b@ * (a[1] as nat + b@ * (a[2] as nat + b@ * a[3] as nat));
    assert(limbs_value(m) == rm + b@ * b@ * b@ * m[3] as nat) by (nonlinear_arith)
        requires rm == m[0] as nat + b@ * (m[1] as nat + b@ * m[2] as nat),
            limbs_value(m) == m[0] as nat + b@ * (m[1] as nat + b@ * (m[2] as nat + b@ * m[3] as nat));
    // Same top limb: compare the lower three limbs.
    assert(ra < b@ * b@ * (a[2] as nat + 1) && ra >= b@ * b@ * a[2] as nat) by (nonlinear_arith)
        requires ra == a[0] as nat + b@ * (a[1] as nat + b@ * a[2] as nat), a[0] < b@, a[1] < b@, b@ > 0;
    assert(rm < b@ * b@ * (m[2] as nat + 1) && rm >= b@ * b@ * m[2] as nat) by (nonlinear_arith)
        requires rm == m[0] as nat + b@ * (m[1] as nat + b@ * m[2] as nat), m[0] < b@, m[1] < b@, b@ > 0;
    if a[2] != m[2] {
        proof {
            if a[2] < m[2] {
                assert(b@ * b@ * (a[2] as nat + 1) <= b@ * b@ * (m[2] as nat)) by (nonlinear_arith)
                    requires a[2] < m[2];
            } else {
                assert(b@ * b@ * (m[2] as nat + 1) <= b@ * b@ * (a[2] as nat)) by (nonlinear_arith)
                    requires m[2] < a[2];
            }
        }
        return a[2] < m[2];
    }
    assert(ra == a[0] as nat + b@ * a[1] as nat + b@ * b@ * a[2] as nat) by (nonlinear_arith)
        requires ra == a[0] as nat + b@ * (a[1] as nat + b@ * a[2] as nat);
    assert(rm == m[0] as nat + b@ * m[1] as nat + b@ * b@ * m[2] as nat) by (nonlinear_arith)
        requires rm == m[0] as nat + b@ * (m[1] as nat + b@ * m[2] as nat);
    if a[1] != m[1] {
        proof {
            if a[1] < m[1] {
                assert(b@ * (a[1] as nat + 1) <= b@ * (m[1] as nat)) by (nonlinear_arith)
                    requires a[1] < m[1];
            } else {
                assert(b@ * (m[1] as nat + 1) <= b@ * (a[1] as nat)) by (nonlinear_arith)
                    requires m[1] < a[1];
            }
        }
        return a[1] < m[1];
    }
    a[0] < m[0]
}

/// An element of the BN254 scalar field `Fr`, held as its canonical representative.
#[derive(Clone, Copy, Debug, PartialEq, Eq, Structural)]
pub struct Scalar {
    pub(crate) l0: u64,
    pub(crate) l1: u64,
    pub(crate) l2: u64,
    pub(crate) l3: u64,
}

impl View for Scalar {
    type V = nat;

    closed spec fn view(&self) -> nat {
        limbs_value([self.l0, self.l1, self.l2, self.l3])
    }
}

impl Scalar {
    /// The element is canonical: its value lies below the field order.
    pub open spec fn wf(&self) -> bool {
        self@ < scalar_modulus()
    }

    /// The element with the given canonical limbs, or `None` when they denote
    /// a number not below the field order.
    pub fn from_limbs(limbs: [u64; 4]) -> (r: Option<Scalar>)
        ensures
            r is Some <==> limbs_value(limbs) < scalar_modulus(),
            r matches Some(s) ==> s@ == limbs_value(limbs) && s.wf(),
    {
        let m: [u64; 4] = [0x43e1f593f0000001u64, 0x2833e84879b97091u64, 0xb85045b68181585du64, 0x30644e72e131a029u64];
        assert(limbs_value(m) == scalar_modulus());
        if limbs_less(limbs, m) {
            Some(Scalar { l0: limbs[0], l1: limbs[1], l2: limbs[2], l3: limbs[3] })
        } else {
            None
        }
    }

    /// The canonical limbs of this element.
    pub fn limbs(&self) -> (r: [u64; 4])
        ensures
            limbs_value(r) == self@,
    {
        [self.l0, self.l1, self.l2, self.l3]
    }

    /// The element `v` of the field.
    pub fn from_u64(v: u64) -> (r: Scalar)
        ensures
            r@ == v,
            r.wf(),
    {
        let r = Scalar { l0: v, l1: 0, l2: 0, l3: 0 };
        let ghost l: [u64; 4] = [v, 0, 0, 0];
        assert(l[0] == v && l[1] == 0 && l[2] == 0 && l[3] == 0);
        assert(limbs_value(l) == v as nat);
        r
    }

    /// Whether the element, as a number below the field order, is at most `v`.
    pub fn at_most(&self, v: u64) -> (r: bool)
        ensures
            r == (self@ <= v),
    {
        let b = Ghost(limb_base());
        proof {
            let (a0, a1, a2, a3) = (self.l0 as nat, self.l1 as nat, self.l2 as nat, self.l3 as nat);
            assert(a0 + b@ * (a1 + b@ * (a2 + b@ * a3)) >= b@ * (a1 + b@ * (a2 + b@ * a3))) by (nonlinear_arith);
            if a1 + b@ * (a2 + b@ * a3) > 0 {
                assert(b@ * (a1 + b@ * (a2 + b@ * a3)) >= b@) by (nonlinear_arith)
                    requires a1 + b@ * (a2 + b@ * a3) > 0;
            } else {
                assert(a1 == 0 && a2 + b@ * a3 == 0) by (nonlinear_arith)
                    requires a1 + b@ * (a2 + b@ * a3) == 0, b@ > 0;
                assert(a2 == 0 && a3 == 0) by (nonlinear_arith)
                    requires a2 + b@ * a3 == 0, b@ > 0;
            }
        }
        self.l1 == 0 && self.l2 == 0 && self.l3 == 0 && self.l0 <= v
    }

    /// Whether two elements are equal.
    pub fn equals(&self, other: &Scalar) -> (r: bool)
        ensures
            r == (self@ == other@),
    {
        proof {
            if self@ == other@ {
                lemma_limbs_injective([self.l0, self.l1, self.l2, self.l3], [other.l0, other.l1, other.l2, other.l3]);
            }
        }
        self.l0 == other.l0 && self.l1 == other.l1 && self.l2 == other.l2 && self.l3 == other.l3
    }
}

proof fn lemma_limbs_injective(a: [u64; 4], c: [u64; 4])
    requires
        limbs_value(a) == limbs_value(c),
    ensures
        a@ == c@,
{
    let b = limb_base();
    let (a0, a1, a2, a3) = (a[0] as int, a[1] as int, a[2] as int, a[3] as int);
    let (c0, c1, c2, c3) = (c[0] as int, c[1] as int, c[2] as int, c[3] as int);
    assert(a0 == c0 && a1 == c1 && a2 == c2 && a3 == c3) by (nonlinear_arith)
        requires
            0 <= a0 < b, 0 <= a1 < b, 0 <= a2 < b, 0 <= a3 < b,
            0 <= c0 < b, 0 <= c1 < b, 0 <= c2 < b, 0 <= c3 < b,
            a0 + b * (a1 + b * (a2 + b * a3)) == c0 + b * (c1 + b * (c2 + b * c3)),
            b > 0;
    assert(a@ =~= c@);
}

} // verus!
