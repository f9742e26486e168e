//! A benchmark circuit with an adjustable number of constraints: a chain of
//! squarings of one witness, whose result must not be zero.
use vstd::prelude::*;
use crate::field::{Scalar, scalar_modulus};
use ark_bn254::Fr;
use ark_ff::{BigInt, PrimeField, Zero};
use ark_r1cs_std::alloc::AllocVar;
use ark_r1cs_std::eq::EqGadget;
use ark_r1cs_std::fields::fp::FpVar;
use ark_relations::gr1cs::{ConstraintSystem, ConstraintSystemRef, SynthesisError};

verus! {

#[verifier::external_type_specification]
#[verifier::external_body]
pub struct ExSynthesisError(SynthesisError);

/// A constraint system over `Fr` (an arkworks `ConstraintSystemRef<Fr>`, as
/// `ConstraintSystem::new_ref` makes it) together with the variables that
/// were allocated in it through this handle, in order. Opaque here, as
/// Verus does not take the declaration of those types; its contents are
/// named by `system_variables`, `system_values`, `system_constraint_count`
/// and `system_satisfied`.
#[verifier::external_body]
pub struct ConstraintSystemHandle {
    cs: ConstraintSystemRef<Fr>,
    vars: Vec<FpVar<Fr>>,
}

/// The variables held by a constraint system handle, in order: `true` for
/// one allocated in the system (an `FpVar::Var`), `false` for a constant.
pub uninterp spec fn system_variables(cs: ConstraintSystemHandle) -> Seq<bool>;

/// The values in `Fr` of the variables held by a handle, in order.
pub uninterp spec fn system_values(cs: ConstraintSystemHandle) -> Seq<nat>;

/// Whether every constraint of the handle's system holds for the values
/// assigned to its variables (`ConstraintSystemRef::is_satisfied` gives
/// `Ok(true)`).
pub uninterp spec fn system_satisfied(cs: ConstraintSystemHandle) -> bool;

/// The number of constraints enforced in the system of a handle, as
/// `ConstraintSystemRef::num_constraints` counts them.
pub uninterp spec fn system_constraint_count(cs: ConstraintSystemHandle) -> nat;

/// Why the constraints could not be generated (the variants of
/// `SynthesisError`).
#[derive(Debug, Clone, Copy, PartialEq, Eq, Structural)]
pub enum CircuitError {
    MissingCS,
    AssignmentMissing,
    DivisionByZero,
    Unsatisfiable,
    PolynomialDegreeTooLarge,
    PredicateNotFound,
    ArityMismatch,
}

/// The library's name for a `SynthesisError` (ark-relations): the variant of
/// the same name. Nothing is claimed beyond that conversion.
#[verifier::external_body]
fn circuit_error(e: SynthesisError) -> CircuitError {
    match e {
        SynthesisError::MissingCS => CircuitError::MissingCS,
        SynthesisError::AssignmentMissing => CircuitError::AssignmentMissing,
        SynthesisError::DivisionByZero => CircuitError::DivisionByZero,
        SynthesisError::Unsatisfiable => CircuitError::Unsatisfiable,
        SynthesisError::PolynomialDegreeTooLarge => CircuitError::PolynomialDegreeTooLarge,
        SynthesisError::PredicateNotFound => CircuitError::PredicateNotFound,
        SynthesisError::ArityMismatch => CircuitError::ArityMismatch,
    }
}

// Every handle's system is made by `ConstraintSystem::new_ref` and its mode
// is never changed: it is in proving mode, builds its matrices and has the
// R1CS predicate registered. The claims below rest on that.

/// Allocates a witness variable holding `w`.
///
/// Calls `FpVar::new_witness` (ark-r1cs-std). Claimed, as its source shows
/// for a system in proving mode: it succeeds, adds an allocated variable
/// holding `w` and no constraint.
#[verifier::external_body]
fn new_witness(cs: &mut ConstraintSystemHandle, w: &Scalar) -> (r: Result<(), SynthesisError>)
    requires
        w.wf(),
    ensures
        r is Ok,
        system_variables(*final(cs)) == system_variables(*old(cs)).push(true),
        system_values(*final(cs)) == system_values(*old(cs)).push(w@),
        system_constraint_count(*final(cs)) == system_constraint_count(*old(cs)),
        system_satisfied(*final(cs)) == system_satisfied(*old(cs)),
{
    let f = Fr::from_bigint(BigInt::new([w.l0, w.l1, w.l2, w.l3])).unwrap();
    let v = FpVar::new_witness(cs.cs.clone(), || Ok(f))?;
    cs.vars.push(v);
    Ok(())
}

/// Replaces variable `i` by its square.
///
/// Calls `Mul` on `&FpVar` (ark-r1cs-std). Claimed, as its source shows:
/// the square of an allocated variable is a new allocated variable, bound by
/// one multiplication constraint, which its assigned value `v * v`
/// satisfies; that of a constant is a constant, with no constraint. As `Fr`
/// is a field, the square of a non-zero value is not zero.
#[verifier::external_body]
fn square(cs: &mut ConstraintSystemHandle, i: usize)
    requires
        i < system_variables(*old(cs)).len(),
        system_constraint_count(*old(cs)) + 1 <= usize::MAX,
    ensures
        system_variables(*final(cs)) == system_variables(*old(cs)),
        system_values(*final(cs)) == system_values(*old(cs)).update(
            i as int,
            (system_values(*old(cs))[i as int] * system_values(*old(cs))[i as int]) % scalar_modulus(),
        ),
        system_values(*old(cs))[i as int] % scalar_modulus() != 0 ==> system_values(*final(cs))[i as int] != 0,
        system_satisfied(*final(cs)) == system_satisfied(*old(cs)),
        system_constraint_count(*final(cs)) == system_constraint_count(*old(cs)) + (if system_variables(
            *old(cs),
        )[i as int] {
            1int
        } else {
            0int
        }),
{
    cs.vars[i] = &cs.vars[i] * &cs.vars[i];
}

/// Adds the constant zero as a variable.
///
/// Calls `FpVar::new_constant` (ark-r1cs-std) with `Fr::zero()`. Claimed, as
/// its source shows: it succeeds, adds a constant zero and no constraint.
#[verifier::external_body]
fn new_zero(cs: &mut ConstraintSystemHandle) -> (r: Result<(), SynthesisError>)
    ensures
        r is Ok,
        system_variables(*final(cs)) == system_variables(*old(cs)).push(false),
        system_values(*final(cs)) == system_values(*old(cs)).push(0),
        system_constraint_count(*final(cs)) == system_constraint_count(*old(cs)),
        system_satisfied(*final(cs)) == system_satisfied(*old(cs)),
{
    let v = FpVar::new_constant(cs.cs.clone(), Fr::zero())?;
    cs.vars.push(v);
    Ok(())
}

/// Enforces that variables `a` and `b` differ.
///
/// Calls `EqGadget::enforce_not_equal` (ark-r1cs-std). Claimed, as its
/// source shows for a system in proving mode: it succeeds; where one of the
/// two is allocated it enforces one constraint (the difference times a
/// witness set to its inverse, or to zero where there is none, is one),
/// which holds exactly when the values differ; between two constants it
/// enforces nothing.
#[verifier::external_body]
fn enforce_not_equal(cs: &mut ConstraintSystemHandle, a: usize, b: usize) -> (r: Result<(), SynthesisError>)
    requires
        a < system_variables(*old(cs)).len(),
        b < system_variables(*old(cs)).len(),
        system_constraint_count(*old(cs)) + 1 <= usize::MAX,
    ensures
        r is Ok,
        system_variables(*final(cs)) == system_variables(*old(cs)),
        system_values(*final(cs)) == system_values(*old(cs)),
        system_constraint_count(*final(cs)) == system_constraint_count(*old(cs)) + (if system_variables(
            *old(cs),
        )[a as int] || system_variables(*old(cs))[b as int] {
            1int
        } else {
            0int
        }),
        system_satisfied(*final(cs)) == (system_satisfied(*old(cs)) && ((system_variables(*old(cs))[a as int]
            || system_variables(*old(cs))[b as int]) ==> system_values(*old(cs))[a as int] != system_values(
            *old(cs),
        )[b as int])),
{
    cs.vars[a].enforce_not_equal(&cs.vars[b])
}

/// A new, empty constraint system.
///
/// Calls `ConstraintSystem::<Fr>::new_ref` (ark-relations). Claimed, as its
/// source shows: the system has no constraint, so it is satisfied, and the
/// handle no variable.
#[verifier::external_body]
fn new_constraint_system() -> (r: ConstraintSystemHandle)
    ensures
        system_variables(r) == Seq::<bool>::empty(),
        system_values(r) == Seq::<nat>::empty(),
        system_constraint_count(r) == 0,
        system_satisfied(r),
{
    ConstraintSystemHandle { cs: ConstraintSystem::<Fr>::new_ref(), vars: Vec::new() }
}

/// The number of variables a handle holds.
///
/// Calls `Vec::len` on the handle's variables. Claimed: the result is their
/// number, that of their kinds and that of their values.
#[verifier::external_body]
fn variable_count(cs: &ConstraintSystemHandle) -> (r: usize)
    ensures
        r == system_variables(*cs).len(),
        r == system_values(*cs).len(),
{
    cs.vars.len()
}

/// The number of constraints of a constraint system.
///
/// Calls `ConstraintSystemRef::num_constraints` (ark-relations). Claimed:
/// the result is the count, which the callers keep within `usize`.
#[verifier::external_body]
fn count_constraints(cs: &ConstraintSystemHandle) -> (r: usize)
    requires
        system_constraint_count(*cs) <= usize::MAX,
    ensures
        r == system_constraint_count(*cs),
{
    cs.cs.num_constraints()
}

/// Whether the constraints of a system hold.
///
/// Calls `ConstraintSystemRef::is_satisfied` (ark-relations), which in
/// proving mode gives `Ok`. Claimed: the result is `system_satisfied`.
#[verifier::external_body]
fn check_satisfied(cs: &ConstraintSystemHandle) -> (r: bool)
    ensures
        r == system_satisfied(*cs),
{
    cs.cs.is_satisfied().unwrap()
}

impl ConstraintSystemHandle {
    /// A new, empty constraint system.
    pub fn new() -> (r: ConstraintSystemHandle)
        ensures
            system_variables(r) == Seq::<bool>::empty(),
            system_values(r) == Seq::<nat>::empty(),
            system_constraint_count(r) == 0,
            system_satisfied(r),
    {
        new_constraint_system()
    }

    /// The number of constraints enforced so far.
    pub fn num_constraints(&self) -> (r: usize)
        requires
            system_constraint_count(*self) <= usize::MAX,
        ensures
            r == system_constraint_count(*self),
    {
        count_constraints(self)
    }

    /// Whether every constraint of the system holds for the values assigned
    /// to its variables.
    pub fn is_satisfied(&self) -> (r: bool)
        ensures
            r == system_satisfied(*self),
    {
        check_satisfied(self)
    }
}

/// The value `v` squared `n` times in `Fr`.
pub open spec fn square_chain(v: nat, n: nat) -> nat
    decreases n,
{
    if n == 0 {
        v
    } else {
        (square_chain(v, (n - 1) as nat) * square_chain(v, (n - 1) as nat)) % scalar_modulus()
    }
}

/// Configurable benchmark circuit: `num_constraints` squarings of `witness`,
/// each a multiplication constraint, and a final check that the result is
/// not zero.
pub struct BenchCircuit {
    /// Number of squarings.
    pub num_constraints: usize,
    /// The starting witness value.
    pub witness: Scalar,
}

impl BenchCircuit {
    /// Tiny circuit: 100 squarings.
    pub fn tiny() -> (r: Self)
        ensures
            r.num_constraints == 100,
            r.witness@ == 42,
    {
        Self::with_constraints(100)
    }

    /// Small circuit: 10K squarings.
    pub fn small() -> (r: Self)
        ensures
            r.num_constraints == 10_000,
            r.witness@ == 42,
    {
        Self::with_constraints(10_000)
    }

    /// Medium circuit: 100K squarings.
    pub fn medium() -> (r: Self)
        ensures
            r.num_constraints == 100_000,
            r.witness@ == 42,
    {
        Self::with_constraints(100_000)
    }

    /// Large circuit: 1M squarings.
    pub fn large() -> (r: Self)
        ensures
            r.num_constraints == 1_000_000,
            r.witness@ == 42,
    {
        Self::with_constraints(1_000_000)
    }

    /// A circuit of the given number of squarings.
    pub fn with_constraints(num_constraints: usize) -> (r: Self)
        ensures
            r.num_constraints == num_constraints,
            r.witness@ == 42,
            r.witness.wf(),
    {
        BenchCircuit { num_constraints, witness: Scalar::from_u64(42) }
    }

    /// Generates the constraints: allocates the witness, squares it
    /// `num_constraints` times and enforces that the result is not zero.
    /// The first error of a step is returned; in a handle's system none
    /// comes, and `num_constraints + 1` constraints are added: one per
    /// squaring and one for the final check. The last square of the witness
    /// and the constant zero are added to the handle's variables, and the
    /// system stays satisfied exactly when the witness is not zero.
    pub fn generate_constraints(&self, cs: &mut ConstraintSystemHandle) -> (r: Result<(), CircuitError>)
        requires
            self.witness.wf(),
            system_constraint_count(*old(cs)) + self.num_constraints + 1 <= usize::MAX,
        ensures
            r is Ok,
            system_constraint_count(*final(cs)) == system_constraint_count(*old(cs)) + self.num_constraints + 1,
            system_variables(*final(cs)) == system_variables(*old(cs)).push(true).push(false),
            system_values(*final(cs)) == system_values(*old(cs)).push(
                square_chain(self.witness@, self.num_constraints as nat),
            ).push(0),
            system_satisfied(*final(cs)) == (system_satisfied(*old(cs)) && self.witness@ != 0),
    {
        let current = variable_count(cs);
        match new_witness(cs, &self.witness) {
            Ok(()) => {},
            Err(e) => {
                return Err(circuit_error(e));
            },
        }
        let ghost start = system_constraint_count(*old(cs));
        let ghost vars = system_variables(*cs);
        let ghost vals0 = system_values(*old(cs));
        let ghost sat0 = system_satisfied(*old(cs));
        let ghost w = self.witness@;
        let mut k: usize = 0;
        while k < self.num_constraints
            invariant
                k <= self.num_constraints,
                start + self.num_constraints + 1 <= usize::MAX,
                current < system_variables(*cs).len(),
                system_variables(*cs) == vars,
                vars[current as int],
                current == vals0.len(),
                system_constraint_count(*cs) == start + k,
                w == self.witness@,
                w < scalar_modulus(),
                system_values(*cs) == vals0.push(square_chain(w, k as nat)),
                square_chain(w, k as nat) < scalar_modulus(),
                square_chain(w, k as nat) != 0 <==> w != 0,
                system_satisfied(*cs) == sat0,
            decreases self.num_constraints - k,
        {
            let ghost before = square_chain(w, k as nat);
            square(cs, current);
            proof {
                let after = square_chain(w, (k + 1) as nat);
                assert(after == (before * before) % scalar_modulus());
                assert(system_values(*cs)[current as int] == after);
                assert(system_values(*cs) =~= vals0.push(after));
                if w == 0 {
                    assert(before == 0);
                    assert(before * before == 0) by (nonlinear_arith)
                        requires
                            before == 0,
                    ;
                    assert(after == 0) by {
                        vstd::arithmetic::div_mod::lemma_small_mod(0, scalar_modulus());
                    }
                } else {
                    assert(before % scalar_modulus() == before) by {
                        vstd::arithmetic::div_mod::lemma_small_mod(before, scalar_modulus());
                    }
                }
            }
            k = k + 1;
        }
        let zero = variable_count(cs);
        match new_zero(cs) {
            Ok(()) => {},
            Err(e) => {
                return Err(circuit_error(e));
            },
        }
        match enforce_not_equal(cs, current, zero) {
            Ok(()) => Ok(()),
            Err(e) => Err(circuit_error(e)),
        }
    }
}

impl Default for BenchCircuit {
    /// The tiny circuit.
    fn default() -> (r: Self)
        ensures
            r.num_constraints == 100,
            r.witness@ == 42,
    {
        Self::tiny()
    }
}

} // verus!
