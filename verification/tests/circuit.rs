use fflonk_decider::bench_circuit::{BenchCircuit, ConstraintSystemHandle};
use fflonk_decider::circuit_size::CircuitSize;
use fflonk_decider::field::Scalar;

#[test]
fn test_tiny_circuit_constraint_count() {
    let circuit = BenchCircuit::tiny();
    let mut cs = ConstraintSystemHandle::new();

    circuit.generate_constraints(&mut cs).unwrap();

    let num_constraints = cs.num_constraints();
    println!("Tiny circuit: {} constraints", num_constraints);

    assert!(num_constraints >= 100 && num_constraints < 200);
}

#[test]
fn test_small_circuit_constraint_count() {
    let circuit = BenchCircuit::small();
    let mut cs = ConstraintSystemHandle::new();

    circuit.generate_constraints(&mut cs).unwrap();

    let num_constraints = cs.num_constraints();
    println!("Small circuit: {} constraints", num_constraints);

    assert!(num_constraints >= 10_000 && num_constraints < 11_000);
}

#[test]
fn test_circuit_size_enum() {
    assert_eq!(CircuitSize::Tiny.constraint_count(), 100);
    assert_eq!(CircuitSize::Small.constraint_count(), 10_000);
    assert_eq!(CircuitSize::from_str("tiny"), Some(CircuitSize::Tiny));
    assert_eq!(CircuitSize::from_str("LARGE"), Some(CircuitSize::Large));
}

#[test]
fn circuit_size_counts_and_names() {
    assert_eq!(CircuitSize::Medium.constraint_count(), 100_000);
    assert_eq!(CircuitSize::Large.constraint_count(), 1_000_000);
    assert_eq!(CircuitSize::from_str("Small"), Some(CircuitSize::Small));
    assert_eq!(CircuitSize::from_str("mEdIuM"), Some(CircuitSize::Medium));
    assert_eq!(CircuitSize::from_str("huge"), None);
    assert_eq!(CircuitSize::from_str(""), None);
    assert_eq!(CircuitSize::from_str(" tiny"), None);
    assert_eq!(CircuitSize::from_lowercase("large"), Some(CircuitSize::Large));
    assert_eq!(CircuitSize::from_lowercase("LARGE"), None);
    assert_eq!(CircuitSize::from_str("Tiny"), Some(CircuitSize::Tiny));
    assert_eq!(CircuitSize::from_str("TINY"), Some(CircuitSize::Tiny));
    assert_eq!(CircuitSize::from_str("tInY"), Some(CircuitSize::Tiny));
    assert_eq!(CircuitSize::from_str("HUGE"), None);
}

#[test]
fn bench_circuit_presets() {
    assert_eq!(BenchCircuit::tiny().num_constraints, 100);
    assert_eq!(BenchCircuit::small().num_constraints, 10_000);
    assert_eq!(BenchCircuit::medium().num_constraints, 100_000);
    assert_eq!(BenchCircuit::large().num_constraints, 1_000_000);
    let c = BenchCircuit::with_constraints(7);
    assert_eq!(c.num_constraints, 7);
    assert_eq!(c.witness.limbs(), [42, 0, 0, 0]);
    assert_eq!(BenchCircuit::default().num_constraints, 100);
}

#[test]
fn bench_circuit_with_no_squarings() {
    let circuit = BenchCircuit::with_constraints(0);
    let mut cs = ConstraintSystemHandle::new();
    circuit.generate_constraints(&mut cs).unwrap();
    assert_eq!(cs.num_constraints(), 1);
}

#[test]
fn bench_circuit_constraint_counts_are_exact() {
    let mut cs = ConstraintSystemHandle::new();
    assert_eq!(cs.num_constraints(), 0);
    BenchCircuit::tiny().generate_constraints(&mut cs).unwrap();
    assert_eq!(cs.num_constraints(), 101);
    BenchCircuit::with_constraints(7).generate_constraints(&mut cs).unwrap();
    assert_eq!(cs.num_constraints(), 109);
}

#[test]
fn bench_circuit_is_satisfied_for_a_nonzero_witness() {
    let mut cs = ConstraintSystemHandle::new();
    assert!(cs.is_satisfied());
    BenchCircuit::tiny().generate_constraints(&mut cs).unwrap();
    assert!(cs.is_satisfied());
    let zero = BenchCircuit { num_constraints: 3, witness: Scalar::from_u64(0) };
    zero.generate_constraints(&mut cs).unwrap();
    assert!(!cs.is_satisfied());
}
