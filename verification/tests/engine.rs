use plonkish::checker::{check_assignment, CheckResult, MockChecker};
use plonkish::columns::{Cell, Column, ColumnKind};
use plonkish::field::{Fp, MODULUS};
use plonkish::layout::{FValue, Layouter};
use plonkish::system::{ConstraintSystem, SetupError};
use plonkish::fib_three_column as fib1;
use plonkish::fib_single_column as fib2;

fn known(x: u64) -> FValue {
    FValue::Known(Fp::from_u64(x))
}

#[test]
fn three_column_layout_satisfied() {
    let circuit = fib1::MyCircuit { a: known(1), b: known(1) };
    let public = vec![vec![Fp::from_u64(55)]];
    let res = MockChecker::run(4, &circuit, public).unwrap();
    assert!(res.is_satisfied());
}

#[test]
fn single_column_layout_satisfied() {
    let circuit = fib2::MyCircuit { a: known(1), b: known(1) };
    let public = vec![vec![Fp::from_u64(55)]];
    let res = MockChecker::run(5, &circuit, public).unwrap();
    assert!(res.is_satisfied());
}

#[test]
fn other_seeds_satisfied() {
    // 3, 7, 10, 17, 27, 44, 71, 115, 186, 301
    let circuit = fib1::MyCircuit { a: known(3), b: known(7) };
    let public = vec![vec![Fp::from_u64(301)]];
    let res = MockChecker::run(4, &circuit, public).unwrap();
    assert!(res.is_satisfied());
}

/// Lays the three-column circuit out by hand so the grid can be tampered
/// with afterwards.
fn fib1_layouter(k: u32, public: u64) -> Layouter {
    let n = 1usize << k;
    let mut cs = ConstraintSystem::new();
    let instance = cs.instance_column();
    let config = fib1::FiboChip::configure(&mut cs, instance);
    let mut l = Layouter::new(cs, n, vec![vec![Fp::from_u64(public)]]).unwrap();
    let circuit = fib1::MyCircuit { a: known(1), b: known(1) };
    circuit.lay_out(&config, &mut l).unwrap();
    l
}

#[test]
fn tampered_intermediate_gate_failure() {
    let mut l = fib1_layouter(4, 55);
    // break the sum stored at row 3 of the third column
    l.asg.advice[2][3] = known(99);
    let res = check_assignment(&l.cs, &l.asg);
    match res {
        CheckResult::Unsatisfied { gate_failures, .. } => {
            assert!(gate_failures.iter().any(|f| f.gate == 0 && f.row == 3 && !f.incomplete));
        },
        CheckResult::Satisfied => panic!("tampered witness accepted"),
    }
}

#[test]
fn tampered_public_input_copy_failure() {
    let l = fib1_layouter(4, 56);
    let res = check_assignment(&l.cs, &l.asg);
    match res {
        CheckResult::Unsatisfied { gate_failures, copy_failures } => {
            assert!(gate_failures.is_empty());
            assert_eq!(copy_failures.len(), 1);
            let cells = &copy_failures[0].cells;
            assert!(cells.iter().any(|c| c.column.kind == ColumnKind::Instance && c.row == 0));
        },
        CheckResult::Satisfied => panic!("tampered public input accepted"),
    }
}

#[test]
fn checker_is_idempotent() {
    let circuit = fib1::MyCircuit { a: known(1), b: known(1) };
    let r1 = MockChecker::run(4, &circuit, vec![vec![Fp::from_u64(55)]]).unwrap();
    let r2 = MockChecker::run(4, &circuit, vec![vec![Fp::from_u64(55)]]).unwrap();
    assert_eq!(r1, r2);

    let l1 = fib1_layouter(4, 56);
    let a1 = check_assignment(&l1.cs, &l1.asg);
    let a2 = check_assignment(&l1.cs, &l1.asg);
    assert_eq!(a1, a2);
}

#[test]
fn copy_transitivity_single_component() {
    let mut cs = ConstraintSystem::new();
    let col = cs.advice_column();
    cs.enable_equality(col).unwrap();
    let mut l = Layouter::new(cs, 4, vec![]).unwrap();
    l.start_region("chain");
    let x = l.assign_advice("x", col, 0, known(5)).unwrap();
    let y = l.copy_advice("y", &x, col, 1).unwrap();
    let _z = l.copy_advice("z", &y, col, 2).unwrap();
    l.end_region();
    // give the third cell a different concrete value
    l.asg.advice[0][2] = known(6);
    let res = check_assignment(&l.cs, &l.asg);
    match res {
        CheckResult::Unsatisfied { gate_failures, copy_failures } => {
            assert!(gate_failures.is_empty());
            assert_eq!(copy_failures.len(), 1);
            let cells = &copy_failures[0].cells;
            for row in 0..3usize {
                assert!(cells.contains(&Cell {
                    column: Column { kind: ColumnKind::Advice, index: 0 },
                    row,
                }));
            }
            assert_eq!(cells.len(), 3);
        },
        CheckResult::Satisfied => panic!("conflicting component accepted"),
    }
}

#[test]
fn k_too_small_is_setup_error() {
    let circuit = fib1::MyCircuit { a: known(1), b: known(1) };
    let res = MockChecker::run(2, &circuit, vec![vec![Fp::from_u64(55)]]);
    assert_eq!(res, Err(SetupError::CircuitTooLarge));

    let circuit2 = fib2::MyCircuit { a: known(1), b: known(1) };
    let res2 = MockChecker::run(3, &circuit2, vec![vec![Fp::from_u64(55)]]);
    assert_eq!(res2, Err(SetupError::CircuitTooLarge));
}

#[test]
fn unknown_witness_is_incomplete_not_wrong() {
    let circuit = fib1::MyCircuit { a: FValue::Unknown, b: FValue::Unknown };
    let res = MockChecker::run(4, &circuit, vec![vec![Fp::from_u64(55)]]).unwrap();
    match res {
        CheckResult::Unsatisfied { gate_failures, copy_failures } => {
            assert!(!gate_failures.is_empty());
            assert!(gate_failures.iter().all(|f| f.incomplete));
            assert!(copy_failures.is_empty());
        },
        CheckResult::Satisfied => panic!("unknown witness reported satisfied"),
    }
}

#[test]
fn instance_vector_mismatch() {
    let circuit = fib1::MyCircuit { a: known(1), b: known(1) };
    let res = MockChecker::run(4, &circuit, vec![]);
    assert_eq!(res, Err(SetupError::InstanceMismatch));
}

#[test]
fn enable_rejects_non_selector() {
    let mut cs = ConstraintSystem::new();
    let col = cs.advice_column();
    let mut l = Layouter::new(cs, 4, vec![]).unwrap();
    l.start_region("r");
    assert_eq!(l.enable(col, 0), Err(SetupError::NotASelector));
    let missing = Column { kind: ColumnKind::Selector, index: 0 };
    assert_eq!(l.enable(missing, 0), Err(SetupError::InvalidColumn));
}

#[test]
fn equality_must_be_enabled_for_instance_binding() {
    let mut cs = ConstraintSystem::new();
    let col = cs.advice_column();
    let inst = cs.instance_column();
    cs.enable_equality(col).unwrap();
    // the instance column is left without equality
    let mut l = Layouter::new(cs, 4, vec![vec![]]).unwrap();
    l.start_region("r");
    let x = l.assign_advice("x", col, 0, known(5)).unwrap();
    l.end_region();
    assert_eq!(
        l.constrain_instance(x.cell, inst, 0),
        Err(SetupError::EqualityNotEnabled)
    );
}

#[test]
fn too_many_columns_is_refused() {
    let mut cs = ConstraintSystem::new();
    for _ in 0..1025 {
        cs.advice_column();
    }
    match Layouter::new(cs, 4, vec![]) {
        Err(SetupError::TooManyColumns) => (),
        other => panic!("expected TooManyColumns, got {:?}", other.is_ok()),
    }
}

#[test]
fn region_overflow_is_circuit_too_large() {
    let mut cs = ConstraintSystem::new();
    let col = cs.advice_column();
    let mut l = Layouter::new(cs, 2, vec![]).unwrap();
    l.start_region("r");
    assert!(l.assign_advice("x", col, 0, known(1)).is_ok());
    assert!(l.assign_advice("y", col, 1, known(2)).is_ok());
    assert_eq!(
        l.assign_advice("z", col, 2, known(3)),
        Err(SetupError::CircuitTooLarge)
    );
}

#[test]
fn field_arithmetic_exact_values() {
    assert_eq!(Fp::from_u64(3).add(Fp::from_u64(4)), Fp::from_u64(7));
    assert_eq!(Fp::from_u64(0).sub(Fp::from_u64(1)), Fp::from_u64(MODULUS - 1));
    assert_eq!(
        Fp::from_u64(MODULUS - 1).add(Fp::from_u64(2)),
        Fp::from_u64(1)
    );
    let big = 1u64 << 40;
    let expected = ((1u128 << 80) % (MODULUS as u128)) as u64;
    assert_eq!(Fp::from_u64(big).mul(Fp::from_u64(big)), Fp::from_u64(expected));
    assert_eq!(Fp::zero(), Fp::from_u64(0));
    assert_eq!(Fp::one(), Fp::from_u64(1));
    assert_eq!(Fp::from_u64(MODULUS), Fp::zero());
    assert!(Fp::zero().is_zero());
    assert!(!Fp::one().is_zero());
}

#[test]
fn selector_off_rows_impose_no_constraint() {
    // a gate that can never hold, but whose selector is never enabled
    let mut cs = ConstraintSystem::new();
    let col = cs.advice_column();
    let sel = cs.selector();
    let one = plonkish::expression::Expression::Constant(Fp::one());
    cs.create_gate("never", sel, vec![one]).unwrap();
    let mut l = Layouter::new(cs, 4, vec![]).unwrap();
    l.start_region("r");
    l.assign_advice("x", col, 0, known(5)).unwrap();
    l.end_region();
    let res = check_assignment(&l.cs, &l.asg);
    assert!(res.is_satisfied());
}

#[test]
fn end_to_end_check_runs_satisfied() {
    let r = plonkish::laws::fib1_end_to_end_satisfied(4, Fp::from_u64(2), Fp::from_u64(9));
    assert!(r.is_satisfied());
}

/// Lays the single-column circuit out by hand so the grid can be
/// tampered with afterwards.
fn fib2_layouter(k: u32, public: u64) -> Layouter {
    let n = 1usize << k;
    let mut cs = ConstraintSystem::new();
    let instance = cs.instance_column();
    let config = fib2::FiboChip::configure(&mut cs, instance);
    let mut l = Layouter::new(cs, n, vec![vec![Fp::from_u64(public)]]).unwrap();
    let circuit = fib2::MyCircuit { a: known(1), b: known(1) };
    circuit.lay_out(&config, &mut l).unwrap();
    l
}

#[test]
fn single_column_tampered_intermediate_gate_failure() {
    let mut l = fib2_layouter(5, 55);
    // break the chain value at row 5 of the advice column
    l.asg.advice[0][5] = known(42);
    let res = check_assignment(&l.cs, &l.asg);
    match res {
        CheckResult::Unsatisfied { gate_failures, .. } => {
            // row 3 is the first row whose gate reads the tampered cell
            assert!(gate_failures.iter().any(|f| f.gate == 0 && f.row == 3 && !f.incomplete));
        },
        CheckResult::Satisfied => panic!("tampered witness accepted"),
    }
}

#[test]
fn single_column_tampered_public_input_copy_failure() {
    let l = fib2_layouter(5, 54);
    let res = check_assignment(&l.cs, &l.asg);
    match res {
        CheckResult::Unsatisfied { gate_failures, copy_failures } => {
            assert!(gate_failures.is_empty());
            assert_eq!(copy_failures.len(), 1);
        },
        CheckResult::Satisfied => panic!("tampered public input accepted"),
    }
}

#[test]
fn tampered_operand_gate_failure() {
    let mut l = fib1_layouter(4, 55);
    // break the copied operand stored at row 3 of the first column
    l.asg.advice[0][3] = known(77);
    let res = check_assignment(&l.cs, &l.asg);
    match res {
        CheckResult::Unsatisfied { gate_failures, .. } => {
            assert!(gate_failures.iter().any(|f| f.gate == 0 && f.row == 3 && !f.incomplete));
        },
        CheckResult::Satisfied => panic!("tampered operand accepted"),
    }
}
