//! Verified statements about the two Fibonacci circuits and the
//! checker: a correctly chained witness with the matching public input
//! satisfies every constraint; a tampered chain value — computed or
//! copied, in either layout — fires a gate at the first enabled row
//! that reads it; a tampered public input is reported as a copy
//! violation and never as a gate failure; equal copy components with
//! distinct values are reported as exactly one conflict; and checking
//! the same frozen state twice always reports the same thing.

use vstd::prelude::*;
use vstd::arithmetic::div_mod::{lemma_mod_bound, lemma_small_mod};
use crate::field::{fadd, fmul, fsub, lemma_fadd_injective, lemma_fp_residue, lemma_fsub_nonzero, MODULUS};
use crate::columns::Cell;
use crate::expression::Expression;
use crate::system::ConstraintSystem;
use crate::layout::{Assignment, FValue};
use crate::checker::{
    cell_id, cell_value, class_conflicts, copy_failures_model, copy_values_match, eval_expr_spec,
    gate_fails_at, gate_failure_entry, gate_failures_spec, gate_nonzero_at, gate_unknown_at,
    id_count, id_value, lemma_cell_id, lemma_copy_conflict_found, lemma_copy_failures_empty,
    lemma_gate_failure_found, lemma_gate_failures_empty, lemma_pair_connected,
    lemma_copy_failures_single, lemma_members_contains, lemma_pair_ids_in_range,
    lemma_reps_idempotent, lemma_reps_upto_range, reps_spec,
    satisfied_spec,
};
use crate::fib_three_column::{fib1_cols_ok, fib1_copies, fib1_gate_poly};
use crate::fib::{fib_cell, lemma_fib_cell_known, lemma_fib_cell_range};

verus! {

/// The constraint system the three-column circuit declares on a fresh
/// system.
pub open spec fn fib1_system_ok(cs: ConstraintSystem) -> bool {
    &&& cs.wf()
    &&& cs.num_advice == 3
    &&& cs.num_instance == 1
    &&& cs.num_selectors == 1
    &&& fib1_cols_ok(cs)
    &&& cs.gates@.len() == 1
    &&& cs.gates@[0].selector == 0
    &&& cs.gates@[0].polys@.len() == 1
    &&& fib1_gate_poly(cs.gates@[0].polys@[0], 0, 1, 2, 0)
}

/// The grid one synthesis of the three-column circuit builds from row
/// `t`, leaving the bound public inputs unconstrained: the chain in the
/// three advice columns, the selector on exactly the eight chain rows,
/// and the declared copy pairs.
pub open spec fn fib1_grid_ok(
    cs: ConstraintSystem,
    asg: Assignment,
    a: FValue,
    b: FValue,
    t: int,
) -> bool {
    &&& asg.wf(cs)
    &&& 0 <= t
    &&& t + 8 <= asg.n
    &&& (forall|j: int| 0 <= j < 8 ==> #[trigger] asg.advice_view()[0][t + j] == fib_cell(a, b, j))
    &&& (forall|j: int|
        0 <= j < 8 ==> #[trigger] asg.advice_view()[1][t + j] == fib_cell(a, b, j + 1))
    &&& (forall|j: int|
        0 <= j < 8 ==> #[trigger] asg.advice_view()[2][t + j] == fib_cell(a, b, j + 2))
    &&& (forall|rr: int|
        0 <= rr < asg.n ==> ((#[trigger] asg.selector_view()[0][rr]) <==> t <= rr < t + 8))
    &&& asg.copies@ == fib1_copies(t)
}

/// The circuit's one polynomial evaluates to
/// `s · ((x0 + x1) − x2)` at a row whose three advice cells hold the
/// concrete values `x0`, `x1`, `x2`.
proof fn lemma_fib1_gate_eval(cs: ConstraintSystem, asg: Assignment, row: int, x0: int, x1: int, x2: int)
    requires
        fib1_system_ok(cs),
        asg.wf(cs),
        0 <= row < asg.n,
        asg.advice_view()[0][row].as_opt() == Some(x0),
        asg.advice_view()[1][row].as_opt() == Some(x1),
        asg.advice_view()[2][row].as_opt() == Some(x2),
    ensures
        eval_expr_spec(cs.gates@[0].polys@[0], asg, row) == Some(
            fmul(
                if asg.selector_view()[0][row] {
                    1int
                } else {
                    0int
                },
                fsub(fadd(x0, x1), x2),
            ),
        ),
{
    let e = cs.gates@[0].polys@[0];
    let n = asg.n as int;
    lemma_small_mod(row as nat, n as nat);
    assert((row + 0) % n == row);
    match e {
        Expression::Product(s, d) => {
            assert(eval_expr_spec(*s, asg, row) == Some(
                if asg.selector_view()[0][row] {
                    1int
                } else {
                    0int
                },
            ));
            match *d {
                Expression::Difference(sum, c) => {
                    assert(eval_expr_spec(*c, asg, row) == Some(x2));
                    match *sum {
                        Expression::Sum(qa, qb) => {
                            assert(eval_expr_spec(*qa, asg, row) == Some(x0));
                            assert(eval_expr_spec(*qb, asg, row) == Some(x1));
                        },
                        _ => {
                            assert(false);
                        },
                    }
                    assert(eval_expr_spec(*sum, asg, row) == Some(fadd(x0, x1)));
                },
                _ => {
                    assert(false);
                },
            }
            assert(eval_expr_spec(*d, asg, row) == Some(fsub(fadd(x0, x1), x2)));
        },
        _ => {
            assert(false);
        },
    }
}

/// A row whose third advice cell holds the field sum of the first two
/// never fires the circuit's gate.
proof fn lemma_fib1_gate_passes(cs: ConstraintSystem, asg: Assignment, row: int, x0: int, x1: int)
    requires
        fib1_system_ok(cs),
        asg.wf(cs),
        0 <= row < asg.n,
        asg.advice_view()[0][row].as_opt() == Some(x0),
        asg.advice_view()[1][row].as_opt() == Some(x1),
        asg.advice_view()[2][row].as_opt() == Some(fadd(x0, x1)),
    ensures
        !gate_fails_at(cs, asg, 0, row),
{
    lemma_fib1_gate_eval(cs, asg, row, x0, x1, fadd(x0, x1));
    assert(fsub(fadd(x0, x1), fadd(x0, x1)) == 0);
    let s = if asg.selector_view()[0][row] {
        1int
    } else {
        0int
    };
    assert(fmul(s, 0) == 0);
    assert(eval_expr_spec(cs.gates@[0].polys@[0], asg, row) == Some(0int));
    assert(!gate_unknown_at(cs, asg, 0, row));
    assert(!gate_nonzero_at(cs, asg, 0, row));
}

/// The values a concretely seeded chain holds at its three cells of one
/// row; the sum relation between them holds by construction.
proof fn lemma_fib1_row_values(cs: ConstraintSystem, asg: Assignment, a: FValue, b: FValue, t: int, j: int)
    requires
        fib1_system_ok(cs),
        fib1_grid_ok(cs, asg, a, b, t),
        a is Known,
        b is Known,
        0 <= j < 8,
    ensures
        asg.advice_view()[0][t + j].as_opt() matches Some(x0)
            && asg.advice_view()[1][t + j].as_opt() == Some(fib_cell(a, b, j + 1).as_opt()->0)
            && asg.advice_view()[2][t + j].as_opt() == Some(
            fadd(x0, fib_cell(a, b, j + 1).as_opt()->0),
        ),
{
    lemma_fib_cell_known(a, b, j);
    lemma_fib_cell_known(a, b, j + 1);
    lemma_fib_cell_known(a, b, j + 2);
    assert(asg.advice_view()[0][t + j] == fib_cell(a, b, j));
    assert(asg.advice_view()[1][t + j] == fib_cell(a, b, j + 1));
    assert(asg.advice_view()[2][t + j] == fib_cell(a, b, j + 2));
    let x0 = fib_cell(a, b, j).as_opt()->0;
    let x1 = fib_cell(a, b, j + 1).as_opt()->0;
    assert(fib_cell(a, b, j + 2) == crate::layout::fv_add(fib_cell(a, b, j), fib_cell(a, b, j + 1)));
    lemma_fp_residue(fadd(x0, x1));
    lemma_mod_bound(x0 + x1, MODULUS as int);
    lemma_small_mod(fadd(x0, x1) as nat, MODULUS as nat);
    assert(fib_cell(a, b, j + 2).as_opt() == Some(fadd(x0, x1)));
}

/// A concretely seeded chain fires no gate at any row.
proof fn lemma_fib1_gates_all_pass(cs: ConstraintSystem, asg: Assignment, a: FValue, b: FValue, t: int)
    requires
        fib1_system_ok(cs),
        fib1_grid_ok(cs, asg, a, b, t),
        a is Known,
        b is Known,
    ensures
        gate_failures_spec(cs, asg).len() == 0,
{
    assert forall|g: int, row: int|
        0 <= g < cs.gates@.len() && 0 <= row < asg.n implies !gate_fails_at(cs, asg, g, row) by {
        if asg.selector_view()[0][row] {
            let j = row - t;
            lemma_fib1_row_values(cs, asg, a, b, t, j);
            let x0 = fib_cell(a, b, j).as_opt()->0;
            let x1 = fib_cell(a, b, j + 1).as_opt()->0;
            lemma_fib1_gate_passes(cs, asg, row, x0, x1);
        }
    }
    lemma_gate_failures_empty(cs, asg, (cs.gates@.len() * asg.n) as nat);
}

/// A concretely seeded chain declares only equal-valued copy pairs.
proof fn lemma_fib1_copies_match(cs: ConstraintSystem, asg: Assignment, a: FValue, b: FValue, t: int)
    requires
        fib1_system_ok(cs),
        fib1_grid_ok(cs, asg, a, b, t),
        a is Known,
        b is Known,
        FValue::Known(asg.instance_view()[0][0]) == fib_cell(a, b, 9),
    ensures
        copy_values_match(asg),
{
    assert forall|p: int| 0 <= p < asg.copies@.len() implies cell_value(
        asg,
        (#[trigger] asg.copies@[p]).0,
    ) == cell_value(asg, asg.copies@[p].1) by {
        assert(asg.copies@[p] == fib1_copies(t)[p]);
        if p < 14 {
            let j = p / 2 + 1;
            assert(1 <= j <= 7);
            if p % 2 == 0 {
                assert(asg.advice_view()[0][t + j] == fib_cell(a, b, j));
                if j == 1 {
                    assert(asg.advice_view()[1][t + 0] == fib_cell(a, b, 1));
                } else {
                    assert(asg.advice_view()[2][t + (j - 2)] == fib_cell(a, b, j));
                }
            } else {
                assert(asg.advice_view()[1][t + j] == fib_cell(a, b, j + 1));
                assert(asg.advice_view()[2][t + (j - 1)] == fib_cell(a, b, j + 1));
            }
        } else {
            assert(p == 14);
            assert(asg.advice_view()[2][t + 7] == fib_cell(a, b, 9));
        }
    }
}

/// For every concretely seeded Fibonacci witness laid out by the
/// three-column circuit, with the matching public input bound at row 0
/// of the instance column, the checker reports satisfaction.
pub proof fn fib1_valid_witness_satisfied(
    cs: ConstraintSystem,
    asg: Assignment,
    a: FValue,
    b: FValue,
    t: int,
)
    requires
        fib1_system_ok(cs),
        fib1_grid_ok(cs, asg, a, b, t),
        a is Known,
        b is Known,
        FValue::Known(asg.instance_view()[0][0]) == fib_cell(a, b, 9),
    ensures
        satisfied_spec(cs, asg),
{
    lemma_fib1_gates_all_pass(cs, asg, a, b, t);
    lemma_fib1_copies_match(cs, asg, a, b, t);
    lemma_pair_ids_in_range(cs, asg);
    lemma_reps_upto_range(
        asg.copies@,
        cs.num_advice as int,
        asg.n as int,
        id_count(cs, asg.n as int) as nat,
        asg.copies@.len(),
    );
    lemma_copy_failures_empty(cs, asg, id_count(cs, asg.n as int) as nat);
}

/// For the same witness with a single tampered intermediate value, the
/// checker reports a gate failure at the row where the tampered value is
/// first used, and it is a wrong value, not an incomplete witness.
pub proof fn fib1_tampered_witness_gate_failure(
    cs: ConstraintSystem,
    asg: Assignment,
    a: FValue,
    b: FValue,
    t: int,
    tr: int,
    w: int,
)
    requires
        fib1_system_ok(cs),
        asg.wf(cs),
        0 <= t,
        t + 8 <= asg.n,
        a is Known,
        b is Known,
        0 <= tr < 8,
        (forall|j: int|
            0 <= j < 8 ==> #[trigger] asg.advice_view()[0][t + j] == fib_cell(a, b, j)),
        (forall|j: int|
            0 <= j < 8 ==> #[trigger] asg.advice_view()[1][t + j] == fib_cell(a, b, j + 1)),
        (forall|j: int|
            0 <= j < 8 && j != tr ==> #[trigger] asg.advice_view()[2][t + j] == fib_cell(
                a,
                b,
                j + 2,
            )),
        asg.advice_view()[2][t + tr].as_opt() == Some(w),
        0 <= w < MODULUS as int,
        w != fib_cell(a, b, tr + 2).as_opt()->0,
        (forall|rr: int|
            0 <= rr < asg.n ==> ((#[trigger] asg.selector_view()[0][rr]) <==> t <= rr < t + 8)),
    ensures
        gate_failures_spec(cs, asg).contains(sole_gate_failure_at(cs, asg, t + tr)),
        gate_failures_spec(cs, asg).len() > 0,
        !satisfied_spec(cs, asg),
{
    lemma_fib_cell_known(a, b, tr);
    lemma_fib_cell_known(a, b, tr + 1);
    lemma_fib_cell_known(a, b, tr + 2);
    let x0 = fib_cell(a, b, tr).as_opt()->0;
    let x1 = fib_cell(a, b, tr + 1).as_opt()->0;
    let x2 = fib_cell(a, b, tr + 2).as_opt()->0;
    assert(asg.advice_view()[0][t + tr] == fib_cell(a, b, tr));
    assert(asg.advice_view()[1][t + tr] == fib_cell(a, b, tr + 1));
    assert(fib_cell(a, b, tr + 2) == crate::layout::fv_add(
        fib_cell(a, b, tr),
        fib_cell(a, b, tr + 1),
    ));
    lemma_fp_residue(fadd(x0, x1));
    lemma_mod_bound(x0 + x1, MODULUS as int);
    lemma_small_mod(fadd(x0, x1) as nat, MODULUS as nat);
    assert(x2 == fadd(x0, x1));
    lemma_fib1_gate_eval(cs, asg, t + tr, x0, x1, w);
    lemma_fsub_nonzero(fadd(x0, x1), w);
    let z = fsub(fadd(x0, x1), w);
    lemma_mod_bound(fadd(x0, x1) - w, MODULUS as int);
    lemma_small_mod(z as nat, MODULUS as nat);
    assert(fmul(1, z) == z);
    assert(eval_expr_spec(cs.gates@[0].polys@[0], asg, t + tr) == Some(z));
    assert(gate_nonzero_at(cs, asg, 0, t + tr));
    assert(!gate_unknown_at(cs, asg, 0, t + tr));
    assert(gate_fails_at(cs, asg, 0, t + tr));
    lemma_gate_failure_found(cs, asg, 0, t + tr, (cs.gates@.len() * asg.n) as nat);
    assert(gate_failure_entry(cs, asg, 0, t + tr) == sole_gate_failure_at(cs, asg, t + tr));
}

/// The failure record of the system's only gate at an absolute row.
pub open spec fn sole_gate_failure_at(cs: ConstraintSystem, asg: Assignment, row: int)
    -> crate::checker::GateFailure {
    gate_failure_entry(cs, asg, 0, row)
}

/// For the same witness with a single tampered operand cell instead — a
/// value copied into the first or second advice column — the checker
/// likewise reports a gate failure at the row where the tampered value
/// is used, and it is a wrong value, not an incomplete witness.
pub proof fn fib1_tampered_operand_gate_failure(
    cs: ConstraintSystem,
    asg: Assignment,
    a: FValue,
    b: FValue,
    t: int,
    tr: int,
    col: int,
    w: int,
)
    requires
        fib1_system_ok(cs),
        asg.wf(cs),
        0 <= t,
        t + 8 <= asg.n,
        a matches FValue::Known(af) && af.inv(),
        b matches FValue::Known(bf) && bf.inv(),
        0 <= tr < 8,
        col == 0 || col == 1,
        (forall|j: int|
            0 <= j < 8 && !(col == 0 && j == tr) ==> #[trigger] asg.advice_view()[0][t + j]
                == fib_cell(a, b, j)),
        (forall|j: int|
            0 <= j < 8 && !(col == 1 && j == tr) ==> #[trigger] asg.advice_view()[1][t + j]
                == fib_cell(a, b, j + 1)),
        (forall|j: int|
            0 <= j < 8 ==> #[trigger] asg.advice_view()[2][t + j] == fib_cell(a, b, j + 2)),
        asg.advice_view()[col][t + tr].as_opt() == Some(w),
        0 <= w < MODULUS as int,
        w != fib_cell(a, b, tr + col).as_opt()->0,
        (forall|rr: int|
            0 <= rr < asg.n ==> ((#[trigger] asg.selector_view()[0][rr]) <==> t <= rr < t + 8)),
    ensures
        gate_failures_spec(cs, asg).contains(sole_gate_failure_at(cs, asg, t + tr)),
        gate_failures_spec(cs, asg).len() > 0,
        !satisfied_spec(cs, asg),
{
    lemma_fib_cell_range(a, b, tr);
    lemma_fib_cell_range(a, b, tr + 1);
    lemma_fib_cell_range(a, b, tr + 2);
    let f0 = fib_cell(a, b, tr).as_opt()->0;
    let f1 = fib_cell(a, b, tr + 1).as_opt()->0;
    let f2v = fib_cell(a, b, tr + 2).as_opt()->0;
    assert(fib_cell(a, b, tr + 2) == crate::layout::fv_add(
        fib_cell(a, b, tr),
        fib_cell(a, b, tr + 1),
    ));
    lemma_fp_residue(fadd(f0, f1));
    lemma_mod_bound(f0 + f1, MODULUS as int);
    lemma_small_mod(fadd(f0, f1) as nat, MODULUS as nat);
    assert(f2v == fadd(f0, f1));
    let x0 = if col == 0 {
        w
    } else {
        f0
    };
    let x1 = if col == 0 {
        f1
    } else {
        w
    };
    if col == 0 {
        assert(asg.advice_view()[1][t + tr] == fib_cell(a, b, tr + 1));
        lemma_fadd_injective(w, f0, f1);
    } else {
        assert(asg.advice_view()[0][t + tr] == fib_cell(a, b, tr));
        lemma_fadd_injective(w, f1, f0);
    }
    assert(fadd(x0, x1) != f2v);
    lemma_fib1_gate_eval(cs, asg, t + tr, x0, x1, f2v);
    lemma_mod_bound(x0 + x1, MODULUS as int);
    lemma_fsub_nonzero(fadd(x0, x1), f2v);
    let z = fsub(fadd(x0, x1), f2v);
    lemma_mod_bound(fadd(x0, x1) - f2v, MODULUS as int);
    lemma_small_mod(z as nat, MODULUS as nat);
    assert(fmul(1, z) == z);
    assert(eval_expr_spec(cs.gates@[0].polys@[0], asg, t + tr) == Some(z));
    assert(gate_nonzero_at(cs, asg, 0, t + tr));
    assert(!gate_unknown_at(cs, asg, 0, t + tr));
    assert(gate_fails_at(cs, asg, 0, t + tr));
    lemma_gate_failure_found(cs, asg, 0, t + tr, (cs.gates@.len() * asg.n) as nat);
}

/// For the same witness with a tampered public input, the checker
/// reports a copy violation on the instance-binding component, and no
/// gate failure at all.
pub proof fn fib1_tampered_public_input_copy_violation(
    cs: ConstraintSystem,
    asg: Assignment,
    a: FValue,
    b: FValue,
    t: int,
)
    requires
        fib1_system_ok(cs),
        fib1_grid_ok(cs, asg, a, b, t),
        a is Known,
        b is Known,
        asg.instance_view()[0][0].as_int() != fib_cell(a, b, 9).as_opt()->0,
    ensures
        gate_failures_spec(cs, asg).len() == 0,
        copy_failures_model(cs, asg).len() > 0,
        !satisfied_spec(cs, asg),
{
    lemma_fib1_gates_all_pass(cs, asg, a, b, t);
    lemma_fib_cell_known(a, b, 9);
    let na = cs.num_advice as int;
    let n = asg.n as int;
    let m = id_count(cs, n) as nat;
    let pair = asg.copies@[14];
    assert(pair == fib1_copies(t)[14]);
    let src = pair.0;
    let dst = pair.1;
    lemma_pair_ids_in_range(cs, asg);
    lemma_cell_id(src, cs, asg);
    lemma_cell_id(dst, cs, asg);
    let x = cell_id(src, na, n);
    let y = cell_id(dst, na, n);
    assert(asg.advice_view()[2][t + 7] == fib_cell(a, b, 9));
    assert(cell_value(asg, src) == Some(fib_cell(a, b, 9).as_opt()->0));
    assert(cell_value(asg, dst) == Some(asg.instance_view()[0][0].as_int()));
    lemma_pair_connected(asg.copies@, na, n, m, asg.copies@.len(), 14);
    lemma_reps_idempotent(asg.copies@, na, n, m, asg.copies@.len());
    lemma_reps_upto_range(asg.copies@, na, n, m, asg.copies@.len());
    let rep = reps_spec(cs, asg);
    let r = rep[x] as int;
    assert(rep[r] == rep[x]);
    assert(0 <= r < m);
    assert(id_value(asg, na, x) == Some(fib_cell(a, b, 9).as_opt()->0));
    assert(id_value(asg, na, y) == Some(asg.instance_view()[0][0].as_int()));
    assert(class_conflicts(cs, asg, rep, r));
    lemma_copy_conflict_found(cs, asg, rep, r, rep.len());
}

/// The constraint system the single-column circuit declares on a fresh
/// system.
pub open spec fn fib2_system_ok(cs: ConstraintSystem) -> bool {
    &&& cs.wf()
    &&& cs.num_advice == 1
    &&& cs.num_instance == 1
    &&& cs.num_selectors == 1
    &&& crate::fib_single_column::fib2_cols_ok(cs)
    &&& cs.gates@.len() == 1
    &&& cs.gates@[0].selector == 0
    &&& cs.gates@[0].polys@.len() == 1
    &&& crate::fib_single_column::fib2_gate_poly(cs.gates@[0].polys@[0], 0, 0)
}

/// The grid one synthesis of the single-column circuit builds from row
/// `t`: the ten-row chain in the advice column, the selector on exactly
/// the rows where three chain rows are readable, and the one declared
/// copy pair binding the last chain value to row 0 of the instance
/// column.
pub open spec fn fib2_grid_ok(
    cs: ConstraintSystem,
    asg: Assignment,
    a: FValue,
    b: FValue,
    t: int,
) -> bool {
    &&& asg.wf(cs)
    &&& 0 <= t
    &&& t + 10 <= asg.n
    &&& (forall|j: int| 0 <= j < 10 ==> #[trigger] asg.advice_view()[0][t + j] == fib_cell(a, b, j))
    &&& (forall|rr: int|
        0 <= rr < asg.n ==> ((#[trigger] asg.selector_view()[0][rr]) <==> t <= rr < t + 8))
    &&& asg.copies@ == seq![
        (
            Cell {
                column: crate::fib_single_column::fib2_config().advice,
                row: (t + 9) as usize,
            },
            Cell { column: crate::fib_single_column::fib2_config().instance, row: 0 },
        ),
    ]
}

/// The single-column circuit's polynomial evaluates to
/// `s · ((x0 + x1) − x2)` at a row whose next three chain rows hold the
/// concrete values `x0`, `x1`, `x2`.
proof fn lemma_fib2_gate_eval(
    cs: ConstraintSystem,
    asg: Assignment,
    row: int,
    x0: int,
    x1: int,
    x2: int,
)
    requires
        fib2_system_ok(cs),
        asg.wf(cs),
        0 <= row,
        row + 2 < asg.n,
        asg.advice_view()[0][row].as_opt() == Some(x0),
        asg.advice_view()[0][row + 1].as_opt() == Some(x1),
        asg.advice_view()[0][row + 2].as_opt() == Some(x2),
    ensures
        eval_expr_spec(cs.gates@[0].polys@[0], asg, row) == Some(
            fmul(
                if asg.selector_view()[0][row] {
                    1int
                } else {
                    0int
                },
                fsub(fadd(x0, x1), x2),
            ),
        ),
{
    let e = cs.gates@[0].polys@[0];
    let n = asg.n as int;
    lemma_small_mod(row as nat, n as nat);
    lemma_small_mod((row + 1) as nat, n as nat);
    lemma_small_mod((row + 2) as nat, n as nat);
    assert((row + 0) % n == row && (row + 1) % n == row + 1 && (row + 2) % n == row + 2);
    match e {
        Expression::Product(s, d) => {
            assert(eval_expr_spec(*s, asg, row) == Some(
                if asg.selector_view()[0][row] {
                    1int
                } else {
                    0int
                },
            ));
            match *d {
                Expression::Difference(sum, c) => {
                    assert(eval_expr_spec(*c, asg, row) == Some(x2));
                    match *sum {
                        Expression::Sum(qa, qb) => {
                            assert(eval_expr_spec(*qa, asg, row) == Some(x0));
                            assert(eval_expr_spec(*qb, asg, row) == Some(x1));
                        },
                        _ => {
                            assert(false);
                        },
                    }
                    assert(eval_expr_spec(*sum, asg, row) == Some(fadd(x0, x1)));
                },
                _ => {
                    assert(false);
                },
            }
            assert(eval_expr_spec(*d, asg, row) == Some(fsub(fadd(x0, x1), x2)));
        },
        _ => {
            assert(false);
        },
    }
}

/// A concretely seeded chain in the single advice column fires no gate
/// at any row.
proof fn lemma_fib2_gates_all_pass(
    cs: ConstraintSystem,
    asg: Assignment,
    a: FValue,
    b: FValue,
    t: int,
)
    requires
        fib2_system_ok(cs),
        fib2_grid_ok(cs, asg, a, b, t),
        a is Known,
        b is Known,
    ensures
        gate_failures_spec(cs, asg).len() == 0,
{
    assert forall|g: int, row: int|
        0 <= g < cs.gates@.len() && 0 <= row < asg.n implies !gate_fails_at(cs, asg, g, row) by {
        if asg.selector_view()[0][row] {
            let j = row - t;
            lemma_fib_cell_known(a, b, j);
            lemma_fib_cell_known(a, b, j + 1);
            lemma_fib_cell_known(a, b, j + 2);
            assert(asg.advice_view()[0][t + j] == fib_cell(a, b, j));
            assert(asg.advice_view()[0][t + (j + 1)] == fib_cell(a, b, j + 1));
            assert(asg.advice_view()[0][t + (j + 2)] == fib_cell(a, b, j + 2));
            let x0 = fib_cell(a, b, j).as_opt()->0;
            let x1 = fib_cell(a, b, j + 1).as_opt()->0;
            assert(fib_cell(a, b, j + 2) == crate::layout::fv_add(
                fib_cell(a, b, j),
                fib_cell(a, b, j + 1),
            ));
            lemma_fp_residue(fadd(x0, x1));
            lemma_mod_bound(x0 + x1, MODULUS as int);
            lemma_small_mod(fadd(x0, x1) as nat, MODULUS as nat);
            assert(fib_cell(a, b, j + 2).as_opt() == Some(fadd(x0, x1)));
            lemma_fib2_gate_eval(cs, asg, row, x0, x1, fadd(x0, x1));
            assert(fsub(fadd(x0, x1), fadd(x0, x1)) == 0);
            assert(fmul(1, 0) == 0);
            assert(eval_expr_spec(cs.gates@[0].polys@[0], asg, row) == Some(0int));
            assert(!gate_unknown_at(cs, asg, 0, row));
            assert(!gate_nonzero_at(cs, asg, 0, row));
        }
    }
    lemma_gate_failures_empty(cs, asg, (cs.gates@.len() * asg.n) as nat);
}

/// For every concretely seeded Fibonacci witness laid out by the
/// single-column circuit, with the matching public input bound at row 0
/// of the instance column, the checker reports satisfaction.
pub proof fn fib2_valid_witness_satisfied(
    cs: ConstraintSystem,
    asg: Assignment,
    a: FValue,
    b: FValue,
    t: int,
)
    requires
        fib2_system_ok(cs),
        fib2_grid_ok(cs, asg, a, b, t),
        a is Known,
        b is Known,
        FValue::Known(asg.instance_view()[0][0]) == fib_cell(a, b, 9),
    ensures
        satisfied_spec(cs, asg),
{
    lemma_fib2_gates_all_pass(cs, asg, a, b, t);
    lemma_fib_cell_known(a, b, 9);
    assert forall|p: int| 0 <= p < asg.copies@.len() implies cell_value(
        asg,
        (#[trigger] asg.copies@[p]).0,
    ) == cell_value(asg, asg.copies@[p].1) by {
        assert(p == 0);
        assert(asg.advice_view()[0][t + 9] == fib_cell(a, b, 9));
    }
    lemma_pair_ids_in_range(cs, asg);
    lemma_reps_upto_range(
        asg.copies@,
        cs.num_advice as int,
        asg.n as int,
        id_count(cs, asg.n as int) as nat,
        asg.copies@.len(),
    );
    lemma_copy_failures_empty(cs, asg, id_count(cs, asg.n as int) as nat);
}

/// For the single-column witness with a single tampered chain value,
/// the checker reports a gate failure — a wrong value, not an incomplete
/// witness — at the first enabled row whose gate reads the tampered
/// cell: the row two above it, or the chain's first row for the two
/// seeds.
pub proof fn fib2_tampered_witness_gate_failure(
    cs: ConstraintSystem,
    asg: Assignment,
    a: FValue,
    b: FValue,
    t: int,
    tr: int,
    w: int,
)
    requires
        fib2_system_ok(cs),
        asg.wf(cs),
        0 <= t,
        t + 10 <= asg.n,
        a matches FValue::Known(af) && af.inv(),
        b matches FValue::Known(bf) && bf.inv(),
        0 <= tr < 10,
        (forall|j: int|
            0 <= j < 10 && j != tr ==> #[trigger] asg.advice_view()[0][t + j] == fib_cell(
                a,
                b,
                j,
            )),
        asg.advice_view()[0][t + tr].as_opt() == Some(w),
        0 <= w < MODULUS as int,
        w != fib_cell(a, b, tr).as_opt()->0,
        (forall|rr: int|
            0 <= rr < asg.n ==> ((#[trigger] asg.selector_view()[0][rr]) <==> t <= rr < t + 8)),
    ensures
        gate_failures_spec(cs, asg).contains(
            sole_gate_failure_at(
                cs,
                asg,
                if tr >= 2 {
                    t + tr - 2
                } else {
                    t
                },
            ),
        ),
        gate_failures_spec(cs, asg).len() > 0,
        !satisfied_spec(cs, asg),
{
    let r0 = if tr >= 2 {
        t + tr - 2
    } else {
        t
    };
    let j0 = r0 - t;
    lemma_fib_cell_range(a, b, j0);
    lemma_fib_cell_range(a, b, j0 + 1);
    lemma_fib_cell_range(a, b, j0 + 2);
    let f0 = fib_cell(a, b, j0).as_opt()->0;
    let f1 = fib_cell(a, b, j0 + 1).as_opt()->0;
    let f2v = fib_cell(a, b, j0 + 2).as_opt()->0;
    assert(fib_cell(a, b, j0 + 2) == crate::layout::fv_add(
        fib_cell(a, b, j0),
        fib_cell(a, b, j0 + 1),
    ));
    lemma_fp_residue(fadd(f0, f1));
    lemma_mod_bound(f0 + f1, MODULUS as int);
    lemma_small_mod(fadd(f0, f1) as nat, MODULUS as nat);
    assert(f2v == fadd(f0, f1));
    let x0 = if tr == 0 {
        w
    } else {
        f0
    };
    let x1 = if tr == 1 {
        w
    } else {
        f1
    };
    let x2 = if tr >= 2 {
        w
    } else {
        f2v
    };
    if tr >= 2 {
        assert(asg.advice_view()[0][t + j0] == fib_cell(a, b, j0));
        assert(asg.advice_view()[0][t + (j0 + 1)] == fib_cell(a, b, j0 + 1));
        lemma_fsub_nonzero(fadd(x0, x1), w);
    } else if tr == 1 {
        assert(asg.advice_view()[0][t + 0] == fib_cell(a, b, 0));
        assert(asg.advice_view()[0][t + 2] == fib_cell(a, b, 2));
        lemma_fadd_injective(w, f1, f0);
        lemma_mod_bound(x0 + x1, MODULUS as int);
        lemma_fsub_nonzero(fadd(x0, x1), f2v);
    } else {
        assert(asg.advice_view()[0][t + 1] == fib_cell(a, b, 1));
        assert(asg.advice_view()[0][t + 2] == fib_cell(a, b, 2));
        lemma_fadd_injective(w, f0, f1);
        lemma_mod_bound(x0 + x1, MODULUS as int);
        lemma_fsub_nonzero(fadd(x0, x1), f2v);
    }
    lemma_fib2_gate_eval(cs, asg, r0, x0, x1, x2);
    let z = fsub(fadd(x0, x1), x2);
    assert(z != 0);
    lemma_mod_bound(fadd(x0, x1) - x2, MODULUS as int);
    lemma_small_mod(z as nat, MODULUS as nat);
    assert(fmul(1, z) == z);
    assert(eval_expr_spec(cs.gates@[0].polys@[0], asg, r0) == Some(z));
    assert(gate_nonzero_at(cs, asg, 0, r0));
    assert(!gate_unknown_at(cs, asg, 0, r0));
    assert(gate_fails_at(cs, asg, 0, r0));
    lemma_gate_failure_found(cs, asg, 0, r0, (cs.gates@.len() * asg.n) as nat);
}

/// For the single-column witness with a tampered public input, the
/// checker reports a copy violation on the instance-binding component,
/// and no gate failure at all.
pub proof fn fib2_tampered_public_input_copy_violation(
    cs: ConstraintSystem,
    asg: Assignment,
    a: FValue,
    b: FValue,
    t: int,
)
    requires
        fib2_system_ok(cs),
        fib2_grid_ok(cs, asg, a, b, t),
        a is Known,
        b is Known,
        asg.instance_view()[0][0].as_int() != fib_cell(a, b, 9).as_opt()->0,
    ensures
        gate_failures_spec(cs, asg).len() == 0,
        copy_failures_model(cs, asg).len() > 0,
        !satisfied_spec(cs, asg),
{
    lemma_fib2_gates_all_pass(cs, asg, a, b, t);
    lemma_fib_cell_known(a, b, 9);
    let na = cs.num_advice as int;
    let n = asg.n as int;
    let m = id_count(cs, n) as nat;
    let pair = asg.copies@[0];
    let src = pair.0;
    let dst = pair.1;
    lemma_pair_ids_in_range(cs, asg);
    lemma_cell_id(src, cs, asg);
    lemma_cell_id(dst, cs, asg);
    let x = cell_id(src, na, n);
    let y = cell_id(dst, na, n);
    assert(asg.advice_view()[0][t + 9] == fib_cell(a, b, 9));
    assert(cell_value(asg, src) == Some(fib_cell(a, b, 9).as_opt()->0));
    assert(cell_value(asg, dst) == Some(asg.instance_view()[0][0].as_int()));
    lemma_pair_connected(asg.copies@, na, n, m, asg.copies@.len(), 0);
    lemma_reps_idempotent(asg.copies@, na, n, m, asg.copies@.len());
    lemma_reps_upto_range(asg.copies@, na, n, m, asg.copies@.len());
    let rep = reps_spec(cs, asg);
    let r = rep[x] as int;
    assert(rep[r] == rep[x]);
    assert(0 <= r < m);
    assert(id_value(asg, na, x) == Some(fib_cell(a, b, 9).as_opt()->0));
    assert(id_value(asg, na, y) == Some(asg.instance_view()[0][0].as_int()));
    assert(class_conflicts(cs, asg, rep, r));
    lemma_copy_conflict_found(cs, asg, rep, r, rep.len());
}

/// Copy-constraint transitivity: when the declared pairs are X↔Y and
/// Y↔Z and X holds a concrete value while Z holds a different concrete
/// value, the checker reports exactly one conflicting component, and it
/// contains X, Y and Z.
pub proof fn copy_transitivity_single_component(
    cs: ConstraintSystem,
    asg: Assignment,
    xc: Cell,
    yc: Cell,
    zc: Cell,
)
    requires
        cs.wf(),
        asg.wf(cs),
        asg.copies@ == seq![(xc, yc), (yc, zc)],
        xc != yc,
        yc != zc,
        xc != zc,
        cell_value(asg, xc) is Some,
        cell_value(asg, zc) is Some,
        cell_value(asg, xc) != cell_value(asg, zc),
    ensures
        copy_failures_model(cs, asg).len() == 1,
        copy_failures_model(cs, asg)[0].contains(xc),
        copy_failures_model(cs, asg)[0].contains(yc),
        copy_failures_model(cs, asg)[0].contains(zc),
{
    let na = cs.num_advice as int;
    let n = asg.n as int;
    let m = id_count(cs, n) as nat;
    assert(asg.copies@[0] == (xc, yc));
    assert(asg.copies@[1] == (yc, zc));
    lemma_cell_id(xc, cs, asg);
    lemma_cell_id(yc, cs, asg);
    lemma_cell_id(zc, cs, asg);
    let x = cell_id(xc, na, n);
    let y = cell_id(yc, na, n);
    let z = cell_id(zc, na, n);
    assert(x != y && y != z && x != z);
    let rep0 = crate::checker::init_rep(m);
    let rep1 = crate::checker::reps_upto(asg.copies@, na, n, m, 1);
    let rep = reps_spec(cs, asg);
    assert(id_count(cs, n) <= (2 * crate::layout::MAX_COLUMNS) * crate::layout::MAX_ROWS)
        by (nonlinear_arith)
        requires
            cs.num_advice <= crate::layout::MAX_COLUMNS,
            cs.num_instance <= crate::layout::MAX_COLUMNS,
            0 <= asg.n <= crate::layout::MAX_ROWS,
            n == asg.n as int,
            id_count(cs, n) == (cs.num_advice + cs.num_instance) * n,
    ;
    assert(crate::checker::reps_upto(asg.copies@, na, n, m, 0) == rep0);
    assert(rep1 == crate::checker::merge_step(rep0, x, y));
    assert(rep == crate::checker::reps_upto(asg.copies@, na, n, m, 2));
    assert(rep == crate::checker::merge_step(rep1, y, z));
    assert forall|i: int| 0 <= i < m implies #[trigger] rep1[i] == (if i == y {
        x as usize
    } else {
        i as usize
    }) by {
        assert(rep0[i] == i as usize && rep0[y as int] == y as usize && rep0[x as int] == x
            as usize);
        if i != y {
            assert(i as usize != y as usize);
        }
    }
    assert forall|i: int| 0 <= i < m implies #[trigger] rep[i] == (if i == y || i == z {
        x as usize
    } else {
        i as usize
    }) by {
        assert(rep1[i] == (if i == y {
            x as usize
        } else {
            i as usize
        }));
        assert(rep1[z as int] == z as usize && rep1[y as int] == x as usize);
        if i != z {
            assert(i as usize != z as usize);
        }
        if i == y {
            assert(x as usize != z as usize);
        }
    }
    assert(rep.len() == m);
    assert(rep[x as int] as int == x as int);
    assert(id_value(asg, na, x as int) == cell_value(asg, xc));
    assert(id_value(asg, na, z as int) == cell_value(asg, zc));
    assert(class_conflicts(cs, asg, rep, x as int)) by {
        assert(rep[x as int] as int == x as int && rep[z as int] as int == x as int);
    }
    assert forall|r: int| 0 <= r < rep.len() && r != x as int implies !(rep[r] as int == r
        && class_conflicts(cs, asg, rep, r)) by {
        if rep[r] as int == r && class_conflicts(cs, asg, rep, r) {
            assert(r != y && r != z);
            let (i0, j0) = choose|i0: int, j0: int|
                0 <= i0 < rep.len() && 0 <= j0 < rep.len() && rep[i0] as int == r && rep[j0] as int
                    == r && ((#[trigger] id_value(asg, na, i0)) matches Some(vi) && ((
                #[trigger] id_value(asg, na, j0)) matches Some(vj) && vi != vj));
            assert(i0 == r && j0 == r);
            assert(false);
        }
    }
    lemma_copy_failures_single(cs, asg, rep, x as int, rep.len());
    lemma_members_contains(rep, na, n, x as int, x as int, rep.len());
    lemma_members_contains(rep, na, n, x as int, y as int, rep.len());
    lemma_members_contains(rep, na, n, x as int, z as int, rep.len());
}

/// An end-to-end corollary, executable: configuring the three-column
/// circuit on a fresh system, laying out any concretely seeded witness
/// on a grid of `2^k` rows with the matching public input, and checking
/// the result is proven to report satisfaction.
pub fn fib1_end_to_end_satisfied(k: u32, a: crate::field::Fp, b: crate::field::Fp) -> (r:
    crate::checker::CheckResult)
    requires
        4 <= k <= 20,
    ensures
        r is Satisfied,
{
    let mut cs = ConstraintSystem::new();
    let instance = cs.instance_column();
    let config = crate::fib_three_column::FiboChip::configure(&mut cs, instance);
    proof {
        assert(cs.advice_equality@ =~= seq![true, true, true]);
        assert(cs.instance_equality@ =~= seq![true]);
        assert(fib1_system_ok(cs));
    }
    let f2 = a.add(b);
    let f3 = b.add(f2);
    let f4 = f2.add(f3);
    let f5 = f3.add(f4);
    let f6 = f4.add(f5);
    let f7 = f5.add(f6);
    let f8 = f6.add(f7);
    let f9 = f7.add(f8);
    let ghost ga = FValue::Known(a);
    let ghost gb = FValue::Known(b);
    proof {
        crate::field::lemma_fp_complete(f2);
        crate::field::lemma_fp_complete(f3);
        crate::field::lemma_fp_complete(f4);
        crate::field::lemma_fp_complete(f5);
        crate::field::lemma_fp_complete(f6);
        crate::field::lemma_fp_complete(f7);
        crate::field::lemma_fp_complete(f8);
        crate::field::lemma_fp_complete(f9);
        assert(fib_cell(ga, gb, 0) == ga);
        assert(fib_cell(ga, gb, 1) == gb);
        assert(crate::layout::fv_add(ga, gb) == FValue::Known(f2));
        assert(fib_cell(ga, gb, 2) == FValue::Known(f2));
        assert(crate::layout::fv_add(gb, FValue::Known(f2)) == FValue::Known(f3));
        assert(fib_cell(ga, gb, 3) == FValue::Known(f3));
        assert(crate::layout::fv_add(FValue::Known(f2), FValue::Known(f3)) == FValue::Known(f4));
        assert(fib_cell(ga, gb, 4) == FValue::Known(f4));
        assert(crate::layout::fv_add(FValue::Known(f3), FValue::Known(f4)) == FValue::Known(f5));
        assert(fib_cell(ga, gb, 5) == FValue::Known(f5));
        assert(crate::layout::fv_add(FValue::Known(f4), FValue::Known(f5)) == FValue::Known(f6));
        assert(fib_cell(ga, gb, 6) == FValue::Known(f6));
        assert(crate::layout::fv_add(FValue::Known(f5), FValue::Known(f6)) == FValue::Known(f7));
        assert(fib_cell(ga, gb, 7) == FValue::Known(f7));
        assert(crate::layout::fv_add(FValue::Known(f6), FValue::Known(f7)) == FValue::Known(f8));
        assert(fib_cell(ga, gb, 8) == FValue::Known(f8));
        assert(crate::layout::fv_add(FValue::Known(f7), FValue::Known(f8)) == FValue::Known(f9));
        assert(fib_cell(ga, gb, 9) == FValue::Known(f9));
    }
    let kk = k as usize;
    let n: usize = 1usize << kk;
    proof {
        vstd::arithmetic::power2::lemma2_to64();
        if kk > 4 {
            vstd::arithmetic::power2::lemma_pow2_strictly_increases(4, kk as nat);
        }
        if kk < 20 {
            vstd::arithmetic::power2::lemma_pow2_strictly_increases(kk as nat, 20);
        }
        vstd::bits::lemma_usize_shl_is_mul(1usize, kk);
        assert(16 <= n <= 0x10_0000);
    }
    let pub_input = vec![f9];
    let instances = vec![pub_input];
    proof {
        assert(instances@.len() == 1);
        assert(instances@[0]@.len() == 1);
        assert(instances@[0]@[0] == f9);
    }
    let layouter0 = crate::layout::Layouter::new(cs, n, instances);
    let mut layouter = match layouter0 {
        Ok(l) => l,
        Err(_) => {
            proof {
                assert(false);
            }
            return crate::checker::CheckResult::Satisfied;
        },
    };
    let circuit = crate::fib_three_column::MyCircuit {
        a: FValue::Known(a),
        b: FValue::Known(b),
    };
    let ghost l0 = layouter;
    match circuit.lay_out(&config, &mut layouter) {
        Ok(()) => (),
        Err(_) => {
            proof {
                assert(false);
            }
            return crate::checker::CheckResult::Satisfied;
        },
    }
    proof {
        assert forall|rr: int| 0 <= rr < layouter.asg.n implies ((
        #[trigger] layouter.asg.selector_view()[0][rr]) <==> 0 <= rr < 8) by {
            if 0 <= rr < 8 {
                assert(layouter.asg.selector_view()[0][0 + rr] == true);
            } else {
                assert(layouter.asg.selector_view()[0][rr] == l0.asg.selector_view()[0][rr]);
            }
        }
        assert forall|j: int| 0 <= j < 8 implies #[trigger] layouter.asg.advice_view()[0][j]
            == fib_cell(ga, gb, j) by {
            assert(layouter.asg.advice_view()[0][0 + j] == fib_cell(ga, gb, j));
        }
        assert forall|j: int| 0 <= j < 8 implies #[trigger] layouter.asg.advice_view()[1][j]
            == fib_cell(ga, gb, j + 1) by {
            assert(layouter.asg.advice_view()[1][0 + j] == fib_cell(ga, gb, j + 1));
        }
        assert forall|j: int| 0 <= j < 8 implies #[trigger] layouter.asg.advice_view()[2][j]
            == fib_cell(ga, gb, j + 2) by {
            assert(layouter.asg.advice_view()[2][0 + j] == fib_cell(ga, gb, j + 2));
        }
        assert(layouter.asg.instance_view() =~~= l0.asg.instance_view());
        assert(layouter.asg.instance_view()[0][0] == f9);
        assert(l0.asg.copies@ =~= Seq::<(Cell, Cell)>::empty());
        assert(layouter.asg.copies@ =~= fib1_copies(0));
        assert(fib1_grid_ok(layouter.cs, layouter.asg, ga, gb, 0));
        fib1_valid_witness_satisfied(layouter.cs, layouter.asg, ga, gb, 0);
    }
    crate::checker::check_assignment(&layouter.cs, &layouter.asg)
}

/// The spec the checker's result is pinned to is a function of the
/// constraint system and the grid alone, so checking the same frozen
/// state twice always reports the same thing.
pub proof fn checker_deterministic(
    cs: ConstraintSystem,
    asg: Assignment,
    r1: crate::checker::CheckResult,
    r2: crate::checker::CheckResult,
)
    requires
        crate::checker::check_rel(cs, asg, r1),
        crate::checker::check_rel(cs, asg, r2),
    ensures
        (r1 is Satisfied) == (r2 is Satisfied),
        r1 matches crate::checker::CheckResult::Unsatisfied { gate_failures: g1, copy_failures: c1 }
            ==> (r2 matches crate::checker::CheckResult::Unsatisfied {
            gate_failures: g2,
            copy_failures: c2,
        } && g1@ == g2@ && c1@.map_values(|f: crate::checker::CopyFailure| f.cells@)
            == c2@.map_values(|f: crate::checker::CopyFailure| f.cells@)),
{
}

} // verus!

