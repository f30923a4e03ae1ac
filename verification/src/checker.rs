//! The mock checker: evaluates every gate at every row where its selector
//! is enabled, and checks every copy-constraint component for a single
//! consistent value.
//!
//! The checker consumes a frozen constraint system and grid read-only; it
//! is a pure function of them, so two runs on the same inputs always
//! report the same result.

use vstd::prelude::*;
use vstd::arithmetic::div_mod::{
    lemma_fundamental_div_mod,
    lemma_fundamental_div_mod_converse,
    lemma_mod_multiples_vanish,
};
use crate::field::{fadd, fmul, fsub, Fp};
use crate::columns::{Cell, Column, ColumnKind, MAX_ROTATION};
use crate::expression::{expr_wf, Expression};
use crate::system::{ConstraintSystem, SetupError};
use crate::layout::{Assignment, FValue, Layouter, MAX_COLUMNS, MAX_ROWS};

verus! {

/// The absolute row a query reads at: the row under test plus the
/// rotation, wrapped around the grid.
pub open spec fn wrap_row(row: int, rot: int, n: int) -> int
    recommends
        n > 0,
{
    (row + rot) % n
}

/// Computes [`wrap_row`] on machine integers.
fn wrapped_row(row: usize, rot: i64, n: usize) -> (r: usize)
    requires
        1 <= n <= MAX_ROWS,
        row < n,
        -MAX_ROTATION <= rot <= MAX_ROTATION,
    ensures
        r == wrap_row(row as int, rot as int, n as int),
        r < n,
{
    if rot >= 0 {
        (row + (rot as usize)) % n
    } else {
        let k = ((-rot) as usize) % n;
        proof {
            let ni = n as int;
            let m = (-rot) as int;
            let q = m / ni;
            lemma_fundamental_div_mod(m, ni);
            assert(ni * (q + 1) == ni * q + ni) by (nonlinear_arith);
            assert(row + n - k == ni * (q + 1) + (row + rot));
            lemma_mod_multiples_vanish(q + 1, row + rot as int, ni);
        }
        (row + n - k) % n
    }
}

/// The value of an expression at a row of the grid: `None` wherever an
/// advice query reads a cell that never received a concrete value.
pub open spec fn eval_expr_spec(e: Expression, asg: Assignment, row: int) -> Option<int>
    decreases e,
{
    match e {
        Expression::Constant(c) => Some(c.as_int()),
        Expression::Advice(col, rot) => asg.advice_view()[col as int][wrap_row(
            row,
            rot as int,
            asg.n as int,
        )].as_opt(),
        Expression::Instance(col, rot) => Some(
            asg.instance_view()[col as int][wrap_row(row, rot as int, asg.n as int)].as_int(),
        ),
        Expression::Selector(col) => Some(
            if asg.selector_view()[col as int][row] {
                1int
            } else {
                0int
            },
        ),
        Expression::Sum(a, b) => match (eval_expr_spec(*a, asg, row), eval_expr_spec(
            *b,
            asg,
            row,
        )) {
            (Some(x), Some(y)) => Some(fadd(x, y)),
            _ => None,
        },
        Expression::Difference(a, b) => match (eval_expr_spec(*a, asg, row), eval_expr_spec(
            *b,
            asg,
            row,
        )) {
            (Some(x), Some(y)) => Some(fsub(x, y)),
            _ => None,
        },
        Expression::Product(a, b) => match (eval_expr_spec(*a, asg, row), eval_expr_spec(
            *b,
            asg,
            row,
        )) {
            (Some(x), Some(y)) => Some(fmul(x, y)),
            _ => None,
        },
    }
}

/// Evaluates an expression at a row by resolving every query against the
/// grid.
pub fn eval_expr(e: &Expression, cs: &ConstraintSystem, asg: &Assignment, row: usize) -> (r: FValue)
    requires
        cs.wf(),
        asg.wf(*cs),
        expr_wf(*e, cs.num_advice as int, cs.num_instance as int, cs.num_selectors as int),
        row < asg.n,
    ensures
        r.as_opt() == eval_expr_spec(*e, *asg, row as int),
    decreases *e,
{
    match e {
        Expression::Constant(c) => FValue::Known(*c),
        Expression::Advice(col, rot) => {
            let rr = wrapped_row(row, *rot, asg.n);
            asg.advice[*col][rr]
        },
        Expression::Instance(col, rot) => {
            let rr = wrapped_row(row, *rot, asg.n);
            FValue::Known(asg.instance[*col][rr])
        },
        Expression::Selector(col) => FValue::Known(
            if asg.selectors[*col][row] {
                Fp::one()
            } else {
                Fp::zero()
            },
        ),
        Expression::Sum(a, b) => match (eval_expr(a, cs, asg, row), eval_expr(b, cs, asg, row)) {
            (FValue::Known(x), FValue::Known(y)) => FValue::Known(x.add(y)),
            _ => FValue::Unknown,
        },
        Expression::Difference(a, b) => match (eval_expr(a, cs, asg, row), eval_expr(
            b,
            cs,
            asg,
            row,
        )) {
            (FValue::Known(x), FValue::Known(y)) => FValue::Known(x.sub(y)),
            _ => FValue::Unknown,
        },
        Expression::Product(a, b) => match (eval_expr(a, cs, asg, row), eval_expr(b, cs, asg, row)) {
            (FValue::Known(x), FValue::Known(y)) => FValue::Known(x.mul(y)),
            _ => FValue::Unknown,
        },
    }
}

/// One gate failure: which gate fired at which row, and whether the
/// failure is an incomplete witness (a needed cell never received a
/// concrete value) rather than a nonzero evaluation.
#[derive(Clone, Copy, Debug, PartialEq, Eq, Structural)]
pub struct GateFailure {
    pub gate: usize,
    pub row: usize,
    pub incomplete: bool,
}

/// Whether some polynomial of a gate reads an unassigned cell at a row.
pub open spec fn gate_unknown_at(cs: ConstraintSystem, asg: Assignment, g: int, row: int) -> bool {
    exists|p: int|
        0 <= p < cs.gates@[g].polys@.len() && (#[trigger] eval_expr_spec(
            cs.gates@[g].polys@[p],
            asg,
            row,
        )) is None
}

/// Whether some polynomial of a gate evaluates to a value other than the
/// additive identity at a row.
pub open spec fn gate_nonzero_at(cs: ConstraintSystem, asg: Assignment, g: int, row: int) -> bool {
    exists|p: int|
        0 <= p < cs.gates@[g].polys@.len() && ((#[trigger] eval_expr_spec(
            cs.gates@[g].polys@[p],
            asg,
            row,
        )) matches Some(v) && v != 0)
}

/// A gate fails at a row exactly when its selector is enabled there and
/// some polynomial does not evaluate to the additive identity; rows with
/// the selector off impose no constraint.
pub open spec fn gate_fails_at(cs: ConstraintSystem, asg: Assignment, g: int, row: int) -> bool {
    &&& asg.selector_view()[cs.gates@[g].selector as int][row]
    &&& (gate_unknown_at(cs, asg, g, row) || gate_nonzero_at(cs, asg, g, row))
}

/// The failure record for one gate and row.
pub open spec fn gate_failure_entry(cs: ConstraintSystem, asg: Assignment, g: int, row: int)
    -> GateFailure {
    GateFailure { gate: g as usize, row: row as usize, incomplete: gate_unknown_at(cs, asg, g, row) }
}

/// All gate failures among the first `m` positions of a gate-major walk
/// over all gates and rows: position `k` is gate `k / n` at row `k % n`.
pub open spec fn gate_failures_upto(cs: ConstraintSystem, asg: Assignment, m: nat) -> Seq<
    GateFailure,
>
    decreases m,
{
    if m == 0 {
        Seq::empty()
    } else {
        let k = (m - 1) as int;
        let g = k / (asg.n as int);
        let row = k % (asg.n as int);
        let prev = gate_failures_upto(cs, asg, (m - 1) as nat);
        if gate_fails_at(cs, asg, g, row) {
            prev.push(gate_failure_entry(cs, asg, g, row))
        } else {
            prev
        }
    }
}

/// Every gate failure of the grid, in gate-major row order.
pub open spec fn gate_failures_spec(cs: ConstraintSystem, asg: Assignment) -> Seq<GateFailure> {
    gate_failures_upto(cs, asg, (cs.gates@.len() * asg.n) as nat)
}

/// Collects every gate failure of the grid, in gate-major row order.
fn scan_gates(cs: &ConstraintSystem, asg: &Assignment) -> (fails: Vec<GateFailure>)
    requires
        cs.wf(),
        asg.wf(*cs),
    ensures
        fails@ == gate_failures_spec(*cs, *asg),
{
    let n = asg.n;
    let mut fails: Vec<GateFailure> = Vec::new();
    let mut g: usize = 0;
    while g < cs.gates.len()
        invariant
            cs.wf(),
            asg.wf(*cs),
            n == asg.n,
            g <= cs.gates@.len(),
            fails@ == gate_failures_upto(*cs, *asg, (g * n) as nat),
        decreases cs.gates@.len() - g,
    {
        let gate = &cs.gates[g];
        let mut row: usize = 0;
        while row < n
            invariant
                cs.wf(),
                asg.wf(*cs),
                n == asg.n,
                g < cs.gates@.len(),
                gate == cs.gates@[g as int],
                row <= n,
                fails@ == gate_failures_upto(*cs, *asg, (g * n + row) as nat),
            decreases n - row,
        {
            if asg.selectors[gate.selector][row] {
                let mut unknown = false;
                let mut nonzero = false;
                let mut p: usize = 0;
                while p < gate.polys.len()
                    invariant
                        cs.wf(),
                        asg.wf(*cs),
                        n == asg.n,
                        g < cs.gates@.len(),
                        gate == cs.gates@[g as int],
                        row < n,
                        p <= gate.polys@.len(),
                        unknown == exists|q: int|
                            0 <= q < p && (#[trigger] eval_expr_spec(
                                cs.gates@[g as int].polys@[q],
                                *asg,
                                row as int,
                            )) is None,
                        nonzero == exists|q: int|
                            0 <= q < p && ((#[trigger] eval_expr_spec(
                                cs.gates@[g as int].polys@[q],
                                *asg,
                                row as int,
                            )) matches Some(v) && v != 0),
                    decreases gate.polys@.len() - p,
                {
                    match eval_expr(&gate.polys[p], cs, asg, row) {
                        FValue::Unknown => {
                            unknown = true;
                        },
                        FValue::Known(x) => {
                            if !x.is_zero() {
                                nonzero = true;
                            }
                        },
                    }
                    p = p + 1;
                }
                if unknown || nonzero {
                    fails.push(
                        GateFailure { gate: g, row, incomplete: unknown },
                    );
                }
            }
            proof {
                lemma_fundamental_div_mod_converse(
                    g * n + row,
                    n as int,
                    g as int,
                    row as int,
                );
            }
            row = row + 1;
        }
        proof {
            assert((g + 1) * n == g * n + n) by (nonlinear_arith);
        }
        g = g + 1;
    }
    fails
}

/// The flat index of a copy-eligible cell in the `(advice ++ instance) ×
/// rows` id space.
pub open spec fn cell_id(c: Cell, na: int, n: int) -> int {
    match c.column.kind {
        ColumnKind::Advice => c.column.index * n + c.row,
        ColumnKind::Instance => (na + c.column.index) * n + c.row,
        ColumnKind::Selector => 0,
    }
}

/// The cell a flat id stands for.
pub open spec fn id_cell(id: int, na: int, n: int) -> Cell {
    if id < na * n {
        Cell {
            column: Column { kind: ColumnKind::Advice, index: (id / n) as usize },
            row: (id % n) as usize,
        }
    } else {
        Cell {
            column: Column { kind: ColumnKind::Instance, index: (id / n - na) as usize },
            row: (id % n) as usize,
        }
    }
}

/// How many flat cell ids the grid has.
pub open spec fn id_count(cs: ConstraintSystem, n: int) -> int {
    (cs.num_advice + cs.num_instance) * n
}

/// The value the grid holds at a flat cell id: advice may be unknown,
/// instance rows always carry a concrete public input.
pub open spec fn id_value(asg: Assignment, na: int, id: int) -> Option<int> {
    let n = asg.n as int;
    if id < na * n {
        asg.advice_view()[id / n][id % n].as_opt()
    } else {
        Some(asg.instance_view()[id / n - na][id % n].as_int())
    }
}

/// A copy-eligible cell's id is in range, and reading the grid through
/// the id reads the cell itself.
pub proof fn lemma_cell_id(c: Cell, cs: ConstraintSystem, asg: Assignment)
    requires
        asg.wf(cs),
        crate::layout::copy_cell_ok(c, cs, asg.n as int),
    ensures
        0 <= cell_id(c, cs.num_advice as int, asg.n as int) < id_count(cs, asg.n as int),
        id_cell(cell_id(c, cs.num_advice as int, asg.n as int), cs.num_advice as int, asg.n as int)
            == c,
        id_value(asg, cs.num_advice as int, cell_id(c, cs.num_advice as int, asg.n as int))
            == cell_value(asg, c),
{
    let na = cs.num_advice as int;
    let ni = cs.num_instance as int;
    let n = asg.n as int;
    match c.column.kind {
        ColumnKind::Advice => {
            let i = c.column.index as int;
            let id = i * n + c.row;
            assert(i * n + c.row < na * n && (i + 1) * n <= na * n) by (nonlinear_arith)
                requires
                    0 <= i < na,
                    0 <= c.row < n,
            ;
            assert(na * n <= (na + ni) * n) by (nonlinear_arith)
                requires
                    0 <= na,
                    0 <= ni,
                    0 <= n,
            ;
            lemma_fundamental_div_mod_converse(id, n, i, c.row as int);
        },
        ColumnKind::Instance => {
            let i = c.column.index as int;
            let id = (na + i) * n + c.row;
            assert((na + i) * n + c.row < (na + ni) * n && na * n <= (na + i) * n)
                by (nonlinear_arith)
                requires
                    0 <= i < ni,
                    0 <= c.row < n,
                    0 <= na,
            ;
            lemma_fundamental_div_mod_converse(id, n, na + i, c.row as int);
        },
        ColumnKind::Selector => {},
    }
}

/// The value the grid holds at a copy-eligible cell.
pub open spec fn cell_value(asg: Assignment, c: Cell) -> Option<int> {
    match c.column.kind {
        ColumnKind::Advice => asg.advice_view()[c.column.index as int][c.row as int].as_opt(),
        ColumnKind::Instance => Some(
            asg.instance_view()[c.column.index as int][c.row as int].as_int(),
        ),
        ColumnKind::Selector => None,
    }
}

/// Computes [`cell_id`] on machine integers.
fn cell_to_id(c: Cell, na: usize, n: usize) -> (id: usize)
    requires
        na <= MAX_COLUMNS,
        1 <= n <= MAX_ROWS,
        c.column.index <= MAX_COLUMNS,
        c.row < n,
        c.column.kind != ColumnKind::Selector,
    ensures
        id == cell_id(c, na as int, n as int),
{
    proof {
        assert((na + c.column.index) * n + c.row <= (2 * MAX_COLUMNS) * MAX_ROWS + MAX_ROWS)
            by (nonlinear_arith)
            requires
                na <= MAX_COLUMNS,
                c.column.index <= MAX_COLUMNS,
                1 <= n <= MAX_ROWS,
                c.row < n,
        ;
        assert(c.column.index * n + c.row <= (2 * MAX_COLUMNS) * MAX_ROWS + MAX_ROWS)
            by (nonlinear_arith)
            requires
                c.column.index <= MAX_COLUMNS,
                1 <= n <= MAX_ROWS,
                c.row < n,
        ;
    }
    match c.column.kind {
        ColumnKind::Advice => c.column.index * n + c.row,
        ColumnKind::Instance => (na + c.column.index) * n + c.row,
        ColumnKind::Selector => 0,
    }
}

/// The grid value at a flat cell id, on machine integers.
fn id_to_value(cs: &ConstraintSystem, asg: &Assignment, id: usize) -> (v: FValue)
    requires
        cs.wf(),
        asg.wf(*cs),
        id < id_count(*cs, asg.n as int),
    ensures
        v.as_opt() == id_value(*asg, cs.num_advice as int, id as int),
{
    let na = cs.num_advice;
    let n = asg.n;
    proof {
        lemma_id_split(*cs, asg.n as int, id as int);
        assert(na * n <= MAX_COLUMNS * MAX_ROWS) by (nonlinear_arith)
            requires
                na <= MAX_COLUMNS,
                n <= MAX_ROWS,
                0 <= na,
                0 <= n,
        ;
    }
    if id < na * n {
        asg.advice[id / n][id % n]
    } else {
        FValue::Known(asg.instance[id / n - na][id % n])
    }
}

/// The cell a flat id stands for, on machine integers.
fn id_to_cell(cs: &ConstraintSystem, asg: &Assignment, id: usize) -> (c: Cell)
    requires
        cs.wf(),
        asg.wf(*cs),
        id < id_count(*cs, asg.n as int),
    ensures
        c == id_cell(id as int, cs.num_advice as int, asg.n as int),
{
    let na = cs.num_advice;
    let n = asg.n;
    proof {
        lemma_id_split(*cs, asg.n as int, id as int);
        assert(na * n <= MAX_COLUMNS * MAX_ROWS) by (nonlinear_arith)
            requires
                na <= MAX_COLUMNS,
                n <= MAX_ROWS,
                0 <= na,
                0 <= n,
        ;
    }
    if id < na * n {
        Cell { column: Column { kind: ColumnKind::Advice, index: id / n }, row: id % n }
    } else {
        Cell { column: Column { kind: ColumnKind::Instance, index: id / n - na }, row: id % n }
    }
}

/// Splits a flat id into its column slot and row: the slot is the id
/// divided by the row count, and lies among the advice slots exactly when
/// the id is below the advice block.
pub proof fn lemma_id_split(cs: ConstraintSystem, n: int, id: int)
    requires
        n >= 1,
        0 <= id < id_count(cs, n),
    ensures
        0 <= id % n < n,
        id < cs.num_advice * n ==> 0 <= id / n < cs.num_advice,
        id >= cs.num_advice * n ==> cs.num_advice <= id / n < cs.num_advice + cs.num_instance,
{
    let na = cs.num_advice as int;
    let ni = cs.num_instance as int;
    vstd::arithmetic::div_mod::lemma_mod_bound(id, n);
    vstd::arithmetic::div_mod::lemma_fundamental_div_mod(id, n);
    let q = id / n;
    let r = id % n;
    assert(q * n <= id) by (nonlinear_arith)
        requires
            id == n * q + r,
            r >= 0,
    ;
    if id < na * n {
        assert(q < na) by (nonlinear_arith)
            requires
                q * n <= id,
                id < na * n,
                n >= 1,
        ;
        assert(q >= 0) by (nonlinear_arith)
            requires
                id == n * q + r,
                0 <= r < n,
                id >= 0,
                n >= 1,
        ;
    } else {
        assert(q >= na) by (nonlinear_arith)
            requires
                id == n * q + r,
                0 <= r < n,
                id >= na * n,
                n >= 1,
        ;
        assert(q < na + ni) by (nonlinear_arith)
            requires
                q * n <= id,
                id < (na + ni) * n,
                n >= 1,
        ;
    }
}

/// Every cell its own representative: the starting point of the
/// union of copy-constraint components.
pub open spec fn init_rep(m: nat) -> Seq<usize> {
    Seq::new(m, |i: int| i as usize)
}

/// Merges the components of two ids: every cell of `y`'s component is
/// re-labelled with `x`'s representative.
pub open spec fn merge_step(rep: Seq<usize>, x: int, y: int) -> Seq<usize>
    recommends
        0 <= x < rep.len(),
        0 <= y < rep.len(),
{
    Seq::new(rep.len(), |i: int| if rep[i] == rep[y] { rep[x] } else { rep[i] })
}

/// The representative array after the first `k` copy pairs are merged.
pub open spec fn reps_upto(copies: Seq<(Cell, Cell)>, na: int, n: int, m: nat, k: nat) -> Seq<usize>
    decreases k,
{
    if k == 0 {
        init_rep(m)
    } else {
        let prev = reps_upto(copies, na, n, m, (k - 1) as nat);
        merge_step(
            prev,
            cell_id(copies[k - 1].0, na, n),
            cell_id(copies[k - 1].1, na, n),
        )
    }
}

/// The representative array of the grid's copy-constraint graph: two ids
/// share a representative exactly when their cells are joined by the
/// declared pairs.
pub open spec fn reps_spec(cs: ConstraintSystem, asg: Assignment) -> Seq<usize> {
    reps_upto(
        asg.copies@,
        cs.num_advice as int,
        asg.n as int,
        id_count(cs, asg.n as int) as nat,
        asg.copies@.len(),
    )
}

/// Merging keeps every representative inside the id range.
pub proof fn lemma_reps_upto_range(copies: Seq<(Cell, Cell)>, na: int, n: int, m: nat, k: nat)
    requires
        k <= copies.len(),
        forall|p: int|
            0 <= p < copies.len() ==> 0 <= cell_id((#[trigger] copies[p]).0, na, n) < m && 0
                <= cell_id(copies[p].1, na, n) < m,
    ensures
        reps_upto(copies, na, n, m, k).len() == m,
        forall|i: int|
            0 <= i < m ==> (#[trigger] reps_upto(copies, na, n, m, k)[i]) < m,
    decreases k,
{
    if k == 0 {
    } else {
        lemma_reps_upto_range(copies, na, n, m, (k - 1) as nat);
    }
}

/// Computes the representative array of the grid's copy-constraint
/// graph.
fn compute_reps(cs: &ConstraintSystem, asg: &Assignment) -> (rep: Vec<usize>)
    requires
        cs.wf(),
        asg.wf(*cs),
    ensures
        rep@ == reps_spec(*cs, *asg),
        rep@.len() == id_count(*cs, asg.n as int),
{
    let na = cs.num_advice;
    let n = asg.n;
    proof {
        assert((na + cs.num_instance) * n <= (2 * MAX_COLUMNS) * MAX_ROWS) by (nonlinear_arith)
            requires
                na <= MAX_COLUMNS,
                cs.num_instance <= MAX_COLUMNS,
                0 <= n <= MAX_ROWS,
        ;
    }
    let m = (na + cs.num_instance) * n;
    let mut rep: Vec<usize> = Vec::new();
    let mut i: usize = 0;
    while i < m
        invariant
            i <= m,
            rep@.len() == i,
            forall|j: int| 0 <= j < i ==> rep@[j] == j as usize,
        decreases m - i,
    {
        rep.push(i);
        i = i + 1;
    }
    proof {
        assert(rep@ =~= init_rep(m as nat));
    }
    let mut k: usize = 0;
    while k < asg.copies.len()
        invariant
            cs.wf(),
            asg.wf(*cs),
            na == cs.num_advice,
            n == asg.n,
            m == id_count(*cs, asg.n as int),
            k <= asg.copies@.len(),
            rep@.len() == m,
            rep@ == reps_upto(
                asg.copies@,
                na as int,
                n as int,
                m as nat,
                k as nat,
            ),
        decreases asg.copies@.len() - k,
    {
        let (c0, c1) = asg.copies[k];
        let x = cell_to_id(c0, na, n);
        let y = cell_to_id(c1, na, n);
        proof {
            lemma_cell_id(c0, *cs, *asg);
            lemma_cell_id(c1, *cs, *asg);
        }
        let rx = rep[x];
        let ry = rep[y];
        let ghost prev = rep@;
        let mut i2: usize = 0;
        while i2 < m
            invariant
                i2 <= m,
                m == prev.len(),
                rep@.len() == m,
                0 <= x < m,
                0 <= y < m,
                rx == prev[x as int],
                ry == prev[y as int],
                forall|j: int|
                    0 <= j < i2 ==> rep@[j] == (if prev[j] == ry {
                        rx
                    } else {
                        prev[j]
                    }),
                forall|j: int| i2 <= j < m ==> rep@[j] == prev[j],
            decreases m - i2,
        {
            if rep[i2] == ry {
                rep.set(i2, rx);
            }
            i2 = i2 + 1;
        }
        proof {
            assert(rep@ =~= merge_step(prev, x as int, y as int));
        }
        k = k + 1;
    }
    rep
}

/// Whether the component labelled `r` holds two distinct concrete
/// values. Cells that never received a value are ignored here by
/// intent: a copy component conflicts only between concrete values,
/// while a cell a gate needs but never received is reported through
/// gate scanning as an incomplete witness.
pub open spec fn class_conflicts(cs: ConstraintSystem, asg: Assignment, rep: Seq<usize>, r: int)
    -> bool {
    exists|i: int, j: int|
        0 <= i < rep.len() && 0 <= j < rep.len() && rep[i] as int == r && rep[j] as int == r && ((
        #[trigger] id_value(asg, cs.num_advice as int, i)) matches Some(vi) && ((
        #[trigger] id_value(asg, cs.num_advice as int, j)) matches Some(vj) && vi != vj))
}

/// The cells among the first `k` ids whose component label is `r`, in id
/// order.
pub open spec fn members_cells_upto(rep: Seq<usize>, na: int, n: int, r: int, k: nat) -> Seq<Cell>
    decreases k,
{
    if k == 0 {
        Seq::empty()
    } else {
        let prev = members_cells_upto(rep, na, n, r, (k - 1) as nat);
        if rep[k - 1] as int == r {
            prev.push(id_cell(k - 1, na, n))
        } else {
            prev
        }
    }
}

/// The cells of the component labelled `r`.
pub open spec fn copy_failure_cells(cs: ConstraintSystem, asg: Assignment, rep: Seq<usize>, r: int)
    -> Seq<Cell> {
    members_cells_upto(rep, cs.num_advice as int, asg.n as int, r, rep.len())
}

/// The conflicting components among those labelled by the first `k` ids:
/// one member list per component whose label is its own representative
/// and whose members hold two distinct concrete values.
pub open spec fn copy_failures_upto(cs: ConstraintSystem, asg: Assignment, rep: Seq<usize>, k: nat)
    -> Seq<Seq<Cell>>
    decreases k,
{
    if k == 0 {
        Seq::empty()
    } else {
        let prev = copy_failures_upto(cs, asg, rep, (k - 1) as nat);
        let r = (k - 1) as int;
        if rep[r] as int == r && class_conflicts(cs, asg, rep, r) {
            prev.push(copy_failure_cells(cs, asg, rep, r))
        } else {
            prev
        }
    }
}

/// Every conflicting copy-constraint component of the grid, as a member
/// list per component, in representative order.
pub open spec fn copy_failures_model(cs: ConstraintSystem, asg: Assignment) -> Seq<Seq<Cell>> {
    copy_failures_upto(cs, asg, reps_spec(cs, asg), reps_spec(cs, asg).len())
}

/// One conflicting copy-constraint component: the cells of a component
/// that holds two or more distinct concrete values.
#[derive(Clone, Debug, PartialEq, Eq)]
pub struct CopyFailure {
    pub cells: Vec<Cell>,
}

/// Collects every conflicting copy-constraint component.
fn scan_copies(cs: &ConstraintSystem, asg: &Assignment, rep: &Vec<usize>) -> (fails: Vec<
    CopyFailure,
>)
    requires
        cs.wf(),
        asg.wf(*cs),
        rep@.len() == id_count(*cs, asg.n as int),
    ensures
        fails@.map_values(|f: CopyFailure| f.cells@) == copy_failures_upto(
            *cs,
            *asg,
            rep@,
            rep@.len() as nat,
        ),
{
    let m = rep.len();
    let mut fails: Vec<CopyFailure> = Vec::new();
    let mut r: usize = 0;
    while r < m
        invariant
            cs.wf(),
            asg.wf(*cs),
            m == rep@.len(),
            m == id_count(*cs, asg.n as int),
            r <= m,
            fails@.map_values(|f: CopyFailure| f.cells@) == copy_failures_upto(
                *cs,
                *asg,
                rep@,
                r as nat,
            ),
        decreases m - r,
    {
        if rep[r] == r {
            let mut conflict = false;
            let mut has_val = false;
            let mut val = Fp::zero();
            let mut i: usize = 0;
            while i < m
                invariant
                    cs.wf(),
                    asg.wf(*cs),
                    m == rep@.len(),
                    m == id_count(*cs, asg.n as int),
                    r < m,
                    i <= m,
                    conflict ==> class_conflicts(*cs, *asg, rep@, r as int),
                    !has_val ==> !conflict,
                    !has_val ==> (forall|w: int|
                        0 <= w < i && rep@[w] as int == r ==> (#[trigger] id_value(
                            *asg,
                            cs.num_advice as int,
                            w,
                        )) is None),
                    has_val ==> (exists|w: int|
                        0 <= w < i && rep@[w] as int == r && (#[trigger] id_value(
                            *asg,
                            cs.num_advice as int,
                            w,
                        )) == Some(val.as_int())),
                    !conflict && has_val ==> (forall|w: int|
                        0 <= w < i && rep@[w] as int == r && (#[trigger] id_value(
                            *asg,
                            cs.num_advice as int,
                            w,
                        )) is Some ==> id_value(*asg, cs.num_advice as int, w) == Some(
                            val.as_int(),
                        )),
                decreases m - i,
            {
                if rep[i] == r {
                    match id_to_value(cs, asg, i) {
                        FValue::Known(x) => {
                            if !has_val {
                                has_val = true;
                                val = x;
                            } else if !(x.eq_value(val)) {
                                conflict = true;
                            }
                        },
                        FValue::Unknown => {},
                    }
                }
                i = i + 1;
            }
            if conflict {
                let mut cells: Vec<Cell> = Vec::new();
                let mut w: usize = 0;
                while w < m
                    invariant
                        cs.wf(),
                        asg.wf(*cs),
                        m == rep@.len(),
                        m == id_count(*cs, asg.n as int),
                        r < m,
                        w <= m,
                        cells@ == members_cells_upto(
                            rep@,
                            cs.num_advice as int,
                            asg.n as int,
                            r as int,
                            w as nat,
                        ),
                    decreases m - w,
                {
                    if rep[w] == r {
                        cells.push(id_to_cell(cs, asg, w));
                    }
                    w = w + 1;
                }
                fails.push(CopyFailure { cells });
                proof {
                    assert(fails@.map_values(|f: CopyFailure| f.cells@) =~= copy_failures_upto(
                        *cs,
                        *asg,
                        rep@,
                        (r + 1) as nat,
                    ));
                }
            } else {
                proof {
                    if class_conflicts(*cs, *asg, rep@, r as int) {
                        let (i0, j0) = choose|i0: int, j0: int|
                            0 <= i0 < rep@.len() && 0 <= j0 < rep@.len() && rep@[i0] as int == r
                                && rep@[j0] as int == r && ((#[trigger] id_value(
                                *asg,
                                cs.num_advice as int,
                                i0,
                            )) matches Some(vi) && ((#[trigger] id_value(
                                *asg,
                                cs.num_advice as int,
                                j0,
                            )) matches Some(vj) && vi != vj));
                        assert(id_value(*asg, cs.num_advice as int, i0) == Some(val.as_int()));
                        assert(id_value(*asg, cs.num_advice as int, j0) == Some(val.as_int()));
                    }
                }
            }
        }
        r = r + 1;
    }
    fails
}

/// What the checker reports: satisfied, or the full lists of gate failures
/// and of conflicting copy-constraint components.
#[derive(Debug, PartialEq, Eq)]
pub enum CheckResult {
    /// Every gate holds at every enabled row and every copy-constraint
    /// component is consistent.
    Satisfied,
    /// At least one constraint is violated; both complete failure lists
    /// are reported.
    Unsatisfied { gate_failures: Vec<GateFailure>, copy_failures: Vec<CopyFailure> },
}

impl CheckResult {
    /// Whether the report is `Satisfied`.
    pub fn is_satisfied(&self) -> (r: bool)
        ensures
            r == (*self is Satisfied),
    {
        matches!(self, CheckResult::Satisfied)
    }
}

/// Whether a frozen constraint system and grid satisfy every declared
/// constraint.
pub open spec fn satisfied_spec(cs: ConstraintSystem, asg: Assignment) -> bool {
    gate_failures_spec(cs, asg).len() == 0 && copy_failures_model(cs, asg).len() == 0
}

/// Verifies every gate and copy constraint of a frozen grid and reports
/// either satisfaction or every violation found; a pure function of its
/// arguments, so two runs always yield identical results.
pub fn check_assignment(cs: &ConstraintSystem, asg: &Assignment) -> (r: CheckResult)
    requires
        cs.wf(),
        asg.wf(*cs),
    ensures
        (r is Satisfied) == satisfied_spec(*cs, *asg),
        r matches CheckResult::Unsatisfied { gate_failures, copy_failures } ==> gate_failures@
            == gate_failures_spec(*cs, *asg) && copy_failures@.map_values(|f: CopyFailure| f.cells@)
            == copy_failures_model(*cs, *asg),
{
    let gf = scan_gates(cs, asg);
    let rep = compute_reps(cs, asg);
    let cf = scan_copies(cs, asg, &rep);
    proof {
        assert(cf@.map_values(|f: CopyFailure| f.cells@).len() == cf@.len());
    }
    if gf.len() == 0 && cf.len() == 0 {
        CheckResult::Satisfied
    } else {
        CheckResult::Unsatisfied { gate_failures: gf, copy_failures: cf }
    }
}

/// If no gate fails at any position of the grid, the failure list is
/// empty.
pub proof fn lemma_gate_failures_empty(cs: ConstraintSystem, asg: Assignment, m: nat)
    requires
        asg.n >= 1,
        m <= cs.gates@.len() * asg.n,
        forall|g: int, row: int|
            0 <= g < cs.gates@.len() && 0 <= row < asg.n ==> !gate_fails_at(cs, asg, g, row),
    ensures
        gate_failures_upto(cs, asg, m).len() == 0,
    decreases m,
{
    if m > 0 {
        lemma_gate_failures_empty(cs, asg, (m - 1) as nat);
        let n = asg.n as int;
        let k = (m - 1) as int;
        vstd::arithmetic::div_mod::lemma_mod_bound(k, n);
        lemma_fundamental_div_mod(k, n);
        let q = k / n;
        let r = k % n;
        assert(0 <= q < cs.gates@.len()) by (nonlinear_arith)
            requires
                k == n * q + r,
                0 <= r < n,
                0 <= k < cs.gates@.len() * n,
                n >= 1,
        ;
    }
}

/// A failing position appears in the failure list.
pub proof fn lemma_gate_failure_found(cs: ConstraintSystem, asg: Assignment, g: int, row: int, m: nat)
    requires
        asg.n >= 1,
        0 <= g,
        0 <= row < asg.n,
        g * asg.n + row < m,
        gate_fails_at(cs, asg, g, row),
    ensures
        gate_failures_upto(cs, asg, m).contains(gate_failure_entry(cs, asg, g, row)),
    decreases m,
{
    let n = asg.n as int;
    let k = (m - 1) as int;
    let prev = gate_failures_upto(cs, asg, (m - 1) as nat);
    if k == g * n + row {
        lemma_fundamental_div_mod_converse(k, n, g, row);
        let full = gate_failures_upto(cs, asg, m);
        assert(full == prev.push(gate_failure_entry(cs, asg, g, row)));
        assert(full[prev.len() as int] == gate_failure_entry(cs, asg, g, row));
    } else {
        lemma_gate_failure_found(cs, asg, g, row, (m - 1) as nat);
        let e = gate_failure_entry(cs, asg, g, row);
        let i = choose|i: int| 0 <= i < prev.len() && prev[i] == e;
        assert(gate_failures_upto(cs, asg, m)[i] == e);
    }
}

/// Whether every declared copy pair joins two cells that hold the same
/// value (where unknown equals only unknown).
pub open spec fn copy_values_match(asg: Assignment) -> bool {
    forall|p: int|
        0 <= p < asg.copies@.len() ==> cell_value(asg, (#[trigger] asg.copies@[p]).0)
            == cell_value(asg, asg.copies@[p].1)
}

/// Every declared pair's two cell ids are inside the id space.
pub proof fn lemma_pair_ids_in_range(cs: ConstraintSystem, asg: Assignment)
    requires
        cs.wf(),
        asg.wf(cs),
    ensures
        forall|p: int|
            0 <= p < asg.copies@.len() ==> 0 <= cell_id(
                (#[trigger] asg.copies@[p]).0,
                cs.num_advice as int,
                asg.n as int,
            ) < id_count(cs, asg.n as int) && 0 <= cell_id(
                asg.copies@[p].1,
                cs.num_advice as int,
                asg.n as int,
            ) < id_count(cs, asg.n as int),
{
    assert forall|p: int| 0 <= p < asg.copies@.len() implies 0 <= cell_id(
        (#[trigger] asg.copies@[p]).0,
        cs.num_advice as int,
        asg.n as int,
    ) < id_count(cs, asg.n as int) && 0 <= cell_id(
        asg.copies@[p].1,
        cs.num_advice as int,
        asg.n as int,
    ) < id_count(cs, asg.n as int) by {
        lemma_cell_id(asg.copies@[p].0, cs, asg);
        lemma_cell_id(asg.copies@[p].1, cs, asg);
    }
}

/// When every declared pair joins equal-valued cells, two ids that share
/// a representative hold equal values: merging only ever joins components
/// whose values agree.
pub proof fn lemma_reps_respect_values(cs: ConstraintSystem, asg: Assignment, k: nat, i: int, j: int)
    requires
        cs.wf(),
        asg.wf(cs),
        k <= asg.copies@.len(),
        copy_values_match(asg),
        0 <= i < id_count(cs, asg.n as int),
        0 <= j < id_count(cs, asg.n as int),
        reps_upto(
            asg.copies@,
            cs.num_advice as int,
            asg.n as int,
            id_count(cs, asg.n as int) as nat,
            k,
        )[i] == reps_upto(
            asg.copies@,
            cs.num_advice as int,
            asg.n as int,
            id_count(cs, asg.n as int) as nat,
            k,
        )[j],
    ensures
        id_value(asg, cs.num_advice as int, i) == id_value(asg, cs.num_advice as int, j),
    decreases k,
{
    let na = cs.num_advice as int;
    let n = asg.n as int;
    let m = id_count(cs, n) as nat;
    let rep = reps_upto(asg.copies@, na, n, m, k);
    lemma_pair_ids_in_range(cs, asg);
    lemma_reps_upto_range(asg.copies@, na, n, m, k);
    assert(id_count(cs, n) <= (2 * MAX_COLUMNS) * MAX_ROWS) by (nonlinear_arith)
        requires
            cs.num_advice <= MAX_COLUMNS,
            cs.num_instance <= MAX_COLUMNS,
            0 <= asg.n <= MAX_ROWS,
            n == asg.n as int,
            id_count(cs, n) == (cs.num_advice + cs.num_instance) * n,
    ;
    if k == 0 {
        assert(rep[i] == i as usize && rep[j] == j as usize);
        assert(i == j);
    } else {
        lemma_reps_upto_range(asg.copies@, na, n, m, (k - 1) as nat);
        let prev = reps_upto(asg.copies@, na, n, m, (k - 1) as nat);
        let pair = asg.copies@[k - 1];
        let x = cell_id(pair.0, na, n);
        let y = cell_id(pair.1, na, n);
        lemma_cell_id(pair.0, cs, asg);
        lemma_cell_id(pair.1, cs, asg);
        assert(rep == merge_step(prev, x, y));
        assert(rep[i] == (if prev[i] == prev[y] {
            prev[x]
        } else {
            prev[i]
        }));
        assert(rep[j] == (if prev[j] == prev[y] {
            prev[x]
        } else {
            prev[j]
        }));
        assert(id_value(asg, na, x) == id_value(asg, na, y));
        if prev[i] == prev[y] && prev[j] == prev[y] {
            lemma_reps_respect_values(cs, asg, (k - 1) as nat, i, y);
            lemma_reps_respect_values(cs, asg, (k - 1) as nat, j, y);
        } else if prev[i] == prev[y] {
            assert(rep[j] == prev[j] && rep[i] == prev[x]);
            lemma_reps_respect_values(cs, asg, (k - 1) as nat, j, x);
            lemma_reps_respect_values(cs, asg, (k - 1) as nat, i, y);
        } else if prev[j] == prev[y] {
            assert(rep[i] == prev[i] && rep[j] == prev[x]);
            lemma_reps_respect_values(cs, asg, (k - 1) as nat, i, x);
            lemma_reps_respect_values(cs, asg, (k - 1) as nat, j, y);
        } else {
            lemma_reps_respect_values(cs, asg, (k - 1) as nat, i, j);
        }
    }
}

/// When every declared pair joins equal-valued cells, no component
/// conflicts and the copy-failure list is empty.
pub proof fn lemma_copy_failures_empty(cs: ConstraintSystem, asg: Assignment, k: nat)
    requires
        cs.wf(),
        asg.wf(cs),
        copy_values_match(asg),
        k <= id_count(cs, asg.n as int),
    ensures
        copy_failures_upto(cs, asg, reps_spec(cs, asg), k).len() == 0,
    decreases k,
{
    if k > 0 {
        lemma_copy_failures_empty(cs, asg, (k - 1) as nat);
        let rep = reps_spec(cs, asg);
        let r = (k - 1) as int;
        if rep[r] as int == r && class_conflicts(cs, asg, rep, r) {
            let (i0, j0) = choose|i0: int, j0: int|
                0 <= i0 < rep.len() && 0 <= j0 < rep.len() && rep[i0] as int == r && rep[j0] as int
                    == r && ((#[trigger] id_value(asg, cs.num_advice as int, i0)) matches Some(vi)
                    && ((#[trigger] id_value(asg, cs.num_advice as int, j0)) matches Some(vj) && vi
                    != vj));
            lemma_pair_ids_in_range(cs, asg);
            lemma_reps_upto_range(
                asg.copies@,
                cs.num_advice as int,
                asg.n as int,
                id_count(cs, asg.n as int) as nat,
                asg.copies@.len(),
            );
            lemma_reps_respect_values(cs, asg, asg.copies@.len(), i0, j0);
            assert(false);
        }
    }
}

/// Each declared pair ends up in one component.
pub proof fn lemma_pair_connected(
    copies: Seq<(Cell, Cell)>,
    na: int,
    n: int,
    m: nat,
    k: nat,
    p: int,
)
    requires
        0 <= p < k <= copies.len(),
        forall|q: int|
            0 <= q < copies.len() ==> 0 <= cell_id((#[trigger] copies[q]).0, na, n) < m && 0
                <= cell_id(copies[q].1, na, n) < m,
    ensures
        ({
            let rep = reps_upto(copies, na, n, m, k);
            rep[cell_id(copies[p].0, na, n)] == rep[cell_id(copies[p].1, na, n)]
        }),
    decreases k,
{
    let rep = reps_upto(copies, na, n, m, k);
    let prev = reps_upto(copies, na, n, m, (k - 1) as nat);
    lemma_reps_upto_range(copies, na, n, m, k);
    lemma_reps_upto_range(copies, na, n, m, (k - 1) as nat);
    let x = cell_id(copies[k - 1].0, na, n);
    let y = cell_id(copies[k - 1].1, na, n);
    if p == k - 1 {
        assert(rep[x] == prev[x]);
        assert(rep[y] == prev[x]);
    } else {
        lemma_pair_connected(copies, na, n, m, (k - 1) as nat, p);
        let x0 = cell_id(copies[p].0, na, n);
        let y0 = cell_id(copies[p].1, na, n);
        assert(rep[x0] == (if prev[x0] == prev[y] {
            prev[x]
        } else {
            prev[x0]
        }));
        assert(rep[y0] == (if prev[y0] == prev[y] {
            prev[x]
        } else {
            prev[y0]
        }));
    }
}

/// Every id's representative is its own representative.
pub proof fn lemma_reps_idempotent(copies: Seq<(Cell, Cell)>, na: int, n: int, m: nat, k: nat)
    requires
        k <= copies.len(),
        forall|q: int|
            0 <= q < copies.len() ==> 0 <= cell_id((#[trigger] copies[q]).0, na, n) < m && 0
                <= cell_id(copies[q].1, na, n) < m,
    ensures
        ({
            let rep = reps_upto(copies, na, n, m, k);
            forall|i: int| 0 <= i < m ==> rep[rep[i] as int] == rep[i]
        }),
    decreases k,
{
    let rep = reps_upto(copies, na, n, m, k);
    if k == 0 {
    } else {
        lemma_reps_idempotent(copies, na, n, m, (k - 1) as nat);
        lemma_reps_upto_range(copies, na, n, m, (k - 1) as nat);
        let prev = reps_upto(copies, na, n, m, (k - 1) as nat);
        let x = cell_id(copies[k - 1].0, na, n);
        let y = cell_id(copies[k - 1].1, na, n);
        assert forall|i: int| 0 <= i < m implies rep[rep[i] as int] == rep[i] by {
            if prev[i] == prev[y] {
                assert(rep[i] == prev[x]);
                assert(prev[prev[x] as int] == prev[x]);
            } else {
                assert(rep[i] == prev[i]);
                assert(prev[prev[i] as int] == prev[i]);
            }
        }
    }
}

/// A conflicting component whose label is its own representative appears
/// in the copy-failure list.
pub proof fn lemma_copy_conflict_found(
    cs: ConstraintSystem,
    asg: Assignment,
    rep: Seq<usize>,
    r: int,
    k: nat,
)
    requires
        0 <= r < k <= rep.len(),
        rep[r] as int == r,
        class_conflicts(cs, asg, rep, r),
    ensures
        copy_failures_upto(cs, asg, rep, k).len() > 0,
    decreases k,
{
    if r == k - 1 {
    } else {
        lemma_copy_conflict_found(cs, asg, rep, r, (k - 1) as nat);
    }
}

/// When exactly one component conflicts, the copy-failure list holds
/// exactly its member list.
pub proof fn lemma_copy_failures_single(
    cs: ConstraintSystem,
    asg: Assignment,
    rep: Seq<usize>,
    r0: int,
    k: nat,
)
    requires
        0 <= r0 < rep.len(),
        k <= rep.len(),
        rep[r0] as int == r0,
        class_conflicts(cs, asg, rep, r0),
        forall|r: int|
            0 <= r < rep.len() && r != r0 ==> !(rep[r] as int == r && class_conflicts(
                cs,
                asg,
                rep,
                r,
            )),
    ensures
        copy_failures_upto(cs, asg, rep, k).len() == (if r0 < k {
            1int
        } else {
            0int
        }),
        r0 < k ==> copy_failures_upto(cs, asg, rep, k)[0] == copy_failure_cells(cs, asg, rep, r0),
    decreases k,
{
    if k > 0 {
        lemma_copy_failures_single(cs, asg, rep, r0, (k - 1) as nat);
    }
}

/// Every id of a component appears, as its cell, in the component's
/// member list.
pub proof fn lemma_members_contains(rep: Seq<usize>, na: int, n: int, r: int, i: int, k: nat)
    requires
        0 <= i < k <= rep.len(),
        rep[i] as int == r,
    ensures
        members_cells_upto(rep, na, n, r, k).contains(id_cell(i, na, n)),
    decreases k,
{
    let full = members_cells_upto(rep, na, n, r, k);
    let prev = members_cells_upto(rep, na, n, r, (k - 1) as nat);
    if i == k - 1 {
        assert(full == prev.push(id_cell(i, na, n)));
        assert(full[prev.len() as int] == id_cell(i, na, n));
    } else {
        lemma_members_contains(rep, na, n, r, i, (k - 1) as nat);
        let w = choose|w: int| 0 <= w < prev.len() && prev[w] == id_cell(i, na, n);
        assert(full[w] == id_cell(i, na, n));
    }
}

/// The contract a concrete circuit implements: a witness-independent
/// `configure` phase that declares columns and gates, and a `synthesize`
/// phase that lays one full witness out through the layouter.
pub trait Circuit where Self: Sized {
    /// The opaque configuration `configure` hands to `synthesize`: it
    /// captures the column handles the circuit declared.
    type Config;

    /// A structurally identical circuit with every witness value unknown.
    fn without_witnesses(&self) -> Self;

    /// Declares the circuit's columns and gates, once, independent of any
    /// witness data.
    fn configure(cs: &mut ConstraintSystem) -> (cfg: Self::Config)
        requires
            old(cs).wf(),
        ensures
            final(cs).wf(),
    ;

    /// Performs one full pass of region assignment for the circuit's
    /// witness. It may only fill the grid: the constraint system, the
    /// grid height and the bound public inputs stay as they were.
    fn synthesize(&self, config: &Self::Config, layouter: &mut Layouter) -> (r: Result<
        (),
        SetupError,
    >)
        requires
            old(layouter).wf(),
            !old(layouter).in_region,
        ensures
            final(layouter).wf(),
            !final(layouter).in_region,
            final(layouter).cs == old(layouter).cs,
            final(layouter).asg.n == old(layouter).asg.n,
            final(layouter).asg.instance == old(layouter).asg.instance,
    ;
}

/// The relation `MockChecker::run` establishes between the state a
/// circuit built and the report returned.
pub open spec fn check_rel(cs: ConstraintSystem, asg: Assignment, res: CheckResult) -> bool {
    &&& (res is Satisfied) == satisfied_spec(cs, asg)
    &&& (res matches CheckResult::Unsatisfied { gate_failures, copy_failures } ==> gate_failures@
        == gate_failures_spec(cs, asg) && copy_failures@.map_values(|f: CopyFailure| f.cells@)
        == copy_failures_model(cs, asg))
}

/// The engine's entry point: runs a circuit's two phases against a fresh
/// grid and checks the result.
pub struct MockChecker;

impl MockChecker {
    /// Runs `configure`, then `synthesize` over a grid of `2^k` rows with
    /// the public inputs bound to the instance columns in order, then
    /// verifies every gate and copy constraint of the materialized grid.
    ///
    /// The report for the built grid is exact (see [`check_rel`]); which
    /// grid a circuit builds is the circuit's own contract.
    pub fn run<C: Circuit>(k: u32, circuit: &C, instances: Vec<Vec<Fp>>) -> (r: Result<
        CheckResult,
        SetupError,
    >)
        requires
            1 <= k < 32,
        ensures
            r matches Ok(res) ==> exists|cs: ConstraintSystem, asg: Assignment|
                cs.wf() && #[trigger] asg.wf(cs) && asg.n == (1usize << k) && #[trigger] check_rel(
                    cs,
                    asg,
                    res,
                ),
            (1usize << k) > MAX_ROWS ==> r == Err::<CheckResult, SetupError>(
                SetupError::CircuitTooLarge,
            ),
    {
        let n: usize = 1usize << k;
        let mut cs = ConstraintSystem::new();
        let config = C::configure(&mut cs);
        let mut layouter = match Layouter::new(cs, n, instances) {
            Ok(l) => l,
            Err(e) => {
                return Err(e);
            },
        };
        match circuit.synthesize(&config, &mut layouter) {
            Ok(()) => (),
            Err(e) => {
                return Err(e);
            },
        }
        let res = check_assignment(&layouter.cs, &layouter.asg);
        proof {
            let cs_w = layouter.cs;
            let asg_w = layouter.asg;
            assert(cs_w.wf() && asg_w.wf(cs_w) && asg_w.n == (1usize << k) && check_rel(
                cs_w,
                asg_w,
                res,
            ));
        }
        Ok(res)
    }
}

} // verus!
