//! A Fibonacci circuit over three advice columns: one region per chain
//! step, a gate `a + b = c` read on a single row, and each step's
//! operands copied in from the row before.

use vstd::prelude::*;
use crate::columns::{Cell, Column, ColumnKind, Rotation};
use crate::expression::{expr_wf, Expression};
use crate::system::{ConstraintSystem, SetupError};
use crate::layout::{copy_cell_ok, fv_add, AssignedCell, FValue, Layouter, MAX_COLUMNS};
use crate::checker::Circuit;
use crate::fib::fib_cell;

verus! {

/// The column handles the circuit declares while it is configured.
#[derive(Clone, Copy, Debug, PartialEq, Eq, Structural)]
pub struct FiboConfig {
    pub col_a: Column,
    pub col_b: Column,
    pub col_c: Column,
    pub selector: Column,
    pub instance: Column,
}

/// The handles as they come out of a fresh constraint system.
pub open spec fn fib1_config() -> FiboConfig {
    FiboConfig {
        col_a: Column { kind: ColumnKind::Advice, index: 0 },
        col_b: Column { kind: ColumnKind::Advice, index: 1 },
        col_c: Column { kind: ColumnKind::Advice, index: 2 },
        selector: Column { kind: ColumnKind::Selector, index: 0 },
        instance: Column { kind: ColumnKind::Instance, index: 0 },
    }
}

/// What synthesis needs of the constraint system: the three advice
/// columns, the selector and the instance column exist, and every column
/// a copy constraint touches is equality-enabled.
pub open spec fn fib1_cols_ok(cs: ConstraintSystem) -> bool {
    &&& cs.num_advice >= 3
    &&& cs.num_selectors >= 1
    &&& cs.num_instance >= 1
    &&& cs.advice_equality@[0]
    &&& cs.advice_equality@[1]
    &&& cs.advice_equality@[2]
    &&& cs.instance_equality@[0]
}

/// The shape of the circuit's one gate polynomial,
/// `s · ((a + b) − c)`, over the given column indices.
pub open spec fn fib1_gate_poly(e: Expression, a0: usize, b0: usize, c0: usize, s0: usize) -> bool {
    &&& e matches Expression::Product(s, d)
    &&& *s == Expression::Selector(s0)
    &&& *d matches Expression::Difference(sum, c)
    &&& *c == Expression::Advice(c0, 0)
    &&& *sum matches Expression::Sum(a, b)
    &&& *a == Expression::Advice(a0, 0)
    &&& *b == Expression::Advice(b0, 0)
}

/// The chip: the configured handles, plus the region-assignment helpers.
pub struct FiboChip {
    pub config: FiboConfig,
}

impl FiboChip {
    /// Wraps a finished configuration.
    pub fn construct(config: FiboConfig) -> (chip: FiboChip)
        ensures
            chip.config == config,
    {
        FiboChip { config }
    }

    /// Declares the circuit's columns and gate: three equality-enabled
    /// advice columns, a selector guarding a gate `a + b = c` on a
    /// single row, and the given equality-enabled instance column.
    pub fn configure(cs: &mut ConstraintSystem, instance: Column) -> (config: FiboConfig)
        requires
            old(cs).wf(),
            instance.kind == ColumnKind::Instance,
            instance.index < old(cs).num_instance,
            old(cs).num_advice <= MAX_COLUMNS,
            old(cs).num_selectors <= MAX_COLUMNS,
        ensures
            final(cs).wf(),
            config == (FiboConfig {
                col_a: Column { kind: ColumnKind::Advice, index: old(cs).num_advice },
                col_b: Column { kind: ColumnKind::Advice, index: (old(cs).num_advice + 1) as usize },
                col_c: Column { kind: ColumnKind::Advice, index: (old(cs).num_advice + 2) as usize },
                selector: Column { kind: ColumnKind::Selector, index: old(cs).num_selectors },
                instance,
            }),
            final(cs).num_advice == old(cs).num_advice + 3,
            final(cs).num_instance == old(cs).num_instance,
            final(cs).num_selectors == old(cs).num_selectors + 1,
            final(cs).advice_equality@ == old(cs).advice_equality@.push(true).push(true).push(true),
            final(cs).instance_equality@ == old(cs).instance_equality@.update(
                instance.index as int,
                true,
            ),
            final(cs).gates@.len() == old(cs).gates@.len() + 1,
            (forall|g: int|
                0 <= g < old(cs).gates@.len() ==> #[trigger] final(cs).gates@[g] == old(
                    cs,
                ).gates@[g]),
            final(cs).gates@.last().name@ == "add"@,
            final(cs).gates@.last().selector == old(cs).num_selectors,
            final(cs).gates@.last().polys@.len() == 1,
            fib1_gate_poly(
                final(cs).gates@.last().polys@[0],
                old(cs).num_advice,
                (old(cs).num_advice + 1) as usize,
                (old(cs).num_advice + 2) as usize,
                old(cs).num_selectors,
            ),
    {
        let col_a = cs.advice_column();
        let col_b = cs.advice_column();
        let col_c = cs.advice_column();
        let selector = cs.selector();

        let r1 = cs.enable_equality(col_a);
        proof {
            assert(r1 is Ok);
        }
        let r2 = cs.enable_equality(col_b);
        proof {
            assert(r2 is Ok);
        }
        let r3 = cs.enable_equality(col_c);
        proof {
            assert(r3 is Ok);
        }
        let r4 = cs.enable_equality(instance);
        proof {
            assert(r4 is Ok);
        }

        let a = cs.query_advice(col_a, Rotation::cur());
        let b = cs.query_advice(col_b, Rotation::cur());
        let c = cs.query_advice(col_c, Rotation::cur());
        let s = cs.query_selector(selector);
        let ghost a_spec = a;
        let ghost b_spec = b;
        let ghost c_spec = c;
        let ghost s_spec = s;
        let sum_e = a.plus(b);
        let ghost sum_spec = sum_e;
        let diff_e = sum_e.minus(c);
        let ghost diff_spec = diff_e;
        let poly = s.times(diff_e);
        let ghost poly_spec = poly;
        let polys = vec![poly];
        proof {
            assert(polys@.len() == 1);
            assert(polys@[0] == poly_spec);
            let na = cs.num_advice as int;
            let ni = cs.num_instance as int;
            let ns = cs.num_selectors as int;
            assert(expr_wf(a_spec, na, ni, ns));
            assert(expr_wf(b_spec, na, ni, ns));
            assert(expr_wf(c_spec, na, ni, ns));
            assert(expr_wf(s_spec, na, ni, ns));
            assert(expr_wf(sum_spec, na, ni, ns));
            assert(expr_wf(diff_spec, na, ni, ns));
            assert(expr_wf(poly_spec, na, ni, ns));
            assert(fib1_gate_poly(
                poly_spec,
                col_a.index,
                col_b.index,
                col_c.index,
                selector.index,
            ));
        }
        let r5 = cs.create_gate("add", selector, polys);
        proof {
            assert(r5 is Ok);
            assert(final(cs).advice_equality@ =~= old(cs).advice_equality@.push(true).push(
                true,
            ).push(true));
        }

        FiboConfig { col_a, col_b, col_c, selector, instance }
    }

    /// Lays the first chain step out in a one-row region: the two seeds
    /// and their sum, with its guarding selector enabled. Fails exactly
    /// when no free row is left.
    pub fn assign_first_row(&self, layouter: &mut Layouter, a: FValue, b: FValue) -> (r: Result<
        (AssignedCell, AssignedCell, AssignedCell),
        SetupError,
    >)
        requires
            self.config == fib1_config(),
            old(layouter).wf(),
            !old(layouter).in_region,
            fib1_cols_ok(old(layouter).cs),
        ensures
            final(layouter).wf(),
            !final(layouter).in_region,
            final(layouter).cs == old(layouter).cs,
            final(layouter).asg.n == old(layouter).asg.n,
            final(layouter).asg.instance == old(layouter).asg.instance,
            match r {
                Ok(cells) => {
                    let t = old(layouter).next_row as int;
                    &&& t < old(layouter).asg.n
                    &&& final(layouter).next_row == t + 1
                    &&& final(layouter).asg.copies == old(layouter).asg.copies
                    &&& cells.0.cell == (Cell { column: fib1_config().col_a, row: t as usize })
                    &&& cells.0.value == a
                    &&& cells.1.cell == (Cell { column: fib1_config().col_b, row: t as usize })
                    &&& cells.1.value == b
                    &&& cells.2.cell == (Cell { column: fib1_config().col_c, row: t as usize })
                    &&& cells.2.value == fv_add(a, b)
                    &&& final(layouter).asg.advice_view()[0][t] == a
                    &&& final(layouter).asg.advice_view()[1][t] == b
                    &&& final(layouter).asg.advice_view()[2][t] == fv_add(a, b)
                    &&& (forall|c2: int, rr: int|
                        0 <= c2 < old(layouter).cs.num_advice && 0 <= rr < old(layouter).asg.n && !(
                        rr == t && c2 < 3) ==> #[trigger] final(layouter).asg.advice_view()[c2][rr]
                            == old(layouter).asg.advice_view()[c2][rr])
                    &&& final(layouter).asg.selector_view()[0][t] == true
                    &&& (forall|c2: int, rr: int|
                        0 <= c2 < old(layouter).cs.num_selectors && 0 <= rr < old(layouter).asg.n
                            && !(rr == t && c2 == 0)
                            ==> #[trigger] final(layouter).asg.selector_view()[c2][rr] == old(layouter).asg.selector_view()[c2][rr])
                },
                Err(e) => {
                    &&& e == SetupError::CircuitTooLarge
                    &&& old(layouter).next_row >= old(layouter).asg.n
                    &&& final(layouter).asg == old(layouter).asg
                    &&& final(layouter).next_row == old(layouter).next_row
                },
            },
    {
        layouter.start_region("first row");
        match layouter.enable(self.config.selector, 0) {
            Ok(()) => (),
            Err(e) => {
                layouter.end_region();
                return Err(e);
            },
        }
        let a_cell = match layouter.assign_advice("f(0)", self.config.col_a, 0, a) {
            Ok(c) => c,
            Err(e) => {
                proof {
                    assert(false);
                }
                layouter.end_region();
                return Err(e);
            },
        };
        let b_cell = match layouter.assign_advice("f(1)", self.config.col_b, 0, b) {
            Ok(c) => c,
            Err(e) => {
                proof {
                    assert(false);
                }
                layouter.end_region();
                return Err(e);
            },
        };
        let c_val = crate::layout::fv_add_exec(a, b);
        let c_cell = match layouter.assign_advice("f(2)", self.config.col_c, 0, c_val) {
            Ok(c) => c,
            Err(e) => {
                proof {
                    assert(false);
                }
                layouter.end_region();
                return Err(e);
            },
        };
        layouter.end_region();
        Ok((a_cell, b_cell, c_cell))
    }

    /// Lays one later chain step out in a one-row region: the two
    /// operands are copied in from the cells that already hold them, and
    /// their sum is assigned beside them with the selector enabled.
    /// Fails exactly when no free row is left.
    pub fn assign_row(
        &self,
        layouter: &mut Layouter,
        prev_b: &AssignedCell,
        prev_c: &AssignedCell,
    ) -> (r: Result<AssignedCell, SetupError>)
        requires
            self.config == fib1_config(),
            old(layouter).wf(),
            !old(layouter).in_region,
            fib1_cols_ok(old(layouter).cs),
            copy_cell_ok(prev_b.cell, old(layouter).cs, old(layouter).asg.n as int),
            copy_cell_ok(prev_c.cell, old(layouter).cs, old(layouter).asg.n as int),
        ensures
            final(layouter).wf(),
            !final(layouter).in_region,
            final(layouter).cs == old(layouter).cs,
            final(layouter).asg.n == old(layouter).asg.n,
            final(layouter).asg.instance == old(layouter).asg.instance,
            match r {
                Ok(cell) => {
                    let t = old(layouter).next_row as int;
                    &&& t < old(layouter).asg.n
                    &&& final(layouter).next_row == t + 1
                    &&& cell.cell == (Cell { column: fib1_config().col_c, row: t as usize })
                    &&& cell.value == fv_add(prev_b.value, prev_c.value)
                    &&& final(layouter).asg.advice_view()[0][t] == prev_b.value
                    &&& final(layouter).asg.advice_view()[1][t] == prev_c.value
                    &&& final(layouter).asg.advice_view()[2][t] == fv_add(
                        prev_b.value,
                        prev_c.value,
                    )
                    &&& (forall|c2: int, rr: int|
                        0 <= c2 < old(layouter).cs.num_advice && 0 <= rr < old(layouter).asg.n && !(
                        rr == t && c2 < 3) ==> #[trigger] final(layouter).asg.advice_view()[c2][rr]
                            == old(layouter).asg.advice_view()[c2][rr])
                    &&& final(layouter).asg.selector_view()[0][t] == true
                    &&& (forall|c2: int, rr: int|
                        0 <= c2 < old(layouter).cs.num_selectors && 0 <= rr < old(layouter).asg.n
                            && !(rr == t && c2 == 0)
                            ==> #[trigger] final(layouter).asg.selector_view()[c2][rr] == old(layouter).asg.selector_view()[c2][rr])
                    &&& final(layouter).asg.copies@ == old(layouter).asg.copies@.push(
                        (prev_b.cell, Cell { column: fib1_config().col_a, row: t as usize }),
                    ).push((prev_c.cell, Cell { column: fib1_config().col_b, row: t as usize }))
                },
                Err(e) => {
                    &&& e == SetupError::CircuitTooLarge
                    &&& old(layouter).next_row >= old(layouter).asg.n
                    &&& final(layouter).asg == old(layouter).asg
                    &&& final(layouter).next_row == old(layouter).next_row
                },
            },
    {
        layouter.start_region("row");
        match layouter.enable(self.config.selector, 0) {
            Ok(()) => (),
            Err(e) => {
                layouter.end_region();
                return Err(e);
            },
        }
        match layouter.copy_advice("a", prev_b, self.config.col_a, 0) {
            Ok(c) => c,
            Err(e) => {
                proof {
                    assert(false);
                }
                layouter.end_region();
                return Err(e);
            },
        };
        match layouter.copy_advice("b", prev_c, self.config.col_b, 0) {
            Ok(c) => c,
            Err(e) => {
                proof {
                    assert(false);
                }
                layouter.end_region();
                return Err(e);
            },
        };
        let c_val = crate::layout::fv_add_exec(prev_b.value, prev_c.value);
        let c_cell = match layouter.assign_advice("c", self.config.col_c, 0, c_val) {
            Ok(c) => c,
            Err(e) => {
                proof {
                    assert(false);
                }
                layouter.end_region();
                return Err(e);
            },
        };
        layouter.end_region();
        Ok(c_cell)
    }

    /// Binds a cell of the chain to a row of the public-input column, as
    /// a copy constraint. Fails exactly when the instance row is outside
    /// the grid.
    pub fn expose_public(&self, layouter: &mut Layouter, cell: &AssignedCell, row: usize) -> (r:
        Result<(), SetupError>)
        requires
            self.config == fib1_config(),
            old(layouter).wf(),
            fib1_cols_ok(old(layouter).cs),
            copy_cell_ok(cell.cell, old(layouter).cs, old(layouter).asg.n as int),
        ensures
            final(layouter).wf(),
            final(layouter).in_region == old(layouter).in_region,
            final(layouter).next_row == old(layouter).next_row,
            final(layouter).cs == old(layouter).cs,
            final(layouter).asg.n == old(layouter).asg.n,
            final(layouter).asg.advice == old(layouter).asg.advice,
            final(layouter).asg.instance == old(layouter).asg.instance,
            final(layouter).asg.selectors == old(layouter).asg.selectors,
            match r {
                Ok(()) => {
                    &&& row < old(layouter).asg.n
                    &&& final(layouter).asg.copies@ == old(layouter).asg.copies@.push(
                        (cell.cell, Cell { column: fib1_config().instance, row }),
                    )
                },
                Err(e) => {
                    &&& e == SetupError::InvalidColumn
                    &&& row >= old(layouter).asg.n
                    &&& *final(layouter) == *old(layouter)
                },
            },
    {
        layouter.constrain_instance(cell.cell, self.config.instance, row)
    }
}

/// The circuit: two seed values, possibly unknown for shape-only
/// synthesis.
pub struct MyCircuit {
    pub a: FValue,
    pub b: FValue,
}

/// The copy-constraint pairs one full synthesis declares, for a chain
/// laid out from absolute row `t`: each later region copies its two
/// operands in from the cells that hold them, and the last sum is bound
/// to row 0 of the instance column.
pub open spec fn fib1_copies(t: int) -> Seq<(Cell, Cell)> {
    Seq::new(
        15,
        |i: int|
            if i < 14 {
                let j = i / 2 + 1;
                if i % 2 == 0 {
                    (
                        if j == 1 {
                            Cell { column: fib1_config().col_b, row: t as usize }
                        } else {
                            Cell { column: fib1_config().col_c, row: (t + j - 2) as usize }
                        },
                        Cell { column: fib1_config().col_a, row: (t + j) as usize },
                    )
                } else {
                    (
                        Cell { column: fib1_config().col_c, row: (t + j - 1) as usize },
                        Cell { column: fib1_config().col_b, row: (t + j) as usize },
                    )
                }
            } else {
                (
                    Cell { column: fib1_config().col_c, row: (t + 7) as usize },
                    Cell { column: fib1_config().instance, row: 0 },
                )
            },
    )
}

impl MyCircuit {
    /// A structurally identical circuit with both seeds replaced by the
    /// unknown placeholder: it declares the same columns and gates while
    /// carrying no private witness data.
    pub fn blank(&self) -> (c: MyCircuit)
        ensures
            c.a is Unknown,
            c.b is Unknown,
    {
        MyCircuit { a: FValue::Unknown, b: FValue::Unknown }
    }

    /// One full synthesis pass: the first chain step in its own region,
    /// seven chained steps each copying its operands from the row
    /// before, and the last sum bound to row 0 of the instance column.
    /// Succeeds exactly when eight rows are free.
    pub fn lay_out(&self, config: &FiboConfig, layouter: &mut Layouter) -> (r: Result<
        (),
        SetupError,
    >)
        requires
            *config == fib1_config(),
            old(layouter).wf(),
            !old(layouter).in_region,
            fib1_cols_ok(old(layouter).cs),
        ensures
            final(layouter).wf(),
            !final(layouter).in_region,
            final(layouter).cs == old(layouter).cs,
            final(layouter).asg.n == old(layouter).asg.n,
            final(layouter).asg.instance == old(layouter).asg.instance,
            match r {
                Ok(()) => {
                    let t = old(layouter).next_row as int;
                    &&& t + 8 <= old(layouter).asg.n
                    &&& final(layouter).next_row == t + 8
                    &&& (forall|j: int|
                        0 <= j < 8 ==> #[trigger] final(layouter).asg.advice_view()[0][t + j]
                            == fib_cell(self.a, self.b, j))
                    &&& (forall|j: int|
                        0 <= j < 8 ==> #[trigger] final(layouter).asg.advice_view()[1][t + j]
                            == fib_cell(self.a, self.b, j + 1))
                    &&& (forall|j: int|
                        0 <= j < 8 ==> #[trigger] final(layouter).asg.advice_view()[2][t + j]
                            == fib_cell(self.a, self.b, j + 2))
                    &&& (forall|j: int|
                        0 <= j < 8 ==> #[trigger] final(layouter).asg.selector_view()[0][t + j]
                            == true)
                    &&& (forall|c2: int, rr: int|
                        0 <= c2 < old(layouter).cs.num_advice && 0 <= rr < old(layouter).asg.n && !(
                        c2 < 3 && t <= rr < t + 8) ==> #[trigger] final(layouter).asg.advice_view()[c2][rr] == old(layouter).asg.advice_view()[c2][rr])
                    &&& (forall|c2: int, rr: int|
                        0 <= c2 < old(layouter).cs.num_selectors && 0 <= rr < old(layouter).asg.n
                            && !(c2 == 0 && t <= rr < t + 8) ==> #[trigger] final(layouter).asg.selector_view()[c2][rr] == old(layouter).asg.selector_view()[c2][rr])
                    &&& final(layouter).asg.copies@ == old(layouter).asg.copies@ + fib1_copies(t)
                },
                Err(e) => {
                    &&& e == SetupError::CircuitTooLarge
                    &&& old(layouter).next_row + 8 > old(layouter).asg.n
                },
            },
    {
        let chip = FiboChip::construct(*config);
        let ghost t = layouter.next_row as int;
        let ghost asg0 = layouter.asg;
        let first = match chip.assign_first_row(layouter, self.a, self.b) {
            Ok(cells) => cells,
            Err(e) => {
                return Err(e);
            },
        };
        let mut prev_b = first.1;
        let mut prev_c = first.2;
        proof {
            assert(layouter.asg.copies@ =~= asg0.copies@ + fib1_copies(t).take(0));
            assert(fib_cell(self.a, self.b, 0) == self.a);
            assert(fib_cell(self.a, self.b, 1) == self.b);
            assert(fib_cell(self.a, self.b, 2) == fv_add(self.a, self.b));
        }
        let mut i: usize = 3;
        while i < 10
            invariant
                3 <= i <= 10,
                chip.config == fib1_config(),
                layouter.wf(),
                !layouter.in_region,
                fib1_cols_ok(layouter.cs),
                layouter.cs == old(layouter).cs,
                layouter.asg.n == old(layouter).asg.n,
                layouter.asg.instance == old(layouter).asg.instance,
                t == old(layouter).next_row as int,
                asg0 == old(layouter).asg,
                layouter.next_row == t + (i - 2),
                t + (i - 2) <= layouter.asg.n,
                prev_b.value == fib_cell(self.a, self.b, i - 2),
                prev_c.value == fib_cell(self.a, self.b, i - 1),
                prev_b.cell == (if i == 3 {
                    Cell { column: fib1_config().col_b, row: t as usize }
                } else {
                    Cell { column: fib1_config().col_c, row: (t + i - 4) as usize }
                }),
                prev_c.cell == (Cell { column: fib1_config().col_c, row: (t + i - 3) as usize }),
                forall|j: int|
                    0 <= j < i - 2 ==> #[trigger] layouter.asg.advice_view()[0][t + j] == fib_cell(
                        self.a,
                        self.b,
                        j,
                    ),
                forall|j: int|
                    0 <= j < i - 2 ==> #[trigger] layouter.asg.advice_view()[1][t + j] == fib_cell(
                        self.a,
                        self.b,
                        j + 1,
                    ),
                forall|j: int|
                    0 <= j < i - 2 ==> #[trigger] layouter.asg.advice_view()[2][t + j] == fib_cell(
                        self.a,
                        self.b,
                        j + 2,
                    ),
                forall|j: int|
                    0 <= j < i - 2 ==> #[trigger] layouter.asg.selector_view()[0][t + j] == true,
                forall|c2: int, rr: int|
                    0 <= c2 < layouter.cs.num_advice && 0 <= rr < layouter.asg.n && !(c2 < 3 && t
                        <= rr < t + (i - 2)) ==> #[trigger] layouter.asg.advice_view()[c2][rr]
                        == asg0.advice_view()[c2][rr],
                forall|c2: int, rr: int|
                    0 <= c2 < layouter.cs.num_selectors && 0 <= rr < layouter.asg.n && !(c2 == 0 && t
                        <= rr < t + (i - 2)) ==> #[trigger] layouter.asg.selector_view()[c2][rr]
                        == asg0.selector_view()[c2][rr],
                layouter.asg.copies@ == asg0.copies@ + fib1_copies(t).take(2 * (i - 3)),
            decreases 10 - i,
        {
            let c_cell = match chip.assign_row(layouter, &prev_b, &prev_c) {
                Ok(c) => c,
                Err(e) => {
                    return Err(e);
                },
            };
            prev_b = prev_c;
            prev_c = c_cell;
            proof {
                assert(fib_cell(self.a, self.b, i as int) == fv_add(
                    fib_cell(self.a, self.b, i - 2),
                    fib_cell(self.a, self.b, i - 1),
                ));
                assert((2 * (i - 3)) / 2 == i - 3);
                assert(layouter.asg.copies@ =~= asg0.copies@ + fib1_copies(t).take(
                    2 * (i + 1 - 3),
                ));
            }
            i = i + 1;
        }
        let ghost asg_mid = layouter.asg;
        match chip.expose_public(layouter, &prev_c, 0) {
            Ok(()) => (),
            Err(e) => {
                proof {
                    assert(false);
                }
                return Err(e);
            },
        }
        proof {
            assert(layouter.asg.advice_view() =~~= asg_mid.advice_view());
            assert(layouter.asg.selector_view() =~~= asg_mid.selector_view());
            assert(layouter.asg.copies@ =~= asg0.copies@ + fib1_copies(t));
        }
        Ok(())
    }
}

impl Circuit for MyCircuit {
    type Config = FiboConfig;

    /// A structurally identical circuit with both seeds unknown.
    fn without_witnesses(&self) -> (c: Self) {
        self.blank()
    }

    /// Declares an instance column and the chip's columns and gate. On a
    /// constraint system too large for the engine's machine bounds it
    /// returns degenerate handles, which synthesis then refuses.
    fn configure(cs: &mut ConstraintSystem) -> (cfg: FiboConfig) {
        if cs.num_advice > MAX_COLUMNS || cs.num_selectors > MAX_COLUMNS || cs.num_instance
            >= MAX_COLUMNS {
            return FiboConfig {
                col_a: Column { kind: ColumnKind::Advice, index: 0 },
                col_b: Column { kind: ColumnKind::Advice, index: 1 },
                col_c: Column { kind: ColumnKind::Advice, index: 2 },
                selector: Column { kind: ColumnKind::Selector, index: 0 },
                instance: Column { kind: ColumnKind::Instance, index: 0 },
            };
        }
        let instance = cs.instance_column();
        FiboChip::configure(cs, instance)
    }

    /// Checks at run time that the constraint system and configuration
    /// are the ones the circuit declares, then lays the witness out.
    fn synthesize(&self, config: &FiboConfig, layouter: &mut Layouter) -> (r: Result<
        (),
        SetupError,
    >) {
        if layouter.cs.num_advice < 3 || layouter.cs.num_selectors < 1 || layouter.cs.num_instance
            < 1 {
            return Err(SetupError::InvalidColumn);
        }
        if !layouter.cs.advice_equality[0] || !layouter.cs.advice_equality[1]
            || !layouter.cs.advice_equality[2] || !layouter.cs.instance_equality[0] {
            return Err(SetupError::EqualityNotEnabled);
        }
        let expected = FiboConfig {
            col_a: Column { kind: ColumnKind::Advice, index: 0 },
            col_b: Column { kind: ColumnKind::Advice, index: 1 },
            col_c: Column { kind: ColumnKind::Advice, index: 2 },
            selector: Column { kind: ColumnKind::Selector, index: 0 },
            instance: Column { kind: ColumnKind::Instance, index: 0 },
        };
        if !(*config == expected) {
            return Err(SetupError::InvalidColumn);
        }
        self.lay_out(config, layouter)
    }
}

} // verus!
