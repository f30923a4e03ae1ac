//! A Fibonacci circuit over a single advice column: the whole chain in
//! one region, a gate reading three consecutive rows through rotations,
//! and no copies between chain steps.

use vstd::prelude::*;
use crate::columns::{Cell, Column, ColumnKind, Rotation};
use crate::expression::{expr_wf, Expression};
use crate::system::{ConstraintSystem, SetupError};
use crate::layout::{copy_cell_ok, AssignedCell, FValue, Layouter, MAX_COLUMNS};
use crate::checker::Circuit;
use crate::fib::fib_cell;

verus! {

/// The column handles the circuit declares while it is configured.
#[derive(Clone, Copy, Debug, PartialEq, Eq, Structural)]
pub struct FiboConfig {
    pub advice: Column,
    pub selector: Column,
    pub instance: Column,
}

/// The handles as they come out of a fresh constraint system.
pub open spec fn fib2_config() -> FiboConfig {
    FiboConfig {
        advice: Column { kind: ColumnKind::Advice, index: 0 },
        selector: Column { kind: ColumnKind::Selector, index: 0 },
        instance: Column { kind: ColumnKind::Instance, index: 0 },
    }
}

/// What synthesis needs of the constraint system.
pub open spec fn fib2_cols_ok(cs: ConstraintSystem) -> bool {
    &&& cs.num_advice >= 1
    &&& cs.num_selectors >= 1
    &&& cs.num_instance >= 1
    &&& cs.advice_equality@[0]
    &&& cs.instance_equality@[0]
}

/// The shape of the circuit's one gate polynomial,
/// `s · ((col(cur) + col(next)) − col(cur + 2))`.
pub open spec fn fib2_gate_poly(e: Expression, a0: usize, s0: usize) -> bool {
    &&& e matches Expression::Product(s, d)
    &&& *s == Expression::Selector(s0)
    &&& *d matches Expression::Difference(sum, c)
    &&& *c == Expression::Advice(a0, 2)
    &&& *sum matches Expression::Sum(a, b)
    &&& *a == Expression::Advice(a0, 0)
    &&& *b == Expression::Advice(a0, 1)
}

/// The chip: the configured handles, plus the region-assignment helper.
pub struct FiboChip {
    pub config: FiboConfig,
}

impl FiboChip {
    /// Wraps a finished configuration.
    pub fn construct(config: FiboConfig) -> (chip: FiboChip)
        ensures
            chip.config == config,
    {
        FiboChip { config }
    }

    /// Declares one equality-enabled advice column and a selector
    /// guarding the rotation-based gate, with the given equality-enabled
    /// instance column.
    pub fn configure(cs: &mut ConstraintSystem, instance: Column) -> (config: FiboConfig)
        requires
            old(cs).wf(),
            instance.kind == ColumnKind::Instance,
            instance.index < old(cs).num_instance,
            old(cs).num_advice <= MAX_COLUMNS,
            old(cs).num_selectors <= MAX_COLUMNS,
        ensures
            final(cs).wf(),
            config == (FiboConfig {
                advice: Column { kind: ColumnKind::Advice, index: old(cs).num_advice },
                selector: Column { kind: ColumnKind::Selector, index: old(cs).num_selectors },
                instance,
            }),
            final(cs).num_advice == old(cs).num_advice + 1,
            final(cs).num_instance == old(cs).num_instance,
            final(cs).num_selectors == old(cs).num_selectors + 1,
            final(cs).advice_equality@ == old(cs).advice_equality@.push(true),
            final(cs).instance_equality@ == old(cs).instance_equality@.update(
                instance.index as int,
                true,
            ),
            final(cs).gates@.len() == old(cs).gates@.len() + 1,
            (forall|g: int|
                0 <= g < old(cs).gates@.len() ==> #[trigger] final(cs).gates@[g] == old(
                    cs,
                ).gates@[g]),
            final(cs).gates@.last().name@ == "add"@,
            final(cs).gates@.last().selector == old(cs).num_selectors,
            final(cs).gates@.last().polys@.len() == 1,
            fib2_gate_poly(
                final(cs).gates@.last().polys@[0],
                old(cs).num_advice,
                old(cs).num_selectors,
            ),
    {
        let advice = cs.advice_column();
        let selector = cs.selector();

        let r1 = cs.enable_equality(advice);
        proof {
            assert(r1 is Ok);
        }
        let r2 = cs.enable_equality(instance);
        proof {
            assert(r2 is Ok);
        }

        let a = cs.query_advice(advice, Rotation::cur());
        let b = cs.query_advice(advice, Rotation::next());
        let c = cs.query_advice(advice, Rotation::at(2));
        let s = cs.query_selector(selector);
        let ghost a_spec = a;
        let ghost b_spec = b;
        let ghost c_spec = c;
        let ghost s_spec = s;
        let sum_e = a.plus(b);
        let ghost sum_spec = sum_e;
        let diff_e = sum_e.minus(c);
        let ghost diff_spec = diff_e;
        let poly = s.times(diff_e);
        let ghost poly_spec = poly;
        let polys = vec![poly];
        proof {
            assert(polys@.len() == 1);
            assert(polys@[0] == poly_spec);
            let na = cs.num_advice as int;
            let ni = cs.num_instance as int;
            let ns = cs.num_selectors as int;
            assert(expr_wf(a_spec, na, ni, ns));
            assert(expr_wf(b_spec, na, ni, ns));
            assert(expr_wf(c_spec, na, ni, ns));
            assert(expr_wf(s_spec, na, ni, ns));
            assert(expr_wf(sum_spec, na, ni, ns));
            assert(expr_wf(diff_spec, na, ni, ns));
            assert(expr_wf(poly_spec, na, ni, ns));
            assert(fib2_gate_poly(poly_spec, advice.index, selector.index));
        }
        let r5 = cs.create_gate("add", selector, polys);
        proof {
            assert(r5 is Ok);
        }

        FiboConfig { advice, selector, instance }
    }

    /// Lays the whole chain out in one `nrows`-row region of the advice
    /// column: the seeds on the first two rows, each later row the sum of
    /// the two above it, and the selector enabled wherever its gate can
    /// read three rows of the chain. Returns the cell of the last chain
    /// value; fails exactly when the region does not fit the grid.
    pub fn assign_column(
        &self,
        layouter: &mut Layouter,
        a: FValue,
        b: FValue,
        nrows: usize,
    ) -> (r: Result<AssignedCell, SetupError>)
        requires
            self.config == fib2_config(),
            old(layouter).wf(),
            !old(layouter).in_region,
            fib2_cols_ok(old(layouter).cs),
            4 <= nrows,
        ensures
            final(layouter).wf(),
            !final(layouter).in_region,
            final(layouter).cs == old(layouter).cs,
            final(layouter).asg.n == old(layouter).asg.n,
            final(layouter).asg.instance == old(layouter).asg.instance,
            match r {
                Ok(cell) => {
                    let t = old(layouter).next_row as int;
                    &&& t + nrows <= old(layouter).asg.n
                    &&& final(layouter).next_row == t + nrows
                    &&& final(layouter).asg.copies == old(layouter).asg.copies
                    &&& cell.cell == (Cell {
                        column: fib2_config().advice,
                        row: (t + nrows - 1) as usize,
                    })
                    &&& cell.value == fib_cell(a, b, nrows - 1)
                    &&& (forall|j: int|
                        0 <= j < nrows ==> #[trigger] final(layouter).asg.advice_view()[0][t + j]
                            == fib_cell(a, b, j))
                    &&& (forall|j: int|
                        0 <= j < nrows - 2 ==> #[trigger] final(layouter).asg.selector_view()[0][t + j] == true)
                    &&& (forall|c2: int, rr: int|
                        0 <= c2 < old(layouter).cs.num_advice && 0 <= rr < old(layouter).asg.n && !(
                        c2 == 0 && t <= rr < t + nrows) ==> #[trigger] final(layouter).asg.advice_view()[c2][rr] == old(layouter).asg.advice_view()[c2][rr])
                    &&& (forall|c2: int, rr: int|
                        0 <= c2 < old(layouter).cs.num_selectors && 0 <= rr < old(layouter).asg.n
                            && !(c2 == 0 && t <= rr < t + (nrows - 2)) ==> #[trigger] final(layouter).asg.selector_view()[c2][rr] == old(layouter).asg.selector_view()[c2][rr])
                },
                Err(e) => {
                    &&& e == SetupError::CircuitTooLarge
                    &&& old(layouter).next_row + nrows > old(layouter).asg.n
                },
            },
    {
        let ghost t = layouter.next_row as int;
        let ghost asg0 = layouter.asg;
        layouter.start_region("whole column");
        match layouter.enable(self.config.selector, 0) {
            Ok(()) => (),
            Err(e) => {
                layouter.end_region();
                return Err(e);
            },
        }
        match layouter.enable(self.config.selector, 1) {
            Ok(()) => (),
            Err(e) => {
                layouter.end_region();
                return Err(e);
            },
        }
        let mut a_cell = match layouter.assign_advice("a", self.config.advice, 0, a) {
            Ok(c) => c,
            Err(e) => {
                proof {
                    assert(false);
                }
                layouter.end_region();
                return Err(e);
            },
        };
        let mut b_cell = match layouter.assign_advice("b", self.config.advice, 1, b) {
            Ok(c) => c,
            Err(e) => {
                proof {
                    assert(false);
                }
                layouter.end_region();
                return Err(e);
            },
        };
        proof {
            assert(fib_cell(a, b, 0) == a);
            assert(fib_cell(a, b, 1) == b);
        }
        let mut row: usize = 2;
        while row < nrows
            invariant
                2 <= row <= nrows,
                4 <= nrows,
                self.config == fib2_config(),
                layouter.wf(),
                layouter.in_region,
                fib2_cols_ok(layouter.cs),
                layouter.cs == old(layouter).cs,
                layouter.asg.n == old(layouter).asg.n,
                layouter.asg.instance == old(layouter).asg.instance,
                layouter.asg.copies == asg0.copies,
                t == old(layouter).next_row as int,
                asg0 == old(layouter).asg,
                layouter.next_row == t,
                layouter.region_start == t,
                layouter.region_rows == row,
                t + row <= layouter.asg.n,
                a_cell.cell == (Cell { column: fib2_config().advice, row: (t + row - 2) as usize }),
                a_cell.value == fib_cell(a, b, row - 2),
                b_cell.cell == (Cell { column: fib2_config().advice, row: (t + row - 1) as usize }),
                b_cell.value == fib_cell(a, b, row - 1),
                forall|j: int|
                    0 <= j < row ==> #[trigger] layouter.asg.advice_view()[0][t + j] == fib_cell(
                        a,
                        b,
                        j,
                    ),
                forall|j: int|
                    0 <= j < (if row < nrows - 2 {
                        row as int
                    } else {
                        nrows - 2
                    }) ==> #[trigger] layouter.asg.selector_view()[0][t + j] == true,
                forall|c2: int, rr: int|
                    0 <= c2 < layouter.cs.num_advice && 0 <= rr < layouter.asg.n && !(c2 == 0 && t
                        <= rr < t + row) ==> #[trigger] layouter.asg.advice_view()[c2][rr]
                        == asg0.advice_view()[c2][rr],
                forall|c2: int, rr: int|
                    0 <= c2 < layouter.cs.num_selectors && 0 <= rr < layouter.asg.n && !(c2 == 0 && t
                        <= rr < t + (if row < nrows - 2 {
                        row as int
                    } else {
                        nrows - 2
                    })) ==> #[trigger] layouter.asg.selector_view()[c2][rr]
                        == asg0.selector_view()[c2][rr],
            decreases nrows - row,
        {
            let ghost asg_a = layouter.asg;
            if row < nrows - 2 {
                match layouter.enable(self.config.selector, row) {
                    Ok(()) => (),
                    Err(e) => {
                        layouter.end_region();
                        return Err(e);
                    },
                }
            }
            let ghost asg_b = layouter.asg;
            proof {
                assert(layouter.asg.advice_view() =~~= asg_a.advice_view());
            }
            let c_val = crate::layout::fv_add_exec(a_cell.value, b_cell.value);
            let c_cell = match layouter.assign_advice("c", self.config.advice, row, c_val) {
                Ok(c) => c,
                Err(e) => {
                    layouter.end_region();
                    return Err(e);
                },
            };
            proof {
                assert(layouter.asg.selector_view() =~~= asg_b.selector_view());
                assert(fib_cell(a, b, row as int) == crate::layout::fv_add(
                    fib_cell(a, b, row - 2),
                    fib_cell(a, b, row - 1),
                ));
            }
            a_cell = b_cell;
            b_cell = c_cell;
            row = row + 1;
        }
        layouter.end_region();
        Ok(b_cell)
    }

    /// Binds a cell of the chain to a row of the public-input column, as
    /// a copy constraint. Fails exactly when the instance row is outside
    /// the grid.
    pub fn expose_public(&self, layouter: &mut Layouter, cell: &AssignedCell, row: usize) -> (r:
        Result<(), SetupError>)
        requires
            self.config == fib2_config(),
            old(layouter).wf(),
            fib2_cols_ok(old(layouter).cs),
            copy_cell_ok(cell.cell, old(layouter).cs, old(layouter).asg.n as int),
        ensures
            final(layouter).wf(),
            final(layouter).in_region == old(layouter).in_region,
            final(layouter).next_row == old(layouter).next_row,
            final(layouter).cs == old(layouter).cs,
            final(layouter).asg.n == old(layouter).asg.n,
            final(layouter).asg.advice == old(layouter).asg.advice,
            final(layouter).asg.instance == old(layouter).asg.instance,
            final(layouter).asg.selectors == old(layouter).asg.selectors,
            match r {
                Ok(()) => {
                    &&& row < old(layouter).asg.n
                    &&& final(layouter).asg.copies@ == old(layouter).asg.copies@.push(
                        (cell.cell, Cell { column: fib2_config().instance, row }),
                    )
                },
                Err(e) => {
                    &&& e == SetupError::InvalidColumn
                    &&& row >= old(layouter).asg.n
                    &&& *final(layouter) == *old(layouter)
                },
            },
    {
        layouter.constrain_instance(cell.cell, self.config.instance, row)
    }
}

/// The circuit: two seed values, possibly unknown for shape-only
/// synthesis.
pub struct MyCircuit {
    pub a: FValue,
    pub b: FValue,
}

impl MyCircuit {
    /// A structurally identical circuit with both seeds replaced by the
    /// unknown placeholder: it declares the same columns and gates while
    /// carrying no private witness data.
    pub fn blank(&self) -> (c: MyCircuit)
        ensures
            c.a is Unknown,
            c.b is Unknown,
    {
        MyCircuit { a: FValue::Unknown, b: FValue::Unknown }
    }

    /// One full synthesis pass: the ten-row chain in a single region,
    /// with the last chain value bound to row 0 of the instance column.
    /// Succeeds exactly when ten rows are free.
    pub fn lay_out(&self, config: &FiboConfig, layouter: &mut Layouter) -> (r: Result<
        (),
        SetupError,
    >)
        requires
            *config == fib2_config(),
            old(layouter).wf(),
            !old(layouter).in_region,
            fib2_cols_ok(old(layouter).cs),
        ensures
            final(layouter).wf(),
            !final(layouter).in_region,
            final(layouter).cs == old(layouter).cs,
            final(layouter).asg.n == old(layouter).asg.n,
            final(layouter).asg.instance == old(layouter).asg.instance,
            match r {
                Ok(()) => {
                    let t = old(layouter).next_row as int;
                    &&& t + 10 <= old(layouter).asg.n
                    &&& final(layouter).next_row == t + 10
                    &&& (forall|j: int|
                        0 <= j < 10 ==> #[trigger] final(layouter).asg.advice_view()[0][t + j]
                            == fib_cell(self.a, self.b, j))
                    &&& (forall|j: int|
                        0 <= j < 8 ==> #[trigger] final(layouter).asg.selector_view()[0][t + j]
                            == true)
                    &&& (forall|c2: int, rr: int|
                        0 <= c2 < old(layouter).cs.num_advice && 0 <= rr < old(layouter).asg.n && !(
                        c2 == 0 && t <= rr < t + 10) ==> #[trigger] final(layouter).asg.advice_view()[c2][rr] == old(layouter).asg.advice_view()[c2][rr])
                    &&& (forall|c2: int, rr: int|
                        0 <= c2 < old(layouter).cs.num_selectors && 0 <= rr < old(layouter).asg.n
                            && !(c2 == 0 && t <= rr < t + 8) ==> #[trigger] final(layouter).asg.selector_view()[c2][rr] == old(layouter).asg.selector_view()[c2][rr])
                    &&& final(layouter).asg.copies@ == old(layouter).asg.copies@.push(
                        (
                            Cell { column: fib2_config().advice, row: (t + 9) as usize },
                            Cell { column: fib2_config().instance, row: 0 },
                        ),
                    )
                },
                Err(e) => {
                    &&& e == SetupError::CircuitTooLarge
                    &&& old(layouter).next_row + 10 > old(layouter).asg.n
                },
            },
    {
        let chip = FiboChip::construct(*config);
        let out = match chip.assign_column(layouter, self.a, self.b, 10) {
            Ok(c) => c,
            Err(e) => {
                return Err(e);
            },
        };
        let ghost asg_mid = layouter.asg;
        match chip.expose_public(layouter, &out, 0) {
            Ok(()) => (),
            Err(e) => {
                proof {
                    assert(false);
                }
                return Err(e);
            },
        }
        proof {
            assert(layouter.asg.advice_view() =~~= asg_mid.advice_view());
            assert(layouter.asg.selector_view() =~~= asg_mid.selector_view());
        }
        Ok(())
    }
}

impl Circuit for MyCircuit {
    type Config = FiboConfig;

    /// A structurally identical circuit with both seeds unknown.
    fn without_witnesses(&self) -> (c: Self) {
        self.blank()
    }

    /// Declares an instance column and the chip's column and gate. On a
    /// constraint system too large for the engine's machine bounds it
    /// returns degenerate handles, which synthesis then refuses.
    fn configure(cs: &mut ConstraintSystem) -> (cfg: FiboConfig) {
        if cs.num_advice > MAX_COLUMNS || cs.num_selectors > MAX_COLUMNS || cs.num_instance
            >= MAX_COLUMNS {
            return FiboConfig {
                advice: Column { kind: ColumnKind::Advice, index: 0 },
                selector: Column { kind: ColumnKind::Selector, index: 0 },
                instance: Column { kind: ColumnKind::Instance, index: 0 },
            };
        }
        let instance = cs.instance_column();
        FiboChip::configure(cs, instance)
    }

    /// Checks at run time that the constraint system and configuration
    /// are the ones the circuit declares, then lays the witness out.
    fn synthesize(&self, config: &FiboConfig, layouter: &mut Layouter) -> (r: Result<
        (),
        SetupError,
    >) {
        if layouter.cs.num_advice < 1 || layouter.cs.num_selectors < 1 || layouter.cs.num_instance
            < 1 {
            return Err(SetupError::InvalidColumn);
        }
        if !layouter.cs.advice_equality[0] || !layouter.cs.instance_equality[0] {
            return Err(SetupError::EqualityNotEnabled);
        }
        let expected = FiboConfig {
            advice: Column { kind: ColumnKind::Advice, index: 0 },
            selector: Column { kind: ColumnKind::Selector, index: 0 },
            instance: Column { kind: ColumnKind::Instance, index: 0 },
        };
        if !(*config == expected) {
            return Err(SetupError::InvalidColumn);
        }
        self.lay_out(config, layouter)
    }
}

} // verus!
