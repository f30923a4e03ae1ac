//! The assignment-time API: regions, advice cells, selectors and copy
//! constraints.
//!
//! A layouter owns the absolute cell grid while one synthesis pass fills
//! it. Regions are allocated strictly in call order and row allocation
//! never backtracks; a region's local row numbering is mapped onto the
//! absolute grid by the region's start row.

use vstd::prelude::*;
use crate::field::Fp;
use crate::columns::{Cell, Column, ColumnKind};
use crate::system::{ConstraintSystem, SetupError};

verus! {

/// The largest grid height the engine accepts; a machine bound that keeps
/// all row and cell-index arithmetic inside a machine word.
pub const MAX_ROWS: usize = 0x10_0000;

/// The largest number of advice or of instance columns the engine
/// accepts; a machine bound for the same reason.
pub const MAX_COLUMNS: usize = 0x400;

/// A witness value: a concrete field element, or the placeholder for a
/// value that synthesis has not supplied.
#[derive(Clone, Copy, Debug, PartialEq, Eq, Structural)]
pub enum FValue {
    /// A concrete field element.
    Known(Fp),
    /// Not (yet) assigned.
    Unknown,
}

impl FValue {
    /// The residue carried, if any.
    pub open spec fn as_opt(self) -> Option<int> {
        match self {
            FValue::Known(v) => Some(v.as_int()),
            FValue::Unknown => None,
        }
    }
}

/// The sum of two witness values: unknown as soon as either operand is.
pub open spec fn fv_add(x: FValue, y: FValue) -> FValue {
    match (x, y) {
        (FValue::Known(a), FValue::Known(b)) => FValue::Known(
            crate::field::fp_residue(crate::field::fadd(a.as_int(), b.as_int())),
        ),
        _ => FValue::Unknown,
    }
}

/// Computes [`fv_add`].
pub fn fv_add_exec(x: FValue, y: FValue) -> (r: FValue)
    ensures
        r == fv_add(x, y),
{
    match (x, y) {
        (FValue::Known(a), FValue::Known(b)) => {
            let s = a.add(b);
            proof {
                crate::field::lemma_fp_complete(s);
            }
            FValue::Known(s)
        },
        _ => FValue::Unknown,
    }
}

/// A cell coordinate together with the value assigned there and a
/// human-readable debug label.
#[derive(Clone, Debug, PartialEq, Eq)]
pub struct AssignedCell {
    pub cell: Cell,
    pub value: FValue,
    pub label: String,
}

/// Whether a cell may take part in a copy constraint: it must name an
/// existing, equality-enabled advice or instance column, and a row of the
/// grid.
pub open spec fn copy_cell_ok(c: Cell, cs: ConstraintSystem, n: int) -> bool {
    match c.column.kind {
        ColumnKind::Advice => c.column.index < cs.num_advice && c.row < n
            && cs.advice_equality@[c.column.index as int],
        ColumnKind::Instance => c.column.index < cs.num_instance && c.row < n
            && cs.instance_equality@[c.column.index as int],
        ColumnKind::Selector => false,
    }
}

/// The expected error when a cell is refused for a copy constraint.
pub open spec fn copy_cell_err(c: Cell, cs: ConstraintSystem, n: int) -> SetupError {
    match c.column.kind {
        ColumnKind::Advice => if c.column.index >= cs.num_advice || c.row >= n {
            SetupError::InvalidColumn
        } else {
            SetupError::EqualityNotEnabled
        },
        ColumnKind::Instance => if c.column.index >= cs.num_instance || c.row >= n {
            SetupError::InvalidColumn
        } else {
            SetupError::EqualityNotEnabled
        },
        ColumnKind::Selector => SetupError::EqualityNotEnabled,
    }
}

/// The materialized absolute grid of one synthesis pass: per-column value
/// vectors, the enabled-selector flags, and the declared copy-constraint
/// pairs.
pub struct Assignment {
    /// The number of usable rows.
    pub n: usize,
    /// Advice values, indexed by column then absolute row.
    pub advice: Vec<Vec<FValue>>,
    /// Public input values, indexed by column then absolute row.
    pub instance: Vec<Vec<Fp>>,
    /// Selector flags, indexed by column then absolute row.
    pub selectors: Vec<Vec<bool>>,
    /// The declared copy-constraint pairs.
    pub copies: Vec<(Cell, Cell)>,
}

impl Assignment {
    /// The advice grid as a sequence of column sequences.
    pub open spec fn advice_view(self) -> Seq<Seq<FValue>> {
        Seq::new(self.advice@.len(), |c: int| self.advice@[c]@)
    }

    /// The instance grid as a sequence of column sequences.
    pub open spec fn instance_view(self) -> Seq<Seq<Fp>> {
        Seq::new(self.instance@.len(), |c: int| self.instance@[c]@)
    }

    /// The selector grid as a sequence of column sequences.
    pub open spec fn selector_view(self) -> Seq<Seq<bool>> {
        Seq::new(self.selectors@.len(), |c: int| self.selectors@[c]@)
    }

    /// Structural well-formedness against a constraint system: the grids
    /// match the declared columns, every column holds exactly `n` rows,
    /// and every declared copy pair joins two equality-enabled cells of
    /// the grid.
    pub open spec fn wf(self, cs: ConstraintSystem) -> bool {
        &&& 1 <= self.n <= MAX_ROWS
        &&& cs.num_advice <= MAX_COLUMNS
        &&& cs.num_instance <= MAX_COLUMNS
        &&& self.advice@.len() == cs.num_advice
        &&& (forall|c: int|
            0 <= c < self.advice@.len() ==> (#[trigger] self.advice@[c])@.len() == self.n)
        &&& self.instance@.len() == cs.num_instance
        &&& (forall|c: int|
            0 <= c < self.instance@.len() ==> (#[trigger] self.instance@[c])@.len() == self.n)
        &&& self.selectors@.len() == cs.num_selectors
        &&& (forall|c: int|
            0 <= c < self.selectors@.len() ==> (#[trigger] self.selectors@[c])@.len() == self.n)
        &&& (forall|p: int|
            0 <= p < self.copies@.len() ==> copy_cell_ok(
                (#[trigger] self.copies@[p]).0,
                cs,
                self.n as int,
            ) && copy_cell_ok(self.copies@[p].1, cs, self.n as int))
    }
}

/// A column of `n` placeholder values.
fn unknown_column(n: usize) -> (v: Vec<FValue>)
    ensures
        v@.len() == n,
        forall|i: int| 0 <= i < n ==> v@[i] == FValue::Unknown,
{
    let mut v: Vec<FValue> = Vec::new();
    let mut i: usize = 0;
    while i < n
        invariant
            i <= n,
            v@.len() == i,
            forall|j: int| 0 <= j < i ==> v@[j] == FValue::Unknown,
        decreases n - i,
    {
        v.push(FValue::Unknown);
        i = i + 1;
    }
    v
}

/// A column of `n` cleared selector flags.
fn cleared_column(n: usize) -> (v: Vec<bool>)
    ensures
        v@.len() == n,
        forall|i: int| 0 <= i < n ==> v@[i] == false,
{
    let mut v: Vec<bool> = Vec::new();
    let mut i: usize = 0;
    while i < n
        invariant
            i <= n,
            v@.len() == i,
            forall|j: int| 0 <= j < i ==> v@[j] == false,
        decreases n - i,
    {
        v.push(false);
        i = i + 1;
    }
    v
}

/// The given public inputs, padded with the additive identity to `n`
/// rows.
fn padded_column(src: &Vec<Fp>, n: usize) -> (v: Vec<Fp>)
    requires
        src@.len() <= n,
    ensures
        v@.len() == n,
        forall|i: int| 0 <= i < src@.len() ==> v@[i] == src@[i],
        forall|i: int| src@.len() <= i < n ==> (#[trigger] v@[i]).as_int() == 0,
{
    let mut v: Vec<Fp> = Vec::new();
    let mut i: usize = 0;
    while i < n
        invariant
            i <= n,
            src@.len() <= n,
            v@.len() == i,
            forall|j: int| 0 <= j < i && j < src@.len() ==> v@[j] == src@[j],
            forall|j: int| src@.len() <= j < i ==> (#[trigger] v@[j]).as_int() == 0,
        decreases n - i,
    {
        if i < src.len() {
            v.push(src[i]);
        } else {
            v.push(Fp::zero());
        }
        i = i + 1;
    }
    v
}

/// The single-pass region layouter: it owns the constraint system and the
/// grid being filled, allocates regions in call order, and records copy
/// constraints.
pub struct Layouter {
    /// The frozen constraint system the grid is laid out against.
    pub cs: ConstraintSystem,
    /// The grid being filled.
    pub asg: Assignment,
    /// The first absolute row not yet claimed by a closed region.
    pub next_row: usize,
    /// Whether a region is open.
    pub in_region: bool,
    /// The absolute row the open region starts at.
    pub region_start: usize,
    /// How many rows of the open region have been used so far.
    pub region_rows: usize,
}

impl Layouter {
    /// The layouter's invariant: the grid is well-formed and the open
    /// region, if any, lies inside it.
    pub open spec fn wf(self) -> bool {
        &&& self.cs.wf()
        &&& self.asg.wf(self.cs)
        &&& self.next_row <= self.asg.n
        &&& self.in_region ==> self.region_start == self.next_row && self.region_start
            + self.region_rows <= self.asg.n
        &&& !self.in_region ==> self.region_rows == 0
    }

    /// Builds a layouter over a fresh grid of `n` rows: all advice
    /// unknown, all selectors cleared, and the public inputs bound to the
    /// instance columns in order, padded with the additive identity.
    pub fn new(cs: ConstraintSystem, n: usize, instances: Vec<Vec<Fp>>) -> (r: Result<
        Layouter,
        SetupError,
    >)
        requires
            cs.wf(),
        ensures
            match r {
                Ok(l) => {
                    &&& 1 <= n <= MAX_ROWS
                    &&& cs.num_advice <= MAX_COLUMNS
                    &&& cs.num_instance <= MAX_COLUMNS
                    &&& instances@.len() == cs.num_instance
                    &&& (forall|c: int|
                        0 <= c < instances@.len() ==> (#[trigger] instances@[c])@.len() <= n)
                    &&& l.wf()
                    &&& l.cs == cs
                    &&& l.asg.n == n
                    &&& l.next_row == 0
                    &&& !l.in_region
                    &&& l.asg.copies@.len() == 0
                    &&& (forall|c: int, row: int|
                        0 <= c < cs.num_advice && 0 <= row < n ==> l.asg.advice_view()[c][row]
                            == FValue::Unknown)
                    &&& (forall|c: int, row: int|
                        0 <= c < cs.num_selectors && 0 <= row < n ==> l.asg.selector_view()[c][row]
                            == false)
                    &&& (forall|c: int, row: int|
                        0 <= c < cs.num_instance && 0 <= row < instances@[c]@.len()
                            ==> l.asg.instance_view()[c][row] == instances@[c]@[row])
                    &&& (forall|c: int, row: int|
                        0 <= c < cs.num_instance && instances@[c]@.len() <= row < n ==> (
                        l.asg.instance_view()[c][row]).as_int() == 0)
                },
                Err(e) => {
                    &&& if n < 1 || n > MAX_ROWS {
                        e == SetupError::CircuitTooLarge
                    } else if cs.num_advice > MAX_COLUMNS || cs.num_instance > MAX_COLUMNS {
                        e == SetupError::TooManyColumns
                    } else {
                        &&& e == SetupError::InstanceMismatch
                        &&& (instances@.len() != cs.num_instance || exists|c: int|
                            0 <= c < instances@.len() && (#[trigger] instances@[c])@.len() > n)
                    }
                },
            },
    {
        if n < 1 || n > MAX_ROWS {
            return Err(SetupError::CircuitTooLarge);
        }
        if cs.num_advice > MAX_COLUMNS || cs.num_instance > MAX_COLUMNS {
            return Err(SetupError::TooManyColumns);
        }
        if instances.len() != cs.num_instance {
            return Err(SetupError::InstanceMismatch);
        }
        let mut advice: Vec<Vec<FValue>> = Vec::new();
        let mut c: usize = 0;
        while c < cs.num_advice
            invariant
                c <= cs.num_advice,
                advice@.len() == c,
                forall|j: int| 0 <= j < c ==> (#[trigger] advice@[j])@.len() == n,
                forall|j: int, row: int|
                    0 <= j < c && 0 <= row < n ==> #[trigger] advice@[j]@[row]
                        == FValue::Unknown,
            decreases cs.num_advice - c,
        {
            advice.push(unknown_column(n));
            c = c + 1;
        }
        let mut selectors: Vec<Vec<bool>> = Vec::new();
        let mut s: usize = 0;
        while s < cs.num_selectors
            invariant
                s <= cs.num_selectors,
                selectors@.len() == s,
                forall|j: int| 0 <= j < s ==> (#[trigger] selectors@[j])@.len() == n,
                forall|j: int, row: int|
                    0 <= j < s && 0 <= row < n ==> #[trigger] selectors@[j]@[row] == false,
            decreases cs.num_selectors - s,
        {
            selectors.push(cleared_column(n));
            s = s + 1;
        }
        let mut instance: Vec<Vec<Fp>> = Vec::new();
        let mut ic: usize = 0;
        while ic < instances.len()
            invariant
                ic <= instances@.len(),
                instance@.len() == ic,
                1 <= n <= MAX_ROWS,
                cs.num_advice <= MAX_COLUMNS,
                cs.num_instance <= MAX_COLUMNS,
                instances@.len() == cs.num_instance,
                forall|j: int| 0 <= j < ic ==> (#[trigger] instances@[j])@.len() <= n,
                forall|j: int| 0 <= j < ic ==> (#[trigger] instance@[j])@.len() == n,
                forall|j: int, row: int|
                    0 <= j < ic && 0 <= row < instances@[j]@.len() ==> #[trigger] instance@[j]@[row]
                        == instances@[j]@[row],
                forall|j: int, row: int|
                    0 <= j < ic && instances@[j]@.len() <= row < n ==> (#[trigger] instance@[j]@[row]).as_int()
                        == 0,
            decreases instances@.len() - ic,
        {
            if instances[ic].len() > n {
                return Err(SetupError::InstanceMismatch);
            }
            instance.push(padded_column(&instances[ic], n));
            ic = ic + 1;
        }
        Ok(
            Layouter {
                cs,
                asg: Assignment { n, advice, instance, selectors, copies: Vec::new() },
                next_row: 0,
                in_region: false,
                region_start: 0,
                region_rows: 0,
            },
        )
    }

    /// Opens the next region: it will start at the first free row. The
    /// name is only a debug label.
    pub fn start_region(&mut self, _name: &str)
        requires
            old(self).wf(),
            !old(self).in_region,
        ensures
            final(self).wf(),
            final(self).in_region,
            final(self).region_start == old(self).next_row,
            final(self).region_rows == 0,
            final(self).cs == old(self).cs,
            final(self).asg == old(self).asg,
            final(self).next_row == old(self).next_row,
    {
        self.in_region = true;
        self.region_start = self.next_row;
        self.region_rows = 0;
    }

    /// Closes the open region, claiming the rows it used; the next region
    /// starts after them.
    pub fn end_region(&mut self)
        requires
            old(self).wf(),
            old(self).in_region,
        ensures
            final(self).wf(),
            !final(self).in_region,
            final(self).next_row == old(self).region_start + old(self).region_rows,
            final(self).cs == old(self).cs,
            final(self).asg == old(self).asg,
    {
        self.next_row = self.region_start + self.region_rows;
        self.in_region = false;
        self.region_rows = 0;
    }

    /// Binds a witness value (or the unknown placeholder) to the cell of
    /// an advice column at the open region's local row. Fails exactly
    /// when the absolute row falls outside the grid.
    pub fn assign_advice(&mut self, label: &str, column: Column, offset: usize, value: FValue) -> (r:
        Result<AssignedCell, SetupError>)
        requires
            old(self).wf(),
            old(self).in_region,
            column.kind == ColumnKind::Advice,
            column.index < old(self).cs.num_advice,
        ensures
            final(self).wf(),
            final(self).in_region,
            final(self).cs == old(self).cs,
            final(self).next_row == old(self).next_row,
            final(self).region_start == old(self).region_start,
            final(self).asg.n == old(self).asg.n,
            final(self).asg.instance == old(self).asg.instance,
            final(self).asg.selectors == old(self).asg.selectors,
            final(self).asg.copies == old(self).asg.copies,
            match r {
                Ok(cell) => {
                    &&& old(self).region_start + offset < old(self).asg.n
                    &&& cell.cell == (Cell {
                        column,
                        row: (old(self).region_start + offset) as usize,
                    })
                    &&& cell.value == value
                    &&& cell.label@ == label@
                    &&& final(self).asg.advice_view() == old(self).asg.advice_view().update(
                        column.index as int,
                        old(self).asg.advice_view()[column.index as int].update(
                            old(self).region_start + offset,
                            value,
                        ),
                    )
                    &&& final(self).region_rows == if offset + 1 > old(self).region_rows {
                        offset + 1
                    } else {
                        old(self).region_rows as int
                    }
                },
                Err(e) => {
                    &&& e == SetupError::CircuitTooLarge
                    &&& old(self).region_start + offset >= old(self).asg.n
                    &&& *final(self) == *old(self)
                },
            },
    {
        if offset >= self.asg.n - self.region_start {
            return Err(SetupError::CircuitTooLarge);
        }
        let abs = self.region_start + offset;
        let ghost before = self.asg.advice_view();
        self.asg.advice[column.index].set(abs, value);
        proof {
            assert(self.asg.advice_view() =~~= before.update(
                column.index as int,
                before[column.index as int].update(abs as int, value),
            ));
        }
        if offset + 1 > self.region_rows {
            self.region_rows = offset + 1;
        }
        Ok(AssignedCell { cell: Cell { column, row: abs }, value, label: label.to_owned() })
    }

    /// Marks a selector enabled at the open region's local row. Fails on
    /// a column that is not a selector, on one that was never allocated,
    /// and exactly when the absolute row falls outside the grid.
    pub fn enable(&mut self, selector: Column, offset: usize) -> (r: Result<(), SetupError>)
        requires
            old(self).wf(),
            old(self).in_region,
        ensures
            final(self).wf(),
            final(self).in_region,
            final(self).cs == old(self).cs,
            final(self).next_row == old(self).next_row,
            final(self).region_start == old(self).region_start,
            final(self).asg.n == old(self).asg.n,
            final(self).asg.advice == old(self).asg.advice,
            final(self).asg.instance == old(self).asg.instance,
            final(self).asg.copies == old(self).asg.copies,
            match r {
                Ok(()) => {
                    &&& selector.kind == ColumnKind::Selector
                    &&& selector.index < old(self).cs.num_selectors
                    &&& old(self).region_start + offset < old(self).asg.n
                    &&& final(self).asg.selector_view() == old(self).asg.selector_view().update(
                        selector.index as int,
                        old(self).asg.selector_view()[selector.index as int].update(
                            old(self).region_start + offset,
                            true,
                        ),
                    )
                    &&& final(self).region_rows == if offset + 1 > old(self).region_rows {
                        offset + 1
                    } else {
                        old(self).region_rows as int
                    }
                },
                Err(e) => {
                    &&& *final(self) == *old(self)
                    &&& if selector.kind != ColumnKind::Selector {
                        e == SetupError::NotASelector
                    } else if selector.index >= old(self).cs.num_selectors {
                        e == SetupError::InvalidColumn
                    } else {
                        e == SetupError::CircuitTooLarge && old(self).region_start + offset >= old(
                            self,
                        ).asg.n
                    }
                },
            },
    {
        if !matches!(selector.kind, ColumnKind::Selector) {
            return Err(SetupError::NotASelector);
        }
        if selector.index >= self.cs.num_selectors {
            return Err(SetupError::InvalidColumn);
        }
        if offset >= self.asg.n - self.region_start {
            return Err(SetupError::CircuitTooLarge);
        }
        let abs = self.region_start + offset;
        let ghost before = self.asg.selector_view();
        self.asg.selectors[selector.index].set(abs, true);
        proof {
            assert(self.asg.selector_view() =~~= before.update(
                selector.index as int,
                before[selector.index as int].update(abs as int, true),
            ));
        }
        if offset + 1 > self.region_rows {
            self.region_rows = offset + 1;
        }
        Ok(())
    }

    /// Assigns the value carried by an earlier cell to a new cell of an
    /// equality-enabled advice column, and records the copy constraint
    /// between the two. Fails exactly when the absolute row falls outside
    /// the grid.
    pub fn copy_advice(
        &mut self,
        label: &str,
        from: &AssignedCell,
        column: Column,
        offset: usize,
    ) -> (r: Result<AssignedCell, SetupError>)
        requires
            old(self).wf(),
            old(self).in_region,
            column.kind == ColumnKind::Advice,
            column.index < old(self).cs.num_advice,
            old(self).cs.advice_equality@[column.index as int],
            copy_cell_ok(from.cell, old(self).cs, old(self).asg.n as int),
        ensures
            final(self).wf(),
            final(self).in_region,
            final(self).cs == old(self).cs,
            final(self).next_row == old(self).next_row,
            final(self).region_start == old(self).region_start,
            final(self).asg.n == old(self).asg.n,
            final(self).asg.instance == old(self).asg.instance,
            final(self).asg.selectors == old(self).asg.selectors,
            match r {
                Ok(cell) => {
                    &&& old(self).region_start + offset < old(self).asg.n
                    &&& cell.cell == (Cell {
                        column,
                        row: (old(self).region_start + offset) as usize,
                    })
                    &&& cell.value == from.value
                    &&& cell.label@ == label@
                    &&& final(self).asg.advice_view() == old(self).asg.advice_view().update(
                        column.index as int,
                        old(self).asg.advice_view()[column.index as int].update(
                            old(self).region_start + offset,
                            from.value,
                        ),
                    )
                    &&& final(self).asg.copies@ == old(self).asg.copies@.push(
                        (from.cell, cell.cell),
                    )
                    &&& final(self).region_rows == if offset + 1 > old(self).region_rows {
                        offset + 1
                    } else {
                        old(self).region_rows as int
                    }
                },
                Err(e) => {
                    &&& e == SetupError::CircuitTooLarge
                    &&& old(self).region_start + offset >= old(self).asg.n
                    &&& *final(self) == *old(self)
                },
            },
    {
        if offset >= self.asg.n - self.region_start {
            return Err(SetupError::CircuitTooLarge);
        }
        let abs = self.region_start + offset;
        let ghost before = self.asg.advice_view();
        self.asg.advice[column.index].set(abs, from.value);
        proof {
            assert(self.asg.advice_view() =~~= before.update(
                column.index as int,
                before[column.index as int].update(abs as int, from.value),
            ));
        }
        let target = Cell { column, row: abs };
        self.asg.copies.push((from.cell, target));
        if offset + 1 > self.region_rows {
            self.region_rows = offset + 1;
        }
        Ok(AssignedCell { cell: target, value: from.value, label: label.to_owned() })
    }

    /// Records that an advice cell must equal the public input bound at a
    /// row of an instance column, as a copy constraint between the advice
    /// cell and the instance cell.
    pub fn constrain_instance(&mut self, cell: Cell, instance_column: Column, row: usize) -> (r:
        Result<(), SetupError>)
        requires
            old(self).wf(),
        ensures
            final(self).wf(),
            final(self).cs == old(self).cs,
            final(self).next_row == old(self).next_row,
            final(self).in_region == old(self).in_region,
            final(self).region_start == old(self).region_start,
            final(self).region_rows == old(self).region_rows,
            final(self).asg.n == old(self).asg.n,
            final(self).asg.advice == old(self).asg.advice,
            final(self).asg.instance == old(self).asg.instance,
            final(self).asg.selectors == old(self).asg.selectors,
            match r {
                Ok(()) => {
                    &&& copy_cell_ok(cell, old(self).cs, old(self).asg.n as int)
                    &&& instance_column.kind == ColumnKind::Instance
                    &&& instance_column.index < old(self).cs.num_instance
                    &&& old(self).cs.instance_equality@[instance_column.index as int]
                    &&& row < old(self).asg.n
                    &&& final(self).asg.copies@ == old(self).asg.copies@.push(
                        (cell, Cell { column: instance_column, row }),
                    )
                },
                Err(e) => {
                    &&& *final(self) == *old(self)
                    &&& if !copy_cell_ok(cell, old(self).cs, old(self).asg.n as int) {
                        e == copy_cell_err(cell, old(self).cs, old(self).asg.n as int)
                    } else if instance_column.kind != ColumnKind::Instance || instance_column.index
                        >= old(self).cs.num_instance || row >= old(self).asg.n {
                        e == SetupError::InvalidColumn
                    } else {
                        e == SetupError::EqualityNotEnabled && !old(
                            self,
                        ).cs.instance_equality@[instance_column.index as int]
                    }
                },
            },
    {
        match self.check_copy_cell(cell) {
            Ok(()) => (),
            Err(e) => {
                return Err(e);
            },
        }
        if !matches!(instance_column.kind, ColumnKind::Instance) {
            return Err(SetupError::InvalidColumn);
        }
        if instance_column.index >= self.cs.num_instance {
            return Err(SetupError::InvalidColumn);
        }
        if row >= self.asg.n {
            return Err(SetupError::InvalidColumn);
        }
        if !self.cs.instance_equality[instance_column.index] {
            return Err(SetupError::EqualityNotEnabled);
        }
        self.asg.copies.push((cell, Cell { column: instance_column, row }));
        Ok(())
    }

    /// Decides at run time whether a cell may take part in a copy
    /// constraint.
    fn check_copy_cell(&self, c: Cell) -> (r: Result<(), SetupError>)
        requires
            self.wf(),
        ensures
            match r {
                Ok(()) => copy_cell_ok(c, self.cs, self.asg.n as int),
                Err(e) => !copy_cell_ok(c, self.cs, self.asg.n as int) && e == copy_cell_err(
                    c,
                    self.cs,
                    self.asg.n as int,
                ),
            },
    {
        match c.column.kind {
            ColumnKind::Advice => {
                if c.column.index >= self.cs.num_advice || c.row >= self.asg.n {
                    Err(SetupError::InvalidColumn)
                } else if !self.cs.advice_equality[c.column.index] {
                    Err(SetupError::EqualityNotEnabled)
                } else {
                    Ok(())
                }
            },
            ColumnKind::Instance => {
                if c.column.index >= self.cs.num_instance || c.row >= self.asg.n {
                    Err(SetupError::InvalidColumn)
                } else if !self.cs.instance_equality[c.column.index] {
                    Err(SetupError::EqualityNotEnabled)
                } else {
                    Ok(())
                }
            },
            ColumnKind::Selector => Err(SetupError::EqualityNotEnabled),
        }
    }
}

} // verus!
