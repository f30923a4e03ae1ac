//! The constraint system: columns, gates and equality-enabled flags.
//!
//! Columns and gates are created once while a circuit is configured and are
//! immutable thereafter.

use vstd::prelude::*;
use crate::columns::{Column, ColumnKind, Rotation};
use crate::expression::{Expression, expr_wf};

verus! {

/// A fatal setup-time error: the check aborts before any constraint is
/// evaluated.
#[derive(Clone, Copy, Debug, PartialEq, Eq, Structural)]
pub enum SetupError {
    /// A region's allocation would exceed the `2^k` rows of the grid.
    CircuitTooLarge,
    /// A column handle does not exist in the constraint system, or has the
    /// wrong kind for the operation.
    InvalidColumn,
    /// A selector operation named a column that is not a selector.
    NotASelector,
    /// A copy constraint touched a column that is not equality-enabled.
    EqualityNotEnabled,
    /// The public input vectors do not fit the declared instance columns.
    InstanceMismatch,
    /// More advice or instance columns were declared than the engine's
    /// machine bound allows.
    TooManyColumns,
}

/// A named polynomial gate: its expressions must evaluate to the additive
/// identity at every row where the guarding selector is enabled.
pub struct Gate {
    /// A human-readable name, used only for diagnostics.
    pub name: String,
    /// The index of the guarding selector column.
    pub selector: usize,
    /// The polynomial constraints this gate imposes.
    pub polys: Vec<Expression>,
}

/// Gates that are well-formed against a constraint system stay so after
/// more columns are allocated.
proof fn lemma_gates_wf_mono(
    gates: Seq<Gate>,
    na: int,
    ni: int,
    ns: int,
    na2: int,
    ni2: int,
    ns2: int,
)
    requires
        forall|g: int| 0 <= g < gates.len() ==> (#[trigger] gates[g]).wf(na, ni, ns),
        na <= na2,
        ni <= ni2,
        ns <= ns2,
    ensures
        forall|g: int| 0 <= g < gates.len() ==> (#[trigger] gates[g]).wf(na2, ni2, ns2),
{
    assert forall|g: int| 0 <= g < gates.len() implies (#[trigger] gates[g]).wf(
        na2,
        ni2,
        ns2,
    ) by {
        let gate = gates[g];
        assert forall|i: int| 0 <= i < gate.polys@.len() implies expr_wf(
            #[trigger] gate.polys@[i],
            na2,
            ni2,
            ns2,
        ) by {
            crate::expression::lemma_expr_wf_mono(gate.polys@[i], na, ni, ns, na2, ni2, ns2);
        }
    }
}

impl Gate {
    /// Every query of this gate names an existing column.
    pub open spec fn wf(self, num_advice: int, num_instance: int, num_selectors: int) -> bool {
        &&& self.selector < num_selectors
        &&& forall|i: int|
            0 <= i < self.polys@.len() ==> expr_wf(
                #[trigger] self.polys@[i],
                num_advice,
                num_instance,
                num_selectors,
            )
    }
}

/// The set of declared columns, equality-enabled flags and gates.
pub struct ConstraintSystem {
    /// How many advice columns exist; their indices are `0..num_advice`.
    pub num_advice: usize,
    /// How many instance columns exist.
    pub num_instance: usize,
    /// How many selector columns exist.
    pub num_selectors: usize,
    /// Per advice column, whether it may take part in copy constraints.
    pub advice_equality: Vec<bool>,
    /// Per instance column, whether it may take part in copy constraints.
    pub instance_equality: Vec<bool>,
    /// The registered gates.
    pub gates: Vec<Gate>,
}

impl ConstraintSystem {
    /// Structural well-formedness: the flag vectors match the column
    /// counts and every gate queries only existing columns.
    pub open spec fn wf(self) -> bool {
        &&& self.advice_equality@.len() == self.num_advice
        &&& self.instance_equality@.len() == self.num_instance
        &&& forall|g: int|
            0 <= g < self.gates@.len() ==> (#[trigger] self.gates@[g]).wf(
                self.num_advice as int,
                self.num_instance as int,
                self.num_selectors as int,
            )
    }

    /// An empty constraint system: no columns, no gates.
    pub fn new() -> (r: ConstraintSystem)
        ensures
            r.wf(),
            r.num_advice == 0,
            r.num_instance == 0,
            r.num_selectors == 0,
            r.gates@.len() == 0,
    {
        ConstraintSystem {
            num_advice: 0,
            num_instance: 0,
            num_selectors: 0,
            advice_equality: Vec::new(),
            instance_equality: Vec::new(),
            gates: Vec::new(),
        }
    }

    /// Allocates a fresh advice column, not yet equality-enabled.
    pub fn advice_column(&mut self) -> (c: Column)
        requires
            old(self).wf(),
            old(self).num_advice < usize::MAX,
        ensures
            final(self).wf(),
            c == (Column { kind: ColumnKind::Advice, index: old(self).num_advice }),
            final(self).num_advice == old(self).num_advice + 1,
            final(self).advice_equality@ == old(self).advice_equality@.push(false),
            final(self).num_instance == old(self).num_instance,
            final(self).num_selectors == old(self).num_selectors,
            final(self).instance_equality == old(self).instance_equality,
            final(self).gates == old(self).gates,
    {
        proof {
            lemma_gates_wf_mono(
                self.gates@,
                self.num_advice as int,
                self.num_instance as int,
                self.num_selectors as int,
                self.num_advice + 1,
                self.num_instance as int,
                self.num_selectors as int,
            );
        }
        let index = self.num_advice;
        self.num_advice = self.num_advice + 1;
        self.advice_equality.push(false);
        Column { kind: ColumnKind::Advice, index }
    }

    /// Allocates a fresh instance column, not yet equality-enabled.
    pub fn instance_column(&mut self) -> (c: Column)
        requires
            old(self).wf(),
            old(self).num_instance < usize::MAX,
        ensures
            final(self).wf(),
            c == (Column { kind: ColumnKind::Instance, index: old(self).num_instance }),
            final(self).num_instance == old(self).num_instance + 1,
            final(self).instance_equality@ == old(self).instance_equality@.push(false),
            final(self).num_advice == old(self).num_advice,
            final(self).num_selectors == old(self).num_selectors,
            final(self).advice_equality == old(self).advice_equality,
            final(self).gates == old(self).gates,
    {
        proof {
            lemma_gates_wf_mono(
                self.gates@,
                self.num_advice as int,
                self.num_instance as int,
                self.num_selectors as int,
                self.num_advice as int,
                self.num_instance + 1,
                self.num_selectors as int,
            );
        }
        let index = self.num_instance;
        self.num_instance = self.num_instance + 1;
        self.instance_equality.push(false);
        Column { kind: ColumnKind::Instance, index }
    }

    /// Allocates a fresh selector column.
    pub fn selector(&mut self) -> (c: Column)
        requires
            old(self).wf(),
            old(self).num_selectors < usize::MAX,
        ensures
            final(self).wf(),
            c == (Column { kind: ColumnKind::Selector, index: old(self).num_selectors }),
            final(self).num_selectors == old(self).num_selectors + 1,
            final(self).num_advice == old(self).num_advice,
            final(self).num_instance == old(self).num_instance,
            final(self).advice_equality == old(self).advice_equality,
            final(self).instance_equality == old(self).instance_equality,
            final(self).gates == old(self).gates,
    {
        proof {
            lemma_gates_wf_mono(
                self.gates@,
                self.num_advice as int,
                self.num_instance as int,
                self.num_selectors as int,
                self.num_advice as int,
                self.num_instance as int,
                self.num_selectors + 1,
            );
        }
        let index = self.num_selectors;
        self.num_selectors = self.num_selectors + 1;
        Column { kind: ColumnKind::Selector, index }
    }

    /// Marks an advice or instance column as eligible for copy
    /// constraints. Fails on a selector or on a column that was never
    /// allocated.
    pub fn enable_equality(&mut self, column: Column) -> (r: Result<(), SetupError>)
        requires
            old(self).wf(),
        ensures
            final(self).wf(),
            final(self).num_advice == old(self).num_advice,
            final(self).num_instance == old(self).num_instance,
            final(self).num_selectors == old(self).num_selectors,
            final(self).gates == old(self).gates,
            match r {
                Ok(()) => {
                    &&& match column.kind {
                        ColumnKind::Advice => {
                            &&& column.index < old(self).num_advice
                            &&& final(self).advice_equality@ == old(
                                self,
                            ).advice_equality@.update(column.index as int, true)
                            &&& final(self).instance_equality == old(self).instance_equality
                        },
                        ColumnKind::Instance => {
                            &&& column.index < old(self).num_instance
                            &&& final(self).instance_equality@ == old(
                                self,
                            ).instance_equality@.update(column.index as int, true)
                            &&& final(self).advice_equality == old(self).advice_equality
                        },
                        ColumnKind::Selector => false,
                    }
                },
                Err(e) => {
                    &&& *final(self) == *old(self)
                    &&& match column.kind {
                        ColumnKind::Advice => column.index >= old(self).num_advice && e
                            == SetupError::InvalidColumn,
                        ColumnKind::Instance => column.index >= old(self).num_instance && e
                            == SetupError::InvalidColumn,
                        ColumnKind::Selector => e == SetupError::EqualityNotEnabled,
                    }
                },
            },
    {
        match column.kind {
            ColumnKind::Advice => {
                if column.index < self.num_advice {
                    self.advice_equality.set(column.index, true);
                    Ok(())
                } else {
                    Err(SetupError::InvalidColumn)
                }
            },
            ColumnKind::Instance => {
                if column.index < self.num_instance {
                    self.instance_equality.set(column.index, true);
                    Ok(())
                } else {
                    Err(SetupError::InvalidColumn)
                }
            },
            ColumnKind::Selector => Err(SetupError::EqualityNotEnabled),
        }
    }

    /// Registers a gate: a name, a guarding selector and the finished
    /// expression trees that must vanish wherever the selector is enabled.
    pub fn create_gate(&mut self, name: &str, selector: Column, polys: Vec<Expression>) -> (r:
        Result<(), SetupError>)
        requires
            old(self).wf(),
        ensures
            final(self).wf(),
            final(self).num_advice == old(self).num_advice,
            final(self).num_instance == old(self).num_instance,
            final(self).num_selectors == old(self).num_selectors,
            final(self).advice_equality == old(self).advice_equality,
            final(self).instance_equality == old(self).instance_equality,
            match r {
                Ok(()) => {
                    &&& selector.kind == ColumnKind::Selector
                    &&& selector.index < old(self).num_selectors
                    &&& (forall|i: int|
                        0 <= i < polys@.len() ==> expr_wf(
                            #[trigger] polys@[i],
                            old(self).num_advice as int,
                            old(self).num_instance as int,
                            old(self).num_selectors as int,
                        ))
                    &&& final(self).gates@.len() == old(self).gates@.len() + 1
                    &&& (forall|g: int|
                        0 <= g < old(self).gates@.len() ==> #[trigger] final(self).gates@[g] == old(
                            self,
                        ).gates@[g])
                    &&& final(self).gates@.last().name@ == name@
                    &&& final(self).gates@.last().selector == selector.index
                    &&& final(self).gates@.last().polys == polys
                },
                Err(e) => {
                    &&& *final(self) == *old(self)
                    &&& if selector.kind != ColumnKind::Selector {
                        e == SetupError::NotASelector
                    } else if selector.index >= old(self).num_selectors {
                        e == SetupError::InvalidColumn
                    } else {
                        e == SetupError::InvalidColumn && exists|i: int|
                            0 <= i < polys@.len() && !expr_wf(
                                #[trigger] polys@[i],
                                old(self).num_advice as int,
                                old(self).num_instance as int,
                                old(self).num_selectors as int,
                            )
                    }
                },
            },
    {
        if !matches!(selector.kind, ColumnKind::Selector) {
            return Err(SetupError::NotASelector);
        }
        if selector.index >= self.num_selectors {
            return Err(SetupError::InvalidColumn);
        }
        let mut i: usize = 0;
        while i < polys.len()
            invariant
                i <= polys@.len(),
                *self == *old(self),
                self.wf(),
                selector.kind == ColumnKind::Selector,
                selector.index < self.num_selectors,
                forall|j: int|
                    0 <= j < i ==> expr_wf(
                        #[trigger] polys@[j],
                        self.num_advice as int,
                        self.num_instance as int,
                        self.num_selectors as int,
                    ),
            decreases polys@.len() - i,
        {
            if !Self::expr_wf_check(
                &polys[i],
                self.num_advice,
                self.num_instance,
                self.num_selectors,
            ) {
                return Err(SetupError::InvalidColumn);
            }
            i = i + 1;
        }
        self.gates.push(Gate { name: name.to_owned(), selector: selector.index, polys });
        Ok(())
    }

    /// Decides at run time whether an expression queries only existing
    /// columns.
    fn expr_wf_check(e: &Expression, num_advice: usize, num_instance: usize, num_selectors: usize)
        -> (r: bool)
        ensures
            r == expr_wf(*e, num_advice as int, num_instance as int, num_selectors as int),
        decreases *e,
    {
        match e {
            Expression::Constant(_) => true,
            Expression::Advice(col, rot) => *col < num_advice && -crate::columns::MAX_ROTATION
                <= *rot && *rot <= crate::columns::MAX_ROTATION,
            Expression::Instance(col, rot) => *col < num_instance && -crate::columns::MAX_ROTATION
                <= *rot && *rot <= crate::columns::MAX_ROTATION,
            Expression::Selector(col) => *col < num_selectors,
            Expression::Sum(a, b) => Self::expr_wf_check(a, num_advice, num_instance, num_selectors)
                && Self::expr_wf_check(b, num_advice, num_instance, num_selectors),
            Expression::Difference(a, b) => Self::expr_wf_check(
                a,
                num_advice,
                num_instance,
                num_selectors,
            ) && Self::expr_wf_check(b, num_advice, num_instance, num_selectors),
            Expression::Product(a, b) => Self::expr_wf_check(
                a,
                num_advice,
                num_instance,
                num_selectors,
            ) && Self::expr_wf_check(b, num_advice, num_instance, num_selectors),
        }
    }

    /// Builds the query of an advice column at a rotation.
    pub fn query_advice(&self, column: Column, at: Rotation) -> (e: Expression)
        requires
            column.kind == ColumnKind::Advice,
            column.index < self.num_advice,
        ensures
            e == Expression::Advice(column.index, at.offset),
    {
        Expression::Advice(column.index, at.offset)
    }

    /// Builds the query of an instance column at a rotation.
    pub fn query_instance(&self, column: Column, at: Rotation) -> (e: Expression)
        requires
            column.kind == ColumnKind::Instance,
            column.index < self.num_instance,
        ensures
            e == Expression::Instance(column.index, at.offset),
    {
        Expression::Instance(column.index, at.offset)
    }

    /// Builds the query of a selector column at the row under test.
    pub fn query_selector(&self, column: Column) -> (e: Expression)
        requires
            column.kind == ColumnKind::Selector,
            column.index < self.num_selectors,
        ensures
            e == Expression::Selector(column.index),
    {
        Expression::Selector(column.index)
    }
}

} // verus!
