//! Polynomial expressions over column queries.
//!
//! An expression is a tree over constants, column queries at a rotation, and
//! the three ring operations. A gate registers expressions that must
//! evaluate to the additive identity wherever its guarding selector is
//! enabled.

use vstd::prelude::*;
use crate::field::Fp;
use crate::columns::MAX_ROTATION;

verus! {

/// A polynomial expression over the cells of one row and its neighbours.
///
/// Column queries name columns by index; the rotation is the signed row
/// offset the query reads at.
#[derive(Debug)]
pub enum Expression {
    /// A constant field element.
    Constant(Fp),
    /// The value of an advice column at the given rotation.
    Advice(usize, i64),
    /// The value of an instance column at the given rotation.
    Instance(usize, i64),
    /// The boolean flag of a selector column at the row under test,
    /// read as zero or one.
    Selector(usize),
    /// The sum of two expressions.
    Sum(Box<Expression>, Box<Expression>),
    /// The difference of two expressions.
    Difference(Box<Expression>, Box<Expression>),
    /// The product of two expressions.
    Product(Box<Expression>, Box<Expression>),
}

/// Well-formedness of an expression against the column counts of a
/// constraint system: every query names an existing column and every
/// rotation is within the machine bound.
pub open spec fn expr_wf(e: Expression, num_advice: int, num_instance: int, num_selectors: int) -> bool
    decreases e,
{
    match e {
        Expression::Constant(_) => true,
        Expression::Advice(col, rot) => col < num_advice && -MAX_ROTATION <= rot <= MAX_ROTATION,
        Expression::Instance(col, rot) => col < num_instance && -MAX_ROTATION <= rot <= MAX_ROTATION,
        Expression::Selector(col) => col < num_selectors,
        Expression::Sum(a, b) => expr_wf(*a, num_advice, num_instance, num_selectors)
            && expr_wf(*b, num_advice, num_instance, num_selectors),
        Expression::Difference(a, b) => expr_wf(*a, num_advice, num_instance, num_selectors)
            && expr_wf(*b, num_advice, num_instance, num_selectors),
        Expression::Product(a, b) => expr_wf(*a, num_advice, num_instance, num_selectors)
            && expr_wf(*b, num_advice, num_instance, num_selectors),
    }
}

/// Well-formedness is preserved when a constraint system grows: an
/// expression that queries only existing columns still does after more
/// columns are allocated.
pub proof fn lemma_expr_wf_mono(
    e: Expression,
    na: int,
    ni: int,
    ns: int,
    na2: int,
    ni2: int,
    ns2: int,
)
    requires
        expr_wf(e, na, ni, ns),
        na <= na2,
        ni <= ni2,
        ns <= ns2,
    ensures
        expr_wf(e, na2, ni2, ns2),
    decreases e,
{
    match e {
        Expression::Sum(a, b) => {
            lemma_expr_wf_mono(*a, na, ni, ns, na2, ni2, ns2);
            lemma_expr_wf_mono(*b, na, ni, ns, na2, ni2, ns2);
        },
        Expression::Difference(a, b) => {
            lemma_expr_wf_mono(*a, na, ni, ns, na2, ni2, ns2);
            lemma_expr_wf_mono(*b, na, ni, ns, na2, ni2, ns2);
        },
        Expression::Product(a, b) => {
            lemma_expr_wf_mono(*a, na, ni, ns, na2, ni2, ns2);
            lemma_expr_wf_mono(*b, na, ni, ns, na2, ni2, ns2);
        },
        _ => {},
    }
}

impl Expression {
    /// Composes the sum of two expressions.
    pub fn plus(self, other: Expression) -> (r: Expression)
        ensures
            r matches Expression::Sum(a, b) && *a == self && *b == other,
    {
        Expression::Sum(Box::new(self), Box::new(other))
    }

    /// Composes the difference of two expressions.
    pub fn minus(self, other: Expression) -> (r: Expression)
        ensures
            r matches Expression::Difference(a, b) && *a == self && *b == other,
    {
        Expression::Difference(Box::new(self), Box::new(other))
    }

    /// Composes the product of two expressions.
    pub fn times(self, other: Expression) -> (r: Expression)
        ensures
            r matches Expression::Product(a, b) && *a == self && *b == other,
    {
        Expression::Product(Box::new(self), Box::new(other))
    }
}

} // verus!
