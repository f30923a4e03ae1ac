//! The Fibonacci witness chain both example circuits lay out.

use vstd::prelude::*;
use crate::layout::{fv_add, FValue};

verus! {

/// The `k`-th value of the Fibonacci chain seeded with `a` and `b`:
/// every later value is the field sum of the two before it, and unknown
/// as soon as either seed is.
pub open spec fn fib_cell(a: FValue, b: FValue, k: int) -> FValue
    decreases k,
{
    if k <= 0 {
        a
    } else if k == 1 {
        b
    } else {
        fv_add(fib_cell(a, b, k - 2), fib_cell(a, b, k - 1))
    }
}

/// With concrete seeds the whole chain is concrete.
pub proof fn lemma_fib_cell_known(a: FValue, b: FValue, k: int)
    requires
        a is Known,
        b is Known,
        k >= 0,
    ensures
        fib_cell(a, b, k) is Known,
    decreases k,
{
    if k >= 2 {
        lemma_fib_cell_known(a, b, k - 2);
        lemma_fib_cell_known(a, b, k - 1);
    }
}

/// With concrete, reduced seeds every chain value is a concrete,
/// reduced residue.
pub proof fn lemma_fib_cell_range(a: FValue, b: FValue, k: int)
    requires
        a matches FValue::Known(af) && af.inv(),
        b matches FValue::Known(bf) && bf.inv(),
        k >= 0,
    ensures
        fib_cell(a, b, k) matches FValue::Known(f) && f.inv(),
    decreases k,
{
    if k >= 2 {
        lemma_fib_cell_range(a, b, k - 2);
        lemma_fib_cell_range(a, b, k - 1);
        crate::field::lemma_fp_residue(
            crate::field::fadd(
                fib_cell(a, b, k - 2).as_opt()->0,
                fib_cell(a, b, k - 1).as_opt()->0,
            ),
        );
    }
}

} // verus!
