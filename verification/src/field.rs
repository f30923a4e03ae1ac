//! The finite field the engine computes over.
//!
//! Elements are residues modulo a fixed Mersenne prime that fits in a
//! machine word, so every operation is exact modular arithmetic.

use vstd::prelude::*;
use vstd::arithmetic::div_mod::lemma_mod_add_multiples_vanish;

verus! {

/// The order of the field: the Mersenne prime `2^61 - 1`.
pub const MODULUS: u64 = 2305843009213693951;

/// Addition in the field, as a mathematical function on residues.
pub open spec fn fadd(a: int, b: int) -> int {
    (a + b) % (MODULUS as int)
}

/// Subtraction in the field, as a mathematical function on residues.
pub open spec fn fsub(a: int, b: int) -> int {
    (a - b) % (MODULUS as int)
}

/// Multiplication in the field, as a mathematical function on residues.
pub open spec fn fmul(a: int, b: int) -> int {
    (a * b) % (MODULUS as int)
}

/// An element of the prime field of order [`MODULUS`], kept reduced.
#[derive(Clone, Copy, Debug, PartialEq, Eq, Structural)]
pub struct Fp {
    v: u64,
}

impl Fp {
    /// The residue this element stands for, in `0 .. MODULUS`.
    pub closed spec fn as_int(self) -> int {
        self.v as int
    }

    /// Every element is a reduced residue.
    pub open spec fn inv(self) -> bool {
        0 <= self.as_int() < MODULUS as int
    }

    #[verifier::type_invariant]
    spec fn type_inv(self) -> bool {
        self.inv()
    }

    /// The additive identity.
    pub fn zero() -> (r: Fp)
        ensures
            r.as_int() == 0,
    {
        Fp { v: 0 }
    }

    /// The multiplicative identity.
    pub fn one() -> (r: Fp)
        ensures
            r.as_int() == 1,
    {
        Fp { v: 1 }
    }

    /// The element standing for a small integer, reduced into the field.
    pub fn from_u64(x: u64) -> (r: Fp)
        ensures
            r.as_int() == x as int % (MODULUS as int),
    {
        Fp { v: x % MODULUS }
    }

    /// Whether two elements stand for the same residue; equality is
    /// exact.
    pub fn eq_value(self, other: Fp) -> (r: bool)
        ensures
            r == (self.as_int() == other.as_int()),
    {
        self.v == other.v
    }

    /// Whether this element is the additive identity.
    pub fn is_zero(self) -> (r: bool)
        ensures
            r == (self.as_int() == 0),
    {
        self.v == 0
    }

    /// Field addition.
    pub fn add(self, other: Fp) -> (r: Fp)
        ensures
            r.as_int() == fadd(self.as_int(), other.as_int()),
    {
        proof {
            use_type_invariant(self);
            use_type_invariant(other);
        }
        Fp { v: (self.v + other.v) % MODULUS }
    }

    /// Field subtraction.
    pub fn sub(self, other: Fp) -> (r: Fp)
        ensures
            r.as_int() == fsub(self.as_int(), other.as_int()),
    {
        proof {
            use_type_invariant(self);
            use_type_invariant(other);
            lemma_mod_add_multiples_vanish(
                self.as_int() - other.as_int(),
                MODULUS as int,
            );
        }
        Fp { v: (self.v + (MODULUS - other.v)) % MODULUS }
    }

    /// Field multiplication.
    pub fn mul(self, other: Fp) -> (r: Fp)
        ensures
            r.as_int() == fmul(self.as_int(), other.as_int()),
    {
        proof {
            use_type_invariant(self);
            use_type_invariant(other);
            assert((self.v as u128) * (other.v as u128)
                <= 0x1FFFFFFFFFFFFFFFu128 * 0x1FFFFFFFFFFFFFFFu128)
                by (nonlinear_arith)
                requires
                    self.v as u128 <= 0x1FFFFFFFFFFFFFFFu128,
                    other.v as u128 <= 0x1FFFFFFFFFFFFFFFu128,
            ;
        }
        Fp { v: (((self.v as u128) * (other.v as u128)) % (MODULUS as u128)) as u64 }
    }
}

/// The element standing for a residue, at the specification level.
pub closed spec fn fp_residue(x: int) -> Fp {
    Fp { v: (x % (MODULUS as int)) as u64 }
}

/// What `fp_residue` stands for.
pub proof fn lemma_fp_residue(x: int)
    ensures
        fp_residue(x).as_int() == x % (MODULUS as int),
        fp_residue(x).inv(),
{
}

/// Two elements with the same residue are the same element.
pub proof fn lemma_fp_complete(f: Fp)
    requires
        f.inv(),
    ensures
        fp_residue(f.as_int()) == f,
{
    vstd::arithmetic::div_mod::lemma_small_mod(f.as_int() as nat, MODULUS as nat);
}

/// Adding the same operand to two distinct reduced residues gives
/// distinct sums: field addition is injective in either argument.
pub proof fn lemma_fadd_injective(a: int, b: int, x: int)
    requires
        0 <= a < MODULUS as int,
        0 <= b < MODULUS as int,
        a != b,
    ensures
        fadd(a, x) != fadd(b, x),
        fadd(x, a) != fadd(x, b),
{
    if fadd(a, x) == fadd(b, x) || fadd(x, a) == fadd(x, b) {
        vstd::arithmetic::div_mod::lemma_mod_equivalence(a + x, b + x, MODULUS as int);
        vstd::arithmetic::div_mod::lemma_mod_equivalence(x + a, x + b, MODULUS as int);
        lemma_fsub_nonzero(a, b);
        assert(false);
    }
}

/// Two distinct reduced residues never subtract to the additive identity.
pub proof fn lemma_fsub_nonzero(a: int, b: int)
    requires
        0 <= a < MODULUS as int,
        0 <= b < MODULUS as int,
        a != b,
    ensures
        fsub(a, b) != 0,
{
    if a < b {
        lemma_mod_add_multiples_vanish(a - b, MODULUS as int);
    }
}

} // verus!
