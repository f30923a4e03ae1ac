//! Column handles, row rotations and cell coordinates.

use vstd::prelude::*;

verus! {

/// The three kinds of column a constraint system can hold.
#[derive(Clone, Copy, Debug, PartialEq, Eq, Structural)]
pub enum ColumnKind {
    /// A column of private witness values.
    Advice,
    /// A column of public input values, bound externally.
    Instance,
    /// A boolean column controlling which rows a gate applies to.
    Selector,
}

/// A column handle: identity is the pair of kind and index.
#[derive(Clone, Copy, Debug, PartialEq, Eq, Structural)]
pub struct Column {
    pub kind: ColumnKind,
    pub index: usize,
}

/// A signed row offset used when a gate queries a column relative to the
/// row under test.
#[derive(Clone, Copy, Debug, PartialEq, Eq, Structural)]
pub struct Rotation {
    pub offset: i64,
}

/// The largest magnitude a rotation may have; far larger than any circuit
/// needs, small enough that row arithmetic never overflows a machine word.
pub const MAX_ROTATION: i64 = 0x1000_0000;

impl Rotation {
    /// The row currently being tested.
    pub fn cur() -> (r: Rotation)
        ensures
            r.offset == 0,
    {
        Rotation { offset: 0 }
    }

    /// One row below the row currently being tested.
    pub fn next() -> (r: Rotation)
        ensures
            r.offset == 1,
    {
        Rotation { offset: 1 }
    }

    /// One row above the row currently being tested.
    pub fn prev() -> (r: Rotation)
        ensures
            r.offset == -1,
    {
        Rotation { offset: -1 }
    }

    /// An arbitrary row offset.
    pub fn at(offset: i64) -> (r: Rotation)
        requires
            -MAX_ROTATION <= offset <= MAX_ROTATION,
        ensures
            r.offset == offset,
    {
        Rotation { offset }
    }
}

/// An absolute cell coordinate: a column and an absolute row index.
#[derive(Clone, Copy, Debug, PartialEq, Eq, Structural)]
pub struct Cell {
    pub column: Column,
    pub row: usize,
}

} // verus!
