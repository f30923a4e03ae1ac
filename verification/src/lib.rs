//! A minimal PLONKish constraint-system engine.
//!
//! The crate lets a circuit declare algebraic columns, register polynomial
//! gate constraints, lay a witness out into regions, enforce copy (equality)
//! constraints between cells, bind public inputs, and check whether a
//! concrete assignment satisfies every declared constraint over a finite
//! field.

pub mod field;
pub mod columns;
pub mod expression;
pub mod system;
pub mod layout;
pub mod checker;
pub mod fib;
pub mod fib_three_column;
pub mod fib_single_column;
pub mod laws;
