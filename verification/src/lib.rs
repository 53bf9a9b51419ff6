//! Constraint-and-lookup core of a STARK proving engine.
//!
//! A computation table ("chip") declares its local polynomial constraints and
//! its cross-table lookup interactions; the logup permutation engine glues all
//! chips into one sound multi-table proof by proving multiset equality between
//! the sends and the receives of every interaction kind.

pub mod builder;
pub mod chip;
pub mod extension;
pub mod field;
pub mod fri_fold;
pub mod interaction;
pub mod lookup_air;
pub mod matrix;
pub mod permutation;
pub mod record;
pub mod sha_extend;
pub mod symbolic;
pub mod trace;
pub mod util;
pub mod virtual_column;
