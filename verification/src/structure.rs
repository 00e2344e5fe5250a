//! The layers and columns that place a neuron in the cortical structure.

use vstd::prelude::*;

verus! {

/// The cortical layer of a neuron.
#[derive(Clone, Copy, Debug, PartialEq, Eq, Structural)]
pub enum ColumnLayer {
    L1,
    L2,
    L3,
    L4,
    L5,
    L6,
}

/// The cortical layer of a column.
#[derive(Clone, Copy, Debug, PartialEq, Eq, Structural)]
pub enum CorticalColumnLayer {
    L1,
    L2,
    L3,
    L4,
    L5,
    L6,
}

/// A column at a place on the cortical sheet.
#[derive(Clone, Copy, Debug)]
pub struct CorticalColumn {
    pub x: i64,
    pub y: i64,
}

/// Marks a group of mini columns.
#[derive(Clone, Copy, Debug)]
pub struct MacroColumn;

} // verus!
