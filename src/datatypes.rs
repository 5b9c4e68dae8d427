//! The in-memory notebook document.
use vstd::prelude::*;

verus! {

/// An ordered sequence of cells; order is render order.
pub struct Notebook {
    pub cells: Vec<Cell>,
}

/// One unit of a notebook: a code buffer and an optional result buffer.
pub struct Cell {
    pub code: String,
    pub result: Option<String>,
}

} // verus!
