//! Layout and rendering of a notebook of code cells onto a terminal grid,
//! with the on-screen cursor position of the focused text field.
pub mod datatypes;
pub mod geometry;
pub mod text;
pub mod widgets;
