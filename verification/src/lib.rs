//! Core of a small modal line editor: a split-representation line buffer,
//! a screen-relative cursor, and the viewport computation that selects the
//! lines to draw.

pub mod buffer;
pub mod cursor;
pub mod editor;
