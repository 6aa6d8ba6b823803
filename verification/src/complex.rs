//! Shapers written as grammars over glyph categories.
pub mod indic_machine;
