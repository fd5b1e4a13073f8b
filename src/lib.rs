//! A reactive, type-checked table store: typed cell values, per-column type
//! constraints, observable cells and a bounds-checked table of rows.
pub mod cell;
pub mod column;
pub mod data;
pub mod datum;
pub mod laws;
pub mod number;
