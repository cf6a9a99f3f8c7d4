//! A three-dimensional cellular automaton whose per-cell rule is written in a
//! small expression language, lowered to compute-kernel source, and stepped
//! over a double-buffered grid.

pub mod dispatch;
pub mod dsl;
pub mod engine;
pub mod face_element;
pub mod grid;
pub mod kernel;
pub mod text;
