//! A three-dimensional cellular automaton on a cubic grid: rule tables,
//! a double-buffered grid with its step evaluator, the cell wire records,
//! and the live-cell mesh handed to a renderer.

pub mod cube;
pub mod grid;
pub mod record;
pub mod rules;
pub mod scene;
pub mod simulation;
