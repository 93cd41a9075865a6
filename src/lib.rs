//! A one-dimensional, two-state elementary cellular automaton on a circular row.
pub mod generation;
pub mod laws;
pub mod rule;
pub mod simulation;
