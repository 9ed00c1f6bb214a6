//! A character-driven finite-state-automaton engine.
//!
//! A caller builds a graph of named states, each with a total or partial
//! transition policy over input symbols, and drives it one symbol at a time
//! from an entry state to a terminal state.

pub mod digits;
pub mod driver;
pub mod graph;
