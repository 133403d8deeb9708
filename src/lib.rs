//! A byte-level mutation engine for fuzzing: a small seeded generator, the mutation strategies,
//! and an engine that picks one strategy per call and applies it to a fresh input.
use vstd::prelude::*;

pub mod bytes;
pub mod engine;
pub mod magic;
pub mod rng;
pub mod strategies;

pub use bytes::{overwrite_at, reverse_window, splice_bytes, step_window, write_be};
pub use engine::{Mutator, MutationEngine, TestCase};
pub use rng::Rng;

verus! {

} // verus!
