//! A collection of small verified machines and utilities: a one-dimensional
//! particle-collision cellular automaton, an elementary (Wolfram-coded)
//! automaton, and assorted string, list and arithmetic exercises.

pub mod blog;
pub mod collider;
pub mod config;
pub mod guess;
pub mod inclusive_split;
pub mod list;
pub mod option_monad;
pub mod piggy;
pub mod piggy_simple;
pub mod resource;
pub mod result_ex;
pub mod result_monad;
pub mod result_monad_error;
pub mod rng;
pub mod search;
pub mod semigroup;
pub mod stats;
pub mod text;
pub mod wolfram;
pub mod word_iter;
