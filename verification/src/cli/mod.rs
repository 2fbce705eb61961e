//! The command-line tool's logic: evaluation tallies, the synthetic-data
//! generator's random source, and review commands. Argument parsing, files
//! and printing sit with the runtime.

pub mod eval;
pub mod review;
pub mod synth;
