//! Sampling the memory of one process into a two-column table.
//!
//! The crate holds the rules of a memory probe: how its settings resolve to a
//! destination, how a pair of readings becomes a line of text, and which step
//! follows each look at the process. Touching the operating system (asking
//! for the readings, writing the lines, waiting) is left to the caller.

pub mod config;
pub mod decimal;
pub mod record;
pub mod sampler;
pub mod table;
