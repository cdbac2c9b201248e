//! A tiny byte-code machine, verified.
//!
//! The machine owns a fixed 256-byte memory split into a data region
//! (bytes 0..8) and an instruction region (bytes 8..256), two general
//! registers and a program counter.  `machine` gives the mathematical
//! small-step semantics, `interp` the executable fetch-decode-execute
//! loop proved against it, and `laws` the behavioural theorems.

pub mod interp;
pub mod laws;
pub mod machine;

pub use interp::compute;
pub use machine::Fault;
pub use machine::{ADD, ADDI, BEQZ, HALT, JUMP, LOAD, STORE, SUB, SUBI};
pub use machine::{MEMORY_SHIFT, MEMORY_SIZE};
