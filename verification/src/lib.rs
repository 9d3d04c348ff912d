//! A deterministic simulator for a small eBPF-like register machine.
//!
//! A program is a tape of instructions over eleven 64-bit registers and a
//! flat memory of 64-bit cells. Branch targets may be written as literal
//! displacements or as labels, which are resolved once when the machine is
//! built. Every executable function is proved against the mathematical
//! description of the machine in [`semantics`].

pub mod interp;
pub mod laws;
pub mod semantics;
pub mod types;
