//! A verified virtual machine for an eight-instruction language operating on a
//! linear memory tape.
//!
//! The crate has two components: a jump resolver, which validates bracket
//! balance in a program and precomputes a bidirectional jump table, and an
//! execution engine, which dispatches instructions over a fixed-size tape of
//! wrapping eight-bit cells until the program counter runs off the end of the
//! code.

pub mod laws;
pub mod opcode;
pub mod resolver;
pub mod vm;
