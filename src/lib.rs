//! Execution core of an interpreter for a small 8-bit virtual machine:
//! sixteen byte registers, a 4 KiB address space, a call stack kept in
//! memory, two countdown timers and a xorshift random source.

pub mod cpu;
pub mod decode;
pub mod laws;
pub mod nibbles;
