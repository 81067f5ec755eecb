//! A verified virtual machine for the LC-3, a 16-bit word-addressed
//! architecture: a register file with condition flags, a 64K-word memory with
//! two memory-mapped keyboard registers, an instruction decoder, the
//! fetch-decode-execute loop for all sixteen opcodes, and the trap dispatch
//! for console I/O.
//!
//! Console input and output are passed as plain values: each step of the
//! machine takes the keystroke that is currently pending (if any) and appends
//! the bytes it writes to an output buffer. The surrounding program performs
//! the actual blocking reads and writes.

pub mod bits;
pub mod decode;
pub mod machine;
pub mod trap;
