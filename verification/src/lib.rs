//! Bit-level instruction decoder for the 8086 family.
//!
//! The decoder walks a read-only byte buffer with an explicit [`cursor::BitCursor`],
//! classifies the leading opcode bits, and resolves mode/register/immediate
//! fields into a structured [`insn::Instruction`]. Decoding one instruction is a
//! pure function of the buffer and the start position: every function here is
//! specified against a mathematical model of the bit stream and verified.

pub mod cursor;
pub mod insn;
pub mod laws;
pub mod parser;
