//! The data model of a decoded instruction: registers, addressing forms,
//! immediates, operand roles, operation kinds, and decode errors.

use vstd::prelude::*;

verus! {

/// A machine register, identified by its 3-bit encoding `index` (0–7) and a
/// width: `wide` registers are the full 16-bit registers, narrow ones the
/// 8-bit low/high byte registers.
#[derive(Clone, Copy, PartialEq, Eq, Structural, Debug)]
pub struct Register {
    pub index: u8,
    pub wide: bool,
}

impl Register {
    /// A register index is a 3-bit field.
    pub open spec fn wf(self) -> bool {
        self.index < 8
    }

    /// The 16-bit register encoded by a 3-bit field value.
    pub fn word(index: u8) -> (r: Register)
        requires
            index < 8,
        ensures
            r == (Register { index, wide: true }),
    {
        Register { index, wide: true }
    }

    /// The 8-bit register encoded by a 3-bit field value.
    pub fn byte(index: u8) -> (r: Register)
        requires
            index < 8,
        ensures
            r == (Register { index, wide: false }),
    {
        Register { index, wide: false }
    }
}

/// One of the eight base-register combinations a 3-bit register/memory field
/// can select when the mode field is not register-direct, in field-value
/// order 0–7.
#[derive(Clone, Copy, PartialEq, Eq, Structural, Debug)]
pub enum Address {
    BxSi,
    BxDi,
    BpSi,
    BpDi,
    Si,
    Di,
    Bp,
    Bx,
}

/// An immediate literal: one byte, or one little-endian word.
#[derive(Clone, Copy, PartialEq, Eq, Structural, Debug)]
pub enum Immediate {
    Byte(u8),
    Word(u16),
}

/// A memory effective address: a base-register combination, bare or with a
/// displacement that is added to the base.
#[derive(Clone, Copy, PartialEq, Eq, Structural, Debug)]
pub enum EAddress {
    Bare(Address),
    WithOffset(Address, Immediate),
}

/// An operand naming a place: a register, or a memory effective address.
#[derive(Clone, Copy, PartialEq, Eq, Structural, Debug)]
pub enum Location {
    Reg(Register),
    Addr(EAddress),
}

/// A right-hand operand: a place, or an immediate literal.
#[derive(Clone, Copy, PartialEq, Eq, Structural, Debug)]
pub enum Source {
    Loc(Location),
    Imm(Immediate),
}

/// The instruction families this scope classifies. `MovImmediateRM` and
/// `MovAccumulator` are recognized but their field layout is not decoded yet;
/// `Unrecognized` carries the leading 4-bit pattern that matched no family.
#[derive(Clone, Copy, PartialEq, Eq, Structural, Debug)]
pub enum Op {
    /// Register/memory to or from register (`100010dw`).
    MovRegRM,
    /// Immediate to register (`1011wrrr`).
    MovImmediateReg,
    /// Immediate to register/memory (`1100...`), not decoded in this scope.
    MovImmediateRM,
    /// Memory to or from accumulator (`1010...`), not decoded in this scope.
    MovAccumulator,
    /// A leading pattern outside the dispatch table, kept for diagnostics.
    Unrecognized(u8),
}

/// One decoded instruction: the byte address of its first opcode byte, the
/// total number of bytes it spans, its operation kind, and its two operands.
#[derive(Clone, Copy, PartialEq, Eq, Structural, Debug)]
pub struct Instruction {
    pub address: usize,
    pub size: usize,
    pub operation: Op,
    pub destination: Location,
    pub source: Source,
}

/// Why a decode attempt failed. Every failure is returned as a value; no
/// decode path panics or prints.
#[derive(Clone, Copy, PartialEq, Eq, Structural, Debug)]
pub enum DecodeError {
    /// The buffer ran out before a required field could be read. `offset` is
    /// the byte index at which the missing field begins.
    InsufficientInput { offset: usize },
    /// The leading 4-bit pattern matches no known family. Carries the raw
    /// bits and the byte offset of the instruction for diagnostics.
    UnsupportedOpcode { bits: u8, offset: usize },
    /// A recognized family whose field layout this scope does not decode yet.
    /// Carries the classified operation kind.
    UnimplementedVariant { operation: Op },
}

} // verus!
