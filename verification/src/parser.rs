//! Opcode classification, addressing and immediate decoding, and the
//! instruction assembler.
//!
//! Each executable parser is specified against a spec-level decode of the
//! same field layout, so a caller knows the exact value returned for every
//! buffer and start position: the field widths read, the cursor advance, and
//! the error on every failing input.

use vstd::prelude::*;
use vstd::arithmetic::power2::lemma2_to64;
use crate::cursor::BitCursor;
use crate::cursor::lemma_bits_of_bound;
use crate::cursor::spec_take;
use crate::insn::Address;
use crate::insn::DecodeError;
use crate::insn::EAddress;
use crate::insn::Immediate;
use crate::insn::Instruction;
use crate::insn::Location;
use crate::insn::Op;
use crate::insn::Register;
use crate::insn::Source;

verus! {

/// The family selected by a leading 4-bit pattern, per the dispatch table:
/// `1000` register/memory move, `1011` immediate to register, `1100`
/// immediate to register/memory, `1010` accumulator move, anything else
/// unrecognized.
pub open spec fn spec_family(nibble: u16) -> Op {
    if nibble == 0b1000 {
        Op::MovRegRM
    } else if nibble == 0b1011 {
        Op::MovImmediateReg
    } else if nibble == 0b1100 {
        Op::MovImmediateRM
    } else if nibble == 0b1010 {
        Op::MovAccumulator
    } else {
        Op::Unrecognized(nibble as u8)
    }
}

/// The classifier: 4 leading bits select the family; the register/memory
/// move family consumes 2 further low-order opcode bits.
pub open spec fn spec_parse_opcode(bytes: Seq<u8>, c: BitCursor) -> Result<
    (BitCursor, Op),
    DecodeError,
>
    recommends
        c.wf(),
{
    match spec_take(bytes, c, 4) {
        Err(e) => Err(e),
        Ok((nibble, c1)) => if nibble == 0b1000 {
            match spec_take(bytes, c1, 2) {
                Err(e) => Err(e),
                Ok((_ext, c2)) => Ok((c2, Op::MovRegRM)),
            }
        } else {
            Ok((c1, spec_family(nibble)))
        },
    }
}

/// The base-register combination selected by a 3-bit register/memory field,
/// in field-value order 0–7.
pub open spec fn spec_address(field: u16) -> Address
    recommends
        field < 8,
{
    if field == 0 {
        Address::BxSi
    } else if field == 1 {
        Address::BxDi
    } else if field == 2 {
        Address::BpSi
    } else if field == 3 {
        Address::BpDi
    } else if field == 4 {
        Address::Si
    } else if field == 5 {
        Address::Di
    } else if field == 6 {
        Address::Bp
    } else {
        Address::Bx
    }
}

/// A 3-bit base-register combination field.
pub open spec fn spec_parse_addr(bytes: Seq<u8>, c: BitCursor) -> Result<
    (BitCursor, Address),
    DecodeError,
>
    recommends
        c.wf(),
{
    match spec_take(bytes, c, 3) {
        Err(e) => Err(e),
        Ok((field, c1)) => Ok((c1, spec_address(field))),
    }
}

/// A 3-bit register field of the given width.
pub open spec fn spec_parse_reg(bytes: Seq<u8>, c: BitCursor, wide: bool) -> Result<
    (BitCursor, Register),
    DecodeError,
>
    recommends
        c.wf(),
{
    match spec_take(bytes, c, 3) {
        Err(e) => Err(e),
        Ok((field, c1)) => Ok((c1, Register { index: field as u8, wide })),
    }
}

/// An immediate literal: one byte, or a little-endian word composed as
/// `low + high * 256` from the two bytes read in order.
pub open spec fn spec_parse_immediate(bytes: Seq<u8>, c: BitCursor, wide: bool) -> Result<
    (BitCursor, Immediate),
    DecodeError,
>
    recommends
        c.wf(),
{
    match spec_take(bytes, c, 8) {
        Err(e) => Err(e),
        Ok((low, c1)) => if !wide {
            Ok((c1, Immediate::Byte(low as u8)))
        } else {
            match spec_take(bytes, c1, 8) {
                Err(e) => Err(e),
                Ok((high, c2)) => Ok(
                    (c2, Immediate::Word((high as nat * 256 + low as nat) as u16)),
                ),
            }
        },
    }
}

/// An effective address for a non-register-direct mode: the 3-bit base
/// combination, then no displacement (mode 0), a byte displacement (mode 1),
/// or a word displacement (mode 2).
pub open spec fn spec_parse_eaddr(bytes: Seq<u8>, c: BitCursor, mode: u16) -> Result<
    (BitCursor, EAddress),
    DecodeError,
>
    recommends
        c.wf(),
        mode < 3,
{
    match spec_parse_addr(bytes, c) {
        Err(e) => Err(e),
        Ok((c1, addr)) => if mode == 0 {
            Ok((c1, EAddress::Bare(addr)))
        } else {
            match spec_parse_immediate(bytes, c1, mode == 2) {
                Err(e) => Err(e),
                Ok((c2, imm)) => Ok((c2, EAddress::WithOffset(addr, imm))),
            }
        },
    }
}

/// The register/memory operand: register-direct when the mode field is 3,
/// otherwise a memory effective address.
pub open spec fn spec_parse_rm(bytes: Seq<u8>, c: BitCursor, mode: u16, wide: bool) -> Result<
    (BitCursor, Location),
    DecodeError,
>
    recommends
        c.wf(),
        mode < 4,
{
    if mode == 3 {
        match spec_parse_reg(bytes, c, wide) {
            Err(e) => Err(e),
            Ok((c1, reg)) => Ok((c1, Location::Reg(reg))),
        }
    } else {
        match spec_parse_eaddr(bytes, c, mode) {
            Err(e) => Err(e),
            Ok((c1, ea)) => Ok((c1, Location::Addr(ea))),
        }
    }
}

/// Operand roles for the register/memory move family: with the direction bit
/// set the register is the destination and the register/memory operand the
/// source; with it clear the roles are swapped. This convention is
/// architecture-defined.
pub open spec fn spec_mov_operands(to_register: bool, reg: Register, rm: Location) -> (Location,
    Source,
) {
    if to_register {
        (Location::Reg(reg), Source::Loc(rm))
    } else {
        (rm, Source::Loc(Location::Reg(reg)))
    }
}

/// The instruction record, stamped with the byte address of its first opcode
/// byte and the count of bytes consumed between the start and end cursors.
pub open spec fn spec_assemble(
    start: BitCursor,
    end: BitCursor,
    operation: Op,
    operands: (Location, Source),
) -> Instruction {
    Instruction {
        address: start.byte,
        size: (end.byte - start.byte) as usize,
        operation,
        destination: operands.0,
        source: operands.1,
    }
}

/// One whole instruction decode: classify, then decode the family's field
/// layout, then assemble. Recognized-but-undecoded families and unrecognized
/// patterns come back as errors, never as a panic.
pub open spec fn spec_parse_instruction(bytes: Seq<u8>, c: BitCursor) -> Result<
    (BitCursor, Instruction),
    DecodeError,
>
    recommends
        c.wf(),
{
    match spec_parse_opcode(bytes, c) {
        Err(e) => Err(e),
        Ok((c1, op)) => match op {
            Op::MovRegRM => match spec_take(bytes, c1, 1) {
                Err(e) => Err(e),
                Ok((d, c2)) => match spec_take(bytes, c2, 1) {
                    Err(e) => Err(e),
                    Ok((w, c3)) => match spec_take(bytes, c3, 2) {
                        Err(e) => Err(e),
                        Ok((mode, c4)) => match spec_parse_reg(bytes, c4, w == 1) {
                            Err(e) => Err(e),
                            Ok((c5, reg)) => match spec_parse_rm(bytes, c5, mode, w == 1) {
                                Err(e) => Err(e),
                                Ok((c6, rm)) => Ok(
                                    (
                                        c6,
                                        spec_assemble(
                                            c,
                                            c6,
                                            op,
                                            spec_mov_operands(d == 1, reg, rm),
                                        ),
                                    ),
                                ),
                            },
                        },
                    },
                },
            },
            Op::MovImmediateReg => match spec_take(bytes, c1, 1) {
                Err(e) => Err(e),
                Ok((w, c2)) => match spec_parse_reg(bytes, c2, w == 1) {
                    Err(e) => Err(e),
                    Ok((c3, reg)) => match spec_parse_immediate(bytes, c3, w == 1) {
                        Err(e) => Err(e),
                        Ok((c4, imm)) => Ok(
                            (
                                c4,
                                spec_assemble(
                                    c,
                                    c4,
                                    op,
                                    (Location::Reg(reg), Source::Imm(imm)),
                                ),
                            ),
                        ),
                    },
                },
            },
            Op::MovImmediateRM => Err(DecodeError::UnimplementedVariant { operation: op }),
            Op::MovAccumulator => Err(DecodeError::UnimplementedVariant { operation: op }),
            Op::Unrecognized(bits) => Err(
                DecodeError::UnsupportedOpcode { bits, offset: c.byte },
            ),
        },
    }
}

/// Classify the leading opcode bits of one instruction.
pub fn parse_opcode(bytes: &[u8], c: BitCursor) -> (r: Result<(BitCursor, Op), DecodeError>)
    requires
        c.wf(),
    ensures
        r == spec_parse_opcode(bytes@, c),
        r matches Ok(p) ==> p.0.wf() && c.byte <= p.0.byte && p.0.byte <= bytes@.len(),
{
    let (nibble, c1) = match c.take(bytes, 4) {
        Ok(x) => x,
        Err(e) => {
            return Err(e);
        },
    };
    if nibble == 0b1000 {
        let (_ext, c2) = match c1.take(bytes, 2) {
            Ok(x) => x,
            Err(e) => {
                return Err(e);
            },
        };
        Ok((c2, Op::MovRegRM))
    } else if nibble == 0b1011 {
        Ok((c1, Op::MovImmediateReg))
    } else if nibble == 0b1100 {
        Ok((c1, Op::MovImmediateRM))
    } else if nibble == 0b1010 {
        Ok((c1, Op::MovAccumulator))
    } else {
        Ok((c1, Op::Unrecognized(nibble as u8)))
    }
}

/// Decode a 3-bit base-register combination field.
pub fn parse_addr(bytes: &[u8], c: BitCursor) -> (r: Result<(BitCursor, Address), DecodeError>)
    requires
        c.wf(),
    ensures
        r == spec_parse_addr(bytes@, c),
        r matches Ok(p) ==> p.0.wf() && c.byte <= p.0.byte && p.0.byte <= bytes@.len(),
{
    let (field, c1) = match c.take(bytes, 3) {
        Ok(x) => x,
        Err(e) => {
            return Err(e);
        },
    };
    let addr = if field == 0 {
        Address::BxSi
    } else if field == 1 {
        Address::BxDi
    } else if field == 2 {
        Address::BpSi
    } else if field == 3 {
        Address::BpDi
    } else if field == 4 {
        Address::Si
    } else if field == 5 {
        Address::Di
    } else if field == 6 {
        Address::Bp
    } else {
        Address::Bx
    };
    Ok((c1, addr))
}

/// Decode a 3-bit register field of the given width.
pub fn parse_reg(bytes: &[u8], c: BitCursor, wide: bool) -> (r: Result<
    (BitCursor, Register),
    DecodeError,
>)
    requires
        c.wf(),
    ensures
        r == spec_parse_reg(bytes@, c, wide),
        r matches Ok(p) ==> p.0.wf() && c.byte <= p.0.byte && p.0.byte <= bytes@.len()
            && p.1.wf(),
{
    let (field, c1) = match c.take(bytes, 3) {
        Ok(x) => x,
        Err(e) => {
            return Err(e);
        },
    };
    proof {
        lemma_bits_of_bound(bytes@, c.pos(), 3);
        lemma2_to64();
    }
    let reg = if wide {
        Register::word(field as u8)
    } else {
        Register::byte(field as u8)
    };
    Ok((c1, reg))
}

/// Decode an immediate literal: a byte, or a little-endian word.
pub fn parse_immediate(bytes: &[u8], c: BitCursor, wide: bool) -> (r: Result<
    (BitCursor, Immediate),
    DecodeError,
>)
    requires
        c.wf(),
    ensures
        r == spec_parse_immediate(bytes@, c, wide),
        r matches Ok(p) ==> p.0.wf() && c.byte <= p.0.byte && p.0.byte <= bytes@.len(),
{
    let (low, c1) = match c.take(bytes, 8) {
        Ok(x) => x,
        Err(e) => {
            return Err(e);
        },
    };
    if !wide {
        Ok((c1, Immediate::Byte(low as u8)))
    } else {
        let (high, c2) = match c1.take(bytes, 8) {
            Ok(x) => x,
            Err(e) => {
                return Err(e);
            },
        };
        proof {
            lemma_bits_of_bound(bytes@, c.pos(), 8);
            lemma_bits_of_bound(bytes@, c1.pos(), 8);
            lemma2_to64();
        }
        let word: u16 = high * 256 + low;
        Ok((c2, Immediate::Word(word)))
    }
}

/// Decode an effective address: base combination, then the displacement the
/// mode calls for.
pub fn parse_eaddr(bytes: &[u8], c: BitCursor, mode: u16) -> (r: Result<
    (BitCursor, EAddress),
    DecodeError,
>)
    requires
        c.wf(),
        mode < 3,
    ensures
        r == spec_parse_eaddr(bytes@, c, mode),
        r matches Ok(p) ==> p.0.wf() && c.byte <= p.0.byte && p.0.byte <= bytes@.len(),
{
    let (c1, addr) = match parse_addr(bytes, c) {
        Ok(x) => x,
        Err(e) => {
            return Err(e);
        },
    };
    if mode == 0 {
        Ok((c1, EAddress::Bare(addr)))
    } else {
        let (c2, imm) = match parse_immediate(bytes, c1, mode == 2) {
            Ok(x) => x,
            Err(e) => {
                return Err(e);
            },
        };
        Ok((c2, EAddress::WithOffset(addr, imm)))
    }
}

/// Decode the register/memory operand selected by the mode field.
pub fn parse_rm(bytes: &[u8], c: BitCursor, mode: u16, wide: bool) -> (r: Result<
    (BitCursor, Location),
    DecodeError,
>)
    requires
        c.wf(),
        mode < 4,
    ensures
        r == spec_parse_rm(bytes@, c, mode, wide),
        r matches Ok(p) ==> p.0.wf() && c.byte <= p.0.byte && p.0.byte <= bytes@.len(),
{
    if mode == 3 {
        let (c1, reg) = match parse_reg(bytes, c, wide) {
            Ok(x) => x,
            Err(e) => {
                return Err(e);
            },
        };
        Ok((c1, Location::Reg(reg)))
    } else {
        let (c1, ea) = match parse_eaddr(bytes, c, mode) {
            Ok(x) => x,
            Err(e) => {
                return Err(e);
            },
        };
        Ok((c1, Location::Addr(ea)))
    }
}

/// Decode one instruction starting at `c`: classify the opcode, decode the
/// family's fields, and assemble the record. On success the returned cursor
/// is the start of the next instruction.
pub fn parse_instruction(bytes: &[u8], c: BitCursor) -> (r: Result<
    (BitCursor, Instruction),
    DecodeError,
>)
    requires
        c.wf(),
    ensures
        r == spec_parse_instruction(bytes@, c),
        r matches Ok(p) ==> p.0.wf() && c.byte <= p.0.byte && p.0.byte <= bytes@.len(),
{
    let (c1, op) = match parse_opcode(bytes, c) {
        Ok(x) => x,
        Err(e) => {
            return Err(e);
        },
    };
    match op {
        Op::MovRegRM => {
            let (d, c2) = match c1.take(bytes, 1) {
                Ok(x) => x,
                Err(e) => {
                    return Err(e);
                },
            };
            let (w, c3) = match c2.take(bytes, 1) {
                Ok(x) => x,
                Err(e) => {
                    return Err(e);
                },
            };
            let (mode, c4) = match c3.take(bytes, 2) {
                Ok(x) => x,
                Err(e) => {
                    return Err(e);
                },
            };
            proof {
                lemma_bits_of_bound(bytes@, c3.pos(), 2);
                lemma2_to64();
            }
            let wide = w == 1;
            let (c5, reg) = match parse_reg(bytes, c4, wide) {
                Ok(x) => x,
                Err(e) => {
                    return Err(e);
                },
            };
            let (c6, rm) = match parse_rm(bytes, c5, mode, wide) {
                Ok(x) => x,
                Err(e) => {
                    return Err(e);
                },
            };
            let (destination, source) = if d == 1 {
                (Location::Reg(reg), Source::Loc(rm))
            } else {
                (rm, Source::Loc(Location::Reg(reg)))
            };
            let size: usize = c6.byte - c.byte;
            Ok((c6, Instruction { address: c.byte, size, operation: op, destination, source }))
        },
        Op::MovImmediateReg => {
            let (w, c2) = match c1.take(bytes, 1) {
                Ok(x) => x,
                Err(e) => {
                    return Err(e);
                },
            };
            let wide = w == 1;
            let (c3, reg) = match parse_reg(bytes, c2, wide) {
                Ok(x) => x,
                Err(e) => {
                    return Err(e);
                },
            };
            let (c4, imm) = match parse_immediate(bytes, c3, wide) {
                Ok(x) => x,
                Err(e) => {
                    return Err(e);
                },
            };
            let size: usize = c4.byte - c.byte;
            Ok(
                (
                    c4,
                    Instruction {
                        address: c.byte,
                        size,
                        operation: op,
                        destination: Location::Reg(reg),
                        source: Source::Imm(imm),
                    },
                ),
            )
        },
        Op::MovImmediateRM => Err(DecodeError::UnimplementedVariant { operation: op }),
        Op::MovAccumulator => Err(DecodeError::UnimplementedVariant { operation: op }),
        Op::Unrecognized(bits) => Err(DecodeError::UnsupportedOpcode { bits, offset: c.byte }),
    }
}

} // verus!
