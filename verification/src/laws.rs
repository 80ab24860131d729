//! Laws the decoder obeys, stated and proved over the spec-level decode that
//! the executable parsers are specified against.

use vstd::prelude::*;
use vstd::arithmetic::div_mod::lemma_fundamental_div_mod_converse;
use crate::cursor::BitCursor;
use crate::cursor::bits_of;
use crate::cursor::lemma_advanced;
use crate::cursor::lemma_bits_of_agree;
use crate::cursor::spec_take;
use crate::cursor::stream_bit;
use crate::insn::DecodeError;
use crate::insn::EAddress;
use crate::insn::Immediate;
use crate::insn::Instruction;
use crate::insn::Location;
use crate::insn::Op;
use crate::insn::Register;
use crate::insn::Source;
use crate::parser::spec_mov_operands;
use crate::parser::spec_parse_immediate;
use crate::parser::spec_parse_instruction;
use crate::parser::spec_parse_opcode;
use crate::parser::spec_parse_reg;
use crate::parser::spec_parse_rm;

verus! {

/// Decoding is deterministic: the result is a function of the buffer and the
/// start position alone, so any two decodes of the same input agree.
pub proof fn lemma_decode_deterministic(
    bytes: Seq<u8>,
    c: BitCursor,
    r1: Result<(BitCursor, Instruction), DecodeError>,
    r2: Result<(BitCursor, Instruction), DecodeError>,
)
    requires
        r1 == spec_parse_instruction(bytes, c),
        r2 == spec_parse_instruction(bytes, c),
    ensures
        r1 == r2,
{
}

/// A buffer too short for even the 4-bit leading opcode field yields
/// `InsufficientInput` naming the byte at which the field begins — never a
/// panic or an out-of-bounds access.
pub proof fn lemma_short_buffer_insufficient(bytes: Seq<u8>, c: BitCursor)
    requires
        c.wf(),
        c.pos() + 4 > bytes.len() * 8,
    ensures
        spec_parse_instruction(bytes, c) == Result::<
            (BitCursor, Instruction),
            DecodeError,
        >::Err(DecodeError::InsufficientInput { offset: c.byte }),
{
}

/// The memory operand of an instruction, if either operand is one.
pub open spec fn spec_mem_operand(destination: Location, source: Source) -> Option<EAddress> {
    match destination {
        Location::Addr(ea) => Some(ea),
        Location::Reg(_) => match source {
            Source::Loc(Location::Addr(ea)) => Some(ea),
            _ => None,
        },
    }
}

/// Two well-formed cursors 8·m bits apart differ by m whole bytes and share
/// the sub-byte offset.
proof fn lemma_whole_byte_gap(c: BitCursor, end: BitCursor, m: nat)
    requires
        c.wf(),
        end.wf(),
        end.pos() == c.pos() + 8 * m,
    ensures
        end.bit == c.bit,
        end.byte == c.byte + m,
{
    let x = (c.pos() + 8 * m) as int;
    lemma_fundamental_div_mod_converse(x, 8, end.byte as int, end.bit as int);
    lemma_fundamental_div_mod_converse(x, 8, c.byte + m as int, c.bit as int);
}

/// Length conservation: a successful decode consumes exactly the field
/// widths of its taken path, always a whole number of bytes. The recorded
/// size is that byte count, the end cursor keeps the start's sub-byte
/// offset, and the recorded address is the start byte. The byte count per
/// path: two bytes of opcode and fields, plus one byte for a byte-sized
/// displacement or immediate and two for a word-sized one.
#[verifier::rlimit(50)]
pub proof fn lemma_length_conservation(bytes: Seq<u8>, c: BitCursor)
    requires
        c.wf(),
        bytes.len() <= usize::MAX as nat,
        spec_parse_instruction(bytes, c) is Ok,
    ensures
        ({
            let (end, insn) = spec_parse_instruction(bytes, c)->Ok_0;
            &&& end.wf()
            &&& end.pos() == c.pos() + 8 * insn.size
            &&& end.bit == c.bit
            &&& insn.size == end.byte - c.byte
            &&& insn.address == c.byte
            &&& (insn.operation == Op::MovRegRM || insn.operation == Op::MovImmediateReg)
            &&& (insn.operation == Op::MovImmediateReg ==> match insn.source {
                Source::Imm(Immediate::Byte(_)) => insn.size == 2,
                Source::Imm(Immediate::Word(_)) => insn.size == 3,
                _ => false,
            })
            &&& (insn.operation == Op::MovRegRM ==> match spec_mem_operand(
                insn.destination,
                insn.source,
            ) {
                None => insn.size == 2,
                Some(EAddress::Bare(_)) => insn.size == 2,
                Some(EAddress::WithOffset(_, Immediate::Byte(_))) => insn.size == 3,
                Some(EAddress::WithOffset(_, Immediate::Word(_))) => insn.size == 4,
            })
        }),
{
    let p = c.pos();
    let ro = spec_parse_opcode(bytes, c);
    let (c1, op) = ro->Ok_0;
    match op {
        Op::MovRegRM => {
            lemma_advanced(c, 4);
            lemma_advanced(c.advanced(4), 2);
            assert(c1.pos() == p + 6 && c1.wf());
            lemma_advanced(c1, 1);
            let c2 = c1.advanced(1);
            lemma_advanced(c2, 1);
            let c3 = c2.advanced(1);
            lemma_advanced(c3, 2);
            let c4 = c3.advanced(2);
            lemma_advanced(c4, 3);
            let c5 = c4.advanced(3);
            assert(c5.pos() == p + 13 && c5.wf());
            let mode = spec_take(bytes, c3, 2)->Ok_0.0;
            let wide = spec_take(bytes, c2, 1)->Ok_0.0 == 1;
            crate::cursor::lemma_bits_of_bound(bytes, c3.pos(), 2);
            vstd::arithmetic::power2::lemma2_to64();
            assert(mode < 4);
            assert(spec_parse_rm(bytes, c5, mode, wide) is Ok);
            lemma_rm_anatomy(bytes, c5, mode, wide);
            let (c6, rm) = spec_parse_rm(bytes, c5, mode, wide)->Ok_0;
            if mode == 3 || mode == 0 {
                lemma_whole_byte_gap(c, c6, 2);
            } else if mode == 1 {
                lemma_whole_byte_gap(c, c6, 3);
            } else {
                lemma_whole_byte_gap(c, c6, 4);
            }
        },
        Op::MovImmediateReg => {
            lemma_advanced(c, 4);
            assert(c1.pos() == p + 4 && c1.wf());
            lemma_advanced(c1, 1);
            let c2 = c1.advanced(1);
            lemma_advanced(c2, 3);
            let c3 = c2.advanced(3);
            assert(c3.pos() == p + 8 && c3.wf());
            let wide = spec_take(bytes, c1, 1)->Ok_0.0 == 1;
            assert(spec_parse_immediate(bytes, c3, wide) is Ok);
            lemma_immediate_anatomy(bytes, c3, wide);
            let (c4, imm) = spec_parse_immediate(bytes, c3, wide)->Ok_0;
            if wide {
                lemma_whole_byte_gap(c, c4, 3);
            } else {
                lemma_whole_byte_gap(c, c4, 2);
            }
        },
        _ => {
            assert(false);
        },
    }
}

/// On success an immediate is a byte after 8 bits, or a word after 16.
proof fn lemma_immediate_anatomy(bytes: Seq<u8>, c: BitCursor, wide: bool)
    requires
        c.wf(),
        bytes.len() <= usize::MAX as nat,
        spec_parse_immediate(bytes, c, wide) is Ok,
    ensures
        ({
            let (e, imm) = spec_parse_immediate(bytes, c, wide)->Ok_0;
            &&& e.wf()
            &&& (!wide ==> e.pos() == c.pos() + 8 && imm matches Immediate::Byte(_))
            &&& (wide ==> e.pos() == c.pos() + 16 && imm matches Immediate::Word(_))
        }),
{
    lemma_advanced(c, 8);
    if wide {
        lemma_advanced(c.advanced(8), 8);
    }
}

/// On success the register/memory operand's shape and bit count follow the
/// mode field: register-direct or a bare address after 3 bits, a byte
/// displacement after 11, a word displacement after 19.
proof fn lemma_rm_anatomy(bytes: Seq<u8>, c: BitCursor, mode: u16, wide: bool)
    requires
        c.wf(),
        bytes.len() <= usize::MAX as nat,
        mode < 4,
        spec_parse_rm(bytes, c, mode, wide) is Ok,
    ensures
        ({
            let (e, rm) = spec_parse_rm(bytes, c, mode, wide)->Ok_0;
            &&& e.wf()
            &&& (mode == 3 ==> e.pos() == c.pos() + 3 && rm matches Location::Reg(_))
            &&& (mode == 0 ==> e.pos() == c.pos() + 3 && rm matches Location::Addr(
                EAddress::Bare(_),
            ))
            &&& (mode == 1 ==> e.pos() == c.pos() + 11 && rm matches Location::Addr(
                EAddress::WithOffset(_, Immediate::Byte(_)),
            ))
            &&& (mode == 2 ==> e.pos() == c.pos() + 19 && rm matches Location::Addr(
                EAddress::WithOffset(_, Immediate::Word(_)),
            ))
        }),
{
    if mode == 3 {
        lemma_advanced(c, 3);
    } else {
        lemma_advanced(c, 3);
        let ca = c.advanced(3);
        if mode != 0 {
            assert(spec_parse_immediate(bytes, ca, mode == 2) is Ok);
            lemma_immediate_anatomy(bytes, ca, mode == 2);
        }
    }
}

/// Direction-bit symmetry: on the same register and register/memory operand
/// identities, the two direction-bit values assign mirrored roles — each
/// one's destination is the location carried in the other's source.
pub proof fn lemma_direction_symmetry(reg: Register, rm: Location)
    ensures
        ({
            let (dest1, src1) = spec_mov_operands(true, reg, rm);
            let (dest0, src0) = spec_mov_operands(false, reg, rm);
            src1 == Source::Loc(dest0) && src0 == Source::Loc(dest1)
        }),
{
}

/// A successful field read gives the same value on a stream that agrees
/// bit-for-bit over the whole tail of the buffer.
proof fn lemma_take_agree(b1: Seq<u8>, b2: Seq<u8>, c: BitCursor, n: nat)
    requires
        b1.len() == b2.len(),
        spec_take(b1, c, n) is Ok,
        forall|q: nat| c.pos() <= q < b1.len() * 8 ==> stream_bit(b1, q) == stream_bit(b2, q),
    ensures
        spec_take(b2, c, n) == spec_take(b1, c, n),
{
    lemma_bits_of_agree(b1, b2, c.pos(), n);
}

/// An immediate decodes identically on a stream that agrees over the tail.
proof fn lemma_immediate_agree(b1: Seq<u8>, b2: Seq<u8>, c: BitCursor, wide: bool)
    requires
        c.wf(),
        b1.len() == b2.len(),
        b1.len() <= usize::MAX as nat,
        spec_parse_immediate(b1, c, wide) is Ok,
        forall|q: nat| c.pos() <= q < b1.len() * 8 ==> stream_bit(b1, q) == stream_bit(b2, q),
    ensures
        spec_parse_immediate(b2, c, wide) == spec_parse_immediate(b1, c, wide),
{
    lemma_take_agree(b1, b2, c, 8);
    if wide {
        lemma_advanced(c, 8);
        lemma_take_agree(b1, b2, c.advanced(8), 8);
    }
}

/// The register/memory operand decodes identically on a stream that agrees
/// over the tail.
proof fn lemma_rm_agree(b1: Seq<u8>, b2: Seq<u8>, c: BitCursor, mode: u16, wide: bool)
    requires
        c.wf(),
        b1.len() == b2.len(),
        b1.len() <= usize::MAX as nat,
        mode < 4,
        spec_parse_rm(b1, c, mode, wide) is Ok,
        forall|q: nat| c.pos() <= q < b1.len() * 8 ==> stream_bit(b1, q) == stream_bit(b2, q),
    ensures
        spec_parse_rm(b2, c, mode, wide) == spec_parse_rm(b1, c, mode, wide),
{
    lemma_take_agree(b1, b2, c, 3);
    if mode != 3 && mode != 0 {
        lemma_advanced(c, 3);
        lemma_immediate_agree(b1, b2, c.advanced(3), mode == 2);
    }
}

/// Direction-bit symmetry at the stream level: two equal-length buffers that
/// agree on every bit except the direction bit of a register/memory move
/// decode to instructions of the same size and end cursor whose operand
/// identities coincide; when their direction bits differ, destination and
/// source are exactly swapped.
#[verifier::rlimit(50)]
pub proof fn lemma_direction_bit_flip(b1: Seq<u8>, b2: Seq<u8>, c: BitCursor)
    requires
        c.wf(),
        b1.len() == b2.len(),
        b1.len() <= usize::MAX as nat,
        forall|q: nat| q < b1.len() * 8 && q != c.pos() + 6 ==> stream_bit(b1, q) == stream_bit(
            b2,
            q,
        ),
        bits_of(b1, c.pos(), 4) == 0b1000,
        spec_parse_instruction(b1, c) is Ok,
    ensures
        spec_parse_instruction(b2, c) is Ok,
        ({
            let (e1, i1) = spec_parse_instruction(b1, c)->Ok_0;
            let (e2, i2) = spec_parse_instruction(b2, c)->Ok_0;
            &&& e1 == e2
            &&& i1.address == i2.address
            &&& i1.size == i2.size
            &&& i1.operation == i2.operation
            &&& (stream_bit(b1, c.pos() + 6) == stream_bit(b2, c.pos() + 6) ==> i1 == i2)
            &&& (stream_bit(b1, c.pos() + 6) != stream_bit(b2, c.pos() + 6) ==> i1.source
                == Source::Loc(i2.destination) && i2.source == Source::Loc(i1.destination))
        }),
{
    let p = c.pos();
    let len8 = b1.len() * 8;
    assert(spec_take(b1, c, 4) is Ok);
    lemma_bits_of_agree(b1, b2, p, 4);
    lemma_advanced(c, 4);
    let ca = c.advanced(4);
    assert(spec_take(b1, ca, 2) is Ok);
    lemma_advanced(ca, 2);
    let c1 = ca.advanced(2);
    assert(c1.pos() == p + 6 && c1.wf());
    assert(spec_parse_opcode(b1, c)->Ok_0 == (c1, Op::MovRegRM));
    assert(spec_parse_opcode(b2, c)->Ok_0 == (c1, Op::MovRegRM));
    // the direction bits themselves
    assert(spec_take(b1, c1, 1) is Ok);
    lemma_advanced(c1, 1);
    let c2 = c1.advanced(1);
    let d1 = spec_take(b1, c1, 1)->Ok_0.0;
    let d2 = spec_take(b2, c1, 1)->Ok_0.0;
    reveal_with_fuel(bits_of, 2);
    assert(bits_of(b1, p + 6, 1) == stream_bit(b1, p + 6) as nat);
    assert(bits_of(b2, p + 6, 1) == stream_bit(b2, p + 6) as nat);
    crate::cursor::lemma_bit_at_le_one(
        b1[(((p + 6) / 8) as int)],
        (((p + 6) % 8) as u8),
    );
    crate::cursor::lemma_bit_at_le_one(
        b2[(((p + 6) / 8) as int)],
        (((p + 6) % 8) as u8),
    );
    // the w and mode fields and both operands agree bit-for-bit
    assert(spec_take(b1, c2, 1) is Ok);
    lemma_take_agree(b1, b2, c2, 1);
    lemma_advanced(c2, 1);
    let c3 = c2.advanced(1);
    assert(spec_take(b1, c3, 2) is Ok);
    lemma_take_agree(b1, b2, c3, 2);
    lemma_advanced(c3, 2);
    let c4 = c3.advanced(2);
    let mode = spec_take(b1, c3, 2)->Ok_0.0;
    crate::cursor::lemma_bits_of_bound(b1, c3.pos(), 2);
    vstd::arithmetic::power2::lemma2_to64();
    assert(mode < 4);
    let wide = spec_take(b1, c2, 1)->Ok_0.0 == 1;
    assert(spec_take(b1, c4, 3) is Ok);
    lemma_take_agree(b1, b2, c4, 3);
    lemma_advanced(c4, 3);
    let c5 = c4.advanced(3);
    assert(spec_parse_reg(b2, c4, wide) == spec_parse_reg(b1, c4, wide));
    assert(spec_parse_rm(b1, c5, mode, wide) is Ok);
    lemma_rm_agree(b1, b2, c5, mode, wide);
    let reg = spec_parse_reg(b1, c4, wide)->Ok_0.1;
    let (c6, rm) = spec_parse_rm(b1, c5, mode, wide)->Ok_0;
    assert(spec_parse_instruction(b1, c)->Ok_0 == (
        c6,
        crate::parser::spec_assemble(c, c6, Op::MovRegRM, spec_mov_operands(d1 == 1, reg, rm)),
    ));
    assert(spec_parse_instruction(b2, c) is Ok);
    assert(spec_parse_instruction(b2, c)->Ok_0 == (
        c6,
        crate::parser::spec_assemble(c, c6, Op::MovRegRM, spec_mov_operands(d2 == 1, reg, rm)),
    ));
}

} // verus!
