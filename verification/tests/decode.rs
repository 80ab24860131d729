use decode86::cursor::BitCursor;
use decode86::insn::{
    Address, DecodeError, EAddress, Immediate, Instruction, Location, Op, Register, Source,
};
use decode86::parser::{
    parse_addr, parse_eaddr, parse_immediate, parse_instruction, parse_opcode, parse_reg,
    parse_rm,
};

fn start() -> BitCursor {
    BitCursor { byte: 0, bit: 0 }
}

#[test]
fn take_reads_msb_first() {
    let bytes = [0b1010_1010u8];
    let (v, c) = start().take(&bytes, 3).unwrap();
    assert_eq!(v, 0b101);
    assert_eq!(c, BitCursor { byte: 0, bit: 3 });
}

#[test]
fn take_crosses_byte_boundary() {
    let bytes = [0xFFu8, 0x00];
    let c = BitCursor { byte: 0, bit: 4 };
    let (v, c2) = c.take(&bytes, 8).unwrap();
    assert_eq!(v, 0xF0);
    assert_eq!(c2, BitCursor { byte: 1, bit: 4 });
}

#[test]
fn take_whole_word() {
    let bytes = [0x12u8, 0x34];
    let (v, c2) = start().take(&bytes, 16).unwrap();
    assert_eq!(v, 0x1234);
    assert_eq!(c2, BitCursor { byte: 2, bit: 0 });
}

#[test]
fn take_insufficient_names_field_start() {
    let bytes = [0x12u8];
    assert_eq!(
        start().take(&bytes, 16),
        Err(DecodeError::InsufficientInput { offset: 0 })
    );
    let c = BitCursor { byte: 1, bit: 0 };
    assert_eq!(c.take(&bytes, 1), Err(DecodeError::InsufficientInput { offset: 1 }));
}

#[test]
fn opcode_classifies_families() {
    let regrm = [0x89u8];
    assert_eq!(
        parse_opcode(&regrm, start()).unwrap(),
        (BitCursor { byte: 0, bit: 6 }, Op::MovRegRM)
    );
    let imm_reg = [0xB8u8];
    assert_eq!(
        parse_opcode(&imm_reg, start()).unwrap(),
        (BitCursor { byte: 0, bit: 4 }, Op::MovImmediateReg)
    );
    let imm_rm = [0xC6u8];
    assert_eq!(
        parse_opcode(&imm_rm, start()).unwrap(),
        (BitCursor { byte: 0, bit: 4 }, Op::MovImmediateRM)
    );
    let acc = [0xA1u8];
    assert_eq!(
        parse_opcode(&acc, start()).unwrap(),
        (BitCursor { byte: 0, bit: 4 }, Op::MovAccumulator)
    );
    let other = [0x00u8];
    assert_eq!(
        parse_opcode(&other, start()).unwrap(),
        (BitCursor { byte: 0, bit: 4 }, Op::Unrecognized(0b0000))
    );
}

#[test]
fn addr_covers_all_eight_combinations() {
    let expected = [
        Address::BxSi,
        Address::BxDi,
        Address::BpSi,
        Address::BpDi,
        Address::Si,
        Address::Di,
        Address::Bp,
        Address::Bx,
    ];
    for field in 0u8..8 {
        let bytes = [field << 5];
        let (c, addr) = parse_addr(&bytes, start()).unwrap();
        assert_eq!(addr, expected[field as usize]);
        assert_eq!(c, BitCursor { byte: 0, bit: 3 });
    }
}

#[test]
fn reg_widths() {
    let bytes = [0b011_00000u8];
    let (_, wide) = parse_reg(&bytes, start(), true).unwrap();
    assert_eq!(wide, Register { index: 3, wide: true });
    let (_, narrow) = parse_reg(&bytes, start(), false).unwrap();
    assert_eq!(narrow, Register { index: 3, wide: false });
}

#[test]
fn immediate_word_is_little_endian() {
    let bytes = [0x34u8, 0x12];
    let (c, imm) = parse_immediate(&bytes, start(), true).unwrap();
    assert_eq!(imm, Immediate::Word(0x1234));
    assert_eq!(c, BitCursor { byte: 2, bit: 0 });
}

#[test]
fn immediate_byte() {
    let bytes = [0x2Au8];
    let (c, imm) = parse_immediate(&bytes, start(), false).unwrap();
    assert_eq!(imm, Immediate::Byte(42));
    assert_eq!(c, BitCursor { byte: 1, bit: 0 });
}

#[test]
fn eaddr_modes() {
    // field 100 selects SI; mode decides the displacement that follows
    let bare = [0b100_00000u8];
    assert_eq!(
        parse_eaddr(&bare, start(), 0).unwrap().1,
        EAddress::Bare(Address::Si)
    );
    // field 100, then a displacement byte that straddles the byte boundary:
    // bits 10101 of the first byte and 010 of the second compose 0xAA
    let with_byte = [0b1001_0101u8, 0b0100_0000];
    let (c, ea) = parse_eaddr(&with_byte, start(), 1).unwrap();
    assert_eq!(ea, EAddress::WithOffset(Address::Si, Immediate::Byte(0xAA)));
    assert_eq!(c, BitCursor { byte: 1, bit: 3 });
}

#[test]
fn rm_register_direct() {
    let bytes = [0b011_00000u8];
    let (_, rm) = parse_rm(&bytes, start(), 3, true).unwrap();
    assert_eq!(rm, Location::Reg(Register { index: 3, wide: true }));
}

#[test]
fn regrm_register_to_register() {
    // 10001001 11011000: d=0 w=1 mode=11 reg=011 rm=000
    let bytes = [0x89u8, 0xD8];
    let (c, insn) = parse_instruction(&bytes, start()).unwrap();
    assert_eq!(c, BitCursor { byte: 2, bit: 0 });
    assert_eq!(
        insn,
        Instruction {
            address: 0,
            size: 2,
            operation: Op::MovRegRM,
            destination: Location::Reg(Register { index: 0, wide: true }),
            source: Source::Loc(Location::Reg(Register { index: 3, wide: true })),
        }
    );
}

#[test]
fn immediate_to_register_word() {
    // 10111000 then word 0x0005
    let bytes = [0xB8u8, 0x05, 0x00];
    let (c, insn) = parse_instruction(&bytes, start()).unwrap();
    assert_eq!(c, BitCursor { byte: 3, bit: 0 });
    assert_eq!(
        insn,
        Instruction {
            address: 0,
            size: 3,
            operation: Op::MovImmediateReg,
            destination: Location::Reg(Register { index: 0, wide: true }),
            source: Source::Imm(Immediate::Word(5)),
        }
    );
}

#[test]
fn immediate_to_register_byte() {
    // 10110001 then byte 42
    let bytes = [0xB1u8, 0x2A];
    let (c, insn) = parse_instruction(&bytes, start()).unwrap();
    assert_eq!(c, BitCursor { byte: 2, bit: 0 });
    assert_eq!(
        insn,
        Instruction {
            address: 0,
            size: 2,
            operation: Op::MovImmediateReg,
            destination: Location::Reg(Register { index: 1, wide: false }),
            source: Source::Imm(Immediate::Byte(42)),
        }
    );
}

#[test]
fn regrm_with_byte_displacement() {
    // 10001011 01000000 00000101: d=1 w=1 mode=01 reg=000 rm=000, disp byte 5
    let bytes = [0x8Bu8, 0x40, 0x05];
    let (c, insn) = parse_instruction(&bytes, start()).unwrap();
    assert_eq!(c, BitCursor { byte: 3, bit: 0 });
    assert_eq!(
        insn,
        Instruction {
            address: 0,
            size: 3,
            operation: Op::MovRegRM,
            destination: Location::Reg(Register { index: 0, wide: true }),
            source: Source::Loc(Location::Addr(EAddress::WithOffset(
                Address::BxSi,
                Immediate::Byte(5),
            ))),
        }
    );
}

#[test]
fn regrm_with_word_displacement() {
    // 10001011 10000100 then word 0x0105: mode=10 reg=000 rm=100 (SI)
    let bytes = [0x8Bu8, 0x84, 0x05, 0x01];
    let (c, insn) = parse_instruction(&bytes, start()).unwrap();
    assert_eq!(c, BitCursor { byte: 4, bit: 0 });
    assert_eq!(
        insn,
        Instruction {
            address: 0,
            size: 4,
            operation: Op::MovRegRM,
            destination: Location::Reg(Register { index: 0, wide: true }),
            source: Source::Loc(Location::Addr(EAddress::WithOffset(
                Address::Si,
                Immediate::Word(0x0105),
            ))),
        }
    );
}

#[test]
fn regrm_bare_address() {
    // 10001011 00000100: mode=00 reg=000 rm=100 (SI), no displacement
    let bytes = [0x8Bu8, 0x04];
    let (c, insn) = parse_instruction(&bytes, start()).unwrap();
    assert_eq!(c, BitCursor { byte: 2, bit: 0 });
    assert_eq!(
        insn.source,
        Source::Loc(Location::Addr(EAddress::Bare(Address::Si)))
    );
    assert_eq!(insn.size, 2);
}

#[test]
fn regrm_bare_bp_is_not_special_cased() {
    // mode=00 with rm=110 decodes as a bare BP base, with no direct-address
    // special case in this scope.
    let bytes = [0x8Bu8, 0x06];
    let (_, insn) = parse_instruction(&bytes, start()).unwrap();
    assert_eq!(
        insn.source,
        Source::Loc(Location::Addr(EAddress::Bare(Address::Bp)))
    );
}

#[test]
fn regrm_byte_width() {
    // 10001000 11011000: d=0 w=0 mode=11 reg=011 rm=000
    let bytes = [0x88u8, 0xD8];
    let (_, insn) = parse_instruction(&bytes, start()).unwrap();
    assert_eq!(
        insn.destination,
        Location::Reg(Register { index: 0, wide: false })
    );
    assert_eq!(
        insn.source,
        Source::Loc(Location::Reg(Register { index: 3, wide: false }))
    );
}

#[test]
fn direction_bit_swaps_roles() {
    // 0x89 and 0x8B differ only in the direction bit; same mod/reg/rm byte.
    let d0 = [0x89u8, 0xD8];
    let d1 = [0x8Bu8, 0xD8];
    let (c0, i0) = parse_instruction(&d0, start()).unwrap();
    let (c1, i1) = parse_instruction(&d1, start()).unwrap();
    assert_eq!(c0, c1);
    assert_eq!(i0.size, i1.size);
    assert_eq!(i0.source, Source::Loc(i1.destination));
    assert_eq!(i1.source, Source::Loc(i0.destination));
}

#[test]
fn decoding_is_deterministic() {
    let bytes = [0x8Bu8, 0x40, 0x05];
    assert_eq!(
        parse_instruction(&bytes, start()),
        parse_instruction(&bytes, start())
    );
    let bad = [0xFFu8];
    assert_eq!(
        parse_instruction(&bad, start()),
        parse_instruction(&bad, start())
    );
}

#[test]
fn chained_decode_stamps_addresses() {
    // two instructions back to back: MOV CL, 5 then the register move
    let bytes = [0xB1u8, 0x05, 0x89, 0xD8];
    let (c1, first) = parse_instruction(&bytes, start()).unwrap();
    assert_eq!(first.address, 0);
    assert_eq!(first.size, 2);
    let (c2, second) = parse_instruction(&bytes, c1).unwrap();
    assert_eq!(second.address, 2);
    assert_eq!(second.size, 2);
    assert_eq!(c2, BitCursor { byte: 4, bit: 0 });
    assert_eq!(second.operation, Op::MovRegRM);
}

#[test]
fn empty_buffer_is_insufficient() {
    let bytes: [u8; 0] = [];
    assert_eq!(
        parse_instruction(&bytes, start()),
        Err(DecodeError::InsufficientInput { offset: 0 })
    );
}

#[test]
fn truncated_after_opcode_byte() {
    // a register/memory move needs a second byte
    let bytes = [0x89u8];
    assert_eq!(
        parse_instruction(&bytes, start()),
        Err(DecodeError::InsufficientInput { offset: 1 })
    );
}

#[test]
fn truncated_mid_immediate() {
    // a word immediate with only its low byte present
    let bytes = [0xB8u8, 0x05];
    assert_eq!(
        parse_instruction(&bytes, start()),
        Err(DecodeError::InsufficientInput { offset: 2 })
    );
}

#[test]
fn truncated_mid_displacement() {
    // a word displacement with only its low byte present
    let bytes = [0x8Bu8, 0x84, 0x05];
    assert_eq!(
        parse_instruction(&bytes, start()),
        Err(DecodeError::InsufficientInput { offset: 3 })
    );
}

#[test]
fn unsupported_opcode_carries_bits_and_offset() {
    let bytes = [0x00u8, 0x00];
    assert_eq!(
        parse_instruction(&bytes, start()),
        Err(DecodeError::UnsupportedOpcode { bits: 0b0000, offset: 0 })
    );
    let bytes = [0xFFu8];
    assert_eq!(
        parse_instruction(&bytes, start()),
        Err(DecodeError::UnsupportedOpcode { bits: 0b1111, offset: 0 })
    );
    // offset names the instruction start when decoding later in a buffer
    let shifted = [0xB1u8, 0x05, 0xFF];
    let (c1, _) = parse_instruction(&shifted, start()).unwrap();
    assert_eq!(
        parse_instruction(&shifted, c1),
        Err(DecodeError::UnsupportedOpcode { bits: 0b1111, offset: 2 })
    );
}

#[test]
fn unimplemented_families_are_reported() {
    let imm_rm = [0xC6u8, 0x06];
    assert_eq!(
        parse_instruction(&imm_rm, start()),
        Err(DecodeError::UnimplementedVariant { operation: Op::MovImmediateRM })
    );
    let acc = [0xA1u8, 0x00];
    assert_eq!(
        parse_instruction(&acc, start()),
        Err(DecodeError::UnimplementedVariant { operation: Op::MovAccumulator })
    );
}
