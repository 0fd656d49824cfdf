use chipurat8::instr::{decode, get_addr, get_opx, get_opxy, get_opy, Instr};

#[test]
fn operand_fields() {
    assert_eq!(get_addr(0xABCD), 0xBCD);
    assert_eq!(get_opx(0xABCD), 0xB);
    assert_eq!(get_opy(0xABCD), 0xC);
    assert_eq!(get_opxy(0x1234), (2, 3));
}

#[test]
fn decodes_each_group() {
    assert_eq!(decode(0x00E0), Some(Instr::ClearScreen));
    assert_eq!(decode(0x00EE), Some(Instr::Return));
    assert_eq!(decode(0x1234), Some(Instr::Jump { addr: 0x234 }));
    assert_eq!(decode(0x2345), Some(Instr::Call { addr: 0x345 }));
    assert_eq!(decode(0x3A12), Some(Instr::SkipEqByte { x: 0xA, nn: 0x12 }));
    assert_eq!(decode(0x8AB4), Some(Instr::AddReg { x: 0xA, y: 0xB }));
    assert_eq!(decode(0x8ABE), Some(Instr::ShiftLeft { x: 0xA, y: 0xB }));
    assert_eq!(decode(0xD123), Some(Instr::Draw { x: 1, y: 2, n: 3 }));
    assert_eq!(decode(0xE59E), Some(Instr::SkipKey { x: 5 }));
    assert_eq!(decode(0xF765), Some(Instr::LoadRegs { x: 7 }));
}

#[test]
fn rejects_unknown_words() {
    assert_eq!(decode(0x0000), None);
    assert_eq!(decode(0x8008), None);
    assert_eq!(decode(0xE000), None);
    assert_eq!(decode(0xF0FF), None);
}
