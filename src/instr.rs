//! Decoding of two-byte CHIP-8 instructions into tagged variants.
use vstd::prelude::*;

verus! {

/// The address held in the low twelve bits of an instruction (NNN).
pub fn get_addr(op: u16) -> (r: usize)
    ensures
        r == (op & 0x0FFF) as usize,
        r < 0x1000,
{
    assert((op & 0x0FFF) < 0x1000) by (bit_vector);
    (op & 0x0FFF) as usize
}

/// The register named by the second nibble of an instruction (X).
pub fn get_opx(op: u16) -> (r: usize)
    ensures
        r == ((op & 0x0F00) >> 8) as usize,
        r < 16,
{
    assert(((op & 0x0F00) >> 8) < 16) by (bit_vector);
    ((op & 0x0F00) >> 8) as usize
}

/// The register named by the third nibble of an instruction (Y).
pub fn get_opy(op: u16) -> (r: usize)
    ensures
        r == ((op & 0x00F0) >> 4) as usize,
        r < 16,
{
    assert(((op & 0x00F0) >> 4) < 16) by (bit_vector);
    ((op & 0x00F0) >> 4) as usize
}

/// Both register operands, X and Y.
pub fn get_opxy(op: u16) -> (r: (usize, usize))
    ensures
        r.0 == ((op & 0x0F00) >> 8) as usize,
        r.1 == ((op & 0x00F0) >> 4) as usize,
        r.0 < 16,
        r.1 < 16,
{
    (get_opx(op), get_opy(op))
}

/// One decoded instruction with its operand fields. `x` and `y` name
/// registers, `nn` is the low byte, `addr` the low twelve bits and `n` the
/// low nibble of the instruction.
#[derive(Clone, Copy, Debug, PartialEq, Eq, Structural)]
pub enum Instr {
    /// 00E0
    ClearScreen,
    /// 00EE
    Return,
    /// 1NNN
    Jump { addr: u16 },
    /// 2NNN
    Call { addr: u16 },
    /// 3XNN
    SkipEqByte { x: usize, nn: u8 },
    /// 4XNN
    SkipNeByte { x: usize, nn: u8 },
    /// 5XY0
    SkipEqReg { x: usize, y: usize },
    /// 6XNN
    LoadByte { x: usize, nn: u8 },
    /// 7XNN
    AddByte { x: usize, nn: u8 },
    /// 8XY0
    Move { x: usize, y: usize },
    /// 8XY1
    Or { x: usize, y: usize },
    /// 8XY2
    And { x: usize, y: usize },
    /// 8XY3
    Xor { x: usize, y: usize },
    /// 8XY4
    AddReg { x: usize, y: usize },
    /// 8XY5
    SubReg { x: usize, y: usize },
    /// 8XY6
    ShiftRight { x: usize, y: usize },
    /// 8XY7
    SubNeg { x: usize, y: usize },
    /// 8XYE
    ShiftLeft { x: usize, y: usize },
    /// 9XY0
    SkipNeReg { x: usize, y: usize },
    /// ANNN
    LoadIndex { addr: u16 },
    /// BNNN
    JumpOffset { addr: u16 },
    /// CXNN
    Random { x: usize, nn: u8 },
    /// DXYN
    Draw { x: usize, y: usize, n: u8 },
    /// EX9E
    SkipKey { x: usize },
    /// EXA1
    SkipNoKey { x: usize },
    /// FX07
    LoadDelay { x: usize },
    /// FX0A
    WaitKey { x: usize },
    /// FX15
    SetDelay { x: usize },
    /// FX18
    SetSound { x: usize },
    /// FX1E
    AddIndex { x: usize },
    /// FX29
    LoadFont { x: usize },
    /// FX33
    StoreBcd { x: usize },
    /// FX55
    StoreRegs { x: usize },
    /// FX65
    LoadRegs { x: usize },
}

/// The X field of an instruction word.
pub open spec fn spec_x(op: u16) -> usize {
    ((op & 0x0F00) >> 8) as usize
}

/// The Y field of an instruction word.
pub open spec fn spec_y(op: u16) -> usize {
    ((op & 0x00F0) >> 4) as usize
}

/// The NN field (low byte) of an instruction word.
pub open spec fn spec_nn(op: u16) -> u8 {
    (op & 0x00FF) as u8
}

/// The NNN field (low twelve bits) of an instruction word.
pub open spec fn spec_addr(op: u16) -> u16 {
    op & 0x0FFF
}

/// What an instruction word means: `None` for an unrecognized top nibble or
/// sub-opcode. For the 0 and E and F groups the low byte selects the
/// operation, for the 8 group the low nibble; 5XYN and 9XYN ignore N.
pub open spec fn decode_spec(op: u16) -> Option<Instr> {
    let top = op & 0xF000;
    let x = spec_x(op);
    let y = spec_y(op);
    let nn = spec_nn(op);
    let addr = spec_addr(op);
    if top == 0x0000 {
        if nn == 0xE0 {
            Some(Instr::ClearScreen)
        } else if nn == 0xEE {
            Some(Instr::Return)
        } else {
            None
        }
    } else if top == 0x1000 {
        Some(Instr::Jump { addr })
    } else if top == 0x2000 {
        Some(Instr::Call { addr })
    } else if top == 0x3000 {
        Some(Instr::SkipEqByte { x, nn })
    } else if top == 0x4000 {
        Some(Instr::SkipNeByte { x, nn })
    } else if top == 0x5000 {
        Some(Instr::SkipEqReg { x, y })
    } else if top == 0x6000 {
        Some(Instr::LoadByte { x, nn })
    } else if top == 0x7000 {
        Some(Instr::AddByte { x, nn })
    } else if top == 0x8000 {
        let sub = op & 0x000F;
        if sub == 0x0 {
            Some(Instr::Move { x, y })
        } else if sub == 0x1 {
            Some(Instr::Or { x, y })
        } else if sub == 0x2 {
            Some(Instr::And { x, y })
        } else if sub == 0x3 {
            Some(Instr::Xor { x, y })
        } else if sub == 0x4 {
            Some(Instr::AddReg { x, y })
        } else if sub == 0x5 {
            Some(Instr::SubReg { x, y })
        } else if sub == 0x6 {
            Some(Instr::ShiftRight { x, y })
        } else if sub == 0x7 {
            Some(Instr::SubNeg { x, y })
        } else if sub == 0xE {
            Some(Instr::ShiftLeft { x, y })
        } else {
            None
        }
    } else if top == 0x9000 {
        Some(Instr::SkipNeReg { x, y })
    } else if top == 0xA000 {
        Some(Instr::LoadIndex { addr })
    } else if top == 0xB000 {
        Some(Instr::JumpOffset { addr })
    } else if top == 0xC000 {
        Some(Instr::Random { x, nn })
    } else if top == 0xD000 {
        Some(Instr::Draw { x, y, n: (op & 0x000F) as u8 })
    } else if top == 0xE000 {
        if nn == 0x9E {
            Some(Instr::SkipKey { x })
        } else if nn == 0xA1 {
            Some(Instr::SkipNoKey { x })
        } else {
            None
        }
    } else {
        // top == 0xF000
        if nn == 0x07 {
            Some(Instr::LoadDelay { x })
        } else if nn == 0x0A {
            Some(Instr::WaitKey { x })
        } else if nn == 0x15 {
            Some(Instr::SetDelay { x })
        } else if nn == 0x18 {
            Some(Instr::SetSound { x })
        } else if nn == 0x1E {
            Some(Instr::AddIndex { x })
        } else if nn == 0x29 {
            Some(Instr::LoadFont { x })
        } else if nn == 0x33 {
            Some(Instr::StoreBcd { x })
        } else if nn == 0x55 {
            Some(Instr::StoreRegs { x })
        } else if nn == 0x65 {
            Some(Instr::LoadRegs { x })
        } else {
            None
        }
    }
}

/// Every register operand names one of the sixteen registers and every
/// sprite height fits in a nibble.
pub open spec fn operands_in_range(ins: Instr) -> bool {
    match ins {
        Instr::SkipEqByte { x, .. } | Instr::SkipNeByte { x, .. } | Instr::LoadByte { x, .. }
        | Instr::AddByte { x, .. } | Instr::Random { x, .. } | Instr::SkipKey { x }
        | Instr::SkipNoKey { x } | Instr::LoadDelay { x } | Instr::WaitKey { x }
        | Instr::SetDelay { x } | Instr::SetSound { x } | Instr::AddIndex { x }
        | Instr::LoadFont { x } | Instr::StoreBcd { x } | Instr::StoreRegs { x }
        | Instr::LoadRegs { x } => x < 16,
        Instr::SkipEqReg { x, y } | Instr::SkipNeReg { x, y } | Instr::Move { x, y }
        | Instr::Or { x, y } | Instr::And { x, y } | Instr::Xor { x, y }
        | Instr::AddReg { x, y } | Instr::SubReg { x, y } | Instr::ShiftRight { x, y }
        | Instr::SubNeg { x, y } | Instr::ShiftLeft { x, y } => x < 16 && y < 16,
        Instr::Draw { x, y, n } => x < 16 && y < 16 && n < 16,
        Instr::Jump { addr } | Instr::Call { addr } | Instr::LoadIndex { addr }
        | Instr::JumpOffset { addr } => addr < 0x1000,
        Instr::ClearScreen | Instr::Return => true,
    }
}

/// Every instruction that decoding produces has its operands in range.
pub proof fn lemma_decode_in_range(op: u16)
    ensures
        decode_spec(op) matches Some(ins) ==> operands_in_range(ins),
{
    assert(((op & 0x0F00) >> 8) < 16) by (bit_vector);
    assert(((op & 0x00F0) >> 4) < 16) by (bit_vector);
    assert((op & 0x000F) < 16) by (bit_vector);
    assert((op & 0x0FFF) < 0x1000) by (bit_vector);
}

/// Decodes one instruction word; `None` where the word names no operation.
pub fn decode(op: u16) -> (r: Option<Instr>)
    ensures
        r == decode_spec(op),
        r matches Some(ins) ==> operands_in_range(ins),
{
    proof {
        lemma_decode_in_range(op);
    }
    let top = op & 0xF000;
    let (x, y) = get_opxy(op);
    let nn = (op & 0x00FF) as u8;
    let addr = op & 0x0FFF;
    match top {
        0x0000 => match nn {
            0xE0 => Some(Instr::ClearScreen),
            0xEE => Some(Instr::Return),
            _ => None,
        },
        0x1000 => Some(Instr::Jump { addr }),
        0x2000 => Some(Instr::Call { addr }),
        0x3000 => Some(Instr::SkipEqByte { x, nn }),
        0x4000 => Some(Instr::SkipNeByte { x, nn }),
        0x5000 => Some(Instr::SkipEqReg { x, y }),
        0x6000 => Some(Instr::LoadByte { x, nn }),
        0x7000 => Some(Instr::AddByte { x, nn }),
        0x8000 => match op & 0x000F {
            0x0 => Some(Instr::Move { x, y }),
            0x1 => Some(Instr::Or { x, y }),
            0x2 => Some(Instr::And { x, y }),
            0x3 => Some(Instr::Xor { x, y }),
            0x4 => Some(Instr::AddReg { x, y }),
            0x5 => Some(Instr::SubReg { x, y }),
            0x6 => Some(Instr::ShiftRight { x, y }),
            0x7 => Some(Instr::SubNeg { x, y }),
            0xE => Some(Instr::ShiftLeft { x, y }),
            _ => None,
        },
        0x9000 => Some(Instr::SkipNeReg { x, y }),
        0xA000 => Some(Instr::LoadIndex { addr }),
        0xB000 => Some(Instr::JumpOffset { addr }),
        0xC000 => Some(Instr::Random { x, nn }),
        0xD000 => Some(Instr::Draw { x, y, n: (op & 0x000F) as u8 }),
        0xE000 => match nn {
            0x9E => Some(Instr::SkipKey { x }),
            0xA1 => Some(Instr::SkipNoKey { x }),
            _ => None,
        },
        _ => {
            assert(top == 0xF000) by {
                assert((op & 0xF000) == 0x0000 || (op & 0xF000) == 0x1000 || (op & 0xF000)
                    == 0x2000 || (op & 0xF000) == 0x3000 || (op & 0xF000) == 0x4000 || (op
                    & 0xF000) == 0x5000 || (op & 0xF000) == 0x6000 || (op & 0xF000) == 0x7000
                    || (op & 0xF000) == 0x8000 || (op & 0xF000) == 0x9000 || (op & 0xF000)
                    == 0xA000 || (op & 0xF000) == 0xB000 || (op & 0xF000) == 0xC000 || (op
                    & 0xF000) == 0xD000 || (op & 0xF000) == 0xE000 || (op & 0xF000) == 0xF000)
                    by (bit_vector);
            }
            match nn {
                0x07 => Some(Instr::LoadDelay { x }),
                0x0A => Some(Instr::WaitKey { x }),
                0x15 => Some(Instr::SetDelay { x }),
                0x18 => Some(Instr::SetSound { x }),
                0x1E => Some(Instr::AddIndex { x }),
                0x29 => Some(Instr::LoadFont { x }),
                0x33 => Some(Instr::StoreBcd { x }),
                0x55 => Some(Instr::StoreRegs { x }),
                0x65 => Some(Instr::LoadRegs { x }),
                _ => None,
            }
        },
    }
}

} // verus!
