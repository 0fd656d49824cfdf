//! What each instruction and one whole cycle do to the model of the machine.
use vstd::prelude::*;
use crate::chip8::{Chip8State, Fault, PcUpdate, FLAG, MEMORY_SIZE, SCREEN_CELLS};
use crate::instr::{Instr, decode_spec};

verus! {

/// The state with register `x` set to `val`.
pub open spec fn with_reg(s: Chip8State, x: usize, val: u8) -> Chip8State {
    Chip8State { v: s.v.update(x as int, val), ..s }
}

/// The state with the flag register set to `flag` and then register `x` to
/// `val` (so for `x == 15` the value wins over the flag).
pub open spec fn with_flag_and_reg(s: Chip8State, flag: u8, x: usize, val: u8) -> Chip8State {
    Chip8State { v: s.v.update(FLAG as int, flag).update(x as int, val), ..s }
}

/// Skip the next instruction when `c` holds.
pub open spec fn skip_if(c: bool) -> PcUpdate {
    if c {
        PcUpdate::Skip
    } else {
        PcUpdate::Next
    }
}

/// Whether the key named by a register value is held. A value of 16 or more
/// names no key and counts as not pressed.
pub open spec fn key_pressed(s: Chip8State, k: u8) -> bool {
    k < 16 && s.keys[k as int]
}

/// The lowest pressed key numbered `k` or more, or 16 if there is none.
pub open spec fn first_pressed(keys: Seq<bool>, k: int) -> int
    decreases 16 - k,
{
    if k >= 16 {
        16
    } else if keys[k] {
        k
    } else {
        first_pressed(keys, k + 1)
    }
}

/// Bit `b` of a sprite row, counting from the most significant bit.
pub open spec fn sprite_bit(row: u8, b: int) -> bool {
    (row >> ((7 - b) as u8)) & 1u8 == 1u8
}

/// Column of cell `c` relative to a sprite whose left edge is at `vx`,
/// wrapping around the 64 columns.
pub open spec fn sprite_col(c: int, vx: u8) -> int {
    (c % 64 + 64 - vx as int % 64) % 64
}

/// Row of cell `c` relative to a sprite whose top edge is at `vy`, wrapping
/// around the 32 rows.
pub open spec fn sprite_row(c: int, vy: u8) -> int {
    (c / 64 + 32 - vy as int % 32) % 32
}

/// Whether display cell `c` lies under a set bit of the `n`-row sprite read
/// from `mem` at `i` and drawn at (`vx`, `vy`), coordinates wrapping around
/// the display.
pub open spec fn sprite_covers(mem: Seq<u8>, i: u16, vx: u8, vy: u8, n: u8, c: int) -> bool {
    let b = sprite_col(c, vx);
    let r = sprite_row(c, vy);
    b < 8 && r < n && sprite_bit(mem[i as int + r], b)
}

/// The display after the sprite is XORed onto it.
pub open spec fn drawn_screen(s: Chip8State, vx: u8, vy: u8, n: u8) -> Seq<bool> {
    Seq::new(
        SCREEN_CELLS as nat,
        |c: int| s.screen[c] != sprite_covers(s.memory, s.i, vx, vy, n, c),
    )
}

/// Whether drawing the sprite turns some lit cell off.
pub open spec fn collides(s: Chip8State, vx: u8, vy: u8, n: u8) -> bool {
    exists|c: int|
        0 <= c < SCREEN_CELLS && #[trigger] sprite_covers(s.memory, s.i, vx, vy, n, c)
            && s.screen[c]
}

/// Whether `len` bytes from the index register stay inside memory.
pub open spec fn index_span_ok(s: Chip8State, len: int) -> bool {
    s.i as int + len <= MEMORY_SIZE
}

/// The effect of one decoded instruction: the new state, with the program
/// counter not yet moved, and how to move it; or the fault it raises, given
/// `rnd` as the random byte that CXNN would use.
pub open spec fn execute_spec(s: Chip8State, ins: Instr, rnd: u8) -> Result<
    (Chip8State, PcUpdate),
    Fault,
> {
    match ins {
        Instr::ClearScreen => Ok(
            (
                Chip8State { screen: Seq::new(SCREEN_CELLS as nat, |c: int| false), ..s },
                PcUpdate::Next,
            ),
        ),
        Instr::Return => if s.stack.len() == 0 {
            Err(Fault::StackUnderflow { pc: s.pc })
        } else {
            Ok(
                (
                    Chip8State { stack: s.stack.drop_last(), ..s },
                    PcUpdate::Jump((s.stack.last() + 2) as usize),
                ),
            )
        },
        Instr::Jump { addr } => Ok((s, PcUpdate::Jump(addr as usize))),
        Instr::Call { addr } => Ok(
            (Chip8State { stack: s.stack.push(s.pc), ..s }, PcUpdate::Jump(addr as usize)),
        ),
        Instr::SkipEqByte { x, nn } => Ok((s, skip_if(s.v[x as int] == nn))),
        Instr::SkipNeByte { x, nn } => Ok((s, skip_if(s.v[x as int] != nn))),
        Instr::SkipEqReg { x, y } => Ok((s, skip_if(s.v[x as int] == s.v[y as int]))),
        Instr::SkipNeReg { x, y } => Ok((s, skip_if(s.v[x as int] != s.v[y as int]))),
        Instr::LoadByte { x, nn } => Ok((with_reg(s, x, nn), PcUpdate::Next)),
        Instr::AddByte { x, nn } => Ok(
            (with_reg(s, x, ((s.v[x as int] + nn) % 256) as u8), PcUpdate::Next),
        ),
        Instr::Move { x, y } => Ok((with_reg(s, x, s.v[y as int]), PcUpdate::Next)),
        Instr::Or { x, y } => Ok((with_reg(s, x, s.v[x as int] | s.v[y as int]), PcUpdate::Next)),
        Instr::And { x, y } => Ok(
            (with_reg(s, x, s.v[x as int] & s.v[y as int]), PcUpdate::Next),
        ),
        Instr::Xor { x, y } => Ok(
            (with_reg(s, x, s.v[x as int] ^ s.v[y as int]), PcUpdate::Next),
        ),
        Instr::AddReg { x, y } => {
            let sum = s.v[x as int] + s.v[y as int];
            Ok(
                (
                    with_flag_and_reg(s, if sum > 255 { 1 } else { 0 }, x, (sum % 256) as u8),
                    PcUpdate::Next,
                ),
            )
        },
        Instr::SubReg { x, y } => {
            let a = s.v[x as int];
            let b = s.v[y as int];
            Ok(
                (
                    with_flag_and_reg(s, if a >= b { 1 } else { 0 }, x, ((a - b + 256) % 256) as u8),
                    PcUpdate::Next,
                ),
            )
        },
        Instr::SubNeg { x, y } => {
            let a = s.v[x as int];
            let b = s.v[y as int];
            Ok(
                (
                    with_flag_and_reg(s, if b >= a { 1 } else { 0 }, x, ((b - a + 256) % 256) as u8),
                    PcUpdate::Next,
                ),
            )
        },
        Instr::ShiftRight { x, .. } => {
            let flagged = s.v.update(FLAG as int, s.v[x as int] & 1);
            Ok(
                (
                    Chip8State { v: flagged.update(x as int, flagged[x as int] >> 1u8), ..s },
                    PcUpdate::Next,
                ),
            )
        },
        Instr::ShiftLeft { x, .. } => {
            let flagged = s.v.update(FLAG as int, s.v[x as int] & 1);
            Ok(
                (
                    Chip8State { v: flagged.update(x as int, flagged[x as int] << 1u8), ..s },
                    PcUpdate::Next,
                ),
            )
        },
        Instr::LoadIndex { addr } => Ok((Chip8State { i: addr, ..s }, PcUpdate::Next)),
        Instr::JumpOffset { addr } => Ok((s, PcUpdate::Jump((addr + s.v[0]) as usize))),
        Instr::Random { x, nn } => Ok((with_reg(s, x, rnd & nn), PcUpdate::Next)),
        Instr::Draw { x, y, n } => if n > 0 && !index_span_ok(s, n as int) {
            Err(Fault::MemoryOutOfRange { pc: s.pc })
        } else {
            let vx = s.v[x as int];
            let vy = s.v[y as int];
            Ok(
                (
                    Chip8State {
                        screen: drawn_screen(s, vx, vy, n),
                        v: s.v.update(FLAG as int, if collides(s, vx, vy, n) { 1 } else { 0 }),
                        ..s
                    },
                    PcUpdate::Next,
                ),
            )
        },
        Instr::SkipKey { x } => Ok((s, skip_if(key_pressed(s, s.v[x as int])))),
        Instr::SkipNoKey { x } => Ok((s, skip_if(!key_pressed(s, s.v[x as int])))),
        Instr::LoadDelay { x } => Ok((with_reg(s, x, s.delay_timer), PcUpdate::Next)),
        Instr::WaitKey { x } => {
            let k = first_pressed(s.keys, 0);
            if k < 16 {
                Ok((with_reg(s, x, k as u8), PcUpdate::Next))
            } else {
                Ok((s, PcUpdate::Block))
            }
        },
        Instr::SetDelay { x } => Ok(
            (Chip8State { delay_timer: s.v[x as int], ..s }, PcUpdate::Next),
        ),
        Instr::SetSound { x } => Ok(
            (Chip8State { sound_timer: s.v[x as int], ..s }, PcUpdate::Next),
        ),
        Instr::AddIndex { x } => Ok(
            (Chip8State { i: ((s.i + s.v[x as int]) % 0x10000) as u16, ..s }, PcUpdate::Next),
        ),
        Instr::LoadFont { x } => Ok(
            (
                Chip8State { i: (0x50 + (s.v[x as int] % 16) * 5) as u16, ..s },
                PcUpdate::Next,
            ),
        ),
        Instr::StoreBcd { x } => if !index_span_ok(s, 3) {
            Err(Fault::MemoryOutOfRange { pc: s.pc })
        } else {
            let val = s.v[x as int];
            let i = s.i as int;
            Ok(
                (
                    Chip8State {
                        memory: s.memory.update(i, val / 100).update(i + 1, (val / 10) % 10).update(
                            i + 2,
                            val % 10,
                        ),
                        ..s
                    },
                    PcUpdate::Next,
                ),
            )
        },
        Instr::StoreRegs { x } => if !index_span_ok(s, x + 1) {
            Err(Fault::MemoryOutOfRange { pc: s.pc })
        } else {
            Ok(
                (
                    Chip8State {
                        memory: Seq::new(
                            s.memory.len(),
                            |a: int|
                                if s.i <= a <= s.i + x {
                                    s.v[a - s.i]
                                } else {
                                    s.memory[a]
                                },
                        ),
                        ..s
                    },
                    PcUpdate::Next,
                ),
            )
        },
        Instr::LoadRegs { x } => if !index_span_ok(s, x + 1) {
            Err(Fault::MemoryOutOfRange { pc: s.pc })
        } else {
            Ok(
                (
                    Chip8State {
                        v: Seq::new(
                            s.v.len(),
                            |k: int|
                                if k <= x {
                                    s.memory[s.i + k]
                                } else {
                                    s.v[k]
                                },
                        ),
                        ..s
                    },
                    PcUpdate::Next,
                ),
            )
        },
    }
}

/// Where the program counter goes from `pc` under a directive.
pub open spec fn next_pc(pc: usize, d: PcUpdate) -> usize {
    match d {
        PcUpdate::Next => (pc + 2) as usize,
        PcUpdate::Skip => (pc + 4) as usize,
        PcUpdate::Block => pc,
        PcUpdate::Jump(addr) => addr,
    }
}

/// Whether a two-byte instruction can be fetched at the program counter.
pub open spec fn can_fetch(s: Chip8State) -> bool {
    s.pc + 1 < MEMORY_SIZE
}

/// The big-endian instruction word at the program counter.
pub open spec fn fetch_spec(s: Chip8State) -> u16 {
    ((s.memory[s.pc as int] as u16) << 8u16) | (s.memory[s.pc + 1] as u16)
}

/// One instruction cycle: fetch, decode, execute, move the program counter.
pub open spec fn step_spec(s: Chip8State, rnd: u8) -> Result<Chip8State, Fault> {
    if !can_fetch(s) {
        Err(Fault::MemoryOutOfRange { pc: s.pc })
    } else {
        let op = fetch_spec(s);
        match decode_spec(op) {
            None => Err(Fault::UnknownOpcode { opcode: op, pc: s.pc }),
            Some(ins) => match execute_spec(s, ins, rnd) {
                Err(e) => Err(e),
                Ok((t, d)) => Ok(Chip8State { pc: next_pc(s.pc, d), ..t }),
            },
        }
    }
}

} // verus!
