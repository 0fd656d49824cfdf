//! Laws of the machine that relate several operations, proved over the model.
use vstd::prelude::*;
use crate::chip8::{
    initial_state, loaded_memory, state_wf, Chip8State, Fault, PcUpdate, FLAG, PROGRAM_START,
};
use crate::instr::{Instr, decode_spec};
use crate::semantics::{
    can_fetch, collides, drawn_screen, execute_spec, fetch_spec, first_pressed, index_span_ok, next_pc, sprite_bit,
    sprite_col, sprite_covers, sprite_row, step_spec,
};

verus! {

/// A cycle that completes moves the program counter only by the directive of
/// the instruction it ran, and the directive fits the instruction: a skip
/// comes only from the conditional skips, staying put only from FX0A with no
/// key pressed, and a jump only from 1NNN, 2NNN, 00EE and BNNN. Everything
/// else in the state is what the instruction's own effect makes of it.
pub proof fn lemma_cycle_follows_directive(s: Chip8State, rnd: u8)
    requires
        step_spec(s, rnd) is Ok,
    ensures
        can_fetch(s),
        decode_spec(fetch_spec(s)) is Some,
        ({
            let ins = decode_spec(fetch_spec(s))->Some_0;
            let (t, d) = execute_spec(s, ins, rnd)->Ok_0;
            &&& t.pc == s.pc
            &&& step_spec(s, rnd) == Ok::<Chip8State, Fault>(
                Chip8State { pc: next_pc(s.pc, d), ..t },
            )
            &&& d is Skip ==> (ins is SkipEqByte || ins is SkipNeByte || ins is SkipEqReg
                || ins is SkipNeReg || ins is SkipKey || ins is SkipNoKey)
            &&& d is Block ==> ins is WaitKey && first_pressed(s.keys, 0) >= 16
            &&& d is Jump ==> (ins is Jump || ins is Call || ins is Return || ins is JumpOffset)
        }),
{
}

/// A machine loaded with an empty image faults deterministically on its
/// first cycle: the zero word at 0x200 is no instruction.
pub proof fn lemma_empty_image_faults(rnd: u8)
    ensures
        step_spec(
            Chip8State {
                memory: loaded_memory(initial_state().memory, Seq::empty()),
                ..initial_state()
            },
            rnd,
        ) == Err::<Chip8State, Fault>(Fault::UnknownOpcode { opcode: 0, pc: PROGRAM_START }),
{
    let s = Chip8State {
        memory: loaded_memory(initial_state().memory, Seq::empty()),
        ..initial_state()
    };
    assert(s.memory[PROGRAM_START as int] == 0);
    assert(s.memory[PROGRAM_START + 1] == 0);
    assert(((0u8 as u16) << 8u16) | (0u8 as u16) == 0) by (bit_vector);
    assert(fetch_spec(s) == 0);
    assert(0u16 & 0xF000 == 0) by (bit_vector);
    assert(0u16 & 0x00FF == 0) by (bit_vector);
}

/// Storing V0 through VX at the index register and loading them straight
/// back gives back exactly the registers that were written, and changes
/// nothing else.
pub proof fn lemma_store_then_load(s: Chip8State, x: usize, rnd: u8)
    requires
        state_wf(s),
        x < 16,
        index_span_ok(s, x + 1),
    ensures
        execute_spec(s, Instr::StoreRegs { x }, rnd) is Ok,
        ({
            let t = execute_spec(s, Instr::StoreRegs { x }, rnd)->Ok_0.0;
            &&& t.v == s.v
            &&& execute_spec(t, Instr::LoadRegs { x }, rnd) == Ok::<
                (Chip8State, PcUpdate),
                Fault,
            >((t, PcUpdate::Next))
        }),
{
    let t = execute_spec(s, Instr::StoreRegs { x }, rnd)->Ok_0.0;
    let w = execute_spec(t, Instr::LoadRegs { x }, rnd)->Ok_0.0;
    assert(w.v =~= t.v);
}

proof fn lemma_none_pressed(keys: Seq<bool>, k: int)
    requires
        0 <= k <= 16,
        forall|j: int| k <= j < 16 ==> !keys[j],
    ensures
        first_pressed(keys, k) == 16,
    decreases 16 - k,
{
    if k < 16 {
        lemma_none_pressed(keys, k + 1);
    }
}

/// At an FX0A instruction with no key pressed a cycle leaves the whole
/// state as it was, program counter included, so any number of such cycles
/// do too.
pub proof fn lemma_wait_key_idles(s: Chip8State, rnd: u8)
    requires
        state_wf(s),
        can_fetch(s),
        decode_spec(fetch_spec(s)) matches Some(Instr::WaitKey { .. }),
        forall|k: int| 0 <= k < 16 ==> !s.keys[k],
    ensures
        step_spec(s, rnd) == Ok::<Chip8State, Fault>(s),
{
    lemma_none_pressed(s.keys, 0);
}

proof fn lemma_row_has_bit(row: u8) -> (b: int)
    requires
        row != 0,
    ensures
        0 <= b < 8,
        sprite_bit(row, b),
{
    assert(row != 0 ==> (row >> 7u8) & 1u8 == 1u8 || (row >> 6u8) & 1u8 == 1u8 || (row >> 5u8)
        & 1u8 == 1u8 || (row >> 4u8) & 1u8 == 1u8 || (row >> 3u8) & 1u8 == 1u8 || (row >> 2u8)
        & 1u8 == 1u8 || (row >> 1u8) & 1u8 == 1u8 || (row >> 0u8) & 1u8 == 1u8) by (bit_vector);
    if sprite_bit(row, 0) {
        0
    } else if sprite_bit(row, 1) {
        1
    } else if sprite_bit(row, 2) {
        2
    } else if sprite_bit(row, 3) {
        3
    } else if sprite_bit(row, 4) {
        4
    } else if sprite_bit(row, 5) {
        5
    } else if sprite_bit(row, 6) {
        6
    } else {
        7
    }
}

proof fn lemma_draw_effect(s: Chip8State, x: usize, y: usize, rnd: u8)
    requires
        index_span_ok(s, 1),
    ensures
        execute_spec(s, Instr::Draw { x, y, n: 1 }, rnd) == Ok::<(Chip8State, PcUpdate), Fault>(
            (
                Chip8State {
                    screen: drawn_screen(s, s.v[x as int], s.v[y as int], 1),
                    v: s.v.update(
                        FLAG as int,
                        if collides(s, s.v[x as int], s.v[y as int], 1) {
                            1
                        } else {
                            0
                        },
                    ),
                    ..s
                },
                PcUpdate::Next,
            ),
        ),
{
}

proof fn lemma_cell_under_bit(vx: u8, vy: u8, b: int) -> (c: int)
    requires
        0 <= b < 8,
    ensures
        0 <= c < 2048,
        sprite_col(c, vx) == b,
        sprite_row(c, vy) == 0,
{
    let q = vy as int % 32;
    let m = (vx as int % 64 + b) % 64;
    let c = q * 64 + m;
    assert(c % 64 == m && c / 64 == q) by (nonlinear_arith)
        requires
            0 <= q < 32,
            0 <= m < 64,
            c == q * 64 + m,
    ;
    c
}

/// Drawing the same one-row sprite twice at the same place leaves the
/// display as it was before the first draw. Where the sprite row is not
/// blank and the cells under it start dark, the second draw turns off every
/// cell that the first one lit and sets the flag register to 1. The position
/// registers must not be the flag register, which the first draw overwrites.
pub proof fn lemma_draw_twice(s: Chip8State, x: usize, y: usize, rnd: u8)
    requires
        state_wf(s),
        x < 15,
        y < 15,
        index_span_ok(s, 1),
    ensures
        execute_spec(s, Instr::Draw { x, y, n: 1 }, rnd) is Ok,
        ({
            let t = execute_spec(s, Instr::Draw { x, y, n: 1 }, rnd)->Ok_0.0;
            &&& execute_spec(t, Instr::Draw { x, y, n: 1 }, rnd) is Ok
            &&& execute_spec(t, Instr::Draw { x, y, n: 1 }, rnd)->Ok_0.0.screen == s.screen
            &&& (s.memory[s.i as int] != 0 && (forall|c: int|
                0 <= c < s.screen.len() && #[trigger] sprite_covers(
                    s.memory,
                    s.i,
                    s.v[x as int],
                    s.v[y as int],
                    1,
                    c,
                ) ==> !s.screen[c])) ==> execute_spec(
                t,
                Instr::Draw { x, y, n: 1 },
                rnd,
            )->Ok_0.0.v[FLAG as int] == 1
        }),
{
    let vx = s.v[x as int];
    let vy = s.v[y as int];
    lemma_draw_effect(s, x, y, rnd);
    let t = execute_spec(s, Instr::Draw { x, y, n: 1 }, rnd)->Ok_0.0;
    assert(t.v[x as int] == vx);
    assert(t.v[y as int] == vy);
    lemma_draw_effect(t, x, y, rnd);
    let w = execute_spec(t, Instr::Draw { x, y, n: 1 }, rnd)->Ok_0.0;
    assert(w.screen =~= s.screen);
    if s.memory[s.i as int] != 0 && (forall|c: int|
        0 <= c < s.screen.len() && #[trigger] sprite_covers(s.memory, s.i, vx, vy, 1, c)
            ==> !s.screen[c]) {
        let b = lemma_row_has_bit(s.memory[s.i as int]);
        let c = lemma_cell_under_bit(vx, vy, b);
        assert(sprite_covers(s.memory, s.i, vx, vy, 1, c));
        assert(t.screen[c]);
        assert(sprite_covers(t.memory, t.i, vx, vy, 1, c));
        assert(collides(t, vx, vy, 1));
    }
}

} // verus!
