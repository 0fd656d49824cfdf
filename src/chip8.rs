//! The machine: memory, registers, call stack, timers, keypad and display,
//! with its mathematical model and the fetch-decode-execute cycle.
use vstd::prelude::*;
use crate::instr::{Instr, decode, operands_in_range};
use crate::semantics::{
    can_fetch, collides, drawn_screen, execute_spec, fetch_spec, first_pressed, index_span_ok,
    key_pressed, sprite_covers, step_spec, with_reg,
};

verus! {

/// Width of the display in cells.
pub const WIDTH: usize = 64;

/// Height of the display in cells.
pub const HEIGHT: usize = 32;

/// Number of display cells, stored row by row.
pub const SCREEN_CELLS: usize = 2048;

/// Size of the addressable memory in bytes.
pub const MEMORY_SIZE: usize = 4096;

/// Address at which the program image is loaded and execution starts.
pub const PROGRAM_START: usize = 0x200;

/// Address of the built-in glyph table.
pub const FONT_START: usize = 0x050;

/// Largest program image: it fills addresses 0x200 through 0xFFF.
pub const MAX_IMAGE_LEN: usize = 3584;

/// Register written by carries, borrows, shifts and sprite collisions.
pub const FLAG: usize = 15;

/// The sixteen hexadecimal glyphs, five bytes each.
pub open spec fn font_spec() -> Seq<u8> {
    seq![
        0xF0u8, 0x90, 0x90, 0x90, 0xF0, 0x20, 0x60, 0x20, 0x20, 0x70,
        0xF0, 0x10, 0xF0, 0x80, 0xF0, 0xF0, 0x10, 0xF0, 0x10, 0xF0,
        0x90, 0x90, 0xF0, 0x10, 0x10, 0xF0, 0x80, 0xF0, 0x10, 0xF0,
        0xF0, 0x80, 0xF0, 0x90, 0xF0, 0xF0, 0x10, 0x20, 0x40, 0x40,
        0xF0, 0x90, 0xF0, 0x90, 0xF0, 0xF0, 0x90, 0xF0, 0x10, 0xF0,
        0xF0, 0x90, 0xF0, 0x90, 0x90, 0xE0, 0x90, 0xE0, 0x90, 0xE0,
        0xF0, 0x80, 0x80, 0x80, 0xF0, 0xE0, 0x90, 0x90, 0x90, 0xE0,
        0xF0, 0x80, 0xF0, 0x80, 0xF0, 0xF0, 0x80, 0xF0, 0x80, 0x80,
    ]
}

fn font_table() -> (r: Vec<u8>)
    ensures
        r@ == font_spec(),
{
    let r = vec![
        0xF0u8, 0x90, 0x90, 0x90, 0xF0, 0x20, 0x60, 0x20, 0x20, 0x70,
        0xF0, 0x10, 0xF0, 0x80, 0xF0, 0xF0, 0x10, 0xF0, 0x10, 0xF0,
        0x90, 0x90, 0xF0, 0x10, 0x10, 0xF0, 0x80, 0xF0, 0x10, 0xF0,
        0xF0, 0x80, 0xF0, 0x90, 0xF0, 0xF0, 0x10, 0x20, 0x40, 0x40,
        0xF0, 0x90, 0xF0, 0x90, 0xF0, 0xF0, 0x90, 0xF0, 0x10, 0xF0,
        0xF0, 0x90, 0xF0, 0x90, 0x90, 0xE0, 0x90, 0xE0, 0x90, 0xE0,
        0xF0, 0x80, 0x80, 0x80, 0xF0, 0xE0, 0x90, 0x90, 0x90, 0xE0,
        0xF0, 0x80, 0xF0, 0x80, 0xF0, 0xF0, 0x80, 0xF0, 0x80, 0x80,
    ];
    assert(r@ =~= font_spec());
    r
}

/// Why loading a program image failed.
#[derive(Clone, Copy, Debug, PartialEq, Eq, Structural)]
pub enum LoadError {
    /// The image could not be read from its source.
    Unreadable,
    /// The image is longer than the space from 0x200 through 0xFFF.
    TooLarge { len: usize },
}

/// A fault that stops the machine. The state is left as it was before the
/// faulting cycle.
#[derive(Clone, Copy, Debug, PartialEq, Eq, Structural)]
pub enum Fault {
    /// 00EE with an empty call stack.
    StackUnderflow { pc: usize },
    /// The instruction word at `pc` names no operation.
    UnknownOpcode { opcode: u16, pc: usize },
    /// The instruction at `pc`, or the fetch of it, addresses memory past
    /// its end.
    MemoryOutOfRange { pc: usize },
}

/// How one executed instruction moves the program counter.
#[derive(Clone, Copy, Debug, PartialEq, Eq, Structural)]
pub enum PcUpdate {
    /// Advance by one instruction (2 bytes).
    Next,
    /// Skip the next instruction (4 bytes).
    Skip,
    /// Stay on this instruction.
    Block,
    /// Continue at the given address.
    Jump(usize),
}

/// The mathematical model of the machine: memory, the sixteen registers,
/// the index register, program counter, call stack, both timers, the
/// pending sound request, the keypad and the display (row-major cells).
pub struct Chip8State {
    pub memory: Seq<u8>,
    pub v: Seq<u8>,
    pub i: u16,
    pub pc: usize,
    pub stack: Seq<usize>,
    pub delay_timer: u8,
    pub sound_timer: u8,
    pub sound_request: bool,
    pub keys: Seq<bool>,
    pub screen: Seq<bool>,
}

/// The sizes of the fixed parts, and return addresses that each leave room
/// for a two-byte instruction in memory.
pub open spec fn state_wf(s: Chip8State) -> bool {
    &&& s.memory.len() == MEMORY_SIZE
    &&& s.v.len() == 16
    &&& s.keys.len() == 16
    &&& s.screen.len() == SCREEN_CELLS
    &&& forall|k: int| 0 <= k < s.stack.len() ==> #[trigger] s.stack[k] < MEMORY_SIZE - 1
}

/// A freshly constructed machine: everything zero, nothing pressed or lit,
/// the program counter at 0x200.
pub open spec fn initial_state() -> Chip8State {
    Chip8State {
        memory: Seq::new(MEMORY_SIZE as nat, |a: int| 0u8),
        v: Seq::new(16, |k: int| 0u8),
        i: 0,
        pc: PROGRAM_START,
        stack: Seq::empty(),
        delay_timer: 0,
        sound_timer: 0,
        sound_request: false,
        keys: Seq::new(16, |k: int| false),
        screen: Seq::new(SCREEN_CELLS as nat, |c: int| false),
    }
}

/// Memory after the glyph table is written at 0x050 and the image at 0x200.
pub open spec fn loaded_memory(mem: Seq<u8>, image: Seq<u8>) -> Seq<u8> {
    Seq::new(
        mem.len(),
        |a: int|
            if PROGRAM_START <= a < PROGRAM_START + image.len() {
                image[a - PROGRAM_START]
            } else if FONT_START <= a < FONT_START + 80 {
                font_spec()[a - FONT_START]
            } else {
                mem[a]
            },
    )
}

/// One timer tick: both timers count down to zero, and a sound is requested
/// exactly when the sound timer goes from 1 to 0.
pub open spec fn tick_spec(s: Chip8State) -> Chip8State {
    Chip8State {
        delay_timer: if s.delay_timer > 0 { (s.delay_timer - 1) as u8 } else { 0 },
        sound_timer: if s.sound_timer > 0 { (s.sound_timer - 1) as u8 } else { 0 },
        sound_request: s.sound_timer == 1,
        ..s
    }
}

/// The interpreter: all emulated state, owned by one value.
pub struct Chip8 {
    memory: Vec<u8>,
    stack: Vec<usize>,
    v: Vec<u8>,
    i: u16,
    pc: usize,
    delay_timer: u8,
    sound_timer: u8,
    sound_request: bool,
    keys: Vec<bool>,
    screen: Vec<bool>,
}

impl View for Chip8 {
    type V = Chip8State;

    closed spec fn view(&self) -> Chip8State {
        Chip8State {
            memory: self.memory@,
            v: self.v@,
            i: self.i,
            pc: self.pc,
            stack: self.stack@,
            delay_timer: self.delay_timer,
            sound_timer: self.sound_timer,
            sound_request: self.sound_request,
            keys: self.keys@,
            screen: self.screen@,
        }
    }
}

fn filled<T: Copy>(value: T, n: usize) -> (r: Vec<T>)
    ensures
        r@ == Seq::new(n as nat, |k: int| value),
{
    let mut r: Vec<T> = Vec::new();
    let mut k: usize = 0;
    while k < n
        invariant
            k <= n,
            r@ == Seq::new(k as nat, |j: int| value),
        decreases n - k,
    {
        r.push(value);
        k = k + 1;
        assert(r@ =~= Seq::new(k as nat, |j: int| value));
    }
    r
}

impl Chip8 {
    /// The machine's fixed parts have their sizes and every return address
    /// on the stack leaves room for an instruction. Every operation keeps it.
    pub open spec fn wf(&self) -> bool {
        state_wf(self@)
    }

    /// A machine with all state zeroed and the program counter at 0x200.
    pub fn new() -> (r: Chip8)
        ensures
            r@ == initial_state(),
            r.wf(),
    {
        Chip8 {
            keys: filled(false, 16),
            memory: filled(0u8, MEMORY_SIZE),
            stack: Vec::new(),
            v: filled(0u8, 16),
            i: 0,
            pc: PROGRAM_START,
            delay_timer: 0,
            sound_timer: 0,
            sound_request: false,
            screen: filled(false, SCREEN_CELLS),
        }
    }

    /// Copies a program image to 0x200 and the glyph table to 0x050. An image
    /// longer than 3584 bytes is refused and nothing changes.
    pub fn init(&mut self, image: &[u8]) -> (r: Result<(), LoadError>)
        requires
            old(self).wf(),
        ensures
            final(self).wf(),
            image@.len() > MAX_IMAGE_LEN ==> r == Err::<(), LoadError>(
                LoadError::TooLarge { len: image@.len() as usize },
            ) && final(self)@ == old(self)@,
            image@.len() <= MAX_IMAGE_LEN ==> r is Ok && final(self)@ == (Chip8State {
                memory: loaded_memory(old(self)@.memory, image@),
                ..old(self)@
            }),
    {
        if image.len() > MAX_IMAGE_LEN {
            return Err(LoadError::TooLarge { len: image.len() });
        }
        self.load_rom(image);
        self.load_font();
        assert(self.memory@ =~= loaded_memory(old(self)@.memory, image@));
        Ok(())
    }

    fn load_rom(&mut self, image: &[u8])
        requires
            old(self).wf(),
            image@.len() <= MAX_IMAGE_LEN,
        ensures
            final(self)@ == (Chip8State {
                memory: Seq::new(
                    MEMORY_SIZE as nat,
                    |a: int|
                        if PROGRAM_START <= a < PROGRAM_START + image@.len() {
                            image@[a - PROGRAM_START]
                        } else {
                            old(self)@.memory[a]
                        },
                ),
                ..old(self)@
            }),
    {
        let mut k: usize = 0;
        while k < image.len()
            invariant
                k <= image@.len() <= MAX_IMAGE_LEN,
                old(self).wf(),
                self.wf(),
                self@ == (Chip8State { memory: self@.memory, ..old(self)@ }),
                forall|a: int|
                    0 <= a < MEMORY_SIZE ==> #[trigger] self@.memory[a] == if PROGRAM_START <= a
                        < PROGRAM_START + k {
                        image@[a - PROGRAM_START]
                    } else {
                        old(self)@.memory[a]
                    },
            decreases image@.len() - k,
        {
            self.memory.set(PROGRAM_START + k, image[k]);
            k = k + 1;
        }
        assert(self@.memory =~= Seq::new(
            MEMORY_SIZE as nat,
            |a: int|
                if PROGRAM_START <= a < PROGRAM_START + image@.len() {
                    image@[a - PROGRAM_START]
                } else {
                    old(self)@.memory[a]
                },
        ));
    }

    fn load_font(&mut self)
        requires
            old(self).wf(),
        ensures
            final(self)@ == (Chip8State {
                memory: Seq::new(
                    MEMORY_SIZE as nat,
                    |a: int|
                        if FONT_START <= a < FONT_START + 80 {
                            font_spec()[a - FONT_START]
                        } else {
                            old(self)@.memory[a]
                        },
                ),
                ..old(self)@
            }),
    {
        let font = font_table();
        let mut k: usize = 0;
        while k < font.len()
            invariant
                font@ == font_spec(),
                k <= 80,
                old(self).wf(),
                self.wf(),
                self@ == (Chip8State { memory: self@.memory, ..old(self)@ }),
                forall|a: int|
                    0 <= a < MEMORY_SIZE ==> #[trigger] self@.memory[a] == if FONT_START <= a
                        < FONT_START + k {
                        font_spec()[a - FONT_START]
                    } else {
                        old(self)@.memory[a]
                    },
            decreases 80 - k,
        {
            self.memory.set(FONT_START + k, font[k]);
            k = k + 1;
        }
        assert(self@.memory =~= Seq::new(
            MEMORY_SIZE as nat,
            |a: int|
                if FONT_START <= a < FONT_START + 80 {
                    font_spec()[a - FONT_START]
                } else {
                    old(self)@.memory[a]
                },
        ));
    }

    /// One 60Hz timer tick, independent of instruction cycles.
    pub fn decrement_timers(&mut self)
        requires
            old(self).wf(),
        ensures
            final(self)@ == tick_spec(old(self)@),
            final(self).wf(),
    {
        if self.delay_timer > 0 {
            self.delay_timer = self.delay_timer - 1;
        }
        self.sound_request = self.sound_timer == 1;
        if self.sound_timer > 0 {
            self.sound_timer = self.sound_timer - 1;
        }
    }

    /// Reports whether the last tick asked for a tone, and clears the request.
    pub fn consume_sound_request(&mut self) -> (r: bool)
        requires
            old(self).wf(),
        ensures
            r == old(self)@.sound_request,
            final(self)@ == (Chip8State { sound_request: false, ..old(self)@ }),
            final(self).wf(),
    {
        let r = self.sound_request;
        self.sound_request = false;
        r
    }

    /// Records whether hexadecimal key `key` is held down.
    pub fn set_key(&mut self, key: usize, pressed: bool)
        requires
            old(self).wf(),
            key < 16,
        ensures
            final(self)@ == (Chip8State {
                keys: old(self)@.keys.update(key as int, pressed),
                ..old(self)@
            }),
            final(self).wf(),
    {
        self.keys.set(key, pressed);
    }

    /// The program counter.
    pub fn pc(&self) -> (r: usize)
        ensures
            r == self@.pc,
    {
        self.pc
    }

    /// The index register.
    pub fn index(&self) -> (r: u16)
        ensures
            r == self@.i,
    {
        self.i
    }

    /// General-purpose register `x`.
    pub fn register(&self, x: usize) -> (r: u8)
        requires
            self.wf(),
            x < 16,
        ensures
            r == self@.v[x as int],
    {
        self.v[x]
    }

    /// The delay timer, read by FX07.
    pub fn delay_timer(&self) -> (r: u8)
        ensures
            r == self@.delay_timer,
    {
        self.delay_timer
    }

    /// The sound timer.
    pub fn sound_timer(&self) -> (r: u8)
        ensures
            r == self@.sound_timer,
    {
        self.sound_timer
    }

    /// The byte at address `addr`.
    pub fn memory_at(&self, addr: usize) -> (r: u8)
        requires
            self.wf(),
            addr < MEMORY_SIZE,
        ensures
            r == self@.memory[addr as int],
    {
        self.memory[addr]
    }

    /// Number of return addresses on the call stack.
    pub fn stack_depth(&self) -> (r: usize)
        ensures
            r == self@.stack.len(),
    {
        self.stack.len()
    }

    /// Whether display cell `cell` (row-major, `WIDTH` cells per row) is lit.
    pub fn pixel(&self, cell: usize) -> (r: bool)
        requires
            self.wf(),
            cell < SCREEN_CELLS,
        ensures
            r == self@.screen[cell as int],
    {
        self.screen[cell]
    }

    /// Whether hexadecimal key `key` is recorded as held down.
    pub fn is_key_pressed(&self, key: usize) -> (r: bool)
        requires
            self.wf(),
            key < 16,
        ensures
            r == self@.keys[key as int],
    {
        self.keys[key]
    }

    fn set_reg(&mut self, x: usize, val: u8)
        requires
            old(self).wf(),
            x < 16,
        ensures
            final(self)@ == with_reg(old(self)@, x, val),
            final(self).wf(),
    {
        self.v.set(x, val);
        assert(self@.stack == old(self)@.stack);
    }

    fn set_flag_and_reg(&mut self, flag: u8, x: usize, val: u8)
        requires
            old(self).wf(),
            x < 16,
        ensures
            final(self)@ == (Chip8State {
                v: old(self)@.v.update(FLAG as int, flag).update(x as int, val),
                ..old(self)@
            }),
            final(self).wf(),
    {
        self.v.set(FLAG, flag);
        self.v.set(x, val);
    }

    fn cond_skip(c: bool) -> (r: PcUpdate)
        ensures
            r == crate::semantics::skip_if(c),
    {
        if c {
            PcUpdate::Skip
        } else {
            PcUpdate::Next
        }
    }

    fn key_is_pressed(&self, k: u8) -> (r: bool)
        requires
            self.wf(),
        ensures
            r == key_pressed(self@, k),
    {
        k < 16 && self.keys[k as usize]
    }

    /// DXYN: XORs an `n`-row sprite from memory at the index register onto
    /// the display at (VX, VY), wrapping around its edges, and sets the flag
    /// register to whether a lit cell went dark.
    fn draw(&mut self, x: usize, y: usize, n: u8) -> (r: Result<PcUpdate, Fault>)
        requires
            old(self).wf(),
            x < 16,
            y < 16,
        ensures
            final(self).wf(),
            n > 0 && !index_span_ok(old(self)@, n as int) ==> r == Err::<PcUpdate, Fault>(
                Fault::MemoryOutOfRange { pc: old(self)@.pc },
            ) && final(self)@ == old(self)@,
            !(n > 0 && !index_span_ok(old(self)@, n as int)) ==> r == Ok::<PcUpdate, Fault>(
                PcUpdate::Next,
            ) && final(self)@ == (Chip8State {
                screen: drawn_screen(old(self)@, old(self)@.v[x as int], old(self)@.v[y as int], n),
                v: old(self)@.v.update(
                    FLAG as int,
                    if collides(old(self)@, old(self)@.v[x as int], old(self)@.v[y as int], n) {
                        1
                    } else {
                        0
                    },
                ),
                ..old(self)@
            }),
    {
        if n > 0 && self.i as usize + n as usize > MEMORY_SIZE {
            return Err(Fault::MemoryOutOfRange { pc: self.pc });
        }
        let vx = self.v[x];
        let vy = self.v[y];
        let ghost s0 = self@;
        let mut hit = false;
        let mut c: usize = 0;
        while c < SCREEN_CELLS
            invariant
                c <= SCREEN_CELLS,
                old(self).wf(),
                s0 == old(self)@,
                vx == s0.v[x as int],
                vy == s0.v[y as int],
                n == 0 || s0.i + n <= MEMORY_SIZE,
                self@ == (Chip8State { screen: self@.screen, ..s0 }),
                self@.screen.len() == SCREEN_CELLS,
                forall|j: int|
                    0 <= j < SCREEN_CELLS ==> #[trigger] self@.screen[j] == if j < c {
                        s0.screen[j] != sprite_covers(s0.memory, s0.i, vx, vy, n, j)
                    } else {
                        s0.screen[j]
                    },
                hit == exists|j: int|
                    0 <= j < c && #[trigger] sprite_covers(s0.memory, s0.i, vx, vy, n, j)
                        && s0.screen[j],
            decreases SCREEN_CELLS - c,
        {
            let col = ((c % 64) + 64 - (vx as usize) % 64) % 64;
            let row = (c / 64 + 32 - (vy as usize) % 32) % 32;
            let covered = if col < 8 && row < n as usize {
                let byte = self.memory[self.i as usize + row];
                (byte >> ((7 - col) as u8)) & 1u8 == 1u8
            } else {
                false
            };
            assert(covered == sprite_covers(s0.memory, s0.i, vx, vy, n, c as int));
            let lit = self.screen[c];
            if covered {
                if lit {
                    hit = true;
                }
                self.screen.set(c, !lit);
            }
            c = c + 1;
        }
        self.v.set(FLAG, if hit { 1 } else { 0 });
        assert(self@.screen =~= drawn_screen(s0, vx, vy, n));
        Ok(PcUpdate::Next)
    }

    /// FX0A: loads the lowest pressed key into VX, or blocks if none is.
    fn wait_key(&mut self, x: usize) -> (r: Result<PcUpdate, Fault>)
        requires
            old(self).wf(),
            x < 16,
        ensures
            final(self).wf(),
            first_pressed(old(self)@.keys, 0) < 16 ==> r == Ok::<PcUpdate, Fault>(PcUpdate::Next)
                && final(self)@ == with_reg(
                old(self)@,
                x,
                first_pressed(old(self)@.keys, 0) as u8,
            ),
            first_pressed(old(self)@.keys, 0) >= 16 ==> r == Ok::<PcUpdate, Fault>(
                PcUpdate::Block,
            ) && final(self)@ == old(self)@,
    {
        let mut k: usize = 0;
        while k < 16
            invariant
                k <= 16,
                x < 16,
                self.wf(),
                self@ == old(self)@,
                first_pressed(self@.keys, 0) == first_pressed(self@.keys, k as int),
            decreases 16 - k,
        {
            if self.keys[k] {
                self.set_reg(x, k as u8);
                return Ok(PcUpdate::Next);
            }
            k = k + 1;
        }
        Ok(PcUpdate::Block)
    }

    /// FX55: copies V0 through VX to memory from the index register on.
    fn store_regs(&mut self, x: usize) -> (r: Result<PcUpdate, Fault>)
        requires
            old(self).wf(),
            x < 16,
        ensures
            final(self).wf(),
            match execute_spec(old(self)@, Instr::StoreRegs { x }, 0) {
                Ok((t, d)) => r == Ok::<PcUpdate, Fault>(d) && final(self)@ == t,
                Err(e) => r == Err::<PcUpdate, Fault>(e) && final(self)@ == old(self)@,
            },
    {
        let base = self.i as usize;
        if base + x + 1 > MEMORY_SIZE {
            return Err(Fault::MemoryOutOfRange { pc: self.pc });
        }
        let mut k: usize = 0;
        while k <= x
            invariant
                k <= x + 1,
                x < 16,
                base == old(self)@.i,
                base + x + 1 <= MEMORY_SIZE,
                old(self).wf(),
                self.wf(),
                self@ == (Chip8State { memory: self@.memory, ..old(self)@ }),
                forall|a: int|
                    0 <= a < MEMORY_SIZE ==> #[trigger] self@.memory[a] == if base <= a < base + k {
                        old(self)@.v[a - base]
                    } else {
                        old(self)@.memory[a]
                    },
            decreases x + 1 - k,
        {
            let val = self.v[k];
            self.memory.set(base + k, val);
            k = k + 1;
        }
        let ghost s = old(self)@;
        assert(self@.memory =~= Seq::new(
            s.memory.len(),
            |a: int|
                if s.i <= a <= s.i + x {
                    s.v[a - s.i]
                } else {
                    s.memory[a]
                },
        ));
        Ok(PcUpdate::Next)
    }

    /// FX65: copies memory from the index register on into V0 through VX.
    fn load_regs(&mut self, x: usize) -> (r: Result<PcUpdate, Fault>)
        requires
            old(self).wf(),
            x < 16,
        ensures
            final(self).wf(),
            match execute_spec(old(self)@, Instr::LoadRegs { x }, 0) {
                Ok((t, d)) => r == Ok::<PcUpdate, Fault>(d) && final(self)@ == t,
                Err(e) => r == Err::<PcUpdate, Fault>(e) && final(self)@ == old(self)@,
            },
    {
        let base = self.i as usize;
        if base + x + 1 > MEMORY_SIZE {
            return Err(Fault::MemoryOutOfRange { pc: self.pc });
        }
        let mut k: usize = 0;
        while k <= x
            invariant
                k <= x + 1,
                x < 16,
                base == old(self)@.i,
                base + x + 1 <= MEMORY_SIZE,
                old(self).wf(),
                self.wf(),
                self@ == (Chip8State { v: self@.v, ..old(self)@ }),
                forall|j: int|
                    0 <= j < 16 ==> #[trigger] self@.v[j] == if j < k {
                        old(self)@.memory[base + j]
                    } else {
                        old(self)@.v[j]
                    },
            decreases x + 1 - k,
        {
            let val = self.memory[base + k];
            self.v.set(k, val);
            k = k + 1;
        }
        let ghost s = old(self)@;
        assert(self@.v =~= Seq::new(
            s.v.len(),
            |j: int|
                if j <= x {
                    s.memory[s.i + j]
                } else {
                    s.v[j]
                },
        ));
        Ok(PcUpdate::Next)
    }

    /// Executes one decoded instruction, leaving the program counter to the
    /// caller; on a fault nothing changes.
    #[verifier::rlimit(60)]
    fn execute(&mut self, ins: Instr, rnd: u8) -> (r: Result<PcUpdate, Fault>)
        requires
            old(self).wf(),
            operands_in_range(ins),
            old(self)@.pc < MEMORY_SIZE - 1,
        ensures
            final(self).wf(),
            match execute_spec(old(self)@, ins, rnd) {
                Ok((t, d)) => r == Ok::<PcUpdate, Fault>(d) && final(self)@ == t,
                Err(e) => r == Err::<PcUpdate, Fault>(e) && final(self)@ == old(self)@,
            },
    {
        match ins {
            Instr::ClearScreen => {
                self.screen = filled(false, SCREEN_CELLS);
                Ok(PcUpdate::Next)
            },
            Instr::Return => {
                if self.stack.len() == 0 {
                    Err(Fault::StackUnderflow { pc: self.pc })
                } else {
                    let ghost s0 = self@;
                    let ret = self.stack.pop().unwrap();
                    assert(self@.stack =~= s0.stack.drop_last());
                    Ok(PcUpdate::Jump(ret + 2))
                }
            },
            Instr::Jump { addr } => Ok(PcUpdate::Jump(addr as usize)),
            Instr::Call { addr } => {
                self.stack.push(self.pc);
                Ok(PcUpdate::Jump(addr as usize))
            },
            Instr::SkipEqByte { x, nn } => Ok(Self::cond_skip(self.v[x] == nn)),
            Instr::SkipNeByte { x, nn } => Ok(Self::cond_skip(self.v[x] != nn)),
            Instr::SkipEqReg { x, y } => Ok(Self::cond_skip(self.v[x] == self.v[y])),
            Instr::SkipNeReg { x, y } => Ok(Self::cond_skip(self.v[x] != self.v[y])),
            Instr::LoadByte { x, nn } => {
                self.set_reg(x, nn);
                Ok(PcUpdate::Next)
            },
            Instr::AddByte { x, nn } => {
                let sum = self.v[x] as u16 + nn as u16;
                self.set_reg(x, (sum % 256) as u8);
                Ok(PcUpdate::Next)
            },
            Instr::Move { x, y } => {
                let val = self.v[y];
                self.set_reg(x, val);
                Ok(PcUpdate::Next)
            },
            Instr::Or { x, y } => {
                let val = self.v[x] | self.v[y];
                self.set_reg(x, val);
                Ok(PcUpdate::Next)
            },
            Instr::And { x, y } => {
                let val = self.v[x] & self.v[y];
                self.set_reg(x, val);
                Ok(PcUpdate::Next)
            },
            Instr::Xor { x, y } => {
                let val = self.v[x] ^ self.v[y];
                self.set_reg(x, val);
                Ok(PcUpdate::Next)
            },
            Instr::AddReg { x, y } => {
                let sum = self.v[x] as u16 + self.v[y] as u16;
                self.set_flag_and_reg(if sum > 255 { 1 } else { 0 }, x, (sum % 256) as u8);
                Ok(PcUpdate::Next)
            },
            Instr::SubReg { x, y } => {
                let a = self.v[x];
                let b = self.v[y];
                let diff = ((a as u16 + 256 - b as u16) % 256) as u8;
                self.set_flag_and_reg(if a >= b { 1 } else { 0 }, x, diff);
                Ok(PcUpdate::Next)
            },
            Instr::SubNeg { x, y } => {
                let a = self.v[x];
                let b = self.v[y];
                let diff = ((b as u16 + 256 - a as u16) % 256) as u8;
                self.set_flag_and_reg(if b >= a { 1 } else { 0 }, x, diff);
                Ok(PcUpdate::Next)
            },
            Instr::ShiftRight { x, .. } => {
                let low = self.v[x] & 1;
                self.v.set(FLAG, low);
                let cur = self.v[x];
                self.set_reg(x, cur >> 1u8);
                Ok(PcUpdate::Next)
            },
            Instr::ShiftLeft { x, .. } => {
                let low = self.v[x] & 1;
                self.v.set(FLAG, low);
                let cur = self.v[x];
                self.set_reg(x, cur << 1u8);
                Ok(PcUpdate::Next)
            },
            Instr::LoadIndex { addr } => {
                self.i = addr;
                Ok(PcUpdate::Next)
            },
            Instr::JumpOffset { addr } => Ok(PcUpdate::Jump(addr as usize + self.v[0] as usize)),
            Instr::Random { x, nn } => {
                self.set_reg(x, rnd & nn);
                Ok(PcUpdate::Next)
            },
            Instr::Draw { x, y, n } => self.draw(x, y, n),
            Instr::SkipKey { x } => Ok(Self::cond_skip(self.key_is_pressed(self.v[x]))),
            Instr::SkipNoKey { x } => Ok(Self::cond_skip(!self.key_is_pressed(self.v[x]))),
            Instr::LoadDelay { x } => {
                let val = self.delay_timer;
                self.set_reg(x, val);
                Ok(PcUpdate::Next)
            },
            Instr::WaitKey { x } => self.wait_key(x),
            Instr::SetDelay { x } => {
                self.delay_timer = self.v[x];
                Ok(PcUpdate::Next)
            },
            Instr::SetSound { x } => {
                self.sound_timer = self.v[x];
                Ok(PcUpdate::Next)
            },
            Instr::AddIndex { x } => {
                self.i = ((self.i as u32 + self.v[x] as u32) % 0x10000) as u16;
                Ok(PcUpdate::Next)
            },
            Instr::LoadFont { x } => {
                self.i = 0x50 + (self.v[x] % 16) as u16 * 5;
                Ok(PcUpdate::Next)
            },
            Instr::StoreBcd { x } => {
                let base = self.i as usize;
                if base + 3 > MEMORY_SIZE {
                    return Err(Fault::MemoryOutOfRange { pc: self.pc });
                }
                let val = self.v[x];
                self.memory.set(base, val / 100);
                self.memory.set(base + 1, (val / 10) % 10);
                self.memory.set(base + 2, val % 10);
                Ok(PcUpdate::Next)
            },
            Instr::StoreRegs { x } => self.store_regs(x),
            Instr::LoadRegs { x } => self.load_regs(x),
        }
    }

    fn fetch_opcode(&self) -> (r: u16)
        requires
            self.wf(),
            can_fetch(self@),
        ensures
            r == fetch_spec(self@),
    {
        (self.memory[self.pc] as u16) << 8u16 | self.memory[self.pc + 1] as u16
    }

    /// One instruction cycle, with `rnd` as the random byte for CXNN: fetch
    /// the instruction at the program counter, decode it, execute it and
    /// move the program counter. On a fault the state is left unchanged.
    pub fn run_cycle_with(&mut self, rnd: u8) -> (r: Result<(), Fault>)
        requires
            old(self).wf(),
        ensures
            final(self).wf(),
            match step_spec(old(self)@, rnd) {
                Ok(t) => r is Ok && final(self)@ == t,
                Err(e) => r == Err::<(), Fault>(e) && final(self)@ == old(self)@,
            },
    {
        if self.pc >= MEMORY_SIZE - 1 {
            return Err(Fault::MemoryOutOfRange { pc: self.pc });
        }
        let op = self.fetch_opcode();
        match decode(op) {
            None => Err(Fault::UnknownOpcode { opcode: op, pc: self.pc }),
            Some(ins) => match self.execute(ins, rnd) {
                Err(e) => Err(e),
                Ok(d) => {
                    self.pc = match d {
                        PcUpdate::Next => self.pc + 2,
                        PcUpdate::Skip => self.pc + 4,
                        PcUpdate::Block => self.pc,
                        PcUpdate::Jump(addr) => addr,
                    };
                    Ok(())
                },
            },
        }
    }

    /// One instruction cycle, with a fresh random byte for CXNN.
    pub fn run_cycle(&mut self) -> (r: Result<(), Fault>)
        requires
            old(self).wf(),
        ensures
            final(self).wf(),
            exists|rnd: u8|
                match #[trigger] step_spec(old(self)@, rnd) {
                    Ok(t) => r is Ok && final(self)@ == t,
                    Err(e) => r == Err::<(), Fault>(e) && final(self)@ == old(self)@,
                },
    {
        let rnd = random_byte();
        self.run_cycle_with(rnd)
    }
}

/// Relies on rand::random::<u8>, a uniformly distributed byte from the
/// thread-local generator; nothing is promised of its value.
#[verifier::external_body]
fn random_byte() -> (r: u8) {
    rand::random::<u8>()
}

} // verus!
