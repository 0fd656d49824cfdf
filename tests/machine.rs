use chipurat8::chip8::{Chip8, Fault, LoadError, FLAG, PROGRAM_START, WIDTH};

fn machine(program: &[u8]) -> Chip8 {
    let mut c = Chip8::new();
    assert_eq!(c.init(program), Ok(()));
    c
}

fn run(c: &mut Chip8, cycles: usize) {
    for _ in 0..cycles {
        assert_eq!(c.run_cycle_with(0), Ok(()));
    }
}

#[test]
fn fresh_core_is_zeroed() {
    let c = Chip8::new();
    assert_eq!(c.pc(), 0x200);
    assert_eq!(c.index(), 0);
    assert_eq!(c.stack_depth(), 0);
    assert_eq!(c.delay_timer(), 0);
    assert_eq!(c.sound_timer(), 0);
    for x in 0..16 {
        assert_eq!(c.register(x), 0);
        assert!(!c.is_key_pressed(x));
    }
    for cell in 0..WIDTH * 32 {
        assert!(!c.pixel(cell));
    }
    assert_eq!(c.memory_at(0x200), 0);
}

#[test]
fn init_loads_image_and_font() {
    let c = machine(&[0x12, 0x34]);
    assert_eq!(c.memory_at(0x200), 0x12);
    assert_eq!(c.memory_at(0x201), 0x34);
    assert_eq!(c.memory_at(0x202), 0);
    assert_eq!(c.memory_at(0x050), 0xF0);
    assert_eq!(c.memory_at(0x055), 0x20);
    assert_eq!(c.memory_at(0x050 + 79), 0x80);
    assert_eq!(c.memory_at(0x050 + 80), 0);
}

#[test]
fn largest_image_fills_memory() {
    let mut image = vec![0u8; 3584];
    image[3583] = 0x7E;
    let c = machine(&image);
    assert_eq!(c.memory_at(0xFFF), 0x7E);
}

#[test]
fn oversized_image_is_refused() {
    let mut c = Chip8::new();
    let image = vec![1u8; 3585];
    assert_eq!(c.init(&image), Err(LoadError::TooLarge { len: 3585 }));
    assert_eq!(c.memory_at(0x200), 0);
    assert_eq!(c.memory_at(0x050), 0);
}

#[test]
fn two_instruction_program() {
    let mut c = machine(&[0x60, 0x05, 0x70, 0x03]);
    run(&mut c, 2);
    assert_eq!(c.register(0), 8);
    assert_eq!(c.pc(), 0x204);
}

#[test]
fn empty_image_faults_on_first_cycle() {
    let mut c = machine(&[]);
    assert_eq!(c.run_cycle_with(0), Err(Fault::UnknownOpcode { opcode: 0, pc: PROGRAM_START }));
    assert_eq!(c.run_cycle(), Err(Fault::UnknownOpcode { opcode: 0, pc: PROGRAM_START }));
    assert_eq!(c.pc(), 0x200);
}

#[test]
fn unknown_sub_opcode_faults() {
    let mut c = machine(&[0x80, 0x08]);
    assert_eq!(c.run_cycle_with(0), Err(Fault::UnknownOpcode { opcode: 0x8008, pc: 0x200 }));
    let mut c = machine(&[0xE1, 0x00]);
    assert_eq!(c.run_cycle_with(0), Err(Fault::UnknownOpcode { opcode: 0xE100, pc: 0x200 }));
    let mut c = machine(&[0xF1, 0x00]);
    assert_eq!(c.run_cycle_with(0), Err(Fault::UnknownOpcode { opcode: 0xF100, pc: 0x200 }));
}

#[test]
fn add_sets_carry() {
    let mut c = machine(&[0x6A, 250, 0x6B, 10, 0x8A, 0xB4]);
    run(&mut c, 3);
    assert_eq!(c.register(0xA), 4);
    assert_eq!(c.register(FLAG), 1);
    assert_eq!(c.pc(), 0x206);
}

#[test]
fn add_without_carry_clears_flag() {
    let mut c = machine(&[0x6F, 1, 0x6A, 2, 0x6B, 3, 0x8A, 0xB4]);
    run(&mut c, 4);
    assert_eq!(c.register(0xA), 5);
    assert_eq!(c.register(FLAG), 0);
}

#[test]
fn sub_with_borrow_clears_flag() {
    let mut c = machine(&[0x6A, 5, 0x6B, 10, 0x8A, 0xB5]);
    run(&mut c, 3);
    assert_eq!(c.register(0xA), 251);
    assert_eq!(c.register(FLAG), 0);
}

#[test]
fn sub_without_borrow_sets_flag() {
    let mut c = machine(&[0x6A, 10, 0x6B, 5, 0x8A, 0xB5]);
    run(&mut c, 3);
    assert_eq!(c.register(0xA), 5);
    assert_eq!(c.register(FLAG), 1);
}

#[test]
fn reverse_sub_uses_same_borrow_rule() {
    let mut c = machine(&[0x6A, 10, 0x6B, 5, 0x8A, 0xB7]);
    run(&mut c, 3);
    assert_eq!(c.register(0xA), 251);
    assert_eq!(c.register(FLAG), 0);
}

#[test]
fn add_byte_wraps_without_flag() {
    let mut c = machine(&[0x60, 0xFF, 0x70, 0x02]);
    run(&mut c, 2);
    assert_eq!(c.register(0), 1);
    assert_eq!(c.register(FLAG), 0);
}

#[test]
fn logic_ops() {
    let mut c = machine(&[0x60, 0x0C, 0x61, 0x0A, 0x80, 0x11, 0x62, 0x0C, 0x82, 0x12, 0x63, 0x0C, 0x83, 0x13, 0x84, 0x30]);
    run(&mut c, 8);
    assert_eq!(c.register(0), 0x0E);
    assert_eq!(c.register(2), 0x08);
    assert_eq!(c.register(3), 0x06);
    assert_eq!(c.register(4), 0x06);
}

#[test]
fn shifts_store_low_bit() {
    let mut c = machine(&[0x6A, 0x81, 0x8A, 0x06, 0x6B, 0x81, 0x8B, 0x0E]);
    run(&mut c, 2);
    assert_eq!(c.register(0xA), 0x40);
    assert_eq!(c.register(FLAG), 1);
    run(&mut c, 2);
    assert_eq!(c.register(0xB), 0x02);
    assert_eq!(c.register(FLAG), 1);
}

#[test]
fn conditional_skips() {
    let mut c = machine(&[0x60, 0x05, 0x30, 0x05]);
    run(&mut c, 2);
    assert_eq!(c.pc(), 0x206);
    let mut c = machine(&[0x60, 0x05, 0x40, 0x05]);
    run(&mut c, 2);
    assert_eq!(c.pc(), 0x204);
    let mut c = machine(&[0x60, 0x05, 0x61, 0x05, 0x50, 0x10]);
    run(&mut c, 3);
    assert_eq!(c.pc(), 0x208);
    let mut c = machine(&[0x60, 0x05, 0x61, 0x05, 0x90, 0x10]);
    run(&mut c, 3);
    assert_eq!(c.pc(), 0x206);
}

#[test]
fn call_and_return() {
    let mut c = machine(&[0x22, 0x06, 0x00, 0x00, 0x00, 0x00, 0x00, 0xEE]);
    run(&mut c, 1);
    assert_eq!(c.pc(), 0x206);
    assert_eq!(c.stack_depth(), 1);
    run(&mut c, 1);
    assert_eq!(c.pc(), 0x202);
    assert_eq!(c.stack_depth(), 0);
}

#[test]
fn return_with_empty_stack_faults() {
    let mut c = machine(&[0x00, 0xEE]);
    assert_eq!(c.run_cycle_with(0), Err(Fault::StackUnderflow { pc: 0x200 }));
    assert_eq!(c.pc(), 0x200);
}

#[test]
fn jumps() {
    let mut c = machine(&[0x13, 0x00]);
    run(&mut c, 1);
    assert_eq!(c.pc(), 0x300);
    let mut c = machine(&[0x60, 0x04, 0xB3, 0x00]);
    run(&mut c, 2);
    assert_eq!(c.pc(), 0x304);
}

#[test]
fn fetch_past_memory_end_faults() {
    let mut c = machine(&[0x1F, 0xFF]);
    run(&mut c, 1);
    assert_eq!(c.pc(), 0xFFF);
    assert_eq!(c.run_cycle_with(0), Err(Fault::MemoryOutOfRange { pc: 0xFFF }));
}

#[test]
fn store_then_load_restores_registers() {
    let mut c = machine(&[
        0x60, 11, 0x61, 22, 0x62, 33, 0xA3, 0x00, 0xF2, 0x55, 0x60, 0, 0x61, 0, 0x62, 0, 0x63, 44,
        0xF2, 0x65,
    ]);
    run(&mut c, 10);
    assert_eq!(c.register(0), 11);
    assert_eq!(c.register(1), 22);
    assert_eq!(c.register(2), 33);
    assert_eq!(c.register(3), 44);
    assert_eq!(c.memory_at(0x300), 11);
    assert_eq!(c.memory_at(0x302), 33);
    assert_eq!(c.memory_at(0x303), 0);
    assert_eq!(c.index(), 0x300);
}

#[test]
fn store_past_memory_end_faults() {
    let mut c = machine(&[0xAF, 0xFE, 0xF2, 0x55]);
    run(&mut c, 1);
    assert_eq!(c.run_cycle_with(0), Err(Fault::MemoryOutOfRange { pc: 0x202 }));
    assert_eq!(c.memory_at(0xFFE), 0);
}

#[test]
fn wait_key_blocks_until_pressed() {
    let mut c = machine(&[0xF3, 0x0A]);
    for _ in 0..5 {
        assert_eq!(c.run_cycle_with(0), Ok(()));
        assert_eq!(c.pc(), 0x200);
        assert_eq!(c.register(3), 0);
    }
    c.set_key(9, true);
    c.set_key(7, true);
    run(&mut c, 1);
    assert_eq!(c.register(3), 7);
    assert_eq!(c.pc(), 0x202);
}

#[test]
fn key_skips() {
    let mut c = machine(&[0x60, 0x04, 0xE0, 0x9E]);
    c.set_key(4, true);
    run(&mut c, 2);
    assert_eq!(c.pc(), 0x206);
    let mut c = machine(&[0x60, 0x04, 0xE0, 0xA1]);
    run(&mut c, 2);
    assert_eq!(c.pc(), 0x206);
    let mut c = machine(&[0x60, 0x20, 0xE0, 0x9E]);
    run(&mut c, 2);
    assert_eq!(c.pc(), 0x204);
}

#[test]
fn drawing_twice_clears_and_reports_collision() {
    let mut c = machine(&[0xA0, 0x50, 0xD0, 0x11, 0xD0, 0x11]);
    run(&mut c, 2);
    assert_eq!(c.register(FLAG), 0);
    for cell in 0..8 {
        assert_eq!(c.pixel(cell), cell < 4);
    }
    run(&mut c, 1);
    assert_eq!(c.register(FLAG), 1);
    for cell in 0..WIDTH * 32 {
        assert!(!c.pixel(cell));
    }
}

#[test]
fn drawing_wraps_around_edges() {
    let mut c = machine(&[0x60, 62, 0x61, 31, 0xA0, 0x50, 0xD0, 0x12]);
    run(&mut c, 4);
    let row31 = 31 * WIDTH;
    assert!(c.pixel(row31 + 62));
    assert!(c.pixel(row31 + 63));
    assert!(c.pixel(row31));
    assert!(c.pixel(row31 + 1));
    assert!(!c.pixel(row31 + 2));
    assert!(c.pixel(62));
    assert!(c.pixel(1));
    assert!(!c.pixel(0));
}

#[test]
fn clear_screen() {
    let mut c = machine(&[0xA0, 0x50, 0xD0, 0x15, 0x00, 0xE0]);
    run(&mut c, 2);
    assert!(c.pixel(0));
    run(&mut c, 1);
    for cell in 0..WIDTH * 32 {
        assert!(!c.pixel(cell));
    }
}

#[test]
fn draw_past_memory_end_faults() {
    let mut c = machine(&[0xAF, 0xFF, 0xD0, 0x02]);
    run(&mut c, 1);
    assert_eq!(c.run_cycle_with(0), Err(Fault::MemoryOutOfRange { pc: 0x202 }));
}

#[test]
fn delay_timer_counts_down_to_zero() {
    let mut c = machine(&[0x60, 0x01, 0xF0, 0x15, 0xF1, 0x07]);
    run(&mut c, 2);
    assert_eq!(c.delay_timer(), 1);
    c.decrement_timers();
    assert_eq!(c.delay_timer(), 0);
    c.decrement_timers();
    assert_eq!(c.delay_timer(), 0);
    run(&mut c, 1);
    assert_eq!(c.register(1), 0);
}

#[test]
fn sound_request_on_last_tick() {
    let mut c = machine(&[0x60, 0x02, 0xF0, 0x18]);
    run(&mut c, 2);
    assert_eq!(c.sound_timer(), 2);
    c.decrement_timers();
    assert!(!c.consume_sound_request());
    c.decrement_timers();
    assert_eq!(c.sound_timer(), 0);
    assert!(c.consume_sound_request());
    assert!(!c.consume_sound_request());
    c.decrement_timers();
    assert!(!c.consume_sound_request());
}

#[test]
fn cycles_do_not_touch_timers() {
    let mut c = machine(&[0x60, 0x05, 0xF0, 0x15, 0x61, 0x00]);
    run(&mut c, 3);
    assert_eq!(c.delay_timer(), 5);
}

#[test]
fn bcd_digits() {
    let mut c = machine(&[0x60, 254, 0xA3, 0x00, 0xF0, 0x33]);
    run(&mut c, 3);
    assert_eq!(c.memory_at(0x300), 2);
    assert_eq!(c.memory_at(0x301), 5);
    assert_eq!(c.memory_at(0x302), 4);
}

#[test]
fn font_and_index_ops() {
    let mut c = machine(&[0x60, 0x0A, 0xF0, 0x29]);
    run(&mut c, 2);
    assert_eq!(c.index(), 0x50 + 50);
    let mut c = machine(&[0xA1, 0x00, 0x60, 0x20, 0xF0, 0x1E]);
    run(&mut c, 3);
    assert_eq!(c.index(), 0x120);
}

#[test]
fn random_is_masked() {
    let mut c = machine(&[0xC0, 0xF0]);
    assert_eq!(c.run_cycle_with(0xAB), Ok(()));
    assert_eq!(c.register(0), 0xA0);
    let mut c = machine(&[0xC0, 0x00]);
    assert_eq!(c.run_cycle(), Ok(()));
    assert_eq!(c.register(0), 0);
    assert_eq!(c.pc(), 0x202);
}
