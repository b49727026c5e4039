use chip8::cpu::CPU;
use chip8::error::Chip8Error;
use chip8::keypad::Keypad;
use chip8::memory::Memory;
use chip8::semantics::{Quirks, StepOutcome};

fn machine(program: &[u8]) -> (CPU, Memory, Keypad) {
    let mut memory = Memory::new();
    memory.initialize();
    memory.load_rom(program).unwrap();
    (CPU::new(), memory, Keypad::new())
}

fn run(cpu: &mut CPU, memory: &mut Memory, keypad: &Keypad, steps: usize) {
    for _ in 0..steps {
        assert_eq!(cpu.execute_with_random(memory, keypad, 0), Ok(StepOutcome::Executed));
    }
}

#[test]
fn set_register_then_read() {
    let (mut cpu, mut memory, keypad) = machine(&[0x6A, 0x42]);
    run(&mut cpu, &mut memory, &keypad, 1);
    assert_eq!(cpu.register(0xA), 0x42);
    assert_eq!(cpu.pc(), 0x202);
}

#[test]
fn add_registers_sets_carry() {
    let (mut cpu, mut memory, keypad) = machine(&[0x6A, 200, 0x6B, 100, 0x8A, 0xB4]);
    run(&mut cpu, &mut memory, &keypad, 3);
    assert_eq!(cpu.register(0xA), 44);
    assert_eq!(cpu.register(0xF), 1);
}

#[test]
fn add_registers_without_carry() {
    let (mut cpu, mut memory, keypad) = machine(&[0x6A, 100, 0x6B, 100, 0x8A, 0xB4]);
    run(&mut cpu, &mut memory, &keypad, 3);
    assert_eq!(cpu.register(0xA), 200);
    assert_eq!(cpu.register(0xF), 0);
}

#[test]
fn add_immediate_wraps_without_flag() {
    let (mut cpu, mut memory, keypad) = machine(&[0x6F, 7, 0x61, 250, 0x71, 10]);
    run(&mut cpu, &mut memory, &keypad, 3);
    assert_eq!(cpu.register(1), 4);
    assert_eq!(cpu.register(0xF), 7);
}

#[test]
fn subtract_registers_borrows() {
    let (mut cpu, mut memory, keypad) = machine(&[0x6A, 5, 0x6B, 10, 0x8A, 0xB5]);
    run(&mut cpu, &mut memory, &keypad, 3);
    assert_eq!(cpu.register(0xA), 251);
    assert_eq!(cpu.register(0xF), 0);
}

#[test]
fn subtract_reverse_without_borrow() {
    let (mut cpu, mut memory, keypad) = machine(&[0x6A, 5, 0x6B, 10, 0x8A, 0xB7]);
    run(&mut cpu, &mut memory, &keypad, 3);
    assert_eq!(cpu.register(0xA), 5);
    assert_eq!(cpu.register(0xF), 1);
}

#[test]
fn bitwise_operations() {
    let (mut cpu, mut memory, keypad) = machine(&[
        0x60, 0b1100, 0x61, 0b1010, 0x82, 0x00, 0x82, 0x11, 0x83, 0x00, 0x83, 0x12, 0x84, 0x00,
        0x84, 0x13,
    ]);
    run(&mut cpu, &mut memory, &keypad, 8);
    assert_eq!(cpu.register(2), 0b1110);
    assert_eq!(cpu.register(3), 0b1000);
    assert_eq!(cpu.register(4), 0b0110);
}

#[test]
fn shifts_read_vy_and_flag_the_lost_bit() {
    let (mut cpu, mut memory, keypad) = machine(&[0x61, 0b1000_0011, 0x80, 0x16, 0x82, 0x1E]);
    run(&mut cpu, &mut memory, &keypad, 2);
    assert_eq!(cpu.register(0), 0b0100_0001);
    assert_eq!(cpu.register(0xF), 1);
    run(&mut cpu, &mut memory, &keypad, 1);
    assert_eq!(cpu.register(2), 0b0000_0110);
    assert_eq!(cpu.register(0xF), 1);
}

#[test]
fn shift_reads_vx_when_configured() {
    let quirks = Quirks {
        shift_reads_vy: false,
        bulk_moves_index: true,
        jump_offset_uses_vx: true,
        index_overflow_flag: true,
    };
    let mut memory = Memory::new();
    memory.load_rom(&[0x60, 0b10, 0x61, 0xFF, 0x80, 0x16]).unwrap();
    let keypad = Keypad::new();
    let mut cpu = CPU::with_quirks(quirks);
    run(&mut cpu, &mut memory, &keypad, 3);
    assert_eq!(cpu.register(0), 0b1);
    assert_eq!(cpu.register(0xF), 0);
}

#[test]
fn jump_sets_pc_exactly() {
    let (mut cpu, mut memory, keypad) = machine(&[0x13, 0x00]);
    run(&mut cpu, &mut memory, &keypad, 1);
    assert_eq!(cpu.pc(), 0x300);
}

#[test]
fn jump_with_offset_adds_vx() {
    let (mut cpu, mut memory, keypad) = machine(&[0x63, 4, 0x60, 9, 0xB3, 0x00]);
    run(&mut cpu, &mut memory, &keypad, 3);
    assert_eq!(cpu.pc(), 0x304);
}

#[test]
fn jump_with_offset_adds_v0_when_configured() {
    let quirks = Quirks {
        shift_reads_vy: true,
        bulk_moves_index: true,
        jump_offset_uses_vx: false,
        index_overflow_flag: true,
    };
    let mut memory = Memory::new();
    memory.load_rom(&[0x63, 4, 0x60, 9, 0xB3, 0x00]).unwrap();
    let keypad = Keypad::new();
    let mut cpu = CPU::with_quirks(quirks);
    run(&mut cpu, &mut memory, &keypad, 3);
    assert_eq!(cpu.pc(), 0x309);
}

#[test]
fn call_then_return_resumes_after_call() {
    let mut program = vec![0u8; 0x102];
    program[0] = 0x23;
    program[1] = 0x00;
    program[0x100] = 0x00;
    program[0x101] = 0xEE;
    let (mut cpu, mut memory, keypad) = machine(&program);
    run(&mut cpu, &mut memory, &keypad, 1);
    assert_eq!(cpu.pc(), 0x300);
    assert_eq!(cpu.sp(), 1);
    run(&mut cpu, &mut memory, &keypad, 1);
    assert_eq!(cpu.pc(), 0x202);
    assert_eq!(cpu.sp(), 0);
}

#[test]
fn seventeenth_nested_call_overflows() {
    let (mut cpu, mut memory, keypad) = machine(&[0x22, 0x00]);
    run(&mut cpu, &mut memory, &keypad, 16);
    assert_eq!(cpu.sp(), 16);
    assert_eq!(cpu.execute_with_random(&mut memory, &keypad, 0), Err(Chip8Error::StackOverflow));
    assert_eq!(cpu.sp(), 16);
    assert_eq!(cpu.pc(), 0x200);
}

#[test]
fn return_with_empty_stack_underflows() {
    let (mut cpu, mut memory, keypad) = machine(&[0x00, 0xEE]);
    assert_eq!(cpu.execute_with_random(&mut memory, &keypad, 0), Err(Chip8Error::StackUnderflow));
    assert_eq!(cpu.pc(), 0x200);
}

#[test]
fn unknown_opcode_is_a_decode_error() {
    let (mut cpu, mut memory, keypad) = machine(&[0xFF, 0xFF]);
    assert_eq!(
        cpu.execute_with_random(&mut memory, &keypad, 0),
        Err(Chip8Error::DecodeError { opcode: 0xFFFF, address: 0x200 })
    );
    assert_eq!(
        cpu.decode(0x8008),
        Err(Chip8Error::DecodeError { opcode: 0x8008, address: 0x200 })
    );
}

#[test]
fn fetch_past_memory_is_out_of_bounds() {
    let (mut cpu, mut memory, keypad) = machine(&[0x1F, 0xFF]);
    run(&mut cpu, &mut memory, &keypad, 1);
    assert_eq!(cpu.fetch(&memory), Err(Chip8Error::OutOfBounds { index: 4096 }));
    assert_eq!(
        cpu.execute_with_random(&mut memory, &keypad, 0),
        Err(Chip8Error::OutOfBounds { index: 4096 })
    );
}

#[test]
fn fetch_is_big_endian() {
    let (cpu, memory, _) = machine(&[0xA1, 0x23]);
    assert_eq!(cpu.fetch(&memory), Ok(0xA123));
}

#[test]
fn skips_on_immediate_and_registers() {
    let (mut cpu, mut memory, keypad) = machine(&[0x60, 5, 0x30, 5]);
    run(&mut cpu, &mut memory, &keypad, 2);
    assert_eq!(cpu.pc(), 0x206);
    let (mut cpu, mut memory, keypad) = machine(&[0x60, 5, 0x40, 5]);
    run(&mut cpu, &mut memory, &keypad, 2);
    assert_eq!(cpu.pc(), 0x204);
    let (mut cpu, mut memory, keypad) = machine(&[0x60, 5, 0x61, 5, 0x50, 0x10]);
    run(&mut cpu, &mut memory, &keypad, 3);
    assert_eq!(cpu.pc(), 0x208);
    let (mut cpu, mut memory, keypad) = machine(&[0x60, 5, 0x61, 5, 0x90, 0x10]);
    run(&mut cpu, &mut memory, &keypad, 3);
    assert_eq!(cpu.pc(), 0x206);
}

#[test]
fn store_bcd_writes_three_digits() {
    let (mut cpu, mut memory, keypad) = machine(&[0x60, 254, 0xA3, 0x00, 0xF0, 0x33]);
    run(&mut cpu, &mut memory, &keypad, 3);
    assert_eq!(memory.get_from_index(0x300), Ok(2));
    assert_eq!(memory.get_from_index(0x301), Ok(5));
    assert_eq!(memory.get_from_index(0x302), Ok(4));
    assert_eq!(cpu.index(), 0x300);
}

#[test]
fn store_bcd_past_memory_is_out_of_bounds() {
    let (mut cpu, mut memory, keypad) = machine(&[0xAF, 0xFE, 0xF0, 0x33]);
    run(&mut cpu, &mut memory, &keypad, 1);
    assert_eq!(
        cpu.execute_with_random(&mut memory, &keypad, 0),
        Err(Chip8Error::OutOfBounds { index: 4096 })
    );
    assert_eq!(memory.get_from_index(0xFFE), Ok(0));
}

#[test]
fn store_and_load_registers_move_index() {
    let (mut cpu, mut memory, keypad) = machine(&[
        0x60, 1, 0x61, 2, 0x62, 3, 0xA3, 0x00, 0xF2, 0x55, 0xA3, 0x00, 0xF1, 0x65,
    ]);
    run(&mut cpu, &mut memory, &keypad, 5);
    assert_eq!(memory.get_from_index(0x300), Ok(1));
    assert_eq!(memory.get_from_index(0x301), Ok(2));
    assert_eq!(memory.get_from_index(0x302), Ok(3));
    assert_eq!(memory.get_from_index(0x303), Ok(0));
    assert_eq!(cpu.index(), 0x303);
    run(&mut cpu, &mut memory, &keypad, 2);
    assert_eq!(cpu.index(), 0x302);
}

#[test]
fn load_registers_reads_memory() {
    let (mut cpu, mut memory, keypad) = machine(&[0x62, 9, 0xA2, 0x00, 0xF1, 0x65]);
    run(&mut cpu, &mut memory, &keypad, 3);
    assert_eq!(cpu.register(0), 0x62);
    assert_eq!(cpu.register(1), 9);
    assert_eq!(cpu.register(2), 9);
}

#[test]
fn bulk_transfers_keep_index_when_configured() {
    let quirks = Quirks {
        shift_reads_vy: true,
        bulk_moves_index: false,
        jump_offset_uses_vx: true,
        index_overflow_flag: true,
    };
    let mut memory = Memory::new();
    memory.load_rom(&[0xA3, 0x00, 0xF3, 0x55]).unwrap();
    let keypad = Keypad::new();
    let mut cpu = CPU::with_quirks(quirks);
    run(&mut cpu, &mut memory, &keypad, 2);
    assert_eq!(cpu.index(), 0x300);
}

#[test]
fn font_character_selects_glyph() {
    let (mut cpu, mut memory, keypad) = machine(&[0x65, 0xA, 0xF5, 0x29]);
    run(&mut cpu, &mut memory, &keypad, 2);
    assert_eq!(cpu.index(), 50);
    assert_eq!(memory.get_from_index(50), Ok(0xF0));
    assert_eq!(memory.get_from_index(51), Ok(0x90));
}

#[test]
fn add_to_index_flags_above_0f00() {
    let (mut cpu, mut memory, keypad) = machine(&[0xAE, 0xFF, 0x61, 2, 0xF1, 0x1E]);
    run(&mut cpu, &mut memory, &keypad, 3);
    assert_eq!(cpu.index(), 0xF01);
    assert_eq!(cpu.register(0xF), 1);
    let (mut cpu, mut memory, keypad) = machine(&[0xA1, 0x00, 0x61, 2, 0xF1, 0x1E]);
    run(&mut cpu, &mut memory, &keypad, 3);
    assert_eq!(cpu.index(), 0x102);
    assert_eq!(cpu.register(0xF), 0);
}

#[test]
fn random_masks_the_drawn_byte() {
    let (mut cpu, mut memory, keypad) = machine(&[0xC3, 0x0F]);
    assert_eq!(cpu.execute_with_random(&mut memory, &keypad, 0xAB), Ok(StepOutcome::Executed));
    assert_eq!(cpu.register(3), 0x0B);
    let (mut cpu, mut memory, keypad) = machine(&[0xC3, 0x0F]);
    assert_eq!(cpu.execute(&mut memory, &keypad), Ok(StepOutcome::Executed));
    assert_eq!(cpu.register(3) & 0xF0, 0);
    assert_eq!(cpu.pc(), 0x202);
}

#[test]
fn timers_set_read_and_stop_at_zero() {
    let (mut cpu, mut memory, keypad) = machine(&[0x61, 2, 0xF1, 0x15, 0xF1, 0x18, 0xF4, 0x07]);
    run(&mut cpu, &mut memory, &keypad, 4);
    assert_eq!(cpu.get_delay_timer(), 2);
    assert_eq!(cpu.get_sound_timer(), 2);
    assert_eq!(cpu.register(4), 2);
    cpu.dec_delay_timer();
    cpu.dec_delay_timer();
    cpu.dec_delay_timer();
    cpu.dec_sound_timer();
    assert_eq!(cpu.get_delay_timer(), 0);
    assert_eq!(cpu.get_sound_timer(), 1);
}

#[test]
fn get_key_waits_until_a_key_is_down() {
    let (mut cpu, mut memory, mut keypad) = machine(&[0xF3, 0x0A]);
    for _ in 0..3 {
        assert_eq!(cpu.execute_with_random(&mut memory, &keypad, 0), Ok(StepOutcome::AwaitingKey));
        assert_eq!(cpu.pc(), 0x200);
    }
    keypad.set_key(7, true);
    keypad.set_key(9, true);
    assert_eq!(cpu.execute_with_random(&mut memory, &keypad, 0), Ok(StepOutcome::Executed));
    assert_eq!(cpu.pc(), 0x202);
    assert_eq!(cpu.register(3), 7);
}

#[test]
fn skip_on_key_state() {
    let (mut cpu, mut memory, mut keypad) = machine(&[0x61, 5, 0xE1, 0x9E]);
    keypad.set_key(5, true);
    run(&mut cpu, &mut memory, &keypad, 2);
    assert_eq!(cpu.pc(), 0x206);
    let (mut cpu, mut memory, keypad) = machine(&[0x61, 5, 0xE1, 0xA1]);
    run(&mut cpu, &mut memory, &keypad, 2);
    assert_eq!(cpu.pc(), 0x206);
    let (mut cpu, mut memory, keypad) = machine(&[0x61, 200, 0xE1, 0x9E]);
    run(&mut cpu, &mut memory, &keypad, 2);
    assert_eq!(cpu.pc(), 0x204);
}

#[test]
fn draw_twice_restores_display_and_reports_collision() {
    let (mut cpu, mut memory, keypad) = machine(&[0x60, 62, 0x61, 30, 0xA0, 0x00, 0xD0, 0x15, 0xD0, 0x15]);
    run(&mut cpu, &mut memory, &keypad, 4);
    assert_eq!(cpu.register(0xF), 0);
    assert!(cpu.render_pending());
    // the glyph "0" drawn at (62, 30) wraps: its top row 0xF0 lights x = 62, 63, 0, 1
    assert!(cpu.display().pixel(62, 30));
    assert!(cpu.display().pixel(63, 30));
    assert!(cpu.display().pixel(0, 30));
    assert!(cpu.display().pixel(1, 30));
    assert!(!cpu.display().pixel(2, 30));
    assert!(cpu.display().pixel(62, 0));
    cpu.clear_render_pending();
    run(&mut cpu, &mut memory, &keypad, 1);
    assert_eq!(cpu.register(0xF), 1);
    assert!(cpu.render_pending());
    for y in 0..32 {
        for x in 0..64 {
            assert!(!cpu.display().pixel(x, y));
        }
    }
}

#[test]
fn clear_screen_turns_pixels_off() {
    let (mut cpu, mut memory, keypad) = machine(&[0xA0, 0x00, 0xD0, 0x05, 0x00, 0xE0]);
    run(&mut cpu, &mut memory, &keypad, 2);
    assert!(cpu.display().pixel(0, 0));
    cpu.clear_render_pending();
    run(&mut cpu, &mut memory, &keypad, 1);
    assert!(!cpu.display().pixel(0, 0));
    assert!(cpu.render_pending());
    assert_eq!(cpu.pc(), 0x206);
}

#[test]
fn draw_past_memory_is_out_of_bounds() {
    let (mut cpu, mut memory, keypad) = machine(&[0xAF, 0xFC, 0xD0, 0x05]);
    run(&mut cpu, &mut memory, &keypad, 1);
    assert_eq!(
        cpu.execute_with_random(&mut memory, &keypad, 0),
        Err(Chip8Error::OutOfBounds { index: 4096 })
    );
}

#[test]
fn new_cpu_starts_at_program_start() {
    let cpu = CPU::new();
    assert_eq!(cpu.pc(), 0x200);
    assert_eq!(cpu.index(), 0);
    assert_eq!(cpu.sp(), 0);
    assert!(!cpu.render_pending());
    for x in 0..16 {
        assert_eq!(cpu.register(x), 0);
    }
}
