use chip8::font::FONT_START;
use chip8::memory::MEMORY_SIZE;
use chip8::{Emulator, Fault, Outcome};

fn machine_with(program: &[u8]) -> Emulator {
    let mut emu = Emulator::new(7);
    emu.load_rom(&program.to_vec()).unwrap();
    emu.load_font();
    emu
}

fn run(emu: &mut Emulator, steps: usize) {
    for _ in 0..steps {
        emu.step();
    }
}

fn screen_is_dark(emu: &Emulator) -> bool {
    (0..32).all(|row| (0..64).all(|col| !emu.pixel(col, row)))
}

#[test]
fn load_then_index_program() {
    let mut emu = machine_with(&[0x60, 0x05, 0xA2, 0x0A]);
    assert_eq!(emu.pc(), 0x200);
    assert_eq!(emu.step(), Outcome::Executed);
    assert_eq!(emu.register(0), 0x05);
    assert_eq!(emu.index(), 0);
    assert_eq!(emu.step(), Outcome::Executed);
    assert_eq!(emu.register(0), 0x05);
    assert_eq!(emu.index(), 0x20A);
    assert_eq!(emu.pc(), 0x204);
}

#[test]
fn clear_after_draw_leaves_dark_screen() {
    // I = glyph 0, draw it at (0, 0), then clear.
    let mut emu = machine_with(&[0xA0, 0x78, 0xD0, 0x05, 0x00, 0xE0]);
    run(&mut emu, 2);
    assert!(emu.pixel(0, 0));
    assert!(!screen_is_dark(&emu));
    run(&mut emu, 1);
    assert!(screen_is_dark(&emu));
    assert_eq!(emu.pc(), 0x206);
}

#[test]
fn delay_timer_counts_down_per_tick() {
    // V0 = 2; delay = V0; loop forever.
    let mut emu = machine_with(&[0x60, 0x02, 0xF0, 0x15, 0x12, 0x04]);
    emu.tick(2);
    assert_eq!(emu.delay_timer(), 2);
    emu.tick(1);
    assert_eq!(emu.delay_timer(), 1);
    emu.tick(1);
    assert_eq!(emu.delay_timer(), 0);
    emu.tick(1);
    assert_eq!(emu.delay_timer(), 0);
}

#[test]
fn read_delay_gives_timer_value() {
    // V0 = 9; delay = V0; V1 = delay.
    let mut emu = machine_with(&[0x60, 0x09, 0xF0, 0x15, 0xF1, 0x07]);
    run(&mut emu, 3);
    assert_eq!(emu.register(1), 9);
}

#[test]
fn sound_timer_set_and_counts_down() {
    let mut emu = machine_with(&[0x60, 0x03, 0xF0, 0x18, 0x12, 0x04]);
    emu.tick(2);
    assert_eq!(emu.sound_timer(), 3);
    emu.tick(0);
    assert_eq!(emu.sound_timer(), 2);
}

#[test]
fn unknown_word_only_moves_pc() {
    let mut emu = machine_with(&[0x60, 0x11, 0xA3, 0x00, 0xFF, 0xFF]);
    run(&mut emu, 2);
    let regs: Vec<u8> = (0..16).map(|x| emu.register(x)).collect();
    let mem: Vec<u8> = (0..MEMORY_SIZE).map(|a| emu.read_memory(a).unwrap()).collect();
    let pc = emu.pc();
    assert_eq!(emu.step(), Outcome::Unknown(0xFFFF));
    assert_eq!(emu.pc(), pc + 2);
    let regs_after: Vec<u8> = (0..16).map(|x| emu.register(x)).collect();
    let mem_after: Vec<u8> = (0..MEMORY_SIZE).map(|a| emu.read_memory(a).unwrap()).collect();
    assert_eq!(regs, regs_after);
    assert_eq!(mem, mem_after);
    assert_eq!(emu.index(), 0x300);
    assert_eq!(emu.stack_depth(), 0);
    assert_eq!(emu.delay_timer(), 0);
    assert_eq!(emu.fault(), None);
}

#[test]
fn add_sets_carry() {
    let mut emu = machine_with(&[0x60, 0xFF, 0x61, 0x02, 0x80, 0x14]);
    run(&mut emu, 3);
    assert_eq!(emu.register(0), 1);
    assert_eq!(emu.register(0xF), 1);
}

#[test]
fn add_without_carry_clears_flag() {
    let mut emu = machine_with(&[0x6F, 0x01, 0x60, 0x80, 0x61, 0x7F, 0x80, 0x14]);
    run(&mut emu, 4);
    assert_eq!(emu.register(0), 0xFF);
    assert_eq!(emu.register(0xF), 0);
}

#[test]
fn sub_flag_is_no_borrow() {
    let mut emu = machine_with(&[0x60, 0x05, 0x61, 0x03, 0x80, 0x15]);
    run(&mut emu, 3);
    assert_eq!(emu.register(0), 2);
    assert_eq!(emu.register(0xF), 1);

    let mut emu = machine_with(&[0x60, 0x03, 0x61, 0x05, 0x80, 0x15]);
    run(&mut emu, 3);
    assert_eq!(emu.register(0), 0xFE);
    assert_eq!(emu.register(0xF), 0);
}

#[test]
fn sub_of_equal_values_has_no_borrow() {
    let mut emu = machine_with(&[0x60, 0x07, 0x61, 0x07, 0x80, 0x15]);
    run(&mut emu, 3);
    assert_eq!(emu.register(0), 0);
    assert_eq!(emu.register(0xF), 1);
}

#[test]
fn subn_is_mirrored_sub() {
    let mut emu = machine_with(&[0x60, 0x03, 0x61, 0x05, 0x80, 0x17]);
    run(&mut emu, 3);
    assert_eq!(emu.register(0), 2);
    assert_eq!(emu.register(0xF), 1);

    let mut emu = machine_with(&[0x60, 0x05, 0x61, 0x03, 0x80, 0x17]);
    run(&mut emu, 3);
    assert_eq!(emu.register(0), 0xFE);
    assert_eq!(emu.register(0xF), 0);
}

#[test]
fn shift_right_stores_low_bit() {
    let mut emu = machine_with(&[0x60, 0x03, 0x80, 0x06]);
    run(&mut emu, 2);
    assert_eq!(emu.register(0), 1);
    assert_eq!(emu.register(0xF), 1);
}

#[test]
fn shift_right_of_flag_register_keeps_shifted_value() {
    let mut emu = machine_with(&[0x6F, 0x07, 0x8F, 0x06]);
    run(&mut emu, 2);
    assert_eq!(emu.register(0xF), 3);
}

#[test]
fn shift_left_flag_is_high_bit() {
    let mut emu = machine_with(&[0x60, 0x81, 0x80, 0x0E]);
    run(&mut emu, 2);
    assert_eq!(emu.register(0), 0x02);
    assert_eq!(emu.register(0xF), 1);

    let mut emu = machine_with(&[0x6F, 0x05, 0x60, 0x41, 0x80, 0x0E]);
    run(&mut emu, 3);
    assert_eq!(emu.register(0), 0x82);
    assert_eq!(emu.register(0xF), 0);
}

#[test]
fn bitwise_and_move() {
    let mut emu = machine_with(&[
        0x60, 0x0C, 0x61, 0x0A, 0x82, 0x00, 0x82, 0x11, 0x83, 0x00, 0x83, 0x12, 0x84, 0x00, 0x84,
        0x13,
    ]);
    run(&mut emu, 8);
    assert_eq!(emu.register(2), 0x0E);
    assert_eq!(emu.register(3), 0x08);
    assert_eq!(emu.register(4), 0x06);
}

#[test]
fn add_immediate_wraps_without_flag() {
    let mut emu = machine_with(&[0x6F, 0x05, 0x60, 0xFE, 0x70, 0x03]);
    run(&mut emu, 3);
    assert_eq!(emu.register(0), 1);
    assert_eq!(emu.register(0xF), 5);
}

#[test]
fn skips_add_four() {
    // 3xkk taken, 4xkk not taken, 5xy0 taken, 9xy0 not taken.
    let mut emu = machine_with(&[0x60, 0x05, 0x30, 0x05]);
    run(&mut emu, 2);
    assert_eq!(emu.pc(), 0x206);

    let mut emu = machine_with(&[0x60, 0x05, 0x40, 0x05]);
    run(&mut emu, 2);
    assert_eq!(emu.pc(), 0x204);

    let mut emu = machine_with(&[0x60, 0x05, 0x61, 0x05, 0x50, 0x10]);
    run(&mut emu, 3);
    assert_eq!(emu.pc(), 0x208);

    let mut emu = machine_with(&[0x60, 0x05, 0x61, 0x05, 0x90, 0x10]);
    run(&mut emu, 3);
    assert_eq!(emu.pc(), 0x206);
}

#[test]
fn jumps_and_calls() {
    let mut emu = machine_with(&[0x12, 0x34]);
    run(&mut emu, 1);
    assert_eq!(emu.pc(), 0x234);

    let mut emu = machine_with(&[0x60, 0x04, 0xB3, 0x00]);
    run(&mut emu, 2);
    assert_eq!(emu.pc(), 0x304);
    assert_eq!(emu.stack_depth(), 0);

    // call 0x206; at 0x206 return.
    let mut emu = machine_with(&[0x22, 0x06, 0x00, 0x00, 0x00, 0x00, 0x00, 0xEE]);
    run(&mut emu, 1);
    assert_eq!(emu.pc(), 0x206);
    assert_eq!(emu.stack_depth(), 1);
    run(&mut emu, 1);
    assert_eq!(emu.pc(), 0x202);
    assert_eq!(emu.stack_depth(), 0);
}

#[test]
fn seventeenth_call_overflows() {
    // A subroutine that calls itself.
    let mut emu = machine_with(&[0x22, 0x00]);
    for _ in 0..16 {
        assert_eq!(emu.step(), Outcome::Executed);
    }
    assert_eq!(emu.stack_depth(), 16);
    assert_eq!(emu.step(), Outcome::Halted);
    assert_eq!(emu.fault(), Some(Fault::StackOverflow));
    assert!(!emu.is_running());
}

#[test]
fn return_on_empty_stack_underflows() {
    let mut emu = machine_with(&[0x00, 0xEE]);
    assert_eq!(emu.step(), Outcome::Halted);
    assert_eq!(emu.fault(), Some(Fault::StackUnderflow));
    assert_eq!(emu.pc(), 0x200);
}

#[test]
fn halted_machine_does_not_move() {
    let mut emu = machine_with(&[0x00, 0xEE]);
    emu.step();
    assert_eq!(emu.step(), Outcome::Halted);
    assert_eq!(emu.pc(), 0x200);
}

#[test]
fn fetch_past_memory_faults() {
    let mut emu = machine_with(&[0x1F, 0xFF]);
    run(&mut emu, 1);
    assert_eq!(emu.pc(), 0xFFF);
    assert!(emu.is_running());
    assert_eq!(emu.step(), Outcome::Halted);
    assert_eq!(emu.fault(), Some(Fault::OutOfBounds));
}

#[test]
fn jump_offset_past_memory_halts() {
    let mut emu = machine_with(&[0x60, 0x10, 0xBF, 0xFF]);
    run(&mut emu, 1);
    assert_eq!(emu.step(), Outcome::Halted);
    assert_eq!(emu.pc(), 0xFFF + 0x10);
    assert!(!emu.is_running());
}

#[test]
fn draw_past_memory_faults() {
    let mut emu = machine_with(&[0xAF, 0xFF, 0xD0, 0x02]);
    run(&mut emu, 1);
    assert_eq!(emu.step(), Outcome::Halted);
    assert_eq!(emu.fault(), Some(Fault::OutOfBounds));
}

#[test]
fn draw_reports_collision_in_flag() {
    let mut emu = machine_with(&[0xA0, 0x78, 0xD0, 0x05, 0xD0, 0x05]);
    run(&mut emu, 2);
    assert_eq!(emu.register(0xF), 0);
    run(&mut emu, 1);
    assert_eq!(emu.register(0xF), 1);
    assert!(screen_is_dark(&emu));
}

#[test]
fn bcd_writes_three_digits() {
    let mut emu = machine_with(&[0x60, 234, 0xA3, 0x00, 0xF0, 0x33]);
    run(&mut emu, 3);
    assert_eq!(emu.read_memory(0x300), Ok(2));
    assert_eq!(emu.read_memory(0x301), Ok(3));
    assert_eq!(emu.read_memory(0x302), Ok(4));
}

#[test]
fn bcd_past_memory_faults() {
    let mut emu = machine_with(&[0xAF, 0xFE, 0xF0, 0x33]);
    run(&mut emu, 1);
    assert_eq!(emu.step(), Outcome::Halted);
    assert_eq!(emu.fault(), Some(Fault::OutOfBounds));
    assert_eq!(emu.read_memory(0xFFE), Ok(0));
}

#[test]
fn store_and_load_registers() {
    let mut emu = machine_with(&[
        0x60, 0x0A, 0x61, 0x0B, 0x62, 0x0C, 0xA3, 0x00, 0xF1, 0x55, 0x60, 0x00, 0x61, 0x00, 0x62,
        0x00, 0xF2, 0x65,
    ]);
    run(&mut emu, 5);
    assert_eq!(emu.read_memory(0x300), Ok(0x0A));
    assert_eq!(emu.read_memory(0x301), Ok(0x0B));
    assert_eq!(emu.read_memory(0x302), Ok(0));
    run(&mut emu, 4);
    assert_eq!(emu.register(0), 0x0A);
    assert_eq!(emu.register(1), 0x0B);
    assert_eq!(emu.register(2), 0);
    assert_eq!(emu.index(), 0x300);
}

#[test]
fn font_char_points_at_glyph() {
    let mut emu = machine_with(&[0x60, 0x0B, 0xF0, 0x29]);
    run(&mut emu, 2);
    assert_eq!(emu.index(), FONT_START + 11 * 5);
    assert_eq!(emu.read_memory(emu.index() as usize), Ok(0xE0));
}

#[test]
fn add_index_wraps_within_memory() {
    let mut emu = machine_with(&[0xAF, 0xFF, 0x60, 0x03, 0xF0, 0x1E]);
    run(&mut emu, 3);
    assert_eq!(emu.index(), 2);
}

#[test]
fn key_skips() {
    let mut emu = machine_with(&[0x60, 0x07, 0xE0, 0x9E]);
    emu.key_down(7);
    run(&mut emu, 2);
    assert_eq!(emu.pc(), 0x206);

    let mut emu = machine_with(&[0x60, 0x07, 0xE0, 0xA1]);
    emu.key_down(7);
    run(&mut emu, 2);
    assert_eq!(emu.pc(), 0x204);

    let mut emu = machine_with(&[0x60, 0x07, 0xE0, 0xA1]);
    emu.key_down(7);
    emu.key_up(7);
    run(&mut emu, 2);
    assert_eq!(emu.pc(), 0x206);
}

#[test]
fn wait_key_blocks_until_pressed() {
    let mut emu = machine_with(&[0xF3, 0x0A]);
    run(&mut emu, 3);
    assert_eq!(emu.pc(), 0x200);
    emu.key_down(0xC);
    emu.key_down(0x9);
    run(&mut emu, 1);
    assert_eq!(emu.pc(), 0x202);
    assert_eq!(emu.register(3), 0x9);
}

#[test]
fn random_is_masked() {
    let mut emu = machine_with(&[0xC0, 0x00, 0xC1, 0x0F]);
    run(&mut emu, 2);
    assert_eq!(emu.register(0), 0);
    assert!(emu.register(1) <= 0x0F);
}

#[test]
fn same_seed_gives_same_random_bytes() {
    let program: Vec<u8> = (0..16u8).flat_map(|x| [0xC0 | x, 0xFF]).collect();
    let mut a = Emulator::new(42);
    let mut b = Emulator::new(42);
    a.load_rom(&program).unwrap();
    b.load_rom(&program).unwrap();
    run(&mut a, 16);
    run(&mut b, 16);
    let ra: Vec<u8> = (0..16).map(|x| a.register(x)).collect();
    let rb: Vec<u8> = (0..16).map(|x| b.register(x)).collect();
    assert_eq!(ra, rb);
    assert!(ra.iter().any(|&v| v != 0));
}

#[test]
fn rom_too_large_is_refused() {
    let mut emu = Emulator::new(0);
    let rom = vec![1u8; MEMORY_SIZE - Emulator::ROM_START + 1];
    assert_eq!(emu.load_rom(&rom), Err(Fault::OutOfBounds));
    assert_eq!(emu.read_memory(Emulator::ROM_START), Ok(0));
    let rom = vec![1u8; MEMORY_SIZE - Emulator::ROM_START];
    assert_eq!(emu.load_rom(&rom), Ok(()));
    assert_eq!(emu.read_memory(MEMORY_SIZE - 1), Ok(1));
}

#[test]
fn font_is_loaded_at_its_place() {
    let emu = machine_with(&[]);
    assert_eq!(emu.read_memory(FONT_START as usize), Ok(0xF0));
    assert_eq!(emu.read_memory(FONT_START as usize + 79), Ok(0x80));
    assert_eq!(emu.read_memory(FONT_START as usize + 80), Ok(0));
}

#[test]
fn read_opcode_joins_two_bytes() {
    let emu = machine_with(&[0xAB, 0xCD]);
    assert_eq!(emu.read_opcode().map(|op| op.number), Ok(0xABCD));
}

#[test]
fn refresh_only_when_screen_changed() {
    let mut emu = machine_with(&[0xA0, 0x78, 0xD0, 0x05, 0x60, 0x01]);
    assert!(emu.refresh());
    assert!(!emu.refresh());
    run(&mut emu, 1);
    assert!(!emu.refresh());
    run(&mut emu, 1);
    assert!(emu.refresh());
    run(&mut emu, 1);
    assert!(!emu.refresh());
}

#[test]
fn execute_instruction_directly() {
    let mut emu = Emulator::new(3);
    assert_eq!(emu.execute(chip8::Instruction::LoadImm(4, 9), 0), Outcome::Executed);
    assert_eq!(emu.execute(chip8::Instruction::Random(5, 0xF0), 0xAB), Outcome::Executed);
    assert_eq!(emu.register(4), 9);
    assert_eq!(emu.register(5), 0xA0);
    assert_eq!(emu.pc(), 4);
    emu.next_opcode();
    assert_eq!(emu.pc(), 6);
}

#[test]
fn new_machine_is_blank_with_pc_at_zero() {
    let emu = Emulator::new(0);
    assert_eq!(emu.pc(), 0);
    assert_eq!(emu.index(), 0);
    assert_eq!(emu.stack_depth(), 0);
    assert_eq!(emu.delay_timer(), 0);
    assert_eq!(emu.sound_timer(), 0);
    assert!((0..16).all(|x| emu.register(x) == 0));
    assert!((0..MEMORY_SIZE).all(|a| emu.read_memory(a) == Ok(0)));
    assert!(screen_is_dark(&emu));
}

#[test]
fn load_rom_moves_pc_to_rom_start() {
    let mut emu = Emulator::new(0);
    emu.load_rom(&vec![0x00, 0xE0]).unwrap();
    assert_eq!(emu.pc(), Emulator::ROM_START);
}

#[test]
fn tick_reports_unknown_words() {
    let mut emu = machine_with(&[0xFF, 0xFF, 0x60, 0x01, 0x81, 0x28, 0x12, 0x06]);
    assert_eq!(emu.tick(6), vec![0xFFFF, 0x8128]);
    assert_eq!(emu.register(0), 1);
    assert_eq!(emu.pc(), 0x206);
    assert_eq!(emu.tick(3), Vec::<u16>::new());
}
