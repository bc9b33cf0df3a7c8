use chip8::keyboard::Keyboard;
use chip8::memory::Memory;
use chip8::opcode::{Instruction, Opcode};
use chip8::registers::{add_with_carry, shift_left, shift_right, sub_with_borrow, Registers};
use chip8::schedule::{sleep_nanos, CYCLES_PER_TICK, TICK_NANOS};
use chip8::stack::Stack;
use chip8::video::Video;
use chip8::Fault;

#[test]
fn opcode_fields() {
    let op = Opcode::new(0xD12A);
    assert_eq!(op.nibbles(), (0xD, 0x1, 0x2, 0xA));
    assert_eq!(op.nnn(), 0x12A);
    assert_eq!(op.kk(), 0x2A);
    assert_eq!(op.w(), 0xD);
    assert_eq!(op.x(), 0x1);
    assert_eq!(op.y(), 0x2);
    assert_eq!(op.n(), 0xA);
}

#[test]
fn decode_words() {
    assert_eq!(Opcode::new(0x00E0).decode(), Instruction::Clear);
    assert_eq!(Opcode::new(0x00EE).decode(), Instruction::Return);
    assert_eq!(Opcode::new(0x1ABC).decode(), Instruction::Jump(0xABC));
    assert_eq!(Opcode::new(0x8AB4).decode(), Instruction::AddReg(0xA, 0xB));
    assert_eq!(Opcode::new(0x8ABE).decode(), Instruction::ShiftLeft(0xA, 0xB));
    assert_eq!(Opcode::new(0xD125).decode(), Instruction::Draw(1, 2, 5));
    assert_eq!(Opcode::new(0xE39E).decode(), Instruction::SkipKey(3));
    assert_eq!(Opcode::new(0xF465).decode(), Instruction::LoadRegs(4));
    assert_eq!(Opcode::new(0x5121).decode(), Instruction::Unknown(0x5121));
    assert_eq!(Opcode::new(0x8128).decode(), Instruction::Unknown(0x8128));
    assert_eq!(Opcode::new(0xFFFF).decode(), Instruction::Unknown(0xFFFF));
}

#[test]
fn flag_arithmetic() {
    assert_eq!(add_with_carry(200, 100), (44, 1));
    assert_eq!(add_with_carry(155, 100), (255, 0));
    assert_eq!(add_with_carry(156, 100), (0, 1));
    assert_eq!(sub_with_borrow(5, 3), (2, 1));
    assert_eq!(sub_with_borrow(3, 3), (0, 1));
    assert_eq!(sub_with_borrow(3, 5), (254, 0));
    assert_eq!(shift_right(0x81), (0x40, 1));
    assert_eq!(shift_right(0x80), (0x40, 0));
    assert_eq!(shift_left(0x81), (0x02, 1));
    assert_eq!(shift_left(0x41), (0x82, 0));
}

#[test]
fn registers_prefix_and_load() {
    let mut regs = Registers::new();
    regs.set(0, 1);
    regs.set(1, 2);
    regs.set(2, 3);
    assert_eq!(regs.prefix(2), vec![1, 2]);
    regs.load_prefix(&vec![9, 8]);
    assert_eq!((regs.get(0), regs.get(1), regs.get(2)), (9, 8, 3));
}

#[test]
fn stack_holds_sixteen() {
    let mut stack = Stack::new();
    for v in 0..16u16 {
        assert_eq!(stack.push(v * 2), Ok(()));
    }
    assert_eq!(stack.push(99), Err(Fault::StackOverflow));
    assert_eq!(stack.len(), 16);
    for v in (0..16u16).rev() {
        assert_eq!(stack.pop(), Ok(v * 2));
    }
    assert_eq!(stack.pop(), Err(Fault::StackUnderflow));
}

#[test]
fn stack_pop_undoes_push() {
    let mut stack = Stack::new();
    stack.push(0x300).unwrap();
    stack.push(0x456).unwrap();
    assert_eq!(stack.pop(), Ok(0x456));
    assert_eq!(stack.len(), 1);
    assert_eq!(stack.pop(), Ok(0x300));
}

#[test]
fn memory_bounds() {
    let mut mem = Memory::new();
    assert_eq!(mem.size(), 4096);
    assert_eq!(mem.write(4095, 7), Ok(()));
    assert_eq!(mem.read(4095), Ok(7));
    assert_eq!(mem.read(4096), Err(Fault::OutOfBounds));
    assert_eq!(mem.write(4096, 1), Err(Fault::OutOfBounds));
    assert_eq!(mem.read_range(4094, 2), Ok(vec![0, 7]));
    assert_eq!(mem.read_range(4095, 2), Err(Fault::OutOfBounds));
    assert_eq!(mem.read_range(usize::MAX, 2), Err(Fault::OutOfBounds));
    assert_eq!(mem.load(4094, &vec![1, 2, 3]), Err(Fault::OutOfBounds));
    assert_eq!(mem.read(4094), Ok(0));
    assert_eq!(mem.load(10, &vec![1, 2, 3]), Ok(()));
    assert_eq!(mem.read_range(9, 5), Ok(vec![0, 1, 2, 3, 0]));
}

fn lit(video: &Video) -> Vec<(usize, usize)> {
    let mut out = Vec::new();
    for row in 0..32 {
        for col in 0..64 {
            if video.pixel(col, row) {
                out.push((col, row));
            }
        }
    }
    out
}

#[test]
fn draw_twice_restores_and_collides() {
    let mut video = Video::new();
    let sprite = vec![0xF0, 0x90, 0x3C];
    assert_eq!(video.draw_sprite(&vec![0x81], 11, 6), 0);
    let before = lit(&video);
    assert_eq!(video.draw_sprite(&sprite, 10, 5), 0);
    assert!(video.pixel(10, 5) && video.pixel(13, 5) && !video.pixel(14, 5));
    assert_eq!(video.draw_sprite(&sprite, 10, 5), 1);
    assert_eq!(lit(&video), before);
}

#[test]
fn first_draw_over_lit_pixel_collides() {
    let mut video = Video::new();
    video.draw_sprite(&vec![0x01], 0, 0);
    assert_eq!(video.draw_sprite(&vec![0x80], 7, 0), 1);
    assert!(!video.pixel(7, 0));
}

#[test]
fn draw_wraps_right_edge() {
    let mut video = Video::new();
    assert_eq!(video.draw_sprite(&vec![0xFF], 60, 0), 0);
    let cols: Vec<usize> = lit(&video).into_iter().map(|(c, _)| c).collect();
    assert_eq!(cols, vec![0, 1, 2, 3, 60, 61, 62, 63]);
}

#[test]
fn draw_wraps_bottom_edge_and_large_coordinates() {
    let mut video = Video::new();
    assert_eq!(video.draw_sprite(&vec![0x80, 0x80, 0x80], 64 + 5, 30), 0);
    assert_eq!(lit(&video), vec![(5, 0), (5, 30), (5, 31)]);
}

#[test]
fn clear_and_refresh() {
    let mut video = Video::new();
    assert!(video.refresh());
    assert!(!video.refresh());
    video.draw_sprite(&vec![0xAA], 0, 0);
    assert!(video.refresh());
    video.clear();
    assert!(lit(&video).is_empty());
    assert!(video.refresh());
    assert!(!video.refresh());
}

#[test]
fn keyboard_queries() {
    let mut keys = Keyboard::new();
    assert!(!keys.is_any_key_pressed());
    assert_eq!(keys.first_pressed_key(), None);
    keys.key_down(0xE);
    keys.key_down(0x4);
    keys.key_down(0x20);
    assert!(keys.is_any_key_pressed());
    assert_eq!(keys.first_pressed_key(), Some(0x4));
    assert!(keys.is_key_pressed(0xE));
    assert!(!keys.is_key_pressed(0x5));
    assert!(!keys.is_key_pressed(0x20));
    keys.key_up(0x4);
    assert_eq!(keys.first_pressed_key(), Some(0xE));
}

#[test]
fn sleep_takes_rest_of_budget() {
    assert_eq!(sleep_nanos(100, 30), 70);
    assert_eq!(sleep_nanos(100, 100), 0);
    assert_eq!(sleep_nanos(100, 150), 0);
    assert_eq!(CYCLES_PER_TICK, 10);
    assert_eq!(TICK_NANOS, 1_000_000_000 / 60);
}
