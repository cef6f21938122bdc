use chip8::{Chip8, KeypadEvent, Op, Registers, FONTSET_START_ADDR, ROM_START_ADDR};

fn machine_with(program: &[u8]) -> Chip8 {
    let mut c = Chip8::new();
    c.load_rom(program);
    c
}

fn run_cycles(c: &mut Chip8, n: usize) {
    for _ in 0..n {
        assert!(c.can_cycle());
        c.cycle();
    }
}

#[test]
fn registers_start_cleared() {
    let r = Registers::new();
    assert_eq!(r.v, [0u8; 16]);
    assert_eq!(r.i, 0);
    assert_eq!(r.pc, ROM_START_ADDR);
    assert_eq!(r.timer_delay, 0);
    assert_eq!(r.timer_sound, 0);
}

#[test]
fn new_machine_is_blank_with_font() {
    let c = Chip8::new();
    assert!(c.display.iter().all(|p| !*p));
    assert!(c.keypad.iter().all(|k| !*k));
    assert!(c.memory.stack.is_empty());
    assert_eq!(c.registers.pc, 0x200);
    // glyph "0" then "F"
    assert_eq!(&c.memory.bytes[FONTSET_START_ADDR..FONTSET_START_ADDR + 5], &[0xF0, 0x90, 0x90, 0x90, 0xF0]);
    assert_eq!(&c.memory.bytes[FONTSET_START_ADDR + 75..FONTSET_START_ADDR + 80], &[0xF0, 0x80, 0xF0, 0x80, 0x80]);
    assert_eq!(c.memory.bytes[0], 0);
    assert_eq!(c.memory.bytes[0x200], 0);
}

#[test]
fn load_rom_places_program_at_0x200() {
    let c = machine_with(&[0x12, 0x34, 0xAB]);
    assert_eq!(c.memory.bytes[0x200], 0x12);
    assert_eq!(c.memory.bytes[0x201], 0x34);
    assert_eq!(c.memory.bytes[0x202], 0xAB);
    assert_eq!(c.memory.bytes[0x203], 0);
    assert_eq!(c.memory.bytes[FONTSET_START_ADDR], 0xF0);
}

#[test]
fn decode_every_instruction_family() {
    assert_eq!(Op::new(0x00E0), Op::ClearScreen);
    assert_eq!(Op::new(0x00EE), Op::RetSubroutine);
    assert_eq!(Op::new(0x1234), Op::Jump(0x234));
    assert_eq!(Op::new(0x2ABC), Op::CallSubroutine(0xABC));
    assert_eq!(Op::new(0x3A42), Op::SkipIfEqImm(0xA, 0x42));
    assert_eq!(Op::new(0x4B42), Op::SkipIfNotEqImm(0xB, 0x42));
    assert_eq!(Op::new(0x5120), Op::SkipIfEq(1, 2));
    assert_eq!(Op::new(0x6C07), Op::SetImm(0xC, 7));
    assert_eq!(Op::new(0x7DFF), Op::AddImm(0xD, 0xFF));
    assert_eq!(Op::new(0x8120), Op::SetReg(1, 2));
    assert_eq!(Op::new(0x8121), Op::Or(1, 2));
    assert_eq!(Op::new(0x8122), Op::And(1, 2));
    assert_eq!(Op::new(0x8123), Op::Xor(1, 2));
    assert_eq!(Op::new(0x8124), Op::Add(1, 2));
    assert_eq!(Op::new(0x8125), Op::Subtract(1, 2));
    assert_eq!(Op::new(0x8126), Op::ShiftRight(1, 2));
    assert_eq!(Op::new(0x8127), Op::SubtractRev(1, 2));
    assert_eq!(Op::new(0x812E), Op::ShiftLeft(1, 2));
    assert_eq!(Op::new(0x9340), Op::SkipIfNotEq(3, 4));
    assert_eq!(Op::new(0xA123), Op::SetI(0x123));
    assert_eq!(Op::new(0xB300), Op::JumpWithOffset(0x300));
    assert_eq!(Op::new(0xC50F), Op::Random(5, 0x0F));
    assert_eq!(Op::new(0xD125), Op::Draw(1, 2, 5));
    assert_eq!(Op::new(0xE39E), Op::SkipIfKeyDown(3));
    assert_eq!(Op::new(0xE3A1), Op::SkipIfKeyUp(3));
    assert_eq!(Op::new(0xF407), Op::GetDelayTimer(4));
    assert_eq!(Op::new(0xF40A), Op::GetKey(4));
    assert_eq!(Op::new(0xF415), Op::SetDelayTimer(4));
    assert_eq!(Op::new(0xF418), Op::SetSoundTimer(4));
    assert_eq!(Op::new(0xF41E), Op::AddToIndex(4));
    assert_eq!(Op::new(0xF429), Op::FontChar(4));
    assert_eq!(Op::new(0xF433), Op::BCDConv(4));
    assert_eq!(Op::new(0xF455), Op::StoreMem(4));
    assert_eq!(Op::new(0xF465), Op::LoadMem(4));
}

#[test]
fn decode_rejects_unassigned_opcodes() {
    assert_eq!(Op::decode(0x0000), None);
    assert_eq!(Op::decode(0x00E1), None);
    assert_eq!(Op::decode(0x8128), None);
    assert_eq!(Op::decode(0xE19F), None);
    assert_eq!(Op::decode(0xF1FF), None);
    assert_eq!(Op::decode(0x6005), Some(Op::SetImm(0, 5)));
}

#[test]
fn cycle_fetches_decodes_and_executes() {
    let mut c = machine_with(&[0x60, 0x05, 0x61, 0x07]);
    run_cycles(&mut c, 2);
    assert_eq!(c.registers.v[0], 5);
    assert_eq!(c.registers.v[1], 7);
    assert_eq!(c.registers.pc, 0x204);
}

#[test]
fn can_cycle_rejects_invalid_opcode_and_pc_at_end() {
    let c = machine_with(&[0x00, 0x00]);
    assert!(!c.can_cycle());
    let mut c = Chip8::new();
    c.registers.pc = 4095;
    assert!(!c.can_cycle());
    // 00EE with an empty stack cannot return
    let c = machine_with(&[0x00, 0xEE]);
    assert!(!c.can_cycle());
}

#[test]
fn add_sets_carry() {
    let mut c = Chip8::new();
    c.registers.v[1] = 200;
    c.registers.v[2] = 100;
    Op::Add(1, 2).execute(&mut c);
    assert_eq!(c.registers.v[1], 44);
    assert_eq!(c.registers.v[15], 1);
    c.registers.v[1] = 20;
    Op::Add(1, 2).execute(&mut c);
    assert_eq!(c.registers.v[1], 120);
    assert_eq!(c.registers.v[15], 0);
}

#[test]
fn subtract_flags_no_borrow() {
    let mut c = Chip8::new();
    c.registers.v[1] = 10;
    c.registers.v[2] = 3;
    Op::Subtract(1, 2).execute(&mut c);
    assert_eq!(c.registers.v[1], 7);
    assert_eq!(c.registers.v[15], 1);
    c.registers.v[1] = 3;
    c.registers.v[2] = 10;
    Op::Subtract(1, 2).execute(&mut c);
    assert_eq!(c.registers.v[1], 249);
    assert_eq!(c.registers.v[15], 0);
}

#[test]
fn subtract_rev_flags_no_borrow() {
    let mut c = Chip8::new();
    c.registers.v[1] = 3;
    c.registers.v[2] = 10;
    Op::SubtractRev(1, 2).execute(&mut c);
    assert_eq!(c.registers.v[1], 7);
    assert_eq!(c.registers.v[15], 1);
    c.registers.v[1] = 10;
    c.registers.v[2] = 3;
    Op::SubtractRev(1, 2).execute(&mut c);
    assert_eq!(c.registers.v[1], 249);
    assert_eq!(c.registers.v[15], 0);
}

#[test]
fn shifts_move_bit_into_vf() {
    let mut c = Chip8::new();
    c.registers.v[2] = 0b1000_0011;
    Op::ShiftRight(1, 2).execute(&mut c);
    assert_eq!(c.registers.v[1], 0b0100_0001);
    assert_eq!(c.registers.v[15], 1);
    Op::ShiftLeft(3, 2).execute(&mut c);
    assert_eq!(c.registers.v[3], 0b0000_0110);
    assert_eq!(c.registers.v[15], 1);
    c.registers.v[2] = 0b0100_0010;
    Op::ShiftRight(1, 2).execute(&mut c);
    assert_eq!(c.registers.v[15], 0);
    Op::ShiftLeft(1, 2).execute(&mut c);
    assert_eq!(c.registers.v[1], 0b1000_0100);
    assert_eq!(c.registers.v[15], 0);
}

#[test]
fn bitwise_and_set_ops() {
    let mut c = Chip8::new();
    c.registers.v[1] = 0b1100;
    c.registers.v[2] = 0b1010;
    Op::Or(1, 2).execute(&mut c);
    assert_eq!(c.registers.v[1], 0b1110);
    c.registers.v[1] = 0b1100;
    Op::And(1, 2).execute(&mut c);
    assert_eq!(c.registers.v[1], 0b1000);
    c.registers.v[1] = 0b1100;
    Op::Xor(1, 2).execute(&mut c);
    assert_eq!(c.registers.v[1], 0b0110);
    Op::SetReg(3, 2).execute(&mut c);
    assert_eq!(c.registers.v[3], 0b1010);
    Op::SetImm(4, 0xFE).execute(&mut c);
    Op::AddImm(4, 3).execute(&mut c);
    assert_eq!(c.registers.v[4], 1);
    assert_eq!(c.registers.v[15], 0);
}

#[test]
fn skips_advance_pc_by_two() {
    let mut c = Chip8::new();
    c.registers.v[1] = 5;
    c.registers.v[2] = 5;
    Op::SkipIfEqImm(1, 5).execute(&mut c);
    assert_eq!(c.registers.pc, 0x202);
    Op::SkipIfEqImm(1, 6).execute(&mut c);
    assert_eq!(c.registers.pc, 0x202);
    Op::SkipIfNotEqImm(1, 6).execute(&mut c);
    assert_eq!(c.registers.pc, 0x204);
    Op::SkipIfEq(1, 2).execute(&mut c);
    assert_eq!(c.registers.pc, 0x206);
    Op::SkipIfNotEq(1, 2).execute(&mut c);
    assert_eq!(c.registers.pc, 0x206);
}

#[test]
fn jumps_and_subroutines() {
    let mut c = Chip8::new();
    Op::Jump(0x345).execute(&mut c);
    assert_eq!(c.registers.pc, 0x345);
    Op::CallSubroutine(0x400).execute(&mut c);
    assert_eq!(c.registers.pc, 0x400);
    assert_eq!(c.memory.stack, vec![0x345]);
    Op::RetSubroutine.execute(&mut c);
    assert_eq!(c.registers.pc, 0x345);
    assert!(c.memory.stack.is_empty());
    c.registers.v[0] = 0x10;
    Op::JumpWithOffset(0x300).execute(&mut c);
    assert_eq!(c.registers.pc, 0x310);
}

#[test]
fn index_register_ops() {
    let mut c = Chip8::new();
    Op::SetI(0xFFE).execute(&mut c);
    assert_eq!(c.registers.i, 0xFFE);
    c.registers.v[3] = 1;
    Op::AddToIndex(3).execute(&mut c);
    assert_eq!(c.registers.i, 0xFFF);
    assert_eq!(c.registers.v[15], 0);
    Op::AddToIndex(3).execute(&mut c);
    assert_eq!(c.registers.i, 0x1000);
    assert_eq!(c.registers.v[15], 1);
    c.registers.v[5] = 0x1A;
    Op::FontChar(5).execute(&mut c);
    assert_eq!(c.registers.i, FONTSET_START_ADDR + 5 * 0xA);
}

#[test]
fn bcd_stores_decimal_digits() {
    let mut c = Chip8::new();
    c.registers.i = 0x300;
    c.registers.v[2] = 254;
    Op::BCDConv(2).execute(&mut c);
    assert_eq!(&c.memory.bytes[0x300..0x303], &[2, 5, 4]);
    c.registers.v[2] = 7;
    Op::BCDConv(2).execute(&mut c);
    assert_eq!(&c.memory.bytes[0x300..0x303], &[0, 0, 7]);
}

#[test]
fn store_and_load_registers_round_trip() {
    let mut c = Chip8::new();
    c.registers.i = 0x300;
    for k in 0..16 {
        c.registers.v[k] = (k as u8) * 3 + 1;
    }
    Op::StoreMem(3).execute(&mut c);
    assert_eq!(&c.memory.bytes[0x300..0x305], &[1, 4, 7, 10, 0]);
    assert_eq!(c.registers.i, 0x304);
    let saved = c.registers.v;
    c.registers.v = [0; 16];
    c.registers.i = 0x300;
    Op::LoadMem(3).execute(&mut c);
    assert_eq!(&c.registers.v[0..4], &saved[0..4]);
    assert_eq!(c.registers.v[4], 0);
    assert_eq!(c.registers.i, 0x304);
}

#[test]
fn timers() {
    let mut c = Chip8::new();
    c.registers.v[1] = 60;
    Op::SetDelayTimer(1).execute(&mut c);
    Op::SetSoundTimer(1).execute(&mut c);
    assert_eq!(c.registers.timer_delay, 60);
    assert_eq!(c.registers.timer_sound, 60);
    Op::GetDelayTimer(2).execute(&mut c);
    assert_eq!(c.registers.v[2], 60);
}

#[test]
fn random_is_masked() {
    let mut c = Chip8::new();
    for _ in 0..50 {
        Op::Random(1, 0x0F).execute(&mut c);
        assert_eq!(c.registers.v[1] & 0xF0, 0);
        Op::Random(2, 0).execute(&mut c);
        assert_eq!(c.registers.v[2], 0);
    }
    Op::Random(3, 0xFF).execute_with_random(&mut c, 0xA5);
    assert_eq!(c.registers.v[3], 0xA5);
    Op::Random(3, 0x0F).execute_with_random(&mut c, 0xA5);
    assert_eq!(c.registers.v[3], 0x05);
}

#[test]
fn keys_skip_and_wait() {
    let mut c = Chip8::new();
    c.registers.v[1] = 0xA;
    Op::SkipIfKeyDown(1).execute(&mut c);
    assert_eq!(c.registers.pc, 0x200);
    Op::SkipIfKeyUp(1).execute(&mut c);
    assert_eq!(c.registers.pc, 0x202);
    c.handle_keypad_event(KeypadEvent::KeyDown(0xA));
    assert!(c.keypad[0xA]);
    Op::SkipIfKeyDown(1).execute(&mut c);
    assert_eq!(c.registers.pc, 0x204);
    c.handle_keypad_event(KeypadEvent::KeyUp(0xA));
    assert!(!c.keypad[0xA]);
    c.handle_keypad_event(KeypadEvent::KeyDown(16));
    assert!(c.keypad.iter().all(|k| !*k));
}

#[test]
fn get_key_waits_then_takes_first_pressed_key() {
    // F30A: wait for a key into V3
    let mut c = machine_with(&[0xF3, 0x0A]);
    run_cycles(&mut c, 3);
    assert_eq!(c.registers.pc, 0x200);
    assert_eq!(c.registers.v[3], 0);
    c.handle_keypad_event(KeypadEvent::KeyDown(9));
    c.handle_keypad_event(KeypadEvent::KeyDown(4));
    run_cycles(&mut c, 1);
    assert_eq!(c.registers.pc, 0x202);
    assert_eq!(c.registers.v[3], 4);
}

#[test]
fn clear_screen() {
    let mut c = Chip8::new();
    c.display[5] = true;
    c.display[2047] = true;
    Op::ClearScreen.execute(&mut c);
    assert!(c.display.iter().all(|p| !*p));
}

#[test]
fn draw_sprite_xors_and_reports_collision() {
    let mut c = Chip8::new();
    // glyph "0" at (2, 1)
    c.registers.i = FONTSET_START_ADDR;
    c.registers.v[0] = 2;
    c.registers.v[1] = 1;
    Op::Draw(0, 1, 5).execute(&mut c);
    assert_eq!(c.registers.v[15], 0);
    // row 0 of the glyph: 0xF0 -> pixels 2..6 of display row 1
    for col in 0..64 {
        assert_eq!(c.display[64 + col], (2..6).contains(&col));
    }
    // row 1 of the glyph: 0x90 -> pixels 2 and 5 of display row 2
    for col in 0..64 {
        assert_eq!(c.display[128 + col], col == 2 || col == 5);
    }
    let on = c.display.iter().filter(|p| **p).count();
    assert_eq!(on, 4 + 2 + 2 + 2 + 4);
    // drawing again erases it and reports the collision
    Op::Draw(0, 1, 5).execute(&mut c);
    assert_eq!(c.registers.v[15], 1);
    assert!(c.display.iter().all(|p| !*p));
}

#[test]
fn draw_keeps_pixels_the_sprite_leaves_off() {
    let mut c = Chip8::new();
    c.memory.bytes[0x300] = 0b1000_0000;
    c.registers.i = 0x300;
    c.display[1] = true;
    Op::Draw(0, 0, 1).execute(&mut c);
    assert!(c.display[0]);
    assert!(c.display[1]);
    assert_eq!(c.registers.v[15], 0);
}

#[test]
fn draw_coordinates_wrap_and_edge_column_spills() {
    let mut c = Chip8::new();
    c.memory.bytes[0x300] = 0xFF;
    c.registers.i = 0x300;
    c.registers.v[0] = 64 + 60; // x = 60
    c.registers.v[1] = 32 + 3; // y = 3
    Op::Draw(0, 1, 1).execute(&mut c);
    for col in 60..64 {
        assert!(c.display[64 * 3 + col]);
    }
    // column 64 of row 3 is pixel 0 of row 4
    assert!(c.display[64 * 4]);
    assert!(!c.display[64 * 4 + 1]);
    let on = c.display.iter().filter(|p| **p).count();
    assert_eq!(on, 5);
}

#[test]
fn draw_that_would_leave_the_display_is_not_executable() {
    let mut c = Chip8::new();
    c.registers.i = FONTSET_START_ADDR;
    c.registers.v[1] = 30;
    assert!(!Op::Draw(0, 1, 5).can_execute(&c));
    assert!(Op::Draw(0, 1, 2).can_execute(&c));
    c.registers.v[0] = 60;
    assert!(!Op::Draw(0, 1, 2).can_execute(&c));
    assert!(Op::Draw(0, 1, 1).can_execute(&c));
}

#[test]
fn display_text_renders_rows() {
    let mut c = Chip8::new();
    c.display[0] = true;
    c.display[64 + 63] = true;
    let text: String = c.display_text().into_iter().collect();
    let lines: Vec<&str> = text.lines().collect();
    assert_eq!(lines.len(), 32);
    assert!(lines.iter().all(|l| l.chars().count() == 64));
    assert_eq!(lines[0].chars().next(), Some('\u{25A0}'));
    assert_eq!(lines[1].chars().last(), Some('\u{25A0}'));
    assert_eq!(lines[2].chars().filter(|ch| *ch == ' ').count(), 64);
    assert!(text.ends_with('\n'));
}

#[test]
fn program_draws_font_glyph() {
    // point I at the glyph of 1 with FX29, then draw it at (0, 0)
    let program = [
        0x60, 0x01, // V0 = 1
        0xF0, 0x29, // I = font glyph of V0
        0x61, 0x00, // V1 = 0
        0xD1, 0x15, // draw 5 rows at (V1, V1)
    ];
    let mut c = machine_with(&program);
    run_cycles(&mut c, 4);
    assert_eq!(c.registers.i, FONTSET_START_ADDR + 5);
    assert_eq!(c.registers.pc, 0x208);
    assert_eq!(c.registers.v[15], 0);
    // glyph 1: 0x20, 0x60, 0x20, 0x20, 0x70
    let rows = [0x20u8, 0x60, 0x20, 0x20, 0x70];
    for (r, byte) in rows.iter().enumerate() {
        for col in 0..8 {
            assert_eq!(c.display[64 * r + col], byte & (0x80 >> col) != 0);
        }
    }
}
