use rip8::chip::Chip;
use rip8::mmu::{PIXEL_OFF, PIXEL_ON};

fn load(program: &[u8]) -> Chip {
    let mut chip = Chip::new();
    chip.mmu.load_program(program);
    chip
}

fn run(chip: &mut Chip, ticks: usize) {
    for _ in 0..ticks {
        assert!(!chip.next_step_faults());
        chip.execute();
    }
}

#[test]
fn add_xy_sets_carry_when_sum_exceeds_255() {
    let mut chip = load(&[0x60, 0xC8, 0x61, 0x64, 0x80, 0x14]);
    run(&mut chip, 3);
    assert_eq!(chip.cpu.register(0), 44);
    assert_eq!(chip.cpu.register(0xF), 1);
}

#[test]
fn add_xy_clears_carry_without_overflow() {
    let mut chip = load(&[0x6F, 0x01, 0x60, 0x05, 0x61, 0x06, 0x80, 0x14]);
    run(&mut chip, 4);
    assert_eq!(chip.cpu.register(0), 11);
    assert_eq!(chip.cpu.register(0xF), 0);
}

#[test]
fn add_xy_sum_of_255_has_no_carry() {
    let mut chip = load(&[0x60, 0xFF, 0x61, 0x00, 0x80, 0x14]);
    run(&mut chip, 3);
    assert_eq!(chip.cpu.register(0), 255);
    assert_eq!(chip.cpu.register(0xF), 0);
}

#[test]
fn add_xy_into_flag_register_keeps_the_sum() {
    let mut chip = load(&[0x6F, 0xC8, 0x61, 0x64, 0x8F, 0x14]);
    run(&mut chip, 3);
    assert_eq!(chip.cpu.register(0xF), 44);
}

#[test]
fn sub_flag_from_comparison_before_subtraction() {
    let mut chip = load(&[0x60, 0x05, 0x61, 0x03, 0x80, 0x15]);
    run(&mut chip, 3);
    assert_eq!(chip.cpu.register(0), 2);
    assert_eq!(chip.cpu.register(0xF), 1);

    let mut chip = load(&[0x60, 0x03, 0x61, 0x05, 0x80, 0x15]);
    run(&mut chip, 3);
    assert_eq!(chip.cpu.register(0), 254);
    assert_eq!(chip.cpu.register(0xF), 0);

    let mut chip = load(&[0x6F, 0x01, 0x60, 0x05, 0x61, 0x05, 0x80, 0x15]);
    run(&mut chip, 4);
    assert_eq!(chip.cpu.register(0), 0);
    assert_eq!(chip.cpu.register(0xF), 0);
}

#[test]
fn subn_flag_from_comparison_before_subtraction() {
    let mut chip = load(&[0x60, 0x03, 0x61, 0x05, 0x80, 0x17]);
    run(&mut chip, 3);
    assert_eq!(chip.cpu.register(0), 2);
    assert_eq!(chip.cpu.register(0xF), 1);

    let mut chip = load(&[0x60, 0x05, 0x61, 0x03, 0x80, 0x17]);
    run(&mut chip, 3);
    assert_eq!(chip.cpu.register(0), 254);
    assert_eq!(chip.cpu.register(0xF), 0);
}

#[test]
fn shifts_set_flag_from_shifted_out_bit() {
    let mut chip = load(&[0x60, 0x05, 0x80, 0x06]);
    run(&mut chip, 2);
    assert_eq!(chip.cpu.register(0), 2);
    assert_eq!(chip.cpu.register(0xF), 1);

    let mut chip = load(&[0x60, 0x81, 0x80, 0x0E]);
    run(&mut chip, 2);
    assert_eq!(chip.cpu.register(0), 2);
    assert_eq!(chip.cpu.register(0xF), 1);

    let mut chip = load(&[0x60, 0x40, 0x80, 0x0E]);
    run(&mut chip, 2);
    assert_eq!(chip.cpu.register(0), 0x80);
    assert_eq!(chip.cpu.register(0xF), 0);
}

#[test]
fn logic_operations() {
    let mut chip = load(&[
        0x60, 0x0C, 0x61, 0x0A, 0x62, 0x0C, 0x63, 0x0C, 0x80, 0x11, 0x82, 0x12, 0x83, 0x13,
        0x84, 0x00,
    ]);
    run(&mut chip, 8);
    assert_eq!(chip.cpu.register(0), 0x0E);
    assert_eq!(chip.cpu.register(2), 0x08);
    assert_eq!(chip.cpu.register(3), 0x06);
    assert_eq!(chip.cpu.register(4), 0x0E);
}

#[test]
fn add_immediate_wraps_without_flag() {
    let mut chip = load(&[0x60, 0xFF, 0x70, 0x02]);
    run(&mut chip, 2);
    assert_eq!(chip.cpu.register(0), 1);
    assert_eq!(chip.cpu.register(0xF), 0);
}

#[test]
fn conditional_skips() {
    // 3xkk taken, then 4xkk not taken.
    let mut chip = load(&[0x60, 0x05, 0x30, 0x05]);
    run(&mut chip, 2);
    assert_eq!(chip.cpu.pc(), 0x206);
    let mut chip = load(&[0x60, 0x05, 0x40, 0x05]);
    run(&mut chip, 2);
    assert_eq!(chip.cpu.pc(), 0x204);
    // 5xy0 and 9xy0.
    let mut chip = load(&[0x60, 0x05, 0x61, 0x05, 0x50, 0x10]);
    run(&mut chip, 3);
    assert_eq!(chip.cpu.pc(), 0x208);
    let mut chip = load(&[0x60, 0x05, 0x61, 0x05, 0x90, 0x10]);
    run(&mut chip, 3);
    assert_eq!(chip.cpu.pc(), 0x206);
}

#[test]
fn call_and_return() {
    let mut chip = load(&[0x22, 0x04, 0x00, 0x00, 0x00, 0xEE]);
    run(&mut chip, 1);
    assert_eq!(chip.cpu.pc(), 0x204);
    assert_eq!(chip.cpu.sp(), 1);
    run(&mut chip, 1);
    assert_eq!(chip.cpu.pc(), 0x202);
    assert_eq!(chip.cpu.sp(), 0);
}

#[test]
fn jumps() {
    let mut chip = load(&[0x13, 0x00]);
    run(&mut chip, 1);
    assert_eq!(chip.cpu.pc(), 0x300);
    let mut chip = load(&[0x60, 0x04, 0xB3, 0x00]);
    run(&mut chip, 2);
    assert_eq!(chip.cpu.pc(), 0x304);
}

#[test]
fn index_register_operations() {
    let mut chip = load(&[0xA1, 0x23, 0x60, 0x10, 0xF0, 0x1E]);
    run(&mut chip, 3);
    assert_eq!(chip.cpu.i(), 0x133);
    let mut chip = load(&[0xAF, 0xFF, 0x60, 0x02, 0xF0, 0x1E]);
    run(&mut chip, 3);
    assert_eq!(chip.cpu.i(), 0x1001);
    // 241 additions of 255 to 0xFFF pass 0xFFFF and wrap to 0x000E.
    let mut chip = load(&[0xAF, 0xFF, 0x60, 0xFF, 0xF0, 0x1E, 0x12, 0x04]);
    run(&mut chip, 2 + 241 * 2);
    assert_eq!(chip.cpu.i(), 0x000E);
    let mut chip = load(&[0x60, 0x0A, 0xF0, 0x29]);
    run(&mut chip, 2);
    assert_eq!(chip.cpu.i(), 50);
}

#[test]
fn bcd_writes_digits_at_index() {
    let mut chip = load(&[0xA3, 0x00, 0x60, 0x05, 0xF0, 0x33]);
    run(&mut chip, 3);
    assert_eq!(chip.mmu.read_byte(0x300), 0);
    assert_eq!(chip.mmu.read_byte(0x301), 0);
    assert_eq!(chip.mmu.read_byte(0x302), 5);

    let mut chip = load(&[0xA3, 0x00, 0x60, 0xEA, 0xF0, 0x33]);
    run(&mut chip, 3);
    assert_eq!(chip.mmu.read_byte(0x300), 2);
    assert_eq!(chip.mmu.read_byte(0x301), 3);
    assert_eq!(chip.mmu.read_byte(0x302), 4);
}

#[test]
fn store_and_load_registers() {
    let mut chip = load(&[
        0x60, 0x01, 0x61, 0x02, 0x62, 0x03, 0x63, 0x09, 0xA3, 0x00, 0xF2, 0x55, 0x60, 0x00,
        0x61, 0x00, 0x62, 0x00, 0xF2, 0x65,
    ]);
    run(&mut chip, 6);
    assert_eq!(chip.mmu.read_byte(0x300), 1);
    assert_eq!(chip.mmu.read_byte(0x301), 2);
    assert_eq!(chip.mmu.read_byte(0x302), 3);
    assert_eq!(chip.mmu.read_byte(0x303), 0);
    run(&mut chip, 4);
    assert_eq!(chip.cpu.register(0), 1);
    assert_eq!(chip.cpu.register(1), 2);
    assert_eq!(chip.cpu.register(2), 3);
    assert_eq!(chip.cpu.register(3), 9);
}

#[test]
fn load_registers_reads_the_font() {
    let mut chip = load(&[0xA0, 0x05, 0xF1, 0x65]);
    run(&mut chip, 2);
    assert_eq!(chip.cpu.register(0), 0x20);
    assert_eq!(chip.cpu.register(1), 0x60);
}

#[test]
fn timers_count_down_to_zero() {
    let mut chip = load(&[0x60, 0x02, 0xF0, 0x15, 0xF0, 0x18, 0xF1, 0x07]);
    run(&mut chip, 4);
    assert_eq!(chip.cpu.register(1), 2);
    chip.decrement_timers();
    assert_eq!(chip.cpu.dt(), 1);
    assert_eq!(chip.cpu.st(), 1);
    chip.decrement_timers();
    chip.decrement_timers();
    assert_eq!(chip.cpu.dt(), 0);
    assert_eq!(chip.cpu.st(), 0);
}

#[test]
fn clear_then_jump_to_self_runs_without_change() {
    let mut chip = load(&[0x00, 0xE0, 0x12, 0x02]);
    run(&mut chip, 1);
    assert!(chip.mmu.display_buffer().iter().all(|p| *p == PIXEL_OFF));
    for _ in 0..100 {
        run(&mut chip, 1);
        assert_eq!(chip.cpu.pc(), 0x202);
        assert_eq!(chip.cpu.i(), 0);
        assert_eq!(chip.cpu.sp(), 0);
        for x in 0..16u8 {
            assert_eq!(chip.cpu.register(x), 0);
        }
    }
}

#[test]
fn sprite_drawn_twice_restores_screen_and_collides() {
    // i = 0x20A; draw 1 row at (v0, v1) twice; the sprite row is 0x80.
    let mut chip = load(&[0xA2, 0x0A, 0xD0, 0x11, 0xD0, 0x11, 0x12, 0x06, 0x00, 0x00, 0x80]);
    let before: Vec<u32> = chip.mmu.display_buffer().to_vec();
    run(&mut chip, 2);
    assert_eq!(chip.mmu.display_buffer()[0], PIXEL_ON);
    assert_eq!(chip.mmu.display_buffer().iter().filter(|p| **p == PIXEL_ON).count(), 1);
    assert_eq!(chip.cpu.register(0xF), 0);
    run(&mut chip, 1);
    assert_eq!(chip.mmu.display_buffer().to_vec(), before);
    assert_eq!(chip.cpu.register(0xF), 1);
}

#[test]
fn sprite_wraps_around_the_edges() {
    // Draw row 0xC0 at (63, 31): pixels (63, 31) and (0, 31).
    let mut chip = load(&[0x60, 0x3F, 0x61, 0x1F, 0xA2, 0x0A, 0xD0, 0x11, 0x00, 0x00, 0xC0]);
    run(&mut chip, 4);
    let screen = chip.mmu.display_buffer();
    assert_eq!(screen[31 * 64 + 63], PIXEL_ON);
    assert_eq!(screen[31 * 64], PIXEL_ON);
    assert_eq!(screen.iter().filter(|p| **p == PIXEL_ON).count(), 2);
    assert_eq!(chip.cpu.register(0xF), 0);
}

#[test]
fn glyph_sprite_draws_digit_zero() {
    let mut chip = load(&[0x60, 0x00, 0xF0, 0x29, 0xD0, 0x05]);
    run(&mut chip, 3);
    let screen = chip.mmu.display_buffer();
    let lit = screen.iter().filter(|p| **p == PIXEL_ON).count();
    // 0xF0, 0x90, 0x90, 0x90, 0xF0: 4 + 2 + 2 + 2 + 4 pixels.
    assert_eq!(lit, 14);
}

#[test]
fn wait_for_key_blocks_until_a_key_is_pressed() {
    let mut chip = load(&[0xF3, 0x0A, 0x12, 0x02]);
    chip.keyboard.set_pressed(7, true);
    run(&mut chip, 1);
    assert_eq!(chip.waiting_for_input(), Some(3));
    assert_eq!(chip.cpu.register(3), 0);
    chip.keyboard.set_pressed(7, false);
    for _ in 0..5 {
        run(&mut chip, 1);
        assert_eq!(chip.waiting_for_input(), Some(3));
        assert_eq!(chip.cpu.register(3), 0);
        assert_eq!(chip.cpu.pc(), 0x202);
    }
    chip.keyboard.set_pressed(9, true);
    chip.keyboard.set_pressed(5, true);
    run(&mut chip, 1);
    assert_eq!(chip.waiting_for_input(), None);
    assert_eq!(chip.cpu.register(3), 5);
    assert_eq!(chip.cpu.pc(), 0x202);
    run(&mut chip, 1);
    assert_eq!(chip.cpu.pc(), 0x202);
}

#[test]
fn timers_frozen_while_waiting_for_key() {
    let mut chip = load(&[0x60, 0x05, 0xF0, 0x15, 0xF0, 0x18, 0xF1, 0x0A]);
    run(&mut chip, 4);
    assert_eq!(chip.waiting_for_input(), Some(1));
    for _ in 0..3 {
        chip.decrement_timers();
    }
    assert_eq!(chip.cpu.dt(), 5);
    assert_eq!(chip.cpu.st(), 5);
    chip.keyboard.set_pressed(0, true);
    run(&mut chip, 1);
    chip.decrement_timers();
    assert_eq!(chip.cpu.dt(), 4);
    assert_eq!(chip.cpu.st(), 4);
}

#[test]
fn key_skips() {
    let mut chip = load(&[0x60, 0x04, 0xE0, 0x9E]);
    chip.keyboard.set_pressed(4, true);
    run(&mut chip, 2);
    assert_eq!(chip.cpu.pc(), 0x206);
    let mut chip = load(&[0x60, 0x04, 0xE0, 0xA1]);
    chip.keyboard.set_pressed(4, true);
    run(&mut chip, 2);
    assert_eq!(chip.cpu.pc(), 0x204);
    // A register value beyond the keypad is never pressed.
    let mut chip = load(&[0x60, 0x20, 0xE0, 0xA1]);
    run(&mut chip, 2);
    assert_eq!(chip.cpu.pc(), 0x206);
}

#[test]
fn unknown_instruction_is_a_no_op() {
    let mut chip = load(&[0x50, 0x01, 0xE0, 0x00]);
    run(&mut chip, 2);
    assert_eq!(chip.cpu.pc(), 0x204);
    assert_eq!(chip.waiting_for_input(), None);
    for x in 0..16u8 {
        assert_eq!(chip.cpu.register(x), 0);
    }
}

#[test]
fn random_byte_is_masked() {
    let mut chip = load(&[0x60, 0xFF, 0xC0, 0x00, 0xC1, 0x0F]);
    run(&mut chip, 3);
    assert_eq!(chip.cpu.register(0), 0);
    assert!(chip.cpu.register(1) <= 0x0F);
}

#[test]
fn fatal_steps_are_reported_before_they_run() {
    let chip = load(&[0x00, 0xEE]);
    assert!(chip.next_step_faults());

    let mut chip = load(&[0x22, 0x00]);
    for _ in 0..14 {
        run(&mut chip, 1);
    }
    assert_eq!(chip.cpu.sp(), 14);
    run(&mut chip, 1);
    assert_eq!(chip.cpu.sp(), 15);
    assert!(chip.next_step_faults());

    let mut chip = load(&[0x60, 0x10, 0xF0, 0x29]);
    run(&mut chip, 1);
    assert!(chip.next_step_faults());

    let mut chip = load(&[0xA1, 0xFF, 0xF0, 0x33]);
    run(&mut chip, 1);
    assert!(chip.next_step_faults());

    let mut chip = load(&[0xAF, 0xFE, 0xF0, 0x33]);
    run(&mut chip, 1);
    assert!(chip.next_step_faults());

    let mut chip = load(&[0xAF, 0xFD, 0xF0, 0x33]);
    run(&mut chip, 1);
    assert!(!chip.next_step_faults());

    let mut chip = load(&[0xAF, 0xFE, 0xF2, 0x55]);
    run(&mut chip, 1);
    assert!(chip.next_step_faults());

    let mut chip = load(&[0xAF, 0xFE, 0xF1, 0x55]);
    run(&mut chip, 1);
    assert!(!chip.next_step_faults());
}
