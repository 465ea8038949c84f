use rip8::cpu::{decode, Cpu, ExecutionStatus, Op};
use rip8::keyboard::Keyboard;
use rip8::mmu::{Mmu, PIXEL_OFF, PIXEL_ON};

#[test]
fn decode_table() {
    assert_eq!(decode(0x00E0), Op::Cls);
    assert_eq!(decode(0x00EE), Op::Ret);
    assert_eq!(decode(0x1ABC), Op::Jmp(0xABC));
    assert_eq!(decode(0x2ABC), Op::Call(0xABC));
    assert_eq!(decode(0x3A42), Op::Se(0xA, 0x42));
    assert_eq!(decode(0x8124), Op::AddXy(1, 2));
    assert_eq!(decode(0x812E), Op::Shl(1));
    assert_eq!(decode(0xD125), Op::Drw(1, 2, 5));
    assert_eq!(decode(0xE39E), Op::Skp(3));
    assert_eq!(decode(0xF30A), Op::WaitKey(3));
    assert_eq!(decode(0xF765), Op::LdRegs(7));
    assert_eq!(decode(0x5121), Op::Unknown(0x5121));
    assert_eq!(decode(0x0123), Op::Unknown(0x0123));
    assert_eq!(decode(0x8128), Op::Unknown(0x8128));
    assert_eq!(decode(0xF0FF), Op::Unknown(0xF0FF));
}

#[test]
fn reads_are_total_and_writes_confined_to_program_space() {
    let mut mmu = Mmu::new();
    assert_eq!(mmu.read_byte(0x000), 0xF0);
    assert_eq!(mmu.read_byte(0x04F), 0x80);
    assert_eq!(mmu.read_byte(0x050), 0);
    assert_eq!(mmu.read_byte(0x1FF), 0);
    assert_eq!(mmu.read_byte(0x1000), 0);
    assert_eq!(mmu.read_byte(0xFFFF), 0);
    mmu.write_byte(0x200, 0x12);
    mmu.write_byte(0x201, 0x34);
    mmu.write_byte(0xFFF, 0x56);
    assert_eq!(mmu.read_word(0x200), 0x1234);
    assert_eq!(mmu.read_byte(0xFFF), 0x56);
    assert_eq!(mmu.read_word(0xFFF), 0x5600);
    assert_eq!(mmu.read_word(0xFFFF), 0);
    assert_eq!(mmu.read_word(0x000), 0xF090);
}

#[test]
fn glyph_addresses() {
    let mmu = Mmu::new();
    assert_eq!(mmu.get_glyph_address(0), 0);
    assert_eq!(mmu.get_glyph_address(1), 5);
    assert_eq!(mmu.get_glyph_address(0xF), 75);
}

#[test]
fn load_program_copies_bytes_from_program_start() {
    let mut mmu = Mmu::new();
    mmu.load_program(&[1, 2, 3]);
    assert_eq!(mmu.read_byte(0x200), 1);
    assert_eq!(mmu.read_byte(0x202), 3);
    assert_eq!(mmu.read_byte(0x203), 0);
    let full = vec![7u8; 0xE00];
    mmu.load_program(&full);
    assert_eq!(mmu.read_byte(0xFFF), 7);
}

#[test]
fn xor_pixel_reports_collision_when_erasing() {
    let mut mmu = Mmu::new();
    assert!(!mmu.xor_pixel(3, 2));
    assert_eq!(mmu.display_buffer()[2 * 64 + 3], PIXEL_ON);
    assert!(mmu.xor_pixel(3 + 64, 2 + 32));
    assert_eq!(mmu.display_buffer()[2 * 64 + 3], PIXEL_OFF);
    assert!(mmu.display_buffer().iter().all(|p| *p == PIXEL_OFF));
    assert_eq!(mmu.display_buffer().len(), 2048);
}

#[test]
fn clear_display_turns_everything_off() {
    let mut mmu = Mmu::new();
    mmu.xor_pixel(0, 0);
    mmu.xor_pixel(63, 31);
    mmu.clear_display();
    assert!(mmu.display_buffer().iter().all(|p| *p == PIXEL_OFF));
}

#[test]
fn first_pressed_key_is_the_lowest() {
    let mut keyboard = Keyboard::new();
    assert_eq!(keyboard.first_pressed_key(), None);
    keyboard.set_pressed(0xC, true);
    keyboard.set_pressed(0x3, true);
    assert_eq!(keyboard.first_pressed_key(), Some(3));
    assert!(keyboard.key_pressed(0xC));
    assert!(!keyboard.key_pressed(0x4));
    assert!(!keyboard.key_pressed(0x40));
    keyboard.set_pressed(0x3, false);
    assert_eq!(keyboard.first_pressed_key(), Some(0xC));
}

#[test]
fn step_with_given_random_byte() {
    let mut cpu = Cpu::new();
    let mut mmu = Mmu::new();
    let keyboard = Keyboard::new();
    mmu.load_program(&[0xC0, 0x0F, 0xF2, 0x0A]);
    assert_eq!(cpu.step_with(&mut mmu, &keyboard, 0xAB), ExecutionStatus::Continue);
    assert_eq!(cpu.register(0), 0x0B);
    assert_eq!(cpu.step(&mut mmu, &keyboard), ExecutionStatus::WaitForKey(2));
    assert_eq!(cpu.pc(), 0x204);
    cpu.provide_key(2, 9);
    assert_eq!(cpu.register(2), 9);
}

#[test]
fn cpu_timers_floor_at_zero() {
    let mut cpu = Cpu::new();
    cpu.decrement_timers();
    assert_eq!(cpu.dt(), 0);
    assert_eq!(cpu.st(), 0);
}
