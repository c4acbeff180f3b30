use chip8::error::Chip8Error;
use chip8::emulator::Emulator;
use chip8::instruction::Instruction;

fn with_program(program: &[u8]) -> Emulator {
    let mut e = Emulator::new();
    e.memory.load(program).unwrap();
    e
}

fn run_alu(a: u8, b: u8, op: Instruction) -> (u8, u8) {
    let mut e = Emulator::new();
    e.registers.reg_write(1, a);
    e.registers.reg_write(2, b);
    e.execute(op, 0).unwrap();
    assert_eq!(e.registers.pc, 0x202);
    (e.registers.reg_read(1), e.registers.vf)
}

#[test]
fn add_sets_carry_on_overflow() {
    assert_eq!(run_alu(200, 100, Instruction::AddReg { x: 1, y: 2 }), (44, 1));
    assert_eq!(run_alu(255, 1, Instruction::AddReg { x: 1, y: 2 }), (0, 1));
    assert_eq!(run_alu(100, 50, Instruction::AddReg { x: 1, y: 2 }), (150, 0));
    assert_eq!(run_alu(255, 0, Instruction::AddReg { x: 1, y: 2 }), (255, 0));
}

#[test]
fn add_exhaustive_over_byte_pairs() {
    for a in 0..=255u8 {
        for b in (0..=255u8).step_by(7) {
            let sum = a as u16 + b as u16;
            let expected = ((sum % 256) as u8, if sum > 255 { 1 } else { 0 });
            assert_eq!(run_alu(a, b, Instruction::AddReg { x: 1, y: 2 }), expected);
        }
    }
}

#[test]
fn sub_sets_flag_when_no_borrow() {
    assert_eq!(run_alu(20, 10, Instruction::Sub { x: 1, y: 2 }), (10, 1));
    assert_eq!(run_alu(10, 20, Instruction::Sub { x: 1, y: 2 }), (246, 0));
    assert_eq!(run_alu(7, 7, Instruction::Sub { x: 1, y: 2 }), (0, 0));
}

#[test]
fn subn_reverses_operands() {
    assert_eq!(run_alu(10, 20, Instruction::Subn { x: 1, y: 2 }), (10, 1));
    assert_eq!(run_alu(20, 10, Instruction::Subn { x: 1, y: 2 }), (246, 0));
}

#[test]
fn shifts_keep_their_flag_rules() {
    assert_eq!(run_alu(0x05, 0, Instruction::Shr { x: 1, y: 2 }), (0x02, 1));
    assert_eq!(run_alu(0x04, 0, Instruction::Shr { x: 1, y: 2 }), (0x02, 0));
    assert_eq!(run_alu(0x81, 0, Instruction::Shl { x: 1, y: 2 }), (0x02, 1));
    assert_eq!(run_alu(0x80, 0, Instruction::Shl { x: 1, y: 2 }), (0x00, 0));
    assert_eq!(run_alu(0x09, 0, Instruction::Shl { x: 1, y: 2 }), (0x12, 1));
}

#[test]
fn bitwise_and_byte_operations() {
    assert_eq!(run_alu(0b1100, 0b1010, Instruction::Or { x: 1, y: 2 }).0, 0b1110);
    assert_eq!(run_alu(0b1100, 0b1010, Instruction::And { x: 1, y: 2 }).0, 0b1000);
    assert_eq!(run_alu(0b1100, 0b1010, Instruction::Xor { x: 1, y: 2 }).0, 0b0110);
    assert_eq!(run_alu(250, 0, Instruction::AddByte { x: 1, kk: 10 }).0, 4);
    assert_eq!(run_alu(0, 9, Instruction::LdReg { x: 1, y: 2 }).0, 9);
}

#[test]
fn cls_blanks_screen() {
    let mut e = with_program(&[0x00, 0xE0]);
    e.display.memory[10] = 0xFF;
    e.display.memory[2047] = 0xFF;
    e.cycle(0).unwrap();
    assert!(e.display.memory.iter().all(|&p| p == 0));
    assert_eq!(e.registers.pc, 0x202);
}

#[test]
fn draw_twice_toggles_and_reports_collision() {
    let mut e = Emulator::new();
    e.memory.write(0x300, 0x80).unwrap();
    e.registers.i = 0x300;
    let drw = Instruction::Drw { x: 0, y: 1, n: 1 };
    e.execute(drw, 0).unwrap();
    assert_ne!(e.display.memory[0], 0);
    assert_eq!(e.registers.vf, 0);
    assert_eq!(e.display.memory.iter().filter(|&&p| p != 0).count(), 1);
    e.execute(drw, 0).unwrap();
    assert_eq!(e.display.memory[0], 0);
    assert_eq!(e.registers.vf, 1);
}

#[test]
fn draw_clips_at_screen_edges() {
    let mut e = Emulator::new();
    e.memory.write(0x300, 0xFF).unwrap();
    e.memory.write(0x301, 0xFF).unwrap();
    e.registers.i = 0x300;
    e.registers.v0 = 60 + 64;
    e.registers.v1 = 31;
    e.execute(Instruction::Drw { x: 0, y: 1, n: 2 }, 0).unwrap();
    let lit: Vec<usize> = (0..2048).filter(|&k| e.display.memory[k] != 0).collect();
    assert_eq!(lit, vec![60 + 64 * 31, 61 + 64 * 31, 62 + 64 * 31, 63 + 64 * 31]);
}

#[test]
fn draw_with_sprite_past_memory_fails() {
    let mut e = Emulator::new();
    e.registers.i = 4094;
    assert_eq!(
        e.execute(Instruction::Drw { x: 0, y: 0, n: 3 }, 0),
        Err(Chip8Error::AddressOutOfBounds)
    );
}

#[test]
fn delay_timer_ticks_on_tenth_cycle() {
    let program: Vec<u8> = [0x60u8, 0x00].repeat(20);
    let mut e = with_program(&program);
    e.registers.dt = 5;
    for _ in 0..9 {
        e.cycle(0).unwrap();
        assert_eq!(e.registers.dt, 5);
    }
    e.cycle(0).unwrap();
    assert_eq!(e.registers.dt, 4);
}

#[test]
fn sound_timer_ticks_with_delay_timer() {
    let program: Vec<u8> = [0x60u8, 0x00].repeat(30);
    let mut e = with_program(&program);
    e.registers.st = 1;
    e.registers.dt = 0;
    for _ in 0..10 {
        e.cycle(0).unwrap();
    }
    assert_eq!(e.registers.st, 0);
    assert_eq!(e.registers.dt, 0);
    for _ in 0..10 {
        e.cycle(0).unwrap();
    }
    assert_eq!(e.registers.st, 0);
}

#[test]
fn jump_lands_on_target() {
    let mut e = Emulator::new();
    e.execute(Instruction::Jp { nnn: 0x300 }, 0).unwrap();
    assert_eq!(e.registers.pc, 0x300);
    e.registers.pc = 0x0;
    e.execute(Instruction::Jp { nnn: 0x300 }, 0).unwrap();
    assert_eq!(e.registers.pc, 0x300);
    e.registers.pc = 0xFFE;
    e.execute(Instruction::Jp { nnn: 0x300 }, 0).unwrap();
    assert_eq!(e.registers.pc, 0x300);
}

#[test]
fn jump_from_fetched_opcode() {
    let mut e = with_program(&[0x13, 0x00]);
    e.cycle(0).unwrap();
    assert_eq!(e.registers.pc, 0x300);
}

#[test]
fn call_and_return() {
    let mut e = Emulator::new();
    e.execute(Instruction::Call { nnn: 0x400 }, 0).unwrap();
    assert_eq!(e.registers.pc, 0x400);
    assert_eq!(e.registers.sp, 1);
    e.execute(Instruction::Ret, 0).unwrap();
    assert_eq!(e.registers.pc, 0x202);
    assert_eq!(e.registers.sp, 0);
    assert_eq!(e.execute(Instruction::Ret, 0), Err(Chip8Error::StackUnderflow));
}

#[test]
fn seventeenth_call_overflows() {
    let mut e = Emulator::new();
    for _ in 0..16 {
        e.execute(Instruction::Call { nnn: 0x200 }, 0).unwrap();
    }
    assert_eq!(
        e.execute(Instruction::Call { nnn: 0x200 }, 0),
        Err(Chip8Error::StackOverflow)
    );
}

#[test]
fn indexed_jump_adds_v0() {
    let mut e = Emulator::new();
    e.registers.v0 = 0x10;
    e.execute(Instruction::JpV0 { nnn: 0x300 }, 0).unwrap();
    assert_eq!(e.registers.pc, 0x310);
}

#[test]
fn conditional_skips() {
    let mut e = Emulator::new();
    e.registers.v3 = 7;
    e.execute(Instruction::SeByte { x: 3, kk: 7 }, 0).unwrap();
    assert_eq!(e.registers.pc, 0x204);
    e.execute(Instruction::SneByte { x: 3, kk: 7 }, 0).unwrap();
    assert_eq!(e.registers.pc, 0x206);
    e.execute(Instruction::SeReg { x: 3, y: 4 }, 0).unwrap();
    assert_eq!(e.registers.pc, 0x208);
    e.execute(Instruction::SneReg { x: 3, y: 4 }, 0).unwrap();
    assert_eq!(e.registers.pc, 0x20C);
}

#[test]
fn key_skips_follow_latch() {
    let mut e = Emulator::new();
    e.registers.v2 = 0xB;
    e.execute(Instruction::Skp { x: 2 }, 0).unwrap();
    assert_eq!(e.registers.pc, 0x202);
    e.input.set(0xB, true);
    e.execute(Instruction::Skp { x: 2 }, 0).unwrap();
    assert_eq!(e.registers.pc, 0x206);
    e.execute(Instruction::Sknp { x: 2 }, 0).unwrap();
    assert_eq!(e.registers.pc, 0x208);
    e.input.set(0xB, false);
    e.execute(Instruction::Sknp { x: 2 }, 0).unwrap();
    assert_eq!(e.registers.pc, 0x20C);
}

#[test]
fn key_wait_repeats_until_pressed() {
    let mut e = with_program(&[0xF5, 0x0A]);
    e.cycle(0).unwrap();
    assert_eq!(e.registers.pc, 0x200);
    e.cycle(0).unwrap();
    assert_eq!(e.registers.pc, 0x200);
    assert_eq!(e.tick_cnt, 2);
    e.input.set(7, true);
    e.cycle(0).unwrap();
    assert_eq!(e.registers.pc, 0x202);
    assert_eq!(e.registers.v5, 7);
}

#[test]
fn random_byte_is_masked() {
    let mut e = Emulator::new();
    e.execute(Instruction::Rnd { x: 4, kk: 0x0F }, 0xAB).unwrap();
    assert_eq!(e.registers.v4, 0x0B);
    let mut e = with_program(&[0xC4, 0x0F]);
    e.step().unwrap();
    assert!(e.registers.v4 < 0x10);
    assert_eq!(e.registers.pc, 0x202);
}

#[test]
fn timers_and_index_register() {
    let mut e = Emulator::new();
    e.registers.v1 = 9;
    e.execute(Instruction::LdDtVx { x: 1 }, 0).unwrap();
    e.execute(Instruction::LdStVx { x: 1 }, 0).unwrap();
    assert_eq!((e.registers.dt, e.registers.st), (9, 9));
    e.registers.dt = 3;
    e.execute(Instruction::LdVxDt { x: 2 }, 0).unwrap();
    assert_eq!(e.registers.v2, 3);
    e.execute(Instruction::LdI { nnn: 0xFFF }, 0).unwrap();
    e.execute(Instruction::AddI { x: 1 }, 0).unwrap();
    assert_eq!(e.registers.i, 0x1008);
    e.registers.i = 0xFFFF;
    e.execute(Instruction::AddI { x: 1 }, 0).unwrap();
    assert_eq!(e.registers.i, 8);
    e.registers.v1 = 0xF;
    e.execute(Instruction::LdFont { x: 1 }, 0).unwrap();
    assert_eq!(e.registers.i, 75);
}

#[test]
fn bcd_and_register_transfers() {
    let mut e = Emulator::new();
    e.registers.v0 = 234;
    e.registers.v1 = 5;
    e.registers.v2 = 77;
    e.registers.i = 0x300;
    e.execute(Instruction::LdBcd { x: 0 }, 0).unwrap();
    assert_eq!(e.memory.read(0x300), Ok(2));
    assert_eq!(e.memory.read(0x301), Ok(3));
    assert_eq!(e.memory.read(0x302), Ok(4));
    e.registers.i = 0x400;
    e.execute(Instruction::StoreRegs { x: 1 }, 0).unwrap();
    assert_eq!(e.memory.read(0x400), Ok(234));
    assert_eq!(e.memory.read(0x401), Ok(5));
    assert_eq!(e.memory.read(0x402), Ok(0));
    e.registers.i = 0x300;
    e.execute(Instruction::LoadRegs { x: 2 }, 0).unwrap();
    assert_eq!((e.registers.v0, e.registers.v1, e.registers.v2), (2, 3, 4));
    e.registers.i = 4094;
    assert_eq!(e.execute(Instruction::LdBcd { x: 0 }, 0), Err(Chip8Error::AddressOutOfBounds));
    assert_eq!(e.execute(Instruction::StoreRegs { x: 2 }, 0), Err(Chip8Error::AddressOutOfBounds));
    assert_eq!(e.execute(Instruction::LoadRegs { x: 2 }, 0), Err(Chip8Error::AddressOutOfBounds));
}

#[test]
fn cycle_reports_fatal_conditions() {
    let mut e = Emulator::new();
    assert_eq!(e.cycle(0), Err(Chip8Error::UnknownOpcode));
    assert_eq!(e.execute_instruction(0x5123, 0), Ok(()));
    assert_eq!(e.execute_instruction(0xE1FF, 0), Err(Chip8Error::UnknownOpcode));
    e.registers.pc = 4095;
    assert_eq!(e.cycle(0), Err(Chip8Error::AddressOutOfBounds));
}

#[test]
fn self_modifying_code_sees_latest_write() {
    // V0 = 0x13, I = 0x206, store V0 at 0x206, then run what was stored.
    let mut e = with_program(&[0x60, 0x13, 0xA2, 0x06, 0xF0, 0x55, 0x00, 0x00]);
    e.registers.v1 = 0;
    for _ in 0..3 {
        e.cycle(0).unwrap();
    }
    assert_eq!(e.memory.read_inst(0x206), Ok(0x1300));
    e.cycle(0).unwrap();
    assert_eq!(e.registers.pc, 0x300);
}

#[test]
fn new_emulator_state_is_zeroed() {
    let e = Emulator::new();
    assert_eq!(e.memory.stack, [0u16; 16]);
    assert_eq!(e.memory.sp, usize::MAX);
    assert_eq!(e.registers.pc, 0x200);
    assert_eq!(e.tick_cnt, 0);
    assert!(e.input.input.iter().all(|&k| k == 0));
    assert!(e.display.memory.iter().all(|&p| p == 0));
}
