use chip8::error::Chip8Error;
use chip8::memory::{Memory, EMPTY_STACK};

#[test]
fn new_memory_holds_font_and_empty_stack() {
    let m = Memory::new();
    assert_eq!(m.read(0), Ok(0xF0));
    assert_eq!(m.read(5), Ok(0x20));
    assert_eq!(m.read(79), Ok(0x80));
    assert_eq!(m.read(80), Ok(0));
    assert_eq!(m.read(0x200), Ok(0));
    assert_eq!(m.sp, EMPTY_STACK);
}

#[test]
fn read_and_write_round_trip() {
    let mut m = Memory::new();
    assert_eq!(m.write(0x300, 0xAB), Ok(()));
    assert_eq!(m.read(0x300), Ok(0xAB));
    assert_eq!(m.write(4095, 7), Ok(()));
    assert_eq!(m.read(4095), Ok(7));
}

#[test]
fn out_of_range_access_fails() {
    let mut m = Memory::new();
    assert_eq!(m.read(4096), Err(Chip8Error::AddressOutOfBounds));
    assert_eq!(m.write(4096, 1), Err(Chip8Error::AddressOutOfBounds));
    assert_eq!(m.read_inst(4095), Err(Chip8Error::AddressOutOfBounds));
    assert_eq!(m.read_inst(4096), Err(Chip8Error::AddressOutOfBounds));
}

#[test]
fn read_inst_is_big_endian() {
    let mut m = Memory::new();
    m.write(0x200, 0x12).unwrap();
    m.write(0x201, 0x34).unwrap();
    assert_eq!(m.read_inst(0x200), Ok(0x1234));
    assert_eq!(m.read_inst(4094), Ok(0));
}

#[test]
fn load_then_fetch_first_word() {
    let mut m = Memory::new();
    assert_eq!(m.load(&[0xA2, 0xF0, 0x60, 0x0C]), Ok(()));
    assert_eq!(m.read_inst(0x200), Ok(0xA2F0));
    assert_eq!(m.read_inst(0x202), Ok(0x600C));
    assert_eq!(m.read(0x204), Ok(0));
}

#[test]
fn load_fills_program_region_exactly() {
    let mut m = Memory::new();
    let image = vec![0x55u8; 3584];
    assert_eq!(m.load(&image), Ok(()));
    assert_eq!(m.read(0x1FF), Ok(0));
    assert_eq!(m.read(0x200), Ok(0x55));
    assert_eq!(m.read(4095), Ok(0x55));
}

#[test]
fn load_too_large_fails() {
    let mut m = Memory::new();
    let image = vec![1u8; 3585];
    assert_eq!(m.load(&image), Err(Chip8Error::RomTooLarge));
    assert_eq!(m.read(0x200), Ok(0));
}

#[test]
fn push_then_pop_returns_value() {
    let mut m = Memory::new();
    assert_eq!(m.push(0x234), Ok(()));
    assert_eq!(m.push(0x456), Ok(()));
    assert_eq!(m.pop(), Ok(0x456));
    assert_eq!(m.pop(), Ok(0x234));
    assert_eq!(m.sp, EMPTY_STACK);
}

#[test]
fn seventeenth_push_overflows() {
    let mut m = Memory::new();
    for k in 0..16u16 {
        assert_eq!(m.push(k), Ok(()));
    }
    assert_eq!(m.push(99), Err(Chip8Error::StackOverflow));
    assert_eq!(m.pop(), Ok(15));
}

#[test]
fn pop_from_empty_underflows() {
    let mut m = Memory::new();
    assert_eq!(m.pop(), Err(Chip8Error::StackUnderflow));
    m.push(1).unwrap();
    m.pop().unwrap();
    assert_eq!(m.pop(), Err(Chip8Error::StackUnderflow));
}

#[test]
fn stack_slots_start_zero_and_pop_keeps_them() {
    let mut m = Memory::new();
    assert_eq!(m.stack, [0u16; 16]);
    m.push(0x222).unwrap();
    m.push(0x333).unwrap();
    assert_eq!(m.pop(), Ok(0x333));
    assert_eq!(m.stack[0], 0x222);
    assert_eq!(m.stack[1], 0x333);
    assert_eq!(m.stack[2], 0);
}
