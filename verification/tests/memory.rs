use chip8::cpu::CPU;
use chip8::fault::{Fault, FaultKind, Step};

fn machine() -> CPU {
    CPU::new(&[]).unwrap()
}

#[test]
fn decimal_digits_of_every_byte() {
    let mut cpu = machine();
    cpu.ld_i(0x300);
    for v in 0u16..256 {
        cpu.ld(1, v as u8);
        assert_eq!(cpu.ld_b(1), Ok(()));
        assert_eq!(u16::from(cpu.memory(0x300)), v / 100);
        assert_eq!(u16::from(cpu.memory(0x301)), (v / 10) % 10);
        assert_eq!(u16::from(cpu.memory(0x302)), v % 10);
    }
}

#[test]
fn decimal_digits_exact() {
    let mut cpu = machine();
    cpu.ld_i(0x400);
    cpu.ld(7, 234);
    assert_eq!(cpu.ld_b(7), Ok(()));
    assert_eq!(cpu.memory(0x400), 2);
    assert_eq!(cpu.memory(0x401), 3);
    assert_eq!(cpu.memory(0x402), 4);
    assert_eq!(cpu.memory(0x403), 0);
    assert_eq!(cpu.index_register(), 0x400);
}

#[test]
fn decimal_store_at_the_end_of_memory() {
    let mut cpu = machine();
    cpu.ld(1, 109);
    cpu.ld_i(0xFFD);
    assert_eq!(cpu.ld_b(1), Ok(()));
    assert_eq!(cpu.memory(0xFFD), 1);
    assert_eq!(cpu.memory(0xFFE), 0);
    assert_eq!(cpu.memory(0xFFF), 9);
    cpu.ld(1, 255);
    cpu.ld_i(0xFFE);
    assert_eq!(cpu.ld_b(1), Err(FaultKind::MemoryOutOfBounds));
    assert_eq!(cpu.memory(0xFFE), 0);
    assert_eq!(cpu.memory(0xFFF), 9);
    cpu.ld_i(0xFFFF);
    assert_eq!(cpu.ld_b(1), Err(FaultKind::MemoryOutOfBounds));
}

#[test]
fn registers_go_to_memory_inclusive_of_x() {
    let mut cpu = machine();
    for x in 0..16u8 {
        cpu.ld(x, 0x10 + x);
    }
    cpu.ld_i(0x300);
    assert_eq!(cpu.ld_vx_to_i(3), Ok(()));
    assert_eq!(cpu.memory(0x2FF), 0);
    assert_eq!(cpu.memory(0x300), 0x10);
    assert_eq!(cpu.memory(0x301), 0x11);
    assert_eq!(cpu.memory(0x302), 0x12);
    assert_eq!(cpu.memory(0x303), 0x13);
    assert_eq!(cpu.memory(0x304), 0);
    assert_eq!(cpu.index_register(), 0x300);
    assert_eq!(cpu.ld_vx_to_i(0), Ok(()));
    assert_eq!(cpu.ld_vx_to_i(15), Ok(()));
    for x in 0..16u16 {
        assert_eq!(u16::from(cpu.memory(0x300 + x)), 0x10 + x);
    }
    assert_eq!(cpu.memory(0x310), 0);
}

#[test]
fn registers_come_from_memory_inclusive_of_x() {
    let rom: Vec<u8> = (1..=16).collect();
    let mut cpu = CPU::new(&rom).unwrap();
    cpu.ld_i(0x200);
    cpu.ld(5, 0xEE);
    assert_eq!(cpu.ld_i_to_vx(4), Ok(()));
    for x in 0..5u8 {
        assert_eq!(cpu.register(x), x + 1);
    }
    assert_eq!(cpu.register(5), 0xEE);
    assert_eq!(cpu.register(6), 0);
    assert_eq!(cpu.index_register(), 0x200);
    assert_eq!(cpu.ld_i_to_vx(15), Ok(()));
    for x in 0..16u8 {
        assert_eq!(cpu.register(x), x + 1);
    }
}

#[test]
fn register_transfers_beyond_memory_are_faults() {
    let mut cpu = machine();
    cpu.ld(0, 1);
    cpu.ld(1, 2);
    cpu.ld_i(0xFFF);
    assert_eq!(cpu.ld_vx_to_i(0), Ok(()));
    assert_eq!(cpu.memory(0xFFF), 1);
    assert_eq!(cpu.ld_vx_to_i(1), Err(FaultKind::MemoryOutOfBounds));
    assert_eq!(cpu.memory(0xFFF), 1);
    assert_eq!(cpu.ld_i_to_vx(1), Err(FaultKind::MemoryOutOfBounds));
    assert_eq!(cpu.register(0), 1);
    assert_eq!(cpu.register(1), 2);
    cpu.ld_i(0x1000);
    assert_eq!(cpu.ld_vx_to_i(0), Err(FaultKind::MemoryOutOfBounds));
    assert_eq!(cpu.ld_i_to_vx(0), Err(FaultKind::MemoryOutOfBounds));
}

#[test]
fn step_reports_a_store_beyond_memory() {
    // I = 0xFFF; store V0..=V1
    let rom = [0xAF, 0xFF, 0xF1, 0x55];
    let mut cpu = CPU::new(&rom).unwrap();
    let keys = [false; 16];
    assert_eq!(cpu.step(false, keys, 0), Ok(Step::Executed));
    assert_eq!(
        cpu.step(false, keys, 0),
        Err(Fault { kind: FaultKind::MemoryOutOfBounds, opcode: 0xF155, pc: 0x202 })
    );
}

#[test]
fn glyph_address_is_five_times_the_digit() {
    let mut cpu = machine();
    for digit in 0..16u8 {
        cpu.ld(1, digit);
        assert_eq!(cpu.ld_f(1), Ok(()));
        assert_eq!(cpu.index_register(), u16::from(digit) * 5);
    }
}

#[test]
fn glyph_of_a_value_that_is_no_digit_is_a_fault() {
    let mut cpu = machine();
    cpu.ld_i(0x123);
    cpu.ld(1, 16);
    assert_eq!(cpu.ld_f(1), Err(FaultKind::DigitOutOfRange));
    assert_eq!(cpu.index_register(), 0x123);
    cpu.ld(1, 255);
    assert_eq!(cpu.ld_f(1), Err(FaultKind::DigitOutOfRange));
}

#[test]
fn index_addition_wraps_at_sixteen_bits() {
    let mut cpu = machine();
    cpu.ld_i(0x0FFF);
    cpu.ld(1, 0xFF);
    cpu.ld(0xF, 5);
    cpu.add_i(1);
    assert_eq!(cpu.index_register(), 0x10FE);
    assert_eq!(cpu.register(0xF), 5);
    cpu.ld_i(0xFFFF);
    cpu.ld(1, 2);
    cpu.add_i(1);
    assert_eq!(cpu.index_register(), 0x0001);
    assert_eq!(cpu.register(0xF), 5);
}

#[test]
fn timers_load_and_read_back() {
    let mut cpu = machine();
    cpu.ld(1, 77);
    cpu.ld_dt(1);
    cpu.ld(1, 33);
    cpu.ld_st(1);
    assert_eq!(cpu.delay_timer(), 77);
    assert_eq!(cpu.sound_timer(), 33);
    cpu.ld_x_dt(2);
    assert_eq!(cpu.register(2), 77);
}

#[test]
fn read_opcode_is_big_endian() {
    let rom = [0xAB, 0xCD];
    let cpu = CPU::new(&rom).unwrap();
    assert_eq!(cpu.read_opcode(), 0xABCD);
}
