use chip8::cpu::CPU;
use chip8::fault::{Fault, FaultKind, Step};

fn machine() -> CPU {
    CPU::new(&[]).unwrap()
}

#[test]
fn sixteen_calls_succeed_and_the_seventeenth_overflows() {
    let mut cpu = machine();
    for depth in 0..16u16 {
        assert_eq!(cpu.stack_depth(), usize::from(depth));
        assert_eq!(cpu.call(0x300 + depth), Ok(()));
        assert_eq!(cpu.program_counter(), 0x300 + depth);
    }
    assert_eq!(cpu.stack_depth(), 16);
    assert_eq!(cpu.call(0x400), Err(FaultKind::StackOverflow));
    assert_eq!(cpu.stack_depth(), 16);
    assert_eq!(cpu.program_counter(), 0x30F);
}

#[test]
fn return_on_an_empty_stack_underflows() {
    let mut cpu = machine();
    assert_eq!(cpu.ret(), Err(FaultKind::StackUnderflow));
    assert_eq!(cpu.program_counter(), 0x200);
    assert_eq!(cpu.stack_depth(), 0);
}

#[test]
fn returns_come_back_in_reverse_order() {
    let mut cpu = machine();
    assert_eq!(cpu.call(0x300), Ok(()));
    assert_eq!(cpu.call(0x400), Ok(()));
    assert_eq!(cpu.call(0x500), Ok(()));
    assert_eq!(cpu.ret(), Ok(()));
    assert_eq!(cpu.program_counter(), 0x400);
    assert_eq!(cpu.ret(), Ok(()));
    assert_eq!(cpu.program_counter(), 0x300);
    assert_eq!(cpu.ret(), Ok(()));
    assert_eq!(cpu.program_counter(), 0x200);
    assert_eq!(cpu.ret(), Err(FaultKind::StackUnderflow));
}

#[test]
fn call_word_pushes_the_address_after_it() {
    // 0x200: call 0x206; 0x202: ld v1, 1; ...; 0x206: ret
    let rom = [0x22, 0x06, 0x61, 0x01, 0x00, 0x00, 0x00, 0xEE];
    let mut cpu = CPU::new(&rom).unwrap();
    let keys = [false; 16];
    assert_eq!(cpu.step(false, keys, 0), Ok(Step::Executed));
    assert_eq!(cpu.program_counter(), 0x206);
    assert_eq!(cpu.stack_depth(), 1);
    assert_eq!(cpu.step(false, keys, 0), Ok(Step::Executed));
    assert_eq!(cpu.program_counter(), 0x202);
    assert_eq!(cpu.stack_depth(), 0);
    assert_eq!(cpu.step(false, keys, 0), Ok(Step::Executed));
    assert_eq!(cpu.register(1), 1);
}

#[test]
fn step_reports_overflow_with_word_and_address() {
    // a subroutine that calls itself
    let rom = [0x22, 0x00];
    let mut cpu = CPU::new(&rom).unwrap();
    let keys = [false; 16];
    for _ in 0..16 {
        assert_eq!(cpu.step(false, keys, 0), Ok(Step::Executed));
    }
    assert_eq!(
        cpu.step(false, keys, 0),
        Err(Fault { kind: FaultKind::StackOverflow, opcode: 0x2200, pc: 0x200 })
    );
    assert_eq!(cpu.stack_depth(), 16);
    assert_eq!(cpu.program_counter(), 0x202);
}

#[test]
fn step_reports_underflow_with_word_and_address() {
    let rom = [0x00, 0xEE];
    let mut cpu = CPU::new(&rom).unwrap();
    assert_eq!(
        cpu.step(false, [false; 16], 0),
        Err(Fault { kind: FaultKind::StackUnderflow, opcode: 0x00EE, pc: 0x200 })
    );
    assert_eq!(cpu.program_counter(), 0x202);
}
