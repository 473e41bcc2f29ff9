use chip8::cpu::CPU;
use chip8::fault::{Fault, FaultKind, Step};
use chip8::font::FONT_DATA;

fn machine() -> CPU {
    CPU::new(&[]).unwrap()
}

/// Bit `col` of `row`, the leftmost first.
fn bit(row: u8, col: usize) -> bool {
    (row >> (7 - col)) & 1 == 1
}

fn lit_pixels(cpu: &CPU) -> usize {
    let mut count: usize = 0;
    for y in 0..32 {
        for x in 0..64 {
            if cpu.pixel(x, y) {
                count += 1;
            }
        }
    }
    count
}

#[test]
fn draws_the_zero_glyph_bit_for_bit() {
    // clear; draw five rows from I = 0 at (V0, V1) = (0, 0)
    let rom = [0x00, 0xE0, 0xD0, 0x15];
    let mut cpu = CPU::new(&rom).unwrap();
    let keys = [false; 16];
    assert_eq!(cpu.step(false, keys, 0), Ok(Step::Executed));
    assert_eq!(cpu.step(false, keys, 0), Ok(Step::Executed));
    let glyph = [0xF0u8, 0x90, 0x90, 0x90, 0xF0];
    for y in 0..32 {
        for x in 0..64 {
            let expected = y < 5 && x < 8 && bit(glyph[y], x);
            assert_eq!(cpu.pixel(x, y), expected, "pixel ({}, {})", x, y);
        }
    }
    assert_eq!(cpu.register(0xF), 0);
    assert_eq!(cpu.program_counter(), 0x204);
}

#[test]
fn draws_two_rows_of_the_zero_glyph() {
    let rom = [0x00, 0xE0, 0xD0, 0x12];
    let mut cpu = CPU::new(&rom).unwrap();
    let keys = [false; 16];
    assert_eq!(cpu.step(false, keys, 0), Ok(Step::Executed));
    assert_eq!(cpu.step(false, keys, 0), Ok(Step::Executed));
    let fb = cpu.framebuffer();
    for x in 0..64 {
        assert_eq!(fb[0][x], x < 4);
        assert_eq!(fb[1][x], x == 0 || x == 3);
        assert!(!fb[2][x]);
        assert!(!fb[3][x]);
        assert!(!fb[4][x]);
    }
    assert_eq!(cpu.register(0xF), 0);
}

#[test]
fn every_glyph_draws_as_the_font_says() {
    for digit in 0..16u8 {
        let mut cpu = machine();
        cpu.ld(0, digit);
        assert_eq!(cpu.ld_f(0), Ok(()));
        cpu.ld(1, 10);
        cpu.ld(2, 20);
        assert_eq!(cpu.drw(1, 2, 5), Ok(()));
        for row in 0..5usize {
            for col in 0..8usize {
                let byte = FONT_DATA[usize::from(digit) * 5 + row];
                assert_eq!(cpu.pixel(10 + col, 20 + row), bit(byte, col));
            }
        }
    }
}

#[test]
fn drawing_twice_restores_the_display() {
    let mut cpu = machine();
    // something on the screen first: glyph 8 at (2, 1)
    cpu.ld(0, 8);
    assert_eq!(cpu.ld_f(0), Ok(()));
    cpu.ld(1, 2);
    cpu.ld(2, 1);
    assert_eq!(cpu.drw(1, 2, 5), Ok(()));
    let before = *cpu.framebuffer();
    // glyph 3 at (4, 3), overlapping it, twice
    cpu.ld(0, 3);
    assert_eq!(cpu.ld_f(0), Ok(()));
    cpu.ld(1, 4);
    cpu.ld(2, 3);
    assert_eq!(cpu.drw(1, 2, 5), Ok(()));
    assert_ne!(*cpu.framebuffer(), before);
    assert_eq!(cpu.drw(1, 2, 5), Ok(()));
    assert_eq!(*cpu.framebuffer(), before);
}

#[test]
fn second_draw_on_a_blank_screen_collides_and_erases() {
    let mut cpu = machine();
    cpu.ld(1, 0);
    cpu.ld(2, 0);
    assert_eq!(cpu.drw(1, 2, 5), Ok(()));
    assert_eq!(cpu.register(0xF), 0);
    assert_eq!(lit_pixels(&cpu), 14);
    assert_eq!(cpu.drw(1, 2, 5), Ok(()));
    assert_eq!(cpu.register(0xF), 1);
    assert_eq!(lit_pixels(&cpu), 0);
}

#[test]
fn second_draw_leaves_the_flag_clear_when_the_sprite_fell_on_lit_pixels() {
    let mut cpu = machine();
    // light the pixels of glyph 8 (F0 90 F0 90 F0) at (0, 0)
    cpu.ld(0, 8);
    assert_eq!(cpu.ld_f(0), Ok(()));
    cpu.ld(1, 0);
    cpu.ld(2, 0);
    assert_eq!(cpu.drw(1, 2, 5), Ok(()));
    let before = *cpu.framebuffer();
    // glyph 0 (F0 90 90 90 F0) lights a subset of them
    cpu.ld(0, 0);
    assert_eq!(cpu.ld_f(0), Ok(()));
    assert_eq!(cpu.drw(1, 2, 5), Ok(()));
    assert_eq!(cpu.register(0xF), 1);
    assert_eq!(lit_pixels(&cpu), 2);
    assert_eq!(cpu.drw(1, 2, 5), Ok(()));
    assert_eq!(cpu.register(0xF), 0);
    assert_eq!(*cpu.framebuffer(), before);
}

#[test]
fn collision_flag_is_one_however_many_pixels_collide() {
    let mut one = machine();
    one.ld(1, 0);
    one.ld(2, 0);
    assert_eq!(one.drw(1, 2, 1), Ok(()));
    // shifted by three columns: exactly one pixel overlaps
    one.ld(1, 3);
    assert_eq!(one.drw(1, 2, 1), Ok(()));
    assert_eq!(one.register(0xF), 1);

    let mut many = machine();
    many.ld(1, 0);
    many.ld(2, 0);
    assert_eq!(many.drw(1, 2, 5), Ok(()));
    assert_eq!(many.drw(1, 2, 5), Ok(()));
    assert_eq!(many.register(0xF), 1);
}

#[test]
fn draw_without_overlap_clears_a_stale_flag() {
    let mut cpu = machine();
    cpu.ld(0xF, 1);
    cpu.ld(1, 5);
    cpu.ld(2, 5);
    assert_eq!(cpu.drw(1, 2, 5), Ok(()));
    assert_eq!(cpu.register(0xF), 0);
}

#[test]
fn draw_of_no_rows_clears_the_flag_and_the_display_stays() {
    let mut cpu = machine();
    cpu.ld(0xF, 1);
    cpu.ld_i(0xFFFF);
    assert_eq!(cpu.drw(1, 2, 0), Ok(()));
    assert_eq!(cpu.register(0xF), 0);
    assert_eq!(lit_pixels(&cpu), 0);
}

#[test]
fn pixels_wrap_around_both_edges_each_by_itself() {
    let mut cpu = machine();
    cpu.ld(1, 62);
    cpu.ld(2, 30);
    assert_eq!(cpu.drw(1, 2, 5), Ok(()));
    let glyph = [0xF0u8, 0x90, 0x90, 0x90, 0xF0];
    for row in 0..5usize {
        for col in 0..8usize {
            assert_eq!(cpu.pixel((62 + col) % 64, (30 + row) % 32), bit(glyph[row], col));
        }
    }
    assert!(cpu.pixel(62, 30));
    assert!(cpu.pixel(63, 30));
    assert!(cpu.pixel(0, 30));
    assert!(cpu.pixel(1, 30));
    assert!(cpu.pixel(62, 0));
    assert!(!cpu.pixel(63, 0));
    assert!(cpu.pixel(1, 2));
    assert_eq!(lit_pixels(&cpu), 14);
}

#[test]
fn coordinates_above_the_screen_size_wrap() {
    let mut cpu = machine();
    cpu.ld(1, 64 + 3);
    cpu.ld(2, 224 + 2);
    assert_eq!(cpu.drw(1, 2, 1), Ok(()));
    for x in 0..64 {
        assert_eq!(cpu.pixel(x, 2), (3..7).contains(&x));
    }
    assert_eq!(lit_pixels(&cpu), 4);
}

#[test]
fn draw_beyond_memory_is_a_fault_and_changes_nothing() {
    let mut cpu = machine();
    cpu.ld(0xF, 1);
    cpu.ld_i(0xFFE);
    assert_eq!(cpu.drw(1, 2, 3), Err(FaultKind::MemoryOutOfBounds));
    assert_eq!(cpu.register(0xF), 1);
    assert_eq!(lit_pixels(&cpu), 0);
    assert_eq!(cpu.drw(1, 2, 2), Ok(()));
    assert_eq!(cpu.register(0xF), 0);
}

#[test]
fn step_reports_a_draw_beyond_memory() {
    // I = 0xFFF; draw 2 rows
    let rom = [0xAF, 0xFF, 0xD0, 0x12];
    let mut cpu = CPU::new(&rom).unwrap();
    let keys = [false; 16];
    assert_eq!(cpu.step(false, keys, 0), Ok(Step::Executed));
    assert_eq!(
        cpu.step(false, keys, 0),
        Err(Fault { kind: FaultKind::MemoryOutOfBounds, opcode: 0xD012, pc: 0x202 })
    );
}

#[test]
fn draw_from_the_flag_register_uses_its_value_at_the_start() {
    let mut cpu = machine();
    cpu.ld(0xF, 9);
    cpu.ld(2, 4);
    assert_eq!(cpu.drw(0xF, 2, 1), Ok(()));
    for x in 0..64 {
        assert_eq!(cpu.pixel(x, 4), (9..13).contains(&x));
    }
    assert_eq!(cpu.register(0xF), 0);
}

#[test]
fn clear_turns_every_pixel_off() {
    let mut cpu = machine();
    cpu.ld(1, 7);
    cpu.ld(2, 9);
    assert_eq!(cpu.drw(1, 2, 5), Ok(()));
    assert_eq!(lit_pixels(&cpu), 14);
    cpu.cls();
    assert_eq!(lit_pixels(&cpu), 0);
    assert_eq!(*cpu.framebuffer(), [[false; 64]; 32]);
}
