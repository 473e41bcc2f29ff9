use chip8::instruction::{decode, Instruction};

#[test]
fn decodes_the_two_words_of_class_zero() {
    assert_eq!(decode(0x00E0), Instruction::Cls);
    assert_eq!(decode(0x00EE), Instruction::Ret);
}

#[test]
fn other_words_of_class_zero_are_unsupported() {
    assert_eq!(decode(0x0000), Instruction::Unsupported(0x0000));
    assert_eq!(decode(0x00E1), Instruction::Unsupported(0x00E1));
    assert_eq!(decode(0x0123), Instruction::Unsupported(0x0123));
    assert_eq!(decode(0x0FFF), Instruction::Unsupported(0x0FFF));
}

#[test]
fn decodes_jumps_and_calls() {
    assert_eq!(decode(0x1000), Instruction::Jp(0x000));
    assert_eq!(decode(0x1ABC), Instruction::Jp(0xABC));
    assert_eq!(decode(0x1FFF), Instruction::Jp(0xFFF));
    assert_eq!(decode(0x2345), Instruction::Call(0x345));
    assert_eq!(decode(0xB123), Instruction::Jp0(0x123));
    assert_eq!(decode(0xA7FE), Instruction::LdI(0x7FE));
}

#[test]
fn decodes_immediate_forms() {
    assert_eq!(decode(0x3A42), Instruction::Se(0xA, 0x42));
    assert_eq!(decode(0x4B01), Instruction::Sne(0xB, 0x01));
    assert_eq!(decode(0x6205), Instruction::Ld(2, 5));
    assert_eq!(decode(0x7EFF), Instruction::Add(0xE, 0xFF));
    assert_eq!(decode(0xC30F), Instruction::Rnd(3, 0x0F));
}

#[test]
fn decodes_register_pair_forms() {
    assert_eq!(decode(0x5120), Instruction::SeXy(1, 2));
    assert_eq!(decode(0x9AB0), Instruction::SneXy(0xA, 0xB));
    assert_eq!(decode(0x8230), Instruction::LdXy(2, 3));
    assert_eq!(decode(0x8231), Instruction::OrXy(2, 3));
    assert_eq!(decode(0x8232), Instruction::AndXy(2, 3));
    assert_eq!(decode(0x8233), Instruction::XorXy(2, 3));
    assert_eq!(decode(0x8234), Instruction::AddXy(2, 3));
    assert_eq!(decode(0x8235), Instruction::SubXy(2, 3));
    assert_eq!(decode(0x8237), Instruction::SubnXy(2, 3));
    assert_eq!(decode(0xD012), Instruction::Drw(0, 1, 2));
    assert_eq!(decode(0xDABF), Instruction::Drw(0xA, 0xB, 0xF));
}

#[test]
fn shifts_ignore_the_y_field() {
    for y in 0u16..16 {
        assert_eq!(decode(0x8306 | (y << 4)), Instruction::ShrX(3));
        assert_eq!(decode(0x830E | (y << 4)), Instruction::ShlX(3));
    }
}

#[test]
fn skip_on_registers_needs_a_zero_low_nibble() {
    assert_eq!(decode(0x5121), Instruction::Unsupported(0x5121));
    assert_eq!(decode(0x5FFF), Instruction::Unsupported(0x5FFF));
    assert_eq!(decode(0x9AB1), Instruction::Unsupported(0x9AB1));
    assert_eq!(decode(0x9FFF), Instruction::Unsupported(0x9FFF));
}

#[test]
fn unknown_minor_keys_of_class_eight_are_unsupported() {
    for n in [0x8u16, 0x9, 0xA, 0xB, 0xC, 0xD, 0xF] {
        let word = 0x8120 | n;
        assert_eq!(decode(word), Instruction::Unsupported(word));
    }
}

#[test]
fn decodes_key_forms() {
    assert_eq!(decode(0xE59E), Instruction::Skp(5));
    assert_eq!(decode(0xE5A1), Instruction::Sknp(5));
    assert_eq!(decode(0xE500), Instruction::Unsupported(0xE500));
    assert_eq!(decode(0xE59F), Instruction::Unsupported(0xE59F));
}

#[test]
fn decodes_class_f() {
    assert_eq!(decode(0xF107), Instruction::LdXDt(1));
    assert_eq!(decode(0xF30A), Instruction::LdK(3));
    assert_eq!(decode(0xF215), Instruction::LdDt(2));
    assert_eq!(decode(0xF418), Instruction::LdSt(4));
    assert_eq!(decode(0xF51E), Instruction::AddI(5));
    assert_eq!(decode(0xF629), Instruction::LdF(6));
    assert_eq!(decode(0xF733), Instruction::LdB(7));
    assert_eq!(decode(0xF855), Instruction::LdVxToI(8));
    assert_eq!(decode(0xF965), Instruction::LdIToVx(9));
    assert_eq!(decode(0xF000), Instruction::Unsupported(0xF000));
    assert_eq!(decode(0xF1FF), Instruction::Unsupported(0xF1FF));
}

#[test]
fn every_word_decodes_to_operands_within_their_fields() {
    for word in 0u16..=0xFFFF {
        let ok = match decode(word) {
            Instruction::Cls | Instruction::Ret => true,
            Instruction::Unsupported(w) => w == word,
            Instruction::Jp(nnn)
            | Instruction::Call(nnn)
            | Instruction::LdI(nnn)
            | Instruction::Jp0(nnn) => nnn == word & 0x0FFF,
            Instruction::Se(x, kk)
            | Instruction::Sne(x, kk)
            | Instruction::Ld(x, kk)
            | Instruction::Add(x, kk)
            | Instruction::Rnd(x, kk) => {
                u16::from(x) == (word >> 8) & 0xF && u16::from(kk) == word & 0xFF
            }
            Instruction::SeXy(x, y)
            | Instruction::LdXy(x, y)
            | Instruction::OrXy(x, y)
            | Instruction::AndXy(x, y)
            | Instruction::XorXy(x, y)
            | Instruction::AddXy(x, y)
            | Instruction::SubXy(x, y)
            | Instruction::SubnXy(x, y)
            | Instruction::SneXy(x, y) => {
                u16::from(x) == (word >> 8) & 0xF && u16::from(y) == (word >> 4) & 0xF
            }
            Instruction::Drw(x, y, n) => {
                u16::from(x) == (word >> 8) & 0xF
                    && u16::from(y) == (word >> 4) & 0xF
                    && u16::from(n) == word & 0xF
            }
            Instruction::ShrX(x)
            | Instruction::ShlX(x)
            | Instruction::Skp(x)
            | Instruction::Sknp(x)
            | Instruction::LdXDt(x)
            | Instruction::LdK(x)
            | Instruction::LdDt(x)
            | Instruction::LdSt(x)
            | Instruction::AddI(x)
            | Instruction::LdF(x)
            | Instruction::LdB(x)
            | Instruction::LdVxToI(x)
            | Instruction::LdIToVx(x) => u16::from(x) == (word >> 8) & 0xF,
        };
        assert!(ok, "word {:04x}", word);
    }
}
