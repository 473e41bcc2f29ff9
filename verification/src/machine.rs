//! The machine as mathematics: its state, and what each instruction and each
//! step does to it.
use vstd::prelude::*;
use crate::display::{blank_screen, collides, plot, screen_wf};
use crate::fault::{Fault, FaultKind, Step};
use crate::font::{FONT_DATA, GLYPH_COUNT, GLYPH_HEIGHT};
use crate::instruction::Instruction;

verus! {

/// Bytes of memory.
pub const MEMORY_SIZE: usize = 4096;

/// Address at which a program image is loaded and started.
pub const PROGRAM_START: u16 = 0x200;

/// Return addresses that the stack can hold.
pub const STACK_DEPTH: usize = 16;

/// Index of the register that arithmetic, shifts and drawing use as flag.
pub const FLAG: u8 = 0xF;

/// The state of the machine.
pub struct Machine {
    /// The general registers V0 to VF.
    pub v: Seq<u8>,
    /// The address register I.
    pub i: u16,
    /// The program counter.
    pub pc: u16,
    /// The delay timer.
    pub delay: u8,
    /// The sound timer.
    pub sound: u8,
    /// The return addresses, the oldest first.
    pub stack: Seq<u16>,
    /// The 4096 bytes of memory.
    pub memory: Seq<u8>,
    /// The display: 32 rows of 64 pixels.
    pub screen: Seq<Seq<bool>>,
    /// `Some(x)` while the machine waits for a key to store in `Vx`.
    pub wait: Option<u8>,
}

/// The value of a flag as a register holds it.
pub open spec fn flag_value(flag: bool) -> u8 {
    if flag {
        1
    } else {
        0
    }
}

/// Whether `k` is the lowest index of a pressed key.
pub open spec fn is_first_pressed(keys: Seq<bool>, k: int) -> bool {
    &&& 0 <= k < keys.len()
    &&& keys[k]
    &&& forall|j: int| 0 <= j < k ==> !keys[j]
}

/// The lowest index of a pressed key, if any key is pressed.
pub open spec fn first_pressed(keys: Seq<bool>) -> Option<u8> {
    if exists|k: int| is_first_pressed(keys, k) {
        Some((choose|k: int| is_first_pressed(keys, k)) as u8)
    } else {
        None
    }
}

/// What memory holds at address `a` after loading: the font at the bottom,
/// the image from the program start on, zero elsewhere.
pub open spec fn boot_byte(rom: Seq<u8>, a: int) -> u8 {
    if 0 <= a < FONT_DATA@.len() {
        FONT_DATA@[a]
    } else if PROGRAM_START <= a < PROGRAM_START + rom.len() {
        rom[a - PROGRAM_START]
    } else {
        0
    }
}

/// Whether the `count` bytes from address `start` on all lie inside memory.
pub open spec fn in_memory(start: u16, count: int) -> bool {
    count <= 0 || start + count <= MEMORY_SIZE
}

/// The `n` bytes of memory from address `start` on.
pub open spec fn bytes_at(memory: Seq<u8>, start: u16, n: u8) -> Seq<u8> {
    Seq::new(n as nat, |k: int| memory[start + k])
}

/// Whether a fallible instruction did what `expected` says: on `Ok` the
/// machine is the expected one, on `Err` the fault is the expected one and
/// the machine has not changed.
pub open spec fn outcome_is(
    expected: Result<Machine, FaultKind>,
    before: Machine,
    after: Machine,
    res: Result<(), FaultKind>,
) -> bool {
    match expected {
        Ok(next) => res is Ok && after == next,
        Err(kind) => res == Err::<(), FaultKind>(kind) && after == before,
    }
}

impl Machine {
    /// Every part has its fixed size, the stack is within its depth, and a
    /// pending key wait names a register.
    pub open spec fn wf(self) -> bool {
        &&& self.v.len() == 16
        &&& self.memory.len() == MEMORY_SIZE
        &&& self.stack.len() <= STACK_DEPTH
        &&& screen_wf(self.screen)
        &&& (self.wait matches Some(x) ==> x < 16)
    }

    /// The machine right after loading `rom`.
    pub open spec fn boot(rom: Seq<u8>) -> Machine {
        Machine {
            v: Seq::new(16, |x: int| 0u8),
            i: 0,
            pc: PROGRAM_START,
            delay: 0,
            sound: 0,
            stack: Seq::empty(),
            memory: Seq::new(MEMORY_SIZE as nat, |a: int| boot_byte(rom, a)),
            screen: blank_screen(),
            wait: None,
        }
    }

    /// The value of register `Vx`.
    pub open spec fn vx(self, x: u8) -> u8 {
        self.v[x as int]
    }

    /// The machine with `Vx` replaced by `value`.
    pub open spec fn set_v(self, x: u8, value: u8) -> Machine {
        Machine { v: self.v.update(x as int, value), ..self }
    }

    /// The machine with the program counter moved past one more instruction
    /// if `cond` holds.
    pub open spec fn skip_if(self, cond: bool) -> Machine {
        if cond {
            Machine { pc: (self.pc + 2) as u16, ..self }
        } else {
            self
        }
    }

    /// The timer pulse: each timer that is not yet 0 goes down by one.
    pub open spec fn tick(self, decrement: bool) -> Machine {
        if decrement {
            Machine {
                delay: if self.delay > 0 {
                    (self.delay - 1) as u8
                } else {
                    0
                },
                sound: if self.sound > 0 {
                    (self.sound - 1) as u8
                } else {
                    0
                },
                ..self
            }
        } else {
            self
        }
    }

    /// Whether a two-byte word can be read at the program counter.
    pub open spec fn can_fetch(self) -> bool {
        self.pc + 1 < MEMORY_SIZE
    }

    /// The big-endian word at the program counter.
    pub open spec fn fetch(self) -> u16 {
        (self.memory[self.pc as int] * 0x100 + self.memory[self.pc + 1]) as u16
    }

    /// `00E0`.
    pub open spec fn cls(self) -> Machine {
        Machine { screen: blank_screen(), ..self }
    }

    /// `00EE`.
    pub open spec fn ret(self) -> Result<Machine, FaultKind> {
        if self.stack.len() == 0 {
            Err(FaultKind::StackUnderflow)
        } else {
            Ok(Machine { pc: self.stack.last(), stack: self.stack.drop_last(), ..self })
        }
    }

    /// `1nnn`.
    pub open spec fn jp(self, addr: u16) -> Machine {
        Machine { pc: addr, ..self }
    }

    /// `2nnn`.
    pub open spec fn call(self, addr: u16) -> Result<Machine, FaultKind> {
        if self.stack.len() >= STACK_DEPTH {
            Err(FaultKind::StackOverflow)
        } else {
            Ok(Machine { pc: addr, stack: self.stack.push(self.pc), ..self })
        }
    }

    /// `3xkk`.
    pub open spec fn se(self, x: u8, kk: u8) -> Machine {
        self.skip_if(self.vx(x) == kk)
    }

    /// `4xkk`.
    pub open spec fn sne(self, x: u8, kk: u8) -> Machine {
        self.skip_if(self.vx(x) != kk)
    }

    /// `5xy0`.
    pub open spec fn se_xy(self, x: u8, y: u8) -> Machine {
        self.skip_if(self.vx(x) == self.vx(y))
    }

    /// `6xkk`.
    pub open spec fn ld(self, x: u8, kk: u8) -> Machine {
        self.set_v(x, kk)
    }

    /// `7xkk`: the sum modulo 256; no register but `Vx` changes.
    pub open spec fn add(self, x: u8, kk: u8) -> Machine {
        self.set_v(x, ((self.vx(x) + kk) % 0x100) as u8)
    }

    /// `8xy0`.
    pub open spec fn ld_xy(self, x: u8, y: u8) -> Machine {
        self.set_v(x, self.vx(y))
    }

    /// `8xy1`.
    pub open spec fn or_xy(self, x: u8, y: u8) -> Machine {
        self.set_v(x, self.vx(x) | self.vx(y))
    }

    /// `8xy2`.
    pub open spec fn and_xy(self, x: u8, y: u8) -> Machine {
        self.set_v(x, self.vx(x) & self.vx(y))
    }

    /// `8xy3`.
    pub open spec fn xor_xy(self, x: u8, y: u8) -> Machine {
        self.set_v(x, self.vx(x) ^ self.vx(y))
    }

    /// `8xy4`: the flag is written first, the sum last, so with `x` the flag
    /// register the sum stays.
    pub open spec fn add_xy(self, x: u8, y: u8) -> Machine {
        let sum = self.vx(x) + self.vx(y);
        self.set_v(FLAG, flag_value(sum > 0xFF)).set_v(x, (sum % 0x100) as u8)
    }

    /// `8xy5`: the flag is 1 when nothing is borrowed.
    pub open spec fn sub_xy(self, x: u8, y: u8) -> Machine {
        let a = self.vx(x);
        let b = self.vx(y);
        self.set_v(FLAG, flag_value(a >= b)).set_v(x, ((a - b) % 0x100) as u8)
    }

    /// `8xy6`: the flag takes the lowest bit, then `Vx`, as it then stands,
    /// is halved.
    pub open spec fn shr_x(self, x: u8) -> Machine {
        let flagged = self.set_v(FLAG, (self.vx(x) % 2) as u8);
        flagged.set_v(x, (flagged.vx(x) / 2) as u8)
    }

    /// `8xy7`.
    pub open spec fn subn_xy(self, x: u8, y: u8) -> Machine {
        let a = self.vx(x);
        let b = self.vx(y);
        self.set_v(FLAG, flag_value(b >= a)).set_v(x, ((b - a) % 0x100) as u8)
    }

    /// `8xyE`: the flag takes the highest bit, then `Vx`, as it then stands,
    /// is doubled modulo 256.
    pub open spec fn shl_x(self, x: u8) -> Machine {
        let flagged = self.set_v(FLAG, (self.vx(x) / 0x80) as u8);
        flagged.set_v(x, ((flagged.vx(x) * 2) % 0x100) as u8)
    }

    /// `9xy0`.
    pub open spec fn sne_xy(self, x: u8, y: u8) -> Machine {
        self.skip_if(self.vx(x) != self.vx(y))
    }

    /// `Annn`.
    pub open spec fn ld_i(self, nnn: u16) -> Machine {
        Machine { i: nnn, ..self }
    }

    /// `Bnnn`.
    pub open spec fn jp_0(self, nnn: u16) -> Machine {
        Machine { pc: (nnn + self.vx(0)) as u16, ..self }
    }

    /// `Cxkk`, with the random byte that was drawn.
    pub open spec fn rnd(self, x: u8, kk: u8, random: u8) -> Machine {
        self.set_v(x, random & kk)
    }

    /// `Dxyn`: the position is what `Vx` and `Vy` hold when the instruction
    /// starts; the flag is 1 if any pixel went from on to off, else 0.
    pub open spec fn drw(self, x: u8, y: u8, n: u8) -> Result<Machine, FaultKind> {
        if !in_memory(self.i, n as int) {
            Err(FaultKind::MemoryOutOfBounds)
        } else {
            let sprite = bytes_at(self.memory, self.i, n);
            let hit = collides(self.screen, sprite, self.vx(x), self.vx(y));
            Ok(
                Machine {
                    screen: plot(self.screen, sprite, self.vx(x), self.vx(y)),
                    ..self.set_v(FLAG, flag_value(hit))
                },
            )
        }
    }

    /// `Ex9E`.
    pub open spec fn skp(self, x: u8, keys: Seq<bool>) -> Result<Machine, FaultKind> {
        if self.vx(x) >= keys.len() {
            Err(FaultKind::KeyOutOfRange)
        } else {
            Ok(self.skip_if(keys[self.vx(x) as int]))
        }
    }

    /// `ExA1`.
    pub open spec fn sknp(self, x: u8, keys: Seq<bool>) -> Result<Machine, FaultKind> {
        if self.vx(x) >= keys.len() {
            Err(FaultKind::KeyOutOfRange)
        } else {
            Ok(self.skip_if(!keys[self.vx(x) as int]))
        }
    }

    /// `Fx07`.
    pub open spec fn ld_x_dt(self, x: u8) -> Machine {
        self.set_v(x, self.delay)
    }

    /// `Fx0A`.
    pub open spec fn ld_k(self, x: u8) -> Machine {
        Machine { wait: Some(x), ..self }
    }

    /// `Fx15`.
    pub open spec fn ld_dt(self, x: u8) -> Machine {
        Machine { delay: self.vx(x), ..self }
    }

    /// `Fx18`.
    pub open spec fn ld_st(self, x: u8) -> Machine {
        Machine { sound: self.vx(x), ..self }
    }

    /// `Fx1E`: the sum wraps at sixteen bits, the width of `I`. No flag is
    /// touched. An `I` beyond memory faults only when it is used.
    pub open spec fn add_i(self, x: u8) -> Machine {
        Machine { i: ((self.i + self.vx(x)) % 0x10000) as u16, ..self }
    }

    /// `Fx29`: five bytes per glyph, from address 0 on. A register that
    /// holds no hexadecimal digit is a fault.
    pub open spec fn ld_f(self, x: u8) -> Result<Machine, FaultKind> {
        if self.vx(x) >= GLYPH_COUNT {
            Err(FaultKind::DigitOutOfRange)
        } else {
            Ok(Machine { i: (self.vx(x) * GLYPH_HEIGHT) as u16, ..self })
        }
    }

    /// `Fx33`: hundreds, tens and ones of `Vx`.
    pub open spec fn ld_b(self, x: u8) -> Result<Machine, FaultKind> {
        if !in_memory(self.i, 3) {
            Err(FaultKind::MemoryOutOfBounds)
        } else {
            let value = self.vx(x);
            Ok(
                Machine {
                    memory: self.memory.update(self.i as int, (value / 100) as u8).update(
                        self.i + 1,
                        ((value / 10) % 10) as u8,
                    ).update(self.i + 2, (value % 10) as u8),
                    ..self
                },
            )
        }
    }

    /// `Fx55`: `V0..=Vx` go to `I..=I+x`; `I` stays.
    pub open spec fn ld_vx_to_i(self, x: u8) -> Result<Machine, FaultKind> {
        if !in_memory(self.i, x + 1) {
            Err(FaultKind::MemoryOutOfBounds)
        } else {
            Ok(
                Machine {
                    memory: Seq::new(
                        MEMORY_SIZE as nat,
                        |a: int|
                            if self.i <= a <= self.i + x {
                                self.v[a - self.i]
                            } else {
                                self.memory[a]
                            },
                    ),
                    ..self
                },
            )
        }
    }

    /// `Fx65`: `V0..=Vx` come from `I..=I+x`; `I` stays.
    pub open spec fn ld_i_to_vx(self, x: u8) -> Result<Machine, FaultKind> {
        if !in_memory(self.i, x + 1) {
            Err(FaultKind::MemoryOutOfBounds)
        } else {
            Ok(
                Machine {
                    v: Seq::new(
                        16,
                        |j: int|
                            if j <= x {
                                self.memory[self.i + j]
                            } else {
                                self.v[j]
                            },
                    ),
                    ..self
                },
            )
        }
    }

    /// What executing `instr` makes of the machine, or the fault that stops
    /// it. The program counter already points past the instruction. An
    /// unsupported word changes nothing.
    pub open spec fn execute(self, instr: Instruction, keys: Seq<bool>, random: u8) -> Result<
        Machine,
        FaultKind,
    > {
        match instr {
            Instruction::Cls => Ok(self.cls()),
            Instruction::Ret => self.ret(),
            Instruction::Jp(nnn) => Ok(self.jp(nnn)),
            Instruction::Call(nnn) => self.call(nnn),
            Instruction::Se(x, kk) => Ok(self.se(x, kk)),
            Instruction::Sne(x, kk) => Ok(self.sne(x, kk)),
            Instruction::SeXy(x, y) => Ok(self.se_xy(x, y)),
            Instruction::Ld(x, kk) => Ok(self.ld(x, kk)),
            Instruction::Add(x, kk) => Ok(self.add(x, kk)),
            Instruction::LdXy(x, y) => Ok(self.ld_xy(x, y)),
            Instruction::OrXy(x, y) => Ok(self.or_xy(x, y)),
            Instruction::AndXy(x, y) => Ok(self.and_xy(x, y)),
            Instruction::XorXy(x, y) => Ok(self.xor_xy(x, y)),
            Instruction::AddXy(x, y) => Ok(self.add_xy(x, y)),
            Instruction::SubXy(x, y) => Ok(self.sub_xy(x, y)),
            Instruction::ShrX(x) => Ok(self.shr_x(x)),
            Instruction::SubnXy(x, y) => Ok(self.subn_xy(x, y)),
            Instruction::ShlX(x) => Ok(self.shl_x(x)),
            Instruction::SneXy(x, y) => Ok(self.sne_xy(x, y)),
            Instruction::LdI(nnn) => Ok(self.ld_i(nnn)),
            Instruction::Jp0(nnn) => Ok(self.jp_0(nnn)),
            Instruction::Rnd(x, kk) => Ok(self.rnd(x, kk, random)),
            Instruction::Drw(x, y, n) => self.drw(x, y, n),
            Instruction::Skp(x) => self.skp(x, keys),
            Instruction::Sknp(x) => self.sknp(x, keys),
            Instruction::LdXDt(x) => Ok(self.ld_x_dt(x)),
            Instruction::LdK(x) => Ok(self.ld_k(x)),
            Instruction::LdDt(x) => Ok(self.ld_dt(x)),
            Instruction::LdSt(x) => Ok(self.ld_st(x)),
            Instruction::AddI(x) => Ok(self.add_i(x)),
            Instruction::LdF(x) => self.ld_f(x),
            Instruction::LdB(x) => self.ld_b(x),
            Instruction::LdVxToI(x) => self.ld_vx_to_i(x),
            Instruction::LdIToVx(x) => self.ld_i_to_vx(x),
            Instruction::Unsupported(_) => Ok(self),
        }
    }

    /// A waiting machine looks at the keys: the lowest pressed key goes to
    /// the awaited register and the machine runs again; with no key pressed
    /// nothing changes.
    pub open spec fn accept_key(self, x: u8, keys: Seq<bool>) -> Machine {
        match first_pressed(keys) {
            Some(k) => Machine { wait: None, ..self.set_v(x, k) },
            None => self,
        }
    }

    /// Whether the next step fetches an instruction that consumes a random
    /// byte.
    pub open spec fn draws_random(self) -> bool {
        self.wait is None && self.can_fetch() && Instruction::decoded(self.fetch()).draws_random()
    }

    /// One step: the timer pulse first; then a waiting machine looks at the
    /// keys and fetches nothing; a running machine fetches the word at the
    /// program counter, moves the program counter past it and executes it.
    ///
    /// A fetch fault leaves the machine as it is after the timer pulse; a
    /// fault of the instruction leaves it as it is after the fetch.
    pub open spec fn step(self, decrement: bool, keys: Seq<bool>, random: u8) -> (
        Machine,
        Result<Step, Fault>,
    ) {
        let ticked = self.tick(decrement);
        match ticked.wait {
            Some(x) => (ticked.accept_key(x, keys), Ok(Step::KeyWait)),
            None => if !ticked.can_fetch() {
                (
                    ticked,
                    Err(Fault { kind: FaultKind::FetchOutOfBounds, opcode: 0, pc: ticked.pc }),
                )
            } else {
                let word = ticked.fetch();
                let instr = Instruction::decoded(word);
                let fetched = Machine { pc: (ticked.pc + 2) as u16, ..ticked };
                match fetched.execute(instr, keys, random) {
                    Ok(next) => (
                        next,
                        Ok(
                            if instr is Unsupported {
                                Step::Unsupported(word)
                            } else {
                                Step::Executed
                            },
                        ),
                    ),
                    Err(kind) => (fetched, Err(Fault { kind, opcode: word, pc: ticked.pc })),
                }
            },
        }
    }
}

} // verus!
