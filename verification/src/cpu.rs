//! The executable machine, proved to follow [`Machine`].
use vstd::prelude::*;
use crate::display::{collides, screen_view, xor_sprite, HEIGHT, WIDTH};
use crate::fault::{Fault, FaultKind, LoadError, Step};
use crate::font::{FONT_DATA, GLYPH_COUNT, GLYPH_HEIGHT};
use crate::instruction::{decode, Instruction};
use crate::machine::{
    bytes_at, first_pressed, flag_value, in_memory, is_first_pressed, outcome_is, Machine, FLAG,
    MEMORY_SIZE, PROGRAM_START, STACK_DEPTH,
};
use crate::random::random_byte;

verus! {

/// The emulated processor with its memory, stack, timers and display.
///
/// Every `CPU` stands for a well-formed [`Machine`]. A caller cannot see
/// that by itself, so each method that changes the processor states it of
/// the machine before and after the call.
pub struct CPU {
    registers: [u8; 16],
    register_i: u16,
    program_counter: u16,
    vram: [[bool; WIDTH]; HEIGHT],
    ram: [u8; MEMORY_SIZE],
    stack: [u16; STACK_DEPTH],
    stack_pointer: usize,
    delay_timer: u8,
    sound_timer: u8,
    keypress_wait: Option<u8>,
}

impl View for CPU {
    type V = Machine;

    /// The state that this processor stands for. Of the stack only the
    /// slots below the stack pointer count.
    closed spec fn view(&self) -> Machine {
        Machine {
            v: self.registers@,
            i: self.register_i,
            pc: self.program_counter,
            delay: self.delay_timer,
            sound: self.sound_timer,
            stack: self.stack@.subrange(0, self.stack_pointer as int),
            memory: self.ram@,
            screen: Seq::new(HEIGHT as nat, |r: int| self.vram@[r]@),
            wait: self.keypress_wait,
        }
    }
}

impl CPU {
    #[verifier::type_invariant]
    spec fn inv(&self) -> bool {
        &&& self.stack_pointer <= STACK_DEPTH
        &&& (self.keypress_wait matches Some(x) ==> x < 16)
    }

    /// Whether `other` differs from this processor in memory at most.
    spec fn same_but_ram(&self, other: &CPU) -> bool {
        &&& self.registers == other.registers
        &&& self.register_i == other.register_i
        &&& self.program_counter == other.program_counter
        &&& self.vram == other.vram
        &&& self.stack == other.stack
        &&& self.stack_pointer == other.stack_pointer
        &&& self.delay_timer == other.delay_timer
        &&& self.sound_timer == other.sound_timer
        &&& self.keypress_wait == other.keypress_wait
    }

    /// Whether `other` differs from this processor in the general registers
    /// at most.
    spec fn same_but_registers(&self, other: &CPU) -> bool {
        &&& self.ram == other.ram
        &&& self.register_i == other.register_i
        &&& self.program_counter == other.program_counter
        &&& self.vram == other.vram
        &&& self.stack == other.stack
        &&& self.stack_pointer == other.stack_pointer
        &&& self.delay_timer == other.delay_timer
        &&& self.sound_timer == other.sound_timer
        &&& self.keypress_wait == other.keypress_wait
    }

    /// Loads a program: the font at the bottom of memory, the image `rom`
    /// from the program start on, the program counter at the program start,
    /// all else zero. Fails if the image does not fit into memory.
    pub fn new(rom: &[u8]) -> (res: Result<CPU, LoadError>)
        ensures
            res is Err <==> rom@.len() + PROGRAM_START > MEMORY_SIZE,
            res matches Err(e) ==> e == LoadError::RomTooLarge,
            res matches Ok(cpu) ==> cpu@ == Machine::boot(rom@) && cpu@.wf(),
    {
        let rom_size: usize = rom.len();
        if rom_size > MEMORY_SIZE - PROGRAM_START as usize {
            return Err(LoadError::RomTooLarge);
        }
        let mut ram: [u8; MEMORY_SIZE] = [0; MEMORY_SIZE];
        let mut i: usize = 0;
        while i < FONT_DATA.len()
            invariant
                i <= FONT_DATA@.len() == 80,
                forall|a: int| 0 <= a < i ==> ram@[a] == FONT_DATA@[a],
                forall|a: int| i <= a < MEMORY_SIZE ==> ram@[a] == 0,
            decreases FONT_DATA@.len() - i,
        {
            ram[i] = FONT_DATA[i];
            i = i + 1;
        }
        let mut i: usize = 0;
        while i < rom_size
            invariant
                i <= rom_size == rom@.len(),
                rom_size + PROGRAM_START <= MEMORY_SIZE,
                forall|a: int| 0 <= a < 80 ==> ram@[a] == FONT_DATA@[a],
                forall|a: int| 80 <= a < PROGRAM_START ==> ram@[a] == 0,
                forall|a: int| PROGRAM_START <= a < PROGRAM_START + i ==> ram@[a] == rom@[a - PROGRAM_START],
                forall|a: int| PROGRAM_START + i <= a < MEMORY_SIZE ==> ram@[a] == 0,
            decreases rom_size - i,
        {
            ram[i + PROGRAM_START as usize] = rom[i];
            i = i + 1;
        }
        let cpu = CPU {
            registers: [0; 16],
            register_i: 0,
            program_counter: PROGRAM_START,
            vram: [[false; WIDTH]; HEIGHT],
            ram,
            stack: [0; STACK_DEPTH],
            stack_pointer: 0,
            delay_timer: 0,
            sound_timer: 0,
            keypress_wait: None,
        };
        proof {
            let boot = Machine::boot(rom@);
            assert(cpu@.v =~= boot.v);
            assert(cpu@.stack =~= boot.stack);
            assert(cpu@.memory =~= boot.memory);
            assert(cpu@.screen =~~= boot.screen);
        }
        Ok(cpu)
    }

    /// The lowest index of a pressed key, if any key is pressed.
    pub fn first_pressed_key(pressed_keys: &[bool; 16]) -> (found: Option<u8>)
        ensures
            found == first_pressed(pressed_keys@),
            found matches Some(k) ==> is_first_pressed(pressed_keys@, k as int),
            found is None ==> forall|k: int| 0 <= k < 16 ==> !pressed_keys@[k],
    {
        let mut k: u8 = 0;
        while k < 16
            invariant
                k <= 16,
                forall|j: int| 0 <= j < k ==> !pressed_keys@[j],
            decreases 16 - k,
        {
            if pressed_keys[k as usize] {
                assert(is_first_pressed(pressed_keys@, k as int));
                return Some(k);
            }
            k = k + 1;
        }
        None
    }

    /// One step with the random byte `random` at hand: the timer pulse if
    /// `decrement_timers` is set; then either the look at the keys of a
    /// waiting machine, or the fetch and execution of one instruction.
    pub fn step(&mut self, decrement_timers: bool, pressed_keys: [bool; 16], random: u8) -> (res:
        Result<Step, Fault>)
        ensures
            (final(self)@, res) == old(self)@.step(decrement_timers, pressed_keys@, random),
            old(self)@.wf(),
            final(self)@.wf(),
    {
        proof {
            use_type_invariant(&*self);
        }
        if decrement_timers {
            if self.delay_timer > 0 {
                self.delay_timer = self.delay_timer - 1;
            }
            if self.sound_timer > 0 {
                self.sound_timer = self.sound_timer - 1;
            }
        }
        match self.keypress_wait {
            Some(x) => {
                match Self::first_pressed_key(&pressed_keys) {
                    Some(k) => {
                        self.registers[x as usize] = k;
                        self.keypress_wait = None;
                    },
                    None => {},
                }
                return Ok(Step::KeyWait);
            },
            None => {},
        }
        let pc: u16 = self.program_counter;
        if pc as usize + 1 >= MEMORY_SIZE {
            return Err(Fault { kind: FaultKind::FetchOutOfBounds, opcode: 0, pc });
        }
        let word: u16 = self.read_opcode();
        self.program_counter = pc + 2;
        let instr = decode(word);
        match self.execute(instr, pressed_keys, random) {
            Ok(()) => Ok(
                match instr {
                    Instruction::Unsupported(_) => Step::Unsupported(word),
                    _ => Step::Executed,
                },
            ),
            Err(kind) => Err(Fault { kind, opcode: word, pc }),
        }
    }

    /// One step, with a fresh random byte for the instruction that asks for
    /// one. Whatever byte was drawn, the step is the one that `step` makes
    /// with it; where the next instruction asks for none, the step is
    /// fully determined.
    pub fn run(&mut self, decrement_timers: bool, pressed_keys: [bool; 16]) -> (res: Result<
        Step,
        Fault,
    >)
        ensures
            exists|random: u8|
                (final(self)@, res) == #[trigger] old(self)@.step(
                    decrement_timers,
                    pressed_keys@,
                    random,
                ),
            !old(self)@.draws_random() ==> (final(self)@, res) == old(self)@.step(
                decrement_timers,
                pressed_keys@,
                0,
            ),
            old(self)@.wf(),
            final(self)@.wf(),
    {
        let random: u8 = if self.awaits_random() {
            random_byte()
        } else {
            0
        };
        self.step(decrement_timers, pressed_keys, random)
    }

    /// Whether the next step fetches an instruction that asks for a random
    /// byte.
    pub fn awaits_random(&self) -> (yes: bool)
        ensures
            yes == self@.draws_random(),
    {
        if self.keypress_wait.is_some() || self.program_counter as usize + 1 >= MEMORY_SIZE {
            return false;
        }
        match decode(self.read_opcode()) {
            Instruction::Rnd(_, _) => true,
            _ => false,
        }
    }

    /// The big-endian word at the program counter.
    pub fn read_opcode(&self) -> (word: u16)
        requires
            self@.can_fetch(),
        ensures
            word == self@.fetch(),
    {
        let p: usize = self.program_counter as usize;
        let op_byte_1: u8 = self.ram[p];
        let op_byte_2: u8 = self.ram[p + 1];
        assert(((op_byte_1 as u16) << 8) | (op_byte_2 as u16) == (op_byte_1 as u16) * 0x100 + (
        op_byte_2 as u16)) by (bit_vector);
        ((op_byte_1 as u16) << 8) | (op_byte_2 as u16)
    }

    /// Executes one decoded instruction. The program counter must already
    /// point past it. On a fault nothing has changed.
    pub fn execute(&mut self, instr: Instruction, pressed_keys: [bool; 16], random: u8) -> (res:
        Result<(), FaultKind>)
        requires
            instr.wf(),
            old(self)@.pc + 2 <= u16::MAX,
        ensures
            outcome_is(
                old(self)@.execute(instr, pressed_keys@, random),
                old(self)@,
                final(self)@,
                res,
            ),
            old(self)@.wf(),
            final(self)@.wf(),
    {
        match instr {
            Instruction::Cls => {
                self.cls();
                Ok(())
            },
            Instruction::Ret => self.ret(),
            Instruction::Jp(nnn) => {
                self.jp(nnn);
                Ok(())
            },
            Instruction::Call(nnn) => self.call(nnn),
            Instruction::Se(x, kk) => {
                self.se(x, kk);
                Ok(())
            },
            Instruction::Sne(x, kk) => {
                self.sne(x, kk);
                Ok(())
            },
            Instruction::SeXy(x, y) => {
                self.se_xy(x, y);
                Ok(())
            },
            Instruction::Ld(x, kk) => {
                self.ld(x, kk);
                Ok(())
            },
            Instruction::Add(x, kk) => {
                self.add(x, kk);
                Ok(())
            },
            Instruction::LdXy(x, y) => {
                self.ld_xy(x, y);
                Ok(())
            },
            Instruction::OrXy(x, y) => {
                self.or_xy(x, y);
                Ok(())
            },
            Instruction::AndXy(x, y) => {
                self.and_xy(x, y);
                Ok(())
            },
            Instruction::XorXy(x, y) => {
                self.xor_xy(x, y);
                Ok(())
            },
            Instruction::AddXy(x, y) => {
                self.add_xy(x, y);
                Ok(())
            },
            Instruction::SubXy(x, y) => {
                self.sub_xy(x, y);
                Ok(())
            },
            Instruction::ShrX(x) => {
                self.shr_x(x);
                Ok(())
            },
            Instruction::SubnXy(x, y) => {
                self.subn_xy(x, y);
                Ok(())
            },
            Instruction::ShlX(x) => {
                self.shl_x(x);
                Ok(())
            },
            Instruction::SneXy(x, y) => {
                self.sne_xy(x, y);
                Ok(())
            },
            Instruction::LdI(nnn) => {
                self.ld_i(nnn);
                Ok(())
            },
            Instruction::Jp0(nnn) => {
                self.jp_0(nnn);
                Ok(())
            },
            Instruction::Rnd(x, kk) => {
                self.rnd_with(x, kk, random);
                Ok(())
            },
            Instruction::Drw(x, y, n) => self.drw(x, y, n),
            Instruction::Skp(x) => self.skp(x, pressed_keys),
            Instruction::Sknp(x) => self.sknp(x, pressed_keys),
            Instruction::LdXDt(x) => {
                self.ld_x_dt(x);
                Ok(())
            },
            Instruction::LdK(x) => {
                self.ld_k(x);
                Ok(())
            },
            Instruction::LdDt(x) => {
                self.ld_dt(x);
                Ok(())
            },
            Instruction::LdSt(x) => {
                self.ld_st(x);
                Ok(())
            },
            Instruction::AddI(x) => {
                self.add_i(x);
                Ok(())
            },
            Instruction::LdF(x) => self.ld_f(x),
            Instruction::LdB(x) => self.ld_b(x),
            Instruction::LdVxToI(x) => self.ld_vx_to_i(x),
            Instruction::LdIToVx(x) => self.ld_i_to_vx(x),
            Instruction::Unsupported(_) => {
                proof {
                    use_type_invariant(&*self);
                }
                Ok(())
            },
        }
    }

    /// (`Dxyn`) Draws the `n`-row sprite that memory holds at `I` with its
    /// top left corner at column `Vx`, row `Vy`, as both stand when the
    /// instruction starts. Every pixel wraps around the screen edges by
    /// itself and is XOR-ed onto the screen. `VF` becomes 1 if any pixel of
    /// the screen went from on to off, else 0. A sprite that reaches beyond
    /// the end of memory is a fault and nothing changes.
    pub fn drw(&mut self, x: u8, y: u8, n: u8) -> (res: Result<(), FaultKind>)
        requires
            x < 16,
            y < 16,
            n < 16,
        ensures
            outcome_is(old(self)@.drw(x, y, n), old(self)@, final(self)@, res),
            res is Err <==> !in_memory(old(self)@.i, n as int),
            res is Ok ==> final(self)@.vx(FLAG) <= 1 && (final(self)@.vx(FLAG) == 1 <==> collides(
                old(self)@.screen,
                bytes_at(old(self)@.memory, old(self)@.i, n),
                old(self)@.vx(x),
                old(self)@.vx(y),
            )),
            old(self)@.wf(),
            final(self)@.wf(),
    {
        proof {
            use_type_invariant(&*self);
        }
        let start: usize = self.register_i as usize;
        if n > 0 && start + n as usize > MEMORY_SIZE {
            return Err(FaultKind::MemoryOutOfBounds);
        }
        let vx: u8 = self.registers[x as usize];
        let vy: u8 = self.registers[y as usize];
        let from: usize = if n == 0 {
            0
        } else {
            start
        };
        assert(self.ram@.subrange(from as int, from + n) =~= bytes_at(
            self@.memory,
            self@.i,
            n,
        ));
        let hit: bool = xor_sprite(&mut self.vram, &self.ram, from, n, vx, vy);
        self.registers[FLAG as usize] = if hit {
            1
        } else {
            0
        };
        Ok(())
    }

    /// (`Fx33`) Stores the hundreds, tens and ones of `Vx` at `I`, `I+1`
    /// and `I+2`. If these do not all lie in memory this is a fault and
    /// nothing changes.
    pub fn ld_b(&mut self, x: u8) -> (res: Result<(), FaultKind>)
        requires
            x < 16,
        ensures
            outcome_is(old(self)@.ld_b(x), old(self)@, final(self)@, res),
            res is Err <==> !in_memory(old(self)@.i, 3),
            res is Ok ==> old(self)@.vx(x) == 100 * final(self)@.memory[old(self)@.i as int] + 10
                * final(self)@.memory[old(self)@.i + 1] + final(self)@.memory[old(self)@.i + 2],
            old(self)@.wf(),
            final(self)@.wf(),
    {
        proof {
            use_type_invariant(&*self);
        }
        let value: u8 = self.registers[x as usize];
        let i: usize = self.register_i as usize;
        if i + 3 > MEMORY_SIZE {
            return Err(FaultKind::MemoryOutOfBounds);
        }
        self.ram[i + 2] = value % 10;
        self.ram[i + 1] = (value / 10) % 10;
        self.ram[i] = value / 100;
        assert(self@.memory =~= old(self)@.ld_b(x)->Ok_0.memory);
        Ok(())
    }

    /// (`Fx55`) Stores `V0` to `Vx`, `Vx` included, in memory from `I` on.
    /// `I` keeps its value. If the addresses do not all lie in memory this
    /// is a fault and nothing changes.
    pub fn ld_vx_to_i(&mut self, x: u8) -> (res: Result<(), FaultKind>)
        requires
            x < 16,
        ensures
            outcome_is(old(self)@.ld_vx_to_i(x), old(self)@, final(self)@, res),
            res is Err <==> !in_memory(old(self)@.i, x + 1),
            old(self)@.wf(),
            final(self)@.wf(),
    {
        proof {
            use_type_invariant(&*self);
        }
        let i: usize = self.register_i as usize;
        if i + x as usize + 1 > MEMORY_SIZE {
            return Err(FaultKind::MemoryOutOfBounds);
        }
        let mut j: usize = 0;
        while j <= x as usize
            invariant
                j <= x + 1,
                x < 16,
                i == old(self).register_i,
                i + x + 1 <= MEMORY_SIZE,
                self.inv(),
                self.same_but_ram(old(self)),
                forall|a: int|
                    0 <= a < MEMORY_SIZE ==> self.ram@[a] == if i <= a < i + j {
                        old(self).registers@[a - i]
                    } else {
                        old(self).ram@[a]
                    },
            decreases x + 1 - j,
        {
            self.ram[i + j] = self.registers[j];
            j = j + 1;
        }
        assert(self@.memory =~= old(self)@.ld_vx_to_i(x)->Ok_0.memory);
        Ok(())
    }

    /// (`Fx65`) Fills `V0` to `Vx`, `Vx` included, from memory from `I` on.
    /// `I` keeps its value. If the addresses do not all lie in memory this
    /// is a fault and nothing changes.
    pub fn ld_i_to_vx(&mut self, x: u8) -> (res: Result<(), FaultKind>)
        requires
            x < 16,
        ensures
            outcome_is(old(self)@.ld_i_to_vx(x), old(self)@, final(self)@, res),
            res is Err <==> !in_memory(old(self)@.i, x + 1),
            old(self)@.wf(),
            final(self)@.wf(),
    {
        proof {
            use_type_invariant(&*self);
        }
        let i: usize = self.register_i as usize;
        if i + x as usize + 1 > MEMORY_SIZE {
            return Err(FaultKind::MemoryOutOfBounds);
        }
        let mut j: usize = 0;
        while j <= x as usize
            invariant
                j <= x + 1,
                x < 16,
                i == old(self).register_i,
                i + x + 1 <= MEMORY_SIZE,
                self.inv(),
                self.same_but_registers(old(self)),
                forall|k: int|
                    0 <= k < 16 ==> self.registers@[k] == if k < j {
                        old(self).ram@[i + k]
                    } else {
                        old(self).registers@[k]
                    },
            decreases x + 1 - j,
        {
            self.registers[j] = self.ram[i + j];
            j = j + 1;
        }
        assert(self@.v =~= old(self)@.ld_i_to_vx(x)->Ok_0.v);
        Ok(())
    }

    /// (`00EE`) Returns from the current subroutine: the newest return
    /// address leaves the stack and becomes the program counter. With an
    /// empty stack this is a stack underflow and nothing changes.
    pub fn ret(&mut self) -> (res: Result<(), FaultKind>)
        ensures
            outcome_is(old(self)@.ret(), old(self)@, final(self)@, res),
            res is Err <==> old(self)@.stack.len() == 0,
            old(self)@.wf(),
            final(self)@.wf(),
    {
        proof {
            use_type_invariant(&*self);
        }
        if self.stack_pointer == 0 {
            return Err(FaultKind::StackUnderflow);
        }
        self.stack_pointer = self.stack_pointer - 1;
        self.program_counter = self.stack[self.stack_pointer];
        assert(self@.stack =~= old(self)@.stack.drop_last());
        Ok(())
    }

    /// (`1nnn`) Jumps to `addr`.
    pub fn jp(&mut self, addr: u16)
        ensures
            final(self)@ == old(self)@.jp(addr),
            final(self)@.pc == addr,
            old(self)@.wf(),
            final(self)@.wf(),
    {
        proof {
            use_type_invariant(&*self);
        }
        self.program_counter = addr;
    }

    /// (`2nnn`) Calls the subroutine at `addr`: the program counter goes on
    /// the stack and `addr` takes its place. With sixteen return addresses
    /// on the stack this is a stack overflow and nothing changes.
    pub fn call(&mut self, addr: u16) -> (res: Result<(), FaultKind>)
        ensures
            outcome_is(old(self)@.call(addr), old(self)@, final(self)@, res),
            res is Err <==> old(self)@.stack.len() == STACK_DEPTH,
            old(self)@.wf(),
            final(self)@.wf(),
    {
        proof {
            use_type_invariant(&*self);
        }
        if self.stack_pointer >= STACK_DEPTH {
            return Err(FaultKind::StackOverflow);
        }
        self.stack[self.stack_pointer] = self.program_counter;
        self.stack_pointer = self.stack_pointer + 1;
        self.program_counter = addr;
        assert(self@.stack =~= old(self)@.stack.push(old(self)@.pc));
        Ok(())
    }

    /// (`6xkk`) Loads `kk` into `Vx`.
    pub fn ld(&mut self, x: u8, kk: u8)
        requires
            x < 16,
        ensures
            final(self)@ == old(self)@.ld(x, kk),
            old(self)@.wf(),
            final(self)@.wf(),
    {
        proof {
            use_type_invariant(&*self);
        }
        self.registers[x as usize] = kk;
    }

    /// (`8xy4`) Adds `Vy` to `Vx`. `VF` becomes 1 if the sum exceeds 255,
    /// else 0; then `Vx` takes the sum modulo 256.
    pub fn add_xy(&mut self, x: u8, y: u8)
        requires
            x < 16,
            y < 16,
        ensures
            final(self)@ == old(self)@.add_xy(x, y),
            final(self)@.vx(x) == (old(self)@.vx(x) + old(self)@.vx(y)) % 256,
            x != FLAG ==> final(self)@.vx(FLAG) <= 1 && (final(self)@.vx(FLAG) == 1 <==> old(
                self,
            )@.vx(x) + old(self)@.vx(y) > 255),
            old(self)@.wf(),
            final(self)@.wf(),
    {
        proof {
            use_type_invariant(&*self);
        }
        let a: u8 = self.registers[x as usize];
        let b: u8 = self.registers[y as usize];
        let sum: u16 = a as u16 + b as u16;
        self.registers[FLAG as usize] = if sum > 0xFF {
            1
        } else {
            0
        };
        self.registers[x as usize] = (sum % 0x100) as u8;
    }

    /// (`00E0`) Clears the display.
    pub fn cls(&mut self)
        ensures
            final(self)@ == old(self)@.cls(),
            old(self)@.wf(),
            final(self)@.wf(),
    {
        proof {
            use_type_invariant(&*self);
        }
        self.vram = [[false; WIDTH]; HEIGHT];
        assert(self@.screen =~~= old(self)@.cls().screen);
    }

    /// Moves the program counter past one more instruction.
    fn skip(&mut self)
        requires
            old(self)@.pc + 2 <= u16::MAX,
        ensures
            final(self)@ == old(self)@.skip_if(true),
            old(self)@.wf(),
            final(self)@.wf(),
    {
        proof {
            use_type_invariant(&*self);
        }
        self.program_counter = self.program_counter + 2;
    }

    /// (`3xkk`) Skips the next instruction if `Vx == kk`.
    pub fn se(&mut self, x: u8, kk: u8)
        requires
            x < 16,
            old(self)@.pc + 2 <= u16::MAX,
        ensures
            final(self)@ == old(self)@.se(x, kk),
            old(self)@.wf(),
            final(self)@.wf(),
    {
        proof {
            use_type_invariant(&*self);
        }
        if self.registers[x as usize] == kk {
            self.skip();
        }
    }

    /// (`4xkk`) Skips the next instruction if `Vx != kk`.
    pub fn sne(&mut self, x: u8, kk: u8)
        requires
            x < 16,
            old(self)@.pc + 2 <= u16::MAX,
        ensures
            final(self)@ == old(self)@.sne(x, kk),
            old(self)@.wf(),
            final(self)@.wf(),
    {
        proof {
            use_type_invariant(&*self);
        }
        if self.registers[x as usize] != kk {
            self.skip();
        }
    }

    /// (`5xy0`) Skips the next instruction if `Vx == Vy`.
    pub fn se_xy(&mut self, x: u8, y: u8)
        requires
            x < 16,
            y < 16,
            old(self)@.pc + 2 <= u16::MAX,
        ensures
            final(self)@ == old(self)@.se_xy(x, y),
            old(self)@.wf(),
            final(self)@.wf(),
    {
        proof {
            use_type_invariant(&*self);
        }
        if self.registers[x as usize] == self.registers[y as usize] {
            self.skip();
        }
    }

    /// (`9xy0`) Skips the next instruction if `Vx != Vy`.
    pub fn sne_xy(&mut self, x: u8, y: u8)
        requires
            x < 16,
            y < 16,
            old(self)@.pc + 2 <= u16::MAX,
        ensures
            final(self)@ == old(self)@.sne_xy(x, y),
            old(self)@.wf(),
            final(self)@.wf(),
    {
        proof {
            use_type_invariant(&*self);
        }
        if self.registers[x as usize] != self.registers[y as usize] {
            self.skip();
        }
    }

    /// (`7xkk`) Adds `kk` to `Vx` modulo 256. No flag is touched.
    pub fn add(&mut self, x: u8, kk: u8)
        requires
            x < 16,
        ensures
            final(self)@ == old(self)@.add(x, kk),
            old(self)@.wf(),
            final(self)@.wf(),
    {
        proof {
            use_type_invariant(&*self);
        }
        let sum: u16 = self.registers[x as usize] as u16 + kk as u16;
        self.registers[x as usize] = (sum % 0x100) as u8;
    }

    /// (`8xy0`) Loads `Vy` into `Vx`.
    pub fn ld_xy(&mut self, x: u8, y: u8)
        requires
            x < 16,
            y < 16,
        ensures
            final(self)@ == old(self)@.ld_xy(x, y),
            old(self)@.wf(),
            final(self)@.wf(),
    {
        proof {
            use_type_invariant(&*self);
        }
        self.registers[x as usize] = self.registers[y as usize];
    }

    /// (`8xy1`) `Vx = Vx | Vy`. No flag is touched.
    pub fn or_xy(&mut self, x: u8, y: u8)
        requires
            x < 16,
            y < 16,
        ensures
            final(self)@ == old(self)@.or_xy(x, y),
            old(self)@.wf(),
            final(self)@.wf(),
    {
        proof {
            use_type_invariant(&*self);
        }
        self.registers[x as usize] = self.registers[x as usize] | self.registers[y as usize];
    }

    /// (`8xy2`) `Vx = Vx & Vy`. No flag is touched.
    pub fn and_xy(&mut self, x: u8, y: u8)
        requires
            x < 16,
            y < 16,
        ensures
            final(self)@ == old(self)@.and_xy(x, y),
            old(self)@.wf(),
            final(self)@.wf(),
    {
        proof {
            use_type_invariant(&*self);
        }
        self.registers[x as usize] = self.registers[x as usize] & self.registers[y as usize];
    }

    /// (`8xy3`) `Vx = Vx ^ Vy`. No flag is touched.
    pub fn xor_xy(&mut self, x: u8, y: u8)
        requires
            x < 16,
            y < 16,
        ensures
            final(self)@ == old(self)@.xor_xy(x, y),
            old(self)@.wf(),
            final(self)@.wf(),
    {
        proof {
            use_type_invariant(&*self);
        }
        self.registers[x as usize] = self.registers[x as usize] ^ self.registers[y as usize];
    }

    /// (`8xy5`) Subtracts `Vy` from `Vx`. `VF` becomes 1 if nothing is
    /// borrowed (`Vx >= Vy`), else 0; then `Vx` takes the difference modulo
    /// 256.
    pub fn sub_xy(&mut self, x: u8, y: u8)
        requires
            x < 16,
            y < 16,
        ensures
            final(self)@ == old(self)@.sub_xy(x, y),
            final(self)@.vx(x) == (old(self)@.vx(x) - old(self)@.vx(y)) % 256,
            x != FLAG ==> final(self)@.vx(FLAG) <= 1 && (final(self)@.vx(FLAG) == 1 <==> old(
                self,
            )@.vx(x) >= old(self)@.vx(y)),
            old(self)@.wf(),
            final(self)@.wf(),
    {
        proof {
            use_type_invariant(&*self);
        }
        let a: u8 = self.registers[x as usize];
        let b: u8 = self.registers[y as usize];
        self.registers[FLAG as usize] = if a >= b {
            1
        } else {
            0
        };
        self.registers[x as usize] = if a >= b {
            a - b
        } else {
            (0x100 - (b - a) as u16) as u8
        };
    }

    /// (`8xy7`) `Vx = Vy - Vx`. `VF` becomes 1 if nothing is borrowed
    /// (`Vy >= Vx`), else 0; then `Vx` takes the difference modulo 256.
    pub fn subn_xy(&mut self, x: u8, y: u8)
        requires
            x < 16,
            y < 16,
        ensures
            final(self)@ == old(self)@.subn_xy(x, y),
            final(self)@.vx(x) == (old(self)@.vx(y) - old(self)@.vx(x)) % 256,
            x != FLAG ==> final(self)@.vx(FLAG) <= 1 && (final(self)@.vx(FLAG) == 1 <==> old(
                self,
            )@.vx(y) >= old(self)@.vx(x)),
            old(self)@.wf(),
            final(self)@.wf(),
    {
        proof {
            use_type_invariant(&*self);
        }
        let a: u8 = self.registers[x as usize];
        let b: u8 = self.registers[y as usize];
        self.registers[FLAG as usize] = if b >= a {
            1
        } else {
            0
        };
        self.registers[x as usize] = if b >= a {
            b - a
        } else {
            (0x100 - (a - b) as u16) as u8
        };
    }

    /// (`8xy6`) `VF` takes the lowest bit of `Vx`; then `Vx`, as it then
    /// stands, is shifted right by one. `Vy` plays no part.
    pub fn shr_x(&mut self, x: u8)
        requires
            x < 16,
        ensures
            final(self)@ == old(self)@.shr_x(x),
            x != FLAG ==> final(self)@.vx(FLAG) == old(self)@.vx(x) & 1,
            x != FLAG ==> final(self)@.vx(x) == old(self)@.vx(x) >> 1,
            old(self)@.wf(),
            final(self)@.wf(),
    {
        proof {
            use_type_invariant(&*self);
        }
        let first: u8 = self.registers[x as usize];
        assert(first & 1 == first % 2) by (bit_vector);
        self.registers[FLAG as usize] = first & 1;
        let value: u8 = self.registers[x as usize];
        assert(value >> 1 == value / 2) by (bit_vector);
        self.registers[x as usize] = value >> 1;
    }

    /// (`8xyE`) `VF` takes the highest bit of `Vx`; then `Vx`, as it then
    /// stands, is shifted left by one, the highest bit falling out. `Vy`
    /// plays no part.
    pub fn shl_x(&mut self, x: u8)
        requires
            x < 16,
        ensures
            final(self)@ == old(self)@.shl_x(x),
            x != FLAG ==> final(self)@.vx(FLAG) == (old(self)@.vx(x) >> 7) & 1,
            x != FLAG ==> final(self)@.vx(x) == old(self)@.vx(x) << 1,
            old(self)@.wf(),
            final(self)@.wf(),
    {
        proof {
            use_type_invariant(&*self);
        }
        let first: u8 = self.registers[x as usize];
        assert((first >> 7) & 1 == first / 0x80) by (bit_vector);
        self.registers[FLAG as usize] = (first >> 7) & 1;
        let value: u8 = self.registers[x as usize];
        assert(value << 1 == (value * 2) % 0x100) by (bit_vector);
        self.registers[x as usize] = value << 1;
    }

    /// (`Annn`) Loads `nnn` into `I`.
    pub fn ld_i(&mut self, nnn: u16)
        ensures
            final(self)@ == old(self)@.ld_i(nnn),
            old(self)@.wf(),
            final(self)@.wf(),
    {
        proof {
            use_type_invariant(&*self);
        }
        self.register_i = nnn;
    }

    /// (`Bnnn`) Jumps to `nnn + V0`.
    pub fn jp_0(&mut self, nnn: u16)
        requires
            nnn < 0x1000,
        ensures
            final(self)@ == old(self)@.jp_0(nnn),
            final(self)@.pc == nnn + old(self)@.vx(0),
            old(self)@.wf(),
            final(self)@.wf(),
    {
        proof {
            use_type_invariant(&*self);
        }
        self.program_counter = nnn + self.registers[0] as u16;
    }

    /// (`Cxkk`) Loads a fresh random byte, masked with `kk`, into `Vx`.
    /// Whatever byte was drawn, no bit outside `kk` is set.
    pub fn rnd(&mut self, x: u8, kk: u8)
        requires
            x < 16,
        ensures
            exists|random: u8| final(self)@ == #[trigger] old(self)@.rnd(x, kk, random),
            final(self)@.vx(x) & !kk == 0,
            old(self)@.wf(),
            final(self)@.wf(),
    {
        let random: u8 = random_byte();
        assert((random & kk) & !kk == 0) by (bit_vector);
        self.rnd_with(x, kk, random);
    }

    /// (`Cxkk`) Loads the byte `random`, masked with `kk`, into `Vx`.
    pub fn rnd_with(&mut self, x: u8, kk: u8, random: u8)
        requires
            x < 16,
        ensures
            final(self)@ == old(self)@.rnd(x, kk, random),
            final(self)@.vx(x) == random & kk,
            old(self)@.wf(),
            final(self)@.wf(),
    {
        proof {
            use_type_invariant(&*self);
        }
        self.registers[x as usize] = random & kk;
    }

    /// (`Ex9E`) Skips the next instruction if the key whose index `Vx`
    /// holds is pressed. If `Vx` holds no key index this is a fault and
    /// nothing changes.
    pub fn skp(&mut self, x: u8, pressed_keys: [bool; 16]) -> (res: Result<(), FaultKind>)
        requires
            x < 16,
            old(self)@.pc + 2 <= u16::MAX,
        ensures
            outcome_is(old(self)@.skp(x, pressed_keys@), old(self)@, final(self)@, res),
            res is Err <==> old(self)@.vx(x) >= 16,
            old(self)@.wf(),
            final(self)@.wf(),
    {
        proof {
            use_type_invariant(&*self);
        }
        let key: u8 = self.registers[x as usize];
        if key >= 16 {
            return Err(FaultKind::KeyOutOfRange);
        }
        if pressed_keys[key as usize] {
            self.skip();
        }
        Ok(())
    }

    /// (`ExA1`) Skips the next instruction if the key whose index `Vx`
    /// holds is not pressed. If `Vx` holds no key index this is a fault and
    /// nothing changes.
    pub fn sknp(&mut self, x: u8, pressed_keys: [bool; 16]) -> (res: Result<(), FaultKind>)
        requires
            x < 16,
            old(self)@.pc + 2 <= u16::MAX,
        ensures
            outcome_is(old(self)@.sknp(x, pressed_keys@), old(self)@, final(self)@, res),
            res is Err <==> old(self)@.vx(x) >= 16,
            old(self)@.wf(),
            final(self)@.wf(),
    {
        proof {
            use_type_invariant(&*self);
        }
        let key: u8 = self.registers[x as usize];
        if key >= 16 {
            return Err(FaultKind::KeyOutOfRange);
        }
        if !pressed_keys[key as usize] {
            self.skip();
        }
        Ok(())
    }

    /// (`Fx07`) Loads the delay timer into `Vx`.
    pub fn ld_x_dt(&mut self, x: u8)
        requires
            x < 16,
        ensures
            final(self)@ == old(self)@.ld_x_dt(x),
            old(self)@.wf(),
            final(self)@.wf(),
    {
        proof {
            use_type_invariant(&*self);
        }
        self.registers[x as usize] = self.delay_timer;
    }

    /// (`Fx0A`) Starts waiting for a key, whose index will go to `Vx`.
    pub fn ld_k(&mut self, x: u8)
        requires
            x < 16,
        ensures
            final(self)@ == old(self)@.ld_k(x),
            final(self)@.wait == Some(x),
            old(self)@.wf(),
            final(self)@.wf(),
    {
        proof {
            use_type_invariant(&*self);
        }
        self.keypress_wait = Some(x);
    }

    /// (`Fx15`) Loads `Vx` into the delay timer.
    pub fn ld_dt(&mut self, x: u8)
        requires
            x < 16,
        ensures
            final(self)@ == old(self)@.ld_dt(x),
            old(self)@.wf(),
            final(self)@.wf(),
    {
        proof {
            use_type_invariant(&*self);
        }
        self.delay_timer = self.registers[x as usize];
    }

    /// (`Fx18`) Loads `Vx` into the sound timer.
    pub fn ld_st(&mut self, x: u8)
        requires
            x < 16,
        ensures
            final(self)@ == old(self)@.ld_st(x),
            old(self)@.wf(),
            final(self)@.wf(),
    {
        proof {
            use_type_invariant(&*self);
        }
        self.sound_timer = self.registers[x as usize];
    }

    /// (`Fx1E`) Adds `Vx` to `I`. The sum wraps at sixteen bits and no flag
    /// is touched.
    pub fn add_i(&mut self, x: u8)
        requires
            x < 16,
        ensures
            final(self)@ == old(self)@.add_i(x),
            old(self)@.wf(),
            final(self)@.wf(),
    {
        proof {
            use_type_invariant(&*self);
        }
        let sum: u32 = self.register_i as u32 + self.registers[x as usize] as u32;
        self.register_i = (sum % 0x10000) as u16;
    }

    /// (`Fx29`) Points `I` at the glyph of the hexadecimal digit in `Vx`.
    /// If `Vx` holds no digit this is a fault and nothing changes.
    pub fn ld_f(&mut self, x: u8) -> (res: Result<(), FaultKind>)
        requires
            x < 16,
        ensures
            outcome_is(old(self)@.ld_f(x), old(self)@, final(self)@, res),
            res is Err <==> old(self)@.vx(x) >= 16,
            res is Ok ==> final(self)@.i + 5 <= FONT_DATA@.len(),
            old(self)@.wf(),
            final(self)@.wf(),
    {
        proof {
            use_type_invariant(&*self);
        }
        let digit: u8 = self.registers[x as usize];
        if digit >= GLYPH_COUNT {
            return Err(FaultKind::DigitOutOfRange);
        }
        self.register_i = digit as u16 * GLYPH_HEIGHT as u16;
        Ok(())
    }

    /// The value of register `Vx`.
    pub fn register(&self, x: u8) -> (value: u8)
        requires
            x < 16,
        ensures
            value == self@.vx(x),
    {
        self.registers[x as usize]
    }

    /// The value of the address register `I`.
    pub fn index_register(&self) -> (value: u16)
        ensures
            value == self@.i,
    {
        self.register_i
    }

    /// The program counter.
    pub fn program_counter(&self) -> (value: u16)
        ensures
            value == self@.pc,
    {
        self.program_counter
    }

    /// The delay timer.
    pub fn delay_timer(&self) -> (value: u8)
        ensures
            value == self@.delay,
    {
        self.delay_timer
    }

    /// The sound timer: the host plays its tone while this is not 0.
    pub fn sound_timer(&self) -> (value: u8)
        ensures
            value == self@.sound,
    {
        self.sound_timer
    }

    /// The number of return addresses on the stack.
    pub fn stack_depth(&self) -> (depth: usize)
        ensures
            depth == self@.stack.len(),
            depth <= STACK_DEPTH,
    {
        proof {
            use_type_invariant(self);
        }
        self.stack_pointer
    }

    /// The register that a pending key wait will fill, if the machine
    /// waits.
    pub fn waiting_for(&self) -> (wait: Option<u8>)
        ensures
            wait == self@.wait,
    {
        self.keypress_wait
    }

    /// The byte of memory at `addr`.
    pub fn memory(&self, addr: u16) -> (value: u8)
        requires
            addr < MEMORY_SIZE,
        ensures
            value == self@.memory[addr as int],
    {
        self.ram[addr as usize]
    }

    /// Whether the pixel in column `x` of row `y` is on.
    pub fn pixel(&self, x: usize, y: usize) -> (on: bool)
        requires
            x < WIDTH,
            y < HEIGHT,
        ensures
            on == self@.screen[y as int][x as int],
    {
        self.vram[y][x]
    }

    /// The display, row by row.
    pub fn framebuffer(&self) -> (vram: &[[bool; WIDTH]; HEIGHT])
        ensures
            screen_view(*vram) == self@.screen,
    {
        &self.vram
    }
}

} // verus!
