//! Laws of the machine: what holds of every state and every input.
use vstd::prelude::*;
use crate::display::{collides, plot, screen_wf, sprite_lights, HEIGHT, WIDTH};
use crate::fault::{Fault, FaultKind, Step};
use crate::instruction::{
    word_class, word_kk, word_n, word_nnn, word_x, word_y, Instruction,
};
use crate::machine::{
    bytes_at, first_pressed, flag_value, in_memory, is_first_pressed, Machine, FLAG, STACK_DEPTH,
};

verus! {

/// Whether the sprite at (`vx`, `vy`) has a set bit on a pixel that is off.
pub open spec fn lights_dark_pixel(screen: Seq<Seq<bool>>, sprite: Seq<u8>, vx: u8, vy: u8) -> bool {
    exists|r: int, c: int|
        0 <= r < HEIGHT && 0 <= c < WIDTH && !(#[trigger] screen[r][c]) && sprite_lights(
            sprite,
            vx,
            vy,
            r,
            c,
        )
}

/// Every image boots into a well-formed machine.
pub proof fn lemma_boot_wf(rom: Seq<u8>)
    ensures
        Machine::boot(rom).wf(),
{
}

/// A step keeps a well-formed machine well-formed: in particular the stack
/// depth stays within 0 and 16, whatever the program does.
pub proof fn lemma_step_preserves_wf(m: Machine, decrement: bool, keys: Seq<bool>, random: u8)
    requires
        m.wf(),
        keys.len() == 16,
    ensures
        m.step(decrement, keys, random).0.wf(),
{
    let ticked = m.tick(decrement);
    match ticked.wait {
        Some(x) => {
            lemma_first_pressed(keys);
        },
        None => {
            if ticked.can_fetch() {
                let instr = Instruction::decoded(ticked.fetch());
                Instruction::lemma_decoded_wf(ticked.fetch());
                let fetched = Machine { pc: (ticked.pc + 2) as u16, ..ticked };
                lemma_execute_preserves_wf(fetched, instr, keys, random);
            }
        },
    }
}

/// Executing an instruction keeps a well-formed machine well-formed.
pub proof fn lemma_execute_preserves_wf(
    m: Machine,
    instr: Instruction,
    keys: Seq<bool>,
    random: u8,
)
    requires
        m.wf(),
        instr.wf(),
    ensures
        m.execute(instr, keys, random) matches Ok(next) ==> next.wf(),
{
}

/// What `first_pressed` finds is the lowest pressed key, and it finds none
/// only if no key is pressed.
pub proof fn lemma_first_pressed(keys: Seq<bool>)
    requires
        keys.len() <= 256,
    ensures
        first_pressed(keys) matches Some(k) ==> is_first_pressed(keys, k as int),
        first_pressed(keys) is None ==> forall|k: int| 0 <= k < keys.len() ==> !keys[k],
{
    if first_pressed(keys) is None {
        assert forall|k: int| 0 <= k < keys.len() implies !keys[k] by {
            if keys[k] {
                lemma_lowest_exists(keys, k);
            }
        }
    }
}

/// If key `k` is pressed, some key at or below `k` is the lowest pressed.
proof fn lemma_lowest_exists(keys: Seq<bool>, k: int)
    requires
        0 <= k < keys.len(),
        keys[k],
    ensures
        exists|j: int| is_first_pressed(keys, j),
    decreases k,
{
    if forall|j: int| 0 <= j < k ==> !keys[j] {
        assert(is_first_pressed(keys, k));
    } else {
        let j = choose|j: int| 0 <= j < k && keys[j];
        lemma_lowest_exists(keys, j);
    }
}

/// The lowest pressed key is unique: if `k` is it, `first_pressed` says so.
pub proof fn lemma_first_pressed_is(keys: Seq<bool>, k: int)
    requires
        is_first_pressed(keys, k),
        k < 256,
    ensures
        first_pressed(keys) == Some(k as u8),
{
    let c = choose|j: int| is_first_pressed(keys, j);
    assert(is_first_pressed(keys, c));
    if c < k {
        assert(!keys[c]);
    }
    if k < c {
        assert(!keys[k]);
    }
}

/// Plotting is an involution: the same sprite plotted twice at the same
/// place leaves the screen as it was.
pub proof fn lemma_plot_twice(screen: Seq<Seq<bool>>, sprite: Seq<u8>, vx: u8, vy: u8)
    requires
        screen_wf(screen),
    ensures
        plot(plot(screen, sprite, vx, vy), sprite, vx, vy) == screen,
        screen_wf(plot(screen, sprite, vx, vy)),
{
    let once = plot(screen, sprite, vx, vy);
    let twice = plot(once, sprite, vx, vy);
    assert forall|r: int| 0 <= r < HEIGHT implies #[trigger] twice[r] =~= screen[r] by {
        assert forall|c: int| 0 <= c < WIDTH implies twice[r][c] == screen[r][c] by {
            assert(once[r][c] == (screen[r][c] != sprite_lights(sprite, vx, vy, r, c)));
        }
    }
    assert(twice =~= screen);
}

/// The second of two equal plots collides exactly if the sprite has a set
/// bit on a pixel that was off before the first: there the first plot
/// turned the pixel on and the second turns it off again.
pub proof fn lemma_second_plot_collides(screen: Seq<Seq<bool>>, sprite: Seq<u8>, vx: u8, vy: u8)
    requires
        screen_wf(screen),
    ensures
        collides(plot(screen, sprite, vx, vy), sprite, vx, vy) <==> lights_dark_pixel(
            screen,
            sprite,
            vx,
            vy,
        ),
{
    let once = plot(screen, sprite, vx, vy);
    if collides(once, sprite, vx, vy) {
        let (r, c) = choose|r: int, c: int|
            0 <= r < HEIGHT && 0 <= c < WIDTH && #[trigger] once[r][c] && sprite_lights(
                sprite,
                vx,
                vy,
                r,
                c,
            );
        assert(!screen[r][c]);
    }
    if lights_dark_pixel(screen, sprite, vx, vy) {
        let (r, c) = choose|r: int, c: int|
            0 <= r < HEIGHT && 0 <= c < WIDTH && !(#[trigger] screen[r][c]) && sprite_lights(
                sprite,
                vx,
                vy,
                r,
                c,
            );
        assert(once[r][c]);
    }
}

/// Drawing the same sprite twice at the same place, from registers other
/// than the flag register, restores the display. The second draw sets the
/// flag exactly if the sprite has a set bit on a pixel that was off at the
/// start; so it leaves the flag 0 exactly if every set bit of the sprite
/// fell on a pixel that was on.
pub proof fn lemma_draw_twice(m: Machine, x: u8, y: u8, n: u8)
    requires
        m.wf(),
        x < 16,
        y < 16,
        n < 16,
        x != FLAG,
        y != FLAG,
        in_memory(m.i, n as int),
    ensures
        m.drw(x, y, n) is Ok,
        m.drw(x, y, n)->Ok_0.drw(x, y, n) is Ok,
        m.drw(x, y, n)->Ok_0.drw(x, y, n)->Ok_0.screen == m.screen,
        m.drw(x, y, n)->Ok_0.drw(x, y, n)->Ok_0.vx(FLAG) == flag_value(
            lights_dark_pixel(m.screen, bytes_at(m.memory, m.i, n), m.vx(x), m.vx(y)),
        ),
{
    let sprite = bytes_at(m.memory, m.i, n);
    let first = m.drw(x, y, n)->Ok_0;
    assert(bytes_at(first.memory, first.i, n) == sprite);
    assert(first.vx(x) == m.vx(x) && first.vx(y) == m.vx(y));
    lemma_plot_twice(m.screen, sprite, m.vx(x), m.vx(y));
    lemma_second_plot_collides(m.screen, sprite, m.vx(x), m.vx(y));
}

/// However many pixels collide, a draw leaves the flag at 0 or 1: 1 if any
/// pixel went from on to off, else 0.
pub proof fn lemma_draw_flag(m: Machine, x: u8, y: u8, n: u8)
    requires
        m.wf(),
        x < 16,
        y < 16,
        in_memory(m.i, n as int),
    ensures
        m.drw(x, y, n) matches Ok(next) && next.vx(FLAG) <= 1 && (next.vx(FLAG) == 1 <==> collides(
            m.screen,
            bytes_at(m.memory, m.i, n),
            m.vx(x),
            m.vx(y),
        )),
{
}

/// A jump word `1nnn` sets the program counter to `nnn`, whatever the
/// advance past the word had made of it, and changes nothing else.
pub proof fn lemma_jump_overrides_advance(m: Machine, decrement: bool, keys: Seq<bool>, random: u8)
    requires
        m.wf(),
        m.wait is None,
        m.can_fetch(),
        0x1000 <= m.fetch() <= 0x1FFF,
    ensures
        m.step(decrement, keys, random) == (
            Machine { pc: (m.fetch() - 0x1000) as u16, ..m.tick(decrement) },
            Ok::<Step, Fault>(Step::Executed),
        ),
{
    let word = m.fetch();
    assert(word_nnn(word) == word - 0x1000);
    assert(Instruction::decoded(word) == Instruction::Jp(word_nnn(word)));
}

/// A call followed by a return is back where it started.
pub proof fn lemma_call_then_ret(m: Machine, addr: u16)
    requires
        m.wf(),
        m.stack.len() < STACK_DEPTH,
    ensures
        m.call(addr) matches Ok(called) && called.stack.len() == m.stack.len() + 1 && called.ret()
            == Ok::<Machine, FaultKind>(m),
{
    let called = m.call(addr)->Ok_0;
    assert(called.stack.drop_last() =~= m.stack);
}

/// A call succeeds exactly while fewer than sixteen return addresses are
/// on the stack; a return succeeds exactly while there is one.
pub proof fn lemma_stack_limits(m: Machine, addr: u16)
    requires
        m.wf(),
    ensures
        m.call(addr) is Ok <==> m.stack.len() < STACK_DEPTH,
        m.call(addr) is Err ==> m.call(addr) == Err::<Machine, FaultKind>(FaultKind::StackOverflow),
        m.ret() is Ok <==> m.stack.len() > 0,
        m.ret() is Err ==> m.ret() == Err::<Machine, FaultKind>(FaultKind::StackUnderflow),
{
}

/// While the machine waits and no key is pressed, a step does nothing but
/// the timer pulse: registers and program counter stay frozen.
pub proof fn lemma_wait_freezes(m: Machine, decrement: bool, keys: Seq<bool>, random: u8)
    requires
        m.wf(),
        m.wait is Some,
        forall|k: int| 0 <= k < keys.len() ==> !keys[k],
    ensures
        m.step(decrement, keys, random) == (m.tick(decrement), Ok::<Step, Fault>(Step::KeyWait)),
        m.step(decrement, keys, random).0.v == m.v,
        m.step(decrement, keys, random).0.pc == m.pc,
        m.step(decrement, keys, random).0.wait == m.wait,
{
    if exists|k: int| is_first_pressed(keys, k) {
        let k = choose|k: int| is_first_pressed(keys, k);
        assert(keys[k]);
    }
}

/// While the machine waits for a key for `Vx`, a step with key `k` the
/// lowest pressed stores `k` in `Vx` and ends the wait, without fetching:
/// the program counter stays, and the next step fetches again.
pub proof fn lemma_wait_ends_on_key(
    m: Machine,
    decrement: bool,
    keys: Seq<bool>,
    k: u8,
    random: u8,
)
    requires
        m.wf(),
        m.wait is Some,
        is_first_pressed(keys, k as int),
    ensures
        m.step(decrement, keys, random) == (
            Machine { wait: None, ..m.tick(decrement).set_v(m.wait->Some_0, k) },
            Ok::<Step, Fault>(Step::KeyWait),
        ),
        m.step(decrement, keys, random).0.vx(m.wait->Some_0) == k,
        m.step(decrement, keys, random).0.pc == m.pc,
{
    lemma_first_pressed_is(keys, k as int);
}

/// A word that is no instruction costs a step that moves the program
/// counter past it and, the timer pulse apart, changes nothing.
pub proof fn lemma_unsupported_only_advances(
    m: Machine,
    decrement: bool,
    keys: Seq<bool>,
    random: u8,
)
    requires
        m.wf(),
        m.wait is None,
        m.can_fetch(),
        Instruction::decoded(m.fetch()) is Unsupported,
    ensures
        m.step(decrement, keys, random) == (
            Machine { pc: (m.pc + 2) as u16, ..m.tick(decrement) },
            Ok::<Step, Fault>(Step::Unsupported(m.fetch())),
        ),
{
}

/// The random byte matters to a step only if the step fetches the
/// instruction that asks for one.
pub proof fn lemma_random_matters_only_when_drawn(
    m: Machine,
    decrement: bool,
    keys: Seq<bool>,
    r1: u8,
    r2: u8,
)
    requires
        !m.draws_random(),
    ensures
        m.step(decrement, keys, r1) == m.step(decrement, keys, r2),
{
}

/// The timers never pass below 0: a pulse takes one from a timer that is
/// above 0 and leaves one at 0 alone; without a pulse neither moves.
pub proof fn lemma_timers_saturate(m: Machine, decrement: bool)
    ensures
        m.tick(decrement).delay == if decrement && m.delay > 0 {
            m.delay - 1
        } else {
            m.delay as int
        },
        m.tick(decrement).sound == if decrement && m.sound > 0 {
            m.sound - 1
        } else {
            m.sound as int
        },
{
}

/// An addition of registers leaves the sum modulo 256 in `Vx`; unless `Vx`
/// is the flag register itself, the flag is 1 if the sum exceeds 255 and 0
/// if it does not.
pub proof fn lemma_add_xy(m: Machine, x: u8, y: u8)
    requires
        m.wf(),
        x < 16,
        y < 16,
    ensures
        m.add_xy(x, y).vx(x) == (m.vx(x) + m.vx(y)) % 256,
        x != FLAG ==> m.add_xy(x, y).vx(FLAG) == flag_value(m.vx(x) + m.vx(y) > 255),
        forall|z: u8| z < 16 && z != x && z != FLAG ==> m.add_xy(x, y).vx(z) == m.vx(z),
{
}

/// A subtraction of registers leaves the difference modulo 256 in `Vx`;
/// unless `Vx` is the flag register itself, the flag is 1 if nothing was
/// borrowed (`Vx >= Vy`) and 0 if something was.
pub proof fn lemma_sub_xy(m: Machine, x: u8, y: u8)
    requires
        m.wf(),
        x < 16,
        y < 16,
    ensures
        m.sub_xy(x, y).vx(x) == (m.vx(x) - m.vx(y)) % 256,
        x != FLAG ==> m.sub_xy(x, y).vx(FLAG) == flag_value(m.vx(x) >= m.vx(y)),
        forall|z: u8| z < 16 && z != x && z != FLAG ==> m.sub_xy(x, y).vx(z) == m.vx(z),
{
}

/// A right shift of a register other than the flag register leaves the
/// lowest bit in the flag and the halved value in `Vx`, and reads no other
/// register.
pub proof fn lemma_shr_x(m: Machine, x: u8)
    requires
        m.wf(),
        x < 16,
        x != FLAG,
    ensures
        m.shr_x(x).vx(FLAG) == m.vx(x) & 1,
        m.shr_x(x).vx(x) == m.vx(x) >> 1,
        forall|z: u8| z < 16 && z != x && z != FLAG ==> m.shr_x(x).vx(z) == m.vx(z),
{
    let v = m.vx(x);
    assert(v & 1 == v % 2) by (bit_vector);
    assert(v >> 1 == v / 2) by (bit_vector);
}

/// Whether an instruction may set the program counter: jumps, calls,
/// returns and skips.
pub open spec fn transfers_control(instr: Instruction) -> bool {
    match instr {
        Instruction::Ret
        | Instruction::Jp(_)
        | Instruction::Call(_)
        | Instruction::Jp0(_)
        | Instruction::Se(_, _)
        | Instruction::Sne(_, _)
        | Instruction::SeXy(_, _)
        | Instruction::SneXy(_, _)
        | Instruction::Skp(_)
        | Instruction::Sknp(_) => true,
        _ => false,
    }
}

/// A step that fetches moves the program counter on by exactly 2, fault or
/// no fault, unless the instruction is a jump, a call, a return or a skip.
pub proof fn lemma_fetch_advances_by_two(m: Machine, decrement: bool, keys: Seq<bool>, random: u8)
    requires
        m.wf(),
        m.wait is None,
        m.can_fetch(),
        !transfers_control(Instruction::decoded(m.fetch())),
    ensures
        m.step(decrement, keys, random).0.pc == m.pc + 2,
{
}

/// The word made of four nibbles, the highest first.
pub open spec fn word_of(class: u8, x: u8, y: u8, n: u8) -> u16 {
    (0x1000 * class + 0x100 * x + 0x10 * y + n) as u16
}

/// The fields of a word are the nibbles it is made of.
pub proof fn lemma_word_fields(class: u8, x: u8, y: u8, n: u8)
    requires
        class < 16,
        x < 16,
        y < 16,
        n < 16,
    ensures
        word_class(word_of(class, x, y, n)) == class,
        word_x(word_of(class, x, y, n)) == x,
        word_y(word_of(class, x, y, n)) == y,
        word_n(word_of(class, x, y, n)) == n,
        word_kk(word_of(class, x, y, n)) == 0x10 * y + n,
        word_nnn(word_of(class, x, y, n)) == 0x100 * x + 0x10 * y + n,
{
    let w = word_of(class, x, y, n);
    assert(w / 0x1000 == class && (w / 0x100) % 0x10 == x && (w / 0x10) % 0x10 == y && w % 0x10
        == n && w % 0x100 == 0x10 * y + n && w % 0x1000 == 0x100 * x + 0x10 * y + n)
        by (bit_vector)
        requires
            class < 16 && x < 16 && y < 16 && n < 16,
            w == 0x1000 * class + 0x100 * x + 0x10 * y + n,
    ;
}

/// The shifts take only `x` from their word: the words `8xy6` decode to
/// the same right shift of `Vx` whatever `y` is, and the words `8xyE` to
/// the same left shift.
pub proof fn lemma_shift_ignores_y(x: u8, y: u8)
    requires
        x < 16,
        y < 16,
    ensures
        Instruction::decoded(word_of(8, x, y, 0x6)) == Instruction::ShrX(x),
        Instruction::decoded(word_of(8, x, y, 0xE)) == Instruction::ShlX(x),
{
    lemma_word_fields(8, x, y, 0x6);
    lemma_word_fields(8, x, y, 0xE);
}

} // verus!
