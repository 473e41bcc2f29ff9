//! The 64x32 one-bit display and the XOR plotting of sprites, as mathematics.
//!
//! A screen is a sequence of 32 rows of 64 pixels. A sprite is a sequence of
//! at most 32 bytes, one per row, whose bit 7 is the leftmost pixel.
use vstd::prelude::*;
use crate::machine::MEMORY_SIZE;

verus! {

/// Pixels in a row.
pub const WIDTH: usize = 64;

/// Rows on the screen.
pub const HEIGHT: usize = 32;

/// A screen has 32 rows of 64 pixels.
pub open spec fn screen_wf(screen: Seq<Seq<bool>>) -> bool {
    &&& screen.len() == HEIGHT
    &&& forall|r: int| 0 <= r < HEIGHT ==> (#[trigger] screen[r]).len() == WIDTH
}

/// The screen with every pixel off.
pub open spec fn blank_screen() -> Seq<Seq<bool>> {
    Seq::new(HEIGHT as nat, |r: int| Seq::new(WIDTH as nat, |c: int| false))
}

/// Pixel `col` of a sprite row, counted from the left: bit 7 comes first.
pub open spec fn row_bit(row: u8, col: u8) -> bool
    recommends
        col < 8,
{
    (row >> ((7 - col) as u8)) & 1 == 1
}

/// Whether the sprite, placed with its top left corner at column `vx` and
/// row `vy`, has a set bit on the pixel in row `r` and column `c`. Each
/// pixel of the sprite wraps around the screen edges by itself.
pub open spec fn sprite_lights(sprite: Seq<u8>, vx: u8, vy: u8, r: int, c: int) -> bool {
    let dr = (r - vy) % (HEIGHT as int);
    let dc = (c - vx) % (WIDTH as int);
    dr < sprite.len() && dc < 8 && row_bit(sprite[dr], dc as u8)
}

/// The screen after the sprite has been XOR-ed onto it at (`vx`, `vy`).
pub open spec fn plot(screen: Seq<Seq<bool>>, sprite: Seq<u8>, vx: u8, vy: u8) -> Seq<Seq<bool>> {
    Seq::new(
        HEIGHT as nat,
        |r: int|
            Seq::new(WIDTH as nat, |c: int| screen[r][c] != sprite_lights(sprite, vx, vy, r, c)),
    )
}

/// Whether plotting the sprite at (`vx`, `vy`) turns off a pixel that is on.
pub open spec fn collides(screen: Seq<Seq<bool>>, sprite: Seq<u8>, vx: u8, vy: u8) -> bool {
    exists|r: int, c: int|
        0 <= r < HEIGHT && 0 <= c < WIDTH && #[trigger] screen[r][c] && sprite_lights(
            sprite,
            vx,
            vy,
            r,
            c,
        )
}

/// The screen that a pixel array stands for.
pub open spec fn screen_view(vram: [[bool; WIDTH]; HEIGHT]) -> Seq<Seq<bool>> {
    Seq::new(HEIGHT as nat, |r: int| vram@[r]@)
}

/// Whether the sprite pixel in sprite row `dr` and sprite column `dc` comes
/// before the one in row `j` and column `i`, rows first.
spec fn plotted_before(dr: int, dc: int, j: int, i: int) -> bool {
    dr < j || (dr == j && dc < i)
}

/// The part of `sprite_lights` that has been plotted when the pixels before
/// row `j`, column `i` of the sprite are done.
spec fn lights_so_far(sprite: Seq<u8>, vx: u8, vy: u8, r: int, c: int, j: int, i: int) -> bool {
    sprite_lights(sprite, vx, vy, r, c) && plotted_before(
        (r - vy) % (HEIGHT as int),
        (c - vx) % (WIDTH as int),
        j,
        i,
    )
}

/// XOR-plots the `n` bytes of `memory` from `start` on as a sprite at
/// (`vx`, `vy`), and tells whether a pixel went from on to off.
pub fn xor_sprite(
    vram: &mut [[bool; WIDTH]; HEIGHT],
    memory: &[u8; MEMORY_SIZE],
    start: usize,
    n: u8,
    vx: u8,
    vy: u8,
) -> (hit: bool)
    requires
        n <= HEIGHT,
        start + n <= MEMORY_SIZE,
    ensures
        screen_view(*final(vram)) == plot(
            screen_view(*old(vram)),
            memory@.subrange(start as int, start + n),
            vx,
            vy,
        ),
        hit == collides(screen_view(*old(vram)), memory@.subrange(start as int, start + n), vx, vy),
    no_unwind
{
    let ghost before = screen_view(*vram);
    let ghost sprite = memory@.subrange(start as int, start + n);
    let ghost mut witness: (int, int) = (0, 0);
    let mut hit: bool = false;
    let mut j: u8 = 0;
    while j < n
        invariant
            j <= n <= HEIGHT,
            start + n <= MEMORY_SIZE,
            sprite == memory@.subrange(start as int, start + n),
            before == screen_view(*old(vram)),
            forall|r: int, c: int|
                0 <= r < HEIGHT && 0 <= c < WIDTH ==> #[trigger] vram@[r]@[c] == (before[r][c]
                    != lights_so_far(sprite, vx, vy, r, c, j as int, 0)),
            hit ==> 0 <= witness.0 < HEIGHT && 0 <= witness.1 < WIDTH
                && before[witness.0][witness.1] && sprite_lights(
                sprite,
                vx,
                vy,
                witness.0,
                witness.1,
            ),
            !hit ==> forall|r: int, c: int|
                0 <= r < HEIGHT && 0 <= c < WIDTH ==> !(#[trigger] before[r][c] && lights_so_far(
                    sprite,
                    vx,
                    vy,
                    r,
                    c,
                    j as int,
                    0,
                )),
        decreases n - j,
    {
        let row: u8 = memory[start + j as usize];
        let py: usize = (vy as usize + j as usize) % HEIGHT;
        let mut i: u8 = 0;
        while i < 8
            invariant
                i <= 8,
                j < n <= HEIGHT,
                py == (vy + j) % (HEIGHT as int),
                row == sprite[j as int],
                sprite.len() == n,
                before == screen_view(*old(vram)),
                forall|r: int, c: int|
                    0 <= r < HEIGHT && 0 <= c < WIDTH ==> #[trigger] vram@[r]@[c] == (before[r][c]
                        != lights_so_far(sprite, vx, vy, r, c, j as int, i as int)),
                hit ==> 0 <= witness.0 < HEIGHT && 0 <= witness.1 < WIDTH
                    && before[witness.0][witness.1] && sprite_lights(
                    sprite,
                    vx,
                    vy,
                    witness.0,
                    witness.1,
                ),
                !hit ==> forall|r: int, c: int|
                    0 <= r < HEIGHT && 0 <= c < WIDTH ==> !(#[trigger] before[r][c]
                        && lights_so_far(sprite, vx, vy, r, c, j as int, i as int)),
            decreases 8 - i,
        {
            let px: usize = (vx as usize + i as usize) % WIDTH;
            let lit: bool = (row >> (7 - i)) & 1 == 1;
            let ghost prev = *vram;
            assert(lit == sprite_lights(sprite, vx, vy, py as int, px as int));
            if lit {
                if vram[py][px] {
                    hit = true;
                    proof {
                        witness = (py as int, px as int);
                    }
                }
                vram[py][px] = !vram[py][px];
            }
            assert forall|r: int, c: int|
                0 <= r < HEIGHT && 0 <= c < WIDTH implies #[trigger] vram@[r]@[c] == (before[r][c]
                != lights_so_far(sprite, vx, vy, r, c, j as int, i + 1)) by {
                assert(prev@[r]@[c] == (before[r][c] != lights_so_far(
                    sprite,
                    vx,
                    vy,
                    r,
                    c,
                    j as int,
                    i as int,
                )));
            }
            i = i + 1;
        }
        j = j + 1;
    }
    assert(screen_view(*vram) =~~= plot(before, sprite, vx, vy));
    hit
}

} // verus!
