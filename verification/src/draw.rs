//! Drawing a sprite onto the display, proved against `Chip8State::draw`.
use vstd::prelude::*;

use vstd::arithmetic::div_mod::{lemma_fundamental_div_mod, lemma_fundamental_div_mod_converse};

use crate::state::{self, Chip8State};
use crate::Chip8;

verus! {

/// Whether the sprite cell drawn onto pixel `k` comes before `(i, j)` in row-major order.
spec fn processed(x: int, y: int, i: int, j: int, k: int) -> bool {
    match state::cell_at(x, y, k) {
        Some((r, c)) => r < i || (r == i && c < j),
        None => false,
    }
}

/// Whether drawing onto pixel `k` turns it off (unbounded number of rows).
spec fn clears(s: Chip8State, x: int, y: int, k: int) -> bool {
    match state::cell_at(x, y, k) {
        Some((r, c)) => s.display[k] && state::sprite_pixel(s.sprite_byte(r), c),
        None => false,
    }
}

/// A pixel turned off by the cells drawn before `(i, j)`.
spec fn hit_before(s: Chip8State, x: int, y: int, i: int, j: int, k: int) -> bool {
    processed(x, y, i, j, k) && clears(s, x, y, k)
}

/// Whether some cell drawn before `(i, j)` turns a pixel off.
spec fn collided_before(s: Chip8State, x: int, y: int, i: int, j: int) -> bool {
    exists|k: int| 0 <= k < state::DISPLAY_SIZE && #[trigger] hit_before(s, x, y, i, j, k)
}

/// The display once every cell before `(i, j)` has been drawn.
spec fn partial_display(s: Chip8State, x: int, y: int, i: int, j: int) -> Seq<bool> {
    Seq::new(
        s.display.len(),
        |k: int|
            match state::cell_at(x, y, k) {
                Some((r, c)) => if processed(x, y, i, j, k) {
                    s.display[k] != state::sprite_pixel(s.sprite_byte(r), c)
                } else {
                    s.display[k]
                },
                None => s.display[k],
            },
    )
}

/// The machine once every cell before `(i, j)` has been drawn.
spec fn partial_draw(s: Chip8State, x: int, y: int, i: int, j: int) -> Chip8State {
    Chip8State {
        display: partial_display(s, x, y, i, j),
        v: s.v.update(15, if collided_before(s, x, y, i, j) { 1u8 } else { 0u8 }),
        ..s
    }
}

/// Column `x + j` of sprite row `i` is the pixel `64 * (y + i) + x + j`.
pub(crate) proof fn lemma_cell_of_index(x: int, y: int, i: int, j: int)
    requires
        0 <= x < 64,
        0 <= y,
        0 <= i,
        0 <= j < 8,
        x + j <= 64,
    ensures
        state::cell_at(x, y, 64 * (y + i) + x + j) == Some((i, j)),
{
    let k = 64 * (y + i) + x + j;
    if x + j < 64 {
        lemma_fundamental_div_mod_converse(k, 64, y + i, x + j);
    } else {
        lemma_fundamental_div_mod_converse(k, 64, y + i + 1, 0);
    }
}

/// Every pixel with a sprite cell is the pixel of that cell.
pub(crate) proof fn lemma_index_of_cell(x: int, y: int, k: int)
    requires
        0 <= x < 64,
        state::cell_at(x, y, k) is Some,
    ensures
        ({
            let (r, c) = state::cell_at(x, y, k)->0;
            &&& 0 <= r
            &&& 0 <= c < 8
            &&& x + c <= 64
            &&& k == 64 * (y + r) + x + c
        }),
{
    lemma_fundamental_div_mod(k, 64);
}

proof fn lemma_cells_bounded(x: int, y: int)
    requires
        0 <= x < 64,
    ensures
        forall|k: int| #[trigger]
            state::cell_at(x, y, k) is Some ==> {
                let (r, c) = state::cell_at(x, y, k)->0;
                &&& 0 <= r
                &&& 0 <= c < 8
                &&& x + c <= 64
                &&& k == 64 * (y + r) + x + c
            },
{
    assert forall|k: int| #[trigger] state::cell_at(x, y, k) is Some implies {
        let (r, c) = state::cell_at(x, y, k)->0;
        &&& 0 <= r
        &&& 0 <= c < 8
        &&& x + c <= 64
        &&& k == 64 * (y + r) + x + c
    } by {
        lemma_index_of_cell(x, y, k);
    }
}

/// Draws `rows` sprite rows from memory at `I` to `(VX mod 64, VY mod 32)`, flipping each
/// covered pixel where the sprite pixel is on, and sets VF to whether a pixel was turned off.
pub(crate) fn draw_sprite(chip8: &mut Chip8, vx: usize, vy: usize, rows: usize)
    requires
        vx < 16,
        vy < 16,
        state::draw_fits(
            old(chip8)@,
            (old(chip8)@.v[vx as int] % 64) as int,
            (old(chip8)@.v[vy as int] % 32) as int,
            rows as int,
        ),
    ensures
        final(chip8)@ == old(chip8)@.draw(
            (old(chip8)@.v[vx as int] % 64) as int,
            (old(chip8)@.v[vy as int] % 32) as int,
            rows as int,
        ),
{
    let x_coord = (chip8.registers.v[vx] % 64) as usize;
    let y_coord = (chip8.registers.v[vy] % 32) as usize;
    let ghost s0 = chip8@;
    let ghost x = x_coord as int;
    let ghost y = y_coord as int;
    proof {
        lemma_cells_bounded(x, y);
    }
    chip8.registers.v[15] = 0;
    let sprite_addr = chip8.registers.i;
    let bitmask: u8 = 0b1000_0000;
    assert(chip8@ =~= partial_draw(s0, x, y, 0, 0));
    let mut i: usize = 0;
    while i < rows
        invariant
            s0.well_sized(),
            x == x_coord,
            y == y_coord,
            x_coord < 64,
            y_coord < 32,
            sprite_addr == s0.i,
            bitmask == 0x80u8,
            state::draw_fits(s0, x, y, rows as int),
            i <= rows,
            forall|k: int| #[trigger]
                state::cell_at(x, y, k) is Some ==> {
                    let (r, c) = state::cell_at(x, y, k)->0;
                    &&& 0 <= r
                    &&& 0 <= c < 8
                    &&& x + c <= 64
                    &&& k == 64 * (y + r) + x + c
                },
            chip8@ == partial_draw(s0, x, y, i as int, 0),
        decreases rows - i,
    {
        let sprite_byte = chip8.memory.get_byte(sprite_addr + i);
        let mut j: usize = 0;
        while j < 8 && x_coord + j <= 64
            invariant
                s0.well_sized(),
                x == x_coord,
                y == y_coord,
                x_coord < 64,
                y_coord < 32,
                sprite_addr == s0.i,
                bitmask == 0x80u8,
                state::draw_fits(s0, x, y, rows as int),
                i < rows,
                j <= 8,
                sprite_byte == s0.sprite_byte(i as int),
                forall|k: int| #[trigger]
                    state::cell_at(x, y, k) is Some ==> {
                        let (r, c) = state::cell_at(x, y, k)->0;
                        &&& 0 <= r
                        &&& 0 <= c < 8
                        &&& x + c <= 64
                        &&& k == 64 * (y + r) + x + c
                    },
                chip8@ == partial_draw(s0, x, y, i as int, j as int),
            decreases 8 - j,
        {
            let display_index = 64 * (y_coord + i) + x_coord + j;
            proof {
                lemma_cell_of_index(x, y, i as int, j as int);
            }
            let current_pixel = chip8.display[display_index];
            let sprite_pixel: bool = ((bitmask >> (j as u8)) & sprite_byte) != 0;
            let ghost before = chip8@;
            if current_pixel && sprite_pixel {
                chip8.display[display_index] = false;
                chip8.registers.v[15] = 1;
            } else {
                chip8.display[display_index] = current_pixel || sprite_pixel;
            }
            proof {
                let ii = i as int;
                let jj = j as int;
                let k0 = display_index as int;
                assert forall|k: int| processed(x, y, ii, jj + 1, k) == (processed(x, y, ii, jj, k)
                    || k == k0) by {
                    if state::cell_at(x, y, k) is Some {
                    }
                }
                assert(state::cell_at(x, y, k0) == Some((ii, jj)));
                assert(!processed(x, y, ii, jj, k0));
                assert(current_pixel == s0.display[k0]);
                assert(sprite_pixel == state::sprite_pixel(s0.sprite_byte(ii), jj)) by {
                    assert(bitmask == 0x80u8);
                    assert((jj as u8) == (j as u8));
                }
                assert(clears(s0, x, y, k0) == (current_pixel && sprite_pixel));
                assert(chip8@.display =~= partial_display(s0, x, y, ii, jj + 1));
                if collided_before(s0, x, y, ii, jj) {
                    let w = choose|k: int|
                        0 <= k < state::DISPLAY_SIZE && #[trigger] hit_before(s0, x, y, ii, jj, k);
                    assert(hit_before(s0, x, y, ii, jj + 1, w));
                }
                if current_pixel && sprite_pixel {
                    assert(hit_before(s0, x, y, ii, jj + 1, k0));
                }
                if collided_before(s0, x, y, ii, jj + 1) {
                    let w = choose|k: int|
                        0 <= k < state::DISPLAY_SIZE && #[trigger] hit_before(s0, x, y, ii, jj + 1, k);
                    if w != k0 {
                        assert(hit_before(s0, x, y, ii, jj, w));
                    }
                }
                assert(chip8@ =~= partial_draw(s0, x, y, ii, jj + 1));
            }
            j = j + 1;
        }
        proof {
            let ii = i as int;
            let jj = j as int;
            assert forall|k: int| processed(x, y, ii, jj, k) == processed(x, y, ii + 1, 0, k) by {
                if state::cell_at(x, y, k) is Some {
                }
            }
            assert forall|k: int|
                hit_before(s0, x, y, ii, jj, k) == hit_before(s0, x, y, ii + 1, 0, k) by {}
            if collided_before(s0, x, y, ii, jj) {
                let w = choose|k: int|
                    0 <= k < state::DISPLAY_SIZE && #[trigger] hit_before(s0, x, y, ii, jj, k);
                assert(hit_before(s0, x, y, ii + 1, 0, w));
            }
            if collided_before(s0, x, y, ii + 1, 0) {
                let w = choose|k: int|
                    0 <= k < state::DISPLAY_SIZE && #[trigger] hit_before(s0, x, y, ii + 1, 0, k);
                assert(hit_before(s0, x, y, ii, jj, w));
            }
            assert(partial_display(s0, x, y, ii, jj) =~= partial_display(s0, x, y, ii + 1, 0));
            assert(chip8@ =~= partial_draw(s0, x, y, ii + 1, 0));
        }
        i = i + 1;
    }
    proof {
        let n = rows as int;
        assert forall|k: int| #[trigger]
            s0.draw_clears(x, y, n, k) == hit_before(s0, x, y, n, 0, k) by {}
        assert(partial_display(s0, x, y, n, 0) =~= s0.drawn_display(x, y, n));
        if collided_before(s0, x, y, n, 0) {
            let w = choose|k: int|
                0 <= k < state::DISPLAY_SIZE && #[trigger] hit_before(s0, x, y, n, 0, k);
            assert(s0.draw_clears(x, y, n, w));
        }
        if exists|k: int| 0 <= k < state::DISPLAY_SIZE && #[trigger] s0.draw_clears(x, y, n, k) {
            let w = choose|k: int| 0 <= k < state::DISPLAY_SIZE && #[trigger] s0.draw_clears(x, y, n, k);
            assert(hit_before(s0, x, y, n, 0, w));
        }
        assert(chip8@ =~= s0.draw(x, y, n));
    }
}

} // verus!
