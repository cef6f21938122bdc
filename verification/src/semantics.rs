//! What each instruction does, stated directly over registers, memory, the display and the
//! keypad of the machine before and after it.
use vstd::prelude::*;

use crate::draw::{lemma_cell_of_index, lemma_index_of_cell};
use crate::instructions::{lemma_first_pressed_stable, Op};
use crate::keypad::{keypad_after, KeypadEvent};
use crate::display::display_text_spec;
use crate::instructions::decode_spec;
use crate::memory::{fontset, FONTSET_SIZE, MEMORY_SIZE};
use crate::state::{self, Chip8State};

verus! {

/// The display pixel at column `x + c` of display row `y + r`, counted row-major with 64
/// pixels per row.
pub open spec fn pixel_index(x: int, y: int, r: int, c: int) -> int {
    64 * (y + r) + x + c
}

/// Column `c` of a sprite row `b` is lit exactly when bit `7 - c` of `b` is set.
proof fn lemma_sprite_bit(b: u8, c: int)
    requires
        0 <= c < 8,
    ensures
        state::sprite_pixel(b, c) == ((b >> ((7 - c) as u8)) & 1u8 == 1u8),
{
    let cu = c as u8;
    let d = (7 - c) as u8;
    assert((((0x80u8 >> cu) & b) != 0u8) == ((b >> d) & 1u8 == 1u8)) by (bit_vector)
        requires
            cu < 8,
            d + cu == 7,
    ;
}

/// DXYN: the pixel at column `c` (with `X + c < 64`, X and Y taken mod 64 and 32) of sprite
/// row `r < N` becomes its old value XOR bit `7 - c` of the byte at `I + r`: the most
/// significant bit is the leftmost pixel.
pub proof fn law_draw_pixel(s: Chip8State, x: usize, y: usize, n: usize, r: int, c: int, rand: u8)
    requires
        s.well_sized(),
        x < 16,
        y < 16,
        0 <= r < n,
        0 <= c < 8,
        s.v[x as int] % 64 + c < 64,
        64 * (s.v[y as int] % 32 + r) + s.v[x as int] % 64 + c < state::DISPLAY_SIZE,
    ensures
        ({
            let t = state::step(Op::Draw(x, y, n), s, rand);
            let k = 64 * (s.v[y as int] % 32 + r) + s.v[x as int] % 64 + c;
            t.display[k] == (s.display[k] != ((s.mem[s.i + r] >> ((7 - c) as u8)) & 1u8 == 1u8))
        }),
{
    let xc = (s.v[x as int] % 64) as int;
    let yc = (s.v[y as int] % 32) as int;
    lemma_cell_of_index(xc, yc, r, c);
    lemma_sprite_bit(s.mem[s.i + r], c);
}

/// DXYN: the column just right of the display edge (X + c == 64) of sprite row `r` is drawn
/// onto the first pixel of the next display row.
pub proof fn law_draw_spill_column(s: Chip8State, x: usize, y: usize, n: usize, r: int, c: int, rand: u8)
    requires
        s.well_sized(),
        x < 16,
        y < 16,
        0 <= r < n,
        0 <= c < 8,
        s.v[x as int] % 64 + c == 64,
        64 * (s.v[y as int] % 32 + r + 1) < state::DISPLAY_SIZE,
    ensures
        ({
            let t = state::step(Op::Draw(x, y, n), s, rand);
            let k = 64 * (s.v[y as int] % 32 + r + 1);
            t.display[k] == (s.display[k] != ((s.mem[s.i + r] >> ((7 - c) as u8)) & 1u8 == 1u8))
        }),
{
    let xc = (s.v[x as int] % 64) as int;
    let yc = (s.v[y as int] % 32) as int;
    lemma_cell_of_index(xc, yc, r, c);
    assert(64 * (yc + r) + xc + c == 64 * (yc + r + 1));
    lemma_sprite_bit(s.mem[s.i + r], c);
}

/// DXYN: a pixel that no sprite cell `(r, c)` with `r < N`, `c < 8`, `X + c <= 64` lands on
/// keeps its value; so do memory and every register but VF.
pub proof fn law_draw_leaves_other_pixels(s: Chip8State, x: usize, y: usize, n: usize, k: int, rand: u8)
    requires
        s.well_sized(),
        x < 16,
        y < 16,
        0 <= k < state::DISPLAY_SIZE,
        forall|r: int, c: int|
            0 <= r < n && 0 <= c < 8 && s.v[x as int] % 64 + c <= 64 ==> k != #[trigger] pixel_index(
                (s.v[x as int] % 64) as int,
                (s.v[y as int] % 32) as int,
                r,
                c,
            ),
    ensures
        ({
            let t = state::step(Op::Draw(x, y, n), s, rand);
            &&& t.display[k] == s.display[k]
            &&& t.mem == s.mem
            &&& t.i == s.i
            &&& t.pc == s.pc
            &&& forall|j: int| 0 <= j < 15 ==> t.v[j] == s.v[j]
        }),
{
    let xc = (s.v[x as int] % 64) as int;
    let yc = (s.v[y as int] % 32) as int;
    if state::cell_at(xc, yc, k) is Some {
        lemma_index_of_cell(xc, yc, k);
        let (r, c) = state::cell_at(xc, yc, k)->0;
        if r < n {
            assert(k == pixel_index(xc, yc, r, c));
        }
    }
}

/// FX0A with key `k` pressed and no lower key pressed: VX receives `k` and the program counter
/// stays, so execution goes on; everything else is kept.
pub proof fn law_get_key_takes_lowest_pressed(s: Chip8State, x: usize, k: int, rand: u8)
    requires
        s.well_sized(),
        x < 16,
        0 <= k < 16,
        s.keypad[k],
        forall|j: int| 0 <= j < k ==> !s.keypad[j],
    ensures
        ({
            let t = state::step(Op::GetKey(x), s, rand);
            &&& t.v[x as int] == k
            &&& t.pc == s.pc
            &&& Chip8State { v: s.v, ..t } == s
            &&& forall|j: int| 0 <= j < 16 && j != x ==> t.v[j] == s.v[j]
        }),
{
    lemma_first_pressed_none(s.keypad, k);
    assert(state::first_pressed(s.keypad, k + 1) == Some(k));
    lemma_first_pressed_stable(s.keypad, k + 1, 16);
}

/// FX0A with no key pressed: the program counter moves back by 2 and nothing else changes.
pub proof fn law_get_key_waits_without_key(s: Chip8State, x: usize, rand: u8)
    requires
        s.well_sized(),
        x < 16,
        s.pc >= 2,
        forall|j: int| 0 <= j < 16 ==> !s.keypad[j],
    ensures
        ({
            let t = state::step(Op::GetKey(x), s, rand);
            &&& t.pc == s.pc - 2
            &&& Chip8State { pc: s.pc, ..t } == s
        }),
{
    lemma_first_pressed_none(s.keypad, 16);
}

proof fn lemma_first_pressed_none(keys: Seq<bool>, n: int)
    requires
        0 <= n <= keys.len(),
        forall|j: int| 0 <= j < n ==> !keys[j],
    ensures
        state::first_pressed(keys, n) is None,
    decreases n,
{
    if n > 0 {
        lemma_first_pressed_none(keys, n - 1);
    }
}

/// The conditional skips: the program counter moves on by 2 exactly when the condition holds
/// (3XNN: VX == NN, 4XNN: VX != NN, 5XY0: VX == VY, 9XY0: VX != VY, EX9E: key VX down,
/// EXA1: key VX up), and nothing else changes.
pub proof fn law_skips(s: Chip8State, x: usize, y: usize, nn: u8, rand: u8)
    requires
        s.well_sized(),
        s.pc + 2 <= usize::MAX,
        x < 16,
        y < 16,
    ensures
        ({
            let t = state::step(Op::SkipIfEqImm(x, nn), s, rand);
            &&& t.pc == if s.v[x as int] == nn { s.pc + 2 } else { s.pc as int }
            &&& Chip8State { pc: s.pc, ..t } == s
        }),
        ({
            let t = state::step(Op::SkipIfNotEqImm(x, nn), s, rand);
            &&& t.pc == if s.v[x as int] != nn { s.pc + 2 } else { s.pc as int }
            &&& Chip8State { pc: s.pc, ..t } == s
        }),
        ({
            let t = state::step(Op::SkipIfEq(x, y), s, rand);
            &&& t.pc == if s.v[x as int] == s.v[y as int] { s.pc + 2 } else { s.pc as int }
            &&& Chip8State { pc: s.pc, ..t } == s
        }),
        ({
            let t = state::step(Op::SkipIfNotEq(x, y), s, rand);
            &&& t.pc == if s.v[x as int] != s.v[y as int] { s.pc + 2 } else { s.pc as int }
            &&& Chip8State { pc: s.pc, ..t } == s
        }),
        s.v[x as int] < 16 ==> ({
            let t = state::step(Op::SkipIfKeyDown(x), s, rand);
            &&& t.pc == if s.keypad[s.v[x as int] as int] { s.pc + 2 } else { s.pc as int }
            &&& Chip8State { pc: s.pc, ..t } == s
        }),
        s.v[x as int] < 16 ==> ({
            let t = state::step(Op::SkipIfKeyUp(x), s, rand);
            &&& t.pc == if !s.keypad[s.v[x as int] as int] { s.pc + 2 } else { s.pc as int }
            &&& Chip8State { pc: s.pc, ..t } == s
        }),
{
}

/// The jumps: 1NNN sets the program counter to NNN, BNNN to the sum NNN + V0; 2NNN pushes
/// the program counter onto the stack and jumps; 00EE pops the top of the stack into the
/// program counter. Nothing else changes.
pub proof fn law_jumps(s: Chip8State, a: usize, rand: u8)
    requires
        s.well_sized(),
        a + s.v[0] <= usize::MAX,
    ensures
        ({
            let t = state::step(Op::Jump(a), s, rand);
            &&& t.pc == a
            &&& Chip8State { pc: s.pc, ..t } == s
        }),
        ({
            let t = state::step(Op::JumpWithOffset(a), s, rand);
            &&& t.pc == a + s.v[0]
            &&& Chip8State { pc: s.pc, ..t } == s
        }),
        ({
            let t = state::step(Op::CallSubroutine(a), s, rand);
            &&& t.pc == a
            &&& t.stack.len() == s.stack.len() + 1
            &&& t.stack[s.stack.len() as int] == s.pc
            &&& t.stack.subrange(0, s.stack.len() as int) == s.stack
            &&& Chip8State { pc: s.pc, stack: s.stack, ..t } == s
        }),
        s.stack.len() > 0 ==> ({
            let t = state::step(Op::RetSubroutine, s, rand);
            &&& t.pc == s.stack[s.stack.len() - 1]
            &&& t.stack == s.stack.subrange(0, s.stack.len() - 1)
            &&& Chip8State { pc: s.pc, stack: s.stack, ..t } == s
        }),
{
    let t = state::step(Op::CallSubroutine(a), s, rand);
    assert(t.stack.subrange(0, s.stack.len() as int) =~= s.stack);
    if s.stack.len() > 0 {
        let u = state::step(Op::RetSubroutine, s, rand);
        assert(u.stack =~= s.stack.subrange(0, s.stack.len() - 1));
    }
}

/// A key-down event leaves key `k` pressed and a key-up event leaves it released, whatever
/// it was before; the other keys keep their state, and events naming no key change nothing.
pub proof fn law_key_events(keys: Seq<bool>, k: usize)
    ensures
        k < keys.len() ==> keypad_after(keys, KeypadEvent::KeyDown(k))[k as int],
        k < keys.len() ==> !keypad_after(keys, KeypadEvent::KeyUp(k))[k as int],
        keypad_after(keys, KeypadEvent::KeyDown(k)).len() == keys.len(),
        keypad_after(keys, KeypadEvent::KeyUp(k)).len() == keys.len(),
        forall|j: int|
            0 <= j < keys.len() && j != k ==> #[trigger] keypad_after(keys, KeypadEvent::KeyDown(k))[j]
                == keys[j],
        forall|j: int|
            0 <= j < keys.len() && j != k ==> #[trigger] keypad_after(keys, KeypadEvent::KeyUp(k))[j]
                == keys[j],
        k >= keys.len() ==> keypad_after(keys, KeypadEvent::KeyDown(k)) == keys,
        k >= keys.len() ==> keypad_after(keys, KeypadEvent::KeyUp(k)) == keys,
{
}

/// 00E0 turns every pixel off and changes nothing else.
pub proof fn law_clear_screen(s: Chip8State, rand: u8)
    requires
        s.well_sized(),
    ensures
        ({
            let t = state::step(Op::ClearScreen, s, rand);
            &&& forall|k: int| 0 <= k < state::DISPLAY_SIZE ==> !#[trigger] t.display[k]
            &&& t.display.len() == s.display.len()
            &&& Chip8State { display: s.display, ..t } == s
        }),
{
}

/// Whether two register files agree everywhere except at register `x`.
pub open spec fn same_except(a: Seq<u8>, b: Seq<u8>, x: int) -> bool {
    a.len() == b.len() && forall|j: int| 0 <= j < a.len() && j != x ==> #[trigger] a[j] == b[j]
}

/// The register loads and logic: 6XNN puts NN into VX, 7XNN adds NN to VX modulo 256 (VF
/// untouched), 8XY0 copies VY, 8XY1/2/3 put VX OR/AND/XOR VY into VX; CXNN puts the random
/// byte masked by NN; FX07 the delay timer. Only VX changes.
pub proof fn law_register_writes(s: Chip8State, x: usize, y: usize, nn: u8, rand: u8)
    requires
        s.well_sized(),
        x < 16,
        y < 16,
    ensures
        ({
            let t = state::step(Op::SetImm(x, nn), s, rand);
            t.v[x as int] == nn && same_except(t.v, s.v, x as int) && Chip8State { v: s.v, ..t } == s
        }),
        ({
            let t = state::step(Op::AddImm(x, nn), s, rand);
            &&& t.v[x as int] == (s.v[x as int] + nn) % 256
            &&& same_except(t.v, s.v, x as int)
            &&& Chip8State { v: s.v, ..t } == s
        }),
        ({
            let t = state::step(Op::SetReg(x, y), s, rand);
            &&& t.v[x as int] == s.v[y as int]
            &&& same_except(t.v, s.v, x as int)
            &&& Chip8State { v: s.v, ..t } == s
        }),
        ({
            let t = state::step(Op::Or(x, y), s, rand);
            &&& t.v[x as int] == s.v[x as int] | s.v[y as int]
            &&& same_except(t.v, s.v, x as int)
            &&& Chip8State { v: s.v, ..t } == s
        }),
        ({
            let t = state::step(Op::And(x, y), s, rand);
            &&& t.v[x as int] == s.v[x as int] & s.v[y as int]
            &&& same_except(t.v, s.v, x as int)
            &&& Chip8State { v: s.v, ..t } == s
        }),
        ({
            let t = state::step(Op::Xor(x, y), s, rand);
            &&& t.v[x as int] == s.v[x as int] ^ s.v[y as int]
            &&& same_except(t.v, s.v, x as int)
            &&& Chip8State { v: s.v, ..t } == s
        }),
        ({
            let t = state::step(Op::Random(x, nn), s, rand);
            &&& t.v[x as int] == nn & rand
            &&& same_except(t.v, s.v, x as int)
            &&& Chip8State { v: s.v, ..t } == s
        }),
        ({
            let t = state::step(Op::GetDelayTimer(x), s, rand);
            &&& t.v[x as int] == s.delay
            &&& same_except(t.v, s.v, x as int)
            &&& Chip8State { v: s.v, ..t } == s
        }),
{
}

/// 8XY4 (X other than F): VX gets the low byte of VX + VY and VF the carry; only VX and VF change.
pub proof fn law_add_semantics(s: Chip8State, x: usize, y: usize, rand: u8)
    requires
        s.well_sized(),
        x < 15,
        y < 16,
    ensures
        ({
            let t = state::step(Op::Add(x, y), s, rand);
            &&& t.v[x as int] == (s.v[x as int] + s.v[y as int]) % 256
            &&& t.v[15] == (s.v[x as int] + s.v[y as int]) / 256
            &&& forall|j: int| 0 <= j < 15 && j != x ==> t.v[j] == s.v[j]
            &&& Chip8State { v: s.v, ..t } == s
        }),
{
}

/// 8XY5 (X other than F): VX gets VX - VY modulo 256 and VF is 1 exactly when VX >= VY; only VX and VF change.
pub proof fn law_subtract_semantics(s: Chip8State, x: usize, y: usize, rand: u8)
    requires
        s.well_sized(),
        x < 15,
        y < 16,
    ensures
        ({
            let t = state::step(Op::Subtract(x, y), s, rand);
            &&& t.v[x as int] == (s.v[x as int] - s.v[y as int] + 256) % 256
            &&& (t.v[15] == 1 <==> s.v[x as int] >= s.v[y as int])
            &&& (t.v[15] == 0 <==> s.v[x as int] < s.v[y as int])
            &&& forall|j: int| 0 <= j < 15 && j != x ==> t.v[j] == s.v[j]
            &&& Chip8State { v: s.v, ..t } == s
        }),
{
}

/// 8XY7 (X other than F): VX gets VY - VX modulo 256 and VF is 1 exactly when VY >= VX; only VX and VF change.
pub proof fn law_subtract_rev_semantics(s: Chip8State, x: usize, y: usize, rand: u8)
    requires
        s.well_sized(),
        x < 15,
        y < 16,
    ensures
        ({
            let t = state::step(Op::SubtractRev(x, y), s, rand);
            &&& t.v[x as int] == (s.v[y as int] - s.v[x as int] + 256) % 256
            &&& (t.v[15] == 1 <==> s.v[y as int] >= s.v[x as int])
            &&& (t.v[15] == 0 <==> s.v[y as int] < s.v[x as int])
            &&& forall|j: int| 0 <= j < 15 && j != x ==> t.v[j] == s.v[j]
            &&& Chip8State { v: s.v, ..t } == s
        }),
{
}

/// 8XY6 (X other than F): VX gets VY halved and VF its lowest bit; only VX and VF change.
pub proof fn law_shift_right_semantics(s: Chip8State, x: usize, y: usize, rand: u8)
    requires
        s.well_sized(),
        x < 15,
        y < 16,
    ensures
        ({
            let t = state::step(Op::ShiftRight(x, y), s, rand);
            &&& t.v[x as int] == s.v[y as int] / 2
            &&& t.v[15] == s.v[y as int] % 2
            &&& forall|j: int| 0 <= j < 15 && j != x ==> t.v[j] == s.v[j]
            &&& Chip8State { v: s.v, ..t } == s
        }),
{
}

/// 8XYE (X other than F): VX gets VY doubled modulo 256 and VF its highest bit; only VX and VF change.
pub proof fn law_shift_left_semantics(s: Chip8State, x: usize, y: usize, rand: u8)
    requires
        s.well_sized(),
        x < 15,
        y < 16,
    ensures
        ({
            let t = state::step(Op::ShiftLeft(x, y), s, rand);
            &&& t.v[x as int] == (2 * s.v[y as int]) % 256
            &&& t.v[15] == s.v[y as int] / 128
            &&& forall|j: int| 0 <= j < 15 && j != x ==> t.v[j] == s.v[j]
            &&& Chip8State { v: s.v, ..t } == s
        }),
{
}

/// The index register and timers: ANNN sets I to NNN; FX1E adds VX to I and sets VF to 1
/// when the sum passes 0xFFF (VF is otherwise kept); FX29 points I at the five-byte glyph of
/// the last digit of VX; FX15 and FX18 copy VX into the delay and sound timers.
pub proof fn law_index_and_timers(s: Chip8State, x: usize, a: usize, rand: u8)
    requires
        s.well_sized(),
        x < 16,
        s.i + s.v[x as int] <= usize::MAX,
    ensures
        ({
            let t = state::step(Op::SetI(a), s, rand);
            t.i == a && Chip8State { i: s.i, ..t } == s
        }),
        ({
            let t = state::step(Op::AddToIndex(x), s, rand);
            &&& t.i == s.i + s.v[x as int]
            &&& t.v[15] == if s.i + s.v[x as int] > 0xFFF { 1 } else { s.v[15] }
            &&& forall|j: int| 0 <= j < 15 ==> t.v[j] == s.v[j]
            &&& Chip8State { i: s.i, v: s.v, ..t } == s
        }),
        ({
            let t = state::step(Op::FontChar(x), s, rand);
            t.i == 0x50 + 5 * (s.v[x as int] % 16) && Chip8State { i: s.i, ..t } == s
        }),
        ({
            let t = state::step(Op::SetDelayTimer(x), s, rand);
            t.delay == s.v[x as int] && Chip8State { delay: s.delay, ..t } == s
        }),
        ({
            let t = state::step(Op::SetSoundTimer(x), s, rand);
            t.sound == s.v[x as int] && Chip8State { sound: s.sound, ..t } == s
        }),
{
}

/// FX33, FX55, FX65 touch only the bytes and registers they name: FX33 writes the three
/// bytes at I; FX55 writes V0..=VX to I..=I+X and advances I by X + 1; FX65 reads V0..=VX
/// from I..=I+X and advances I by X + 1.
pub proof fn law_memory_transfers(s: Chip8State, x: usize, rand: u8)
    requires
        s.well_sized(),
        x < 16,
        s.i + x < MEMORY_SIZE,
    ensures
        ({
            let t = state::step(Op::StoreMem(x), s, rand);
            &&& t.i == s.i + x + 1
            &&& forall|r: int| 0 <= r <= x ==> #[trigger] t.mem[s.i + r] == s.v[r]
            &&& forall|k: int|
                0 <= k < MEMORY_SIZE && (k < s.i || k > s.i + x) ==> #[trigger] t.mem[k] == s.mem[k]
            &&& t.mem.len() == s.mem.len()
            &&& Chip8State { i: s.i, mem: s.mem, ..t } == s
        }),
        ({
            let t = state::step(Op::LoadMem(x), s, rand);
            &&& t.i == s.i + x + 1
            &&& forall|r: int| 0 <= r <= x ==> #[trigger] t.v[r] == s.mem[s.i + r]
            &&& forall|r: int| x < r < 16 ==> #[trigger] t.v[r] == s.v[r]
            &&& t.v.len() == s.v.len()
            &&& Chip8State { i: s.i, v: s.v, ..t } == s
        }),
        s.i + 3 <= MEMORY_SIZE ==> ({
            let t = state::step(Op::BCDConv(x), s, rand);
            &&& forall|k: int|
                0 <= k < MEMORY_SIZE && (k < s.i || k >= s.i + 3) ==> #[trigger] t.mem[k] == s.mem[k]
            &&& t.mem.len() == s.mem.len()
            &&& Chip8State { mem: s.mem, ..t } == s
        }),
{
}

/// A cycle reads the opcode big-endian (the byte at the program counter is the high byte),
/// moves the program counter past it and executes the decoded instruction.
pub proof fn law_cycle_reads_big_endian(s: Chip8State, rand: u8)
    requires
        crate::cycle_defined(s),
    ensures
        crate::cycle_step(s, rand) == state::step(
            decode_spec((256 * s.mem[s.pc as int] + s.mem[s.pc + 1]) as u16)->0,
            Chip8State { pc: (s.pc + 2) as usize, ..s },
            rand,
        ),
{
}

/// Every glyph of the font is at most four pixels wide: the low nibble of each row is clear.
pub proof fn law_font_glyphs_four_wide()
    ensures
        fontset().len() == FONTSET_SIZE,
        forall|k: int| 0 <= k < FONTSET_SIZE ==> #[trigger] fontset()[k] % 16 == 0,
{
}

/// The display text has 32 lines of 65 characters: the 64 pixels of the row, a filled square
/// where the pixel is on and a space where it is off, then a newline.
pub proof fn law_display_text_layout(display: Seq<bool>, row: int, col: int)
    requires
        display.len() == state::DISPLAY_SIZE,
        0 <= row < 32,
        0 <= col < 64,
    ensures
        display_text_spec(display).len() == 32 * 65,
        display_text_spec(display)[65 * row + col] == if display[64 * row + col] {
            '\u{25A0}'
        } else {
            ' '
        },
        display_text_spec(display)[65 * row + 64] == '\n',
{
    vstd::arithmetic::div_mod::lemma_fundamental_div_mod_converse(65 * row + col, 65, row, col);
    vstd::arithmetic::div_mod::lemma_fundamental_div_mod_converse(65 * row + 64, 65, row, 64);
}

/// When execution is defined: the register-only instructions whenever their registers are
/// among the sixteen; 00EE exactly when the stack is not empty; FX0A exactly when the
/// program counter is at least 2; DXYN whenever the sprite stays above the last display
/// row and within memory (or has no rows); FX55 and FX65 exactly when I + X is in memory.
pub proof fn law_defined_when_in_bounds(s: Chip8State, x: usize, y: usize, n: usize, nn: u8, a: usize)
    requires
        s.well_sized(),
        x < 16,
        y < 16,
    ensures
        state::step_defined(Op::SetImm(x, nn), s),
        state::step_defined(Op::AddImm(x, nn), s),
        state::step_defined(Op::SetReg(x, y), s),
        state::step_defined(Op::Or(x, y), s),
        state::step_defined(Op::And(x, y), s),
        state::step_defined(Op::Xor(x, y), s),
        state::step_defined(Op::Add(x, y), s),
        state::step_defined(Op::Subtract(x, y), s),
        state::step_defined(Op::SubtractRev(x, y), s),
        state::step_defined(Op::ShiftRight(x, y), s),
        state::step_defined(Op::ShiftLeft(x, y), s),
        state::step_defined(Op::Random(x, nn), s),
        state::step_defined(Op::ClearScreen, s),
        state::step_defined(Op::Jump(a), s),
        state::step_defined(Op::CallSubroutine(a), s),
        state::step_defined(Op::SetI(a), s),
        state::step_defined(Op::GetDelayTimer(x), s),
        state::step_defined(Op::SetDelayTimer(x), s),
        state::step_defined(Op::SetSoundTimer(x), s),
        state::step_defined(Op::FontChar(x), s),
        state::step_defined(Op::RetSubroutine, s) <==> s.stack.len() > 0,
        state::step_defined(Op::GetKey(x), s) <==> s.pc >= 2,
        state::step_defined(Op::StoreMem(x), s) <==> s.i + x < MEMORY_SIZE,
        state::step_defined(Op::LoadMem(x), s) <==> s.i + x < MEMORY_SIZE,
        state::step_defined(Op::BCDConv(x), s) <==> s.i + 3 <= MEMORY_SIZE,
        n == 0 ==> state::step_defined(Op::Draw(x, y, n), s),
        (s.v[y as int] % 32 + n < 32 && s.i + n <= MEMORY_SIZE) ==> state::step_defined(
            Op::Draw(x, y, n),
            s,
        ),
        s.v[y as int] % 32 + n > 32 ==> !state::step_defined(Op::Draw(x, y, n), s),
{
}

} // verus!
