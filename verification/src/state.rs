use vstd::prelude::*;

use crate::instructions::Op;
use crate::memory::{FONTSET_START_ADDR, MEMORY_SIZE};

verus! {

/// Number of pixels in one display row.
pub const DISPLAY_WIDTH: usize = 64;

/// Number of display rows.
pub const DISPLAY_HEIGHT: usize = 32;

/// Number of pixels of the display (row-major, 64 pixels per row).
pub const DISPLAY_SIZE: usize = 2048;

/// The mathematical model of a whole machine: every register, memory, the call stack, the
/// display (row-major, `64 * row + column`) and the state of the sixteen keys.
#[verifier::ext_equal]
pub ghost struct Chip8State {
    pub v: Seq<u8>,
    pub i: usize,
    pub pc: usize,
    pub delay: u8,
    pub sound: u8,
    pub mem: Seq<u8>,
    pub stack: Seq<usize>,
    pub display: Seq<bool>,
    pub keypad: Seq<bool>,
}

/// Whether column `col` (0 = leftmost) of a sprite row `byte` is set: the most significant
/// bit is the leftmost pixel.
pub open spec fn sprite_pixel(byte: u8, col: int) -> bool {
    ((0x80u8 >> (col as u8)) & byte) != 0u8
}

/// For the display pixel `k`, the sprite cell `(row, column)` that a sprite drawn at
/// `(x, y)` (with `x < 64`) writes to it, whatever the sprite's height. Sprite row `r`
/// covers the columns `x ..= min(x + 7, 64)` of display row `y + r`; the column 64 is the
/// first pixel of the following display row.
pub open spec fn cell_at(x: int, y: int, k: int) -> Option<(int, int)> {
    let q = k / 64;
    let m = k % 64;
    if y <= q && x <= m < x + 8 {
        Some((q - y, m - x))
    } else if m == 0 && x + 7 >= 64 && y <= q - 1 {
        Some((q - 1 - y, 64 - x))
    } else {
        None
    }
}

/// The sprite cell that a draw of `rows` sprite rows at `(x, y)` writes to pixel `k`, if any.
pub open spec fn sprite_cell(x: int, y: int, rows: int, k: int) -> Option<(int, int)> {
    match cell_at(x, y, k) {
        Some((r, c)) => if r < rows {
            Some((r, c))
        } else {
            None
        },
        None => None,
    }
}

/// The first pressed key among the first `n` keys, if any.
pub open spec fn first_pressed(keys: Seq<bool>, n: int) -> Option<int>
    decreases n,
{
    if n <= 0 {
        None
    } else {
        match first_pressed(keys, n - 1) {
            Some(k) => Some(k),
            None => if keys[n - 1] {
                Some(n - 1)
            } else {
                None
            },
        }
    }
}

impl Chip8State {
    /// Every component has the size of the machine's hardware.
    pub open spec fn well_sized(self) -> bool {
        &&& self.v.len() == 16
        &&& self.mem.len() == MEMORY_SIZE
        &&& self.display.len() == DISPLAY_SIZE
        &&& self.keypad.len() == 16
    }

    /// The state with register `x` set to `val`.
    pub open spec fn set_v(self, x: int, val: u8) -> Self {
        Chip8State { v: self.v.update(x, val), ..self }
    }

    /// The state with the next instruction skipped when `cond` holds.
    pub open spec fn skip_if(self, cond: bool) -> Self {
        if cond {
            Chip8State { pc: (self.pc + 2) as usize, ..self }
        } else {
            self
        }
    }

    /// The sprite byte for sprite row `r`, read from memory at `I + r`.
    pub open spec fn sprite_byte(self, r: int) -> u8 {
        self.mem[self.i + r]
    }

    /// Whether the draw of `rows` sprite rows at `(x, y)` turns pixel `k` off: it was on and
    /// the sprite pixel drawn onto it is on.
    pub open spec fn draw_clears(self, x: int, y: int, rows: int, k: int) -> bool {
        match sprite_cell(x, y, rows, k) {
            Some((r, c)) => self.display[k] && sprite_pixel(self.sprite_byte(r), c),
            None => false,
        }
    }

    /// The display after drawing `rows` sprite rows from memory at `I` to `(x, y)`: each
    /// covered pixel is flipped where the sprite pixel is on.
    pub open spec fn drawn_display(self, x: int, y: int, rows: int) -> Seq<bool> {
        Seq::new(
            self.display.len(),
            |k: int|
                match sprite_cell(x, y, rows, k) {
                    Some((r, c)) => self.display[k] != sprite_pixel(self.sprite_byte(r), c),
                    None => self.display[k],
                },
        )
    }

    /// Draw: the display as `drawn_display`, and VF = 1 exactly when some pixel that was on
    /// is turned off, 0 otherwise.
    pub open spec fn draw(self, x: int, y: int, rows: int) -> Self {
        let collided = exists|k: int| 0 <= k < DISPLAY_SIZE && #[trigger] self.draw_clears(x, y, rows, k);
        Chip8State {
            display: self.drawn_display(x, y, rows),
            v: self.v.update(15, if collided { 1u8 } else { 0u8 }),
            ..self
        }
    }
}

/// The draw of `rows` sprite rows at `(x, y)` stays within the display and within memory.
pub open spec fn draw_fits(s: Chip8State, x: int, y: int, rows: int) -> bool {
    rows == 0 || (s.i + rows <= MEMORY_SIZE && (y + rows < 32 || (y + rows == 32 && x + 7 < 64)))
}

/// The inputs on which executing `op` in state `s` is defined: register operands name one
/// of the sixteen registers, and nothing reads or writes outside memory, the display, the
/// keypad or the stack, and no address computation overflows.
pub open spec fn step_defined(op: Op, s: Chip8State) -> bool {
    let pc_ok = s.pc + 2 <= usize::MAX;
    match op {
        Op::ClearScreen => true,
        Op::RetSubroutine => s.stack.len() > 0,
        Op::Jump(_) => true,
        Op::CallSubroutine(_) => true,
        Op::SkipIfEqImm(x, nn) => x < 16 && (s.v[x as int] == nn ==> pc_ok),
        Op::SkipIfNotEqImm(x, nn) => x < 16 && (s.v[x as int] != nn ==> pc_ok),
        Op::SkipIfEq(x, y) => x < 16 && y < 16 && (s.v[x as int] == s.v[y as int] ==> pc_ok),
        Op::SetImm(x, _) => x < 16,
        Op::AddImm(x, _) => x < 16,
        Op::SetReg(x, y) => x < 16 && y < 16,
        Op::Or(x, y) => x < 16 && y < 16,
        Op::And(x, y) => x < 16 && y < 16,
        Op::Xor(x, y) => x < 16 && y < 16,
        Op::Add(x, y) => x < 16 && y < 16,
        Op::Subtract(x, y) => x < 16 && y < 16,
        Op::ShiftRight(x, y) => x < 16 && y < 16,
        Op::SubtractRev(x, y) => x < 16 && y < 16,
        Op::ShiftLeft(x, y) => x < 16 && y < 16,
        Op::SkipIfNotEq(x, y) => x < 16 && y < 16 && (s.v[x as int] != s.v[y as int] ==> pc_ok),
        Op::SetI(_) => true,
        Op::JumpWithOffset(a) => a + s.v[0] <= usize::MAX,
        Op::Random(x, _) => x < 16,
        Op::Draw(x, y, n) => x < 16 && y < 16 && draw_fits(
            s,
            (s.v[x as int] % 64) as int,
            (s.v[y as int] % 32) as int,
            n as int,
        ),
        Op::SkipIfKeyDown(x) => x < 16 && s.v[x as int] < 16 && (s.keypad[s.v[x as int] as int]
            ==> pc_ok),
        Op::SkipIfKeyUp(x) => x < 16 && s.v[x as int] < 16 && (!s.keypad[s.v[x as int] as int]
            ==> pc_ok),
        Op::GetDelayTimer(x) => x < 16,
        Op::GetKey(x) => x < 16 && s.pc >= 2,
        Op::SetDelayTimer(x) => x < 16,
        Op::SetSoundTimer(x) => x < 16,
        Op::AddToIndex(x) => x < 16 && s.v[x as int] + s.i <= usize::MAX,
        Op::FontChar(x) => x < 16,
        Op::BCDConv(x) => x < 16 && s.i + 3 <= MEMORY_SIZE,
        Op::StoreMem(x) => x < 16 && s.i + x < MEMORY_SIZE,
        Op::LoadMem(x) => x < 16 && s.i + x < MEMORY_SIZE,
    }
}

/// The state after executing `op` in state `s`, where `rand` is the random byte that a
/// `Random` instruction draws (no other instruction reads it).
pub open spec fn step(op: Op, s: Chip8State, rand: u8) -> Chip8State {
    match op {
        Op::ClearScreen => Chip8State { display: Seq::new(s.display.len(), |k: int| false), ..s },
        Op::RetSubroutine => Chip8State { pc: s.stack.last(), stack: s.stack.drop_last(), ..s },
        Op::Jump(a) => Chip8State { pc: a, ..s },
        Op::CallSubroutine(a) => Chip8State { pc: a, stack: s.stack.push(s.pc), ..s },
        Op::SkipIfEqImm(x, nn) => s.skip_if(s.v[x as int] == nn),
        Op::SkipIfNotEqImm(x, nn) => s.skip_if(s.v[x as int] != nn),
        Op::SkipIfEq(x, y) => s.skip_if(s.v[x as int] == s.v[y as int]),
        Op::SetImm(x, nn) => s.set_v(x as int, nn),
        Op::AddImm(x, nn) => s.set_v(x as int, ((s.v[x as int] + nn) % 256) as u8),
        Op::SetReg(x, y) => s.set_v(x as int, s.v[y as int]),
        Op::Or(x, y) => s.set_v(x as int, s.v[x as int] | s.v[y as int]),
        Op::And(x, y) => s.set_v(x as int, s.v[x as int] & s.v[y as int]),
        Op::Xor(x, y) => s.set_v(x as int, s.v[x as int] ^ s.v[y as int]),
        Op::Add(x, y) => {
            let sum = s.v[x as int] + s.v[y as int];
            s.set_v(15, if sum > 255 { 1u8 } else { 0u8 }).set_v(x as int, (sum % 256) as u8)
        },
        Op::Subtract(x, y) => {
            let a = s.v[x as int];
            let b = s.v[y as int];
            s.set_v(15, if a >= b { 1u8 } else { 0u8 }).set_v(x as int, ((a - b) % 256) as u8)
        },
        Op::ShiftRight(x, y) => {
            let b = s.v[y as int];
            s.set_v(15, b % 2).set_v(x as int, b / 2)
        },
        Op::SubtractRev(x, y) => {
            let a = s.v[x as int];
            let b = s.v[y as int];
            s.set_v(15, if b >= a { 1u8 } else { 0u8 }).set_v(x as int, ((b - a) % 256) as u8)
        },
        Op::ShiftLeft(x, y) => {
            let b = s.v[y as int];
            s.set_v(15, b / 128).set_v(x as int, ((b * 2) % 256) as u8)
        },
        Op::SkipIfNotEq(x, y) => s.skip_if(s.v[x as int] != s.v[y as int]),
        Op::SetI(a) => Chip8State { i: a, ..s },
        Op::JumpWithOffset(a) => Chip8State { pc: (a + s.v[0]) as usize, ..s },
        Op::Random(x, nn) => s.set_v(x as int, nn & rand),
        Op::Draw(x, y, n) => s.draw((s.v[x as int] % 64) as int, (s.v[y as int] % 32) as int, n as int),
        Op::SkipIfKeyDown(x) => s.skip_if(s.keypad[s.v[x as int] as int]),
        Op::SkipIfKeyUp(x) => s.skip_if(!s.keypad[s.v[x as int] as int]),
        Op::GetDelayTimer(x) => s.set_v(x as int, s.delay),
        Op::GetKey(x) => match first_pressed(s.keypad, 16) {
            Some(k) => s.set_v(x as int, k as u8),
            None => Chip8State { pc: (s.pc - 2) as usize, ..s },
        },
        Op::SetDelayTimer(x) => Chip8State { delay: s.v[x as int], ..s },
        Op::SetSoundTimer(x) => Chip8State { sound: s.v[x as int], ..s },
        Op::AddToIndex(x) => {
            let sum = s.v[x as int] + s.i;
            Chip8State {
                i: sum as usize,
                v: if sum > 0xFFF { s.v.update(15, 1u8) } else { s.v },
                ..s
            }
        },
        Op::FontChar(x) => Chip8State {
            i: (FONTSET_START_ADDR + 5 * (s.v[x as int] % 16)) as usize,
            ..s
        },
        Op::BCDConv(x) => {
            let val = s.v[x as int];
            Chip8State {
                mem: s.mem.update(s.i as int, val / 100).update(s.i + 1, (val / 10) % 10).update(
                    s.i + 2,
                    val % 10,
                ),
                ..s
            }
        },
        Op::StoreMem(x) => Chip8State {
            mem: Seq::new(
                s.mem.len(),
                |k: int|
                    if s.i <= k <= s.i + x {
                        s.v[k - s.i]
                    } else {
                        s.mem[k]
                    },
            ),
            i: (s.i + x + 1) as usize,
            ..s
        },
        Op::LoadMem(x) => Chip8State {
            v: Seq::new(
                s.v.len(),
                |r: int|
                    if r <= x {
                        s.mem[s.i + r]
                    } else {
                        s.v[r]
                    },
            ),
            i: (s.i + x + 1) as usize,
            ..s
        },
    }
}

} // verus!
