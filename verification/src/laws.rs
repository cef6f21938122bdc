//! Laws of the machine, stated over the model that the executable functions' contracts use.
use vstd::prelude::*;

use crate::instructions::{decode_spec, Op};
use crate::keypad::{keypad_after, KeypadEvent};
use crate::memory::{fontset, FONTSET_SIZE, FONTSET_START_ADDR, MEMORY_SIZE};
use crate::state::{self, Chip8State};

verus! {

/// The operands of an instruction fit the fields of its opcode: registers are one of the
/// sixteen, addresses are 12-bit and sprite heights 4-bit.
pub open spec fn operands_in_range(op: Op) -> bool {
    match op {
        Op::ClearScreen | Op::RetSubroutine => true,
        Op::Jump(a) | Op::CallSubroutine(a) | Op::SetI(a) | Op::JumpWithOffset(a) => a < 4096,
        Op::SkipIfEqImm(x, _) | Op::SkipIfNotEqImm(x, _) | Op::SetImm(x, _) | Op::AddImm(x, _)
        | Op::Random(x, _) => x < 16,
        Op::SkipIfEq(x, y) | Op::SetReg(x, y) | Op::Or(x, y) | Op::And(x, y) | Op::Xor(x, y)
        | Op::Add(x, y) | Op::Subtract(x, y) | Op::ShiftRight(x, y) | Op::SubtractRev(x, y)
        | Op::ShiftLeft(x, y) | Op::SkipIfNotEq(x, y) => x < 16 && y < 16,
        Op::Draw(x, y, n) => x < 16 && y < 16 && n < 16,
        Op::SkipIfKeyDown(x) | Op::SkipIfKeyUp(x) | Op::GetDelayTimer(x) | Op::GetKey(x)
        | Op::SetDelayTimer(x) | Op::SetSoundTimer(x) | Op::AddToIndex(x) | Op::FontChar(x)
        | Op::BCDConv(x) | Op::StoreMem(x) | Op::LoadMem(x) => x < 16,
    }
}

/// Every instruction that an opcode decodes to has its operands within their fields.
pub proof fn law_decoded_operands_in_range(opcode: u16)
    requires
        decode_spec(opcode) is Some,
    ensures
        operands_in_range(decode_spec(opcode)->0),
{
}

/// Two opcodes that decode to the same instruction are the same opcode, except that 5XYN
/// and 9XYN ignore their last digit.
pub proof fn law_decode_injective(a: u16, b: u16)
    requires
        decode_spec(a) is Some,
        a / 4096 != 5,
        a / 4096 != 9,
        decode_spec(a) == decode_spec(b),
    ensures
        a == b,
{
    lemma_opcode_fields_determine(a, b);
    let n0 = a / 4096;
    assert(n0 == b / 4096);
    if n0 == 0 {
    } else if n0 == 1 || n0 == 2 || n0 == 0xA || n0 == 0xB {
        assert(a % 4096 == b % 4096);
    } else if n0 == 3 || n0 == 4 || n0 == 6 || n0 == 7 || n0 == 0xC || n0 == 0xF {
        assert((a / 256) % 16 == (b / 256) % 16);
        assert(a % 256 == b % 256);
    } else {
        assert((a / 256) % 16 == (b / 256) % 16);
        assert((a / 16) % 16 == (b / 16) % 16);
        assert(a % 16 == b % 16);
    }
}

/// An opcode is determined by its first digit together with the remaining twelve bits, with
/// its second digit and low byte, or with all four digits.
proof fn lemma_opcode_fields_determine(a: u16, b: u16)
    ensures
        (a / 4096 == b / 4096 && a % 4096 == b % 4096) ==> a == b,
        (a / 4096 == b / 4096 && (a / 256) % 16 == (b / 256) % 16 && a % 256 == b % 256) ==> a
            == b,
        (a / 4096 == b / 4096 && (a / 256) % 16 == (b / 256) % 16 && (a / 16) % 16 == (b / 16)
            % 16 && a % 16 == b % 16) ==> a == b,
        a / 4096 < 16,
{
    assert((a / 4096 == b / 4096 && a % 4096 == b % 4096) ==> a == b) by (bit_vector);
    assert((a / 4096 == b / 4096 && (a / 256) % 16 == (b / 256) % 16 && a % 256 == b % 256) ==> a
        == b) by (bit_vector);
    assert((a / 4096 == b / 4096 && (a / 256) % 16 == (b / 256) % 16 && (a / 16) % 16 == (b / 16)
        % 16 && a % 16 == b % 16) ==> a == b) by (bit_vector);
    assert(a / 4096 < 16) by (bit_vector);
}

/// Every instruction keeps the size of every component of the machine.
pub proof fn law_step_keeps_sizes(op: Op, s: Chip8State, rand: u8)
    requires
        s.well_sized(),
        state::step_defined(op, s),
    ensures
        state::step(op, s, rand).well_sized(),
{
}

/// 8XY4 (X other than F): VX receives the low byte of VX + VY and VF the carry, so that
/// VX + 256 * VF is the full sum.
pub proof fn law_add_carry(s: Chip8State, x: usize, y: usize, rand: u8)
    requires
        s.well_sized(),
        x < 15,
        y < 16,
    ensures
        ({
            let t = state::step(Op::Add(x, y), s, rand);
            &&& t.v[15] <= 1
            &&& t.v[x as int] + 256 * t.v[15] == s.v[x as int] + s.v[y as int]
        }),
{
}

/// 8XY5 (X other than F): VF is 1 exactly when no borrow occurs, and VX + 256 * (1 - VF)
/// is VX - VY.
pub proof fn law_subtract_borrow(s: Chip8State, x: usize, y: usize, rand: u8)
    requires
        s.well_sized(),
        x < 15,
        y < 16,
    ensures
        ({
            let t = state::step(Op::Subtract(x, y), s, rand);
            &&& t.v[15] == (if s.v[x as int] >= s.v[y as int] { 1u8 } else { 0u8 })
            &&& t.v[x as int] - 256 * (1 - t.v[15]) == s.v[x as int] - s.v[y as int]
        }),
{
}

/// 8XY7 (X other than F): VF is 1 exactly when no borrow occurs, and VX + 256 * (1 - VF)
/// is VY - VX.
pub proof fn law_subtract_rev_borrow(s: Chip8State, x: usize, y: usize, rand: u8)
    requires
        s.well_sized(),
        x < 15,
        y < 16,
    ensures
        ({
            let t = state::step(Op::SubtractRev(x, y), s, rand);
            &&& t.v[15] == (if s.v[y as int] >= s.v[x as int] { 1u8 } else { 0u8 })
            &&& t.v[x as int] - 256 * (1 - t.v[15]) == s.v[y as int] - s.v[x as int]
        }),
{
}

/// 8XY6 and 8XYE (X other than F): the shifted-out bit lands in VF, so no bit of VY is lost.
pub proof fn law_shifts_keep_bits(s: Chip8State, x: usize, y: usize, rand: u8)
    requires
        s.well_sized(),
        x < 15,
        y < 16,
    ensures
        ({
            let r = state::step(Op::ShiftRight(x, y), s, rand);
            2 * r.v[x as int] + r.v[15] == s.v[y as int]
        }),
        ({
            let l = state::step(Op::ShiftLeft(x, y), s, rand);
            l.v[x as int] + 256 * l.v[15] == 2 * s.v[y as int]
        }),
{
}

/// CXNN: the random value in VX has no bit set outside the mask NN.
pub proof fn law_random_within_mask(s: Chip8State, x: usize, nn: u8, rand: u8)
    requires
        s.well_sized(),
        x < 16,
    ensures
        state::step(Op::Random(x, nn), s, rand).v[x as int] | nn == nn,
{
    let r = nn & rand;
    assert((nn & rand) | nn == nn) by (bit_vector);
}

/// FX33: the three bytes at I, I + 1, I + 2 are decimal digits whose value is VX.
pub proof fn law_bcd_digits(s: Chip8State, x: usize, rand: u8)
    requires
        s.well_sized(),
        x < 16,
        s.i + 3 <= MEMORY_SIZE,
    ensures
        ({
            let t = state::step(Op::BCDConv(x), s, rand);
            &&& t.mem[s.i as int] < 10
            &&& t.mem[s.i + 1] < 10
            &&& t.mem[s.i + 2] < 10
            &&& 100 * t.mem[s.i as int] + 10 * t.mem[s.i + 1] + t.mem[s.i + 2] == s.v[x as int]
        }),
{
    let val = s.v[x as int];
    assert(100 * (val / 100) + 10 * ((val / 10) % 10) + val % 10 == val) by (bit_vector);
}

/// FX55 then, with I back at its first value, FX65: the registers V0..=VX read back what
/// was stored, and every register is as before.
pub proof fn law_store_then_load(s: Chip8State, x: usize, rand: u8)
    requires
        s.well_sized(),
        x < 16,
        s.i + x < MEMORY_SIZE,
    ensures
        ({
            let stored = state::step(Op::StoreMem(x), s, rand);
            let rewound = Chip8State { i: s.i, ..stored };
            state::step(Op::LoadMem(x), rewound, rand).v == s.v
        }),
{
    let stored = state::step(Op::StoreMem(x), s, rand);
    let rewound = Chip8State { i: s.i, ..stored };
    assert(state::step(Op::LoadMem(x), rewound, rand).v =~= s.v);
}

/// 2NNN then 00EE: returning from a call restores the program counter and the stack.
pub proof fn law_call_then_return(s: Chip8State, addr: usize, rand: u8)
    ensures
        state::step(Op::RetSubroutine, state::step(Op::CallSubroutine(addr), s, rand), rand) == s,
{
    let c = state::step(Op::CallSubroutine(addr), s, rand);
    assert(c.stack.drop_last() =~= s.stack);
}

/// FX15 then FX07: the delay timer reads back the value written to it.
pub proof fn law_delay_timer_round_trip(s: Chip8State, x: usize, y: usize, rand: u8)
    requires
        s.well_sized(),
        x < 16,
        y < 16,
    ensures
        ({
            let set = state::step(Op::SetDelayTimer(x), s, rand);
            state::step(Op::GetDelayTimer(y), set, rand).v[y as int] == s.v[x as int]
        }),
{
}

/// DXYN: VF is 1 exactly when some pixel that was on is turned off by the draw.
pub proof fn law_draw_flag_reports_unset_pixels(s: Chip8State, x: usize, y: usize, n: usize, rand: u8)
    requires
        s.well_sized(),
        x < 16,
        y < 16,
    ensures
        ({
            let t = state::step(Op::Draw(x, y, n), s, rand);
            (t.v[15] == 1) <==> exists|k: int|
                0 <= k < state::DISPLAY_SIZE && #[trigger] s.display[k] && !t.display[k]
        }),
{
    let t = state::step(Op::Draw(x, y, n), s, rand);
    let xc = (s.v[x as int] % 64) as int;
    let yc = (s.v[y as int] % 32) as int;
    if t.v[15] == 1 {
        let k = choose|k: int| 0 <= k < state::DISPLAY_SIZE && #[trigger] s.draw_clears(xc, yc, n as int, k);
        assert(s.display[k] && !t.display[k]);
    }
    if exists|k: int| 0 <= k < state::DISPLAY_SIZE && #[trigger] s.display[k] && !t.display[k] {
        let k = choose|k: int| 0 <= k < state::DISPLAY_SIZE && #[trigger] s.display[k] && !t.display[k];
        assert(s.draw_clears(xc, yc, n as int, k));
    }
}

/// DXYN twice with the same sprite (X and Y other than F): the display is as before.
pub proof fn law_draw_twice_restores_display(s: Chip8State, x: usize, y: usize, n: usize, rand: u8)
    requires
        s.well_sized(),
        x < 15,
        y < 15,
    ensures
        state::step(Op::Draw(x, y, n), state::step(Op::Draw(x, y, n), s, rand), rand).display
            == s.display,
{
    let t = state::step(Op::Draw(x, y, n), s, rand);
    let u = state::step(Op::Draw(x, y, n), t, rand);
    assert(u.display =~= s.display);
}

/// FX0A with no key pressed: a whole cycle leaves the machine unchanged, so execution waits
/// on the same instruction until a key is pressed.
pub proof fn law_wait_for_key_holds_machine(s: Chip8State, rand: u8)
    requires
        crate::cycle_defined(s),
        decode_spec(crate::fetched_opcode(s))->0 is GetKey,
        state::first_pressed(s.keypad, 16) is None,
    ensures
        crate::cycle_step(s, rand) == s,
{
}

/// FX29: with the font in place, I points at the five rows of the glyph of the digit in the
/// last nibble of VX.
pub proof fn law_font_char_points_at_glyph(s: Chip8State, x: usize, rand: u8)
    requires
        s.well_sized(),
        x < 16,
        forall|k: int|
            0 <= k < FONTSET_SIZE ==> #[trigger] s.mem[FONTSET_START_ADDR + k] == fontset()[k],
    ensures
        ({
            let t = state::step(Op::FontChar(x), s, rand);
            forall|r: int|
                0 <= r < 5 ==> #[trigger] t.mem[t.i + r] == fontset()[5 * (s.v[x as int] % 16) + r]
        }),
{
    let t = state::step(Op::FontChar(x), s, rand);
    let d = s.v[x as int] % 16;
    assert forall|r: int| 0 <= r < 5 implies #[trigger] t.mem[t.i + r] == fontset()[5 * d + r] by {
        let k = 5 * d + r;
        assert(s.mem[FONTSET_START_ADDR + k] == fontset()[k]);
    }
}

/// A key pressed and then released is up, whatever it was before; other keys are kept.
pub proof fn law_key_down_then_up(keys: Seq<bool>, k: usize)
    requires
        k < keys.len(),
    ensures
        keypad_after(keypad_after(keys, KeypadEvent::KeyDown(k)), KeypadEvent::KeyUp(k))
            == keys.update(k as int, false),
{
    assert(keypad_after(keypad_after(keys, KeypadEvent::KeyDown(k)), KeypadEvent::KeyUp(k))
        =~= keys.update(k as int, false));
}

} // verus!
