//! Laws of the opcode table: each instruction family is read from the fields of its opcode.
use vstd::prelude::*;

use crate::instructions::{decode_spec, Op};

verus! {

/// The opcode with hexadecimal digits `a`, `x`, `y`, `n` (most significant first).
pub open spec fn opcode_of(a: u16, x: u16, y: u16, n: u16) -> u16 {
    (4096 * a + 256 * x + 16 * y + n) as u16
}

proof fn lemma_digits(a: u16, x: u16, y: u16, n: u16)
    requires
        a < 16,
        x < 16,
        y < 16,
        n < 16,
    ensures
        ({
            let o = opcode_of(a, x, y, n);
            &&& o / 4096 == a
            &&& (o / 256) % 16 == x
            &&& (o / 16) % 16 == y
            &&& o % 16 == n
            &&& o % 4096 == 256 * x + 16 * y + n
            &&& o % 256 == 16 * y + n
        }),
{
    let o = opcode_of(a, x, y, n);
    assert(o == 4096 * a + 256 * x + 16 * y + n);
    assert(o / 4096 == a && (o / 256) % 16 == x && (o / 16) % 16 == y && o % 16 == n && o % 4096
        == 256 * x + 16 * y + n && o % 256 == 16 * y + n) by (bit_vector)
        requires
            a < 16,
            x < 16,
            y < 16,
            n < 16,
            o == 4096 * a + 256 * x + 16 * y + n,
    ;
}

/// The instructions with a 12-bit address NNN = 256 X + 16 Y + N: 1NNN, 2NNN, ANNN, BNNN.
pub proof fn law_decode_address_forms(x: u16, y: u16, n: u16)
    requires
        x < 16,
        y < 16,
        n < 16,
    ensures
        decode_spec(opcode_of(1, x, y, n)) == Some(Op::Jump((256 * x + 16 * y + n) as usize)),
        decode_spec(opcode_of(2, x, y, n)) == Some(Op::CallSubroutine((256 * x + 16 * y + n) as usize)),
        decode_spec(opcode_of(0xA, x, y, n)) == Some(Op::SetI((256 * x + 16 * y + n) as usize)),
        decode_spec(opcode_of(0xB, x, y, n)) == Some(
            Op::JumpWithOffset((256 * x + 16 * y + n) as usize),
        ),
{
    lemma_digits(1, x, y, n);
    lemma_digits(2, x, y, n);
    lemma_digits(0xA, x, y, n);
    lemma_digits(0xB, x, y, n);
}

/// The instructions with a register X and a byte NN = 16 Y + N: 3XNN, 4XNN, 6XNN, 7XNN,
/// CXNN.
pub proof fn law_decode_register_byte_forms(x: u16, y: u16, n: u16)
    requires
        x < 16,
        y < 16,
        n < 16,
    ensures
        decode_spec(opcode_of(3, x, y, n)) == Some(Op::SkipIfEqImm(x as usize, (16 * y + n) as u8)),
        decode_spec(opcode_of(4, x, y, n)) == Some(Op::SkipIfNotEqImm(x as usize, (16 * y + n) as u8)),
        decode_spec(opcode_of(6, x, y, n)) == Some(Op::SetImm(x as usize, (16 * y + n) as u8)),
        decode_spec(opcode_of(7, x, y, n)) == Some(Op::AddImm(x as usize, (16 * y + n) as u8)),
        decode_spec(opcode_of(0xC, x, y, n)) == Some(Op::Random(x as usize, (16 * y + n) as u8)),
{
    lemma_digits(3, x, y, n);
    lemma_digits(4, x, y, n);
    lemma_digits(6, x, y, n);
    lemma_digits(7, x, y, n);
    lemma_digits(0xC, x, y, n);
}

/// The instructions with two registers X, Y: 5XY0, 9XY0, 8XY0..8XY7, 8XYE, and DXYN.
pub proof fn law_decode_two_register_forms(x: u16, y: u16, n: u16)
    requires
        x < 16,
        y < 16,
        n < 16,
    ensures
        decode_spec(opcode_of(5, x, y, 0)) == Some(Op::SkipIfEq(x as usize, y as usize)),
        decode_spec(opcode_of(9, x, y, 0)) == Some(Op::SkipIfNotEq(x as usize, y as usize)),
        decode_spec(opcode_of(8, x, y, 0)) == Some(Op::SetReg(x as usize, y as usize)),
        decode_spec(opcode_of(8, x, y, 1)) == Some(Op::Or(x as usize, y as usize)),
        decode_spec(opcode_of(8, x, y, 2)) == Some(Op::And(x as usize, y as usize)),
        decode_spec(opcode_of(8, x, y, 3)) == Some(Op::Xor(x as usize, y as usize)),
        decode_spec(opcode_of(8, x, y, 4)) == Some(Op::Add(x as usize, y as usize)),
        decode_spec(opcode_of(8, x, y, 5)) == Some(Op::Subtract(x as usize, y as usize)),
        decode_spec(opcode_of(8, x, y, 6)) == Some(Op::ShiftRight(x as usize, y as usize)),
        decode_spec(opcode_of(8, x, y, 7)) == Some(Op::SubtractRev(x as usize, y as usize)),
        decode_spec(opcode_of(8, x, y, 0xE)) == Some(Op::ShiftLeft(x as usize, y as usize)),
        decode_spec(opcode_of(0xD, x, y, n)) == Some(Op::Draw(x as usize, y as usize, n as usize)),
        (n == 8 || n == 9 || n == 0xA || n == 0xB || n == 0xC || n == 0xD || n == 0xF) ==> decode_spec(
            opcode_of(8, x, y, n),
        ) is None,
{
    lemma_digits(5, x, y, 0);
    lemma_digits(9, x, y, 0);
    lemma_digits(8, x, y, 0);
    lemma_digits(8, x, y, 1);
    lemma_digits(8, x, y, 2);
    lemma_digits(8, x, y, 3);
    lemma_digits(8, x, y, 4);
    lemma_digits(8, x, y, 5);
    lemma_digits(8, x, y, 6);
    lemma_digits(8, x, y, 7);
    lemma_digits(8, x, y, 0xE);
    lemma_digits(8, x, y, n);
    lemma_digits(0xD, x, y, n);
}

/// The instructions with one register X: EX9E, EXA1 and FX07, FX0A, FX15, FX18, FX1E, FX29,
/// FX33, FX55, FX65; and the two fixed opcodes 00E0 and 00EE.
pub proof fn law_decode_one_register_forms(x: u16)
    requires
        x < 16,
    ensures
        decode_spec(opcode_of(0xE, x, 9, 0xE)) == Some(Op::SkipIfKeyDown(x as usize)),
        decode_spec(opcode_of(0xE, x, 0xA, 1)) == Some(Op::SkipIfKeyUp(x as usize)),
        decode_spec(opcode_of(0xF, x, 0, 7)) == Some(Op::GetDelayTimer(x as usize)),
        decode_spec(opcode_of(0xF, x, 0, 0xA)) == Some(Op::GetKey(x as usize)),
        decode_spec(opcode_of(0xF, x, 1, 5)) == Some(Op::SetDelayTimer(x as usize)),
        decode_spec(opcode_of(0xF, x, 1, 8)) == Some(Op::SetSoundTimer(x as usize)),
        decode_spec(opcode_of(0xF, x, 1, 0xE)) == Some(Op::AddToIndex(x as usize)),
        decode_spec(opcode_of(0xF, x, 2, 9)) == Some(Op::FontChar(x as usize)),
        decode_spec(opcode_of(0xF, x, 3, 3)) == Some(Op::BCDConv(x as usize)),
        decode_spec(opcode_of(0xF, x, 5, 5)) == Some(Op::StoreMem(x as usize)),
        decode_spec(opcode_of(0xF, x, 6, 5)) == Some(Op::LoadMem(x as usize)),
        decode_spec(opcode_of(0, 0, 0xE, 0)) == Some(Op::ClearScreen),
        decode_spec(opcode_of(0, 0, 0xE, 0xE)) == Some(Op::RetSubroutine),
{
    lemma_digits(0xE, x, 9, 0xE);
    lemma_digits(0xE, x, 0xA, 1);
    lemma_digits(0xF, x, 0, 7);
    lemma_digits(0xF, x, 0, 0xA);
    lemma_digits(0xF, x, 1, 5);
    lemma_digits(0xF, x, 1, 8);
    lemma_digits(0xF, x, 1, 0xE);
    lemma_digits(0xF, x, 2, 9);
    lemma_digits(0xF, x, 3, 3);
    lemma_digits(0xF, x, 5, 5);
    lemma_digits(0xF, x, 6, 5);
    lemma_digits(0, 0, 0xE, 0);
    lemma_digits(0, 0, 0xE, 0xE);
}

} // verus!
