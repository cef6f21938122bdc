use vstd::prelude::*;

use crate::draw::draw_sprite;
use crate::memory::{FONTSET_START_ADDR, MEMORY_SIZE};
use crate::state::{self, Chip8State};
use crate::Chip8;

verus! {

/// One decoded CHIP-8 instruction. `X`, `Y` name registers, `NNN` is a 12-bit address,
/// `NN` an 8-bit constant and `N` a 4-bit count.
#[derive(Debug, Clone, Copy, PartialEq, Eq, Structural)]
pub enum Op {
    /// 00E0: Clear the screen
    ClearScreen,
    /// 00EE: Return from subroutine
    RetSubroutine,
    /// 1NNN: Jump to address NNN
    Jump(usize),
    /// 2NNN: Call subroutine
    CallSubroutine(usize),
    /// 3XNN: Skip next instruction if register VX == NN
    SkipIfEqImm(usize, u8),
    /// 4XNN: Skip next instruction if register VX != NN
    SkipIfNotEqImm(usize, u8),
    /// 5XY0: Skip next instruction if register values VX == VY
    SkipIfEq(usize, usize),
    /// 6XNN: Store value NN in register VX
    SetImm(usize, u8),
    /// 7XNN: Add the value NN to register VX
    AddImm(usize, u8),
    /// 8XY0: Set register VX to VY
    SetReg(usize, usize),
    /// 8XY1: Set register VX to VX OR VY
    Or(usize, usize),
    /// 8XY2: Set register VX to VX AND VY
    And(usize, usize),
    /// 8XY3: Set register VX to VX XOR VY
    Xor(usize, usize),
    /// 8XY4: Add the value of register VY to register VX.
    /// Sets register VF to 1 if a carry occurs, if not set it to 0
    Add(usize, usize),
    /// 8XY5: Subtract the value of register VY from register VX.
    /// Set register VF to 0 if a borrow occurs, if not set it to 1
    Subtract(usize, usize),
    /// 8XY6: Store the value of register VY shifted right one bit to register VX.
    /// Set register VF to the least significant bit prior to the shift
    ShiftRight(usize, usize),
    /// 8XY7: Set register VX to the value of VY - VX.
    /// Set VF to 0 if a borrow occurs, if not set it to 1
    SubtractRev(usize, usize),
    /// 8XYE: Store the value of VY shifted left one bit in register VX.
    /// Set VF to the most significant bit prior to the shift
    ShiftLeft(usize, usize),
    /// 9XY0: Skip next instruction if the values of register VX != VY
    SkipIfNotEq(usize, usize),
    /// ANNN: Store memory address NNN in register I
    SetI(usize),
    /// BNNN: Jump to address NNN + V0
    JumpWithOffset(usize),
    /// CXNN: Set register VX to a random number with a mask of NN
    Random(usize, u8),
    /// DXYN: Draw a sprite at position VX, VY with N bytes starting from the address stored
    /// in register I. Set VF to 1 if any previously set pixel is unset, 0 otherwise.
    /// Trying to set an already set pixel results in it being unset.
    Draw(usize, usize, usize),
    /// EX9E: Skip next instruction if the key with the value in VX is pressed
    SkipIfKeyDown(usize),
    /// EXA1: Skip next instruction if the key with the value in VX is not pressed
    SkipIfKeyUp(usize),
    /// FX07: Set VX to the current value of the delay timer
    GetDelayTimer(usize),
    /// FX0A: Stop execution until a key is pressed, store the key in VX
    GetKey(usize),
    /// FX15: Set the delay timer to the value of VX
    SetDelayTimer(usize),
    /// FX18: Set the sound timer to the value of VX
    SetSoundTimer(usize),
    /// FX1E: Add the value in VX to index register
    AddToIndex(usize),
    /// FX29: Set register I to the address of the font character sprite of the digit in the
    /// last nibble of VX.
    FontChar(usize),
    /// FX33: Store the binary-coded decimal equivalent of the value stored in register VX
    /// to addresses I, I + 1, I + 2.
    BCDConv(usize),
    /// FX55: Store registers V0 to VX inclusive in memory starting at address I;
    /// I is set to I + X + 1 after the operation.
    StoreMem(usize),
    /// FX65: Load registers V0 to VX inclusive with the values starting from the address
    /// stored in register I; I is set to I + X + 1 after the operation.
    LoadMem(usize),
}

/// The `k`-th hexadecimal digit of an opcode, counted from the most significant one.
pub open spec fn nibble(opcode: u16, k: int) -> usize {
    if k == 0 {
        (opcode / 4096) as usize
    } else if k == 1 {
        ((opcode / 256) % 16) as usize
    } else if k == 2 {
        ((opcode / 16) % 16) as usize
    } else {
        (opcode % 16) as usize
    }
}

/// The instruction that a 16-bit opcode encodes, or `None` for an opcode that encodes no
/// instruction.
pub open spec fn decode_spec(opcode: u16) -> Option<Op> {
    let n0 = nibble(opcode, 0);
    let x = nibble(opcode, 1);
    let y = nibble(opcode, 2);
    let n = nibble(opcode, 3);
    let nnn = (opcode % 4096) as usize;
    let nn = (opcode % 256) as u8;
    if n0 == 0x0 {
        if opcode == 0x00E0 {
            Some(Op::ClearScreen)
        } else if opcode == 0x00EE {
            Some(Op::RetSubroutine)
        } else {
            None
        }
    } else if n0 == 0x1 {
        Some(Op::Jump(nnn))
    } else if n0 == 0x2 {
        Some(Op::CallSubroutine(nnn))
    } else if n0 == 0x3 {
        Some(Op::SkipIfEqImm(x, nn))
    } else if n0 == 0x4 {
        Some(Op::SkipIfNotEqImm(x, nn))
    } else if n0 == 0x5 {
        Some(Op::SkipIfEq(x, y))
    } else if n0 == 0x6 {
        Some(Op::SetImm(x, nn))
    } else if n0 == 0x7 {
        Some(Op::AddImm(x, nn))
    } else if n0 == 0x8 {
        if n == 0x0 {
            Some(Op::SetReg(x, y))
        } else if n == 0x1 {
            Some(Op::Or(x, y))
        } else if n == 0x2 {
            Some(Op::And(x, y))
        } else if n == 0x3 {
            Some(Op::Xor(x, y))
        } else if n == 0x4 {
            Some(Op::Add(x, y))
        } else if n == 0x5 {
            Some(Op::Subtract(x, y))
        } else if n == 0x6 {
            Some(Op::ShiftRight(x, y))
        } else if n == 0x7 {
            Some(Op::SubtractRev(x, y))
        } else if n == 0xE {
            Some(Op::ShiftLeft(x, y))
        } else {
            None
        }
    } else if n0 == 0x9 {
        Some(Op::SkipIfNotEq(x, y))
    } else if n0 == 0xA {
        Some(Op::SetI(nnn))
    } else if n0 == 0xB {
        Some(Op::JumpWithOffset(nnn))
    } else if n0 == 0xC {
        Some(Op::Random(x, nn))
    } else if n0 == 0xD {
        Some(Op::Draw(x, y, n))
    } else if n0 == 0xE {
        if y == 0x9 && n == 0xE {
            Some(Op::SkipIfKeyDown(x))
        } else if y == 0xA && n == 0x1 {
            Some(Op::SkipIfKeyUp(x))
        } else {
            None
        }
    } else {
        let low = opcode % 256;
        if low == 0x07 {
            Some(Op::GetDelayTimer(x))
        } else if low == 0x0A {
            Some(Op::GetKey(x))
        } else if low == 0x15 {
            Some(Op::SetDelayTimer(x))
        } else if low == 0x18 {
            Some(Op::SetSoundTimer(x))
        } else if low == 0x1E {
            Some(Op::AddToIndex(x))
        } else if low == 0x29 {
            Some(Op::FontChar(x))
        } else if low == 0x33 {
            Some(Op::BCDConv(x))
        } else if low == 0x55 {
            Some(Op::StoreMem(x))
        } else if low == 0x65 {
            Some(Op::LoadMem(x))
        } else {
            None
        }
    }
}

impl Op {
    /// Decodes a 16-bit opcode. Defined on exactly the opcodes that encode an instruction.
    pub fn new(opcode: u16) -> (op: Self)
        requires
            decode_spec(opcode) is Some,
        ensures
            decode_spec(opcode) == Some(op),
    {
        Op::decode(opcode).unwrap()
    }

    /// The instruction that `opcode` encodes, or `None` when it encodes none.
    pub fn decode(opcode: u16) -> (op: Option<Self>)
        ensures
            op == decode_spec(opcode),
    {
        let n0: u16 = (opcode >> 12u16) & 0xF;
        let n1: u16 = (opcode >> 8u16) & 0xF;
        let n2: u16 = (opcode >> 4u16) & 0xF;
        let n3: u16 = opcode & 0xF;
        let nnn: u16 = 0x0FFF & opcode;
        let nn: u16 = 0x00FF & opcode;
        proof {
            assert(n0 == opcode / 4096 && n1 == (opcode / 256) % 16 && n2 == (opcode / 16) % 16
                && n3 == opcode % 16 && nnn == opcode % 4096 && nn == opcode % 256) by (bit_vector)
                requires
                    n0 == (opcode >> 12u16) & 0xF,
                    n1 == (opcode >> 8u16) & 0xF,
                    n2 == (opcode >> 4u16) & 0xF,
                    n3 == opcode & 0xF,
                    nnn == 0x0FFF & opcode,
                    nn == 0x00FF & opcode,
            ;
        }
        let x = n1 as usize;
        let y = n2 as usize;
        let n = n3 as usize;
        let addr = nnn as usize;
        let byte = nn as u8;
        if n0 == 0x0 {
            if opcode == 0x00E0 {
                Some(Op::ClearScreen)
            } else if opcode == 0x00EE {
                Some(Op::RetSubroutine)
            } else {
                None
            }
        } else if n0 == 0x1 {
            Some(Op::Jump(addr))
        } else if n0 == 0x2 {
            Some(Op::CallSubroutine(addr))
        } else if n0 == 0x3 {
            Some(Op::SkipIfEqImm(x, byte))
        } else if n0 == 0x4 {
            Some(Op::SkipIfNotEqImm(x, byte))
        } else if n0 == 0x5 {
            Some(Op::SkipIfEq(x, y))
        } else if n0 == 0x6 {
            Some(Op::SetImm(x, byte))
        } else if n0 == 0x7 {
            Some(Op::AddImm(x, byte))
        } else if n0 == 0x8 {
            if n == 0x0 {
                Some(Op::SetReg(x, y))
            } else if n == 0x1 {
                Some(Op::Or(x, y))
            } else if n == 0x2 {
                Some(Op::And(x, y))
            } else if n == 0x3 {
                Some(Op::Xor(x, y))
            } else if n == 0x4 {
                Some(Op::Add(x, y))
            } else if n == 0x5 {
                Some(Op::Subtract(x, y))
            } else if n == 0x6 {
                Some(Op::ShiftRight(x, y))
            } else if n == 0x7 {
                Some(Op::SubtractRev(x, y))
            } else if n == 0xE {
                Some(Op::ShiftLeft(x, y))
            } else {
                None
            }
        } else if n0 == 0x9 {
            Some(Op::SkipIfNotEq(x, y))
        } else if n0 == 0xA {
            Some(Op::SetI(addr))
        } else if n0 == 0xB {
            Some(Op::JumpWithOffset(addr))
        } else if n0 == 0xC {
            Some(Op::Random(x, byte))
        } else if n0 == 0xD {
            Some(Op::Draw(x, y, n))
        } else if n0 == 0xE {
            if y == 0x9 && n == 0xE {
                Some(Op::SkipIfKeyDown(x))
            } else if y == 0xA && n == 0x1 {
                Some(Op::SkipIfKeyUp(x))
            } else {
                None
            }
        } else {
            if nn == 0x07 {
                Some(Op::GetDelayTimer(x))
            } else if nn == 0x0A {
                Some(Op::GetKey(x))
            } else if nn == 0x15 {
                Some(Op::SetDelayTimer(x))
            } else if nn == 0x18 {
                Some(Op::SetSoundTimer(x))
            } else if nn == 0x1E {
                Some(Op::AddToIndex(x))
            } else if nn == 0x29 {
                Some(Op::FontChar(x))
            } else if nn == 0x33 {
                Some(Op::BCDConv(x))
            } else if nn == 0x55 {
                Some(Op::StoreMem(x))
            } else if nn == 0x65 {
                Some(Op::LoadMem(x))
            } else {
                None
            }
        }
    }
}

/// A random byte from `fastrand::u8(..)`, the thread-local generator of `fastrand`, over the
/// full range of `u8`. The value depends on the generator's state, so nothing is stated of it.
#[verifier::external_body]
fn random_byte() -> (r: u8) {
    fastrand::u8(..)
}

/// FX33: the hundreds, tens and ones digits of VX at I, I + 1, I + 2.
fn store_bcd(chip8: &mut Chip8, vx: usize)
    requires
        vx < 16,
        old(chip8)@.i + 3 <= MEMORY_SIZE,
    ensures
        final(chip8)@ == state::step(Op::BCDConv(vx), old(chip8)@, 0),
{
    let addr = chip8.registers.i;
    let mut x = chip8.registers.v[vx];
    let hundreds = x / 100;
    x = x % 100;
    let tens = x / 10;
    x = x % 10;
    chip8.memory.bytes[addr] = hundreds;
    chip8.memory.bytes[addr + 1] = tens;
    chip8.memory.bytes[addr + 2] = x;
    proof {
        let val = old(chip8)@.v[vx as int];
        assert((val % 100) / 10 == (val / 10) % 10);
    }
    assert(chip8@ =~= state::step(Op::BCDConv(vx), old(chip8)@, 0));
}

/// FX55: V0..=VX into memory from I; I moves past them.
fn store_registers(chip8: &mut Chip8, vx: usize)
    requires
        vx < 16,
        old(chip8)@.i + vx < MEMORY_SIZE,
    ensures
        final(chip8)@ == state::step(Op::StoreMem(vx), old(chip8)@, 0),
{
    let addr = chip8.registers.i;
    let ghost s0 = chip8@;
    let mut n: usize = 0;
    while n <= vx
        invariant
            vx < 16,
            addr == s0.i,
            addr + vx < MEMORY_SIZE,
            n <= vx + 1,
            chip8@ == (Chip8State {
                mem: Seq::new(
                    s0.mem.len(),
                    |k: int|
                        if addr <= k < addr + n {
                            s0.v[k - addr]
                        } else {
                            s0.mem[k]
                        },
                ),
                ..s0
            }),
        decreases vx + 1 - n,
    {
        chip8.memory.bytes[addr + n] = chip8.registers.v[n];
        n = n + 1;
    }
    chip8.registers.i = addr + vx + 1;
    assert(chip8@ =~= state::step(Op::StoreMem(vx), s0, 0));
}

/// FX65: V0..=VX from memory at I; I moves past them.
fn load_registers(chip8: &mut Chip8, vx: usize)
    requires
        vx < 16,
        old(chip8)@.i + vx < MEMORY_SIZE,
    ensures
        final(chip8)@ == state::step(Op::LoadMem(vx), old(chip8)@, 0),
{
    let addr = chip8.registers.i;
    let ghost s0 = chip8@;
    let mut n: usize = 0;
    while n <= vx
        invariant
            vx < 16,
            addr == s0.i,
            addr + vx < MEMORY_SIZE,
            n <= vx + 1,
            chip8@ == (Chip8State {
                v: Seq::new(
                    s0.v.len(),
                    |r: int|
                        if r < n {
                            s0.mem[addr + r]
                        } else {
                            s0.v[r]
                        },
                ),
                ..s0
            }),
        decreases vx + 1 - n,
    {
        chip8.registers.v[n] = chip8.memory.bytes[addr + n];
        n = n + 1;
    }
    chip8.registers.i = addr + vx + 1;
    assert(chip8@ =~= state::step(Op::LoadMem(vx), s0, 0));
}

/// FX0A: the first pressed key into VX; with no key pressed the instruction repeats.
fn wait_for_key(chip8: &mut Chip8, vx: usize)
    requires
        vx < 16,
        old(chip8)@.pc >= 2,
    ensures
        final(chip8)@ == state::step(Op::GetKey(vx), old(chip8)@, 0),
{
    let ghost s0 = chip8@;
    chip8.registers.pc = chip8.registers.pc - 2;
    let mut n: usize = 0;
    while n < 16
        invariant_except_break
            n <= 16,
            state::first_pressed(s0.keypad, n as int) is None,
            chip8@ == (Chip8State { pc: (s0.pc - 2) as usize, ..s0 }),
        invariant
            vx < 16,
            s0.pc >= 2,
            s0.well_sized(),
        ensures
            chip8@ == state::step(Op::GetKey(vx), s0, 0),
        decreases 16 - n,
    {
        if chip8.keypad[n] {
            chip8.registers.pc = chip8.registers.pc + 2;
            chip8.registers.v[vx] = n as u8;
            proof {
                assert(state::first_pressed(s0.keypad, n + 1) == Some(n as int));
                assert forall|m: int| n < m <= 16 implies state::first_pressed(s0.keypad, m)
                    == Some(n as int) by {
                    lemma_first_pressed_stable(s0.keypad, n as int + 1, m);
                }
            }
            assert(chip8@ =~= state::step(Op::GetKey(vx), s0, 0));
            break;
        }
        n = n + 1;
    }
}

/// Once a key is found among the first `a` keys, it stays the first pressed key.
pub(crate) proof fn lemma_first_pressed_stable(keys: Seq<bool>, a: int, b: int)
    requires
        0 <= a <= b,
        state::first_pressed(keys, a) is Some,
    ensures
        state::first_pressed(keys, b) == state::first_pressed(keys, a),
    decreases b - a,
{
    if a < b {
        lemma_first_pressed_stable(keys, a, b - 1);
    }
}

impl Op {
    /// Executes the instruction on `chip8`, where `rand` is the byte a `Random`
    /// instruction masks (no other instruction reads it).
    pub fn execute_with_random(self, chip8: &mut Chip8, rand: u8)
        requires
            state::step_defined(self, old(chip8)@),
        ensures
            final(chip8)@ == state::step(self, old(chip8)@, rand),
    {
        let ghost s0 = chip8@;
        match self {
            Op::ClearScreen => {
                chip8.display = [false; 2048];
                assert(chip8@ =~= state::step(self, s0, rand));
            },
            Op::RetSubroutine => {
                let ret = chip8.memory.stack.pop().unwrap();
                chip8.registers.pc = ret;
                assert(chip8@ =~= state::step(self, s0, rand));
            },
            Op::Jump(addr) => {
                chip8.registers.pc = addr;
                assert(chip8@ =~= state::step(self, s0, rand));
            },
            Op::CallSubroutine(addr) => {
                chip8.memory.stack.push(chip8.registers.pc);
                chip8.registers.pc = addr;
                assert(chip8@ =~= state::step(self, s0, rand));
            },
            Op::SkipIfEqImm(vx, val) => {
                if chip8.registers.v[vx] == val {
                    chip8.registers.pc = chip8.registers.pc + 2;
                }
                assert(chip8@ =~= state::step(self, s0, rand));
            },
            Op::SkipIfNotEqImm(vx, val) => {
                if chip8.registers.v[vx] != val {
                    chip8.registers.pc = chip8.registers.pc + 2;
                }
                assert(chip8@ =~= state::step(self, s0, rand));
            },
            Op::SkipIfEq(vx, vy) => {
                if chip8.registers.v[vx] == chip8.registers.v[vy] {
                    chip8.registers.pc = chip8.registers.pc + 2;
                }
                assert(chip8@ =~= state::step(self, s0, rand));
            },
            Op::SetImm(vx, val) => {
                chip8.registers.v[vx] = val;
                assert(chip8@ =~= state::step(self, s0, rand));
            },
            Op::AddImm(vx, val) => {
                chip8.registers.v[vx] = chip8.registers.v[vx].wrapping_add(val);
                assert(chip8@ =~= state::step(self, s0, rand));
            },
            Op::SetReg(vx, vy) => {
                chip8.registers.v[vx] = chip8.registers.v[vy];
                assert(chip8@ =~= state::step(self, s0, rand));
            },
            Op::Or(vx, vy) => {
                let save = chip8.registers.v[vx] | chip8.registers.v[vy];
                chip8.registers.v[vx] = save;
                assert(chip8@ =~= state::step(self, s0, rand));
            },
            Op::And(vx, vy) => {
                let save = chip8.registers.v[vx] & chip8.registers.v[vy];
                chip8.registers.v[vx] = save;
                assert(chip8@ =~= state::step(self, s0, rand));
            },
            Op::Xor(vx, vy) => {
                let save = chip8.registers.v[vx] ^ chip8.registers.v[vy];
                chip8.registers.v[vx] = save;
                assert(chip8@ =~= state::step(self, s0, rand));
            },
            Op::Add(vx, vy) => {
                let x = chip8.registers.v[vx];
                let y = chip8.registers.v[vy];
                chip8.registers.v[15] = 0;
                if x.checked_add(y).is_none() {
                    chip8.registers.v[15] = 1;
                }
                chip8.registers.v[vx] = x.wrapping_add(y);
                assert(chip8@ =~= state::step(self, s0, rand));
            },
            Op::Subtract(vx, vy) => {
                let x = chip8.registers.v[vx];
                let y = chip8.registers.v[vy];
                chip8.registers.v[15] = 1;
                if x.checked_sub(y).is_none() {
                    chip8.registers.v[15] = 0;
                }
                chip8.registers.v[vx] = x.wrapping_sub(y);
                assert(chip8@ =~= state::step(self, s0, rand));
            },
            Op::ShiftRight(vx, vy) => {
                let y = chip8.registers.v[vy];
                chip8.registers.v[15] = 0;
                if 0b0000_0001 & y > 0b0 {
                    chip8.registers.v[15] = 1;
                }
                assert((0b0000_0001 & y > 0b0) == (y % 2 == 1)) by (bit_vector);
                assert(y >> 1u8 == y / 2) by (bit_vector);
                chip8.registers.v[vx] = y >> 1u8;
                assert(chip8@ =~= state::step(self, s0, rand));
            },
            Op::SubtractRev(vx, vy) => {
                let x = chip8.registers.v[vx];
                let y = chip8.registers.v[vy];
                chip8.registers.v[15] = 1;
                if y.checked_sub(x).is_none() {
                    chip8.registers.v[15] = 0;
                }
                chip8.registers.v[vx] = y.wrapping_sub(x);
                assert(chip8@ =~= state::step(self, s0, rand));
            },
            Op::ShiftLeft(vx, vy) => {
                let y = chip8.registers.v[vy];
                chip8.registers.v[15] = 0;
                if 0b1000_0000 & y > 0b0 {
                    chip8.registers.v[15] = 1;
                }
                assert((0b1000_0000 & y > 0b0) == (y / 128 == 1)) by (bit_vector);
                assert(y << 1u8 == (y * 2) % 256) by (bit_vector);
                chip8.registers.v[vx] = y << 1u8;
                assert(chip8@ =~= state::step(self, s0, rand));
            },
            Op::SkipIfNotEq(vx, vy) => {
                if chip8.registers.v[vx] != chip8.registers.v[vy] {
                    chip8.registers.pc = chip8.registers.pc + 2;
                }
                assert(chip8@ =~= state::step(self, s0, rand));
            },
            Op::SetI(addr) => {
                chip8.registers.i = addr;
                assert(chip8@ =~= state::step(self, s0, rand));
            },
            Op::JumpWithOffset(addr) => {
                chip8.registers.pc = addr + chip8.registers.v[0] as usize;
                assert(chip8@ =~= state::step(self, s0, rand));
            },
            Op::Random(vx, val) => {
                chip8.registers.v[vx] = val & rand;
                assert(chip8@ =~= state::step(self, s0, rand));
            },
            Op::Draw(vx, vy, row) => {
                draw_sprite(chip8, vx, vy, row);
            },
            Op::SkipIfKeyDown(vx) => {
                let key = chip8.registers.v[vx] as usize;
                if chip8.keypad[key] {
                    chip8.registers.pc = chip8.registers.pc + 2;
                }
                assert(chip8@ =~= state::step(self, s0, rand));
            },
            Op::SkipIfKeyUp(vx) => {
                let key = chip8.registers.v[vx] as usize;
                if !chip8.keypad[key] {
                    chip8.registers.pc = chip8.registers.pc + 2;
                }
                assert(chip8@ =~= state::step(self, s0, rand));
            },
            Op::GetDelayTimer(vx) => {
                chip8.registers.v[vx] = chip8.registers.timer_delay;
                assert(chip8@ =~= state::step(self, s0, rand));
            },
            Op::SetDelayTimer(vx) => {
                chip8.registers.timer_delay = chip8.registers.v[vx];
                assert(chip8@ =~= state::step(self, s0, rand));
            },
            Op::SetSoundTimer(vx) => {
                chip8.registers.timer_sound = chip8.registers.v[vx];
                assert(chip8@ =~= state::step(self, s0, rand));
            },
            Op::AddToIndex(vx) => {
                let x = chip8.registers.v[vx] as usize;
                let sum = x + chip8.registers.i;
                if sum > 0xFFF {
                    chip8.registers.v[0xF] = 1;
                }
                chip8.registers.i = sum;
                assert(chip8@ =~= state::step(self, s0, rand));
            },
            Op::GetKey(vx) => {
                wait_for_key(chip8, vx);
            },
            Op::FontChar(vx) => {
                let val = chip8.registers.v[vx];
                let char_addr: usize = (0x0F & val) as usize;
                assert(0x0F & val == val % 16) by (bit_vector);
                // each glyph of the font takes five bytes
                chip8.registers.i = FONTSET_START_ADDR + 5 * char_addr;
                assert(chip8@ =~= state::step(self, s0, rand));
            },
            Op::BCDConv(vx) => {
                store_bcd(chip8, vx);
            },
            Op::StoreMem(vx) => {
                store_registers(chip8, vx);
            },
            Op::LoadMem(vx) => {
                load_registers(chip8, vx);
            },
        }
    }

    /// Whether executing the instruction is defined on `chip8` with its program counter
    /// replaced by `pc`.
    pub fn is_defined_at(self, chip8: &Chip8, pc: usize) -> (r: bool)
        ensures
            r == state::step_defined(self, Chip8State { pc, ..chip8@ }),
    {
        let pc_ok = pc <= usize::MAX - 2;
        let v = &chip8.registers.v;
        let i = chip8.registers.i;
        match self {
            Op::ClearScreen => true,
            Op::RetSubroutine => chip8.memory.stack.len() > 0,
            Op::Jump(_) => true,
            Op::CallSubroutine(_) => true,
            Op::SkipIfEqImm(x, nn) => x < 16 && (v[x] != nn || pc_ok),
            Op::SkipIfNotEqImm(x, nn) => x < 16 && (v[x] == nn || pc_ok),
            Op::SkipIfEq(x, y) => x < 16 && y < 16 && (v[x] != v[y] || pc_ok),
            Op::SetImm(x, _) => x < 16,
            Op::AddImm(x, _) => x < 16,
            Op::SetReg(x, y) => x < 16 && y < 16,
            Op::Or(x, y) => x < 16 && y < 16,
            Op::And(x, y) => x < 16 && y < 16,
            Op::Xor(x, y) => x < 16 && y < 16,
            Op::Add(x, y) => x < 16 && y < 16,
            Op::Subtract(x, y) => x < 16 && y < 16,
            Op::ShiftRight(x, y) => x < 16 && y < 16,
            Op::SubtractRev(x, y) => x < 16 && y < 16,
            Op::ShiftLeft(x, y) => x < 16 && y < 16,
            Op::SkipIfNotEq(x, y) => x < 16 && y < 16 && (v[x] == v[y] || pc_ok),
            Op::SetI(_) => true,
            Op::JumpWithOffset(a) => a <= usize::MAX - v[0] as usize,
            Op::Random(x, _) => x < 16,
            Op::Draw(x, y, n) => {
                if x < 16 && y < 16 {
                    let xc = (v[x] % 64) as usize;
                    let yc = (v[y] % 32) as usize;
                    n == 0 || (n <= 32 && i <= MEMORY_SIZE - n && (yc + n < 32 || (yc + n == 32
                        && xc + 7 < 64)))
                } else {
                    false
                }
            },
            Op::SkipIfKeyDown(x) => x < 16 && v[x] < 16 && (!chip8.keypad[v[x] as usize]
                || pc_ok),
            Op::SkipIfKeyUp(x) => x < 16 && v[x] < 16 && (chip8.keypad[v[x] as usize] || pc_ok),
            Op::GetDelayTimer(x) => x < 16,
            Op::GetKey(x) => x < 16 && pc >= 2,
            Op::SetDelayTimer(x) => x < 16,
            Op::SetSoundTimer(x) => x < 16,
            Op::AddToIndex(x) => x < 16 && i <= usize::MAX - v[x] as usize,
            Op::FontChar(x) => x < 16,
            Op::BCDConv(x) => x < 16 && i <= MEMORY_SIZE - 3,
            Op::StoreMem(x) => x < 16 && i < MEMORY_SIZE - x,
            Op::LoadMem(x) => x < 16 && i < MEMORY_SIZE - x,
        }
    }

    /// Whether executing the instruction on `chip8` is defined (the `requires` of
    /// `execute`).
    pub fn can_execute(self, chip8: &Chip8) -> (r: bool)
        ensures
            r == state::step_defined(self, chip8@),
    {
        assert(Chip8State { pc: chip8.registers.pc, ..chip8@ } =~= chip8@);
        self.is_defined_at(chip8, chip8.registers.pc)
    }

    /// Executes the instruction on `chip8`. A `Random` instruction draws its byte from
    /// `fastrand`; every other instruction is deterministic.
    pub fn execute(self, chip8: &mut Chip8)
        requires
            state::step_defined(self, old(chip8)@),
        ensures
            exists|rand: u8| final(chip8)@ == state::step(self, old(chip8)@, rand),
    {
        let rand: u8 = match self {
            Op::Random(_, _) => random_byte(),
            _ => 0,
        };
        self.execute_with_random(chip8, rand);
    }
}

} // verus!
