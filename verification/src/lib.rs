//! A CHIP-8 virtual machine: instruction decoding, execution and the fetch/decode/execute
//! cycle, with every step stated against a mathematical model of the machine.

pub mod decoding;
pub mod display;
mod draw;
pub mod keypad;
pub mod laws;
pub mod semantics;
pub mod instructions;
pub mod memory;
pub mod registers;
pub mod state;

pub use instructions::Op;
pub use keypad::KeypadEvent;
pub use memory::{Memory, FONTSET_SIZE, FONTSET_START_ADDR, MEMORY_SIZE};
pub use registers::{Registers, ROM_START_ADDR};
pub use state::{DISPLAY_HEIGHT, DISPLAY_SIZE, DISPLAY_WIDTH};

use vstd::prelude::*;

use state::Chip8State;

verus! {

/// A whole CHIP-8 machine: registers, memory with the call stack, the 64x32 monochrome
/// display (row-major) and the sixteen keys of the keypad.
pub struct Chip8 {
    pub registers: Registers,
    pub memory: Memory,
    pub display: [bool; 2048],
    pub keypad: [bool; 16],
}

impl View for Chip8 {
    type V = Chip8State;

    open spec fn view(&self) -> Chip8State {
        Chip8State {
            v: self.registers.v@,
            i: self.registers.i,
            pc: self.registers.pc,
            delay: self.registers.timer_delay,
            sound: self.registers.timer_sound,
            mem: self.memory.bytes@,
            stack: self.memory.stack@,
            display: self.display@,
            keypad: self.keypad@,
        }
    }
}

/// The opcode stored big-endian at the program counter.
pub open spec fn fetched_opcode(s: Chip8State) -> u16 {
    (s.mem[s.pc as int] * 256 + s.mem[s.pc + 1]) as u16
}

/// The state after fetching an opcode: the program counter has moved past it.
pub open spec fn after_fetch(s: Chip8State) -> Chip8State {
    Chip8State { pc: (s.pc + 2) as usize, ..s }
}

/// A cycle is defined when the opcode at the program counter lies within memory, encodes an
/// instruction, and that instruction is defined in the state after the fetch.
pub open spec fn cycle_defined(s: Chip8State) -> bool {
    &&& s.pc + 1 < MEMORY_SIZE
    &&& instructions::decode_spec(fetched_opcode(s)) is Some
    &&& state::step_defined(instructions::decode_spec(fetched_opcode(s))->0, after_fetch(s))
}

/// One fetch/decode/execute cycle, where `rand` is the byte a `Random` instruction draws.
pub open spec fn cycle_step(s: Chip8State, rand: u8) -> Chip8State {
    state::step(instructions::decode_spec(fetched_opcode(s))->0, after_fetch(s), rand)
}

impl Chip8 {
    /// A machine with cleared registers, the font in memory, an empty stack, a blank
    /// display and no key pressed; the program counter is at `ROM_START_ADDR`.
    pub fn new() -> (c: Self)
        ensures
            c@.well_sized(),
            c@.v == Seq::new(16, |k: int| 0u8),
            c@.i == 0,
            c@.pc == ROM_START_ADDR,
            c@.delay == 0,
            c@.sound == 0,
            c@.stack == Seq::<usize>::empty(),
            c@.display == Seq::new(2048, |k: int| false),
            c@.keypad == Seq::new(16, |k: int| false),
            forall|k: int|
                0 <= k < MEMORY_SIZE ==> #[trigger] c@.mem[k] == if FONTSET_START_ADDR <= k
                    < FONTSET_START_ADDR + FONTSET_SIZE {
                    memory::fontset()[k - FONTSET_START_ADDR]
                } else {
                    0u8
                },
    {
        let c = Chip8 {
            registers: Registers::new(),
            memory: Memory::new(),
            display: [false; 2048],
            keypad: [false; 16],
        };
        assert(c@.v =~= Seq::new(16, |k: int| 0u8));
        assert(c@.display =~= Seq::new(2048, |k: int| false));
        assert(c@.keypad =~= Seq::new(16, |k: int| false));
        c
    }

    /// Loads a program into memory at `ROM_START_ADDR`; the rest of the machine is kept.
    pub fn load_rom(&mut self, bytes: &[u8])
        requires
            ROM_START_ADDR + bytes@.len() <= MEMORY_SIZE,
        ensures
            final(self)@ == (Chip8State {
                mem: Seq::new(
                    MEMORY_SIZE as nat,
                    |k: int|
                        if ROM_START_ADDR <= k < ROM_START_ADDR + bytes@.len() {
                            bytes@[k - ROM_START_ADDR]
                        } else {
                            old(self)@.mem[k]
                        },
                ),
                ..old(self)@
            }),
    {
        self.memory.load_bytes(bytes, &ROM_START_ADDR);
        assert(self.memory.bytes@ =~= Seq::new(
            MEMORY_SIZE as nat,
            |k: int|
                if ROM_START_ADDR <= k < ROM_START_ADDR + bytes@.len() {
                    bytes@[k - ROM_START_ADDR]
                } else {
                    old(self)@.mem[k]
                },
        ));
    }

    /// Reads the big-endian opcode at the program counter and moves past it.
    fn fetch(&mut self) -> (opcode: u16)
        requires
            old(self).registers.pc + 1 < MEMORY_SIZE,
        ensures
            opcode == fetched_opcode(old(self)@),
            final(self)@ == after_fetch(old(self)@),
    {
        let pc = self.registers.pc;
        let opcode = self.opcode_at(pc);
        self.registers.pc = pc + 2;
        opcode
    }

    /// The big-endian opcode stored at `pc`.
    fn opcode_at(&self, pc: usize) -> (opcode: u16)
        requires
            pc + 1 < MEMORY_SIZE,
        ensures
            opcode == fetched_opcode(Chip8State { pc, ..self@ }),
    {
        // fetch the first byte and shift it left, then OR in the second byte on the right
        let hi: u8 = self.memory.bytes[pc];
        let lo: u8 = self.memory.bytes[pc + 1];
        let opcode: u16 = (hi as u16) << 8u16;
        let opcode: u16 = opcode | (lo as u16);
        assert(((hi as u16) << 8u16) | (lo as u16) == hi * 256 + lo) by (bit_vector);
        opcode
    }

    /// Whether a cycle is defined on this machine (the `requires` of `cycle`).
    pub fn can_cycle(&self) -> (r: bool)
        ensures
            r == cycle_defined(self@),
    {
        let pc = self.registers.pc;
        if pc >= MEMORY_SIZE - 1 {
            return false;
        }
        let opcode = self.opcode_at(pc);
        assert(Chip8State { pc, ..self@ } =~= self@);
        match Op::decode(opcode) {
            Some(op) => op.is_defined_at(self, pc + 2),
            None => false,
        }
    }

    /// Decodes an opcode.
    fn decode(&self, opcode: u16) -> (op: Op)
        requires
            instructions::decode_spec(opcode) is Some,
        ensures
            instructions::decode_spec(opcode) == Some(op),
    {
        Op::new(opcode)
    }

    /// Executes one instruction.
    fn execute(&mut self, op: Op)
        requires
            state::step_defined(op, old(self)@),
        ensures
            exists|rand: u8| final(self)@ == state::step(op, old(self)@, rand),
    {
        op.execute(self);
    }

    /// One fetch/decode/execute cycle.
    pub fn cycle(&mut self)
        requires
            cycle_defined(old(self)@),
        ensures
            exists|rand: u8| final(self)@ == cycle_step(old(self)@, rand),
    {
        let ghost s0 = self@;
        let opcode = self.fetch();
        let operation = self.decode(opcode);
        let ghost mid = self@;
        self.execute(operation);
        proof {
            let rand = choose|rand: u8| self@ == state::step(operation, mid, rand);
            assert(self@ == cycle_step(s0, rand));
        }
    }
}

} // verus!
