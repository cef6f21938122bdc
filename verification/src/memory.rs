use vstd::prelude::*;

verus! {

/// Number of addressable bytes.
pub const MEMORY_SIZE: usize = 4096;

/// Address of the first byte of the built-in hexadecimal font.
pub const FONTSET_START_ADDR: usize = 0x50;

/// Number of bytes of the built-in font (sixteen 5-byte glyphs, 0 to F).
pub const FONTSET_SIZE: usize = 80;

/// The built-in font: one 5-row glyph of 4 pixels width per hexadecimal digit.
pub open spec fn fontset() -> Seq<u8> {
    seq![
        0xF0u8, 0x90, 0x90, 0x90, 0xF0, // 0
        0x20, 0x60, 0x20, 0x20, 0x70, // 1
        0xF0, 0x10, 0xF0, 0x80, 0xF0, // 2
        0xF0, 0x10, 0xF0, 0x10, 0xF0, // 3
        0x90, 0x90, 0xF0, 0x10, 0x10, // 4
        0xF0, 0x80, 0xF0, 0x10, 0xF0, // 5
        0xF0, 0x80, 0xF0, 0x90, 0xF0, // 6
        0xF0, 0x10, 0x20, 0x40, 0x40, // 7
        0xF0, 0x90, 0xF0, 0x90, 0xF0, // 8
        0xF0, 0x90, 0xF0, 0x10, 0xF0, // 9
        0xF0, 0x90, 0xF0, 0x90, 0x90, // A
        0xE0, 0x90, 0xE0, 0x90, 0xE0, // B
        0xF0, 0x80, 0x80, 0x80, 0xF0, // C
        0xE0, 0x90, 0x90, 0x90, 0xE0, // D
        0xF0, 0x80, 0xF0, 0x80, 0xF0, // E
        0xF0, 0x80, 0xF0, 0x80, 0x80, // F
    ]
}

/// Main memory and the call stack of return addresses.
pub struct Memory {
    pub bytes: [u8; 4096],
    pub stack: Vec<usize>,
}

impl Memory {
    /// Zeroed memory holding the font at `FONTSET_START_ADDR`, with an empty stack.
    pub fn new() -> (m: Self)
        ensures
            forall|k: int|
                0 <= k < MEMORY_SIZE ==> #[trigger] m.bytes@[k] == if FONTSET_START_ADDR <= k
                    < FONTSET_START_ADDR + FONTSET_SIZE {
                    fontset()[k - FONTSET_START_ADDR]
                } else {
                    0u8
                },
            m.stack@ == Seq::<usize>::empty(),
    {
        let font: [u8; 80] = [
            0xF0, 0x90, 0x90, 0x90, 0xF0, 0x20, 0x60, 0x20, 0x20, 0x70,
            0xF0, 0x10, 0xF0, 0x80, 0xF0, 0xF0, 0x10, 0xF0, 0x10, 0xF0,
            0x90, 0x90, 0xF0, 0x10, 0x10, 0xF0, 0x80, 0xF0, 0x10, 0xF0,
            0xF0, 0x80, 0xF0, 0x90, 0xF0, 0xF0, 0x10, 0x20, 0x40, 0x40,
            0xF0, 0x90, 0xF0, 0x90, 0xF0, 0xF0, 0x90, 0xF0, 0x10, 0xF0,
            0xF0, 0x90, 0xF0, 0x90, 0x90, 0xE0, 0x90, 0xE0, 0x90, 0xE0,
            0xF0, 0x80, 0x80, 0x80, 0xF0, 0xE0, 0x90, 0x90, 0x90, 0xE0,
            0xF0, 0x80, 0xF0, 0x80, 0xF0, 0xF0, 0x80, 0xF0, 0x80, 0x80,
        ];
        assert(font@ =~= fontset());
        let mut bytes = [0u8; 4096];
        let mut n: usize = 0;
        while n < FONTSET_SIZE
            invariant
                n <= FONTSET_SIZE,
                font@ == fontset(),
                forall|k: int|
                    0 <= k < MEMORY_SIZE ==> #[trigger] bytes@[k] == if FONTSET_START_ADDR <= k
                        < FONTSET_START_ADDR + n {
                        fontset()[k - FONTSET_START_ADDR]
                    } else {
                        0u8
                    },
            decreases FONTSET_SIZE - n,
        {
            bytes[FONTSET_START_ADDR + n] = font[n];
            n = n + 1;
        }
        Memory { bytes, stack: Vec::new() }
    }

    /// Copies `bytes` into memory starting at address `start`; every other byte is kept.
    pub fn load_bytes(&mut self, bytes: &[u8], start: &usize)
        requires
            *start + bytes@.len() <= MEMORY_SIZE,
        ensures
            forall|k: int|
                0 <= k < MEMORY_SIZE ==> #[trigger] final(self).bytes@[k] == if *start <= k < *start
                    + bytes@.len() {
                    bytes@[k - *start]
                } else {
                    old(self).bytes@[k]
                },
            final(self).stack@ == old(self).stack@,
    {
        let base = *start;
        let mut n: usize = 0;
        while n < bytes.len()
            invariant
                base == *start,
                base + bytes@.len() <= MEMORY_SIZE,
                n <= bytes@.len(),
                self.stack@ == old(self).stack@,
                forall|k: int|
                    0 <= k < MEMORY_SIZE ==> #[trigger] self.bytes@[k] == if base <= k < base + n {
                        bytes@[k - base]
                    } else {
                        old(self).bytes@[k]
                    },
            decreases bytes@.len() - n,
        {
            self.bytes[base + n] = bytes[n];
            n = n + 1;
        }
    }

    /// The byte stored at `addr`.
    pub fn get_byte(&self, addr: usize) -> (b: u8)
        requires
            addr < MEMORY_SIZE,
        ensures
            b == self.bytes@[addr as int],
    {
        self.bytes[addr]
    }
}

} // verus!
