use vstd::prelude::*;

verus! {

/// Start of the region where programs are loaded; the program counter starts here.
pub const ROM_START_ADDR: usize = 0x200;

/// The sixteen 8-bit general registers V0..VF, the index register I, the program counter
/// and the two timers.
pub struct Registers {
    pub v: [u8; 16],
    pub i: usize,
    pub pc: usize,
    pub timer_delay: u8,
    pub timer_sound: u8,
}

impl Registers {
    /// All registers and timers cleared; the program counter points at the start of the
    /// program region.
    pub fn new() -> (r: Self)
        ensures
            forall|k: int| 0 <= k < 16 ==> r.v@[k] == 0u8,
            r.i == 0,
            r.pc == ROM_START_ADDR,
            r.timer_delay == 0,
            r.timer_sound == 0,
    {
        Registers { v: [0u8; 16], i: 0, pc: ROM_START_ADDR, timer_delay: 0, timer_sound: 0 }
    }
}

} // verus!
