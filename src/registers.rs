//! The integer register file.
use vstd::prelude::*;

verus! {

/// The value that register `i` reads as: register 0 is hardwired to zero,
/// whatever its slot holds.
pub open spec fn reg_value(regs: Seq<u32>, i: u32) -> u32 {
    if i == 0 {
        0
    } else {
        regs[i as int]
    }
}

/// The 32 integer registers. Slot 0 is an ordinary slot: the core clears it
/// before every instruction, and `read` never shows it.
#[derive(Debug, Clone, Copy)]
pub struct XREGS {
    pub regs: [u32; 32],
}

impl XREGS {
    /// A register file that holds zero in every register.
    pub fn new() -> (r: XREGS)
        ensures
            r.regs@ == Seq::new(32, |i: int| 0u32),
    {
        let r = XREGS { regs: [0u32; 32] };
        assert(r.regs@ =~= Seq::new(32, |i: int| 0u32));
        r
    }

    /// The value of register `i`; register 0 always reads zero.
    pub fn read(&self, i: u32) -> (r: u32)
        requires
            i < 32,
        ensures
            r == reg_value(self.regs@, i),
            i == 0 ==> r == 0,
    {
        if i == 0 {
            0
        } else {
            self.regs[i as usize]
        }
    }
}

} // verus!
