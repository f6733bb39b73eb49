//! The CPU's register file.
use crate::register::{ByteRegister, WordRegister};
use vstd::prelude::*;

verus! {

/// Index registers, accumulator, program counter, stack pointer and flags.
#[derive(Debug)]
pub struct CPU {
    pub x: ByteRegister,
    pub y: ByteRegister,
    pub a: ByteRegister,
    pub pc: WordRegister,
    pub sp: ByteRegister,
    pub flags: ByteRegister,
}

impl CPU {
    /// Every register holds zero.
    pub open spec fn is_reset(&self) -> bool {
        &&& self.x@ == 0
        &&& self.y@ == 0
        &&& self.a@ == 0
        &&& self.pc@ == 0
        &&& self.sp@ == 0
        &&& self.flags@ == 0
    }

    pub fn new() -> (r: CPU)
        ensures
            r.is_reset(),
    {
        CPU {
            x: ByteRegister::new(),
            y: ByteRegister::new(),
            a: ByteRegister::new(),
            pc: WordRegister::new(),
            sp: ByteRegister::new(),
            flags: ByteRegister::new(),
        }
    }

    /// Sets every register to zero.
    pub fn reset(&mut self)
        ensures
            final(self).is_reset(),
    {
        self.x.set(0);
        self.y.set(0);
        self.a.set(0);
        self.pc.set(0);
        self.sp.set(0);
        self.flags.set(0);
    }
}

} // verus!
