//! Fixed-width CPU registers.
use vstd::prelude::*;

verus! {

/// An 8-bit register.
#[derive(Debug)]
pub struct ByteRegister {
    value: u8,
}

impl View for ByteRegister {
    type V = u8;

    closed spec fn view(&self) -> u8 {
        self.value
    }
}

impl ByteRegister {
    pub fn new() -> (r: ByteRegister)
        ensures
            r@ == 0,
    {
        ByteRegister { value: 0 }
    }

    pub fn get(&self) -> (r: u8)
        ensures
            r == self@,
    {
        self.value
    }

    pub fn set(&mut self, value: u8)
        ensures
            final(self)@ == value,
    {
        self.value = value;
    }
}

/// A 16-bit register.
#[derive(Debug)]
pub struct WordRegister {
    value: u16,
}

impl View for WordRegister {
    type V = u16;

    closed spec fn view(&self) -> u16 {
        self.value
    }
}

impl WordRegister {
    pub fn new() -> (r: WordRegister)
        ensures
            r@ == 0,
    {
        WordRegister { value: 0 }
    }

    pub fn get(&self) -> (r: u16)
        ensures
            r == self@,
    {
        self.value
    }

    pub fn set(&mut self, value: u16)
        ensures
            final(self)@ == value,
    {
        self.value = value;
    }
}

} // verus!
