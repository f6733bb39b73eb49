//! A 16-bit address space assembled from memory devices, with the register
//! file and reset logic of a small CPU around it.
pub mod cpu;
pub mod memory;
pub mod memory_map;
pub mod register;
pub mod emulator;
