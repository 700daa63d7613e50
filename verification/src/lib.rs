//! A verified CHIP-8 virtual machine core: memory, registers, keypad,
//! framebuffer, and the fetch-decode-execute interpreter.

use vstd::prelude::*;

pub mod cpu;
pub mod display;
pub mod keypad;
pub mod laws;
pub mod memory;
pub mod registers;

verus! {

/// Size of the CHIP-8 address space in bytes.
pub const MEM_SIZE: usize = 4096;

/// Address at which a loaded ROM begins; also the initial program counter.
pub const ROM_ADDR: usize = 0x200;

/// The fatal error conditions a CHIP-8 run can end in.
#[derive(Clone, Copy, Debug, PartialEq, Eq, Structural)]
pub enum Chip8Error {
    /// An instruction or sub-instruction the decode table does not recognize.
    IllegalOpcode(u16),
    /// A memory access outside the 4096-byte address space.
    AddressOutOfRange,
    /// A return with an empty call stack.
    StackUnderflow,
    /// A call with all sixteen stack slots in use.
    StackOverflow,
    /// ROM or font data that does not fit in the address space.
    LoadOutOfBounds,
    /// A key-state query for a key index outside the sixteen-key pad.
    KeyOutOfRange,
}

} // verus!
