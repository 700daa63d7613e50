//! The 4096-byte address space: raw byte storage, font and ROM loading,
//! and single-byte access with the address already validated by the caller.

use vstd::prelude::*;

use crate::Chip8Error;
use crate::MEM_SIZE;
use crate::ROM_ADDR;

verus! {

/// A byte sequence with a block copied over it: address `a` holds
/// `bytes[a - offset]` inside `[offset, offset + bytes.len())` and the old
/// byte everywhere else.
pub open spec fn overwrite(dst: Seq<u8>, offset: int, bytes: Seq<u8>) -> Seq<u8> {
    Seq::new(dst.len(), |a: int| if offset <= a < offset + bytes.len() {
        bytes[a - offset]
    } else {
        dst[a]
    })
}

pub struct Memory {
    mem: Vec<u8>,
}

impl View for Memory {
    type V = Seq<u8>;

    closed spec fn view(&self) -> Seq<u8> {
        self.mem@
    }
}

impl Memory {
    /// All 4096 bytes zero.
    pub fn new() -> (r: Memory)
        ensures
            r@.len() == MEM_SIZE,
            forall|a: int| 0 <= a < MEM_SIZE ==> r@[a] == 0,
    {
        let mut mem: Vec<u8> = Vec::new();
        for k in 0..MEM_SIZE
            invariant
                mem@.len() == k,
                forall|a: int| 0 <= a < k ==> mem@[a] == 0,
        {
            mem.push(0);
        }
        Memory { mem }
    }

    /// Copy `bytes` into the address space starting at `offset`. Data that
    /// does not fit inside the 4096 bytes is rejected whole: nothing is
    /// written and the load reports a fatal error.
    pub fn load(&mut self, offset: usize, bytes: &Vec<u8>) -> (r: Result<(), Chip8Error>)
        requires
            old(self)@.len() == MEM_SIZE,
        ensures
            if offset + bytes@.len() <= MEM_SIZE {
                r is Ok && final(self)@ == overwrite(old(self)@, offset as int, bytes@)
            } else {
                r == Err::<(), Chip8Error>(Chip8Error::LoadOutOfBounds) && final(self)@ == old(
                    self,
                )@
            },
    {
        if bytes.len() > MEM_SIZE || offset > MEM_SIZE - bytes.len() {
            return Err(Chip8Error::LoadOutOfBounds);
        }
        let mut k: usize = 0;
        while k < bytes.len()
            invariant
                self@.len() == MEM_SIZE,
                bytes@.len() <= MEM_SIZE,
                offset + bytes@.len() <= MEM_SIZE,
                k <= bytes@.len(),
                forall|a: int|
                    0 <= a < MEM_SIZE ==> self@[a] == (if offset <= a < offset + k {
                        bytes@[a - offset]
                    } else {
                        old(self)@[a]
                    }),
            decreases bytes@.len() - k,
        {
            self.mem[offset + k] = bytes[k];
            k = k + 1;
        }
        proof {
            assert(self@ =~= overwrite(old(self)@, offset as int, bytes@));
        }
        Ok(())
    }

    /// Load a ROM image at the ROM origin. A ROM longer than the space
    /// above the origin is rejected whole.
    pub fn store_program_data(&mut self, rom: &Vec<u8>) -> (r: Result<(), Chip8Error>)
        requires
            old(self)@.len() == MEM_SIZE,
        ensures
            if rom@.len() <= MEM_SIZE - ROM_ADDR {
                r is Ok && final(self)@ == overwrite(old(self)@, ROM_ADDR as int, rom@)
            } else {
                r == Err::<(), Chip8Error>(Chip8Error::LoadOutOfBounds) && final(self)@ == old(
                    self,
                )@
            },
    {
        self.load(ROM_ADDR, rom)
    }

    /// Load the eighty bytes of font data at address zero: sixteen
    /// five-byte glyphs, digit `d`'s sprite starting at `5 * d`.
    pub fn load_fonts(&mut self, font: &Vec<u8>) -> (r: Result<(), Chip8Error>)
        requires
            old(self)@.len() == MEM_SIZE,
        ensures
            if font@.len() <= MEM_SIZE {
                r is Ok && final(self)@ == overwrite(old(self)@, 0, font@)
            } else {
                r == Err::<(), Chip8Error>(Chip8Error::LoadOutOfBounds) && final(self)@ == old(
                    self,
                )@
            },
    {
        self.load(0, font)
    }

    /// Read the byte at `address`.
    pub fn read_byte(&self, address: u16) -> (r: u8)
        requires
            self@.len() == MEM_SIZE,
            address < MEM_SIZE,
        ensures
            r == self@[address as int],
    {
        self.mem[address as usize]
    }

    /// Overwrite the byte at `address`.
    pub fn write_byte(&mut self, address: u16, new_byte: u8)
        requires
            old(self)@.len() == MEM_SIZE,
            address < MEM_SIZE,
        ensures
            final(self)@ == old(self)@.update(address as int, new_byte),
    {
        self.mem[address as usize] = new_byte;
    }

    /// A copy of the whole address space, for diagnostic dumps.
    pub fn snapshot(&self) -> (r: Vec<u8>)
        requires
            self@.len() == MEM_SIZE,
        ensures
            r@ == self@,
    {
        let mut out: Vec<u8> = Vec::new();
        let mut k: usize = 0;
        while k < MEM_SIZE
            invariant
                self@.len() == MEM_SIZE,
                k <= MEM_SIZE,
                out@.len() == k,
                forall|a: int| 0 <= a < k ==> out@[a] == self@[a],
            decreases MEM_SIZE - k,
        {
            out.push(self.mem[k]);
            k = k + 1;
        }
        proof {
            assert(out@ =~= self@);
        }
        out
    }
}

} // verus!
