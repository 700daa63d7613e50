//! The CPU register file: sixteen general-purpose 8-bit registers, the
//! 16-bit index register, the delay and sound timers, the program counter,
//! the stack pointer, and the sixteen-entry return-address stack.

use vstd::prelude::*;

use crate::Chip8Error;
use crate::ROM_ADDR;

verus! {

/// Whether a jump pushes a return address (a subroutine call) or not.
pub enum JumpType {
    Normal,
    Subroutine,
}

/// Mathematical model of the register file.
#[verifier::ext_equal]
pub ghost struct RegistersView {
    /// The sixteen general-purpose registers V0 through VF.
    pub gp: Seq<u8>,
    /// The index register I.
    pub i: u16,
    /// The delay timer.
    pub delay: u8,
    /// The sound timer.
    pub sound: u8,
    /// The program counter.
    pub pc: u16,
    /// The stack pointer: the number of return addresses on the stack.
    pub sp: u8,
    /// The sixteen return-address slots.
    pub stack: Seq<u16>,
}

impl RegistersView {
    /// The register file always has sixteen general registers, sixteen
    /// stack slots, and a stack pointer no larger than the stack.
    pub open spec fn wf(self) -> bool {
        &&& self.gp.len() == 16
        &&& self.stack.len() == 16
        &&& self.sp <= 16
    }
}

/// The program counter after the two-byte advance of one fetch (or of one
/// skip), modulo the 16-bit register width.
pub open spec fn pc_plus_2(pc: u16) -> u16 {
    ((pc + 2) % 0x10000) as u16
}

pub struct Registers {
    reg_gp: Vec<u8>,
    reg_i: u16,
    reg_delay: u8,
    reg_sound: u8,
    reg_pc: u16,
    reg_sp: u8,
    stack: Vec<u16>,
}

impl View for Registers {
    type V = RegistersView;

    closed spec fn view(&self) -> RegistersView {
        RegistersView {
            gp: self.reg_gp@,
            i: self.reg_i,
            delay: self.reg_delay,
            sound: self.reg_sound,
            pc: self.reg_pc,
            sp: self.reg_sp,
            stack: self.stack@,
        }
    }
}

impl Registers {
    /// A fresh register file: program counter at the ROM origin, everything
    /// else zero.
    pub fn new() -> (r: Registers)
        ensures
            r@.wf(),
            r@.pc == ROM_ADDR as u16,
            r@.i == 0,
            r@.delay == 0,
            r@.sound == 0,
            r@.sp == 0,
            forall|j: int| 0 <= j < 16 ==> r@.gp[j] == 0,
            forall|j: int| 0 <= j < 16 ==> r@.stack[j] == 0,
    {
        let mut gp: Vec<u8> = Vec::new();
        let mut stack: Vec<u16> = Vec::new();
        for k in 0..16usize
            invariant
                gp@.len() == k,
                stack@.len() == k,
                forall|j: int| 0 <= j < k ==> gp@[j] == 0,
                forall|j: int| 0 <= j < k ==> stack@[j] == 0,
        {
            gp.push(0);
            stack.push(0);
        }
        Registers {
            reg_gp: gp,
            reg_i: 0,
            reg_delay: 0,
            reg_sound: 0,
            reg_pc: ROM_ADDR as u16,
            reg_sp: 0,
            stack,
        }
    }

    /// Overwrite general register `target_reg` with `data_value`.
    pub fn write_register(&mut self, target_reg: u8, data_value: u8)
        requires
            old(self)@.wf(),
            target_reg < 16,
        ensures
            final(self)@ == (RegistersView {
                gp: old(self)@.gp.update(target_reg as int, data_value),
                ..old(self)@
            }),
    {
        self.reg_gp[target_reg as usize] = data_value;
    }

    /// Overwrite the index register I.
    pub fn write_register_i(&mut self, data_value: u16)
        ensures
            final(self)@ == (RegistersView { i: data_value, ..old(self)@ }),
    {
        self.reg_i = data_value;
    }

    /// Overwrite the delay timer.
    pub fn write_delay_timer(&mut self, data_value: u8)
        ensures
            final(self)@ == (RegistersView { delay: data_value, ..old(self)@ }),
    {
        self.reg_delay = data_value;
    }

    /// Overwrite the sound timer.
    pub fn write_sound_timer(&mut self, data_value: u8)
        ensures
            final(self)@ == (RegistersView { sound: data_value, ..old(self)@ }),
    {
        self.reg_sound = data_value;
    }

    /// Set the flag register VF (general register 15) to 1.
    pub fn set_vf(&mut self)
        requires
            old(self)@.wf(),
        ensures
            final(self)@ == (RegistersView { gp: old(self)@.gp.update(15, 1u8), ..old(self)@ }),
    {
        self.reg_gp[15] = 1;
    }

    /// Clear the flag register VF (general register 15) to 0.
    pub fn clear_vf(&mut self)
        requires
            old(self)@.wf(),
        ensures
            final(self)@ == (RegistersView { gp: old(self)@.gp.update(15, 0u8), ..old(self)@ }),
    {
        self.reg_gp[15] = 0;
    }

    /// Read general register `target_reg`.
    pub fn read_register(&self, target_reg: u8) -> (r: u8)
        requires
            self@.wf(),
            target_reg < 16,
        ensures
            r == self@.gp[target_reg as int],
    {
        self.reg_gp[target_reg as usize]
    }

    /// Read the index register I.
    pub fn read_register_i(&self) -> (r: u16)
        ensures
            r == self@.i,
    {
        self.reg_i
    }

    /// Read the delay timer.
    pub fn read_delay_timer(&self) -> (r: u8)
        ensures
            r == self@.delay,
    {
        self.reg_delay
    }

    /// Read the sound timer.
    pub fn read_sound_timer(&self) -> (r: u8)
        ensures
            r == self@.sound,
    {
        self.reg_sound
    }

    /// Read the program counter.
    pub fn read_pc(&self) -> (r: u16)
        ensures
            r == self@.pc,
    {
        self.reg_pc
    }

    /// Read the stack pointer.
    pub fn read_sp(&self) -> (r: u8)
        ensures
            r == self@.sp,
    {
        self.reg_sp
    }

    /// Advance the program counter over one two-byte instruction.
    pub fn increment_pc(&mut self)
        ensures
            final(self)@ == (RegistersView { pc: pc_plus_2(old(self)@.pc), ..old(self)@ }),
    {
        self.reg_pc = self.reg_pc.wrapping_add(2);
    }

    /// Set the program counter to `addr`. In `Subroutine` mode the current
    /// program counter is first pushed onto the return stack; a call with
    /// all sixteen slots in use is a fatal stack overflow and leaves the
    /// register file unchanged.
    pub fn jump_to_address(&mut self, addr: u16, jump_type: JumpType) -> (r: Result<
        (),
        Chip8Error,
    >)
        requires
            old(self)@.wf(),
        ensures
            match jump_type {
                JumpType::Normal => r is Ok && final(self)@ == (RegistersView {
                    pc: addr,
                    ..old(self)@
                }),
                JumpType::Subroutine => {
                    if old(self)@.sp < 16 {
                        r is Ok && final(self)@ == (RegistersView {
                            pc: addr,
                            sp: (old(self)@.sp + 1) as u8,
                            stack: old(self)@.stack.update(old(self)@.sp as int, old(self)@.pc),
                            ..old(self)@
                        })
                    } else {
                        r == Err::<(), Chip8Error>(Chip8Error::StackOverflow) && final(self)@
                            == old(self)@
                    }
                },
            },
    {
        match jump_type {
            JumpType::Subroutine => {
                if self.reg_sp >= 16 {
                    return Err(Chip8Error::StackOverflow);
                }
                self.stack[self.reg_sp as usize] = self.reg_pc;
                self.reg_sp = self.reg_sp + 1;
            },
            JumpType::Normal => {},
        }
        self.reg_pc = addr;
        Ok(())
    }

    /// Pop the return stack into the program counter. A return with an
    /// empty stack is a fatal stack underflow and leaves the register file
    /// unchanged.
    pub fn return_from_subroutine(&mut self) -> (r: Result<(), Chip8Error>)
        requires
            old(self)@.wf(),
        ensures
            if old(self)@.sp > 0 {
                r is Ok && final(self)@ == (RegistersView {
                    pc: old(self)@.stack[old(self)@.sp - 1],
                    sp: (old(self)@.sp - 1) as u8,
                    ..old(self)@
                })
            } else {
                r == Err::<(), Chip8Error>(Chip8Error::StackUnderflow) && final(self)@ == old(
                    self,
                )@
            },
    {
        if self.reg_sp == 0 {
            return Err(Chip8Error::StackUnderflow);
        }
        self.reg_pc = self.stack[(self.reg_sp - 1) as usize];
        self.reg_sp = self.reg_sp - 1;
        Ok(())
    }
}

} // verus!
