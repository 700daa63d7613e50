//! The fetch-decode-execute interpreter. The meaning of every instruction
//! is given once, as the spec-level step function `step_spec`; the
//! executable interpreter is verified to realize it exactly.

use vstd::prelude::*;

use crate::Chip8Error;
use crate::MEM_SIZE;
use crate::ROM_ADDR;
use crate::display::blank_grid;
use crate::display::draw_collides;
use crate::display::draw_result;
use crate::display::sprite_any_set;
use crate::display::Display;
use crate::keypad::Keypad;
use crate::memory::overwrite;
use crate::memory::Memory;
use crate::registers::pc_plus_2;
use crate::registers::JumpType;
use crate::registers::Registers;
use crate::registers::RegistersView;

verus! {

// ---------------------------------------------------------------------------
// Instruction decoding
// ---------------------------------------------------------------------------
/// The top nibble: the opcode family.
pub open spec fn op_family(instr: u16) -> u8 {
    ((instr >> 12) & 0x0f) as u8
}

/// The low twelve bits: an address operand.
pub open spec fn op_nnn(instr: u16) -> u16 {
    instr & 0x0fff
}

/// The second nibble: the first register operand Vx.
pub open spec fn op_x(instr: u16) -> u8 {
    ((instr >> 8) & 0x0f) as u8
}

/// The third nibble: the second register operand Vy.
pub open spec fn op_y(instr: u16) -> u8 {
    ((instr >> 4) & 0x0f) as u8
}

/// The low byte: an immediate operand.
pub open spec fn op_kk(instr: u16) -> u8 {
    (instr & 0x00ff) as u8
}

/// The low nibble: a sub-operation selector or sprite height.
pub open spec fn op_n(instr: u16) -> u8 {
    (instr & 0x000f) as u8
}

/// The decoded fields are nibble- or byte-sized, so register operands
/// always index into the sixteen general registers and `nnn` always lies
/// inside the address space.
pub proof fn lemma_decode_bounds(instr: u16)
    ensures
        op_family(instr) < 16,
        op_nnn(instr) < 4096,
        op_x(instr) < 16,
        op_y(instr) < 16,
        op_n(instr) < 16,
{
    assert((instr >> 12) & 0x0f < 16) by (bit_vector);
    assert(instr & 0x0fff < 4096) by (bit_vector);
    assert((instr >> 8) & 0x0f < 16) by (bit_vector);
    assert((instr >> 4) & 0x0f < 16) by (bit_vector);
    assert(instr & 0x000f < 16) by (bit_vector);
}

// ---------------------------------------------------------------------------
// The machine state and its step function
// ---------------------------------------------------------------------------
/// Mathematical model of the whole machine.
#[verifier::ext_equal]
pub ghost struct VmView {
    /// The register file.
    pub reg: RegistersView,
    /// The 4096-byte address space.
    pub mem: Seq<u8>,
    /// The sixteen key-down latches.
    pub keys: Seq<bool>,
    /// The flattened 64 by 32 framebuffer.
    pub grid: Seq<bool>,
    /// Whether the framebuffer changed since it was last presented.
    pub dirty: bool,
}

impl VmView {
    /// Every component has its fixed size.
    pub open spec fn wf(self) -> bool {
        &&& self.reg.wf()
        &&& self.mem.len() == 4096
        &&& self.keys.len() == 16
        &&& self.grid.len() == 2048
    }

    /// The state with the program counter replaced.
    pub open spec fn with_pc(self, pc: u16) -> VmView {
        VmView { reg: RegistersView { pc, ..self.reg }, ..self }
    }

    /// The state with general register `x` overwritten.
    pub open spec fn with_reg(self, x: int, v: u8) -> VmView {
        VmView { reg: RegistersView { gp: self.reg.gp.update(x, v), ..self.reg }, ..self }
    }

    /// The state with the index register replaced.
    pub open spec fn with_i(self, i: u16) -> VmView {
        VmView { reg: RegistersView { i, ..self.reg }, ..self }
    }

    /// The state after skipping the next two-byte instruction when `cond`
    /// holds.
    pub open spec fn skip_if(self, cond: bool) -> VmView {
        if cond {
            self.with_pc(pc_plus_2(self.reg.pc))
        } else {
            self
        }
    }
}

/// 1 for a raised flag, 0 for a cleared one: the value VF records.
pub open spec fn flag_byte(b: bool) -> u8 {
    if b {
        1u8
    } else {
        0u8
    }
}

/// 8-bit addition, wrapping modulo 256.
pub open spec fn wrap_add8(a: u8, b: u8) -> u8 {
    ((a + b) % 256) as u8
}

/// 8-bit subtraction, wrapping modulo 256.
pub open spec fn wrap_sub8(a: u8, b: u8) -> u8 {
    ((a - b + 256) % 256) as u8
}

/// 16-bit addition, wrapping modulo 65536.
pub open spec fn wrap_add16(a: u16, b: u16) -> u16 {
    ((a + b) % 0x10000) as u16
}

/// A timer one tick later: one less, stopping at zero.
pub open spec fn timer_dec(t: u8) -> u8 {
    if t > 0 {
        (t - 1) as u8
    } else {
        0u8
    }
}

/// The system family (top nibble 0): clear the screen, or return from a
/// subroutine; any other low byte is an illegal sub-opcode. Machine-code
/// routines (0nnn) are not supported.
pub open spec fn step_sys(s: VmView, instr: u16) -> Result<VmView, Chip8Error> {
    let op = op_kk(instr);
    if op == 0xe0 {
        Ok(VmView { grid: blank_grid(), dirty: true, ..s })
    } else if op == 0xee {
        if s.reg.sp > 0 {
            Ok(
                VmView {
                    reg: RegistersView {
                        pc: s.reg.stack[s.reg.sp - 1],
                        sp: (s.reg.sp - 1) as u8,
                        ..s.reg
                    },
                    ..s
                },
            )
        } else {
            Err(Chip8Error::StackUnderflow)
        }
    } else {
        Err(Chip8Error::IllegalOpcode(instr))
    }
}

/// A subroutine call: push the current program counter, then jump.
pub open spec fn step_call(s: VmView, nnn: u16) -> Result<VmView, Chip8Error> {
    if s.reg.sp < 16 {
        Ok(
            VmView {
                reg: RegistersView {
                    pc: nnn,
                    sp: (s.reg.sp + 1) as u8,
                    stack: s.reg.stack.update(s.reg.sp as int, s.reg.pc),
                    ..s.reg
                },
                ..s
            },
        )
    } else {
        Err(Chip8Error::StackOverflow)
    }
}

/// The arithmetic-logic family (top nibble 8). The flag register VF is
/// written before the destination register, so a destination of VF keeps
/// the arithmetic result, not the flag.
pub open spec fn step_alu(s: VmView, instr: u16) -> Result<VmView, Chip8Error> {
    let n = op_n(instr);
    let x = op_x(instr) as int;
    let y = op_y(instr) as int;
    let vx = s.reg.gp[x];
    let vy = s.reg.gp[y];
    if n == 0x0 {
        Ok(s.with_reg(x, vy))
    } else if n == 0x1 {
        Ok(s.with_reg(x, vx | vy))
    } else if n == 0x2 {
        Ok(s.with_reg(x, vx & vy))
    } else if n == 0x3 {
        Ok(s.with_reg(x, vx ^ vy))
    } else if n == 0x4 {
        Ok(s.with_reg(15, flag_byte(vx + vy > 255)).with_reg(x, wrap_add8(vx, vy)))
    } else if n == 0x5 {
        Ok(s.with_reg(15, flag_byte(vx > vy)).with_reg(x, wrap_sub8(vx, vy)))
    } else if n == 0x6 {
        Ok(s.with_reg(15, flag_byte(vx & 1 == 1)).with_reg(x, vx >> 1))
    } else if n == 0x7 {
        Ok(s.with_reg(15, flag_byte(vy > vx)).with_reg(x, wrap_sub8(vy, vx)))
    } else if n == 0xe {
        Ok(s.with_reg(15, flag_byte((vx >> 7) & 1 == 1)).with_reg(x, vx << 1))
    } else {
        Err(Chip8Error::IllegalOpcode(instr))
    }
}

/// The draw instruction (top nibble 0xD): XOR-composite the `n`-row sprite
/// at memory `[I, I + n)` onto the framebuffer at `(Vx, Vy)`, record the
/// collision outcome in VF, and mark the framebuffer for presentation if
/// any pixel changed.
pub open spec fn step_drw(s: VmView, instr: u16) -> Result<VmView, Chip8Error> {
    let x = op_x(instr) as int;
    let y = op_y(instr) as int;
    let n = op_n(instr) as int;
    let i = s.reg.i as int;
    let x0 = s.reg.gp[x];
    let y0 = s.reg.gp[y];
    if i + n <= 4096 {
        let sprite = s.mem.subrange(i, i + n);
        Ok(
            VmView {
                reg: RegistersView {
                    gp: s.reg.gp.update(15, flag_byte(draw_collides(s.grid, x0, y0, sprite))),
                    ..s.reg
                },
                grid: draw_result(s.grid, x0, y0, sprite),
                dirty: s.dirty || sprite_any_set(sprite),
                ..s
            },
        )
    } else {
        Err(Chip8Error::AddressOutOfRange)
    }
}

/// The key-skip family (top nibble 0xE): skip the next instruction on the
/// state of key Vx. A key index past the sixteen-key pad is fatal.
pub open spec fn step_key(s: VmView, instr: u16) -> Result<VmView, Chip8Error> {
    let op = op_kk(instr);
    let key = s.reg.gp[op_x(instr) as int];
    if op == 0x9e {
        if key < 16 {
            Ok(s.skip_if(s.keys[key as int]))
        } else {
            Err(Chip8Error::KeyOutOfRange)
        }
    } else if op == 0xa1 {
        if key < 16 {
            Ok(s.skip_if(!s.keys[key as int]))
        } else {
            Err(Chip8Error::KeyOutOfRange)
        }
    } else {
        Err(Chip8Error::IllegalOpcode(instr))
    }
}

/// The miscellaneous family (top nibble 0xF): timers, index arithmetic,
/// font addressing, binary-coded decimal, and register block transfer.
pub open spec fn step_f(s: VmView, instr: u16) -> Result<VmView, Chip8Error> {
    let op = op_kk(instr);
    let x = op_x(instr) as int;
    let vx = s.reg.gp[x];
    let i = s.reg.i as int;
    if op == 0x07 {
        Ok(s.with_reg(x, s.reg.delay))
    } else if op == 0x15 {
        Ok(VmView { reg: RegistersView { delay: vx, ..s.reg }, ..s })
    } else if op == 0x18 {
        Ok(VmView { reg: RegistersView { sound: vx, ..s.reg }, ..s })
    } else if op == 0x1e {
        Ok(s.with_i(wrap_add16(s.reg.i, vx as u16)))
    } else if op == 0x29 {
        Ok(s.with_i((5 * vx) as u16))
    } else if op == 0x33 {
        if i + 2 < 4096 {
            Ok(
                VmView {
                    mem: s.mem.update(i, (vx / 100) as u8).update(i + 1, ((vx / 10) % 10) as u8)
                        .update(i + 2, (vx % 10) as u8),
                    ..s
                },
            )
        } else {
            Err(Chip8Error::AddressOutOfRange)
        }
    } else if op == 0x55 {
        if i + x < 4096 {
            Ok(VmView { mem: overwrite(s.mem, i, s.reg.gp.subrange(0, x + 1)), ..s })
        } else {
            Err(Chip8Error::AddressOutOfRange)
        }
    } else if op == 0x65 {
        if i + x < 4096 {
            Ok(
                VmView {
                    reg: RegistersView {
                        gp: overwrite(s.reg.gp, 0, s.mem.subrange(i, i + x + 1)),
                        ..s.reg
                    },
                    ..s
                },
            )
        } else {
            Err(Chip8Error::AddressOutOfRange)
        }
    } else {
        Err(Chip8Error::IllegalOpcode(instr))
    }
}

/// What executing one already-fetched instruction does to the machine:
/// the canonical decode table. `rnd` is the byte the random source hands
/// the RND instruction; every other instruction ignores it. An error
/// leaves the state unchanged.
pub open spec fn step_spec(s: VmView, instr: u16, rnd: u8) -> Result<VmView, Chip8Error> {
    let fam = op_family(instr);
    let x = op_x(instr) as int;
    let y = op_y(instr) as int;
    let kk = op_kk(instr);
    let nnn = op_nnn(instr);
    if fam == 0x0 {
        step_sys(s, instr)
    } else if fam == 0x1 {
        Ok(s.with_pc(nnn))
    } else if fam == 0x2 {
        step_call(s, nnn)
    } else if fam == 0x3 {
        Ok(s.skip_if(s.reg.gp[x] == kk))
    } else if fam == 0x4 {
        Ok(s.skip_if(s.reg.gp[x] != kk))
    } else if fam == 0x5 {
        Ok(s.skip_if(s.reg.gp[x] == s.reg.gp[y]))
    } else if fam == 0x6 {
        Ok(s.with_reg(x, kk))
    } else if fam == 0x7 {
        Ok(s.with_reg(x, wrap_add8(s.reg.gp[x], kk)))
    } else if fam == 0x8 {
        step_alu(s, instr)
    } else if fam == 0x9 {
        Ok(s.skip_if(s.reg.gp[x] != s.reg.gp[y]))
    } else if fam == 0xa {
        Ok(s.with_i(nnn))
    } else if fam == 0xb {
        Ok(s.with_pc((nnn + s.reg.gp[0]) as u16))
    } else if fam == 0xc {
        Ok(s.with_reg(x, kk & rnd))
    } else if fam == 0xd {
        step_drw(s, instr)
    } else if fam == 0xe {
        step_key(s, instr)
    } else if fam == 0xf {
        step_f(s, instr)
    } else {
        Err(Chip8Error::IllegalOpcode(instr))
    }
}

/// What one fetch does: read the two bytes at the program counter,
/// combine them big-endian, and advance the program counter by two. A
/// program counter whose word would cross the end of the address space is
/// fatal and changes nothing.
pub open spec fn fetch_spec(s: VmView) -> Result<(VmView, u16), Chip8Error> {
    if s.reg.pc + 1 < 4096 {
        let w = ((s.mem[s.reg.pc as int] as u16) << 8) | (s.mem[s.reg.pc as int + 1] as u16);
        Ok((s.with_pc(pc_plus_2(s.reg.pc)), w))
    } else {
        Err(Chip8Error::AddressOutOfRange)
    }
}

/// How one executed instruction relates the machine before (`pre`) to the
/// machine after (`post`) and to the reported outcome `r`: success
/// realizes `step_spec` exactly, and a fatal outcome reports the spec's
/// error and changes nothing.
pub open spec fn step_outcome(
    pre: VmView,
    instr: u16,
    rnd: u8,
    r: Result<(), Chip8Error>,
    post: VmView,
) -> bool {
    match step_spec(pre, instr, rnd) {
        Ok(v) => r is Ok && post == v,
        Err(e) => r == Err::<(), Chip8Error>(e) && post == pre,
    }
}

/// A step that succeeds preserves every size invariant of the machine.
pub proof fn lemma_step_preserves_wf(s: VmView, instr: u16, rnd: u8)
    requires
        s.wf(),
    ensures
        step_spec(s, instr, rnd) matches Ok(v) ==> v.wf(),
{
    lemma_decode_bounds(instr);
}

// ---------------------------------------------------------------------------
// The executable machine
// ---------------------------------------------------------------------------
/// Relies on rand::random::<u8>: a byte from the thread-local generator.
/// Nothing is assumed of its value.
#[verifier::external_body]
fn random_byte() -> u8 {
    rand::random()
}

pub struct Chip8 {
    pub reg: Registers,
    pub mem: Memory,
    pub keys: Keypad,
    pub display: Display,
}

impl View for Chip8 {
    type V = VmView;

    open spec fn view(&self) -> VmView {
        VmView {
            reg: self.reg@,
            mem: self.mem@,
            keys: self.keys@,
            grid: self.display@.grid,
            dirty: self.display@.dirty,
        }
    }
}

impl Chip8 {
    /// A freshly powered machine: program counter at the ROM origin,
    /// memory, registers, keys and framebuffer all zero.
    pub fn new() -> (r: Chip8)
        ensures
            r@.wf(),
            r@.reg.pc == ROM_ADDR as u16,
            r@.reg.sp == 0,
            r@.reg.i == 0,
            r@.reg.delay == 0,
            r@.reg.sound == 0,
            forall|j: int| 0 <= j < 16 ==> r@.reg.gp[j] == 0,
            forall|j: int| 0 <= j < 16 ==> r@.reg.stack[j] == 0,
            forall|a: int| 0 <= a < 4096 ==> r@.mem[a] == 0,
            forall|j: int| 0 <= j < 16 ==> !r@.keys[j],
            r@.grid == blank_grid(),
            !r@.dirty,
    {
        Chip8 { reg: Registers::new(), mem: Memory::new(), keys: Keypad::new(), display: Display::new() }
    }

    /// Load a ROM image at the ROM origin. A ROM longer than the space
    /// above the origin is rejected whole and nothing changes.
    pub fn store_program_data(&mut self, rom: &Vec<u8>) -> (r: Result<(), Chip8Error>)
        requires
            old(self)@.wf(),
        ensures
            if rom@.len() <= MEM_SIZE - ROM_ADDR {
                r is Ok && final(self)@ == (VmView {
                    mem: overwrite(old(self)@.mem, ROM_ADDR as int, rom@),
                    ..old(self)@
                })
            } else {
                r == Err::<(), Chip8Error>(Chip8Error::LoadOutOfBounds) && final(self)@ == old(
                    self,
                )@
            },
    {
        self.mem.store_program_data(rom)
    }

    /// Load the font glyphs at address zero, as the display setup of a run
    /// does before the first cycle. Font data longer than the address
    /// space is rejected whole and nothing changes.
    pub fn init_display(&mut self, font: &Vec<u8>) -> (r: Result<(), Chip8Error>)
        requires
            old(self)@.wf(),
        ensures
            if font@.len() <= MEM_SIZE {
                r is Ok && final(self)@ == (VmView {
                    mem: overwrite(old(self)@.mem, 0, font@),
                    ..old(self)@
                })
            } else {
                r == Err::<(), Chip8Error>(Chip8Error::LoadOutOfBounds) && final(self)@ == old(
                    self,
                )@
            },
    {
        self.mem.load_fonts(font)
    }

    /// One 60 Hz timer tick: each timer counts down by one and stops at
    /// zero. The caller gates this to wall-clock time.
    pub fn tick_timers(&mut self)
        requires
            old(self)@.wf(),
        ensures
            final(self)@ == (VmView {
                reg: RegistersView {
                    delay: timer_dec(old(self)@.reg.delay),
                    sound: timer_dec(old(self)@.reg.sound),
                    ..old(self)@.reg
                },
                ..old(self)@
            }),
    {
        let delay = self.reg.read_delay_timer();
        if delay > 0 {
            self.reg.write_delay_timer(delay - 1);
        }
        let sound = self.reg.read_sound_timer();
        if sound > 0 {
            self.reg.write_sound_timer(sound - 1);
        }
    }

    /// Fetch the two-byte instruction at the program counter, big-endian,
    /// and advance the program counter past it.
    pub fn read_word(&mut self) -> (r: Result<u16, Chip8Error>)
        requires
            old(self)@.wf(),
        ensures
            match fetch_spec(old(self)@) {
                Ok(sw) => r == Ok::<u16, Chip8Error>(sw.1) && final(self)@ == sw.0,
                Err(e) => r == Err::<u16, Chip8Error>(e) && final(self)@ == old(self)@,
            },
    {
        let pc = self.reg.read_pc();
        if pc >= (MEM_SIZE as u16) - 1 {
            return Err(Chip8Error::AddressOutOfRange);
        }
        let hi = self.mem.read_byte(pc);
        let lo = self.mem.read_byte(pc + 1);
        self.reg.increment_pc();
        Ok(((hi as u16) << 8) | (lo as u16))
    }

    /// Execute the system family: clear screen or return.
    fn exec_sys(&mut self, instruction: u16) -> (r: Result<(), Chip8Error>)
        requires
            old(self)@.wf(),
            op_family(instruction) == 0x0,
        ensures
            match step_sys(old(self)@, instruction) {
                Ok(v) => r is Ok && final(self)@ == v,
                Err(e) => r == Err::<(), Chip8Error>(e) && final(self)@ == old(self)@,
            },
    {
        let op = (instruction & 0x00ff) as u8;
        if op == 0xe0 {
            self.display.clear();
            Ok(())
        } else if op == 0xee {
            self.reg.return_from_subroutine()
        } else {
            Err(Chip8Error::IllegalOpcode(instruction))
        }
    }

    /// Execute the arithmetic-logic family.
    fn exec_alu(&mut self, instruction: u16) -> (r: Result<(), Chip8Error>)
        requires
            old(self)@.wf(),
            op_family(instruction) == 0x8,
        ensures
            match step_alu(old(self)@, instruction) {
                Ok(v) => r is Ok && final(self)@ == v,
                Err(e) => r == Err::<(), Chip8Error>(e) && final(self)@ == old(self)@,
            },
    {
        proof {
            lemma_decode_bounds(instruction);
        }
        let x = ((instruction >> 8) & 0x0f) as u8;
        let y = ((instruction >> 4) & 0x0f) as u8;
        let n = (instruction & 0x000f) as u8;
        let vx = self.reg.read_register(x);
        let vy = self.reg.read_register(y);
        if n == 0x0 {
            self.reg.write_register(x, vy);
        } else if n == 0x1 {
            self.reg.write_register(x, vx | vy);
        } else if n == 0x2 {
            self.reg.write_register(x, vx & vy);
        } else if n == 0x3 {
            self.reg.write_register(x, vx ^ vy);
        } else if n == 0x4 {
            let sum: u16 = (vx as u16) + (vy as u16);
            if sum > 255 {
                self.reg.set_vf();
            } else {
                self.reg.clear_vf();
            }
            self.reg.write_register(x, (sum % 256) as u8);
        } else if n == 0x5 {
            if vx > vy {
                self.reg.set_vf();
            } else {
                self.reg.clear_vf();
            }
            self.reg.write_register(x, vx.wrapping_sub(vy));
        } else if n == 0x6 {
            if vx & 1 == 1 {
                self.reg.set_vf();
            } else {
                self.reg.clear_vf();
            }
            self.reg.write_register(x, vx >> 1u8);
        } else if n == 0x7 {
            if vy > vx {
                self.reg.set_vf();
            } else {
                self.reg.clear_vf();
            }
            self.reg.write_register(x, vy.wrapping_sub(vx));
        } else if n == 0xe {
            if (vx >> 7u8) & 1 == 1 {
                self.reg.set_vf();
            } else {
                self.reg.clear_vf();
            }
            self.reg.write_register(x, vx << 1u8);
        } else {
            return Err(Chip8Error::IllegalOpcode(instruction));
        }
        Ok(())
    }

    /// Execute the draw instruction.
    fn exec_drw(&mut self, instruction: u16) -> (r: Result<(), Chip8Error>)
        requires
            old(self)@.wf(),
            op_family(instruction) == 0xd,
        ensures
            match step_drw(old(self)@, instruction) {
                Ok(v) => r is Ok && final(self)@ == v,
                Err(e) => r == Err::<(), Chip8Error>(e) && final(self)@ == old(self)@,
            },
    {
        proof {
            lemma_decode_bounds(instruction);
        }
        let x = ((instruction >> 8) & 0x0f) as u8;
        let y = ((instruction >> 4) & 0x0f) as u8;
        let n = (instruction & 0x000f) as u8;
        let i = self.reg.read_register_i();
        if (i as usize) + (n as usize) > MEM_SIZE {
            return Err(Chip8Error::AddressOutOfRange);
        }
        let x0 = self.reg.read_register(x);
        let y0 = self.reg.read_register(y);
        let mut sprite: Vec<u8> = Vec::new();
        let mut k: u8 = 0;
        while k < n
            invariant
                self@.wf(),
                self@ == old(self)@,
                k <= n,
                n < 16,
                i as int + n as int <= 4096,
                i == self@.reg.i,
                sprite@ == self@.mem.subrange(i as int, i as int + k as int),
            decreases n - k,
        {
            let b = self.mem.read_byte(i + (k as u16));
            sprite.push(b);
            proof {
                assert(sprite@ =~= self@.mem.subrange(i as int, i as int + (k + 1)));
            }
            k = k + 1;
        }
        let collision = self.display.draw_sprite(x0, y0, &sprite);
        if collision {
            self.reg.set_vf();
        } else {
            self.reg.clear_vf();
        }
        Ok(())
    }

    /// Execute the key-skip family.
    fn exec_key(&mut self, instruction: u16) -> (r: Result<(), Chip8Error>)
        requires
            old(self)@.wf(),
            op_family(instruction) == 0xe,
        ensures
            match step_key(old(self)@, instruction) {
                Ok(v) => r is Ok && final(self)@ == v,
                Err(e) => r == Err::<(), Chip8Error>(e) && final(self)@ == old(self)@,
            },
    {
        proof {
            lemma_decode_bounds(instruction);
        }
        let op = (instruction & 0x00ff) as u8;
        let x = ((instruction >> 8) & 0x0f) as u8;
        if op == 0x9e {
            let key = self.reg.read_register(x);
            if key >= 16 {
                return Err(Chip8Error::KeyOutOfRange);
            }
            if self.keys.is_down(key) {
                self.reg.increment_pc();
            }
            Ok(())
        } else if op == 0xa1 {
            let key = self.reg.read_register(x);
            if key >= 16 {
                return Err(Chip8Error::KeyOutOfRange);
            }
            if !self.keys.is_down(key) {
                self.reg.increment_pc();
            }
            Ok(())
        } else {
            Err(Chip8Error::IllegalOpcode(instruction))
        }
    }

    /// Execute the miscellaneous family.
    fn exec_f(&mut self, instruction: u16) -> (r: Result<(), Chip8Error>)
        requires
            old(self)@.wf(),
            op_family(instruction) == 0xf,
        ensures
            match step_f(old(self)@, instruction) {
                Ok(v) => r is Ok && final(self)@ == v,
                Err(e) => r == Err::<(), Chip8Error>(e) && final(self)@ == old(self)@,
            },
    {
        proof {
            lemma_decode_bounds(instruction);
        }
        let op = (instruction & 0x00ff) as u8;
        let x = ((instruction >> 8) & 0x0f) as u8;
        if op == 0x07 {
            let t = self.reg.read_delay_timer();
            self.reg.write_register(x, t);
            Ok(())
        } else if op == 0x15 {
            let vx = self.reg.read_register(x);
            self.reg.write_delay_timer(vx);
            Ok(())
        } else if op == 0x18 {
            let vx = self.reg.read_register(x);
            self.reg.write_sound_timer(vx);
            Ok(())
        } else if op == 0x1e {
            let vx = self.reg.read_register(x);
            let i = self.reg.read_register_i();
            self.reg.write_register_i(i.wrapping_add(vx as u16));
            Ok(())
        } else if op == 0x29 {
            let vx = self.reg.read_register(x);
            self.reg.write_register_i(5 * (vx as u16));
            Ok(())
        } else if op == 0x33 {
            let i = self.reg.read_register_i();
            if i as usize + 2 >= MEM_SIZE {
                return Err(Chip8Error::AddressOutOfRange);
            }
            let vx = self.reg.read_register(x);
            self.mem.write_byte(i, vx / 100);
            self.mem.write_byte(i + 1, (vx / 10) % 10);
            self.mem.write_byte(i + 2, vx % 10);
            Ok(())
        } else if op == 0x55 {
            let i = self.reg.read_register_i();
            if (i as usize) + (x as usize) >= MEM_SIZE {
                return Err(Chip8Error::AddressOutOfRange);
            }
            let mut k: u8 = 0;
            while k <= x
                invariant
                    self@.wf(),
                    x < 16,
                    k <= x + 1,
                    (i as int) + (x as int) < 4096,
                    i == self@.reg.i,
                    self@.reg == old(self)@.reg,
                    self@.keys == old(self)@.keys,
                    self@.grid == old(self)@.grid,
                    self@.dirty == old(self)@.dirty,
                    self@.mem == overwrite(
                        old(self)@.mem,
                        i as int,
                        old(self)@.reg.gp.subrange(0, k as int),
                    ),
                decreases x + 1 - k,
            {
                let vk = self.reg.read_register(k);
                self.mem.write_byte(i + (k as u16), vk);
                proof {
                    assert(self@.mem =~= overwrite(
                        old(self)@.mem,
                        i as int,
                        old(self)@.reg.gp.subrange(0, k + 1),
                    ));
                }
                k = k + 1;
            }
            Ok(())
        } else if op == 0x65 {
            let i = self.reg.read_register_i();
            if (i as usize) + (x as usize) >= MEM_SIZE {
                return Err(Chip8Error::AddressOutOfRange);
            }
            let mut k: u8 = 0;
            while k <= x
                invariant
                    self@.wf(),
                    x < 16,
                    k <= x + 1,
                    (i as int) + (x as int) < 4096,
                    i == self@.reg.i,
                    self@.mem == old(self)@.mem,
                    self@.keys == old(self)@.keys,
                    self@.grid == old(self)@.grid,
                    self@.dirty == old(self)@.dirty,
                    self@.reg == (RegistersView {
                        gp: overwrite(
                            old(self)@.reg.gp,
                            0,
                            old(self)@.mem.subrange(i as int, i as int + k as int),
                        ),
                        ..old(self)@.reg
                    }),
                decreases x + 1 - k,
            {
                let b = self.mem.read_byte(i + (k as u16));
                self.reg.write_register(k, b);
                proof {
                    assert(self@.reg.gp =~= overwrite(
                        old(self)@.reg.gp,
                        0,
                        old(self)@.mem.subrange(i as int, i as int + (k + 1)),
                    ));
                }
                k = k + 1;
            }
            Ok(())
        } else {
            Err(Chip8Error::IllegalOpcode(instruction))
        }
    }

    /// Execute one already-fetched instruction, with the random byte the
    /// RND instruction consumes passed in explicitly. Realizes `step_spec`
    /// exactly; a fatal outcome leaves the machine unchanged.
    pub fn process_instruction_with(&mut self, instruction: u16, rand_byte: u8) -> (r: Result<
        (),
        Chip8Error,
    >)
        requires
            old(self)@.wf(),
        ensures
            match step_spec(old(self)@, instruction, rand_byte) {
                Ok(v) => r is Ok && final(self)@ == v,
                Err(e) => r == Err::<(), Chip8Error>(e) && final(self)@ == old(self)@,
            },
    {
        proof {
            lemma_decode_bounds(instruction);
        }
        let op_type = ((instruction >> 12) & 0x0f) as u8;
        let x = ((instruction >> 8) & 0x0f) as u8;
        let y = ((instruction >> 4) & 0x0f) as u8;
        let kk = (instruction & 0x00ff) as u8;
        let nnn = instruction & 0x0fff;
        if op_type == 0x0 {
            self.exec_sys(instruction)
        } else if op_type == 0x1 {
            self.reg.jump_to_address(nnn, JumpType::Normal)
        } else if op_type == 0x2 {
            self.reg.jump_to_address(nnn, JumpType::Subroutine)
        } else if op_type == 0x3 {
            if self.reg.read_register(x) == kk {
                self.reg.increment_pc();
            }
            Ok(())
        } else if op_type == 0x4 {
            if self.reg.read_register(x) != kk {
                self.reg.increment_pc();
            }
            Ok(())
        } else if op_type == 0x5 {
            if self.reg.read_register(x) == self.reg.read_register(y) {
                self.reg.increment_pc();
            }
            Ok(())
        } else if op_type == 0x6 {
            self.reg.write_register(x, kk);
            Ok(())
        } else if op_type == 0x7 {
            let vx = self.reg.read_register(x);
            self.reg.write_register(x, vx.wrapping_add(kk));
            Ok(())
        } else if op_type == 0x8 {
            self.exec_alu(instruction)
        } else if op_type == 0x9 {
            if self.reg.read_register(x) != self.reg.read_register(y) {
                self.reg.increment_pc();
            }
            Ok(())
        } else if op_type == 0xa {
            self.reg.write_register_i(nnn);
            Ok(())
        } else if op_type == 0xb {
            let offset = self.reg.read_register(0) as u16;
            self.reg.jump_to_address(nnn + offset, JumpType::Normal)
        } else if op_type == 0xc {
            self.reg.write_register(x, kk & rand_byte);
            Ok(())
        } else if op_type == 0xd {
            self.exec_drw(instruction)
        } else if op_type == 0xe {
            self.exec_key(instruction)
        } else {
            self.exec_f(instruction)
        }
    }

    /// Execute one already-fetched instruction, drawing the RND
    /// instruction's byte from the random source: some byte decides the
    /// outcome, and everything else follows `step_spec` for it.
    pub fn process_instruction(&mut self, instruction: u16) -> (r: Result<(), Chip8Error>)
        requires
            old(self)@.wf(),
        ensures
            exists|b: u8| #[trigger] step_outcome(old(self)@, instruction, b, r, final(self)@),
    {
        let b = random_byte();
        let r = self.process_instruction_with(instruction, b);
        proof {
            assert(step_outcome(old(self)@, instruction, b, r, self@));
        }
        r
    }

    /// One whole cycle: fetch the instruction at the program counter and
    /// execute it. A fetch error changes nothing; an execute error leaves
    /// the machine as the fetch left it.
    pub fn cpu_cycle(&mut self) -> (r: Result<(), Chip8Error>)
        requires
            old(self)@.wf(),
        ensures
            match fetch_spec(old(self)@) {
                Err(e) => r == Err::<(), Chip8Error>(e) && final(self)@ == old(self)@,
                Ok(sw) => exists|b: u8| #[trigger] step_outcome(sw.0, sw.1, b, r, final(self)@),
            },
    {
        let w = match self.read_word() {
            Ok(w) => w,
            Err(e) => {
                return Err(e);
            },
        };
        self.process_instruction(w)
    }
}

} // verus!
