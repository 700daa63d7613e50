//! Laws of the instruction set, stated against `step_spec` and proved for
//! every machine state the model admits.

use vstd::prelude::*;

use crate::cpu::flag_byte;
use crate::cpu::lemma_decode_bounds;
use crate::cpu::op_family;
use crate::cpu::op_kk;
use crate::cpu::op_n;
use crate::cpu::op_nnn;
use crate::cpu::op_x;
use crate::cpu::op_y;
use crate::cpu::step_spec;
use crate::cpu::wrap_add8;
use crate::cpu::wrap_sub8;
use crate::cpu::VmView;

verus! {

/// Loading an immediate (family 6, `LD Vx, kk`) stores exactly the
/// immediate: reading Vx afterwards yields `kk`, whatever the rest of the
/// machine holds.
pub proof fn lemma_load_then_read(s: VmView, instr: u16, rnd: u8)
    requires
        s.wf(),
        op_family(instr) == 0x6,
    ensures
        step_spec(s, instr, rnd) matches Ok(v) && v.reg.gp[op_x(instr) as int] == op_kk(instr),
{
    lemma_decode_bounds(instr);
}

/// Adding an immediate (family 7, `ADD Vx, kk`) wraps modulo 256 and has
/// no flag effect: VF keeps its old value whenever it is not itself the
/// destination.
pub proof fn lemma_add_immediate_wraps(s: VmView, instr: u16, rnd: u8)
    requires
        s.wf(),
        op_family(instr) == 0x7,
    ensures
        step_spec(s, instr, rnd) matches Ok(v) && v.reg.gp[op_x(instr) as int] == wrap_add8(
            s.reg.gp[op_x(instr) as int],
            op_kk(instr),
        ),
        op_x(instr) != 15 ==> (step_spec(s, instr, rnd) matches Ok(v) && v.reg.gp[15]
            == s.reg.gp[15]),
{
    lemma_decode_bounds(instr);
}

/// Register addition (`8xy4`) wraps modulo 256 and records the carry: VF
/// becomes 1 exactly when the true sum exceeds 255, whenever VF is not
/// itself the destination.
pub proof fn lemma_add_registers_carry(s: VmView, instr: u16, rnd: u8)
    requires
        s.wf(),
        op_family(instr) == 0x8,
        op_n(instr) == 0x4,
    ensures
        step_spec(s, instr, rnd) matches Ok(v) && v.reg.gp[op_x(instr) as int] == wrap_add8(
            s.reg.gp[op_x(instr) as int],
            s.reg.gp[op_y(instr) as int],
        ),
        op_x(instr) != 15 ==> (step_spec(s, instr, rnd) matches Ok(v) && v.reg.gp[15] == flag_byte(
            s.reg.gp[op_x(instr) as int] + s.reg.gp[op_y(instr) as int] > 255,
        )),
{
    lemma_decode_bounds(instr);
}

/// Register subtraction (`8xy5`) wraps modulo 256 and records the borrow
/// in reverse: VF becomes 1 exactly when Vx exceeds Vy, whenever VF is not
/// itself the destination.
pub proof fn lemma_sub_registers_borrow(s: VmView, instr: u16, rnd: u8)
    requires
        s.wf(),
        op_family(instr) == 0x8,
        op_n(instr) == 0x5,
    ensures
        step_spec(s, instr, rnd) matches Ok(v) && v.reg.gp[op_x(instr) as int] == wrap_sub8(
            s.reg.gp[op_x(instr) as int],
            s.reg.gp[op_y(instr) as int],
        ),
        op_x(instr) != 15 ==> (step_spec(s, instr, rnd) matches Ok(v) && v.reg.gp[15] == flag_byte(
            s.reg.gp[op_x(instr) as int] > s.reg.gp[op_y(instr) as int],
        )),
{
    lemma_decode_bounds(instr);
}

/// A subroutine call (family 2) jumps to its address after pushing the
/// already-advanced program counter, and the matching return (`00EE`)
/// restores that counter and pops the stack: a call-return pair leaves the
/// program counter, the stack pointer, the registers, the memory and the
/// framebuffer where the call found them.
pub proof fn lemma_call_ret_round_trip(
    s: VmView,
    call_instr: u16,
    ret_instr: u16,
    rnd1: u8,
    rnd2: u8,
)
    requires
        s.wf(),
        s.reg.sp < 16,
        op_family(call_instr) == 0x2,
        op_family(ret_instr) == 0x0,
        op_kk(ret_instr) == 0xee,
    ensures
        step_spec(s, call_instr, rnd1) matches Ok(v1) && v1.reg.pc == op_nnn(call_instr)
            && v1.reg.sp == s.reg.sp + 1 && v1.reg.stack[s.reg.sp as int] == s.reg.pc && (
        step_spec(v1, ret_instr, rnd2) matches Ok(v2) && v2.reg.pc == s.reg.pc && v2.reg.sp
            == s.reg.sp && v2.reg.gp == s.reg.gp && v2.mem == s.mem && v2.grid == s.grid),
{
    lemma_decode_bounds(call_instr);
}

/// Font addressing (`Fx29`) resolves digit Vx to its glyph address: five
/// bytes per glyph, so the index register becomes `5 * Vx`.
pub proof fn lemma_font_address(s: VmView, instr: u16, rnd: u8)
    requires
        s.wf(),
        op_family(instr) == 0xf,
        op_kk(instr) == 0x29,
    ensures
        step_spec(s, instr, rnd) matches Ok(v) && v.reg.i == 5 * s.reg.gp[op_x(instr) as int],
{
    lemma_decode_bounds(instr);
}

/// Binary-coded decimal (`Fx33`) stores the hundreds, tens and ones digits
/// of Vx at `I`, `I + 1` and `I + 2`: each stored byte is a digit, and the
/// three recompose to Vx.
pub proof fn lemma_bcd_digits(s: VmView, instr: u16, rnd: u8)
    requires
        s.wf(),
        op_family(instr) == 0xf,
        op_kk(instr) == 0x33,
        s.reg.i + 2 < 4096,
    ensures
        step_spec(s, instr, rnd) matches Ok(v) && {
            let vx = s.reg.gp[op_x(instr) as int];
            let i = s.reg.i as int;
            &&& v.mem[i] == vx / 100
            &&& v.mem[i + 1] == (vx / 10) % 10
            &&& v.mem[i + 2] == vx % 10
            &&& v.mem[i] < 10
            &&& v.mem[i + 1] < 10
            &&& v.mem[i + 2] < 10
            &&& 100 * (vx / 100) + 10 * ((vx / 10) % 10) + vx % 10 == vx
        },
{
    lemma_decode_bounds(instr);
    let vx = s.reg.gp[op_x(instr) as int];
    assert(100 * (vx / 100) + 10 * ((vx / 10) % 10) + vx % 10 == vx) by (nonlinear_arith);
}

} // verus!
