//! General properties of the machine, stated over the model and proved
//! once for all states: the flag discipline of the arithmetic
//! instructions, the involution of the sprite blit, the clear screen, the
//! call/return round trip, and the await-key suspension.

use vstd::prelude::*;

use crate::model::{
    draw_hits, spec_draw, spec_exec_r, spec_exec_s, spec_run, spec_tick, CpuV, RunOutcome,
    CLOCK_PERIOD_NS,
};
use crate::opcode::{op_addr, op_x, op_y};

verus! {

/// The flag discipline of the add/sub family: for the register-to-register
/// sum the flag register is 1 exactly when the unsigned sum overflows 8
/// bits; for the two differences it is 1 exactly when no borrow occurs
/// (minuend strictly greater); and the add-immediate instruction leaves
/// the flag untouched (unless the flag register is itself the target).
pub proof fn lemma_arith_flags(s: CpuV, op: u16, rnd: u8)
    requires
        s.wf(),
    ensures
        op & 0xF000 == 0x8000 && op & 0x000F == 0x0004 ==> spec_exec_s(s, op, rnd).v[15] == (
        if s.v[op_x(op) as int] + s.v[op_y(op) as int] > 255 {
            1u8
        } else {
            0u8
        }),
        op & 0xF000 == 0x8000 && op & 0x000F == 0x0005 ==> spec_exec_s(s, op, rnd).v[15] == (
        if s.v[op_x(op) as int] > s.v[op_y(op) as int] {
            1u8
        } else {
            0u8
        }),
        op & 0xF000 == 0x8000 && op & 0x000F == 0x0007 ==> spec_exec_s(s, op, rnd).v[15] == (
        if s.v[op_y(op) as int] > s.v[op_x(op) as int] {
            1u8
        } else {
            0u8
        }),
        op & 0xF000 == 0x7000 && op_x(op) != 15 ==> spec_exec_s(s, op, rnd).v[15] == s.v[15],
{
    assert((op & 0x0F00) >> 8 < 16) by (bit_vector);
    assert((op & 0x00F0) >> 4 < 16) by (bit_vector);
    assert(op_x(op) < 16);
    assert(op_y(op) < 16);
}

/// Clearing the screen turns every framebuffer cell off and advances the
/// program counter by exactly two, whatever the framebuffer held before.
pub proof fn lemma_clear_screen(s: CpuV, rnd: u8)
    requires
        s.wf(),
        s.pc + 2 <= u16::MAX,
    ensures
        spec_exec_r(0x00E0) is Ok,
        spec_exec_s(s, 0x00E0, rnd).pc == s.pc + 2,
        spec_exec_s(s, 0x00E0, rnd).gfx.len() == s.gfx.len(),
        forall|idx: int|
            0 <= idx < s.gfx.len() ==> !(#[trigger] spec_exec_s(s, 0x00E0, rnd).gfx[idx]),
{
    assert(0x00E0u16 & 0xF000 == 0x0000) by (bit_vector);
    assert(0x00E0u16 & 0x0FFF == 0x00E0) by (bit_vector);
}

/// A call followed by a return round-trips the program counter: the call
/// jumps to its address, and the return comes back to the instruction
/// after the call — the address pushed is the post-increment counter.
/// The stack pointer is restored as well.
pub proof fn lemma_call_ret_round_trip(s: CpuV, op: u16, rnd1: u8, rnd2: u8)
    requires
        s.wf(),
        op & 0xF000 == 0x2000,
        s.sp < 16,
        s.pc + 2 <= u16::MAX,
    ensures
        spec_exec_s(s, op, rnd1).pc == op_addr(op),
        spec_exec_s(spec_exec_s(s, op, rnd1), 0x00EE, rnd2).pc == s.pc + 2,
        spec_exec_s(spec_exec_s(s, op, rnd1), 0x00EE, rnd2).sp == s.sp,
{
    assert(0x00EEu16 & 0xF000 == 0x0000) by (bit_vector);
    assert(0x00EEu16 & 0x0FFF == 0x00EE) by (bit_vector);
}

/// Blitting the same sprite at the same location twice restores the
/// framebuffer: XOR-composition is an involution. The location registers
/// must not be the flag register, which the first blit overwrites.
pub proof fn lemma_draw_involutive(s: CpuV, x: u8, y: u8, n: u8)
    requires
        s.wf(),
        x < 16,
        y < 16,
        n < 16,
        x != 15,
        y != 15,
    ensures
        spec_draw(spec_draw(s, x, y, n), x, y, n).gfx == s.gfx,
{
    let t = spec_draw(s, x, y, n);
    assert forall|idx: int| 0 <= idx < s.gfx.len() implies draw_hits(t, x, y, n, idx)
        == draw_hits(s, x, y, n, idx) by {}
    assert(spec_draw(t, x, y, n).gfx =~= s.gfx);
}

/// The blit sets the flag register to 1 exactly when at least one
/// framebuffer cell transitions from off to on, and to 0 otherwise.
pub proof fn lemma_draw_flag(s: CpuV, x: u8, y: u8, n: u8)
    requires
        s.wf(),
        x < 16,
        y < 16,
        n < 16,
    ensures
        spec_draw(s, x, y, n).v[15] == 1 <==> exists|idx: int|
            0 <= idx < s.gfx.len() && !s.gfx[idx] && #[trigger] spec_draw(s, x, y, n).gfx[idx],
        spec_draw(s, x, y, n).v[15] == 1 || spec_draw(s, x, y, n).v[15] == 0,
{
    let t = spec_draw(s, x, y, n);
    assert forall|idx: int| 0 <= idx < s.gfx.len() implies (!s.gfx[idx] && t.gfx[idx]) == (
    !s.gfx[idx] && draw_hits(s, x, y, n, idx)) by {}
    if t.v[15] == 1 {
        let w = choose|idx: int|
            0 <= idx < s.gfx.len() && !s.gfx[idx] && #[trigger] draw_hits(s, x, y, n, idx);
        assert(!s.gfx[w] && t.gfx[w]);
    }
    if exists|idx: int|
        0 <= idx < s.gfx.len() && !s.gfx[idx] && #[trigger] spec_draw(s, x, y, n).gfx[idx] {
        let w = choose|idx: int|
            0 <= idx < s.gfx.len() && !s.gfx[idx] && #[trigger] spec_draw(s, x, y, n).gfx[idx];
        assert(draw_hits(s, x, y, n, w));
        assert(t.v[15] == 1);
    }
}

/// While a key is awaited, `step` makes no instruction progress: however
/// much time is drained, every completed run leaves the program counter,
/// registers, memory, framebuffer, stack and the pending await exactly as
/// they were; only the timers and accumulators move.
pub proof fn lemma_await_key_suspends(s: CpuV, rnds: Seq<u8>, n: nat)
    requires
        s.wf(),
        s.awaited_key is Some,
    ensures
        spec_run(s, rnds, n) matches RunOutcome::Done(t, r) ==> r is Ok && t.pc == s.pc && t.v
            == s.v && t.mem == s.mem && t.gfx == s.gfx && t.stack == s.stack && t.sp == s.sp && t.i
            == s.i && t.keys == s.keys && t.awaited_key == s.awaited_key,
    decreases n,
{
    if s.clock_acc <= CLOCK_PERIOD_NS {
    } else if n == 0 {
    } else {
        let s1 = spec_tick(CpuV { clock_acc: (s.clock_acc - CLOCK_PERIOD_NS) as u64, ..s });
        assert(s1.wf());
        lemma_await_key_suspends(s1, rnds, (n - 1) as nat);
    }
}

} // verus!
