//! The mathematical model of the processor: an abstract machine state, one
//! transition function per instruction, the dispatch of a raw word onto
//! those transitions, and the timed slice-by-slice run relation that `step`
//! is proved against.

use vstd::prelude::*;

use crate::base::{key_code, InstructionError, Key};
use crate::opcode::{op_addr, op_byte, op_nibble, op_x, op_y};

verus! {

/// Nominal clock period of the processor, in whole nanoseconds: one
/// instruction cycle per 1/540 s.
pub const CLOCK_PERIOD_NS: u64 = 1_851_851;

/// Period of the 60 Hz timer tick, in whole nanoseconds: both hardware
/// timers decrement once per 1/60 s, independent of instruction throughput.
pub const TICK_PERIOD_NS: u64 = 16_666_666;

/// First address of the program/work region; everything below holds the
/// interpreter font table and is never written by the instructions here.
pub const PROGRAM_START: usize = 0x200;

/// Total addressable memory, in bytes.
pub const MEM_SIZE: usize = 4096;

/// Width of the framebuffer in pixels.
pub const GFX_W: usize = 64;

/// Height of the framebuffer in pixels.
pub const GFX_H: usize = 32;

/// The largest program that fits in the region `0x200..0x1000`.
pub const MAX_ROM_SIZE: usize = 3584;

/// The abstract state of the processor: every field of the concrete
/// machine, with the byte arrays as sequences.
#[verifier::ext_equal]
pub ghost struct CpuV {
    pub mem: Seq<u8>,
    pub v: Seq<u8>,
    pub i: u16,
    pub pc: u16,
    pub gfx: Seq<bool>,
    pub delay_timer: u8,
    pub sound_timer: u8,
    pub stack: Seq<u16>,
    pub sp: u16,
    pub keys: Seq<bool>,
    pub clock_acc: u64,
    pub tick_acc: u64,
    pub awaited_key: Option<u8>,
}

impl CpuV {
    /// Well-formedness: the fixed sizes of the machine, the stack pointer
    /// within its 16-entry table, the tick accumulator drained below one
    /// tick period, and a pending awaited register that can be indexed.
    pub open spec fn wf(self) -> bool {
        &&& self.mem.len() == MEM_SIZE
        &&& self.v.len() == 16
        &&& self.gfx.len() == GFX_W * GFX_H
        &&& self.stack.len() == 16
        &&& self.keys.len() == 16
        &&& self.sp <= 16
        &&& self.tick_acc <= TICK_PERIOD_NS
        &&& (self.awaited_key matches Some(x) ==> x < 16)
    }
}

/// The interpreter font table: glyphs 0 to F, five bytes each.
pub open spec fn font_spec() -> Seq<u8> {
    seq![
        0xF0u8, 0x90, 0x90, 0x90, 0xF0,
        0x20, 0x60, 0x20, 0x20, 0x70,
        0xF0, 0x10, 0xF0, 0x80, 0xF0,
        0xF0, 0x10, 0xF0, 0x10, 0xF0,
        0x90, 0x90, 0xF0, 0x10, 0x10,
        0xF0, 0x80, 0xF0, 0x10, 0xF0,
        0xF0, 0x80, 0xF0, 0x90, 0xF0,
        0xF0, 0x10, 0x20, 0x40, 0x40,
        0xF0, 0x90, 0xF0, 0x90, 0xF0,
        0xF0, 0x90, 0xF0, 0x10, 0xF0,
        0xF0, 0x90, 0xF0, 0x90, 0x90,
        0xE0, 0x90, 0xE0, 0x90, 0xE0,
        0xF0, 0x80, 0x80, 0x80, 0xF0,
        0xE0, 0x90, 0x90, 0x90, 0xE0,
        0xF0, 0x80, 0xF0, 0x80, 0xF0,
        0xF0, 0x80, 0xF0, 0x80, 0x80,
    ]
}

/// 8-bit addition that wraps silently.
pub open spec fn wrap_add8(a: u8, b: u8) -> u8 {
    if a + b > 255 {
        (a + b - 256) as u8
    } else {
        (a + b) as u8
    }
}

/// 8-bit subtraction that wraps silently.
pub open spec fn wrap_sub8(a: u8, b: u8) -> u8 {
    if a - b < 0 {
        (a - b + 256) as u8
    } else {
        (a - b) as u8
    }
}

/// Set every framebuffer cell to off.
pub open spec fn spec_clear(s: CpuV) -> CpuV {
    CpuV { gfx: Seq::new(s.gfx.len(), |idx: int| false), ..s }
}

/// Pop a return address: decrement the stack pointer, load the program
/// counter from the popped slot.
pub open spec fn spec_ret(s: CpuV) -> CpuV {
    CpuV { sp: (s.sp - 1) as u16, pc: s.stack[s.sp - 1], ..s }
}

/// Set the program counter to an absolute address.
pub open spec fn spec_jump(s: CpuV, addr: u16) -> CpuV {
    CpuV { pc: addr, ..s }
}

/// Push the (already advanced) program counter, then jump.
pub open spec fn spec_call(s: CpuV, addr: u16) -> CpuV {
    CpuV { stack: s.stack.update(s.sp as int, s.pc), sp: (s.sp + 1) as u16, pc: addr, ..s }
}

/// Skip the next instruction (advance the program counter by two more)
/// when the condition holds.
pub open spec fn spec_skip(s: CpuV, cond: bool) -> CpuV {
    CpuV { pc: if cond { (s.pc + 2) as u16 } else { s.pc }, ..s }
}

/// Load an immediate byte into register `x`.
pub open spec fn spec_set_byte(s: CpuV, x: u8, b: u8) -> CpuV {
    CpuV { v: s.v.update(x as int, b), ..s }
}

/// Add an immediate byte into register `x`, wrapping, with no flag effect.
pub open spec fn spec_add_byte(s: CpuV, x: u8, b: u8) -> CpuV {
    CpuV { v: s.v.update(x as int, wrap_add8(s.v[x as int], b)), ..s }
}

/// Copy register `y` into register `x`.
pub open spec fn spec_set(s: CpuV, x: u8, y: u8) -> CpuV {
    CpuV { v: s.v.update(x as int, s.v[y as int]), ..s }
}

/// Bitwise or of registers `x` and `y` into `x`.
pub open spec fn spec_or(s: CpuV, x: u8, y: u8) -> CpuV {
    CpuV { v: s.v.update(x as int, s.v[x as int] | s.v[y as int]), ..s }
}

/// Bitwise and of registers `x` and `y` into `x`.
pub open spec fn spec_and(s: CpuV, x: u8, y: u8) -> CpuV {
    CpuV { v: s.v.update(x as int, s.v[x as int] & s.v[y as int]), ..s }
}

/// Bitwise xor of registers `x` and `y` into `x`.
pub open spec fn spec_xor(s: CpuV, x: u8, y: u8) -> CpuV {
    CpuV { v: s.v.update(x as int, s.v[x as int] ^ s.v[y as int]), ..s }
}

/// Wrapping sum of registers `x` and `y` into `x`; the flag register is 1
/// exactly when the unsigned sum overflowed 8 bits, else 0.
pub open spec fn spec_add(s: CpuV, x: u8, y: u8) -> CpuV {
    let vx = s.v[x as int];
    let vy = s.v[y as int];
    let w = s.v.update(x as int, wrap_add8(vx, vy));
    CpuV { v: w.update(15, if vx + vy > 255 { 1u8 } else { 0u8 }), ..s }
}

/// Wrapping difference `x - y` into `x`; the flag register is 1 exactly
/// when no borrow occurred (`x > y`), else 0.
pub open spec fn spec_sub(s: CpuV, x: u8, y: u8) -> CpuV {
    let vx = s.v[x as int];
    let vy = s.v[y as int];
    let w = s.v.update(x as int, wrap_sub8(vx, vy));
    CpuV { v: w.update(15, if vx > vy { 1u8 } else { 0u8 }), ..s }
}

/// Wrapping difference `y - x` into `x`; the flag register is 1 exactly
/// when no borrow occurred (`y > x`), else 0.
pub open spec fn spec_subn(s: CpuV, x: u8, y: u8) -> CpuV {
    let vx = s.v[x as int];
    let vy = s.v[y as int];
    let w = s.v.update(x as int, wrap_sub8(vy, vx));
    CpuV { v: w.update(15, if vy > vx { 1u8 } else { 0u8 }), ..s }
}

/// The flag register takes the low bit of register `x`, then `x` shifts
/// right by one. The flag write lands first, as the hardware does it.
pub open spec fn spec_shift_right(s: CpuV, x: u8) -> CpuV {
    let w = s.v.update(15, s.v[x as int] & 1);
    CpuV { v: w.update(x as int, w[x as int] >> 1), ..s }
}

/// The flag register takes the high bit of register `x`, then `x` shifts
/// left by one. The flag write lands first, as the hardware does it.
pub open spec fn spec_shift_left(s: CpuV, x: u8) -> CpuV {
    let w = s.v.update(15, s.v[x as int] >> 7);
    CpuV { v: w.update(x as int, (w[x as int] << 1) as u8), ..s }
}

/// Load the index register with a 12-bit address.
pub open spec fn spec_set_i(s: CpuV, addr: u16) -> CpuV {
    CpuV { i: addr, ..s }
}

/// Jump to `addr + v0`, masked to 12 bits.
pub open spec fn spec_jump_v0(s: CpuV, addr: u16) -> CpuV {
    CpuV { pc: ((addr + s.v[0]) as u16) & 0x0FFF, ..s }
}

/// Register `x` takes a random byte masked by the immediate.
pub open spec fn spec_rand(s: CpuV, x: u8, b: u8, rnd: u8) -> CpuV {
    CpuV { v: s.v.update(x as int, rnd & b), ..s }
}

/// Whether the sprite blit of `draw x,y,n` flips the framebuffer cell at
/// `idx`: the cell's unique sprite-window preimage is inside the `n x 8`
/// window and the corresponding sprite bit is set.
pub open spec fn draw_hits(s: CpuV, x: u8, y: u8, n: u8, idx: int) -> bool {
    let vx = s.v[x as int] as int % 64;
    let vy = s.v[y as int] as int % 32;
    let gy = idx / 64;
    let gx = idx % 64;
    let sy = (gy + 32 - vy) % 32;
    let sx = (gx + 64 - vx) % 64;
    &&& sy < n
    &&& sx < 8
    &&& s.mem[s.i + sy] & (0x80u8 >> (sx as u8)) != 0
}

/// XOR-blit an `n`-byte sprite read from memory at the index register onto
/// the framebuffer at `(v[x] mod 64, v[y] mod 32)`, wrapping on both axes;
/// the flag register is 1 exactly when some cell transitions off to on.
pub open spec fn spec_draw(s: CpuV, x: u8, y: u8, n: u8) -> CpuV {
    let gfx2 = Seq::new(s.gfx.len(), |idx: int| s.gfx[idx] != draw_hits(s, x, y, n, idx));
    let flag: u8 = if exists|idx: int|
        0 <= idx < s.gfx.len() && !s.gfx[idx] && #[trigger] draw_hits(s, x, y, n, idx) {
        1u8
    } else {
        0u8
    };
    CpuV { gfx: gfx2, v: s.v.update(15, flag), ..s }
}

/// Register `x` takes the delay timer.
pub open spec fn spec_get_delay(s: CpuV, x: u8) -> CpuV {
    CpuV { v: s.v.update(x as int, s.delay_timer), ..s }
}

/// Record a pending await: instruction execution is suspended until a key
/// press writes its code into register `x`.
pub open spec fn spec_await_key(s: CpuV, x: u8) -> CpuV {
    CpuV { awaited_key: Some(x), ..s }
}

/// The delay timer takes register `x`.
pub open spec fn spec_set_delay(s: CpuV, x: u8) -> CpuV {
    CpuV { delay_timer: s.v[x as int], ..s }
}

/// The sound timer takes register `x`.
pub open spec fn spec_set_sound(s: CpuV, x: u8) -> CpuV {
    CpuV { sound_timer: s.v[x as int], ..s }
}

/// The index register grows by register `x`, with no flag effect.
pub open spec fn spec_i_add(s: CpuV, x: u8) -> CpuV {
    CpuV { i: (s.i + s.v[x as int]) as u16, ..s }
}

/// The index register takes the memory offset of the font glyph for the
/// low nibble of register `x`: five bytes per glyph from address zero.
pub open spec fn spec_set_char(s: CpuV, x: u8) -> CpuV {
    CpuV { i: ((s.v[x as int] & 0x0F) * 5) as u16, ..s }
}

/// Store the decimal digits of register `x` at the index register:
/// hundreds, tens, units.
pub open spec fn spec_store_bcd(s: CpuV, x: u8) -> CpuV {
    let vx = s.v[x as int];
    CpuV {
        mem: s.mem.update(s.i as int, (vx / 100) as u8).update(
            s.i + 1,
            ((vx / 10) % 10) as u8,
        ).update(s.i + 2, (vx % 10) as u8),
        ..s
    }
}

/// Copy registers `0..=x` into memory starting at the index register.
pub open spec fn spec_store_regs(s: CpuV, x: u8) -> CpuV {
    CpuV {
        mem: Seq::new(
            s.mem.len(),
            |j: int| if s.i <= j <= s.i + x { s.v[j - s.i] } else { s.mem[j] },
        ),
        ..s
    }
}

/// Copy memory starting at the index register into registers `0..=x`.
pub open spec fn spec_load_regs(s: CpuV, x: u8) -> CpuV {
    CpuV {
        v: Seq::new(s.v.len(), |k: int| if k <= x { s.mem[s.i + k] } else { s.v[k] }),
        ..s
    }
}

/// The side conditions under which executing `op` on `s` stays inside the
/// machine: addresses inside memory, the call stack within its 16 slots,
/// a key number that indexes the 16-entry table, and arithmetic on the
/// 16-bit registers that its width can hold.
pub open spec fn exec_ok(s: CpuV, op: u16) -> bool {
    let x = op_x(op) as int;
    let fam = op & 0xF000;
    let sel8 = op & 0x00FF;
    &&& s.pc + 2 <= u16::MAX
    &&& (fam == 0x0000 && op & 0x0FFF == 0x00EE ==> s.sp >= 1)
    &&& (fam == 0x2000 ==> s.sp < 16)
    &&& ((fam == 0x3000 || fam == 0x4000 || fam == 0x5000 || fam == 0x9000) ==> s.pc + 4
        <= u16::MAX)
    &&& (fam == 0xD000 ==> s.i + op_nibble(op) <= MEM_SIZE)
    &&& (fam == 0xE000 && (sel8 == 0x009E || sel8 == 0x00A1) ==> s.v[x] < 16 && s.pc + 4
        <= u16::MAX)
    &&& (fam == 0xF000 && sel8 == 0x001E ==> s.i + s.v[x] <= u16::MAX)
    &&& (fam == 0xF000 && sel8 == 0x0033 ==> s.i + 2 < MEM_SIZE)
    &&& (fam == 0xF000 && (sel8 == 0x0055 || sel8 == 0x0065) ==> s.i + x < MEM_SIZE)
}

/// The state after one execute phase: the program counter advances by two
/// unconditionally, then the word dispatches on its high nibble (and, for
/// families `0x0`, `0x8`, `0xE`, `0xF`, on a second-level selector). A word
/// that resolves to no instruction leaves only the advanced counter behind.
/// `rnd` is the byte drawn when the word is the random instruction.
pub open spec fn spec_exec_s(s: CpuV, op: u16, rnd: u8) -> CpuV {
    let t = CpuV { pc: (s.pc + 2) as u16, ..s };
    let x = op_x(op);
    let y = op_y(op);
    let nb = op_nibble(op);
    let b = op_byte(op);
    let addr = op_addr(op);
    let fam = op & 0xF000;
    let sel8 = op & 0x00FF;
    let seln = op & 0x000F;
    if fam == 0x0000 {
        if op & 0x0FFF == 0x00E0 {
            spec_clear(t)
        } else if op & 0x0FFF == 0x00EE {
            spec_ret(t)
        } else {
            t
        }
    } else if fam == 0x1000 {
        spec_jump(t, addr)
    } else if fam == 0x2000 {
        spec_call(t, addr)
    } else if fam == 0x3000 {
        spec_skip(t, t.v[x as int] == b)
    } else if fam == 0x4000 {
        spec_skip(t, t.v[x as int] != b)
    } else if fam == 0x5000 {
        spec_skip(t, t.v[x as int] == t.v[y as int])
    } else if fam == 0x6000 {
        spec_set_byte(t, x, b)
    } else if fam == 0x7000 {
        spec_add_byte(t, x, b)
    } else if fam == 0x8000 {
        if seln == 0x0000 {
            spec_set(t, x, y)
        } else if seln == 0x0001 {
            spec_or(t, x, y)
        } else if seln == 0x0002 {
            spec_and(t, x, y)
        } else if seln == 0x0003 {
            spec_xor(t, x, y)
        } else if seln == 0x0004 {
            spec_add(t, x, y)
        } else if seln == 0x0005 {
            spec_sub(t, x, y)
        } else if seln == 0x0006 {
            spec_shift_right(t, x)
        } else if seln == 0x0007 {
            spec_subn(t, x, y)
        } else if seln == 0x000E {
            spec_shift_left(t, x)
        } else {
            t
        }
    } else if fam == 0x9000 {
        spec_skip(t, t.v[x as int] != t.v[y as int])
    } else if fam == 0xA000 {
        spec_set_i(t, addr)
    } else if fam == 0xB000 {
        spec_jump_v0(t, addr)
    } else if fam == 0xC000 {
        spec_rand(t, x, b, rnd)
    } else if fam == 0xD000 {
        spec_draw(t, x, y, nb)
    } else if fam == 0xE000 {
        if sel8 == 0x009E {
            spec_skip(t, t.keys[t.v[x as int] as int])
        } else if sel8 == 0x00A1 {
            spec_skip(t, !t.keys[t.v[x as int] as int])
        } else {
            t
        }
    } else {
        if sel8 == 0x0007 {
            spec_get_delay(t, x)
        } else if sel8 == 0x000A {
            spec_await_key(t, x)
        } else if sel8 == 0x0015 {
            spec_set_delay(t, x)
        } else if sel8 == 0x0018 {
            spec_set_sound(t, x)
        } else if sel8 == 0x001E {
            spec_i_add(t, x)
        } else if sel8 == 0x0029 {
            spec_set_char(t, x)
        } else if sel8 == 0x0033 {
            spec_store_bcd(t, x)
        } else if sel8 == 0x0055 {
            spec_store_regs(t, x)
        } else if sel8 == 0x0065 {
            spec_load_regs(t, x)
        } else {
            t
        }
    }
}

/// Whether a word resolves to an instruction, and to which failure it
/// resolves otherwise. Families `0x8`, `0xE`, `0xF` with an unrecognized
/// selector are illegal; family `0x0` with an unrecognized payload is the
/// legacy hardware call, recognized but unsupported.
pub open spec fn spec_exec_r(op: u16) -> Result<(), InstructionError> {
    let fam = op & 0xF000;
    let sel8 = op & 0x00FF;
    let seln = op & 0x000F;
    if fam == 0x0000 {
        if op & 0x0FFF == 0x00E0 || op & 0x0FFF == 0x00EE {
            Ok(())
        } else {
            Err(InstructionError::Unsupported)
        }
    } else if fam == 0x8000 {
        if seln == 0x0000 || seln == 0x0001 || seln == 0x0002 || seln == 0x0003 || seln == 0x0004
            || seln == 0x0005 || seln == 0x0006 || seln == 0x0007 || seln == 0x000E {
            Ok(())
        } else {
            Err(InstructionError::Illegal)
        }
    } else if fam == 0xE000 {
        if sel8 == 0x009E || sel8 == 0x00A1 {
            Ok(())
        } else {
            Err(InstructionError::Illegal)
        }
    } else if fam == 0xF000 {
        if sel8 == 0x0007 || sel8 == 0x000A || sel8 == 0x0015 || sel8 == 0x0018 || sel8 == 0x001E
            || sel8 == 0x0029 || sel8 == 0x0033 || sel8 == 0x0055 || sel8 == 0x0065 {
            Ok(())
        } else {
            Err(InstructionError::Illegal)
        }
    } else {
        Ok(())
    }
}

/// The word fetched at the program counter: two consecutive bytes,
/// big-endian.
pub open spec fn spec_fetched(s: CpuV) -> u16 {
    (s.mem[s.pc as int] * 256 + s.mem[s.pc as int + 1]) as u16
}

/// One whole fetch-decode-execute cycle stays inside the machine: both
/// instruction bytes are addressable and the decoded word's side
/// conditions hold.
pub open spec fn spec_cycle_ok(s: CpuV) -> bool {
    &&& s.pc + 1 < s.mem.len()
    &&& exec_ok(s, spec_fetched(s))
}

/// The state after one fetch-decode-execute cycle.
pub open spec fn spec_cycle_s(s: CpuV, rnd: u8) -> CpuV {
    spec_exec_s(s, spec_fetched(s), rnd)
}

/// The outcome of one fetch-decode-execute cycle.
pub open spec fn spec_cycle_r(s: CpuV) -> Result<(), InstructionError> {
    spec_exec_r(spec_fetched(s))
}

/// Decrement both hardware timers by one, flooring at zero.
pub open spec fn spec_tick_timers(s: CpuV) -> CpuV {
    CpuV {
        delay_timer: if s.delay_timer > 0 { (s.delay_timer - 1) as u8 } else { 0 },
        sound_timer: if s.sound_timer > 0 { (s.sound_timer - 1) as u8 } else { 0 },
        ..s
    }
}

/// The timer half of one clock slice: one clock period accumulates toward
/// the 60 Hz tick; when the tick accumulator exceeds one tick period, a
/// tick period is drained and both timers decrement.
pub open spec fn spec_tick(s: CpuV) -> CpuV {
    let t = (s.tick_acc + CLOCK_PERIOD_NS) as u64;
    if t > TICK_PERIOD_NS {
        spec_tick_timers(CpuV { tick_acc: (t - TICK_PERIOD_NS) as u64, ..s })
    } else {
        CpuV { tick_acc: t, ..s }
    }
}

/// What one call of `step` can come to.
pub ghost enum RunOutcome {
    /// The accumulated time was drained to at most one clock period, or a
    /// cycle failed and the run stopped at it; the final state and the
    /// result handed back.
    Done(CpuV, Result<(), InstructionError>),
    /// A cycle would leave the machine (an address outside memory, a stack
    /// slot outside the table, a key number outside the pad): the run has
    /// no defined outcome.
    Fault,
    /// The recursion fuel or the random bytes ran out before the time was
    /// drained; a larger supply decides the run.
    OutOfFuel,
}

/// The state a `step` call starts from: the elapsed time accumulated onto
/// the clock accumulator.
pub open spec fn with_elapsed(s: CpuV, time_ns: u64) -> CpuV {
    CpuV { clock_acc: (s.clock_acc + time_ns) as u64, ..s }
}

/// The run relation of `step`: drain the clock accumulator in whole clock
/// periods; for each period, first the timer half-slice, then — unless a
/// key is awaited — one cycle, consuming one byte of `rnds` when the cycle
/// is the random instruction's. The first failing cycle stops the run with
/// its failure; remaining accumulated time is retained in the state.
pub open spec fn spec_run(s: CpuV, rnds: Seq<u8>, n: nat) -> RunOutcome
    decreases n,
{
    if s.clock_acc <= CLOCK_PERIOD_NS {
        RunOutcome::Done(s, Ok(()))
    } else if n == 0 {
        RunOutcome::OutOfFuel
    } else {
        let s1 = spec_tick(CpuV { clock_acc: (s.clock_acc - CLOCK_PERIOD_NS) as u64, ..s });
        if s1.awaited_key is Some {
            spec_run(s1, rnds, (n - 1) as nat)
        } else if !spec_cycle_ok(s1) {
            RunOutcome::Fault
        } else if rnds.len() == 0 {
            RunOutcome::OutOfFuel
        } else {
            let s2 = spec_cycle_s(s1, rnds.first());
            if spec_cycle_r(s1) is Ok {
                spec_run(s2, rnds.drop_first(), (n - 1) as nat)
            } else {
                RunOutcome::Done(s2, spec_cycle_r(s1))
            }
        }
    }
}

/// The deterministic state a processor is created in: zeroed registers,
/// timers, framebuffer, stack and key table, the program counter at the
/// start of the program region, and the font table preloaded at address
/// zero.
pub open spec fn initial_cpu() -> CpuV {
    CpuV {
        mem: Seq::new(MEM_SIZE as nat, |j: int| if j < 80 { font_spec()[j] } else { 0u8 }),
        v: Seq::new(16, |j: int| 0u8),
        i: 0,
        pc: 0x200,
        gfx: Seq::new((GFX_W * GFX_H) as nat, |j: int| false),
        delay_timer: 0,
        sound_timer: 0,
        stack: Seq::new(16, |j: int| 0u16),
        sp: 0,
        keys: Seq::new(16, |j: int| false),
        clock_acc: 0,
        tick_acc: 0,
        awaited_key: None,
    }
}

/// Memory after loading a program: the source bytes placed sequentially
/// from the start of the program region, to the source's end or the
/// region's, whichever comes first; everything else untouched.
pub open spec fn spec_load_rom(mem: Seq<u8>, rom: Seq<u8>) -> Seq<u8> {
    Seq::new(
        mem.len(),
        |j: int| if PROGRAM_START <= j && j - PROGRAM_START < rom.len() {
            rom[j - PROGRAM_START]
        } else {
            mem[j]
        },
    )
}

/// A key press: its entry in the pressed-state table is set; a pending
/// await, if one is outstanding, takes the key's code into the awaited
/// register and is cleared, unconditionally.
pub open spec fn spec_press_key(s: CpuV, k: Key) -> CpuV {
    let t = CpuV { keys: s.keys.update(key_code(k) as int, true), ..s };
    match s.awaited_key {
        Some(x) => CpuV { v: t.v.update(x as int, key_code(k)), awaited_key: None, ..t },
        None => t,
    }
}

/// A key release: its entry in the pressed-state table is cleared.
pub open spec fn spec_release_key(s: CpuV, k: Key) -> CpuV {
    CpuV { keys: s.keys.update(key_code(k) as int, false), ..s }
}

/// No supply of random bytes can drive the run from `s` into a fault.
pub open spec fn run_fault_free(s: CpuV) -> bool {
    forall|rnds: Seq<u8>, n: nat| #[trigger] spec_run(s, rnds, n) != RunOutcome::Fault
}

/// Every completed run from `c` is also a completed run from `p`: `c` is
/// a state that `p` reaches after some prefix of its slices.
pub open spec fn run_extends(p: CpuV, c: CpuV) -> bool {
    forall|rnds: Seq<u8>, n: nat|
        (#[trigger] spec_run(c, rnds, n)) matches RunOutcome::Done(t, r) ==> exists|
            rnds2: Seq<u8>,
            n2: nat,
        |
            spec_run(p, rnds2, n2) == RunOutcome::Done(t, r)
}

} // verus!
