//! The instruction table: one method per instruction, each proved against
//! its transition function in the model, and the dispatcher that decodes a
//! word and runs the matching method.

use vstd::prelude::*;

use vstd::arithmetic::div_mod::{
    lemma_add_mod_noop, lemma_fundamental_div_mod, lemma_fundamental_div_mod_converse_div,
    lemma_fundamental_div_mod_converse_mod, lemma_small_mod,
};

use crate::base::InstructionError;
use crate::cpu::Cpu;
use crate::model::{
    draw_hits, exec_ok, spec_add, spec_add_byte, spec_and, spec_await_key, spec_call, spec_clear,
    spec_draw, spec_exec_r, spec_exec_s, spec_get_delay, spec_i_add, spec_jump, spec_jump_v0,
    spec_load_regs, spec_or, spec_rand, spec_ret, spec_set, spec_set_byte, spec_set_char,
    spec_set_delay, spec_set_i, spec_set_sound, spec_shift_left, spec_shift_right, spec_skip,
    spec_store_bcd, spec_store_regs, spec_sub, spec_subn, spec_xor, CpuV, GFX_H, GFX_W, MEM_SIZE,
};
use crate::opcode::Opcode;
use crate::rng::random_byte;

verus! {

/// Whether the blit flips the cell at `idx` and the cell's sprite-window
/// preimage lies lexicographically before row `ry`, column `rx`: the part
/// of `draw_hits` already applied when the blit loops stand there.
spec fn hit_lex(s: CpuV, x: u8, y: u8, n: u8, idx: int, ry: int, rx: int) -> bool {
    let vx = s.v[x as int] as int % 64;
    let vy = s.v[y as int] as int % 32;
    let gy = idx / 64;
    let gx = idx % 64;
    let sy = (gy + 32 - vy) % 32;
    let sx = (gx + 64 - vx) % 64;
    &&& (sy < ry || (sy == ry && sx < rx))
    &&& sy < n
    &&& sx < 8
    &&& s.mem[s.i + sy] & (0x80u8 >> (sx as u8)) != 0
}

/// Offsetting by `off` inside a window of size `m` and taking the
/// distance back from the result recovers `off`.
proof fn lemma_wrap_inverse(base: int, off: int, m: int)
    requires
        0 <= base < m,
        0 <= off < m,
    ensures
        ((base + off) % m + m - base) % m == off,
{
    if base + off < m {
        lemma_small_mod((base + off) as nat, m as nat);
        lemma_fundamental_div_mod_converse_mod(off + m, m, 1, off);
    } else {
        lemma_fundamental_div_mod_converse_mod(base + off, m, 1, base + off - m);
        lemma_small_mod(off as nat, m as nat);
    }
}

/// Offsetting by the distance from `base` to `g` inside a window of size
/// `m` lands on `g`: the other direction of `lemma_wrap_inverse`.
proof fn lemma_wrap_inverse2(base: int, g: int, m: int)
    requires
        0 <= base < m,
        0 <= g < m,
    ensures
        (base + ((g + m - base) % m)) % m == g,
{
    if g >= base {
        lemma_fundamental_div_mod_converse_mod(g + m - base, m, 1, g - base);
        lemma_small_mod(g as nat, m as nat);
    } else {
        lemma_small_mod((g + m - base) as nat, m as nat);
        lemma_fundamental_div_mod_converse_mod(g + m, m, 1, g);
    }
}

impl Cpu {
    /// Set every framebuffer cell to off.
    fn clear(&mut self)
        requires
            old(self)@.wf(),
        ensures
            final(self)@.wf(),
            final(self)@ == spec_clear(old(self)@),
    {
        let mut idx: usize = 0;
        while idx < GFX_W * GFX_H
            invariant
                old(self)@.wf(),
                self@.wf(),
                idx <= GFX_W * GFX_H,
                self@ == (CpuV { gfx: self@.gfx, ..old(self)@ }),
                self@.gfx.len() == old(self)@.gfx.len(),
                forall|j: int|
                    0 <= j < self@.gfx.len() ==> self@.gfx[j] == if j < idx {
                        false
                    } else {
                        old(self)@.gfx[j]
                    },
            decreases GFX_W * GFX_H - idx,
        {
            self.gfx[idx] = false;
            idx += 1;
        }
        proof {
            assert(self@.gfx =~= spec_clear(old(self)@).gfx);
            assert(self@ =~= spec_clear(old(self)@));
        }
    }

    /// Pop a return address into the program counter.
    fn ret(&mut self)
        requires
            old(self)@.wf(),
            old(self)@.sp >= 1,
        ensures
            final(self)@.wf(),
            final(self)@ == spec_ret(old(self)@),
    {
        self.sp = self.sp - 1;
        self.pc = self.stack[self.sp as usize];
        proof {
            assert(self@ =~= spec_ret(old(self)@));
        }
    }

    /// Set the program counter to an absolute address.
    fn jump(&mut self, addr: u16)
        requires
            old(self)@.wf(),
        ensures
            final(self)@.wf(),
            final(self)@ == spec_jump(old(self)@, addr),
    {
        self.pc = addr;
        proof {
            assert(self@ =~= spec_jump(old(self)@, addr));
        }
    }

    /// Push the current program counter, then jump.
    fn call(&mut self, addr: u16)
        requires
            old(self)@.wf(),
            old(self)@.sp < 16,
        ensures
            final(self)@.wf(),
            final(self)@ == spec_call(old(self)@, addr),
    {
        self.stack[self.sp as usize] = self.pc;
        self.sp = self.sp + 1;
        self.pc = addr;
        proof {
            assert(self@ =~= spec_call(old(self)@, addr));
        }
    }

    /// Skip the next instruction if register `x` equals the immediate.
    fn skip_eq_byte(&mut self, x: u8, byte: u8)
        requires
            old(self)@.wf(),
            x < 16,
            old(self)@.pc + 2 <= u16::MAX,
        ensures
            final(self)@.wf(),
            final(self)@ == spec_skip(old(self)@, old(self)@.v[x as int] == byte),
    {
        let vx = self.v[x as usize];
        if vx == byte {
            self.pc = self.pc + 2;
        }
        proof {
            assert(self@ =~= spec_skip(old(self)@, old(self)@.v[x as int] == byte));
        }
    }

    /// Skip the next instruction if register `x` differs from the immediate.
    fn skip_neq_byte(&mut self, x: u8, byte: u8)
        requires
            old(self)@.wf(),
            x < 16,
            old(self)@.pc + 2 <= u16::MAX,
        ensures
            final(self)@.wf(),
            final(self)@ == spec_skip(old(self)@, old(self)@.v[x as int] != byte),
    {
        let vx = self.v[x as usize];
        if vx != byte {
            self.pc = self.pc + 2;
        }
        proof {
            assert(self@ =~= spec_skip(old(self)@, old(self)@.v[x as int] != byte));
        }
    }

    /// Skip the next instruction if registers `x` and `y` are equal.
    fn skip_eq(&mut self, x: u8, y: u8)
        requires
            old(self)@.wf(),
            x < 16,
            y < 16,
            old(self)@.pc + 2 <= u16::MAX,
        ensures
            final(self)@.wf(),
            final(self)@ == spec_skip(
                old(self)@,
                old(self)@.v[x as int] == old(self)@.v[y as int],
            ),
    {
        let vx = self.v[x as usize];
        let vy = self.v[y as usize];
        if vx == vy {
            self.pc = self.pc + 2;
        }
        proof {
            assert(self@ =~= spec_skip(old(self)@, old(self)@.v[x as int] == old(self)@.v[y as int]));
        }
    }

    /// Load the immediate into register `x`.
    fn set_byte(&mut self, x: u8, byte: u8)
        requires
            old(self)@.wf(),
            x < 16,
        ensures
            final(self)@.wf(),
            final(self)@ == spec_set_byte(old(self)@, x, byte),
    {
        self.v[x as usize] = byte;
        proof {
            assert(self@ =~= spec_set_byte(old(self)@, x, byte));
        }
    }

    /// Add the immediate into register `x`, wrapping, with no flag effect.
    fn add_byte(&mut self, x: u8, byte: u8)
        requires
            old(self)@.wf(),
            x < 16,
        ensures
            final(self)@.wf(),
            final(self)@ == spec_add_byte(old(self)@, x, byte),
    {
        let vx = self.v[x as usize];
        self.v[x as usize] = vx.wrapping_add(byte);
        proof {
            assert(self@ =~= spec_add_byte(old(self)@, x, byte));
        }
    }

    /// Copy register `y` into register `x`.
    fn set(&mut self, x: u8, y: u8)
        requires
            old(self)@.wf(),
            x < 16,
            y < 16,
        ensures
            final(self)@.wf(),
            final(self)@ == spec_set(old(self)@, x, y),
    {
        self.v[x as usize] = self.v[y as usize];
        proof {
            assert(self@ =~= spec_set(old(self)@, x, y));
        }
    }

    /// Bitwise or of register `y` into register `x`.
    fn or(&mut self, x: u8, y: u8)
        requires
            old(self)@.wf(),
            x < 16,
            y < 16,
        ensures
            final(self)@.wf(),
            final(self)@ == spec_or(old(self)@, x, y),
    {
        let vx = self.v[x as usize];
        let vy = self.v[y as usize];
        self.v[x as usize] = vx | vy;
        proof {
            assert(self@ =~= spec_or(old(self)@, x, y));
        }
    }

    /// Bitwise and of register `y` into register `x`.
    fn and(&mut self, x: u8, y: u8)
        requires
            old(self)@.wf(),
            x < 16,
            y < 16,
        ensures
            final(self)@.wf(),
            final(self)@ == spec_and(old(self)@, x, y),
    {
        let vx = self.v[x as usize];
        let vy = self.v[y as usize];
        self.v[x as usize] = vx & vy;
        proof {
            assert(self@ =~= spec_and(old(self)@, x, y));
        }
    }

    /// Bitwise xor of register `y` into register `x`.
    fn xor(&mut self, x: u8, y: u8)
        requires
            old(self)@.wf(),
            x < 16,
            y < 16,
        ensures
            final(self)@.wf(),
            final(self)@ == spec_xor(old(self)@, x, y),
    {
        let vx = self.v[x as usize];
        let vy = self.v[y as usize];
        self.v[x as usize] = vx ^ vy;
        proof {
            assert(self@ =~= spec_xor(old(self)@, x, y));
        }
    }

    /// Wrapping sum into register `x`; the flag register is 1 exactly when
    /// the unsigned sum overflowed 8 bits, else 0.
    fn add(&mut self, x: u8, y: u8)
        requires
            old(self)@.wf(),
            x < 16,
            y < 16,
        ensures
            final(self)@.wf(),
            final(self)@ == spec_add(old(self)@, x, y),
    {
        let vx = self.v[x as usize];
        let vy = self.v[y as usize];
        self.v[x as usize] = vx.wrapping_add(vy);
        self.v[15] = if vx as u16 + vy as u16 > 0xff {
            1
        } else {
            0
        };
        proof {
            assert(self@ =~= spec_add(old(self)@, x, y));
        }
    }

    /// Wrapping difference `x - y` into register `x`; the flag register is
    /// 1 exactly when no borrow occurred, else 0.
    fn sub(&mut self, x: u8, y: u8)
        requires
            old(self)@.wf(),
            x < 16,
            y < 16,
        ensures
            final(self)@.wf(),
            final(self)@ == spec_sub(old(self)@, x, y),
    {
        let vx = self.v[x as usize];
        let vy = self.v[y as usize];
        self.v[x as usize] = vx.wrapping_sub(vy);
        self.v[15] = if vx > vy {
            1
        } else {
            0
        };
        proof {
            assert(self@ =~= spec_sub(old(self)@, x, y));
        }
    }

    /// The flag register takes the low bit of register `x`, then `x`
    /// shifts right by one.
    fn shift_right(&mut self, x: u8)
        requires
            old(self)@.wf(),
            x < 16,
        ensures
            final(self)@.wf(),
            final(self)@ == spec_shift_right(old(self)@, x),
    {
        self.v[15] = self.v[x as usize] & 0b1;
        let vx = self.v[x as usize];
        self.v[x as usize] = vx >> 1;
        proof {
            assert(self@ =~= spec_shift_right(old(self)@, x));
        }
    }

    /// Wrapping difference `y - x` into register `x`; the flag register is
    /// 1 exactly when no borrow occurred, else 0.
    fn subn(&mut self, x: u8, y: u8)
        requires
            old(self)@.wf(),
            x < 16,
            y < 16,
        ensures
            final(self)@.wf(),
            final(self)@ == spec_subn(old(self)@, x, y),
    {
        let vx = self.v[x as usize];
        let vy = self.v[y as usize];
        self.v[x as usize] = vy.wrapping_sub(vx);
        self.v[15] = if vy > vx {
            1
        } else {
            0
        };
        proof {
            assert(self@ =~= spec_subn(old(self)@, x, y));
        }
    }

    /// The flag register takes the high bit of register `x`, then `x`
    /// shifts left by one.
    fn shift_left(&mut self, x: u8)
        requires
            old(self)@.wf(),
            x < 16,
        ensures
            final(self)@.wf(),
            final(self)@ == spec_shift_left(old(self)@, x),
    {
        self.v[15] = self.v[x as usize] >> 7;
        let vx = self.v[x as usize];
        self.v[x as usize] = vx << 1;
        proof {
            assert(self@ =~= spec_shift_left(old(self)@, x));
        }
    }

    /// Skip the next instruction if registers `x` and `y` differ.
    fn skip_neq(&mut self, x: u8, y: u8)
        requires
            old(self)@.wf(),
            x < 16,
            y < 16,
            old(self)@.pc + 2 <= u16::MAX,
        ensures
            final(self)@.wf(),
            final(self)@ == spec_skip(
                old(self)@,
                old(self)@.v[x as int] != old(self)@.v[y as int],
            ),
    {
        let vx = self.v[x as usize];
        let vy = self.v[y as usize];
        if vx != vy {
            self.pc = self.pc + 2;
        }
        proof {
            assert(self@ =~= spec_skip(old(self)@, old(self)@.v[x as int] != old(self)@.v[y as int]));
        }
    }

    /// Load the index register with a 12-bit address.
    fn set_i(&mut self, addr: u16)
        requires
            old(self)@.wf(),
        ensures
            final(self)@.wf(),
            final(self)@ == spec_set_i(old(self)@, addr),
    {
        self.i = addr;
        proof {
            assert(self@ =~= spec_set_i(old(self)@, addr));
        }
    }

    /// Jump to `addr + v0`, masked to 12 bits.
    fn jump_v0(&mut self, addr: u16)
        requires
            old(self)@.wf(),
            addr <= 0x0FFF,
        ensures
            final(self)@.wf(),
            final(self)@ == spec_jump_v0(old(self)@, addr),
    {
        self.pc = (addr + self.v[0] as u16) & 0x0FFF;
        proof {
            assert(self@ =~= spec_jump_v0(old(self)@, addr));
        }
    }

    /// Register `x` takes a random byte masked by the immediate.
    fn rand(&mut self, x: u8, byte: u8)
        requires
            old(self)@.wf(),
            x < 16,
        ensures
            final(self)@.wf(),
            exists|rnd: u8| final(self)@ == spec_rand(old(self)@, x, byte, rnd),
    {
        let r = random_byte();
        self.v[x as usize] = r & byte;
        proof {
            assert(self@ =~= spec_rand(old(self)@, x, byte, r));
        }
    }

    /// XOR-blit an `n`-byte sprite from memory at the index register onto
    /// the framebuffer at `(v[x], v[y])`, wrapping on both axes; the flag
    /// register is 1 exactly when some cell transitions off to on.
    fn draw(&mut self, x: u8, y: u8, n: u8)
        requires
            old(self)@.wf(),
            x < 16,
            y < 16,
            n < 16,
            old(self)@.i + n <= MEM_SIZE,
        ensures
            final(self)@.wf(),
            final(self)@ == spec_draw(old(self)@, x, y, n),
    {
        let ghost s0 = old(self)@;
        let vx = self.v[x as usize] as usize;
        let vy = self.v[y as usize] as usize;
        let i = self.i as usize;
        self.v[15] = 0;
        let ghost vxr = vx as int % 64;
        let ghost vyr = vy as int % 32;
        proof {
            assert(self@.v =~= s0.v.update(15, self@.v[15]));
        }

        let mut sy: u8 = 0;
        while sy < n
            invariant
                self@.wf(),
                s0.wf(),
                x < 16,
                y < 16,
                n < 16,
                sy <= n,
                vx == s0.v[x as int],
                vy == s0.v[y as int],
                i == s0.i,
                s0.i + n <= MEM_SIZE,
                vxr == s0.v[x as int] as int % 64,
                vyr == s0.v[y as int] as int % 32,
                self@ == (CpuV { gfx: self@.gfx, v: self@.v, ..s0 }),
                self@.gfx.len() == s0.gfx.len(),
                self@.v == s0.v.update(15, self@.v[15]),
                self@.v[15] == 0 || self@.v[15] == 1,
                (self@.v[15] == 1 <==> exists|idx: int|
                    0 <= idx < s0.gfx.len() && !s0.gfx[idx] && #[trigger] hit_lex(
                        s0,
                        x,
                        y,
                        n,
                        idx,
                        sy as int,
                        0,
                    )),
                forall|idx: int|
                    0 <= idx < s0.gfx.len() ==> self@.gfx[idx] == (s0.gfx[idx] != hit_lex(
                        s0,
                        x,
                        y,
                        n,
                        idx,
                        sy as int,
                        0,
                    )),
            decreases n - sy,
        {
            let byte = self.mem[i + sy as usize];
            let gy = (vy + sy as usize) % GFX_H;
            proof {
                lemma_add_mod_noop(vy as int, sy as int, 32);
                lemma_small_mod(sy as nat, 32);
                assert(gy == (vyr + sy as int) % 32);
            }
            let mut sx: u8 = 0;
            while sx < 8
                invariant
                    self@.wf(),
                    s0.wf(),
                    x < 16,
                    y < 16,
                    n < 16,
                    sy < n,
                    sx <= 8,
                    vx == s0.v[x as int],
                    vy == s0.v[y as int],
                    i == s0.i,
                    s0.i + n <= MEM_SIZE,
                    vxr == s0.v[x as int] as int % 64,
                    vyr == s0.v[y as int] as int % 32,
                    byte == s0.mem[s0.i + sy as int],
                    gy == (vyr + sy as int) % 32,
                    gy < 32,
                    self@ == (CpuV { gfx: self@.gfx, v: self@.v, ..s0 }),
                    self@.gfx.len() == s0.gfx.len(),
                    self@.v == s0.v.update(15, self@.v[15]),
                    self@.v[15] == 0 || self@.v[15] == 1,
                    (self@.v[15] == 1 <==> exists|idx: int|
                        0 <= idx < s0.gfx.len() && !s0.gfx[idx] && #[trigger] hit_lex(
                            s0,
                            x,
                            y,
                            n,
                            idx,
                            sy as int,
                            sx as int,
                        )),
                    forall|idx: int|
                        0 <= idx < s0.gfx.len() ==> self@.gfx[idx] == (s0.gfx[idx] != hit_lex(
                            s0,
                            x,
                            y,
                            n,
                            idx,
                            sy as int,
                            sx as int,
                        )),
                decreases 8 - sx,
            {
                let mask: u8 = 0x80u8 >> sx;
                let sp = (byte & mask) != 0;
                let gx = (vx + sx as usize) % GFX_W;
                let idx = gy * GFX_W + gx;
                proof {
                    lemma_add_mod_noop(vx as int, sx as int, 64);
                    lemma_small_mod(sx as nat, 64);
                    assert(gx == (vxr + sx as int) % 64);
                    assert(idx < s0.gfx.len());
                    lemma_fundamental_div_mod_converse_mod(idx as int, 64, gy as int, gx as int);
                    lemma_fundamental_div_mod_converse_div(idx as int, 64, gy as int, gx as int);
                    lemma_wrap_inverse(vyr, sy as int, 32);
                    lemma_wrap_inverse(vxr, sx as int, 64);
                    assert(!hit_lex(s0, x, y, n, idx as int, sy as int, sx as int));
                    assert(hit_lex(s0, x, y, n, idx as int, sy as int, sx as int + 1) == sp);
                }
                let newv = self.gfx[idx] ^ sp;
                self.gfx[idx] = newv;
                let ghost flag_was = self@.v[15];
                if newv && sp {
                    self.v[15] = 1;
                }
                proof {
                    assert(self@.v =~= s0.v.update(15, self@.v[15]));
                    assert forall|j: int|
                        0 <= j < s0.gfx.len() && j != idx as int implies hit_lex(
                        s0,
                        x,
                        y,
                        n,
                        j,
                        sy as int,
                        sx as int + 1,
                    ) == hit_lex(s0, x, y, n, j, sy as int, sx as int) by {
                        let gyj = j / 64;
                        let gxj = j % 64;
                        lemma_fundamental_div_mod(j, 64);
                        if (gyj + 32 - vyr) % 32 == sy as int && (gxj + 64 - vxr) % 64
                            == sx as int {
                            lemma_wrap_inverse2(vyr, gyj, 32);
                            lemma_wrap_inverse2(vxr, gxj, 64);
                            assert(gyj == gy as int);
                            assert(gxj == gx as int);
                            assert(j == idx as int);
                        }
                    }
                    assert forall|j: int|
                        0 <= j < s0.gfx.len() implies self@.gfx[j] == (s0.gfx[j] != hit_lex(
                        s0,
                        x,
                        y,
                        n,
                        j,
                        sy as int,
                        sx as int + 1,
                    )) by {
                        if j == idx as int {
                            assert(self@.gfx[j] == newv);
                        }
                    }
                    assert((self@.v[15] == 1) <==> exists|j: int|
                        0 <= j < s0.gfx.len() && !s0.gfx[j] && #[trigger] hit_lex(
                            s0,
                            x,
                            y,
                            n,
                            j,
                            sy as int,
                            sx as int + 1,
                        )) by {
                        if newv && sp {
                            assert(!s0.gfx[idx as int] && hit_lex(
                                s0,
                                x,
                                y,
                                n,
                                idx as int,
                                sy as int,
                                sx as int + 1,
                            ));
                        } else {
                            if flag_was == 1 {
                                let w = choose|j: int|
                                    0 <= j < s0.gfx.len() && !s0.gfx[j] && #[trigger] hit_lex(
                                        s0,
                                        x,
                                        y,
                                        n,
                                        j,
                                        sy as int,
                                        sx as int,
                                    );
                                assert(w != idx as int);
                                assert(hit_lex(s0, x, y, n, w, sy as int, sx as int + 1));
                            } else {
                                if exists|j: int|
                                    0 <= j < s0.gfx.len() && !s0.gfx[j] && #[trigger] hit_lex(
                                        s0,
                                        x,
                                        y,
                                        n,
                                        j,
                                        sy as int,
                                        sx as int + 1,
                                    ) {
                                    let w = choose|j: int|
                                        0 <= j < s0.gfx.len() && !s0.gfx[j] && #[trigger] hit_lex(
                                            s0,
                                            x,
                                            y,
                                            n,
                                            j,
                                            sy as int,
                                            sx as int + 1,
                                        );
                                    assert(w == idx as int);
                                    assert(false);
                                }
                            }
                        }
                    }
                }
                sx += 1;
            }
            proof {
                assert forall|idx: int| 0 <= idx < s0.gfx.len() implies hit_lex(
                    s0,
                    x,
                    y,
                    n,
                    idx,
                    sy as int,
                    8,
                ) == hit_lex(s0, x, y, n, idx, sy as int + 1, 0) by {}
            }
            sy += 1;
        }
        proof {
            assert forall|idx: int| 0 <= idx < s0.gfx.len() implies hit_lex(
                s0,
                x,
                y,
                n,
                idx,
                n as int,
                0,
            ) == draw_hits(s0, x, y, n, idx) by {}
            assert(self@.gfx =~= spec_draw(s0, x, y, n).gfx);
            assert(self@.v =~= spec_draw(s0, x, y, n).v);
            assert(self@ =~= spec_draw(s0, x, y, n));
        }
    }

    /// Skip the next instruction if the key numbered by register `x` is
    /// pressed.
    fn skip_pressed(&mut self, x: u8)
        requires
            old(self)@.wf(),
            x < 16,
            old(self)@.v[x as int] < 16,
            old(self)@.pc + 2 <= u16::MAX,
        ensures
            final(self)@.wf(),
            final(self)@ == spec_skip(old(self)@, old(self)@.keys[old(self)@.v[x as int] as int]),
    {
        let vx = self.v[x as usize] as usize;
        if self.keys[vx] {
            self.pc = self.pc + 2;
        }
        proof {
            assert(self@ =~= spec_skip(old(self)@, old(self)@.keys[old(self)@.v[x as int] as int]));
        }
    }

    /// Skip the next instruction if the key numbered by register `x` is
    /// not pressed.
    fn skip_not_pressed(&mut self, x: u8)
        requires
            old(self)@.wf(),
            x < 16,
            old(self)@.v[x as int] < 16,
            old(self)@.pc + 2 <= u16::MAX,
        ensures
            final(self)@.wf(),
            final(self)@ == spec_skip(old(self)@, !old(self)@.keys[old(self)@.v[x as int] as int]),
    {
        let vx = self.v[x as usize] as usize;
        if !self.keys[vx] {
            self.pc = self.pc + 2;
        }
        proof {
            assert(self@ =~= spec_skip(old(self)@, !old(self)@.keys[old(self)@.v[x as int] as int]));
        }
    }

    /// Register `x` takes the delay timer.
    fn get_delay_timer(&mut self, x: u8)
        requires
            old(self)@.wf(),
            x < 16,
        ensures
            final(self)@.wf(),
            final(self)@ == spec_get_delay(old(self)@, x),
    {
        self.v[x as usize] = self.delay_timer;
        proof {
            assert(self@ =~= spec_get_delay(old(self)@, x));
        }
    }

    /// Suspend instruction execution until a key press writes its code
    /// into register `x`.
    fn await_key_press(&mut self, x: u8)
        requires
            old(self)@.wf(),
            x < 16,
        ensures
            final(self)@.wf(),
            final(self)@ == spec_await_key(old(self)@, x),
    {
        self.awaited_key = Some(x);
        proof {
            assert(self@ =~= spec_await_key(old(self)@, x));
        }
    }

    /// The delay timer takes register `x`.
    fn set_delay_timer(&mut self, x: u8)
        requires
            old(self)@.wf(),
            x < 16,
        ensures
            final(self)@.wf(),
            final(self)@ == spec_set_delay(old(self)@, x),
    {
        self.delay_timer = self.v[x as usize];
        proof {
            assert(self@ =~= spec_set_delay(old(self)@, x));
        }
    }

    /// The sound timer takes register `x`.
    fn set_sound_timer(&mut self, x: u8)
        requires
            old(self)@.wf(),
            x < 16,
        ensures
            final(self)@.wf(),
            final(self)@ == spec_set_sound(old(self)@, x),
    {
        self.sound_timer = self.v[x as usize];
        proof {
            assert(self@ =~= spec_set_sound(old(self)@, x));
        }
    }

    /// The index register grows by register `x`, with no flag effect.
    fn i_add(&mut self, x: u8)
        requires
            old(self)@.wf(),
            x < 16,
            old(self)@.i + old(self)@.v[x as int] <= u16::MAX,
        ensures
            final(self)@.wf(),
            final(self)@ == spec_i_add(old(self)@, x),
    {
        self.i = self.i + self.v[x as usize] as u16;
        proof {
            assert(self@ =~= spec_i_add(old(self)@, x));
        }
    }

    /// The index register takes the font offset of the glyph for the low
    /// nibble of register `x`.
    fn set_char(&mut self, x: u8)
        requires
            old(self)@.wf(),
            x < 16,
        ensures
            final(self)@.wf(),
            final(self)@ == spec_set_char(old(self)@, x),
    {
        let glyph = self.v[x as usize] & 0x0F;
        self.i = glyph as u16 * 5;
        proof {
            assert(self@ =~= spec_set_char(old(self)@, x));
        }
    }

    /// Store the decimal digits of register `x` at the index register:
    /// hundreds, tens, units.
    fn store_bcd(&mut self, x: u8)
        requires
            old(self)@.wf(),
            x < 16,
            old(self)@.i + 2 < MEM_SIZE,
        ensures
            final(self)@.wf(),
            final(self)@ == spec_store_bcd(old(self)@, x),
    {
        let vx = self.v[x as usize];
        let i = self.i as usize;
        self.mem[i] = vx / 100;
        self.mem[i + 1] = (vx / 10) % 10;
        self.mem[i + 2] = vx % 10;
        proof {
            assert(self@ =~= spec_store_bcd(old(self)@, x));
        }
    }

    /// Copy registers `0..=x` into memory starting at the index register.
    fn store_regs(&mut self, x: u8)
        requires
            old(self)@.wf(),
            x < 16,
            old(self)@.i + x < MEM_SIZE,
        ensures
            final(self)@.wf(),
            final(self)@ == spec_store_regs(old(self)@, x),
    {
        let i = self.i as usize;
        let mut k: usize = 0;
        while k < x as usize + 1
            invariant
                old(self)@.wf(),
                self@.wf(),
                x < 16,
                old(self)@.i + x < MEM_SIZE,
                i == old(self)@.i,
                k <= x + 1,
                self@ == (CpuV { mem: self@.mem, ..old(self)@ }),
                self@.mem.len() == old(self)@.mem.len(),
                forall|j: int|
                    0 <= j < self@.mem.len() ==> self@.mem[j] == if i <= j < i + k {
                        old(self)@.v[j - i]
                    } else {
                        old(self)@.mem[j]
                    },
            decreases x + 1 - k,
        {
            self.mem[i + k] = self.v[k];
            k += 1;
        }
        proof {
            assert(self@.mem =~= spec_store_regs(old(self)@, x).mem);
            assert(self@ =~= spec_store_regs(old(self)@, x));
        }
    }

    /// Copy memory starting at the index register into registers `0..=x`.
    fn load_regs(&mut self, x: u8)
        requires
            old(self)@.wf(),
            x < 16,
            old(self)@.i + x < MEM_SIZE,
        ensures
            final(self)@.wf(),
            final(self)@ == spec_load_regs(old(self)@, x),
    {
        let i = self.i as usize;
        let mut k: usize = 0;
        while k < x as usize + 1
            invariant
                old(self)@.wf(),
                self@.wf(),
                x < 16,
                old(self)@.i + x < MEM_SIZE,
                i == old(self)@.i,
                k <= x + 1,
                self@ == (CpuV { v: self@.v, ..old(self)@ }),
                self@.v.len() == old(self)@.v.len(),
                forall|j: int|
                    0 <= j < self@.v.len() ==> self@.v[j] == if j < k {
                        old(self)@.mem[i + j]
                    } else {
                        old(self)@.v[j]
                    },
            decreases x + 1 - k,
        {
            self.v[k] = self.mem[i + k];
            k += 1;
        }
        proof {
            assert(self@.v =~= spec_load_regs(old(self)@, x).v);
            assert(self@ =~= spec_load_regs(old(self)@, x));
        }
    }

    /// Advance the program counter past the word, then dispatch it: on the
    /// high nibble, and for families `0x0`, `0x8`, `0xE`, `0xF` on the
    /// second-level selector. A word with an unknown selector in families
    /// `0x8`, `0xE`, `0xF` is illegal; family `0x0` with an unknown payload
    /// is the legacy hardware call, unsupported. Either failure leaves the
    /// advanced counter behind.
    pub fn exec_opcode(&mut self, opcode: Opcode) -> (res: Result<(), InstructionError>)
        requires
            old(self)@.wf(),
            exec_ok(old(self)@, opcode@),
        ensures
            final(self)@.wf(),
            exists|rnd: u8| final(self)@ == spec_exec_s(old(self)@, opcode@, rnd),
            res == spec_exec_r(opcode@),
            final(self)@.clock_acc == old(self)@.clock_acc,
            final(self)@.tick_acc == old(self)@.tick_acc,
    {
        let x = opcode.x();
        let y = opcode.y();
        let addr = opcode.addr();
        let byte = opcode.byte();
        let nibble = opcode.nibble();

        self.pc = self.pc + 2;
        let ghost t = self@;
        proof {
            assert(t =~= (CpuV { pc: (old(self)@.pc + 2) as u16, ..old(self)@ }));
        }

        match opcode.bits() & 0xF000 {
            0x0000 => match opcode.bits() & 0x0FFF {
                0x00E0 => self.clear(),
                0x00EE => self.ret(),
                _ => {
                    proof {
                        assert(self@ == spec_exec_s(old(self)@, opcode@, 0u8));
                    }
                    return Err(InstructionError::Unsupported);
                },
            },
            0x1000 => self.jump(addr),
            0x2000 => self.call(addr),
            0x3000 => self.skip_eq_byte(x, byte),
            0x4000 => self.skip_neq_byte(x, byte),
            0x5000 => self.skip_eq(x, y),
            0x6000 => self.set_byte(x, byte),
            0x7000 => self.add_byte(x, byte),
            0x8000 => match opcode.bits() & 0x000F {
                0x0000 => self.set(x, y),
                0x0001 => self.or(x, y),
                0x0002 => self.and(x, y),
                0x0003 => self.xor(x, y),
                0x0004 => self.add(x, y),
                0x0005 => self.sub(x, y),
                0x0006 => self.shift_right(x),
                0x0007 => self.subn(x, y),
                0x000E => self.shift_left(x),
                _ => {
                    proof {
                        assert(self@ == spec_exec_s(old(self)@, opcode@, 0u8));
                    }
                    return Err(InstructionError::Illegal);
                },
            },
            0x9000 => self.skip_neq(x, y),
            0xA000 => self.set_i(addr),
            0xB000 => self.jump_v0(addr),
            0xC000 => self.rand(x, byte),
            0xD000 => self.draw(x, y, nibble),
            0xE000 => match opcode.bits() & 0x00FF {
                0x009E => self.skip_pressed(x),
                0x00A1 => self.skip_not_pressed(x),
                _ => {
                    proof {
                        assert(self@ == spec_exec_s(old(self)@, opcode@, 0u8));
                    }
                    return Err(InstructionError::Illegal);
                },
            },
            0xF000 => match opcode.bits() & 0x00FF {
                0x0007 => self.get_delay_timer(x),
                0x000A => self.await_key_press(x),
                0x0015 => self.set_delay_timer(x),
                0x0018 => self.set_sound_timer(x),
                0x001E => self.i_add(x),
                0x0029 => self.set_char(x),
                0x0033 => self.store_bcd(x),
                0x0055 => self.store_regs(x),
                0x0065 => self.load_regs(x),
                _ => {
                    proof {
                        assert(self@ == spec_exec_s(old(self)@, opcode@, 0u8));
                    }
                    return Err(InstructionError::Illegal);
                },
            },
            _ => {
                proof {
                    let b = opcode@;
                    assert(b & 0xF000 == 0x0000 || b & 0xF000 == 0x1000 || b & 0xF000 == 0x2000
                        || b & 0xF000 == 0x3000 || b & 0xF000 == 0x4000 || b & 0xF000 == 0x5000
                        || b & 0xF000 == 0x6000 || b & 0xF000 == 0x7000 || b & 0xF000 == 0x8000
                        || b & 0xF000 == 0x9000 || b & 0xF000 == 0xA000 || b & 0xF000 == 0xB000
                        || b & 0xF000 == 0xC000 || b & 0xF000 == 0xD000 || b & 0xF000 == 0xE000
                        || b & 0xF000 == 0xF000) by (bit_vector);
                    assert(false);
                }
                return Err(InstructionError::Illegal);
            },
        }
        proof {
            if opcode@ & 0xF000 == 0xC000 {
                let r = choose|rnd: u8| self@ == spec_rand(t, x, byte, rnd);
                assert(self@ == spec_exec_s(old(self)@, opcode@, r));
            } else {
                assert(self@ == spec_exec_s(old(self)@, opcode@, 0u8));
            }
        }
        Ok(())
    }
}

} // verus!
