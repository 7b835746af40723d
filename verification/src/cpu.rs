//! The processor: owner of all machine state, advanced through `step`,
//! `load_rom`, `press_key` and `release_key`, observed through `pixels`.

use vstd::prelude::*;

use crate::base::{InstructionError, Key, LoadError};
use crate::model::{
    font_spec, initial_cpu, run_extends, run_fault_free, spec_cycle_ok, spec_cycle_r, spec_cycle_s,
    spec_exec_s, spec_fetched, spec_load_rom, spec_press_key, spec_release_key, spec_run, spec_tick,
    spec_tick_timers, with_elapsed, CpuV, RunOutcome, CLOCK_PERIOD_NS, GFX_H, GFX_W, MAX_ROM_SIZE,
    MEM_SIZE, PROGRAM_START, TICK_PERIOD_NS,
};
use crate::opcode::get_opcode;

verus! {

/// The processor: a 4 KiB memory with the font table preloaded, sixteen
/// 8-bit registers, the 16-bit index and program-counter registers, the
/// 64x32 framebuffer, a 16-slot call stack, two countdown timers, the
/// pressed-state table of the 16 keys, a pending awaited register, and
/// the two accumulators that drive the fixed-step timing.
pub struct Cpu {
    pub mem: Vec<u8>,
    pub v: Vec<u8>,
    pub i: u16,
    pub pc: u16,
    pub gfx: Vec<bool>,
    pub delay_timer: u8,
    pub sound_timer: u8,
    pub stack: Vec<u16>,
    pub sp: u16,
    pub keys: Vec<bool>,
    pub clock_acc: u64,
    pub tick_acc: u64,
    pub awaited_key: Option<u8>,
}

impl View for Cpu {
    type V = CpuV;

    open spec fn view(&self) -> CpuV {
        CpuV {
            mem: self.mem@,
            v: self.v@,
            i: self.i,
            pc: self.pc,
            gfx: self.gfx@,
            delay_timer: self.delay_timer,
            sound_timer: self.sound_timer,
            stack: self.stack@,
            sp: self.sp,
            keys: self.keys@,
            clock_acc: self.clock_acc,
            tick_acc: self.tick_acc,
            awaited_key: self.awaited_key,
        }
    }
}

/// A vector of `n` copies of `val`.
fn filled_vec<T: Copy>(n: usize, val: T) -> (r: Vec<T>)
    ensures
        r@ == Seq::new(n as nat, |j: int| val),
{
    let mut r: Vec<T> = Vec::new();
    while r.len() < n
        invariant
            r@.len() <= n,
            forall|j: int| 0 <= j < r@.len() ==> r@[j] == val,
        decreases n - r@.len(),
    {
        r.push(val);
    }
    proof {
        assert(r@ =~= Seq::new(n as nat, |j: int| val));
    }
    r
}

/// The interpreter font table as bytes: glyphs 0 to F, five bytes each.
pub fn font_table() -> (r: Vec<u8>)
    ensures
        r@ == font_spec(),
{
    let mut r: Vec<u8> = Vec::new();
    r.push(0xF0); r.push(0x90); r.push(0x90); r.push(0x90); r.push(0xF0);
    r.push(0x20); r.push(0x60); r.push(0x20); r.push(0x20); r.push(0x70);
    r.push(0xF0); r.push(0x10); r.push(0xF0); r.push(0x80); r.push(0xF0);
    r.push(0xF0); r.push(0x10); r.push(0xF0); r.push(0x10); r.push(0xF0);
    r.push(0x90); r.push(0x90); r.push(0xF0); r.push(0x10); r.push(0x10);
    r.push(0xF0); r.push(0x80); r.push(0xF0); r.push(0x10); r.push(0xF0);
    r.push(0xF0); r.push(0x80); r.push(0xF0); r.push(0x90); r.push(0xF0);
    r.push(0xF0); r.push(0x10); r.push(0x20); r.push(0x40); r.push(0x40);
    r.push(0xF0); r.push(0x90); r.push(0xF0); r.push(0x90); r.push(0xF0);
    r.push(0xF0); r.push(0x90); r.push(0xF0); r.push(0x10); r.push(0xF0);
    r.push(0xF0); r.push(0x90); r.push(0xF0); r.push(0x90); r.push(0x90);
    r.push(0xE0); r.push(0x90); r.push(0xE0); r.push(0x90); r.push(0xE0);
    r.push(0xF0); r.push(0x80); r.push(0x80); r.push(0x80); r.push(0xF0);
    r.push(0xE0); r.push(0x90); r.push(0x90); r.push(0x90); r.push(0xE0);
    r.push(0xF0); r.push(0x80); r.push(0xF0); r.push(0x80); r.push(0xF0);
    r.push(0xF0); r.push(0x80); r.push(0xF0); r.push(0x80); r.push(0x80);
    proof {
        assert(r@ =~= font_spec());
    }
    r
}

impl Default for Cpu {
    /// A processor in its deterministic creation state: zeroed but for the
    /// program counter at the start of the program region and the font
    /// table at address zero.
    fn default() -> (cpu: Cpu)
        ensures
            cpu@ == initial_cpu(),
            cpu@.wf(),
    {
        let mut mem = font_table();
        while mem.len() < MEM_SIZE
            invariant
                80 <= mem@.len() <= MEM_SIZE,
                forall|j: int| 0 <= j < 80 ==> mem@[j] == font_spec()[j],
                forall|j: int| 80 <= j < mem@.len() ==> mem@[j] == 0u8,
            decreases MEM_SIZE - mem@.len(),
        {
            mem.push(0);
        }
        let cpu = Cpu {
            mem,
            v: filled_vec(16, 0u8),
            i: 0,
            pc: 0x200,
            gfx: filled_vec(GFX_W * GFX_H, false),
            delay_timer: 0,
            sound_timer: 0,
            stack: filled_vec(16, 0u16),
            sp: 0,
            keys: filled_vec(16, false),
            clock_acc: 0,
            tick_acc: 0,
            awaited_key: None,
        };
        proof {
            assert(cpu@.mem =~= initial_cpu().mem);
            assert(cpu@ =~= initial_cpu());
        }
        cpu
    }
}

impl Cpu {
    /// A processor in its deterministic creation state.
    pub fn new() -> (cpu: Cpu)
        ensures
            cpu@ == initial_cpu(),
            cpu@.wf(),
    {
        Default::default()
    }

    /// Copies bytes sequentially from the source into memory starting at
    /// the program region, until the source is exhausted or the region is
    /// full. A source longer than the region is the oversized-program
    /// failure; the bytes that fit are left in place, with no rollback.
    pub fn load_rom(&mut self, rom: &[u8]) -> (res: Result<(), LoadError>)
        requires
            old(self)@.wf(),
        ensures
            final(self)@.wf(),
            final(self)@.mem == spec_load_rom(old(self)@.mem, rom@),
            final(self)@ == (CpuV { mem: final(self)@.mem, ..old(self)@ }),
            res == if rom@.len() > MAX_ROM_SIZE as int {
                Result::<(), LoadError>::Err(LoadError::Oversized)
            } else {
                Result::<(), LoadError>::Ok(())
            },
    {
        let mut k: usize = 0;
        while k < rom.len() && k < MAX_ROM_SIZE
            invariant
                old(self)@.wf(),
                self@.wf(),
                k <= rom@.len(),
                k <= MAX_ROM_SIZE,
                self@ == (CpuV { mem: self@.mem, ..old(self)@ }),
                self@.mem.len() == old(self)@.mem.len(),
                forall|j: int|
                    0 <= j < self@.mem.len() ==> self@.mem[j] == if PROGRAM_START <= j && j
                        - PROGRAM_START < k {
                        rom@[j - PROGRAM_START]
                    } else {
                        old(self)@.mem[j]
                    },
            decreases MAX_ROM_SIZE - k,
        {
            self.mem[PROGRAM_START + k] = rom[k];
            k += 1;
        }
        proof {
            assert(self@.mem =~= spec_load_rom(old(self)@.mem, rom@));
        }
        if rom.len() > MAX_ROM_SIZE {
            Err(LoadError::Oversized)
        } else {
            Ok(())
        }
    }

    /// A read-only row-major copy of the framebuffer: `GFX_H` rows of
    /// `GFX_W` cells each.
    pub fn pixels(&self) -> (rows: Vec<Vec<bool>>)
        requires
            self@.wf(),
        ensures
            rows@.len() == GFX_H,
            forall|r: int| 0 <= r < GFX_H ==> #[trigger] rows@[r]@.len() == GFX_W,
            forall|r: int, c: int|
                0 <= r < GFX_H && 0 <= c < GFX_W ==> #[trigger] rows@[r]@[c] == self@.gfx[r * 64
                    + c],
    {
        let mut rows: Vec<Vec<bool>> = Vec::new();
        let mut r: usize = 0;
        while r < GFX_H
            invariant
                self@.wf(),
                r <= GFX_H,
                rows@.len() == r,
                forall|p: int| 0 <= p < r ==> #[trigger] rows@[p]@.len() == GFX_W,
                forall|p: int, c: int|
                    0 <= p < r && 0 <= c < GFX_W ==> #[trigger] rows@[p]@[c] == self@.gfx[p * 64
                        + c],
            decreases GFX_H - r,
        {
            let mut row: Vec<bool> = Vec::new();
            let mut c: usize = 0;
            while c < GFX_W
                invariant
                    self@.wf(),
                    r < GFX_H,
                    c <= GFX_W,
                    row@.len() == c,
                    forall|q: int| 0 <= q < c ==> #[trigger] row@[q] == self@.gfx[r * 64 + q],
                decreases GFX_W - c,
            {
                row.push(self.gfx[r * GFX_W + c]);
                c += 1;
            }
            rows.push(row);
            r += 1;
        }
        rows
    }

    /// Sets the key's entry in the pressed-state table; additionally
    /// resolves a pending await, if one is outstanding, by writing the
    /// key's code into the awaited register and clearing the pending
    /// state — any key press satisfies the wait.
    pub fn press_key(&mut self, key: Key)
        requires
            old(self)@.wf(),
        ensures
            final(self)@.wf(),
            final(self)@ == spec_press_key(old(self)@, key),
    {
        let code = key.code();
        self.keys[code as usize] = true;
        if let Some(x) = self.awaited_key {
            self.v[x as usize] = code;
            self.awaited_key = None;
        }
        proof {
            assert(self@ =~= spec_press_key(old(self)@, key));
        }
    }

    /// Clears the key's entry in the pressed-state table.
    pub fn release_key(&mut self, key: Key)
        requires
            old(self)@.wf(),
        ensures
            final(self)@.wf(),
            final(self)@ == spec_release_key(old(self)@, key),
    {
        let code = key.code();
        self.keys[code as usize] = false;
        proof {
            assert(self@ =~= spec_release_key(old(self)@, key));
        }
    }

    /// One fetch-decode-execute cycle: read the word at the program
    /// counter, decode it, execute it.
    fn cycle(&mut self) -> (res: Result<(), InstructionError>)
        requires
            old(self)@.wf(),
            spec_cycle_ok(old(self)@),
        ensures
            final(self)@.wf(),
            exists|rnd: u8| final(self)@ == spec_cycle_s(old(self)@, rnd),
            res == spec_cycle_r(old(self)@),
            final(self)@.clock_acc == old(self)@.clock_acc,
            final(self)@.tick_acc == old(self)@.tick_acc,
    {
        let opcode = get_opcode(self.mem.as_slice(), self.pc);
        proof {
            assert(opcode@ == spec_fetched(self@));
        }
        let res = self.exec_opcode(opcode);
        proof {
            let r = choose|rnd: u8| self@ == spec_exec_s(old(self)@, opcode@, rnd);
            assert(self@ == spec_cycle_s(old(self)@, r));
        }
        res
    }

    /// Advances virtual time by `time_ns` nanoseconds: the elapsed time is
    /// accumulated, then drained in whole clock periods. Each period first
    /// feeds the 60 Hz tick accumulator (draining it decrements both
    /// timers), then — unless a key is awaited — executes exactly one
    /// cycle. The first failing cycle stops the call and is handed back;
    /// accumulated time not yet drained is retained for the next call.
    pub fn step(&mut self, time_ns: u64) -> (res: Result<(), InstructionError>)
        requires
            old(self)@.wf(),
            old(self)@.clock_acc + time_ns <= u64::MAX,
            run_fault_free(with_elapsed(old(self)@, time_ns)),
        ensures
            final(self)@.wf(),
            exists|rnds: Seq<u8>, n: nat|
                spec_run(with_elapsed(old(self)@, time_ns), rnds, n) == RunOutcome::Done(
                    final(self)@,
                    res,
                ),
    {
        self.clock_acc = self.clock_acc + time_ns;
        let ghost s0 = self@;
        proof {
            assert(s0 =~= with_elapsed(old(self)@, time_ns));
        }
        while self.clock_acc > CLOCK_PERIOD_NS
            invariant
                self@.wf(),
                run_fault_free(self@),
                run_extends(s0, self@),
                s0 == with_elapsed(old(self)@, time_ns),
            decreases self.clock_acc,
        {
            let ghost pre = self@;
            self.clock_acc = self.clock_acc - CLOCK_PERIOD_NS;
            self.tick_acc = self.tick_acc + CLOCK_PERIOD_NS;
            if self.tick_acc > TICK_PERIOD_NS {
                self.tick_acc = self.tick_acc - TICK_PERIOD_NS;
                self.tick_timers();
            }
            let ghost s1 = self@;
            proof {
                assert(s1 =~= spec_tick(
                    CpuV { clock_acc: (pre.clock_acc - CLOCK_PERIOD_NS) as u64, ..pre },
                ));
            }
            if self.awaited_key.is_none() {
                proof {
                    assert(spec_cycle_ok(s1)) by {
                        if !spec_cycle_ok(s1) {
                            assert(spec_run(pre, Seq::<u8>::empty(), 1) == RunOutcome::Fault);
                            assert(false);
                        }
                    };
                }
                let r = self.cycle();
                let ghost rnd = choose|rb: u8| self@ == spec_cycle_s(s1, rb);
                proof {
                    assert(self@ == spec_cycle_s(s1, rnd));
                    assert forall|rnds: Seq<u8>, n: nat|
                        spec_run(pre, seq![rnd] + rnds, n + 1) == spec_run(self@, rnds, n) || (
                        spec_run(pre, seq![rnd] + rnds, n + 1) matches RunOutcome::Done(t2, r2)
                            && t2 == self@ && r2 == r) by {
                        assert((seq![rnd] + rnds).first() == rnd);
                        assert((seq![rnd] + rnds).drop_first() =~= rnds);
                        assert((seq![rnd] + rnds).len() == 1 + rnds.len());
                    };
                }
                if let Err(e) = r {
                    proof {
                        assert(seq![rnd].first() == rnd);
                        assert(seq![rnd].len() == 1);
                        assert(spec_run(pre, seq![rnd], 1) == RunOutcome::Done(self@, r));
                        assert(spec_run(pre, seq![rnd], 1) matches RunOutcome::Done(t2, r2) && t2
                            == self@ && r2 == Err::<(), InstructionError>(e));
                    }
                    return Err(e);
                }
                proof {
                    assert(spec_cycle_r(s1) is Ok);
                    assert forall|rnds: Seq<u8>, n: nat| #[trigger] spec_run(self@, rnds, n)
                        != RunOutcome::Fault by {
                        if spec_run(self@, rnds, n) == RunOutcome::Fault {
                            assert((seq![rnd] + rnds).first() == rnd);
                            assert((seq![rnd] + rnds).drop_first() =~= rnds);
                            assert((seq![rnd] + rnds).len() == 1 + rnds.len());
                            assert(spec_run(pre, seq![rnd] + rnds, n + 1) == RunOutcome::Fault);
                            assert(false);
                        }
                    };
                    assert forall|rnds: Seq<u8>, n: nat|
                        (#[trigger] spec_run(self@, rnds, n)) matches RunOutcome::Done(t2, r2)
                        implies exists|rnds2: Seq<u8>, n2: nat|
                        spec_run(s0, rnds2, n2) == spec_run(self@, rnds, n) by {
                        assert((seq![rnd] + rnds).first() == rnd);
                        assert((seq![rnd] + rnds).drop_first() =~= rnds);
                        assert((seq![rnd] + rnds).len() == 1 + rnds.len());
                        assert(spec_run(pre, seq![rnd] + rnds, n + 1) == spec_run(self@, rnds, n));
                    };
                }
            } else {
                proof {
                    assert forall|rnds: Seq<u8>, n: nat|
                        spec_run(pre, rnds, n + 1) == spec_run(self@, rnds, n) by {};
                    assert forall|rnds: Seq<u8>, n: nat| #[trigger] spec_run(self@, rnds, n)
                        != RunOutcome::Fault by {
                        if spec_run(self@, rnds, n) == RunOutcome::Fault {
                            assert(spec_run(pre, rnds, n + 1) == RunOutcome::Fault);
                            assert(false);
                        }
                    };
                    assert forall|rnds: Seq<u8>, n: nat|
                        (#[trigger] spec_run(self@, rnds, n)) matches RunOutcome::Done(t2, r2)
                        implies exists|rnds2: Seq<u8>, n2: nat|
                        spec_run(s0, rnds2, n2) == spec_run(self@, rnds, n) by {
                        assert(spec_run(pre, rnds, n + 1) == spec_run(self@, rnds, n));
                    };
                }
            }
        }
        proof {
            assert(spec_run(self@, Seq::<u8>::empty(), 0) == RunOutcome::Done(
                self@,
                Ok::<(), InstructionError>(()),
            ));
        }
        Ok(())
    }

    /// Decrements both hardware timers by one, flooring at zero.
    fn tick_timers(&mut self)
        ensures
            final(self)@ == spec_tick_timers(old(self)@),
    {
        if self.delay_timer > 0 {
            self.delay_timer = self.delay_timer - 1;
        }
        if self.sound_timer > 0 {
            self.sound_timer = self.sound_timer - 1;
        }
        proof {
            assert(self@ =~= spec_tick_timers(old(self)@));
        }
    }
}

} // verus!
