//! The register file, call stack, program counter, and the two timers.

use vstd::prelude::*;

use crate::error::Chip8Error;

verus! {

/// Number of general-purpose registers (V0..VF).
pub const NUM_REGS: usize = 16;

/// Number of call-stack slots.
pub const STACK_SLOTS: usize = 16;

/// The mathematical model of the CPU state: registers as a sequence of 16
/// bytes, the stack as a sequence of 16 return addresses with a pointer.
pub ghost struct CpuView {
    pub v: Seq<u8>,
    pub i: u16,
    pub pc: u16,
    pub stack: Seq<u16>,
    pub sp: int,
    pub delay: u8,
    pub sound: u8,
}

/// What reading register `r` yields.
pub open spec fn spec_get(c: CpuView, r: int) -> u8 {
    c.v[r]
}

/// The CPU state after writing `val` to register `r`.
pub open spec fn spec_set(c: CpuView, r: int, val: u8) -> CpuView {
    CpuView { v: c.v.update(r, val), ..c }
}

/// The CPU state after pushing a return address: fails exactly when all
/// 16 slots are in use, else stores at `stack[sp]` and increments `sp`.
pub open spec fn spec_push(c: CpuView, addr: u16) -> Result<CpuView, Chip8Error> {
    if c.sp >= STACK_SLOTS {
        Err(Chip8Error::StackOverflow)
    } else {
        Ok(CpuView { stack: c.stack.update(c.sp, addr), sp: c.sp + 1, ..c })
    }
}

/// The CPU state and value after popping a return address: fails exactly
/// when no call is outstanding, else decrements `sp` and yields
/// `stack[sp]`.
pub open spec fn spec_pop(c: CpuView) -> Result<(CpuView, u16), Chip8Error> {
    if c.sp <= 0 {
        Err(Chip8Error::StackUnderflow)
    } else {
        Ok((CpuView { sp: c.sp - 1, ..c }, c.stack[c.sp - 1]))
    }
}

/// One 60 Hz timer tick: each timer decrements independently and floors
/// at 0, never wrapping below it.
pub open spec fn spec_tick(c: CpuView) -> CpuView {
    CpuView {
        delay: if c.delay > 0 {
            (c.delay - 1) as u8
        } else {
            0u8
        },
        sound: if c.sound > 0 {
            (c.sound - 1) as u8
        } else {
            0u8
        },
        ..c
    }
}

/// The CPU state of a freshly constructed machine: registers, stack and
/// timers cleared, the program counter at the load address 0x200.
pub open spec fn cpu_initial() -> CpuView {
    CpuView {
        v: Seq::new(NUM_REGS as nat, |r: int| 0u8),
        i: 0,
        pc: 0x200,
        stack: Seq::new(STACK_SLOTS as nat, |s: int| 0u16),
        sp: 0,
        delay: 0,
        sound: 0,
    }
}

/// The CPU: 16 eight-bit registers V0..VF (VF doubles as the
/// carry/borrow/collision flag), the 16-bit address register I, the
/// program counter, a 16-level call stack with its pointer, and the two
/// 8-bit down-counting timers.
pub struct CPU {
    pub v: Vec<u8>,
    pub i: u16,
    pub pc: u16,
    pub stack: Vec<u16>,
    pub sp: u8,
    pub delay_timer: u8,
    pub sound_timer: u8,
}

impl View for CPU {
    type V = CpuView;

    open spec fn view(&self) -> CpuView {
        CpuView {
            v: self.v@,
            i: self.i,
            pc: self.pc,
            stack: self.stack@,
            sp: self.sp as int,
            delay: self.delay_timer,
            sound: self.sound_timer,
        }
    }
}

impl CPU {
    /// The fixed shape of the CPU: 16 registers, 16 stack slots, and a
    /// stack pointer that never passes the last slot.
    pub open spec fn wf(&self) -> bool {
        &&& self@.v.len() == NUM_REGS
        &&& self@.stack.len() == STACK_SLOTS
        &&& 0 <= self@.sp <= STACK_SLOTS
    }

    /// Builds a fresh CPU in its construction-time state.
    pub fn new() -> (c: CPU)
        ensures
            c.wf(),
            c@ == cpu_initial(),
    {
        let mut v: Vec<u8> = Vec::new();
        while v.len() < NUM_REGS
            invariant
                v@.len() <= NUM_REGS,
                forall|r: int| 0 <= r < v@.len() ==> v@[r] == 0u8,
            decreases NUM_REGS - v@.len(),
        {
            v.push(0u8);
        }
        let mut stack: Vec<u16> = Vec::new();
        while stack.len() < STACK_SLOTS
            invariant
                stack@.len() <= STACK_SLOTS,
                forall|s: int| 0 <= s < stack@.len() ==> stack@[s] == 0u16,
            decreases STACK_SLOTS - stack@.len(),
        {
            stack.push(0u16);
        }
        let c = CPU { v, i: 0, pc: 0x200, stack, sp: 0, delay_timer: 0, sound_timer: 0 };
        proof {
            assert(c@.v =~= cpu_initial().v);
            assert(c@.stack =~= cpu_initial().stack);
        }
        c
    }

    /// Assembles the 16-bit instruction at the program counter from the
    /// two bytes `memory[pc]` (high) and `memory[pc + 1]` (low), and
    /// advances the program counter past it.
    pub fn fetch_opcode(&mut self, memory: &[u8]) -> (opcode: u16)
        requires
            old(self).pc + 1 < memory@.len(),
            old(self).pc + 2 <= u16::MAX,
        ensures
            opcode == memory@[old(self).pc as int] * 256 + memory@[old(self).pc + 1],
            final(self)@ == (CpuView { pc: (old(self).pc + 2) as u16, ..old(self)@ }),
    {
        let high_byte: u16 = memory[self.pc as usize] as u16;
        let low_byte: u16 = memory[(self.pc + 1) as usize] as u16;
        let opcode: u16 = high_byte * 256 + low_byte;

        self.pc += 2;

        opcode
    }

    /// Reads register `r`.
    pub fn get(&self, r: usize) -> (val: u8)
        requires
            self.wf(),
            r < NUM_REGS,
        ensures
            val == spec_get(self@, r as int),
    {
        self.v[r]
    }

    /// Writes `val` to register `r`; every other part of the CPU is kept.
    pub fn set(&mut self, r: usize, val: u8)
        requires
            old(self).wf(),
            r < NUM_REGS,
        ensures
            final(self).wf(),
            final(self)@ == spec_set(old(self)@, r as int, val),
    {
        self.v[r] = val;
    }

    /// Pushes a return address; fails with `StackOverflow` exactly when
    /// all 16 slots are in use, and then changes nothing.
    pub fn push(&mut self, addr: u16) -> (r: Result<(), Chip8Error>)
        requires
            old(self).wf(),
        ensures
            final(self).wf(),
            match spec_push(old(self)@, addr) {
                Ok(c) => r == Ok::<(), Chip8Error>(()) && final(self)@ == c,
                Err(e) => r == Err::<(), Chip8Error>(e) && final(self)@ == old(self)@,
            },
    {
        if self.sp as usize >= STACK_SLOTS {
            Err(Chip8Error::StackOverflow)
        } else {
            self.stack[self.sp as usize] = addr;
            self.sp += 1;
            Ok(())
        }
    }

    /// Pops the most recently pushed return address; fails with
    /// `StackUnderflow` exactly when no call is outstanding, and then
    /// changes nothing.
    pub fn pop(&mut self) -> (r: Result<u16, Chip8Error>)
        requires
            old(self).wf(),
        ensures
            final(self).wf(),
            match spec_pop(old(self)@) {
                Ok(cv) => r == Ok::<u16, Chip8Error>(cv.1) && final(self)@ == cv.0,
                Err(e) => r == Err::<u16, Chip8Error>(e) && final(self)@ == old(self)@,
            },
    {
        if self.sp == 0 {
            Err(Chip8Error::StackUnderflow)
        } else {
            self.sp -= 1;
            Ok(self.stack[self.sp as usize])
        }
    }

    /// One 60 Hz timer tick. The driver calls this at a fixed cadence,
    /// independent of how many instructions were executed meanwhile: the
    /// CPU cycle rate and the timer rate are two separate clock domains.
    /// Each timer floors at 0 and never decrements below it.
    pub fn tick(&mut self)
        requires
            old(self).wf(),
        ensures
            final(self).wf(),
            final(self)@ == spec_tick(old(self)@),
    {
        if self.delay_timer > 0 {
            self.delay_timer -= 1;
        }
        if self.sound_timer > 0 {
            self.sound_timer -= 1;
        }
    }
}

/// Law: writing a valid register and reading it back yields the written
/// value, for every register index and every value.
pub proof fn lemma_set_then_get(c: CpuView, r: int, val: u8)
    requires
        c.v.len() == NUM_REGS,
        0 <= r < NUM_REGS,
    ensures
        spec_get(spec_set(c, r, val), r) == val,
{
}

/// Law: a push followed by a pop returns exactly the pushed address
/// (single-entry LIFO round trip) and restores the stack pointer; the
/// registers, the address register, the program counter and the timers
/// are untouched, and the stack differs at most in the slot that held the
/// pushed address.
pub proof fn lemma_push_then_pop(c: CpuView, addr: u16)
    requires
        c.stack.len() == STACK_SLOTS,
        0 <= c.sp < STACK_SLOTS,
    ensures
        spec_push(c, addr) is Ok,
        spec_pop(spec_push(c, addr)->Ok_0) is Ok,
        ({
            let (c2, popped) = spec_pop(spec_push(c, addr)->Ok_0)->Ok_0;
            &&& popped == addr
            &&& c2.sp == c.sp
            &&& c2.v == c.v
            &&& c2.i == c.i
            &&& c2.pc == c.pc
            &&& c2.delay == c.delay
            &&& c2.sound == c.sound
            &&& c2.stack == c.stack.update(c.sp, addr)
        }),
{
}

} // verus!
