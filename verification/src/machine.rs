//! The machine: fetch-decode-execute over the full opcode set.

use vstd::prelude::*;

use crate::cpu::{cpu_initial, spec_pop, spec_push, spec_tick, CpuView, CPU};
use crate::display::{blank_display, spec_draw, Display, DISPLAY_CELLS};
use crate::error::Chip8Error;
use crate::input::{spec_first_pressed, Keypad, NUM_KEYS};
use crate::memory::{mem_initial, mem_loaded, Memory, FONT_START, MAX_PROGRAM_LEN, MEM_SIZE};

verus! {

/// Largest program counter at which a full 2-byte instruction can still
/// be fetched from the 4096-byte memory.
pub const PC_LIMIT: u16 = 4094;

/// Whether the engine is running freely or suspended by a key-wait
/// opcode. The wait is an explicit machine state, not a blocking call:
/// the driver keeps calling `step`, which resolves the wait as soon as a
/// key is down.
#[derive(Clone, Copy, Debug, PartialEq, Eq, Structural)]
pub enum ExecState {
    Running,
    /// Waiting for a key press; the payload is the register that receives
    /// the key code.
    WaitingForKey(u8),
}

/// The mathematical model of the whole machine.
#[verifier::ext_equal]
pub ghost struct MState {
    pub mem: Seq<u8>,
    pub cpu: CpuView,
    pub pixels: Seq<bool>,
    pub dirty: bool,
    pub keys: Seq<bool>,
    pub waiting: Option<u8>,
    pub rng: u16,
}

/// The fixed shape every reachable machine state has.
pub open spec fn wf_state(s: MState) -> bool {
    &&& s.mem.len() == MEM_SIZE
    &&& s.cpu.v.len() == 16
    &&& s.cpu.stack.len() == 16
    &&& 0 <= s.cpu.sp <= 16
    &&& s.pixels.len() == DISPLAY_CELLS
    &&& s.keys.len() == NUM_KEYS
    &&& (s.waiting matches Some(x) ==> x < 16)
}

/// The state of a freshly constructed machine.
pub open spec fn initial_state() -> MState {
    MState {
        mem: mem_initial(),
        cpu: cpu_initial(),
        pixels: blank_display(),
        dirty: false,
        keys: Seq::new(NUM_KEYS as nat, |k: int| false),
        waiting: None,
        rng: 0,
    }
}

/// The linear-congruential successor of the random-number state.
pub open spec fn next_rng(r: u16) -> u16 {
    ((r as int * 25173 + 13849) % 0x10000) as u16
}

/// The random byte drawn when the random-number state is `r`: the high
/// byte of the successor state.
pub open spec fn rng_byte(r: u16) -> u8 {
    (next_rng(r) as int / 256) as u8
}

/// Operand field x: the second nibble of the opcode.
pub open spec fn op_x(op: u16) -> int {
    (op as int / 0x100) % 16
}

/// Operand field y: the third nibble of the opcode.
pub open spec fn op_y(op: u16) -> int {
    (op as int / 16) % 16
}

/// Operand field kk: the low byte of the opcode.
pub open spec fn op_kk(op: u16) -> u8 {
    (op as int % 256) as u8
}

/// Operand field nnn: the low 12 bits of the opcode.
pub open spec fn op_nnn(op: u16) -> u16 {
    (op as int % 0x1000) as u16
}

/// The 16-bit instruction at the program counter: the byte at `pc` is
/// the high byte, the byte at `pc + 1` the low byte.
pub open spec fn opcode_at(s: MState) -> u16 {
    (s.mem[s.cpu.pc as int] as int * 256 + s.mem[s.cpu.pc as int + 1] as int) as u16
}

/// `s` with the program counter moved past the fetched instruction.
pub open spec fn after_fetch(s: MState) -> MState {
    MState { cpu: CpuView { pc: (s.cpu.pc + 2) as u16, ..s.cpu }, ..s }
}

/// `s` with the next instruction skipped (conditional skip taken).
pub open spec fn skip(s: MState) -> MState {
    MState { cpu: CpuView { pc: (s.cpu.pc + 2) as u16, ..s.cpu }, ..s }
}

/// `s` with `val` written to register `x`.
pub open spec fn set_reg(s: MState, x: int, val: u8) -> MState {
    MState { cpu: CpuView { v: s.cpu.v.update(x, val), ..s.cpu }, ..s }
}

/// The register-register ALU family `8xyn`. The result is written to Vx
/// first; the flag, where the operation has one, is written to VF after
/// it, so when x is 15 the flag wins. The shift opcodes shift Vx in
/// place (the modern convention; the historical alternative shifted Vy
/// into Vx).
pub open spec fn spec_alu(s: MState, op: u16) -> Result<MState, Chip8Error> {
    let x = op_x(op);
    let y = op_y(op);
    let n = op as int % 16;
    let vx = s.cpu.v[x] as int;
    let vy = s.cpu.v[y] as int;
    if n == 0 {
        Ok(set_reg(s, x, s.cpu.v[y]))
    } else if n == 1 {
        Ok(set_reg(s, x, s.cpu.v[x] | s.cpu.v[y]))
    } else if n == 2 {
        Ok(set_reg(s, x, s.cpu.v[x] & s.cpu.v[y]))
    } else if n == 3 {
        Ok(set_reg(s, x, s.cpu.v[x] ^ s.cpu.v[y]))
    } else if n == 4 {
        Ok(
            set_reg(
                set_reg(s, x, ((vx + vy) % 256) as u8),
                15,
                if vx + vy > 255 {
                    1u8
                } else {
                    0u8
                },
            ),
        )
    } else if n == 5 {
        Ok(
            set_reg(
                set_reg(s, x, ((vx + 256 - vy) % 256) as u8),
                15,
                if vx >= vy {
                    1u8
                } else {
                    0u8
                },
            ),
        )
    } else if n == 6 {
        Ok(set_reg(set_reg(s, x, (vx / 2) as u8), 15, (vx % 2) as u8))
    } else if n == 7 {
        Ok(
            set_reg(
                set_reg(s, x, ((vy + 256 - vx) % 256) as u8),
                15,
                if vy >= vx {
                    1u8
                } else {
                    0u8
                },
            ),
        )
    } else if n == 0xE {
        Ok(set_reg(set_reg(s, x, ((vx * 2) % 256) as u8), 15, (vx / 128) as u8))
    } else {
        Err(Chip8Error::IllegalInstruction(op))
    }
}

/// The sprite-draw opcode `Dxyn`: reads an n-byte sprite at the address
/// register (masked to the 12 significant bits on use), XOR-draws it at
/// `(Vx, Vy)`, raises the dirty flag and writes the collision flag to
/// VF. Fails exactly when the sprite bytes do not all lie inside memory.
pub open spec fn spec_draw_op(s: MState, op: u16) -> Result<MState, Chip8Error> {
    let x = op_x(op);
    let y = op_y(op);
    let n = op as int % 16;
    let base = s.cpu.i as int % 0x1000;
    if base + n > MEM_SIZE {
        Err(Chip8Error::AddressOutOfRange)
    } else {
        let sprite = s.mem.subrange(base, base + n);
        let d = spec_draw(s.pixels, s.cpu.v[x] as int, s.cpu.v[y] as int, sprite);
        Ok(
            MState {
                pixels: d.0,
                dirty: true,
                cpu: CpuView {
                    v: s.cpu.v.update(
                        15,
                        if d.1 {
                            1u8
                        } else {
                            0u8
                        },
                    ),
                    ..s.cpu
                },
                ..s
            },
        )
    }
}

/// The `Fxkk` family: timer access, key wait, address arithmetic, font
/// addressing, BCD, and register dump/restore. The memory opcodes mask
/// the address register to its 12 significant bits on use and leave it
/// unchanged afterwards.
pub open spec fn spec_misc(s: MState, op: u16) -> Result<MState, Chip8Error> {
    let x = op_x(op);
    let kk = op as int % 256;
    let vx = s.cpu.v[x] as int;
    let base = s.cpu.i as int % 0x1000;
    if kk == 0x07 {
        Ok(set_reg(s, x, s.cpu.delay))
    } else if kk == 0x0A {
        Ok(MState { waiting: Some(x as u8), ..s })
    } else if kk == 0x15 {
        Ok(MState { cpu: CpuView { delay: s.cpu.v[x], ..s.cpu }, ..s })
    } else if kk == 0x18 {
        Ok(MState { cpu: CpuView { sound: s.cpu.v[x], ..s.cpu }, ..s })
    } else if kk == 0x1E {
        Ok(MState { cpu: CpuView { i: ((s.cpu.i as int + vx) % 0x10000) as u16, ..s.cpu }, ..s })
    } else if kk == 0x29 {
        Ok(MState { cpu: CpuView { i: (FONT_START + vx * 5) as u16, ..s.cpu }, ..s })
    } else if kk == 0x33 {
        if base + 3 > MEM_SIZE {
            Err(Chip8Error::AddressOutOfRange)
        } else {
            Ok(
                MState {
                    mem: s.mem.update(base, (vx / 100) as u8).update(
                        base + 1,
                        (vx / 10 % 10) as u8,
                    ).update(base + 2, (vx % 10) as u8),
                    ..s
                },
            )
        }
    } else if kk == 0x55 {
        if base + x + 1 > MEM_SIZE {
            Err(Chip8Error::AddressOutOfRange)
        } else {
            Ok(
                MState {
                    mem: Seq::new(
                        MEM_SIZE as nat,
                        |a: int|
                            if base <= a <= base + x {
                                s.cpu.v[a - base]
                            } else {
                                s.mem[a]
                            },
                    ),
                    ..s
                },
            )
        }
    } else if kk == 0x65 {
        if base + x + 1 > MEM_SIZE {
            Err(Chip8Error::AddressOutOfRange)
        } else {
            Ok(
                MState {
                    cpu: CpuView {
                        v: Seq::new(
                            16,
                            |r: int|
                                if 0 <= r <= x {
                                    s.mem[base + r]
                                } else {
                                    s.cpu.v[r]
                                },
                        ),
                        ..s.cpu
                    },
                    ..s
                },
            )
        }
    } else {
        Err(Chip8Error::IllegalInstruction(op))
    }
}

/// One decoded instruction, executed on a state whose program counter
/// has already moved past it. This table is the semantic heart of the
/// machine; an unmatched word is an `IllegalInstruction` fault, never a
/// silent no-op.
pub open spec fn spec_execute(s: MState, op: u16) -> Result<MState, Chip8Error> {
    let hi = op as int / 0x1000;
    let x = op_x(op);
    let y = op_y(op);
    let n = op as int % 16;
    let kk = op_kk(op);
    let nnn = op_nnn(op);
    if op == 0x00E0 {
        Ok(MState { pixels: blank_display(), dirty: true, ..s })
    } else if op == 0x00EE {
        match spec_pop(s.cpu) {
            Ok(ca) => Ok(MState { cpu: CpuView { pc: ca.1, ..ca.0 }, ..s }),
            Err(e) => Err(e),
        }
    } else if hi == 0x1 {
        Ok(MState { cpu: CpuView { pc: nnn, ..s.cpu }, ..s })
    } else if hi == 0x2 {
        match spec_push(s.cpu, s.cpu.pc) {
            Ok(c) => Ok(MState { cpu: CpuView { pc: nnn, ..c }, ..s }),
            Err(e) => Err(e),
        }
    } else if hi == 0x3 {
        Ok(
            if s.cpu.v[x] == kk {
                skip(s)
            } else {
                s
            },
        )
    } else if hi == 0x4 {
        Ok(
            if s.cpu.v[x] != kk {
                skip(s)
            } else {
                s
            },
        )
    } else if hi == 0x5 && n == 0 {
        Ok(
            if s.cpu.v[x] == s.cpu.v[y] {
                skip(s)
            } else {
                s
            },
        )
    } else if hi == 0x6 {
        Ok(set_reg(s, x, kk))
    } else if hi == 0x7 {
        Ok(set_reg(s, x, ((s.cpu.v[x] as int + kk as int) % 256) as u8))
    } else if hi == 0x8 {
        spec_alu(s, op)
    } else if hi == 0x9 && n == 0 {
        Ok(
            if s.cpu.v[x] != s.cpu.v[y] {
                skip(s)
            } else {
                s
            },
        )
    } else if hi == 0xA {
        Ok(MState { cpu: CpuView { i: nnn, ..s.cpu }, ..s })
    } else if hi == 0xB {
        Ok(MState { cpu: CpuView { pc: (nnn as int + s.cpu.v[0] as int) as u16, ..s.cpu }, ..s })
    } else if hi == 0xC {
        Ok(MState { rng: next_rng(s.rng), ..set_reg(s, x, rng_byte(s.rng) & kk) })
    } else if hi == 0xD {
        spec_draw_op(s, op)
    } else if hi == 0xE && kk == 0x9E {
        Ok(
            if s.keys[s.cpu.v[x] as int % 16] {
                skip(s)
            } else {
                s
            },
        )
    } else if hi == 0xE && kk == 0xA1 {
        Ok(
            if !s.keys[s.cpu.v[x] as int % 16] {
                skip(s)
            } else {
                s
            },
        )
    } else if hi == 0xF {
        spec_misc(s, op)
    } else {
        Err(Chip8Error::IllegalInstruction(op))
    }
}

/// One driver cycle. A waiting machine polls the key latch: it resolves
/// the wait into the target register when a key is down (the lowest
/// pressed key wins) and otherwise stays put. A running machine fetches
/// the instruction at the program counter — a fault if a full
/// instruction no longer fits in memory — advances past it and executes
/// it. A faulting step leaves the machine exactly as it was.
pub open spec fn spec_step(s: MState) -> Result<MState, Chip8Error> {
    match s.waiting {
        Some(x) => match spec_first_pressed(s.keys) {
            Some(k) => Ok(
                MState { cpu: CpuView { v: s.cpu.v.update(x as int, k), ..s.cpu }, waiting: None, ..s },
            ),
            None => Ok(s),
        },
        None => {
            if s.cpu.pc > PC_LIMIT {
                Err(Chip8Error::AddressOutOfRange)
            } else {
                spec_execute(after_fetch(s), opcode_at(s))
            }
        },
    }
}

/// A complete CHIP-8 machine: memory, CPU, display, key latch, the
/// run/wait state, and the random-number state. One owned instance per
/// emulation session; a single driver thread calls `step` and `tick`.
pub struct Machine {
    pub cpu: CPU,
    pub memory: Memory,
    pub display: Display,
    pub keypad: Keypad,
    pub state: ExecState,
    pub rng: u16,
}

impl View for Machine {
    type V = MState;

    open spec fn view(&self) -> MState {
        MState {
            mem: self.memory@,
            cpu: self.cpu@,
            pixels: self.display@,
            dirty: self.display.dirty,
            keys: self.keypad@,
            waiting: match self.state {
                ExecState::Running => None,
                ExecState::WaitingForKey(x) => Some(x),
            },
            rng: self.rng,
        }
    }
}

impl Machine {
    /// The machine's invariant: every component has its fixed shape.
    pub open spec fn wf(&self) -> bool {
        wf_state(self@)
    }

    /// Builds a machine in its construction-time state: font loaded,
    /// everything else cleared, program counter at 0x200.
    pub fn new() -> (m: Machine)
        ensures
            m.wf(),
            m@ == initial_state(),
    {
        let m = Machine {
            cpu: CPU::new(),
            memory: Memory::new(),
            display: Display::new(),
            keypad: Keypad::new(),
            state: ExecState::Running,
            rng: 0,
        };
        proof {
            assert(m@ =~= initial_state());
        }
        m
    }

    /// Reinitializes every component to its construction-time default.
    pub fn reset(&mut self)
        ensures
            final(self).wf(),
            final(self)@ == initial_state(),
    {
        *self = Machine::new();
    }

    /// Replaces the random-number state, so that a driver can vary (or
    /// pin down) the stream the `Cxkk` opcode draws from.
    pub fn seed_rng(&mut self, seed: u16)
        requires
            old(self).wf(),
        ensures
            final(self).wf(),
            final(self)@ == (MState { rng: seed, ..old(self)@ }),
    {
        self.rng = seed;
    }

    /// Copies a program image into memory at 0x200; fails exactly when
    /// the image does not fit, and then changes nothing.
    pub fn load_program(&mut self, program: &[u8]) -> (r: Result<(), Chip8Error>)
        requires
            old(self).wf(),
        ensures
            final(self).wf(),
            program@.len() <= MAX_PROGRAM_LEN ==> r == Ok::<(), Chip8Error>(()) && final(self)@
                == (MState { mem: mem_loaded(old(self)@.mem, program@), ..old(self)@ }),
            program@.len() > MAX_PROGRAM_LEN ==> r == Err::<(), Chip8Error>(
                Chip8Error::ProgramTooLarge,
            ) && final(self)@ == old(self)@,
    {
        self.memory.load_program(program)
    }

    /// Records that key `k` is pressed or released.
    pub fn set_key(&mut self, k: usize, pressed: bool)
        requires
            old(self).wf(),
            k < NUM_KEYS,
        ensures
            final(self).wf(),
            final(self)@ == (MState { keys: old(self)@.keys.update(k as int, pressed), ..old(self)@ }),
    {
        self.keypad.set_key(k, pressed);
    }

    /// One 60 Hz timer tick, decoupled from the instruction rate: the
    /// driver calls this on its own fixed cadence. Neither timer ever
    /// decrements below 0.
    pub fn tick(&mut self)
        requires
            old(self).wf(),
        ensures
            final(self).wf(),
            final(self)@ == (MState { cpu: spec_tick(old(self)@.cpu), ..old(self)@ }),
    {
        self.cpu.tick();
    }

    /// One CPU cycle, exactly as `spec_step` states it: poll the key
    /// latch when waiting, otherwise fetch, decode and execute one
    /// instruction. On a fault the machine is left exactly as it was.
    pub fn step(&mut self) -> (r: Result<(), Chip8Error>)
        requires
            old(self).wf(),
        ensures
            final(self).wf(),
            match r {
                Ok(()) => spec_step(old(self)@) == Ok::<MState, Chip8Error>(final(self)@),
                Err(e) => spec_step(old(self)@) == Err::<MState, Chip8Error>(e) && final(self)@
                    == old(self)@,
            },
    {
        match self.state {
            ExecState::WaitingForKey(x) => {
                match self.keypad.first_pressed() {
                    Some(k) => {
                        self.cpu.set(x as usize, k);
                        self.state = ExecState::Running;
                        proof {
                            assert(spec_step(old(self)@)->Ok_0 =~= self@);
                        }
                        Ok(())
                    },
                    None => Ok(()),
                }
            },
            ExecState::Running => {
                if self.cpu.pc > PC_LIMIT {
                    return Err(Chip8Error::AddressOutOfRange);
                }
                let pc = self.cpu.pc as usize;
                let hi_byte = self.memory.data[pc];
                let lo_byte = self.memory.data[pc + 1];
                let op: u16 = (hi_byte as u16) * 256 + (lo_byte as u16);
                proof {
                    assert(op == opcode_at(self@));
                }
                self.execute(op)
            },
        }
    }

    /// Decodes and executes one instruction whose fetch succeeded; the
    /// program counter still points at the instruction and every arm
    /// places it itself.
    fn execute(&mut self, op: u16) -> (r: Result<(), Chip8Error>)
        requires
            old(self).wf(),
            old(self)@.cpu.pc <= PC_LIMIT,
        ensures
            final(self).wf(),
            match r {
                Ok(()) => spec_execute(after_fetch(old(self)@), op) == Ok::<MState, Chip8Error>(
                    final(self)@,
                ),
                Err(e) => spec_execute(after_fetch(old(self)@), op) == Err::<MState, Chip8Error>(e)
                    && final(self)@ == old(self)@,
            },
    {
        let hi = op / 0x1000;
        let x = ((op / 0x100) % 16) as usize;
        let y = ((op / 16) % 16) as usize;
        let kk = (op % 256) as u8;
        let nnn = op % 0x1000;
        let pc2 = self.cpu.pc + 2;
        if op == 0x00E0 {
            self.display.clear();
            self.cpu.pc = pc2;
            Ok(())
        } else if op == 0x00EE {
            match self.cpu.pop() {
                Ok(addr) => {
                    self.cpu.pc = addr;
                    Ok(())
                },
                Err(e) => Err(e),
            }
        } else if hi == 0x1 {
            self.cpu.pc = nnn;
            Ok(())
        } else if hi == 0x2 {
            match self.cpu.push(pc2) {
                Ok(()) => {
                    self.cpu.pc = nnn;
                    Ok(())
                },
                Err(e) => Err(e),
            }
        } else if hi == 0x3 {
            self.cpu.pc = if self.cpu.v[x] == kk {
                pc2 + 2
            } else {
                pc2
            };
            Ok(())
        } else if hi == 0x4 {
            self.cpu.pc = if self.cpu.v[x] != kk {
                pc2 + 2
            } else {
                pc2
            };
            Ok(())
        } else if hi == 0x5 && op % 16 == 0 {
            self.cpu.pc = if self.cpu.v[x] == self.cpu.v[y] {
                pc2 + 2
            } else {
                pc2
            };
            Ok(())
        } else if hi == 0x6 {
            self.cpu.v[x] = kk;
            self.cpu.pc = pc2;
            Ok(())
        } else if hi == 0x7 {
            let sum = self.cpu.v[x] as u16 + kk as u16;
            self.cpu.v[x] = (sum % 256) as u8;
            self.cpu.pc = pc2;
            Ok(())
        } else if hi == 0x8 {
            self.exec_alu(op)
        } else if hi == 0x9 && op % 16 == 0 {
            self.cpu.pc = if self.cpu.v[x] != self.cpu.v[y] {
                pc2 + 2
            } else {
                pc2
            };
            Ok(())
        } else if hi == 0xA {
            self.cpu.i = nnn;
            self.cpu.pc = pc2;
            Ok(())
        } else if hi == 0xB {
            self.cpu.pc = nnn + self.cpu.v[0] as u16;
            Ok(())
        } else if hi == 0xC {
            let next: u32 = (self.rng as u32 * 25173 + 13849) % 65536;
            self.rng = next as u16;
            let drawn: u8 = (self.rng / 256) as u8;
            self.cpu.v[x] = drawn & kk;
            self.cpu.pc = pc2;
            Ok(())
        } else if hi == 0xD {
            self.exec_draw(op)
        } else if hi == 0xE && kk == 0x9E {
            let key = (self.cpu.v[x] % 16) as usize;
            self.cpu.pc = if self.keypad.is_pressed(key) {
                pc2 + 2
            } else {
                pc2
            };
            Ok(())
        } else if hi == 0xE && kk == 0xA1 {
            let key = (self.cpu.v[x] % 16) as usize;
            self.cpu.pc = if !self.keypad.is_pressed(key) {
                pc2 + 2
            } else {
                pc2
            };
            Ok(())
        } else if hi == 0xF {
            self.exec_misc(op)
        } else {
            Err(Chip8Error::IllegalInstruction(op))
        }
    }

    /// The `8xyn` register-register ALU family.
    fn exec_alu(&mut self, op: u16) -> (r: Result<(), Chip8Error>)
        requires
            old(self).wf(),
            old(self)@.cpu.pc <= PC_LIMIT,
            op as int / 0x1000 == 8,
        ensures
            final(self).wf(),
            match r {
                Ok(()) => spec_execute(after_fetch(old(self)@), op) == Ok::<MState, Chip8Error>(
                    final(self)@,
                ),
                Err(e) => spec_execute(after_fetch(old(self)@), op) == Err::<MState, Chip8Error>(e)
                    && final(self)@ == old(self)@,
            },
    {
        let x = ((op / 0x100) % 16) as usize;
        let y = ((op / 16) % 16) as usize;
        let n = op % 16;
        let vx = self.cpu.v[x];
        let vy = self.cpu.v[y];
        let pc2 = self.cpu.pc + 2;
        if n == 0 {
            self.cpu.v[x] = vy;
        } else if n == 1 {
            self.cpu.v[x] = vx | vy;
        } else if n == 2 {
            self.cpu.v[x] = vx & vy;
        } else if n == 3 {
            self.cpu.v[x] = vx ^ vy;
        } else if n == 4 {
            let sum = vx as u16 + vy as u16;
            self.cpu.v[x] = (sum % 256) as u8;
            self.cpu.v[15] = if sum > 255 {
                1
            } else {
                0
            };
        } else if n == 5 {
            let diff = (vx as u16 + 256) - vy as u16;
            self.cpu.v[x] = (diff % 256) as u8;
            self.cpu.v[15] = if vx >= vy {
                1
            } else {
                0
            };
        } else if n == 6 {
            self.cpu.v[x] = vx / 2;
            self.cpu.v[15] = vx % 2;
        } else if n == 7 {
            let diff = (vy as u16 + 256) - vx as u16;
            self.cpu.v[x] = (diff % 256) as u8;
            self.cpu.v[15] = if vy >= vx {
                1
            } else {
                0
            };
        } else if n == 0xE {
            let dbl = vx as u16 * 2;
            self.cpu.v[x] = (dbl % 256) as u8;
            self.cpu.v[15] = vx / 128;
        } else {
            return Err(Chip8Error::IllegalInstruction(op));
        }
        self.cpu.pc = pc2;
        Ok(())
    }

    /// The `Dxyn` sprite-draw opcode.
    fn exec_draw(&mut self, op: u16) -> (r: Result<(), Chip8Error>)
        requires
            old(self).wf(),
            old(self)@.cpu.pc <= PC_LIMIT,
            op as int / 0x1000 == 0xD,
        ensures
            final(self).wf(),
            match r {
                Ok(()) => spec_execute(after_fetch(old(self)@), op) == Ok::<MState, Chip8Error>(
                    final(self)@,
                ),
                Err(e) => spec_execute(after_fetch(old(self)@), op) == Err::<MState, Chip8Error>(e)
                    && final(self)@ == old(self)@,
            },
    {
        let x = ((op / 0x100) % 16) as usize;
        let y = ((op / 16) % 16) as usize;
        let n = (op % 16) as usize;
        let base = (self.cpu.i % 0x1000) as usize;
        if base + n > MEM_SIZE {
            return Err(Chip8Error::AddressOutOfRange);
        }
        let mut sprite: Vec<u8> = Vec::new();
        let mut k: usize = 0;
        while k < n
            invariant
                k <= n,
                n <= 15,
                base + n <= MEM_SIZE,
                self.memory@.len() == MEM_SIZE,
                sprite@.len() == k,
                forall|j: int| 0 <= j < k ==> sprite@[j] == self.memory@[base + j],
            decreases n - k,
        {
            sprite.push(self.memory.data[base + k]);
            k = k + 1;
        }
        proof {
            assert(sprite@ =~= self.memory@.subrange(base as int, base as int + n));
        }
        let vx = self.cpu.v[x];
        let vy = self.cpu.v[y];
        let collision = self.display.draw_sprite(vx, vy, sprite.as_slice());
        self.cpu.v[15] = if collision {
            1
        } else {
            0
        };
        self.cpu.pc = self.cpu.pc + 2;
        Ok(())
    }

    /// The `Fxkk` miscellaneous family.
    fn exec_misc(&mut self, op: u16) -> (r: Result<(), Chip8Error>)
        requires
            old(self).wf(),
            old(self)@.cpu.pc <= PC_LIMIT,
            op as int / 0x1000 == 0xF,
        ensures
            final(self).wf(),
            match r {
                Ok(()) => spec_execute(after_fetch(old(self)@), op) == Ok::<MState, Chip8Error>(
                    final(self)@,
                ),
                Err(e) => spec_execute(after_fetch(old(self)@), op) == Err::<MState, Chip8Error>(e)
                    && final(self)@ == old(self)@,
            },
    {
        let x = ((op / 0x100) % 16) as usize;
        let kk = op % 256;
        let vx = self.cpu.v[x];
        let base = (self.cpu.i % 0x1000) as usize;
        let pc2 = self.cpu.pc + 2;
        if kk == 0x07 {
            self.cpu.v[x] = self.cpu.delay_timer;
            self.cpu.pc = pc2;
            Ok(())
        } else if kk == 0x0A {
            self.state = ExecState::WaitingForKey(x as u8);
            self.cpu.pc = pc2;
            Ok(())
        } else if kk == 0x15 {
            self.cpu.delay_timer = vx;
            self.cpu.pc = pc2;
            Ok(())
        } else if kk == 0x18 {
            self.cpu.sound_timer = vx;
            self.cpu.pc = pc2;
            Ok(())
        } else if kk == 0x1E {
            let next: u32 = (self.cpu.i as u32 + vx as u32) % 0x10000;
            self.cpu.i = next as u16;
            self.cpu.pc = pc2;
            Ok(())
        } else if kk == 0x29 {
            self.cpu.i = FONT_START as u16 + vx as u16 * 5;
            self.cpu.pc = pc2;
            Ok(())
        } else if kk == 0x33 {
            if base + 3 > MEM_SIZE {
                return Err(Chip8Error::AddressOutOfRange);
            }
            self.memory.data[base] = vx / 100;
            self.memory.data[base + 1] = vx / 10 % 10;
            self.memory.data[base + 2] = vx % 10;
            self.cpu.pc = pc2;
            Ok(())
        } else if kk == 0x55 {
            if base + x + 1 > MEM_SIZE {
                return Err(Chip8Error::AddressOutOfRange);
            }
            let mut r: usize = 0;
            while r <= x
                invariant
                    r <= x + 1,
                    x < 16,
                    base + x + 1 <= MEM_SIZE,
                    self@.cpu == old(self)@.cpu,
                    self.cpu.v@.len() == 16,
                    self.memory@.len() == MEM_SIZE,
                    forall|a: int|
                        base <= a < base + r ==> self.memory@[a] == self.cpu.v@[a - base],
                    forall|a: int|
                        0 <= a < MEM_SIZE && !(base <= a < base + r) ==> self.memory@[a] == old(
                            self,
                        )@.mem[a],
                    self@.pixels == old(self)@.pixels,
                    self@.dirty == old(self)@.dirty,
                    self@.keys == old(self)@.keys,
                    self@.waiting == old(self)@.waiting,
                    self@.rng == old(self)@.rng,
                decreases x + 1 - r,
            {
                self.memory.data[base + r] = self.cpu.v[r];
                r = r + 1;
            }
            proof {
                let want = spec_misc(after_fetch(old(self)@), op)->Ok_0.mem;
                assert(self.memory@ =~= want);
            }
            self.cpu.pc = pc2;
            Ok(())
        } else if kk == 0x65 {
            if base + x + 1 > MEM_SIZE {
                return Err(Chip8Error::AddressOutOfRange);
            }
            let mut r: usize = 0;
            while r <= x
                invariant
                    r <= x + 1,
                    x < 16,
                    base + x + 1 <= MEM_SIZE,
                    base == old(self)@.cpu.i as int % 0x1000,
                    self@.mem == old(self)@.mem,
                    self.memory@.len() == MEM_SIZE,
                    self.cpu.v@.len() == 16,
                    self.cpu.i == old(self).cpu.i,
                    self.cpu.pc == old(self).cpu.pc,
                    self.cpu.sp == old(self).cpu.sp,
                    self.cpu.stack@ == old(self).cpu.stack@,
                    self.cpu.delay_timer == old(self).cpu.delay_timer,
                    self.cpu.sound_timer == old(self).cpu.sound_timer,
                    forall|j: int| 0 <= j < r ==> self.cpu.v@[j] == old(self)@.mem[base + j],
                    forall|j: int| r <= j < 16 ==> self.cpu.v@[j] == old(self)@.cpu.v[j],
                    self@.pixels == old(self)@.pixels,
                    self@.dirty == old(self)@.dirty,
                    self@.keys == old(self)@.keys,
                    self@.waiting == old(self)@.waiting,
                    self@.rng == old(self)@.rng,
                decreases x + 1 - r,
            {
                self.cpu.v[r] = self.memory.data[base + r];
                r = r + 1;
            }
            proof {
                let want = spec_misc(after_fetch(old(self)@), op)->Ok_0.cpu.v;
                assert(self.cpu.v@ =~= want);
            }
            self.cpu.pc = pc2;
            Ok(())
        } else {
            Err(Chip8Error::IllegalInstruction(op))
        }
    }
}

/// Law: the ADD-immediate opcode `7xkk` never faults; Vx wraps modulo
/// 256; and VF is untouched whenever it is not itself the target
/// register (only `8xy4` sets the carry flag).
pub proof fn lemma_add_immediate(s: MState, x: int, kk: u8)
    requires
        wf_state(s),
        s.waiting is None,
        s.cpu.pc <= PC_LIMIT,
        0 <= x < 16,
        s.mem[s.cpu.pc as int] == (0x70 + x) as u8,
        s.mem[s.cpu.pc as int + 1] == kk,
    ensures
        spec_step(s) is Ok,
        ({
            let s2 = spec_step(s)->Ok_0;
            &&& s2.cpu.v == s.cpu.v.update(x, ((s.cpu.v[x] as int + kk as int) % 256) as u8)
            &&& (x != 15 ==> s2.cpu.v[15] == s.cpu.v[15])
            &&& s2.cpu.pc == s.cpu.pc + 2
            &&& s2.mem == s.mem
            &&& s2.pixels == s.pixels
        }),
{
    let op = opcode_at(s);
    assert(op == 0x7000 + x * 0x100 + kk);
    assert(op as int / 0x1000 == 7);
    assert(op_x(op) == x);
    assert(op_kk(op) == kk);
}

/// Law: the register-register add `8xy4` wraps its result modulo 256
/// and sets VF to 1 exactly when the unsigned sum exceeds 255, else to
/// 0 — the flag is written after the result, so it holds even when the
/// result register is VF itself.
pub proof fn lemma_add_registers(s: MState, x: int, y: int)
    requires
        wf_state(s),
        s.waiting is None,
        s.cpu.pc <= PC_LIMIT,
        0 <= x < 16,
        0 <= y < 16,
        s.mem[s.cpu.pc as int] == (0x80 + x) as u8,
        s.mem[s.cpu.pc as int + 1] == (y * 16 + 4) as u8,
    ensures
        spec_step(s) is Ok,
        ({
            let s2 = spec_step(s)->Ok_0;
            let sum = s.cpu.v[x] as int + s.cpu.v[y] as int;
            &&& s2.cpu.v == s.cpu.v.update(x, (sum % 256) as u8).update(
                15,
                if sum > 255 {
                    1u8
                } else {
                    0u8
                },
            )
            &&& (s2.cpu.v[15] == 1u8 <==> sum > 255)
            &&& s2.cpu.pc == s.cpu.pc + 2
        }),
{
    let op = opcode_at(s);
    assert(y * 16 + 4 < 256);
    assert(op == 0x8000 + x * 0x100 + y * 16 + 4);
    assert((0x8000 + x * 0x100 + y * 16 + 4) / 0x1000 == 8) by (nonlinear_arith)
        requires
            0 <= x < 16,
            0 <= y < 16,
    ;
    assert((0x8000 + x * 0x100 + y * 16 + 4) / 0x100 % 16 == x) by (nonlinear_arith)
        requires
            0 <= x < 16,
            0 <= y < 16,
    ;
    assert((0x8000 + x * 0x100 + y * 16 + 4) / 16 % 16 == y) by (nonlinear_arith)
        requires
            0 <= x < 16,
            0 <= y < 16,
    ;
    assert((0x8000 + x * 0x100 + y * 16 + 4) % 16 == 4) by (nonlinear_arith)
        requires
            0 <= x < 16,
            0 <= y < 16,
    ;
    assert(op as int / 0x1000 == 8);
    assert(op_x(op) == x);
    assert(op_y(op) == y);
    assert(op as int % 16 == 4);
}

} // verus!
