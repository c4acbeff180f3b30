use vstd::prelude::*;

use rand::Rng;

use crate::cpu::{Register, FLAG_REGISTER, PROGRAM_START};
use crate::display::{Display, SCREEN_PIXELS};
use crate::error::Chip8Error;
use crate::input::{Input, KEY_COUNT};
use crate::instruction::{decode, decode_spec, Instruction};
use crate::memory::{word_at, Memory, MEMORY_SIZE};

verus! {

/// Number of executed instructions per timer tick.
pub const TICKS_PER_TIMER_STEP: u8 = 10;

/// The whole machine state, as the instruction semantics sees it.
#[verifier::ext_equal]
pub struct Machine {
    /// The sixteen general registers.
    pub v: Seq<u8>,
    /// Index register.
    pub i: u16,
    /// Program counter.
    pub pc: u16,
    /// Stack depth as recorded in the register file.
    pub sp: u16,
    /// Delay timer.
    pub dt: u8,
    /// Sound timer.
    pub st: u8,
    /// The 4096 bytes of memory.
    pub ram: Seq<u8>,
    /// Return addresses, bottom first.
    pub stack: Seq<u16>,
    /// The 2048 pixel bytes.
    pub screen: Seq<u8>,
    /// The sixteen key states.
    pub keys: Seq<u8>,
    /// Instructions executed since the timers last ticked.
    pub tick: u8,
}

/// The program counter moved forward by `k` bytes, wrapping at 16 bits.
pub open spec fn advance(pc: u16, k: int) -> u16 {
    ((pc as int + k) % 0x10000) as u16
}

/// The next program counter: past the next instruction when `skip` holds.
pub open spec fn skip_if(pc: u16, skip: bool) -> u16 {
    advance(
        pc,
        if skip {
            4
        } else {
            2
        },
    )
}

/// The state of key `k`; a value with no key reads as released.
pub open spec fn key_state(keys: Seq<u8>, k: u8) -> u8 {
    if k < KEY_COUNT {
        keys[k as int]
    } else {
        0
    }
}

/// The highest-numbered pressed key among the first `n`.
pub open spec fn pressed_key(keys: Seq<u8>, n: nat) -> Option<u8>
    decreases n,
{
    if n == 0 {
        None
    } else if keys[n - 1] == 1 {
        Some((n - 1) as u8)
    } else {
        pressed_key(keys, (n - 1) as nat)
    }
}

/// Whether pixel `k` lies under a set bit of the `n`-row sprite stored at
/// `i` and placed with its top left corner at `(x0, y0)`; parts of the
/// sprite past the right or bottom edge are dropped.
pub open spec fn sprite_covers(ram: Seq<u8>, i: int, x0: int, y0: int, n: int, k: int) -> bool {
    let row = k / 64;
    let col = k % 64;
    y0 <= row < y0 + n && x0 <= col < x0 + 8 && ram[i + row - y0] & (0x80u8 >> ((col
        - x0) as u8)) != 0
}

/// The screen after the sprite is XOR-drawn on it.
pub open spec fn drawn(screen: Seq<u8>, ram: Seq<u8>, i: int, x0: int, y0: int, n: int) -> Seq<
    u8,
> {
    Seq::new(
        screen.len(),
        |k: int|
            if sprite_covers(ram, i, x0, y0, n, k) {
                !screen[k]
            } else {
                screen[k]
            },
    )
}

/// Whether drawing the sprite toggles a pixel that was on.
pub open spec fn collides(screen: Seq<u8>, ram: Seq<u8>, i: int, x0: int, y0: int, n: int) -> bool {
    exists|k: int| 0 <= k < screen.len() && #[trigger] sprite_covers(ram, i, x0, y0, n, k) && screen[k] != 0
}

/// Memory with the decimal digits of `a` at `i`, `i + 1` and `i + 2`.
pub open spec fn bcd(ram: Seq<u8>, i: int, a: u8) -> Seq<u8> {
    ram.update(i, a / 100).update(i + 1, (a / 10) % 10).update(i + 2, a % 10)
}

/// Memory with registers `0..=x` stored from `i` on.
pub open spec fn stored_regs(ram: Seq<u8>, i: int, v: Seq<u8>, x: int) -> Seq<u8> {
    Seq::new(ram.len(), |a: int| if i <= a <= i + x { v[a - i] } else { ram[a] })
}

/// Registers `0..=x` loaded from memory from `i` on.
pub open spec fn loaded_regs(v: Seq<u8>, ram: Seq<u8>, i: int, x: int) -> Seq<u8> {
    Seq::new(v.len(), |r: int| if r <= x { ram[i + r] } else { v[r] })
}

/// A blank screen.
pub open spec fn blank_screen() -> Seq<u8> {
    Seq::new(SCREEN_PIXELS as nat, |k: int| 0u8)
}

/// A 0/1 flag value.
pub open spec fn flag(b: bool) -> u8 {
    if b {
        1
    } else {
        0
    }
}

/// The effect of one instruction, including the program counter's move to
/// the instruction that runs next; `rnd` is the random byte that `Rnd`
/// uses.
pub open spec fn execute_spec(m: Machine, ins: Instruction, rnd: u8) -> Result<Machine, Chip8Error> {
    let next = advance(m.pc, 2);
    let f = FLAG_REGISTER as int;
    match ins {
        Instruction::Cls => Ok(Machine { screen: blank_screen(), pc: next, ..m }),
        Instruction::Ret => if m.stack.len() == 0 {
            Err(Chip8Error::StackUnderflow)
        } else {
            Ok(
                Machine {
                    pc: advance(m.stack.last(), 2),
                    stack: m.stack.drop_last(),
                    sp: (m.stack.len() - 1) as u16,
                    ..m
                },
            )
        },
        Instruction::Jp { nnn } => Ok(Machine { pc: nnn, ..m }),
        Instruction::Call { nnn } => if m.stack.len() >= 16 {
            Err(Chip8Error::StackOverflow)
        } else {
            Ok(
                Machine {
                    pc: nnn,
                    stack: m.stack.push(m.pc),
                    sp: (m.stack.len() + 1) as u16,
                    ..m
                },
            )
        },
        Instruction::SeByte { x, kk } => Ok(Machine { pc: skip_if(m.pc, m.v[x as int] == kk), ..m }),
        Instruction::SneByte { x, kk } => Ok(
            Machine { pc: skip_if(m.pc, m.v[x as int] != kk), ..m },
        ),
        Instruction::SeReg { x, y } => Ok(
            Machine { pc: skip_if(m.pc, m.v[x as int] == m.v[y as int]), ..m },
        ),
        Instruction::SneReg { x, y } => Ok(
            Machine { pc: skip_if(m.pc, m.v[x as int] != m.v[y as int]), ..m },
        ),
        Instruction::LdByte { x, kk } => Ok(Machine { v: m.v.update(x as int, kk), pc: next, ..m }),
        Instruction::AddByte { x, kk } => Ok(
            Machine {
                v: m.v.update(x as int, ((m.v[x as int] + kk) % 256) as u8),
                pc: next,
                ..m
            },
        ),
        Instruction::LdReg { x, y } => Ok(
            Machine { v: m.v.update(x as int, m.v[y as int]), pc: next, ..m },
        ),
        Instruction::Or { x, y } => Ok(
            Machine { v: m.v.update(x as int, m.v[x as int] | m.v[y as int]), pc: next, ..m },
        ),
        Instruction::And { x, y } => Ok(
            Machine { v: m.v.update(x as int, m.v[x as int] & m.v[y as int]), pc: next, ..m },
        ),
        Instruction::Xor { x, y } => Ok(
            Machine { v: m.v.update(x as int, m.v[x as int] ^ m.v[y as int]), pc: next, ..m },
        ),
        Instruction::AddReg { x, y } => {
            let s = m.v[x as int] + m.v[y as int];
            Ok(
                Machine {
                    v: m.v.update(f, flag(s > 255)).update(x as int, (s % 256) as u8),
                    pc: next,
                    ..m
                },
            )
        },
        Instruction::Sub { x, y } => {
            let (a, b) = (m.v[x as int], m.v[y as int]);
            Ok(
                Machine {
                    v: m.v.update(f, flag(a > b)).update(x as int, ((a - b) % 256) as u8),
                    pc: next,
                    ..m
                },
            )
        },
        Instruction::Shr { x, y } => {
            let a = m.v[x as int];
            Ok(Machine { v: m.v.update(f, a & 1).update(x as int, a >> 1u8), pc: next, ..m })
        },
        Instruction::Subn { x, y } => {
            let (a, b) = (m.v[x as int], m.v[y as int]);
            Ok(
                Machine {
                    v: m.v.update(f, flag(b > a)).update(x as int, ((b - a) % 256) as u8),
                    pc: next,
                    ..m
                },
            )
        },
        Instruction::Shl { x, y } => {
            let a = m.v[x as int];
            Ok(
                Machine {
                    v: m.v.update(f, flag(a & 7 == 1)).update(x as int, a << 1u8),
                    pc: next,
                    ..m
                },
            )
        },
        Instruction::LdI { nnn } => Ok(Machine { i: nnn, pc: next, ..m }),
        Instruction::JpV0 { nnn } => Ok(Machine { pc: (m.v[0] + nnn) as u16, ..m }),
        Instruction::Rnd { x, kk } => Ok(Machine { v: m.v.update(x as int, rnd & kk), pc: next, ..m }),
        Instruction::Drw { x, y, n } => if m.i + n > MEMORY_SIZE {
            Err(Chip8Error::AddressOutOfBounds)
        } else {
            let x0 = m.v[x as int] as int % 64;
            let y0 = m.v[y as int] as int % 32;
            Ok(
                Machine {
                    screen: drawn(m.screen, m.ram, m.i as int, x0, y0, n as int),
                    v: m.v.update(f, flag(collides(m.screen, m.ram, m.i as int, x0, y0, n as int))),
                    pc: next,
                    ..m
                },
            )
        },
        Instruction::Skp { x } => Ok(
            Machine { pc: skip_if(m.pc, key_state(m.keys, m.v[x as int]) == 1), ..m },
        ),
        Instruction::Sknp { x } => Ok(
            Machine { pc: skip_if(m.pc, key_state(m.keys, m.v[x as int]) == 0), ..m },
        ),
        Instruction::LdVxDt { x } => Ok(Machine { v: m.v.update(x as int, m.dt), pc: next, ..m }),
        Instruction::LdKey { x } => match pressed_key(m.keys, KEY_COUNT as nat) {
            Some(k) => Ok(Machine { v: m.v.update(x as int, k), pc: next, ..m }),
            None => Ok(m),
        },
        Instruction::LdDtVx { x } => Ok(Machine { dt: m.v[x as int], pc: next, ..m }),
        Instruction::LdStVx { x } => Ok(Machine { st: m.v[x as int], pc: next, ..m }),
        Instruction::AddI { x } => Ok(
            Machine { i: ((m.i + m.v[x as int]) % 0x10000) as u16, pc: next, ..m },
        ),
        Instruction::LdFont { x } => Ok(Machine { i: (m.v[x as int] * 5) as u16, pc: next, ..m }),
        Instruction::LdBcd { x } => if m.i + 3 > MEMORY_SIZE {
            Err(Chip8Error::AddressOutOfBounds)
        } else {
            Ok(Machine { ram: bcd(m.ram, m.i as int, m.v[x as int]), pc: next, ..m })
        },
        Instruction::StoreRegs { x } => if m.i + x + 1 > MEMORY_SIZE {
            Err(Chip8Error::AddressOutOfBounds)
        } else {
            Ok(Machine { ram: stored_regs(m.ram, m.i as int, m.v, x as int), pc: next, ..m })
        },
        Instruction::LoadRegs { x } => if m.i + x + 1 > MEMORY_SIZE {
            Err(Chip8Error::AddressOutOfBounds)
        } else {
            Ok(Machine { v: loaded_regs(m.v, m.ram, m.i as int, x as int), pc: next, ..m })
        },
    }
}

/// The timers' schedule: every tenth executed instruction each nonzero
/// timer goes down by one.
pub open spec fn tick_spec(m: Machine) -> Machine {
    if m.tick >= TICKS_PER_TIMER_STEP - 1 {
        Machine {
            tick: 0,
            dt: if m.dt > 0 { (m.dt - 1) as u8 } else { 0 },
            st: if m.st > 0 { (m.st - 1) as u8 } else { 0 },
            ..m
        }
    } else {
        Machine { tick: (m.tick + 1) as u8, ..m }
    }
}

/// One machine cycle: fetch the word at `pc`, decode it, execute it, then
/// advance the timer schedule.
pub open spec fn cycle_spec(m: Machine, rnd: u8) -> Result<Machine, Chip8Error> {
    if m.pc + 1 >= MEMORY_SIZE {
        Err(Chip8Error::AddressOutOfBounds)
    } else {
        match decode_spec(word_at(m.ram, m.pc as int)) {
            None => Err(Chip8Error::UnknownOpcode),
            Some(ins) => match execute_spec(m, ins, rnd) {
                Ok(m2) => Ok(tick_spec(m2)),
                Err(e) => Err(e),
            },
        }
    }
}

/// `r` is what `spec` asks for and, on success, the state became `post`.
pub open spec fn outcome_matches(
    spec: Result<Machine, Chip8Error>,
    post: Machine,
    r: Result<(), Chip8Error>,
) -> bool {
    match spec {
        Ok(m) => r == Ok::<(), Chip8Error>(()) && post == m,
        Err(e) => r == Err::<(), Chip8Error>(e),
    }
}

/// The interpreter: memory and call stack, registers, frame buffer, keypad
/// latch and the count of instructions since the timers last ticked.
#[derive(Debug, Clone, Copy)]
pub struct Emulator {
    /// Memory and call stack.
    pub memory: Memory,
    /// The register file.
    pub registers: Register,
    /// The frame buffer.
    pub display: Display,
    /// The keypad latch.
    pub input: Input,
    /// Instructions executed since the timers last ticked.
    pub tick_cnt: u8,
}

impl View for Emulator {
    type V = Machine;

    open spec fn view(&self) -> Machine {
        Machine {
            v: self.registers.regs(),
            i: self.registers.i,
            pc: self.registers.pc,
            sp: self.registers.sp,
            dt: self.registers.dt,
            st: self.registers.st,
            ram: self.memory.memory@,
            stack: self.memory.stack_view(),
            screen: self.display.memory@,
            keys: self.input.input@,
            tick: self.tick_cnt,
        }
    }
}

impl Emulator {
    /// The call stack's pointer is in range.
    pub open spec fn wf(&self) -> bool {
        self.memory.wf()
    }

    /// A machine at power-on: font in memory, the rest of memory zero, all
    /// registers zero but `pc` at the program region, blank screen, every
    /// key released, empty stack.
    pub fn new() -> (r: Self)
        ensures
            r.wf(),
            r@.v == Seq::new(16, |k: int| 0u8),
            r@.i == 0,
            r@.pc == PROGRAM_START,
            r@.sp == 0,
            r@.dt == 0,
            r@.st == 0,
            r@.ram.subrange(0, crate::memory::FONT_SIZE as int) == crate::memory::font_spec(),
            forall|a: int| crate::memory::FONT_SIZE <= a < MEMORY_SIZE ==> r@.ram[a] == 0,
            r@.stack == Seq::<u16>::empty(),
            r.memory.sp == crate::memory::EMPTY_STACK,
            r.memory.stack@ == Seq::new(crate::memory::STACK_SIZE as nat, |k: int| 0u16),
            r@.screen == blank_screen(),
            forall|k: int| 0 <= k < KEY_COUNT ==> r@.keys[k] == 0,
            r@.tick == 0,
    {
        Emulator {
            memory: Memory::new(),
            registers: Register::new(),
            display: Display::new(),
            input: Input::new(),
            tick_cnt: 0,
        }
    }

    /// Moves `pc` past this instruction, and past the next one too when
    /// `skip` holds.
    fn advance_pc(&mut self, skip: bool)
        ensures
            final(self)@ == (Machine { pc: skip_if(old(self)@.pc, skip), ..old(self)@ }),
            final(self).memory == old(self).memory,
    {
        let step: u16 = if skip {
            4
        } else {
            2
        };
        self.registers.pc = self.registers.pc.wrapping_add(step);
        assert(self@ =~= (Machine { pc: skip_if(old(self)@.pc, skip), ..old(self)@ }));
    }

    /// Returns from a subroutine.
    fn op_ret(&mut self) -> (r: Result<(), Chip8Error>)
        requires
            old(self).wf(),
        ensures
            final(self).wf(),
            outcome_matches(execute_spec(old(self)@, Instruction::Ret, 0), final(self)@, r),
    {
        let ghost pre = self@;
        match self.memory.pop() {
            Err(e) => Err(e),
            Ok(addr) => {
                self.registers.sp = self.memory.sp.wrapping_add(1) as u16;
                self.registers.pc = addr.wrapping_add(2);
                assert(self@.stack == pre.stack.drop_last());
                assert(self@.sp == (pre.stack.len() - 1) as u16);
                assert(self@.pc == advance(pre.stack.last(), 2));
                assert(self@ =~= execute_spec(pre, Instruction::Ret, 0)->Ok_0);
                Ok(())
            },
        }
    }

    /// Calls the subroutine at `nnn`.
    fn op_call(&mut self, nnn: u16) -> (r: Result<(), Chip8Error>)
        requires
            old(self).wf(),
        ensures
            final(self).wf(),
            outcome_matches(execute_spec(old(self)@, Instruction::Call { nnn }, 0), final(self)@, r),
    {
        let ghost pre = self@;
        match self.memory.push(self.registers.pc) {
            Err(e) => Err(e),
            Ok(()) => {
                assert(self.memory.stack_view().len() == self.memory.depth());
                self.registers.sp = (self.memory.sp + 1) as u16;
                self.registers.pc = nnn;
                assert(self@ =~= execute_spec(pre, Instruction::Call { nnn }, 0)->Ok_0);
                Ok(())
            },
        }
    }

    /// Writes register `x` and moves `pc` on.
    fn set_reg(&mut self, x: u8, val: u8)
        requires
            x < 16,
        ensures
            final(self)@ == (Machine {
                v: old(self)@.v.update(x as int, val),
                pc: advance(old(self)@.pc, 2),
                ..old(self)@
            }),
            final(self).memory == old(self).memory,
    {
        let ghost pre = self@;
        self.registers.reg_write(x, val);
        self.advance_pc(false);
        assert(self@ =~= (Machine { v: pre.v.update(x as int, val), pc: advance(pre.pc, 2), ..pre }));
    }

    /// Register loads, byte addition and the random byte.
    fn exec_load(&mut self, ins: Instruction, rnd: u8) -> (r: Result<(), Chip8Error>)
        requires
            old(self).wf(),
            ins.wf(),
            ins is LdByte || ins is AddByte || ins is LdReg || ins is Rnd,
        ensures
            final(self).wf(),
            outcome_matches(execute_spec(old(self)@, ins, rnd), final(self)@, r),
    {
        match ins {
            Instruction::LdByte { x, kk } => {
                self.set_reg(x, kk);
            },
            Instruction::AddByte { x, kk } => {
                let a = self.registers.reg_read(x);
                assert(a.wrapping_add(kk) == ((a + kk) % 256) as u8);
                self.set_reg(x, a.wrapping_add(kk));
            },
            Instruction::LdReg { x, y } => {
                let b = self.registers.reg_read(y);
                self.set_reg(x, b);
            },
            Instruction::Rnd { x, kk } => {
                self.set_reg(x, rnd & kk);
            },
            _ => {},
        }
        Ok(())
    }

    /// Bitwise logic between registers.
    fn exec_logic(&mut self, ins: Instruction) -> (r: Result<(), Chip8Error>)
        requires
            old(self).wf(),
            ins.wf(),
            ins is Or || ins is And || ins is Xor,
        ensures
            final(self).wf(),
            outcome_matches(execute_spec(old(self)@, ins, 0), final(self)@, r),
    {
        match ins {
            Instruction::Or { x, y } => {
                let a = self.registers.reg_read(x);
                let b = self.registers.reg_read(y);
                self.set_reg(x, a | b);
            },
            Instruction::And { x, y } => {
                let a = self.registers.reg_read(x);
                let b = self.registers.reg_read(y);
                self.set_reg(x, a & b);
            },
            Instruction::Xor { x, y } => {
                let a = self.registers.reg_read(x);
                let b = self.registers.reg_read(y);
                self.set_reg(x, a ^ b);
            },
            _ => {},
        }
        Ok(())
    }

    /// Writes the flag register and then register `x`, and moves `pc` on.
    fn set_flag_and_reg(&mut self, x: u8, f: u8, val: u8)
        requires
            x < 16,
        ensures
            final(self)@ == (Machine {
                v: old(self)@.v.update(FLAG_REGISTER as int, f).update(x as int, val),
                pc: advance(old(self)@.pc, 2),
                ..old(self)@
            }),
            final(self).memory == old(self).memory,
    {
        let ghost pre = self@;
        self.registers.reg_write(FLAG_REGISTER, f);
        self.registers.reg_write(x, val);
        self.advance_pc(false);
        assert(self@ =~= (Machine {
            v: pre.v.update(FLAG_REGISTER as int, f).update(x as int, val),
            pc: advance(pre.pc, 2),
            ..pre
        }));
    }

    /// `ADD Vx, Vy`: sum modulo 256 in `Vx`, carry in the flag register.
    fn op_add_reg(&mut self, x: u8, y: u8)
        requires
            x < 16,
            y < 16,
        ensures
            final(self).memory == old(self).memory,
            outcome_matches(execute_spec(old(self)@, Instruction::AddReg { x, y }, 0), final(self)@, Ok(())),
    {
        let a = self.registers.reg_read(x);
        let b = self.registers.reg_read(y);
        let carry: u8 = if a as u16 + b as u16 > 255 {
            1
        } else {
            0
        };
        assert(a.wrapping_add(b) == ((a + b) % 256) as u8);
        self.set_flag_and_reg(x, carry, a.wrapping_add(b));
    }

    /// `SUB Vx, Vy`: `Vx - Vy` modulo 256 in `Vx`, no-borrow in the flag register.
    fn op_sub(&mut self, x: u8, y: u8)
        requires
            x < 16,
            y < 16,
        ensures
            final(self).memory == old(self).memory,
            outcome_matches(execute_spec(old(self)@, Instruction::Sub { x, y }, 0), final(self)@, Ok(())),
    {
        let a = self.registers.reg_read(x);
        let b = self.registers.reg_read(y);
        let no_borrow: u8 = if a > b {
            1
        } else {
            0
        };
        assert(a.wrapping_sub(b) == ((a - b) % 256) as u8);
        self.set_flag_and_reg(x, no_borrow, a.wrapping_sub(b));
    }

    /// `SHR Vx`: `Vx` shifted right by one, the shifted-out bit in the flag
    /// register.
    fn op_shr(&mut self, x: u8, y: u8)
        requires
            x < 16,
            y < 16,
        ensures
            final(self).memory == old(self).memory,
            outcome_matches(execute_spec(old(self)@, Instruction::Shr { x, y }, 0), final(self)@, Ok(())),
    {
        let a = self.registers.reg_read(x);
        self.set_flag_and_reg(x, a & 1, a >> 1u8);
    }

    /// `SUBN Vx, Vy`: `Vy - Vx` modulo 256 in `Vx`, no-borrow in the flag register.
    fn op_subn(&mut self, x: u8, y: u8)
        requires
            x < 16,
            y < 16,
        ensures
            final(self).memory == old(self).memory,
            outcome_matches(execute_spec(old(self)@, Instruction::Subn { x, y }, 0), final(self)@, Ok(())),
    {
        let a = self.registers.reg_read(x);
        let b = self.registers.reg_read(y);
        let no_borrow: u8 = if b > a {
            1
        } else {
            0
        };
        assert(b.wrapping_sub(a) == ((b - a) % 256) as u8);
        self.set_flag_and_reg(x, no_borrow, b.wrapping_sub(a));
    }

    /// `SHL Vx`: `Vx` shifted left by one; the flag is set when `Vx & 7 == 1`.
    fn op_shl(&mut self, x: u8, y: u8)
        requires
            x < 16,
            y < 16,
        ensures
            final(self).memory == old(self).memory,
            outcome_matches(execute_spec(old(self)@, Instruction::Shl { x, y }, 0), final(self)@, Ok(())),
    {
        let a = self.registers.reg_read(x);
        let f: u8 = if a & 7 == 1 {
            1
        } else {
            0
        };
        self.set_flag_and_reg(x, f, a << 1u8);
    }

    /// The index register and the timers.
    #[verifier::rlimit(30)]
    fn exec_index_timer(&mut self, ins: Instruction) -> (r: Result<(), Chip8Error>)
        requires
            old(self).wf(),
            ins.wf(),
            ins is LdI || ins is LdVxDt || ins is LdDtVx || ins is LdStVx || ins is AddI
                || ins is LdFont,
        ensures
            final(self).wf(),
            outcome_matches(execute_spec(old(self)@, ins, 0), final(self)@, r),
    {
        let ghost pre = self@;
        match ins {
            Instruction::LdI { nnn } => {
                self.registers.i = nnn;
                self.advance_pc(false);
                assert(self@ =~= execute_spec(pre, ins, 0)->Ok_0);
            },
            Instruction::LdVxDt { x } => {
                let t = self.registers.dt;
                self.registers.reg_write(x, t);
                self.advance_pc(false);
                assert(self@ =~= execute_spec(pre, ins, 0)->Ok_0);
            },
            Instruction::LdDtVx { x } => {
                self.registers.dt = self.registers.reg_read(x);
                self.advance_pc(false);
                assert(self@ =~= execute_spec(pre, ins, 0)->Ok_0);
            },
            Instruction::LdStVx { x } => {
                self.registers.st = self.registers.reg_read(x);
                self.advance_pc(false);
                assert(self@ =~= execute_spec(pre, ins, 0)->Ok_0);
            },
            Instruction::AddI { x } => {
                let a = self.registers.reg_read(x) as u16;
                self.registers.i = self.registers.i.wrapping_add(a);
                self.advance_pc(false);
                assert(self@ =~= execute_spec(pre, ins, 0)->Ok_0);
            },
            Instruction::LdFont { x } => {
                self.registers.i = self.registers.reg_read(x) as u16 * 5;
                self.advance_pc(false);
                assert(self@ =~= execute_spec(pre, ins, 0)->Ok_0);
            },
            _ => {},
        }
        Ok(())
    }

    /// The state of key `k`; a value with no key reads as released.
    fn key_state(&self, k: u8) -> (r: u8)
        ensures
            r == key_state(self.input.input@, k),
    {
        if (k as usize) < KEY_COUNT {
            self.input.poll(k as usize)
        } else {
            0
        }
    }

    /// The keypad: conditional skips and the key wait.
    #[verifier::rlimit(30)]
    fn exec_keys(&mut self, ins: Instruction) -> (r: Result<(), Chip8Error>)
        requires
            old(self).wf(),
            ins.wf(),
            ins is Skp || ins is Sknp || ins is LdKey,
        ensures
            final(self).wf(),
            outcome_matches(execute_spec(old(self)@, ins, 0), final(self)@, r),
    {
        let ghost pre = self@;
        match ins {
            Instruction::Skp { x } => {
                let k = self.registers.reg_read(x);
                let skip = self.key_state(k) == 1;
                self.advance_pc(skip);
            },
            Instruction::Sknp { x } => {
                let k = self.registers.reg_read(x);
                let skip = self.key_state(k) == 0;
                self.advance_pc(skip);
            },
            Instruction::LdKey { x } => {
                let mut found: Option<u8> = None;
                let mut k: usize = 0;
                while k < KEY_COUNT
                    invariant
                        k <= KEY_COUNT,
                        self.input.input@.len() == KEY_COUNT,
                        found == pressed_key(self.input.input@, k as nat),
                    decreases KEY_COUNT - k,
                {
                    if self.input.poll(k) == 1 {
                        found = Some(k as u8);
                    }
                    k = k + 1;
                }
                match found {
                    Some(key) => {
                        self.registers.reg_write(x, key);
                        self.advance_pc(false);
                        assert(self@ =~= execute_spec(pre, ins, 0)->Ok_0);
                    },
                    None => {
                        assert(self@ =~= execute_spec(pre, ins, 0)->Ok_0);
                    },
                }
            },
            _ => {},
        }
        Ok(())
    }

    /// Memory transfers addressed by the index register.
    #[verifier::rlimit(30)]
    fn exec_transfer(&mut self, ins: Instruction) -> (r: Result<(), Chip8Error>)
        requires
            old(self).wf(),
            ins.wf(),
            ins is LdBcd || ins is StoreRegs || ins is LoadRegs,
        ensures
            final(self).wf(),
            outcome_matches(execute_spec(old(self)@, ins, 0), final(self)@, r),
    {
        let ghost pre = self@;
        let base = self.registers.i as usize;
        match ins {
            Instruction::LdBcd { x } => {
                if base + 3 > MEMORY_SIZE {
                    return Err(Chip8Error::AddressOutOfBounds);
                }
                let a = self.registers.reg_read(x);
                self.memory.memory[base] = a / 100;
                self.memory.memory[base + 1] = (a / 10) % 10;
                self.memory.memory[base + 2] = a % 10;
                self.advance_pc(false);
                assert(self@ =~= execute_spec(pre, ins, 0)->Ok_0);
            },
            Instruction::StoreRegs { x } => {
                if base + x as usize + 1 > MEMORY_SIZE {
                    return Err(Chip8Error::AddressOutOfBounds);
                }
                let mut r: u8 = 0;
                while r <= x
                    invariant
                        x < 16,
                        r <= x + 1,
                        base + x + 1 <= MEMORY_SIZE,
                        base == pre.i,
                        self.wf(),
                        self.registers == old(self).registers,
                        self.display == old(self).display,
                        self.input == old(self).input,
                        self.tick_cnt == old(self).tick_cnt,
                        self.memory.stack == old(self).memory.stack,
                        self.memory.sp == old(self).memory.sp,
                        pre == old(self)@,
                        self.memory.memory@.len() == MEMORY_SIZE,
                        forall|a: int|
                            0 <= a < MEMORY_SIZE ==> #[trigger] self.memory.memory@[a] == if base
                                <= a < base + r {
                                pre.v[a - base]
                            } else {
                                pre.ram[a]
                            },
                    decreases x + 1 - r,
                {
                    let val = self.registers.reg_read(r);
                    self.memory.memory[base + r as usize] = val;
                    r = r + 1;
                }
                self.advance_pc(false);
                assert(self.memory.memory@ =~= stored_regs(pre.ram, pre.i as int, pre.v, x as int));
                assert(self@ =~= execute_spec(pre, ins, 0)->Ok_0);
            },
            Instruction::LoadRegs { x } => {
                if base + x as usize + 1 > MEMORY_SIZE {
                    return Err(Chip8Error::AddressOutOfBounds);
                }
                let mut r: u8 = 0;
                while r <= x
                    invariant
                        x < 16,
                        r <= x + 1,
                        base + x + 1 <= MEMORY_SIZE,
                        base == pre.i,
                        self.memory == old(self).memory,
                        self.display == old(self).display,
                        self.input == old(self).input,
                        self.tick_cnt == old(self).tick_cnt,
                        pre == old(self)@,
                        self.registers.i == pre.i,
                        self.registers.pc == pre.pc,
                        self.registers.sp == pre.sp,
                        self.registers.dt == pre.dt,
                        self.registers.st == pre.st,
                        self.registers.regs() == Seq::new(
                            16,
                            |q: int|
                                if q < r {
                                    pre.ram[base + q]
                                } else {
                                    pre.v[q]
                                },
                        ),
                    decreases x + 1 - r,
                {
                    let val = self.memory.memory[base + r as usize];
                    self.registers.reg_write(r, val);
                    assert(self.registers.regs() =~= Seq::new(
                        16,
                        |q: int|
                            if q < r + 1 {
                                pre.ram[base + q]
                            } else {
                                pre.v[q]
                            },
                    ));
                    r = r + 1;
                }
                self.advance_pc(false);
                assert(self.registers.regs() =~= loaded_regs(pre.v, pre.ram, pre.i as int, x as int));
                assert(self@ =~= execute_spec(pre, ins, 0)->Ok_0);
            },
            _ => {},
        }
        Ok(())
    }

    /// Draws the `n`-row sprite stored at `I` at `(Vx, Vy)`, recording a
    /// collision in the flag register.
    #[verifier::rlimit(30)]
    fn exec_draw(&mut self, x: u8, y: u8, n: u8) -> (r: Result<(), Chip8Error>)
        requires
            old(self).wf(),
            x < 16,
            y < 16,
            n < 16,
        ensures
            final(self).wf(),
            outcome_matches(execute_spec(old(self)@, Instruction::Drw { x, y, n }, 0), final(self)@, r),
    {
        let ghost pre = self@;
        let base = self.registers.i as usize;
        if base + n as usize > MEMORY_SIZE {
            return Err(Chip8Error::AddressOutOfBounds);
        }
        let x0 = (self.registers.reg_read(x) % 64) as usize;
        let y0 = (self.registers.reg_read(y) % 32) as usize;
        let ghost target = drawn(pre.screen, pre.ram, base as int, x0 as int, y0 as int, n as int);
        let mut collision = false;
        let mut k: usize = 0;
        while k < SCREEN_PIXELS
            invariant
                k <= SCREEN_PIXELS,
                base + n <= MEMORY_SIZE,
                x0 < 64,
                y0 < 32,
                self.wf(),
                pre == old(self)@,
                self.registers == old(self).registers,
                self.memory == old(self).memory,
                self.input == old(self).input,
                self.tick_cnt == old(self).tick_cnt,
                pre.screen.len() == SCREEN_PIXELS,
                pre.ram.len() == MEMORY_SIZE,
                target == drawn(pre.screen, pre.ram, base as int, x0 as int, y0 as int, n as int),
                self.display.memory@.len() == SCREEN_PIXELS,
                forall|a: int|
                    0 <= a < SCREEN_PIXELS ==> #[trigger] self.display.memory@[a] == if a < k {
                        target[a]
                    } else {
                        pre.screen[a]
                    },
                collision ==> exists|a: int|
                    0 <= a < k && #[trigger] sprite_covers(
                        pre.ram,
                        base as int,
                        x0 as int,
                        y0 as int,
                        n as int,
                        a,
                    ) && pre.screen[a] != 0,
                !collision ==> forall|a: int|
                    0 <= a < k ==> !(#[trigger] sprite_covers(
                        pre.ram,
                        base as int,
                        x0 as int,
                        y0 as int,
                        n as int,
                        a,
                    ) && pre.screen[a] != 0),
            decreases SCREEN_PIXELS - k,
        {
            let row = k / 64;
            let col = k % 64;
            let ghost covers = sprite_covers(pre.ram, base as int, x0 as int, y0 as int, n as int, k as int);
            if y0 <= row && row < y0 + n as usize && x0 <= col && col < x0 + 8 {
                let bits = self.memory.memory[base + row - y0];
                if bits & (0x80u8 >> ((col - x0) as u8)) != 0 {
                    let old_px = self.display.memory[k];
                    if old_px != 0 {
                        collision = true;
                    }
                    self.display.memory[k] = !old_px;
                } else {
                    assert(!covers);
                }
            } else {
                assert(!covers);
            }
            k = k + 1;
        }
        assert(self.display.memory@ =~= target);
        assert(collision == collides(pre.screen, pre.ram, base as int, x0 as int, y0 as int, n as int));
        let f: u8 = if collision {
            1
        } else {
            0
        };
        self.registers.reg_write(FLAG_REGISTER, f);
        self.advance_pc(false);
        assert(self@ =~= execute_spec(pre, Instruction::Drw { x, y, n }, 0)->Ok_0);
        Ok(())
    }

    /// Executes one decoded instruction; `rnd` is the random byte that
    /// `Rnd` uses.
    #[verifier::rlimit(30)]
    pub fn execute(&mut self, ins: Instruction, rnd: u8) -> (r: Result<(), Chip8Error>)
        requires
            old(self).wf(),
            ins.wf(),
        ensures
            final(self).wf(),
            outcome_matches(execute_spec(old(self)@, ins, rnd), final(self)@, r),
    {
        match ins {
            Instruction::Cls | Instruction::Ret | Instruction::Jp { .. } | Instruction::Call { .. }
            | Instruction::SeByte { .. } | Instruction::SneByte { .. } | Instruction::SeReg { .. }
            | Instruction::SneReg { .. } | Instruction::JpV0 { .. } => {
                assert(execute_spec(self@, ins, 0) == execute_spec(self@, ins, rnd));
                self.exec_control(ins)
            },
            Instruction::LdByte { .. } | Instruction::AddByte { .. } | Instruction::LdReg { .. }
            | Instruction::Rnd { .. } => self.exec_load(ins, rnd),
            Instruction::Or { .. } | Instruction::And { .. } | Instruction::Xor { .. } => {
                assert(execute_spec(self@, ins, 0) == execute_spec(self@, ins, rnd));
                self.exec_logic(ins)
            },
            Instruction::AddReg { x, y } => {
                assert(execute_spec(self@, ins, 0) == execute_spec(self@, ins, rnd));
                self.op_add_reg(x, y);
                Ok(())
            },
            Instruction::Sub { x, y } => {
                assert(execute_spec(self@, ins, 0) == execute_spec(self@, ins, rnd));
                self.op_sub(x, y);
                Ok(())
            },
            Instruction::Shr { x, y } => {
                assert(execute_spec(self@, ins, 0) == execute_spec(self@, ins, rnd));
                self.op_shr(x, y);
                Ok(())
            },
            Instruction::Subn { x, y } => {
                assert(execute_spec(self@, ins, 0) == execute_spec(self@, ins, rnd));
                self.op_subn(x, y);
                Ok(())
            },
            Instruction::Shl { x, y } => {
                assert(execute_spec(self@, ins, 0) == execute_spec(self@, ins, rnd));
                self.op_shl(x, y);
                Ok(())
            },
            Instruction::Drw { x, y, n } => {
                assert(execute_spec(self@, ins, 0) == execute_spec(self@, ins, rnd));
                self.exec_draw(x, y, n)
            },
            Instruction::Skp { .. } | Instruction::Sknp { .. } | Instruction::LdKey { .. } => {
                assert(execute_spec(self@, ins, 0) == execute_spec(self@, ins, rnd));
                self.exec_keys(ins)
            },
            Instruction::LdI { .. } | Instruction::LdVxDt { .. } | Instruction::LdDtVx { .. }
            | Instruction::LdStVx { .. } | Instruction::AddI { .. } | Instruction::LdFont { .. } => {
                assert(execute_spec(self@, ins, 0) == execute_spec(self@, ins, rnd));
                self.exec_index_timer(ins)
            },
            Instruction::LdBcd { .. } | Instruction::StoreRegs { .. }
            | Instruction::LoadRegs { .. } => {
                assert(execute_spec(self@, ins, 0) == execute_spec(self@, ins, rnd));
                self.exec_transfer(ins)
            },
        }
    }

    /// Decodes `inst` and executes it.
    pub fn execute_instruction(&mut self, inst: u16, rnd: u8) -> (r: Result<(), Chip8Error>)
        requires
            old(self).wf(),
        ensures
            final(self).wf(),
            decode_spec(inst) is None ==> r == Err::<(), Chip8Error>(Chip8Error::UnknownOpcode)
                && *final(self) == *old(self),
            decode_spec(inst) matches Some(ins) ==> outcome_matches(
                execute_spec(old(self)@, ins, rnd),
                final(self)@,
                r,
            ),
    {
        match decode(inst) {
            None => Err(Chip8Error::UnknownOpcode),
            Some(ins) => self.execute(ins, rnd),
        }
    }

    /// Advances the timer schedule by one executed instruction: on every
    /// tenth, each nonzero timer goes down by one.
    pub fn update_timers(&mut self)
        ensures
            final(self)@ == tick_spec(old(self)@),
            final(self).memory == old(self).memory,
    {
        if self.tick_cnt >= TICKS_PER_TIMER_STEP - 1 {
            if self.registers.dt > 0 {
                self.registers.dt = self.registers.dt - 1;
            }
            if self.registers.st > 0 {
                self.registers.st = self.registers.st - 1;
            }
            self.tick_cnt = 0;
        } else {
            self.tick_cnt = self.tick_cnt + 1;
        }
        assert(self@ =~= tick_spec(old(self)@));
    }

    /// One machine cycle: fetch the instruction at `pc`, execute it with
    /// `rnd` as its random byte, then advance the timer schedule.
    pub fn cycle(&mut self, rnd: u8) -> (r: Result<(), Chip8Error>)
        requires
            old(self).wf(),
        ensures
            final(self).wf(),
            outcome_matches(cycle_spec(old(self)@, rnd), final(self)@, r),
    {
        let inst = self.memory.read_inst(self.registers.pc as usize)?;
        self.execute_instruction(inst, rnd)?;
        self.update_timers();
        Ok(())
    }

    /// One machine cycle with a freshly drawn random byte for `Rnd`.
    pub fn step(&mut self) -> (r: Result<(), Chip8Error>)
        requires
            old(self).wf(),
        ensures
            final(self).wf(),
            exists|b: u8| outcome_matches(cycle_spec(old(self)@, b), final(self)@, r),
    {
        let rnd = random_byte();
        self.cycle(rnd)
    }

    /// Control flow: jumps, calls, returns and conditional skips.
    #[verifier::rlimit(30)]
    fn exec_control(&mut self, ins: Instruction) -> (r: Result<(), Chip8Error>)
        requires
            old(self).wf(),
            ins.wf(),
            ins is Cls || ins is Ret || ins is Jp || ins is Call || ins is SeByte || ins is SneByte
                || ins is SeReg || ins is SneReg || ins is JpV0,
        ensures
            final(self).wf(),
            outcome_matches(execute_spec(old(self)@, ins, 0), final(self)@, r),
    {
        let ghost pre = self@;
        match ins {
            Instruction::Cls => {
                self.display.clear();
                self.advance_pc(false);
                assert(self@ =~= execute_spec(pre, ins, 0)->Ok_0);
                Ok(())
            },
            Instruction::Ret => self.op_ret(),
            Instruction::Jp { nnn } => {
                self.registers.pc = nnn;
                assert(self@ =~= execute_spec(pre, ins, 0)->Ok_0);
                Ok(())
            },
            Instruction::Call { nnn } => self.op_call(nnn),
            Instruction::SeByte { x, kk } => {
                let skip = self.registers.reg_read(x) == kk;
                self.advance_pc(skip);
                Ok(())
            },
            Instruction::SneByte { x, kk } => {
                let skip = self.registers.reg_read(x) != kk;
                self.advance_pc(skip);
                Ok(())
            },
            Instruction::SeReg { x, y } => {
                let skip = self.registers.reg_read(x) == self.registers.reg_read(y);
                self.advance_pc(skip);
                Ok(())
            },
            Instruction::SneReg { x, y } => {
                let skip = self.registers.reg_read(x) != self.registers.reg_read(y);
                self.advance_pc(skip);
                Ok(())
            },
            Instruction::JpV0 { nnn } => {
                self.registers.pc = self.registers.v0 as u16 + nnn;
                assert(self@ =~= execute_spec(pre, ins, 0)->Ok_0);
                Ok(())
            },
            _ => Ok(()),
        }
    }
}

/// Relies on rand's `thread_rng` and `Rng::gen_range` over the non-empty
/// range `0..=255`: some byte, of which nothing more is known.
#[verifier::external_body]
fn random_byte() -> (r: u8) {
    rand::thread_rng().gen_range(0..=255u8)
}

/// `ADD Vx, Vy` (with `x` not the flag register) leaves the sum modulo 256
/// in `Vx` and sets the flag exactly when the sum exceeds 255.
pub proof fn lemma_add_carry(m: Machine, x: u8, y: u8, rnd: u8)
    requires
        m.v.len() == 16,
        x < 15,
        y < 16,
    ensures
        execute_spec(m, Instruction::AddReg { x, y }, rnd) is Ok,
        ({
            let post = execute_spec(m, Instruction::AddReg { x, y }, rnd)->Ok_0;
            &&& post.v[x as int] as int == (m.v[x as int] + m.v[y as int]) % 256
            &&& (post.v[FLAG_REGISTER as int] == 1) == (m.v[x as int] + m.v[y as int] > 255)
            &&& (post.v[FLAG_REGISTER as int] == 0) == (m.v[x as int] + m.v[y as int] <= 255)
        }),
{
}

/// `SUB Vx, Vy` (with `x` not the flag register) leaves the difference
/// modulo 256 in `Vx` and sets the flag exactly when `Vx > Vy`.
pub proof fn lemma_sub_borrow(m: Machine, x: u8, y: u8, rnd: u8)
    requires
        m.v.len() == 16,
        x < 15,
        y < 16,
    ensures
        execute_spec(m, Instruction::Sub { x, y }, rnd) is Ok,
        ({
            let post = execute_spec(m, Instruction::Sub { x, y }, rnd)->Ok_0;
            &&& post.v[x as int] as int == (m.v[x as int] - m.v[y as int]) % 256
            &&& (post.v[FLAG_REGISTER as int] == 1) == (m.v[x as int] > m.v[y as int])
            &&& (post.v[FLAG_REGISTER as int] == 0) == (m.v[x as int] <= m.v[y as int])
        }),
{
}

/// Clearing the screen leaves every pixel off.
pub proof fn lemma_cls_blanks(m: Machine, rnd: u8)
    ensures
        execute_spec(m, Instruction::Cls, rnd) is Ok,
        forall|k: int|
            0 <= k < SCREEN_PIXELS ==> (#[trigger] execute_spec(m, Instruction::Cls, rnd)->Ok_0.screen[k])
                == 0,
        execute_spec(m, Instruction::Cls, rnd)->Ok_0.screen.len() == SCREEN_PIXELS,
{
}

/// A jump, together with the program counter's own move, leaves `pc` at
/// the jump target whatever `pc` was before, and changes nothing else.
pub proof fn lemma_jump_lands(m: Machine, nnn: u16, rnd: u8)
    ensures
        execute_spec(m, Instruction::Jp { nnn }, rnd) == Ok::<Machine, Chip8Error>(
            Machine { pc: nnn, ..m },
        ),
{
}

/// The state after `k` steps of the timer schedule.
pub open spec fn ticks(m: Machine, k: nat) -> Machine
    decreases k,
{
    if k == 0 {
        m
    } else {
        tick_spec(ticks(m, (k - 1) as nat))
    }
}

/// From a fresh schedule, the timers keep their values through the first
/// nine executed instructions and go down by one (if nonzero) at the tenth.
pub proof fn lemma_timer_period(m: Machine, k: nat)
    requires
        m.tick == 0,
        k <= TICKS_PER_TIMER_STEP,
    ensures
        k < TICKS_PER_TIMER_STEP ==> ticks(m, k).dt == m.dt && ticks(m, k).st == m.st
            && ticks(m, k).tick == k,
        k == TICKS_PER_TIMER_STEP ==> ticks(m, k).dt == (if m.dt > 0 { (m.dt - 1) as u8 } else { 0u8 })
            && ticks(m, k).st == (if m.st > 0 { (m.st - 1) as u8 } else { 0u8 })
            && ticks(m, k).tick == 0,
    decreases k,
{
    if k > 0 {
        lemma_timer_period(m, (k - 1) as nat);
    }
}

} // verus!
