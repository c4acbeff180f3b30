use vstd::prelude::*;

verus! {

/// Address at which execution starts.
pub const PROGRAM_START: u16 = 0x200;

/// Index of the flag register.
pub const FLAG_REGISTER: u8 = 15;

/// The register file: sixteen general byte registers (the last one doubles
/// as the flag register), the two timers, the index register, the program
/// counter and the stack depth.
#[derive(Debug, Clone, Copy)]
pub struct Register {
    pub v0: u8,
    pub v1: u8,
    pub v2: u8,
    pub v3: u8,
    pub v4: u8,
    pub v5: u8,
    pub v6: u8,
    pub v7: u8,
    pub v8: u8,
    pub v9: u8,
    pub va: u8,
    pub vb: u8,
    pub vc: u8,
    pub vd: u8,
    pub ve: u8,
    pub vf: u8,
    /// Delay timer.
    pub dt: u8,
    /// Sound timer.
    pub st: u8,
    /// Index register, used as a memory pointer.
    pub i: u16,
    /// Program counter.
    pub pc: u16,
    /// Number of return addresses on the call stack.
    pub sp: u16,
}

impl Register {
    /// The general register `r`.
    pub open spec fn v(&self, r: int) -> u8 {
        if r == 0 {
            self.v0
        } else if r == 1 {
            self.v1
        } else if r == 2 {
            self.v2
        } else if r == 3 {
            self.v3
        } else if r == 4 {
            self.v4
        } else if r == 5 {
            self.v5
        } else if r == 6 {
            self.v6
        } else if r == 7 {
            self.v7
        } else if r == 8 {
            self.v8
        } else if r == 9 {
            self.v9
        } else if r == 10 {
            self.va
        } else if r == 11 {
            self.vb
        } else if r == 12 {
            self.vc
        } else if r == 13 {
            self.vd
        } else if r == 14 {
            self.ve
        } else {
            self.vf
        }
    }

    /// The sixteen general registers, in index order.
    pub open spec fn regs(&self) -> Seq<u8> {
        Seq::new(16, |r: int| self.v(r))
    }

    /// All registers zero, execution starting at the program region.
    pub fn new() -> (r: Self)
        ensures
            r.regs() == Seq::new(16, |k: int| 0u8),
            r.dt == 0,
            r.st == 0,
            r.i == 0,
            r.pc == PROGRAM_START,
            r.sp == 0,
    {
        let r = Register {
            v0: 0,
            v1: 0,
            v2: 0,
            v3: 0,
            v4: 0,
            v5: 0,
            v6: 0,
            v7: 0,
            v8: 0,
            v9: 0,
            va: 0,
            vb: 0,
            vc: 0,
            vd: 0,
            ve: 0,
            vf: 0,
            dt: 0,
            st: 0,
            i: 0,
            pc: PROGRAM_START,
            sp: 0,
        };
        assert(r.regs() =~= Seq::new(16, |k: int| 0u8));
        r
    }

    /// Writes `val` to general register `reg`.
    pub fn reg_write(&mut self, reg: u8, val: u8)
        requires
            reg < 16,
        ensures
            final(self).regs() == old(self).regs().update(reg as int, val),
            final(self).dt == old(self).dt,
            final(self).st == old(self).st,
            final(self).i == old(self).i,
            final(self).pc == old(self).pc,
            final(self).sp == old(self).sp,
    {
        match reg {
            0 => self.v0 = val,
            1 => self.v1 = val,
            2 => self.v2 = val,
            3 => self.v3 = val,
            4 => self.v4 = val,
            5 => self.v5 = val,
            6 => self.v6 = val,
            7 => self.v7 = val,
            8 => self.v8 = val,
            9 => self.v9 = val,
            10 => self.va = val,
            11 => self.vb = val,
            12 => self.vc = val,
            13 => self.vd = val,
            14 => self.ve = val,
            _ => self.vf = val,
        }
        assert(self.regs() =~= old(self).regs().update(reg as int, val));
    }

    /// Reads general register `reg`.
    pub fn reg_read(&self, reg: u8) -> (r: u8)
        requires
            reg < 16,
        ensures
            r == self.regs()[reg as int],
    {
        match reg {
            0 => self.v0,
            1 => self.v1,
            2 => self.v2,
            3 => self.v3,
            4 => self.v4,
            5 => self.v5,
            6 => self.v6,
            7 => self.v7,
            8 => self.v8,
            9 => self.v9,
            10 => self.va,
            11 => self.vb,
            12 => self.vc,
            13 => self.vd,
            14 => self.ve,
            _ => self.vf,
        }
    }
}

} // verus!
