use vstd::prelude::*;

verus! {

/// One decoded instruction. `x` and `y` name general registers, `n` is a
/// 4-bit count, `kk` a byte and `nnn` a 12-bit address.
#[derive(Debug, Clone, Copy, PartialEq, Eq, Structural)]
pub enum Instruction {
    /// 00E0: clear the screen.
    Cls,
    /// 00EE: return from a subroutine.
    Ret,
    /// 1nnn: jump to `nnn`.
    Jp { nnn: u16 },
    /// 2nnn: call the subroutine at `nnn`.
    Call { nnn: u16 },
    /// 3xkk: skip the next instruction if `Vx == kk`.
    SeByte { x: u8, kk: u8 },
    /// 4xkk: skip the next instruction if `Vx != kk`.
    SneByte { x: u8, kk: u8 },
    /// 5xy_: skip the next instruction if `Vx == Vy`.
    SeReg { x: u8, y: u8 },
    /// 6xkk: `Vx = kk`.
    LdByte { x: u8, kk: u8 },
    /// 7xkk: `Vx = Vx + kk`, wrapping, flag untouched.
    AddByte { x: u8, kk: u8 },
    /// 8xy0: `Vx = Vy`.
    LdReg { x: u8, y: u8 },
    /// 8xy1: `Vx = Vx | Vy`.
    Or { x: u8, y: u8 },
    /// 8xy2: `Vx = Vx & Vy`.
    And { x: u8, y: u8 },
    /// 8xy3: `Vx = Vx ^ Vy`.
    Xor { x: u8, y: u8 },
    /// 8xy4: `Vx = Vx + Vy`, carry in the flag register.
    AddReg { x: u8, y: u8 },
    /// 8xy5: `Vx = Vx - Vy`, no-borrow in the flag register.
    Sub { x: u8, y: u8 },
    /// 8xy6: `Vx = Vx >> 1`, shifted-out bit in the flag register.
    Shr { x: u8, y: u8 },
    /// 8xy7: `Vx = Vy - Vx`, no-borrow in the flag register.
    Subn { x: u8, y: u8 },
    /// 8xyE: `Vx = Vx << 1`; the flag is set when `Vx & 7 == 1`.
    Shl { x: u8, y: u8 },
    /// 9xy_: skip the next instruction if `Vx != Vy`.
    SneReg { x: u8, y: u8 },
    /// Annn: `I = nnn`.
    LdI { nnn: u16 },
    /// Bnnn: jump to `V0 + nnn`.
    JpV0 { nnn: u16 },
    /// Cxkk: `Vx = random byte & kk`.
    Rnd { x: u8, kk: u8 },
    /// Dxyn: draw the `n`-row sprite at `I` at `(Vx, Vy)`.
    Drw { x: u8, y: u8, n: u8 },
    /// Ex9E: skip the next instruction if key `Vx` is pressed.
    Skp { x: u8 },
    /// ExA1: skip the next instruction if key `Vx` is not pressed.
    Sknp { x: u8 },
    /// Fx07: `Vx = DT`.
    LdVxDt { x: u8 },
    /// Fx0A: wait for a key press and store the key in `Vx`.
    LdKey { x: u8 },
    /// Fx15: `DT = Vx`.
    LdDtVx { x: u8 },
    /// Fx18: `ST = Vx`.
    LdStVx { x: u8 },
    /// Fx1E: `I = I + Vx`, wrapping at 16 bits.
    AddI { x: u8 },
    /// Fx29: `I` = address of the font glyph for `Vx`.
    LdFont { x: u8 },
    /// Fx33: store the three decimal digits of `Vx` at `I`, `I+1`, `I+2`.
    LdBcd { x: u8 },
    /// Fx55: store `V0..=Vx` in memory from `I` on.
    StoreRegs { x: u8 },
    /// Fx65: load `V0..=Vx` from memory from `I` on.
    LoadRegs { x: u8 },
}

/// Bits 8 to 11 of an opcode.
pub open spec fn op_x(op: u16) -> u8 {
    ((op >> 8u16) & 0xfu16) as u8
}

/// Bits 4 to 7 of an opcode.
pub open spec fn op_y(op: u16) -> u8 {
    ((op >> 4u16) & 0xfu16) as u8
}

/// Bits 0 to 3 of an opcode.
pub open spec fn op_n(op: u16) -> u8 {
    (op & 0xfu16) as u8
}

/// Bits 0 to 7 of an opcode.
pub open spec fn op_kk(op: u16) -> u8 {
    (op & 0xffu16) as u8
}

/// Bits 0 to 11 of an opcode.
pub open spec fn op_nnn(op: u16) -> u16 {
    op & 0xfffu16
}

/// The instruction that an opcode encodes, grouped on its top nibble and
/// then on its low nibble or byte; `None` for a pattern with no meaning.
pub open spec fn decode_spec(op: u16) -> Option<Instruction> {
    let x = op_x(op);
    let y = op_y(op);
    let n = op_n(op);
    let kk = op_kk(op);
    let nnn = op_nnn(op);
    let top = op >> 12u16;
    if top == 0x0 {
        if kk == 0xe0 {
            Some(Instruction::Cls)
        } else if kk == 0xee {
            Some(Instruction::Ret)
        } else {
            None
        }
    } else if top == 0x1 {
        Some(Instruction::Jp { nnn })
    } else if top == 0x2 {
        Some(Instruction::Call { nnn })
    } else if top == 0x3 {
        Some(Instruction::SeByte { x, kk })
    } else if top == 0x4 {
        Some(Instruction::SneByte { x, kk })
    } else if top == 0x5 {
        Some(Instruction::SeReg { x, y })
    } else if top == 0x6 {
        Some(Instruction::LdByte { x, kk })
    } else if top == 0x7 {
        Some(Instruction::AddByte { x, kk })
    } else if top == 0x8 {
        if n == 0x0 {
            Some(Instruction::LdReg { x, y })
        } else if n == 0x1 {
            Some(Instruction::Or { x, y })
        } else if n == 0x2 {
            Some(Instruction::And { x, y })
        } else if n == 0x3 {
            Some(Instruction::Xor { x, y })
        } else if n == 0x4 {
            Some(Instruction::AddReg { x, y })
        } else if n == 0x5 {
            Some(Instruction::Sub { x, y })
        } else if n == 0x6 {
            Some(Instruction::Shr { x, y })
        } else if n == 0x7 {
            Some(Instruction::Subn { x, y })
        } else if n == 0xe {
            Some(Instruction::Shl { x, y })
        } else {
            None
        }
    } else if top == 0x9 {
        Some(Instruction::SneReg { x, y })
    } else if top == 0xa {
        Some(Instruction::LdI { nnn })
    } else if top == 0xb {
        Some(Instruction::JpV0 { nnn })
    } else if top == 0xc {
        Some(Instruction::Rnd { x, kk })
    } else if top == 0xd {
        Some(Instruction::Drw { x, y, n })
    } else if top == 0xe {
        if kk == 0x9e {
            Some(Instruction::Skp { x })
        } else if kk == 0xa1 {
            Some(Instruction::Sknp { x })
        } else {
            None
        }
    } else if kk == 0x07 {
        Some(Instruction::LdVxDt { x })
    } else if kk == 0x0a {
        Some(Instruction::LdKey { x })
    } else if kk == 0x15 {
        Some(Instruction::LdDtVx { x })
    } else if kk == 0x18 {
        Some(Instruction::LdStVx { x })
    } else if kk == 0x1e {
        Some(Instruction::AddI { x })
    } else if kk == 0x29 {
        Some(Instruction::LdFont { x })
    } else if kk == 0x33 {
        Some(Instruction::LdBcd { x })
    } else if kk == 0x55 {
        Some(Instruction::StoreRegs { x })
    } else if kk == 0x65 {
        Some(Instruction::LoadRegs { x })
    } else {
        None
    }
}

impl Instruction {
    /// Register operands name one of the sixteen registers, counts fit in
    /// four bits and addresses in twelve.
    pub open spec fn wf(&self) -> bool {
        match *self {
            Instruction::Cls | Instruction::Ret => true,
            Instruction::Jp { nnn } | Instruction::Call { nnn } | Instruction::LdI { nnn }
            | Instruction::JpV0 { nnn } => nnn < 0x1000,
            Instruction::SeByte { x, .. } | Instruction::SneByte { x, .. }
            | Instruction::LdByte { x, .. } | Instruction::AddByte { x, .. }
            | Instruction::Rnd { x, .. } | Instruction::Skp { x } | Instruction::Sknp { x }
            | Instruction::LdVxDt { x } | Instruction::LdKey { x } | Instruction::LdDtVx { x }
            | Instruction::LdStVx { x } | Instruction::AddI { x } | Instruction::LdFont { x }
            | Instruction::LdBcd { x } | Instruction::StoreRegs { x }
            | Instruction::LoadRegs { x } => x < 16,
            Instruction::SeReg { x, y } | Instruction::LdReg { x, y } | Instruction::Or { x, y }
            | Instruction::And { x, y } | Instruction::Xor { x, y } | Instruction::AddReg { x, y }
            | Instruction::Sub { x, y } | Instruction::Shr { x, y } | Instruction::Subn { x, y }
            | Instruction::Shl { x, y } | Instruction::SneReg { x, y } => x < 16 && y < 16,
            Instruction::Drw { x, y, n } => x < 16 && y < 16 && n < 16,
        }
    }
}

/// Operand fields fit their widths.
proof fn lemma_operand_widths(op: u16)
    ensures
        op_x(op) < 16,
        op_y(op) < 16,
        op_n(op) < 16,
        op_nnn(op) < 0x1000,
{
    assert((op >> 8u16) & 0xfu16 < 16) by (bit_vector);
    assert((op >> 4u16) & 0xfu16 < 16) by (bit_vector);
    assert(op & 0xfu16 < 16) by (bit_vector);
    assert(op & 0xfffu16 < 0x1000) by (bit_vector);
}

/// Decodes a 16-bit opcode.
pub fn decode(op: u16) -> (r: Option<Instruction>)
    ensures
        r == decode_spec(op),
        r matches Some(ins) ==> ins.wf(),
{
    proof {
        lemma_operand_widths(op);
    }
    let x = ((op >> 8u16) & 0xfu16) as u8;
    let y = ((op >> 4u16) & 0xfu16) as u8;
    let n = (op & 0xfu16) as u8;
    let kk = (op & 0xffu16) as u8;
    let nnn = op & 0xfffu16;
    match op >> 12u16 {
        0x0 => if kk == 0xe0 {
            Some(Instruction::Cls)
        } else if kk == 0xee {
            Some(Instruction::Ret)
        } else {
            None
        },
        0x1 => Some(Instruction::Jp { nnn }),
        0x2 => Some(Instruction::Call { nnn }),
        0x3 => Some(Instruction::SeByte { x, kk }),
        0x4 => Some(Instruction::SneByte { x, kk }),
        0x5 => Some(Instruction::SeReg { x, y }),
        0x6 => Some(Instruction::LdByte { x, kk }),
        0x7 => Some(Instruction::AddByte { x, kk }),
        0x8 => match n {
            0x0 => Some(Instruction::LdReg { x, y }),
            0x1 => Some(Instruction::Or { x, y }),
            0x2 => Some(Instruction::And { x, y }),
            0x3 => Some(Instruction::Xor { x, y }),
            0x4 => Some(Instruction::AddReg { x, y }),
            0x5 => Some(Instruction::Sub { x, y }),
            0x6 => Some(Instruction::Shr { x, y }),
            0x7 => Some(Instruction::Subn { x, y }),
            0xe => Some(Instruction::Shl { x, y }),
            _ => None,
        },
        0x9 => Some(Instruction::SneReg { x, y }),
        0xa => Some(Instruction::LdI { nnn }),
        0xb => Some(Instruction::JpV0 { nnn }),
        0xc => Some(Instruction::Rnd { x, kk }),
        0xd => Some(Instruction::Drw { x, y, n }),
        0xe => match kk {
            0x9e => Some(Instruction::Skp { x }),
            0xa1 => Some(Instruction::Sknp { x }),
            _ => None,
        },
        _ => match kk {
            0x07 => Some(Instruction::LdVxDt { x }),
            0x0a => Some(Instruction::LdKey { x }),
            0x15 => Some(Instruction::LdDtVx { x }),
            0x18 => Some(Instruction::LdStVx { x }),
            0x1e => Some(Instruction::AddI { x }),
            0x29 => Some(Instruction::LdFont { x }),
            0x33 => Some(Instruction::LdBcd { x }),
            0x55 => Some(Instruction::StoreRegs { x }),
            0x65 => Some(Instruction::LoadRegs { x }),
            _ => None,
        },
    }
}

} // verus!
