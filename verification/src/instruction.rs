//! The instruction set and the decoding of 16-bit opcodes.

use vstd::prelude::*;

verus! {

/// Number of general-purpose registers, `V0 ..= VF`.
pub const REGISTER_COUNT: usize = 16;

/// Index of `VF`, the register that doubles as the flag output.
pub const FLAG_REGISTER: usize = 15;

/// A register-to-register operation of the `8xy_` family.
#[derive(Clone, Copy, Debug, PartialEq, Eq, Structural)]
pub enum AluOp {
    /// `8xy0`: `Vx = Vy`.
    Assign,
    /// `8xy1`: `Vx = Vx | Vy`.
    Or,
    /// `8xy2`: `Vx = Vx & Vy`.
    And,
    /// `8xy3`: `Vx = Vx ^ Vy`.
    Xor,
    /// `8xy4`: `Vx = Vx + Vy` modulo 256, then `VF` = 1 on carry, else 0.
    Add,
    /// `8xy5`: `Vx = Vx - Vy` modulo 256, then `VF` = 1 if there was no
    /// borrow, else 0.
    Subtract,
    /// `8xy6`: `VF` = the lowest bit of `Vx`, then `Vx = Vx >> 1`. `Vy` is
    /// not read.
    ShiftRight,
    /// `8xy7`: `Vx = Vy - Vx` modulo 256, then `VF` = 1 if there was no
    /// borrow, else 0.
    SubtractFrom,
    /// `8xyE`: `VF` = the highest bit of `Vx`, then `Vx = Vx << 1` modulo
    /// 256. `Vy` is not read.
    ShiftLeft,
}

/// A timer, index, decimal or register-block operation of the `Fx__`
/// family.
#[derive(Clone, Copy, Debug, PartialEq, Eq, Structural)]
pub enum MiscOp {
    /// `Fx07`: `Vx = delay timer`.
    ReadDelay,
    /// `Fx0A`: wait until a key is held down, then `Vx = key`.
    WaitForKey,
    /// `Fx15`: `delay timer = Vx`.
    SetDelay,
    /// `Fx18`: `sound timer = Vx`.
    SetSound,
    /// `Fx1E`: `I = I + Vx` modulo 65536; no flag is written.
    AddToIndex,
    /// `Fx29`: `I = 5 * Vx`, the address of the glyph for `Vx` in a font
    /// table of five bytes per glyph at address 0.
    LoadGlyph,
    /// `Fx33`: store the decimal digits of `Vx` at `I`, `I + 1`, `I + 2`.
    StoreBcd,
    /// `Fx55`: store `V0 ..= Vx` at `I`, `I + 1`, ...
    StoreRegisters,
    /// `Fx65`: load `V0 ..= Vx` from `I`, `I + 1`, ...
    LoadRegisters,
}

/// One decoded instruction. `x` and `y` are register indices, `addr` is a
/// 12-bit address, `value` and `mask` are 8-bit immediates.
#[derive(Clone, Copy, Debug, PartialEq, Eq, Structural)]
pub enum Instruction {
    /// `00E0`: turn every pixel off.
    ClearScreen,
    /// `00EE`: return from a subroutine.
    Return,
    /// `1nnn`: jump to `addr`.
    Jump { addr: u16 },
    /// `2nnn`: call the subroutine at `addr`.
    Call { addr: u16 },
    /// `3xnn`: skip the next instruction if `Vx == value`.
    SkipIfEqual { x: u8, value: u8 },
    /// `4xnn`: skip the next instruction if `Vx != value`.
    SkipIfNotEqual { x: u8, value: u8 },
    /// `5xy0`: skip the next instruction if `Vx == Vy`.
    SkipIfRegistersEqual { x: u8, y: u8 },
    /// `6xnn`: `Vx = value`.
    LoadImmediate { x: u8, value: u8 },
    /// `7xnn`: `Vx = Vx + value` modulo 256; no flag is written.
    AddImmediate { x: u8, value: u8 },
    /// `8xy_`: the register-to-register operation `op` on `Vx` and `Vy`.
    Alu { op: AluOp, x: u8, y: u8 },
    /// `9xy0`: skip the next instruction if `Vx != Vy`.
    SkipIfRegistersNotEqual { x: u8, y: u8 },
    /// `Annn`: `I = addr`.
    LoadIndex { addr: u16 },
    /// `Bnnn`: jump to `addr + V0`.
    JumpOffset { addr: u16 },
    /// `Cxnn`: `Vx = random byte & mask`.
    Random { x: u8, mask: u8 },
    /// `Dxyn`: draw the `rows`-byte sprite at `I` at (`Vx`, `Vy`); `VF` = 1
    /// on collision, else 0.
    Draw { x: u8, y: u8, rows: u8 },
    /// `Ex9E`: skip the next instruction if key `Vx` is held down.
    SkipIfKey { x: u8 },
    /// `ExA1`: skip the next instruction if key `Vx` is not held down.
    SkipIfNotKey { x: u8 },
    /// `Fx__`: the operation `action` on `Vx`.
    Misc { action: MiscOp, x: u8 },
}

/// The top nibble of an opcode, which selects the instruction family.
pub open spec fn field_family(opcode: u16) -> int {
    opcode as int / 4096
}

/// `nnn`: the low 12 bits of an opcode.
pub open spec fn field_nnn(opcode: u16) -> u16 {
    (opcode as int % 4096) as u16
}

/// `nn`: the low 8 bits of an opcode.
pub open spec fn field_nn(opcode: u16) -> u8 {
    (opcode as int % 256) as u8
}

/// `n`: the lowest nibble of an opcode.
pub open spec fn field_n(opcode: u16) -> u8 {
    (opcode as int % 16) as u8
}

/// `x`: bits 8 to 11 of an opcode.
pub open spec fn field_x(opcode: u16) -> u8 {
    (opcode as int / 256 % 16) as u8
}

/// `y`: bits 4 to 7 of an opcode.
pub open spec fn field_y(opcode: u16) -> u8 {
    (opcode as int / 16 % 16) as u8
}

/// The operation that the low nibble `n` of an `8xy_` opcode selects.
pub open spec fn decode_alu(n: u8) -> Option<AluOp> {
    if n == 0x0 {
        Some(AluOp::Assign)
    } else if n == 0x1 {
        Some(AluOp::Or)
    } else if n == 0x2 {
        Some(AluOp::And)
    } else if n == 0x3 {
        Some(AluOp::Xor)
    } else if n == 0x4 {
        Some(AluOp::Add)
    } else if n == 0x5 {
        Some(AluOp::Subtract)
    } else if n == 0x6 {
        Some(AluOp::ShiftRight)
    } else if n == 0x7 {
        Some(AluOp::SubtractFrom)
    } else if n == 0xE {
        Some(AluOp::ShiftLeft)
    } else {
        None
    }
}

/// The operation that the low byte `nn` of an `Fx__` opcode selects.
pub open spec fn decode_misc(nn: u8) -> Option<MiscOp> {
    if nn == 0x07 {
        Some(MiscOp::ReadDelay)
    } else if nn == 0x0A {
        Some(MiscOp::WaitForKey)
    } else if nn == 0x15 {
        Some(MiscOp::SetDelay)
    } else if nn == 0x18 {
        Some(MiscOp::SetSound)
    } else if nn == 0x1E {
        Some(MiscOp::AddToIndex)
    } else if nn == 0x29 {
        Some(MiscOp::LoadGlyph)
    } else if nn == 0x33 {
        Some(MiscOp::StoreBcd)
    } else if nn == 0x55 {
        Some(MiscOp::StoreRegisters)
    } else if nn == 0x65 {
        Some(MiscOp::LoadRegisters)
    } else {
        None
    }
}

/// The instruction an opcode encodes, or `None` if it encodes none.
pub open spec fn decode_spec(opcode: u16) -> Option<Instruction> {
    let family = field_family(opcode);
    let addr = field_nnn(opcode);
    let nn = field_nn(opcode);
    let n = field_n(opcode);
    let x = field_x(opcode);
    let y = field_y(opcode);
    if family == 0x0 {
        if opcode == 0x00E0 {
            Some(Instruction::ClearScreen)
        } else if opcode == 0x00EE {
            Some(Instruction::Return)
        } else {
            None
        }
    } else if family == 0x1 {
        Some(Instruction::Jump { addr })
    } else if family == 0x2 {
        Some(Instruction::Call { addr })
    } else if family == 0x3 {
        Some(Instruction::SkipIfEqual { x, value: nn })
    } else if family == 0x4 {
        Some(Instruction::SkipIfNotEqual { x, value: nn })
    } else if family == 0x5 {
        if n == 0 {
            Some(Instruction::SkipIfRegistersEqual { x, y })
        } else {
            None
        }
    } else if family == 0x6 {
        Some(Instruction::LoadImmediate { x, value: nn })
    } else if family == 0x7 {
        Some(Instruction::AddImmediate { x, value: nn })
    } else if family == 0x8 {
        match decode_alu(n) {
            Some(op) => Some(Instruction::Alu { op, x, y }),
            None => None,
        }
    } else if family == 0x9 {
        if n == 0 {
            Some(Instruction::SkipIfRegistersNotEqual { x, y })
        } else {
            None
        }
    } else if family == 0xA {
        Some(Instruction::LoadIndex { addr })
    } else if family == 0xB {
        Some(Instruction::JumpOffset { addr })
    } else if family == 0xC {
        Some(Instruction::Random { x, mask: nn })
    } else if family == 0xD {
        Some(Instruction::Draw { x, y, rows: n })
    } else if family == 0xE {
        if nn == 0x9E {
            Some(Instruction::SkipIfKey { x })
        } else if nn == 0xA1 {
            Some(Instruction::SkipIfNotKey { x })
        } else {
            None
        }
    } else {
        match decode_misc(nn) {
            Some(action) => Some(Instruction::Misc { action, x }),
            None => None,
        }
    }
}

impl Instruction {
    /// Every register index is below `REGISTER_COUNT`, every address fits in
    /// 12 bits and a sprite has at most 15 rows: what holds of each
    /// instruction that an opcode can encode.
    pub open spec fn wf(self) -> bool {
        match self {
            Instruction::ClearScreen | Instruction::Return => true,
            Instruction::Jump { addr }
            | Instruction::Call { addr }
            | Instruction::LoadIndex { addr }
            | Instruction::JumpOffset { addr } => addr < 4096,
            Instruction::SkipIfEqual { x, .. }
            | Instruction::SkipIfNotEqual { x, .. }
            | Instruction::LoadImmediate { x, .. }
            | Instruction::AddImmediate { x, .. }
            | Instruction::Random { x, .. }
            | Instruction::SkipIfKey { x }
            | Instruction::SkipIfNotKey { x }
            | Instruction::Misc { x, .. } => x < REGISTER_COUNT,
            Instruction::SkipIfRegistersEqual { x, y }
            | Instruction::Alu { x, y, .. }
            | Instruction::SkipIfRegistersNotEqual { x, y } => x < REGISTER_COUNT && y
                < REGISTER_COUNT,
            Instruction::Draw { x, y, rows } => x < REGISTER_COUNT && y < REGISTER_COUNT && rows
                < 16,
        }
    }
}

/// Whatever an opcode decodes to is well formed.
pub proof fn lemma_decoded_is_wf(opcode: u16)
    ensures
        decode_spec(opcode) matches Some(instruction) ==> instruction.wf(),
{
}

/// Decodes a 16-bit opcode.
pub fn decode(opcode: u16) -> (instruction: Option<Instruction>)
    ensures
        instruction == decode_spec(opcode),
        instruction matches Some(i) ==> i.wf(),
{
    let addr: u16 = opcode & 0x0FFF;
    let nn: u8 = (opcode & 0x00FF) as u8;
    let n: u8 = (opcode & 0x000F) as u8;
    let x: u8 = ((opcode & 0x0F00) >> 8) as u8;
    let y: u8 = ((opcode & 0x00F0) >> 4) as u8;
    let family: u16 = opcode >> 12;
    proof {
        assert(opcode & 0x0FFF == opcode % 4096) by (bit_vector);
        assert(opcode & 0x00FF == opcode % 256) by (bit_vector);
        assert(opcode & 0x000F == opcode % 16) by (bit_vector);
        assert((opcode & 0x0F00) >> 8 == opcode / 256 % 16) by (bit_vector);
        assert((opcode & 0x00F0) >> 4 == opcode / 16 % 16) by (bit_vector);
        assert(opcode >> 12 == opcode / 4096) by (bit_vector);
        lemma_decoded_is_wf(opcode);
    }
    match family {
        0x0 => match opcode {
            0x00E0 => Some(Instruction::ClearScreen),
            0x00EE => Some(Instruction::Return),
            _ => None,
        },
        0x1 => Some(Instruction::Jump { addr }),
        0x2 => Some(Instruction::Call { addr }),
        0x3 => Some(Instruction::SkipIfEqual { x, value: nn }),
        0x4 => Some(Instruction::SkipIfNotEqual { x, value: nn }),
        0x5 => if n == 0 {
            Some(Instruction::SkipIfRegistersEqual { x, y })
        } else {
            None
        },
        0x6 => Some(Instruction::LoadImmediate { x, value: nn }),
        0x7 => Some(Instruction::AddImmediate { x, value: nn }),
        0x8 => match n {
            0x0 => Some(Instruction::Alu { op: AluOp::Assign, x, y }),
            0x1 => Some(Instruction::Alu { op: AluOp::Or, x, y }),
            0x2 => Some(Instruction::Alu { op: AluOp::And, x, y }),
            0x3 => Some(Instruction::Alu { op: AluOp::Xor, x, y }),
            0x4 => Some(Instruction::Alu { op: AluOp::Add, x, y }),
            0x5 => Some(Instruction::Alu { op: AluOp::Subtract, x, y }),
            0x6 => Some(Instruction::Alu { op: AluOp::ShiftRight, x, y }),
            0x7 => Some(Instruction::Alu { op: AluOp::SubtractFrom, x, y }),
            0xE => Some(Instruction::Alu { op: AluOp::ShiftLeft, x, y }),
            _ => None,
        },
        0x9 => if n == 0 {
            Some(Instruction::SkipIfRegistersNotEqual { x, y })
        } else {
            None
        },
        0xA => Some(Instruction::LoadIndex { addr }),
        0xB => Some(Instruction::JumpOffset { addr }),
        0xC => Some(Instruction::Random { x, mask: nn }),
        0xD => Some(Instruction::Draw { x, y, rows: n }),
        0xE => match nn {
            0x9E => Some(Instruction::SkipIfKey { x }),
            0xA1 => Some(Instruction::SkipIfNotKey { x }),
            _ => None,
        },
        _ => match nn {
            0x07 => Some(Instruction::Misc { action: MiscOp::ReadDelay, x }),
            0x0A => Some(Instruction::Misc { action: MiscOp::WaitForKey, x }),
            0x15 => Some(Instruction::Misc { action: MiscOp::SetDelay, x }),
            0x18 => Some(Instruction::Misc { action: MiscOp::SetSound, x }),
            0x1E => Some(Instruction::Misc { action: MiscOp::AddToIndex, x }),
            0x29 => Some(Instruction::Misc { action: MiscOp::LoadGlyph, x }),
            0x33 => Some(Instruction::Misc { action: MiscOp::StoreBcd, x }),
            0x55 => Some(Instruction::Misc { action: MiscOp::StoreRegisters, x }),
            0x65 => Some(Instruction::Misc { action: MiscOp::LoadRegisters, x }),
            _ => None,
        },
    }
}

} // verus!
