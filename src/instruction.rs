use vstd::prelude::*;

verus! {

/// A decoded instruction, with the operand fields that it reads from its opcode.
/// `x` and `y` name registers, `n` is a sprite height, `nn` a byte and `nnn` an
/// address.
#[derive(Debug, Clone, Copy, PartialEq, Eq, Structural)]
pub enum Instruction {
    /// `00E0`: turn every pixel off.
    ClearScreen,
    /// `00EE`: return from a subroutine.
    Return,
    /// `1nnn`: continue at `nnn`.
    Jump { nnn: u16 },
    /// `2nnn`: call the subroutine at `nnn`.
    Call { nnn: u16 },
    /// `3xnn`: skip the next instruction if `Vx == nn`.
    SkipIfEqual { x: u8, nn: u8 },
    /// `4xnn`: skip the next instruction if `Vx != nn`.
    SkipIfNotEqual { x: u8, nn: u8 },
    /// `5xy0`: skip the next instruction if `Vx == Vy`.
    SkipIfRegistersEqual { x: u8, y: u8 },
    /// `6xnn`: `Vx = nn`.
    SetRegister { x: u8, nn: u8 },
    /// `7xnn`: `Vx += nn`, wrapping, flag untouched.
    AddToRegister { x: u8, nn: u8 },
    /// `8xy0`: `Vx = Vy`.
    CopyRegister { x: u8, y: u8 },
    /// `8xy1`: `Vx |= Vy`.
    Or { x: u8, y: u8 },
    /// `8xy2`: `Vx &= Vy`.
    And { x: u8, y: u8 },
    /// `8xy3`: `Vx ^= Vy`.
    Xor { x: u8, y: u8 },
    /// `8xy4`: `Vx += Vy`, `VF` = carry.
    Add { x: u8, y: u8 },
    /// `8xy5`: `Vx -= Vy`, `VF` = no borrow.
    Subtract { x: u8, y: u8 },
    /// `8xy6`: shift right by one, `VF` = the bit shifted out.
    ShiftRight { x: u8, y: u8 },
    /// `8xy7`: `Vx = Vy - Vx`, `VF` = no borrow.
    SubtractReverse { x: u8, y: u8 },
    /// `8xyE`: shift left by one, `VF` = the bit shifted out.
    ShiftLeft { x: u8, y: u8 },
    /// `9xy0`: skip the next instruction if `Vx != Vy`.
    SkipIfRegistersNotEqual { x: u8, y: u8 },
    /// `Annn`: `I = nnn`.
    SetIndex { nnn: u16 },
    /// `Bnnn`: continue at `nnn` plus a register.
    JumpWithOffset { x: u8, nnn: u16 },
    /// `Cxnn`: `Vx` = a random byte masked with `nn`.
    Random { x: u8, nn: u8 },
    /// `Dxyn`: draw the `n`-row sprite at `I` at `(Vx, Vy)`.
    Draw { x: u8, y: u8, n: u8 },
    /// `Ex9E`: skip the next instruction if the key in `Vx` is down.
    SkipIfKeyDown { x: u8 },
    /// `ExA1`: skip the next instruction if the key in `Vx` is up.
    SkipIfKeyUp { x: u8 },
    /// `Fx07`: `Vx` = delay timer.
    GetDelayTimer { x: u8 },
    /// `Fx0A`: wait for a key and put it in `Vx`.
    GetKey { x: u8 },
    /// `Fx15`: delay timer = `Vx`.
    SetDelayTimer { x: u8 },
    /// `Fx18`: sound timer = `Vx`.
    SetSoundTimer { x: u8 },
    /// `Fx1E`: `I += Vx`.
    AddToIndex { x: u8 },
    /// `Fx29`: `I` = address of the font glyph for `Vx`.
    FontCharacter { x: u8 },
    /// `Fx33`: store the decimal digits of `Vx` at `I`, `I + 1`, `I + 2`.
    StoreBcd { x: u8 },
    /// `Fx55`: store `V0..=Vx` at `I`.
    StoreRegisters { x: u8 },
    /// `Fx65`: load `V0..=Vx` from `I`.
    LoadRegisters { x: u8 },
}

/// Bits 8-11 of an opcode.
pub open spec fn field_x(op: u16) -> u8 {
    ((op >> 8u16) & 0xFu16) as u8
}

/// Bits 4-7 of an opcode.
pub open spec fn field_y(op: u16) -> u8 {
    ((op >> 4u16) & 0xFu16) as u8
}

/// Bits 0-3 of an opcode.
pub open spec fn field_n(op: u16) -> u8 {
    (op & 0xFu16) as u8
}

/// Bits 0-7 of an opcode.
pub open spec fn field_nn(op: u16) -> u8 {
    (op & 0xFFu16) as u8
}

/// Bits 0-11 of an opcode.
pub open spec fn field_nnn(op: u16) -> u16 {
    op & 0xFFFu16
}

/// Operand fields within the widths that an opcode can hold.
pub open spec fn fields_in_range(ins: Instruction) -> bool {
    match ins {
        Instruction::Jump { nnn } => nnn <= 0xFFF,
        Instruction::Call { nnn } => nnn <= 0xFFF,
        Instruction::SetIndex { nnn } => nnn <= 0xFFF,
        Instruction::JumpWithOffset { x, nnn } => x < 16 && nnn <= 0xFFF,
        Instruction::SkipIfEqual { x, .. } => x < 16,
        Instruction::SkipIfNotEqual { x, .. } => x < 16,
        Instruction::SetRegister { x, .. } => x < 16,
        Instruction::AddToRegister { x, .. } => x < 16,
        Instruction::Random { x, .. } => x < 16,
        Instruction::SkipIfRegistersEqual { x, y } => x < 16 && y < 16,
        Instruction::SkipIfRegistersNotEqual { x, y } => x < 16 && y < 16,
        Instruction::CopyRegister { x, y } => x < 16 && y < 16,
        Instruction::Or { x, y } => x < 16 && y < 16,
        Instruction::And { x, y } => x < 16 && y < 16,
        Instruction::Xor { x, y } => x < 16 && y < 16,
        Instruction::Add { x, y } => x < 16 && y < 16,
        Instruction::Subtract { x, y } => x < 16 && y < 16,
        Instruction::ShiftRight { x, y } => x < 16 && y < 16,
        Instruction::SubtractReverse { x, y } => x < 16 && y < 16,
        Instruction::ShiftLeft { x, y } => x < 16 && y < 16,
        Instruction::Draw { x, y, n } => x < 16 && y < 16 && n < 16,
        Instruction::SkipIfKeyDown { x } => x < 16,
        Instruction::SkipIfKeyUp { x } => x < 16,
        Instruction::GetDelayTimer { x } => x < 16,
        Instruction::GetKey { x } => x < 16,
        Instruction::SetDelayTimer { x } => x < 16,
        Instruction::SetSoundTimer { x } => x < 16,
        Instruction::AddToIndex { x } => x < 16,
        Instruction::FontCharacter { x } => x < 16,
        Instruction::StoreBcd { x } => x < 16,
        Instruction::StoreRegisters { x } => x < 16,
        Instruction::LoadRegisters { x } => x < 16,
        Instruction::ClearScreen => true,
        Instruction::Return => true,
    }
}

/// The instruction that an opcode encodes: chosen by the top four bits and, in
/// the families `0`, `8`, `E` and `F`, by the low byte or the low four bits.
pub open spec fn decode_spec(op: u16) -> Option<Instruction> {
    let x = field_x(op);
    let y = field_y(op);
    let n = field_n(op);
    let nn = field_nn(op);
    let nnn = field_nnn(op);
    let family = op >> 12u16;
    if family == 0x0 {
        if nn == 0xE0 {
            Some(Instruction::ClearScreen)
        } else if nn == 0xEE {
            Some(Instruction::Return)
        } else {
            None
        }
    } else if family == 0x1 {
        Some(Instruction::Jump { nnn })
    } else if family == 0x2 {
        Some(Instruction::Call { nnn })
    } else if family == 0x3 {
        Some(Instruction::SkipIfEqual { x, nn })
    } else if family == 0x4 {
        Some(Instruction::SkipIfNotEqual { x, nn })
    } else if family == 0x5 {
        Some(Instruction::SkipIfRegistersEqual { x, y })
    } else if family == 0x6 {
        Some(Instruction::SetRegister { x, nn })
    } else if family == 0x7 {
        Some(Instruction::AddToRegister { x, nn })
    } else if family == 0x8 {
        if n == 0x0 {
            Some(Instruction::CopyRegister { x, y })
        } else if n == 0x1 {
            Some(Instruction::Or { x, y })
        } else if n == 0x2 {
            Some(Instruction::And { x, y })
        } else if n == 0x3 {
            Some(Instruction::Xor { x, y })
        } else if n == 0x4 {
            Some(Instruction::Add { x, y })
        } else if n == 0x5 {
            Some(Instruction::Subtract { x, y })
        } else if n == 0x6 {
            Some(Instruction::ShiftRight { x, y })
        } else if n == 0x7 {
            Some(Instruction::SubtractReverse { x, y })
        } else if n == 0xE {
            Some(Instruction::ShiftLeft { x, y })
        } else {
            None
        }
    } else if family == 0x9 {
        Some(Instruction::SkipIfRegistersNotEqual { x, y })
    } else if family == 0xA {
        Some(Instruction::SetIndex { nnn })
    } else if family == 0xB {
        Some(Instruction::JumpWithOffset { x, nnn })
    } else if family == 0xC {
        Some(Instruction::Random { x, nn })
    } else if family == 0xD {
        Some(Instruction::Draw { x, y, n })
    } else if family == 0xE {
        if nn == 0x9E {
            Some(Instruction::SkipIfKeyDown { x })
        } else if nn == 0xA1 {
            Some(Instruction::SkipIfKeyUp { x })
        } else {
            None
        }
    } else {
        if nn == 0x07 {
            Some(Instruction::GetDelayTimer { x })
        } else if nn == 0x0A {
            Some(Instruction::GetKey { x })
        } else if nn == 0x15 {
            Some(Instruction::SetDelayTimer { x })
        } else if nn == 0x18 {
            Some(Instruction::SetSoundTimer { x })
        } else if nn == 0x1E {
            Some(Instruction::AddToIndex { x })
        } else if nn == 0x29 {
            Some(Instruction::FontCharacter { x })
        } else if nn == 0x33 {
            Some(Instruction::StoreBcd { x })
        } else if nn == 0x55 {
            Some(Instruction::StoreRegisters { x })
        } else if nn == 0x65 {
            Some(Instruction::LoadRegisters { x })
        } else {
            None
        }
    }
}

/// What `decode_spec` yields always has its fields in range.
pub proof fn lemma_decoded_fields_in_range(op: u16)
    ensures
        decode_spec(op) matches Some(ins) ==> fields_in_range(ins),
{
    assert((op >> 8u16) & 0xFu16 < 16) by (bit_vector);
    assert((op >> 4u16) & 0xFu16 < 16) by (bit_vector);
    assert(op & 0xFu16 < 16) by (bit_vector);
    assert(op & 0xFFFu16 <= 0xFFF) by (bit_vector);
}

/// Splits an opcode into its family and operand fields, and classifies it.
pub fn decode_opcode(op: u16) -> (r: Option<Instruction>)
    ensures
        r == decode_spec(op),
{
    let x = ((op >> 8) & 0xF) as u8;
    let y = ((op >> 4) & 0xF) as u8;
    let n = (op & 0xF) as u8;
    let nn = (op & 0xFF) as u8;
    let nnn = op & 0xFFF;
    let family = op >> 12;
    if family == 0x0 {
        if nn == 0xE0 {
            Some(Instruction::ClearScreen)
        } else if nn == 0xEE {
            Some(Instruction::Return)
        } else {
            None
        }
    } else if family == 0x1 {
        Some(Instruction::Jump { nnn })
    } else if family == 0x2 {
        Some(Instruction::Call { nnn })
    } else if family == 0x3 {
        Some(Instruction::SkipIfEqual { x, nn })
    } else if family == 0x4 {
        Some(Instruction::SkipIfNotEqual { x, nn })
    } else if family == 0x5 {
        Some(Instruction::SkipIfRegistersEqual { x, y })
    } else if family == 0x6 {
        Some(Instruction::SetRegister { x, nn })
    } else if family == 0x7 {
        Some(Instruction::AddToRegister { x, nn })
    } else if family == 0x8 {
        if n == 0x0 {
            Some(Instruction::CopyRegister { x, y })
        } else if n == 0x1 {
            Some(Instruction::Or { x, y })
        } else if n == 0x2 {
            Some(Instruction::And { x, y })
        } else if n == 0x3 {
            Some(Instruction::Xor { x, y })
        } else if n == 0x4 {
            Some(Instruction::Add { x, y })
        } else if n == 0x5 {
            Some(Instruction::Subtract { x, y })
        } else if n == 0x6 {
            Some(Instruction::ShiftRight { x, y })
        } else if n == 0x7 {
            Some(Instruction::SubtractReverse { x, y })
        } else if n == 0xE {
            Some(Instruction::ShiftLeft { x, y })
        } else {
            None
        }
    } else if family == 0x9 {
        Some(Instruction::SkipIfRegistersNotEqual { x, y })
    } else if family == 0xA {
        Some(Instruction::SetIndex { nnn })
    } else if family == 0xB {
        Some(Instruction::JumpWithOffset { x, nnn })
    } else if family == 0xC {
        Some(Instruction::Random { x, nn })
    } else if family == 0xD {
        Some(Instruction::Draw { x, y, n })
    } else if family == 0xE {
        if nn == 0x9E {
            Some(Instruction::SkipIfKeyDown { x })
        } else if nn == 0xA1 {
            Some(Instruction::SkipIfKeyUp { x })
        } else {
            None
        }
    } else {
        if nn == 0x07 {
            Some(Instruction::GetDelayTimer { x })
        } else if nn == 0x0A {
            Some(Instruction::GetKey { x })
        } else if nn == 0x15 {
            Some(Instruction::SetDelayTimer { x })
        } else if nn == 0x18 {
            Some(Instruction::SetSoundTimer { x })
        } else if nn == 0x1E {
            Some(Instruction::AddToIndex { x })
        } else if nn == 0x29 {
            Some(Instruction::FontCharacter { x })
        } else if nn == 0x33 {
            Some(Instruction::StoreBcd { x })
        } else if nn == 0x55 {
            Some(Instruction::StoreRegisters { x })
        } else if nn == 0x65 {
            Some(Instruction::LoadRegisters { x })
        } else {
            None
        }
    }
}

} // verus!
