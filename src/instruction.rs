use vstd::prelude::*;
use crate::error::Chip8Error;

verus! {

/// One decoded machine operation, with its operands.
///
/// `x` and `y` name registers (0 to 15), `nn` is an immediate byte, `n` a
/// nibble and `addr` a 12-bit address.
#[derive(Clone, Copy, Debug, PartialEq, Eq, Structural)]
pub enum Instruction {
    /// `00E0` (and the all-zero word): clear the screen.
    ClearScreen,
    /// `00EE`: return from a subroutine.
    Return,
    /// `1NNN`: jump to `addr`.
    Jump { addr: u16 },
    /// `2NNN`: call the subroutine at `addr`.
    Call { addr: u16 },
    /// `3XNN`: skip the next instruction if `Vx == nn`.
    SkipIfEqualImm { x: u8, nn: u8 },
    /// `4XNN`: skip the next instruction if `Vx != nn`.
    SkipIfNotEqualImm { x: u8, nn: u8 },
    /// `5XY_`: skip the next instruction if `Vx == Vy`.
    SkipIfEqualReg { x: u8, y: u8 },
    /// `6XNN`: `Vx = nn`.
    SetImm { x: u8, nn: u8 },
    /// `7XNN`: `Vx = Vx + nn`, wrapping, flag untouched.
    AddImm { x: u8, nn: u8 },
    /// `8XY0`: `Vx = Vy`.
    Copy { x: u8, y: u8 },
    /// `8XY1`: `Vx = Vx | Vy`.
    Or { x: u8, y: u8 },
    /// `8XY2`: `Vx = Vx & Vy`.
    And { x: u8, y: u8 },
    /// `8XY3`: `Vx = Vx ^ Vy`.
    Xor { x: u8, y: u8 },
    /// `8XY4`: `Vx = Vx + Vy`, flag set to the carry.
    AddCarry { x: u8, y: u8 },
    /// `8XY5`: `Vx = Vx - Vy`, flag set when no borrow occurs.
    SubBorrow { x: u8, y: u8 },
    /// `8XY6`: `Vx = Vx >> 1`, flag set to the bit shifted out.
    ShiftRight { x: u8, y: u8 },
    /// `8XY7`: `Vx = Vy - Vx`, flag set when no borrow occurs.
    SubReverse { x: u8, y: u8 },
    /// `8XYE`: `Vx = Vx << 1`, flag set to the bit shifted out.
    ShiftLeft { x: u8, y: u8 },
    /// `9XY_`: skip the next instruction if `Vx != Vy`.
    SkipIfNotEqualReg { x: u8, y: u8 },
    /// `ANNN`: set the address register to `addr`.
    SetIndex { addr: u16 },
    /// `BNNN`: jump to `addr + V0`.
    JumpOffset { addr: u16 },
    /// `CXNN`: `Vx = random byte & nn`.
    Random { x: u8, nn: u8 },
    /// `DXYN`: draw the `n`-row sprite at the address register at `(Vx, Vy)`.
    Draw { x: u8, y: u8, n: u8 },
    /// `EX9E`: skip the next instruction if the key `Vx` is pressed.
    SkipIfPressed { x: u8 },
    /// `EXA1`: skip the next instruction if the key `Vx` is not pressed.
    SkipIfNotPressed { x: u8 },
    /// `FX07`: `Vx = delay timer`.
    ReadDelay { x: u8 },
    /// `FX0A`: wait for a key press and store the key in `Vx`.
    WaitKey { x: u8 },
    /// `FX15`: `delay timer = Vx`.
    SetDelay { x: u8 },
    /// `FX18`: `sound timer = Vx`.
    SetSound { x: u8 },
    /// `FX1E`: add `Vx` to the address register.
    AddIndex { x: u8 },
    /// `FX29`: point the address register at the glyph of digit `Vx`.
    GlyphAddress { x: u8 },
    /// `FX33`: store the decimal digits of `Vx` at the address register.
    StoreBcd { x: u8 },
    /// `FX55`: store `V0..=Vx` in memory from the address register on.
    StoreRegisters { x: u8 },
    /// `FX65`: load `V0..=Vx` from memory from the address register on.
    LoadRegisters { x: u8 },
    /// A word of a known family (`8`, `E`, `F`) with an unknown sub-code.
    /// It executes as a no-op.
    Unrecognized { word: u16 },
}

/// The instruction that a 16-bit word encodes.
pub open spec fn decoded(w: u16) -> Result<Instruction, Chip8Error> {
    let op = w / 0x1000;
    let x = ((w / 0x100) % 0x10) as u8;
    let y = ((w / 0x10) % 0x10) as u8;
    let n = (w % 0x10) as u8;
    let nn = (w % 0x100) as u8;
    let addr = (w % 0x1000) as u16;
    if op == 0x0 {
        if w == 0x00E0 || w == 0x0000 {
            Ok(Instruction::ClearScreen)
        } else if w == 0x00EE {
            Ok(Instruction::Return)
        } else {
            Err(Chip8Error::UnknownOpcode { word: w })
        }
    } else if op == 0x1 {
        Ok(Instruction::Jump { addr })
    } else if op == 0x2 {
        Ok(Instruction::Call { addr })
    } else if op == 0x3 {
        Ok(Instruction::SkipIfEqualImm { x, nn })
    } else if op == 0x4 {
        Ok(Instruction::SkipIfNotEqualImm { x, nn })
    } else if op == 0x5 {
        Ok(Instruction::SkipIfEqualReg { x, y })
    } else if op == 0x6 {
        Ok(Instruction::SetImm { x, nn })
    } else if op == 0x7 {
        Ok(Instruction::AddImm { x, nn })
    } else if op == 0x8 {
        Ok(
            if n == 0x0 {
                Instruction::Copy { x, y }
            } else if n == 0x1 {
                Instruction::Or { x, y }
            } else if n == 0x2 {
                Instruction::And { x, y }
            } else if n == 0x3 {
                Instruction::Xor { x, y }
            } else if n == 0x4 {
                Instruction::AddCarry { x, y }
            } else if n == 0x5 {
                Instruction::SubBorrow { x, y }
            } else if n == 0x6 {
                Instruction::ShiftRight { x, y }
            } else if n == 0x7 {
                Instruction::SubReverse { x, y }
            } else if n == 0xE {
                Instruction::ShiftLeft { x, y }
            } else {
                Instruction::Unrecognized { word: w }
            },
        )
    } else if op == 0x9 {
        Ok(Instruction::SkipIfNotEqualReg { x, y })
    } else if op == 0xA {
        Ok(Instruction::SetIndex { addr })
    } else if op == 0xB {
        Ok(Instruction::JumpOffset { addr })
    } else if op == 0xC {
        Ok(Instruction::Random { x, nn })
    } else if op == 0xD {
        Ok(Instruction::Draw { x, y, n })
    } else if op == 0xE {
        Ok(
            if nn == 0x9E {
                Instruction::SkipIfPressed { x }
            } else if nn == 0xA1 {
                Instruction::SkipIfNotPressed { x }
            } else {
                Instruction::Unrecognized { word: w }
            },
        )
    } else {
        Ok(
            if nn == 0x07 {
                Instruction::ReadDelay { x }
            } else if nn == 0x0A {
                Instruction::WaitKey { x }
            } else if nn == 0x15 {
                Instruction::SetDelay { x }
            } else if nn == 0x18 {
                Instruction::SetSound { x }
            } else if nn == 0x1E {
                Instruction::AddIndex { x }
            } else if nn == 0x29 {
                Instruction::GlyphAddress { x }
            } else if nn == 0x33 {
                Instruction::StoreBcd { x }
            } else if nn == 0x55 {
                Instruction::StoreRegisters { x }
            } else if nn == 0x65 {
                Instruction::LoadRegisters { x }
            } else {
                Instruction::Unrecognized { word: w }
            },
        )
    }
}

impl Instruction {
    /// Every operand is in range: registers below 16, nibbles below 16,
    /// addresses below 4096.
    pub open spec fn operands_in_range(self) -> bool {
        match self {
            Instruction::Jump { addr } | Instruction::Call { addr } | Instruction::SetIndex { addr }
            | Instruction::JumpOffset { addr } => addr < 0x1000,
            Instruction::SkipIfEqualImm { x, .. } | Instruction::SkipIfNotEqualImm { x, .. }
            | Instruction::SetImm { x, .. } | Instruction::AddImm { x, .. }
            | Instruction::Random { x, .. } | Instruction::SkipIfPressed { x }
            | Instruction::SkipIfNotPressed { x } | Instruction::ReadDelay { x }
            | Instruction::WaitKey { x } | Instruction::SetDelay { x } | Instruction::SetSound { x }
            | Instruction::AddIndex { x } | Instruction::GlyphAddress { x }
            | Instruction::StoreBcd { x } | Instruction::StoreRegisters { x }
            | Instruction::LoadRegisters { x } => x < 16,
            Instruction::SkipIfEqualReg { x, y } | Instruction::Copy { x, y }
            | Instruction::Or { x, y } | Instruction::And { x, y } | Instruction::Xor { x, y }
            | Instruction::AddCarry { x, y } | Instruction::SubBorrow { x, y }
            | Instruction::ShiftRight { x, y } | Instruction::SubReverse { x, y }
            | Instruction::ShiftLeft { x, y } | Instruction::SkipIfNotEqualReg { x, y } => x < 16
                && y < 16,
            Instruction::Draw { x, y, n } => x < 16 && y < 16 && n < 16,
            Instruction::ClearScreen | Instruction::Return | Instruction::Unrecognized { .. } => true,
        }
    }
}

/// Decodes one instruction word.
///
/// Fails with `UnknownOpcode` exactly on the words of the `0` family other
/// than `0000`, `00E0` and `00EE`; an unknown sub-code of the `8`, `E` and `F`
/// families decodes to `Unrecognized`.
pub fn decode(w: u16) -> (r: Result<Instruction, Chip8Error>)
    ensures
        r == decoded(w),
        r matches Ok(ins) ==> ins.operands_in_range(),
{
    let op = w / 0x1000;
    let x = ((w / 0x100) % 0x10) as u8;
    let y = ((w / 0x10) % 0x10) as u8;
    let n = (w % 0x10) as u8;
    let nn = (w % 0x100) as u8;
    let addr = w % 0x1000;
    match op {
        0x0 => {
            if w == 0x00E0 || w == 0x0000 {
                Ok(Instruction::ClearScreen)
            } else if w == 0x00EE {
                Ok(Instruction::Return)
            } else {
                Err(Chip8Error::UnknownOpcode { word: w })
            }
        },
        0x1 => Ok(Instruction::Jump { addr }),
        0x2 => Ok(Instruction::Call { addr }),
        0x3 => Ok(Instruction::SkipIfEqualImm { x, nn }),
        0x4 => Ok(Instruction::SkipIfNotEqualImm { x, nn }),
        0x5 => Ok(Instruction::SkipIfEqualReg { x, y }),
        0x6 => Ok(Instruction::SetImm { x, nn }),
        0x7 => Ok(Instruction::AddImm { x, nn }),
        0x8 => Ok(
            match n {
                0x0 => Instruction::Copy { x, y },
                0x1 => Instruction::Or { x, y },
                0x2 => Instruction::And { x, y },
                0x3 => Instruction::Xor { x, y },
                0x4 => Instruction::AddCarry { x, y },
                0x5 => Instruction::SubBorrow { x, y },
                0x6 => Instruction::ShiftRight { x, y },
                0x7 => Instruction::SubReverse { x, y },
                0xE => Instruction::ShiftLeft { x, y },
                _ => Instruction::Unrecognized { word: w },
            },
        ),
        0x9 => Ok(Instruction::SkipIfNotEqualReg { x, y }),
        0xA => Ok(Instruction::SetIndex { addr }),
        0xB => Ok(Instruction::JumpOffset { addr }),
        0xC => Ok(Instruction::Random { x, nn }),
        0xD => Ok(Instruction::Draw { x, y, n }),
        0xE => Ok(
            match nn {
                0x9E => Instruction::SkipIfPressed { x },
                0xA1 => Instruction::SkipIfNotPressed { x },
                _ => Instruction::Unrecognized { word: w },
            },
        ),
        _ => Ok(
            match nn {
                0x07 => Instruction::ReadDelay { x },
                0x0A => Instruction::WaitKey { x },
                0x15 => Instruction::SetDelay { x },
                0x18 => Instruction::SetSound { x },
                0x1E => Instruction::AddIndex { x },
                0x29 => Instruction::GlyphAddress { x },
                0x33 => Instruction::StoreBcd { x },
                0x55 => Instruction::StoreRegisters { x },
                0x65 => Instruction::LoadRegisters { x },
                _ => Instruction::Unrecognized { word: w },
            },
        ),
    }
}

} // verus!
