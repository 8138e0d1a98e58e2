//! The instruction set: the instructions, the errors that end a step, and the
//! encoding of instructions in 16-bit words.

use vstd::prelude::*;

verus! {

/// One instruction. In the encodings below `X` and `Y` are register numbers,
/// `N` is a nibble, `NN` a byte and `NNN` a 12-bit address; `VX` is the value
/// of register `X` and `I` the index register.
#[derive(Clone, Copy, Debug, PartialEq, Eq, Structural)]
pub enum Opcode {
    /// `0NNN`: call the host machine's routine at `NNN`.
    CallRCAProgram(u16),
    /// `00E0`: clear the display.
    ClearDisplay,
    /// `00EE`: return from a subroutine.
    ReturnFromSubroutine,
    /// `1NNN`: jump to `NNN`.
    JumpToAddr(u16),
    /// `2NNN`: call the subroutine at `NNN`.
    CallSubroutine(u16),
    /// `3XNN`: skip the next instruction if `VX == NN`.
    SkipIfRegisterSet { addr: u16, value: u16 },
    /// `4XNN`: skip the next instruction if `VX != NN`.
    SkipIfRegisterNotSet { addr: u16, value: u16 },
    /// `5XY_`: skip the next instruction if `VX == VY`.
    SkipIfRegistersEqual { first: u16, second: u16 },
    /// `6XNN`: `VX = NN`.
    SetRegister { addr: u16, value: u16 },
    /// `7XNN`: `VX = VX + NN`, without a carry flag.
    AddToRegister { addr: u16, value: u16 },
    /// `8XY0`: `VX = VY`.
    AssignRegister { first: u16, second: u16 },
    /// `8XY1`: `VX = VX | VY`.
    AssignRegisterBitwiseOr { first: u16, second: u16 },
    /// `8XY2`: `VX = VX & VY`.
    AssignRegisterBitwiseAnd { first: u16, second: u16 },
    /// `8XY3`: `VX = VX ^ VY`.
    AssignRegisterBitwiseXor { first: u16, second: u16 },
    /// `8XY4`: `VX = VX + VY`, with the carry in `VF`.
    AddRegisters { first: u16, second: u16 },
    /// `8XY5`: `VX = VX - VY`, with "no borrow" in `VF`.
    SubtractRegisters { first: u16, second: u16 },
    /// `8XY6`: `VX = VY >> 1`, with the bit shifted out in `VF`.
    AssignRegisterBitshiftRight { first: u16, second: u16 },
    /// `8XY7`: `VX = VY - VX`, with "no borrow" in `VF`.
    SubtractFirstRegister { first: u16, second: u16 },
    /// `8XYE`: `VX = VY << 1`, with the bit shifted out in `VF`.
    AssignRegistersBitshiftLeft { first: u16, second: u16 },
    /// `9XY_`: skip the next instruction if `VX != VY`.
    SkipIfRegistersNotEqual { first: u16, second: u16 },
    /// `ANNN`: `I = NNN`.
    SetIndexRegister(u16),
    /// `BNNN`: jump to `NNN + V0`.
    SetProgramCounter(u16),
    /// `CXNN`: `VX =` a random byte `& NN`.
    AssignRandomValue { addr: u16, value: u16 },
    /// `DXYN`: draw the `N`-row sprite at `I` with its corner at `(VX, VY)`.
    Draw { x: u16, y: u16, height: u16 },
    /// `EX9E`: skip the next instruction if key `VX` is pressed.
    SkipIfKeyPressed(u16),
    /// `EXA1`: skip the next instruction if key `VX` is not pressed.
    SkipIfKeyNotPressed(u16),
    /// `FX07`: `VX =` the delay timer.
    AssignToDelayTime(u16),
    /// `FX0A`: wait for a key and put its number in `VX`.
    AssignOnKeyPress(u16),
    /// `FX15`: the delay timer `= VX`.
    SetDelayTimer(u16),
    /// `FX18`: the sound timer `= VX`.
    SetSoundTimer(u16),
    /// `FX1E`: `I = I + VX`.
    AddToIndexRegister(u16),
    /// `FX29`: `I =` the address of the glyph for the digit `VX`.
    SetIndexRegisterToSpriteAddr(u16),
    /// `FX33`: store the decimal digits of `VX` at `I`, `I + 1`, `I + 2`.
    SetBCD(u16),
    /// `FX55`: store `V0..=VX` in memory from `I` on.
    DumpRegister(u16),
    /// `FX65`: load `V0..=VX` from memory from `I` on.
    LoadRegister(u16),
}

/// Why a step ended without effect, or why a program was not loaded.
#[derive(Clone, Copy, Debug, PartialEq, Eq, Structural)]
pub enum CpuError {
    /// The word, given here, encodes no instruction.
    IllegalInstruction(u16),
    /// A call with sixteen return addresses already on the stack.
    StackOverflow,
    /// A return with no return address on the stack.
    StackUnderflow,
    /// An instruction names the register with this number, above `0xF`.
    InvalidRegisterIndex(u16),
    /// A key instruction found this value, above `0xF`, in its register.
    InvalidKeyIndex(u8),
    /// The glyph instruction found this value, above `0xF`, in its register.
    InvalidDigit(u8),
    /// An instruction, or the fetch of one, reaches beyond the last byte of
    /// memory; the address it starts from is given.
    MemoryOutOfBounds(u16),
    /// A program of this many bytes does not fit behind the load address.
    RomTooLarge(usize),
}

/// The register number `X`: the second nibble of the word.
pub open spec fn field_x(word: u16) -> u16 {
    ((word / 0x100) % 0x10) as u16
}

/// The register number `Y`: the third nibble of the word.
pub open spec fn field_y(word: u16) -> u16 {
    ((word / 0x10) % 0x10) as u16
}

/// The nibble `N`: the last nibble of the word.
pub open spec fn field_n(word: u16) -> u16 {
    (word % 0x10) as u16
}

/// The byte `NN`: the low byte of the word.
pub open spec fn field_nn(word: u16) -> u16 {
    (word % 0x100) as u16
}

/// The address `NNN`: the low twelve bits of the word.
pub open spec fn field_nnn(word: u16) -> u16 {
    (word % 0x1000) as u16
}

/// The instruction that a word of the `8XY_` family encodes.
pub open spec fn decode_arithmetic(word: u16) -> Result<Opcode, CpuError> {
    let first = field_x(word);
    let second = field_y(word);
    let selector = field_n(word);
    if selector == 0x0 {
        Ok(Opcode::AssignRegister { first, second })
    } else if selector == 0x1 {
        Ok(Opcode::AssignRegisterBitwiseOr { first, second })
    } else if selector == 0x2 {
        Ok(Opcode::AssignRegisterBitwiseAnd { first, second })
    } else if selector == 0x3 {
        Ok(Opcode::AssignRegisterBitwiseXor { first, second })
    } else if selector == 0x4 {
        Ok(Opcode::AddRegisters { first, second })
    } else if selector == 0x5 {
        Ok(Opcode::SubtractRegisters { first, second })
    } else if selector == 0x6 {
        Ok(Opcode::AssignRegisterBitshiftRight { first, second })
    } else if selector == 0x7 {
        Ok(Opcode::SubtractFirstRegister { first, second })
    } else if selector == 0xE {
        Ok(Opcode::AssignRegistersBitshiftLeft { first, second })
    } else {
        Err(CpuError::IllegalInstruction(word))
    }
}

/// The instruction that a word of the `EX__` family encodes.
pub open spec fn decode_key(word: u16) -> Result<Opcode, CpuError> {
    let selector = field_nn(word);
    if selector == 0x9E {
        Ok(Opcode::SkipIfKeyPressed(field_x(word)))
    } else if selector == 0xA1 {
        Ok(Opcode::SkipIfKeyNotPressed(field_x(word)))
    } else {
        Err(CpuError::IllegalInstruction(word))
    }
}

/// The instruction that a word of the `FX__` family encodes.
pub open spec fn decode_misc(word: u16) -> Result<Opcode, CpuError> {
    let x = field_x(word);
    let selector = field_nn(word);
    if selector == 0x07 {
        Ok(Opcode::AssignToDelayTime(x))
    } else if selector == 0x0A {
        Ok(Opcode::AssignOnKeyPress(x))
    } else if selector == 0x15 {
        Ok(Opcode::SetDelayTimer(x))
    } else if selector == 0x18 {
        Ok(Opcode::SetSoundTimer(x))
    } else if selector == 0x1E {
        Ok(Opcode::AddToIndexRegister(x))
    } else if selector == 0x29 {
        Ok(Opcode::SetIndexRegisterToSpriteAddr(x))
    } else if selector == 0x33 {
        Ok(Opcode::SetBCD(x))
    } else if selector == 0x55 {
        Ok(Opcode::DumpRegister(x))
    } else if selector == 0x65 {
        Ok(Opcode::LoadRegister(x))
    } else {
        Err(CpuError::IllegalInstruction(word))
    }
}

/// The instruction that a word encodes, or `IllegalInstruction` with the word
/// where it encodes none. The first nibble selects the family; the families
/// `8`, `E` and `F` select further by their last nibble or byte.
pub open spec fn decode_word(word: u16) -> Result<Opcode, CpuError> {
    let family = word / 0x1000;
    let x = field_x(word);
    let y = field_y(word);
    let nn = field_nn(word);
    let nnn = field_nnn(word);
    if word == 0x00E0 {
        Ok(Opcode::ClearDisplay)
    } else if word == 0x00EE {
        Ok(Opcode::ReturnFromSubroutine)
    } else if family == 0x0 {
        Ok(Opcode::CallRCAProgram(nnn))
    } else if family == 0x1 {
        Ok(Opcode::JumpToAddr(nnn))
    } else if family == 0x2 {
        Ok(Opcode::CallSubroutine(nnn))
    } else if family == 0x3 {
        Ok(Opcode::SkipIfRegisterSet { addr: x, value: nn })
    } else if family == 0x4 {
        Ok(Opcode::SkipIfRegisterNotSet { addr: x, value: nn })
    } else if family == 0x5 {
        Ok(Opcode::SkipIfRegistersEqual { first: x, second: y })
    } else if family == 0x6 {
        Ok(Opcode::SetRegister { addr: x, value: nn })
    } else if family == 0x7 {
        Ok(Opcode::AddToRegister { addr: x, value: nn })
    } else if family == 0x8 {
        decode_arithmetic(word)
    } else if family == 0x9 {
        Ok(Opcode::SkipIfRegistersNotEqual { first: x, second: y })
    } else if family == 0xA {
        Ok(Opcode::SetIndexRegister(nnn))
    } else if family == 0xB {
        Ok(Opcode::SetProgramCounter(nnn))
    } else if family == 0xC {
        Ok(Opcode::AssignRandomValue { addr: x, value: nn })
    } else if family == 0xD {
        Ok(Opcode::Draw { x, y, height: field_n(word) })
    } else if family == 0xE {
        decode_key(word)
    } else {
        decode_misc(word)
    }
}

impl Opcode {
    /// The register numbers that the instruction names, in the order in which
    /// they are checked.
    pub open spec fn registers(self) -> Seq<u16> {
        match self {
            Opcode::CallRCAProgram(_)
            | Opcode::ClearDisplay
            | Opcode::ReturnFromSubroutine
            | Opcode::JumpToAddr(_)
            | Opcode::CallSubroutine(_)
            | Opcode::SetIndexRegister(_)
            | Opcode::SetProgramCounter(_) => seq![],
            Opcode::SkipIfRegisterSet { addr, .. }
            | Opcode::SkipIfRegisterNotSet { addr, .. }
            | Opcode::SetRegister { addr, .. }
            | Opcode::AddToRegister { addr, .. }
            | Opcode::AssignRandomValue { addr, .. } => seq![addr],
            Opcode::SkipIfRegistersEqual { first, second }
            | Opcode::AssignRegister { first, second }
            | Opcode::AssignRegisterBitwiseOr { first, second }
            | Opcode::AssignRegisterBitwiseAnd { first, second }
            | Opcode::AssignRegisterBitwiseXor { first, second }
            | Opcode::AddRegisters { first, second }
            | Opcode::SubtractRegisters { first, second }
            | Opcode::AssignRegisterBitshiftRight { first, second }
            | Opcode::SubtractFirstRegister { first, second }
            | Opcode::AssignRegistersBitshiftLeft { first, second }
            | Opcode::SkipIfRegistersNotEqual { first, second } => seq![first, second],
            Opcode::Draw { x, y, .. } => seq![x, y],
            Opcode::SkipIfKeyPressed(x)
            | Opcode::SkipIfKeyNotPressed(x)
            | Opcode::AssignToDelayTime(x)
            | Opcode::AssignOnKeyPress(x)
            | Opcode::SetDelayTimer(x)
            | Opcode::SetSoundTimer(x)
            | Opcode::AddToIndexRegister(x)
            | Opcode::SetIndexRegisterToSpriteAddr(x)
            | Opcode::SetBCD(x)
            | Opcode::DumpRegister(x)
            | Opcode::LoadRegister(x) => seq![x],
        }
    }

    /// The first register number of the instruction that is no register, if
    /// there is one.
    pub open spec fn invalid_register(self) -> Option<u16> {
        let named = self.registers();
        if named.len() >= 1 && named[0] > 0xF {
            Some(named[0])
        } else if named.len() >= 2 && named[1] > 0xF {
            Some(named[1])
        } else {
            None
        }
    }

    /// Whether the instruction draws a random byte when it is executed.
    pub open spec fn draws_random(self) -> bool {
        self is AssignRandomValue
    }
}

/// Every word either encodes an instruction, all of whose register numbers are
/// registers, or is reported as illegal under its own value.
pub proof fn lemma_decode_total(word: u16)
    ensures
        match decode_word(word) {
            Ok(op) => op.invalid_register() is None,
            Err(e) => e == CpuError::IllegalInstruction(word),
        },
{
}

} // verus!
