//! Instruction decoding: from a 16-bit instruction word to an [`Opcode`].
//!
//! An instruction is four nibbles `n0 n1 n2 n3`, most significant first. The
//! operand fields are `X = n1` and `Y = n2` (register indices), `N = n3`,
//! `NN` (the low byte) and `NNN` (the low twelve bits).

use vstd::prelude::*;

verus! {

/// One decoded instruction with its operand fields.
#[derive(Clone, Copy, Debug, PartialEq, Eq, Structural)]
pub enum Opcode {
    /// `00E0`: clear the display.
    ClearScreen,
    /// `00EE`: return from a subroutine.
    Return,
    /// `0NNN`: legacy machine-routine call, which does nothing.
    MachineRoutine { nnn: u16 },
    /// `1NNN`: jump to `nnn`.
    Jump { nnn: u16 },
    /// `2NNN`: call the subroutine at `nnn`.
    Call { nnn: u16 },
    /// `3XNN`: skip the next instruction if `regs[x] == nn`.
    SkipEqImm { x: u8, nn: u8 },
    /// `4XNN`: skip the next instruction if `regs[x] != nn`.
    SkipNeImm { x: u8, nn: u8 },
    /// `5XY0`: skip the next instruction if `regs[x] == regs[y]`.
    SkipEqReg { x: u8, y: u8 },
    /// `6XNN`: `regs[x] = nn`.
    LoadImm { x: u8, nn: u8 },
    /// `7XNN`: `regs[x] += nn`, wrapping, flag untouched.
    AddImm { x: u8, nn: u8 },
    /// `8XY0`: `regs[x] = regs[y]`.
    Move { x: u8, y: u8 },
    /// `8XY1`: `regs[x] |= regs[y]`.
    Or { x: u8, y: u8 },
    /// `8XY2`: `regs[x] &= regs[y]`.
    And { x: u8, y: u8 },
    /// `8XY3`: `regs[x] ^= regs[y]`.
    Xor { x: u8, y: u8 },
    /// `8XY4`: `regs[x] += regs[y]`, wrapping, flag = carry.
    AddReg { x: u8, y: u8 },
    /// `8XY5`: `regs[x] -= regs[y]`, wrapping, flag = no borrow.
    SubReg { x: u8, y: u8 },
    /// `8XY6`: flag = lowest bit of `regs[x]`, then `regs[x] >>= 1`.
    ShiftRight { x: u8 },
    /// `8XY7`: `regs[x] = regs[y] - regs[x]`, wrapping, flag = no borrow.
    SubFrom { x: u8, y: u8 },
    /// `8XYE`: flag = highest bit of `regs[x]`, then `regs[x] <<= 1`.
    ShiftLeft { x: u8 },
    /// `9XY0`: skip the next instruction if `regs[x] != regs[y]`.
    SkipNeReg { x: u8, y: u8 },
    /// `ANNN`: `idx = nnn`.
    LoadIndex { nnn: u16 },
    /// `BNNN`: jump to `regs[0] + nnn`.
    JumpOffset { nnn: u16 },
    /// `CXNN`: `regs[x] = random byte & nn`.
    Random { x: u8, nn: u8 },
    /// `DXYN`: draw an `n`-row sprite at `(regs[x], regs[y])`.
    Draw { x: u8, y: u8, n: u8 },
    /// `EX9E`: skip the next instruction if key `regs[x]` is held down.
    SkipKey { x: u8 },
    /// `EXA1`: skip the next instruction if key `regs[x]` is not held down.
    SkipNoKey { x: u8 },
    /// `FX07`: `regs[x] = delay timer`.
    GetDelay { x: u8 },
    /// `FX0A`: wait for a key and store its index in `regs[x]`.
    WaitKey { x: u8 },
    /// `FX15`: `delay timer = regs[x]`.
    SetDelay { x: u8 },
    /// `FX18`: `sound timer = regs[x]`.
    SetSound { x: u8 },
    /// `FX1E`: `idx += regs[x]`, wrapping.
    AddIndex { x: u8 },
    /// `FX29`: `idx` = address of the glyph for the low nibble of `regs[x]`.
    FontAddr { x: u8 },
    /// `FX33`: store the three decimal digits of `regs[x]` at `idx`.
    Bcd { x: u8 },
    /// `FX55`: store `regs[0..=x]` at `idx`.
    Store { x: u8 },
    /// `FX65`: load `regs[0..=x]` from `idx`.
    Load { x: u8 },
    /// Any other pattern. Carries the whole instruction word.
    Invalid { instruction: u16 },
}

impl Opcode {
    /// The instructions that only move the program counter or the stack, and
    /// those that do nothing.
    pub open spec fn is_flow(self) -> bool {
        self is Return || self is MachineRoutine || self is Jump || self is Call
            || self is SkipEqImm || self is SkipNeImm || self is SkipEqReg || self is SkipNeReg
            || self is JumpOffset || self is SkipKey || self is SkipNoKey || self is Invalid
    }

    /// The instructions that write one register and nothing else.
    pub open spec fn is_register(self) -> bool {
        self is LoadImm || self is AddImm || self is Move || self is Or || self is And
            || self is Xor || self is Random || self is GetDelay
    }

    /// The instructions that write a register and then the flag.
    pub open spec fn is_flagged(self) -> bool {
        self is AddReg || self is SubReg || self is ShiftRight || self is SubFrom
            || self is ShiftLeft
    }

    /// The instructions that write the index register or a timer.
    pub open spec fn is_special(self) -> bool {
        self is LoadIndex || self is SetDelay || self is SetSound || self is AddIndex
            || self is FontAddr
    }

    /// Every operand lies in the range its field of the instruction word can
    /// hold: register indices and `n` below 16, `nnn` below 4096.
    pub open spec fn wf(self) -> bool {
        match self {
            Opcode::ClearScreen | Opcode::Return | Opcode::Invalid { .. } => true,
            Opcode::MachineRoutine { nnn }
            | Opcode::Jump { nnn }
            | Opcode::Call { nnn }
            | Opcode::LoadIndex { nnn }
            | Opcode::JumpOffset { nnn } => nnn < 4096,
            Opcode::SkipEqImm { x, .. }
            | Opcode::SkipNeImm { x, .. }
            | Opcode::LoadImm { x, .. }
            | Opcode::AddImm { x, .. }
            | Opcode::Random { x, .. }
            | Opcode::ShiftRight { x }
            | Opcode::ShiftLeft { x }
            | Opcode::SkipKey { x }
            | Opcode::SkipNoKey { x }
            | Opcode::GetDelay { x }
            | Opcode::WaitKey { x }
            | Opcode::SetDelay { x }
            | Opcode::SetSound { x }
            | Opcode::AddIndex { x }
            | Opcode::FontAddr { x }
            | Opcode::Bcd { x }
            | Opcode::Store { x }
            | Opcode::Load { x } => x < 16,
            Opcode::SkipEqReg { x, y }
            | Opcode::Move { x, y }
            | Opcode::Or { x, y }
            | Opcode::And { x, y }
            | Opcode::Xor { x, y }
            | Opcode::AddReg { x, y }
            | Opcode::SubReg { x, y }
            | Opcode::SubFrom { x, y }
            | Opcode::SkipNeReg { x, y } => x < 16 && y < 16,
            Opcode::Draw { x, y, n } => x < 16 && y < 16 && n < 16,
        }
    }
}

/// The `k`-th nibble of an instruction word, counted from the most
/// significant one (`k` in `0..4`).
pub open spec fn nibble(instruction: u16, k: int) -> u8 {
    if k == 0 {
        (instruction / 4096) as u8
    } else if k == 1 {
        (instruction / 256 % 16) as u8
    } else if k == 2 {
        (instruction / 16 % 16) as u8
    } else {
        (instruction % 16) as u8
    }
}

/// The `NN` field: the low byte.
pub open spec fn low_byte(instruction: u16) -> u8 {
    (instruction % 256) as u8
}

/// The `NNN` field: the low twelve bits.
pub open spec fn low_twelve(instruction: u16) -> u16 {
    instruction % 4096
}

/// Decoding of the `8XY_` group, by the last nibble.
pub open spec fn decode_alu(x: u8, y: u8, n: u8, instruction: u16) -> Opcode {
    if n == 0x0 {
        Opcode::Move { x, y }
    } else if n == 0x1 {
        Opcode::Or { x, y }
    } else if n == 0x2 {
        Opcode::And { x, y }
    } else if n == 0x3 {
        Opcode::Xor { x, y }
    } else if n == 0x4 {
        Opcode::AddReg { x, y }
    } else if n == 0x5 {
        Opcode::SubReg { x, y }
    } else if n == 0x6 {
        Opcode::ShiftRight { x }
    } else if n == 0x7 {
        Opcode::SubFrom { x, y }
    } else if n == 0xE {
        Opcode::ShiftLeft { x }
    } else {
        Opcode::Invalid { instruction }
    }
}

/// Decoding of the `FX__` group, by the low byte.
pub open spec fn decode_misc(x: u8, nn: u8, instruction: u16) -> Opcode {
    if nn == 0x07 {
        Opcode::GetDelay { x }
    } else if nn == 0x0A {
        Opcode::WaitKey { x }
    } else if nn == 0x15 {
        Opcode::SetDelay { x }
    } else if nn == 0x18 {
        Opcode::SetSound { x }
    } else if nn == 0x1E {
        Opcode::AddIndex { x }
    } else if nn == 0x29 {
        Opcode::FontAddr { x }
    } else if nn == 0x33 {
        Opcode::Bcd { x }
    } else if nn == 0x55 {
        Opcode::Store { x }
    } else if nn == 0x65 {
        Opcode::Load { x }
    } else {
        Opcode::Invalid { instruction }
    }
}

/// What an instruction word means: the dispatch on its nibble pattern.
pub open spec fn decode_spec(instruction: u16) -> Opcode {
    let n0 = nibble(instruction, 0);
    let x = nibble(instruction, 1);
    let y = nibble(instruction, 2);
    let n = nibble(instruction, 3);
    let nn = low_byte(instruction);
    let nnn = low_twelve(instruction);
    if n0 == 0x0 {
        if instruction == 0x00E0 {
            Opcode::ClearScreen
        } else if instruction == 0x00EE {
            Opcode::Return
        } else {
            Opcode::MachineRoutine { nnn }
        }
    } else if n0 == 0x1 {
        Opcode::Jump { nnn }
    } else if n0 == 0x2 {
        Opcode::Call { nnn }
    } else if n0 == 0x3 {
        Opcode::SkipEqImm { x, nn }
    } else if n0 == 0x4 {
        Opcode::SkipNeImm { x, nn }
    } else if n0 == 0x5 {
        if n == 0 {
            Opcode::SkipEqReg { x, y }
        } else {
            Opcode::Invalid { instruction }
        }
    } else if n0 == 0x6 {
        Opcode::LoadImm { x, nn }
    } else if n0 == 0x7 {
        Opcode::AddImm { x, nn }
    } else if n0 == 0x8 {
        decode_alu(x, y, n, instruction)
    } else if n0 == 0x9 {
        if n == 0 {
            Opcode::SkipNeReg { x, y }
        } else {
            Opcode::Invalid { instruction }
        }
    } else if n0 == 0xA {
        Opcode::LoadIndex { nnn }
    } else if n0 == 0xB {
        Opcode::JumpOffset { nnn }
    } else if n0 == 0xC {
        Opcode::Random { x, nn }
    } else if n0 == 0xD {
        Opcode::Draw { x, y, n }
    } else if n0 == 0xE {
        if nn == 0x9E {
            Opcode::SkipKey { x }
        } else if nn == 0xA1 {
            Opcode::SkipNoKey { x }
        } else {
            Opcode::Invalid { instruction }
        }
    } else {
        decode_misc(x, nn, instruction)
    }
}

/// Every instruction word decodes to an opcode whose operands are in range.
pub proof fn lemma_decode_wf(instruction: u16)
    ensures
        decode_spec(instruction).wf(),
{
}

/// Splits an instruction word into its four nibbles, most significant first.
pub fn nibbles(instruction: u16) -> (ns: (u8, u8, u8, u8))
    ensures
        ns.0 == nibble(instruction, 0),
        ns.1 == nibble(instruction, 1),
        ns.2 == nibble(instruction, 2),
        ns.3 == nibble(instruction, 3),
{
    assert((instruction >> 12) & 0xF == instruction / 4096 && (instruction >> 8) & 0xF
        == instruction / 256 % 16 && (instruction >> 4) & 0xF == instruction / 16 % 16
        && instruction & 0xF == instruction % 16) by (bit_vector);
    (
        ((instruction >> 12) & 0xF) as u8,
        ((instruction >> 8) & 0xF) as u8,
        ((instruction >> 4) & 0xF) as u8,
        (instruction & 0xF) as u8,
    )
}

/// Decodes one instruction word.
#[verifier::when_used_as_spec(decode_spec)]
pub fn decode(instruction: u16) -> (op: Opcode)
    ensures
        op == decode_spec(instruction),
        op.wf(),
{
    let (n0, x, y, n) = nibbles(instruction);
    assert(instruction & 0xFF == instruction % 256 && instruction & 0xFFF == instruction % 4096)
        by (bit_vector);
    let nn: u8 = (instruction & 0xFF) as u8;
    let nnn: u16 = instruction & 0xFFF;
    match (n0, x, y, n) {
        (0x0, 0x0, 0xE, 0x0) => Opcode::ClearScreen,
        (0x0, 0x0, 0xE, 0xE) => Opcode::Return,
        (0x0, _, _, _) => Opcode::MachineRoutine { nnn },
        (0x1, _, _, _) => Opcode::Jump { nnn },
        (0x2, _, _, _) => Opcode::Call { nnn },
        (0x3, _, _, _) => Opcode::SkipEqImm { x, nn },
        (0x4, _, _, _) => Opcode::SkipNeImm { x, nn },
        (0x5, _, _, 0x0) => Opcode::SkipEqReg { x, y },
        (0x6, _, _, _) => Opcode::LoadImm { x, nn },
        (0x7, _, _, _) => Opcode::AddImm { x, nn },
        (0x8, _, _, 0x0) => Opcode::Move { x, y },
        (0x8, _, _, 0x1) => Opcode::Or { x, y },
        (0x8, _, _, 0x2) => Opcode::And { x, y },
        (0x8, _, _, 0x3) => Opcode::Xor { x, y },
        (0x8, _, _, 0x4) => Opcode::AddReg { x, y },
        (0x8, _, _, 0x5) => Opcode::SubReg { x, y },
        (0x8, _, _, 0x6) => Opcode::ShiftRight { x },
        (0x8, _, _, 0x7) => Opcode::SubFrom { x, y },
        (0x8, _, _, 0xE) => Opcode::ShiftLeft { x },
        (0x9, _, _, 0x0) => Opcode::SkipNeReg { x, y },
        (0xA, _, _, _) => Opcode::LoadIndex { nnn },
        (0xB, _, _, _) => Opcode::JumpOffset { nnn },
        (0xC, _, _, _) => Opcode::Random { x, nn },
        (0xD, _, _, _) => Opcode::Draw { x, y, n },
        (0xE, _, 0x9, 0xE) => Opcode::SkipKey { x },
        (0xE, _, 0xA, 0x1) => Opcode::SkipNoKey { x },
        (0xF, _, 0x0, 0x7) => Opcode::GetDelay { x },
        (0xF, _, 0x0, 0xA) => Opcode::WaitKey { x },
        (0xF, _, 0x1, 0x5) => Opcode::SetDelay { x },
        (0xF, _, 0x1, 0x8) => Opcode::SetSound { x },
        (0xF, _, 0x1, 0xE) => Opcode::AddIndex { x },
        (0xF, _, 0x2, 0x9) => Opcode::FontAddr { x },
        (0xF, _, 0x3, 0x3) => Opcode::Bcd { x },
        (0xF, _, 0x5, 0x5) => Opcode::Store { x },
        (0xF, _, 0x6, 0x5) => Opcode::Load { x },
        _ => Opcode::Invalid { instruction },
    }
}

} // verus!
