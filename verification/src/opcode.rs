//! The eight recognized instruction bytes, and their decoding into a closed
//! set of instruction variants.

use vstd::prelude::*;

verus! {

/// `+` : increment the value at the data pointer.
pub const DATA_VALUE_INC: u8 = 43;

/// `,` : read one character into the current cell.
pub const READ_CHAR: u8 = 44;

/// `-` : decrement the value at the data pointer.
pub const DATA_VALUE_DEC: u8 = 45;

/// `.` : write the current cell as one character.
pub const WRITE_CHAR: u8 = 46;

/// `<` : move the data pointer one cell to the left.
pub const DATA_PTR_DEC: u8 = 60;

/// `>` : move the data pointer one cell to the right.
pub const DATA_PTR_INC: u8 = 62;

/// `[` : jump forward if the current cell is zero.
pub const JUMP_FWD: u8 = 91;

/// `]` : jump backward if the current cell is not zero.
pub const JUMP_BCK: u8 = 93;

/// One instruction of the language. Every byte that is not one of the eight
/// recognized instruction codes decodes to `Ignored` and executes as a no-op,
/// so that comments and whitespace may stand in source text.
#[derive(Clone, Copy, Debug, PartialEq, Eq, Structural)]
pub enum Instr {
    IncValue,
    DecValue,
    IncPtr,
    DecPtr,
    JumpFwd,
    JumpBck,
    Write,
    Read,
    Ignored,
}

/// What a raw program byte means.
pub open spec fn decode(b: u8) -> Instr {
    if b == DATA_VALUE_INC {
        Instr::IncValue
    } else if b == DATA_VALUE_DEC {
        Instr::DecValue
    } else if b == DATA_PTR_INC {
        Instr::IncPtr
    } else if b == DATA_PTR_DEC {
        Instr::DecPtr
    } else if b == JUMP_FWD {
        Instr::JumpFwd
    } else if b == JUMP_BCK {
        Instr::JumpBck
    } else if b == WRITE_CHAR {
        Instr::Write
    } else if b == READ_CHAR {
        Instr::Read
    } else {
        Instr::Ignored
    }
}

/// Decode one raw program byte.
pub fn decode_byte(b: u8) -> (r: Instr)
    ensures
        r == decode(b),
{
    if b == DATA_VALUE_INC {
        Instr::IncValue
    } else if b == DATA_VALUE_DEC {
        Instr::DecValue
    } else if b == DATA_PTR_INC {
        Instr::IncPtr
    } else if b == DATA_PTR_DEC {
        Instr::DecPtr
    } else if b == JUMP_FWD {
        Instr::JumpFwd
    } else if b == JUMP_BCK {
        Instr::JumpBck
    } else if b == WRITE_CHAR {
        Instr::Write
    } else if b == READ_CHAR {
        Instr::Read
    } else {
        Instr::Ignored
    }
}

} // verus!
