use vstd::prelude::*;

use crate::Chip8Error;
use crate::VARIABLE_REGISTER_SIZE;

verus! {

/// Nibble 1 of an instruction word: its top four bits.
pub open spec fn high_nibble(w: u16) -> u16 {
    (w >> 12) & 0xF
}

/// Nibble 2 of an instruction word, naming the Vx register.
pub open spec fn x_nibble(w: u16) -> u16 {
    (w >> 8) & 0xF
}

/// Nibble 3 of an instruction word, naming the Vy register.
pub open spec fn y_nibble(w: u16) -> u16 {
    (w >> 4) & 0xF
}

/// Nibble 4 of an instruction word: its bottom four bits.
pub open spec fn low_nibble(w: u16) -> u16 {
    w & 0xF
}

/// The immediate byte of an instruction word: its low 8 bits.
pub open spec fn immediate_byte(w: u16) -> u16 {
    w & 0xFF
}

/// The address field of an instruction word: its low 12 bits.
pub open spec fn address_field(w: u16) -> u16 {
    w & 0xFFF
}

/// Each nibble is a 4-bit value and the address field a 12-bit value.
pub proof fn lemma_field_bounds(w: u16)
    ensures
        high_nibble(w) < 16,
        x_nibble(w) < 16,
        y_nibble(w) < 16,
        low_nibble(w) < 16,
        immediate_byte(w) < 256,
        address_field(w) < 4096,
{
    assert((w >> 12) & 0xF < 16 && (w >> 8) & 0xF < 16 && (w >> 4) & 0xF < 16 && w & 0xF < 16 && w
        & 0xFF < 256 && w & 0xFFF < 4096) by (bit_vector);
}

/// One decoded CHIP-8 operation. Register operands are indices into the
/// 16-entry register file; the decoder only ever produces indices below 16.
#[derive(Clone, Copy, Debug, PartialEq, Eq, Structural)]
pub enum Instruction {
    ClearScreen,
    Jump(u16),
    Call(u16),
    Return,
    SkipEqVal { register: usize, value: u8 },
    SkipNeVal { register: usize, value: u8 },
    SkipEqReg { x_register: usize, y_register: usize },
    SkipNeReg { x_register: usize, y_register: usize },
    SetRegister { register: usize, value: u8 },
    AddRegister { register: usize, value: u8 },
    SetIndex(u16),
    Draw { x_register: usize, y_register: usize, count: u8 },
}

impl Instruction {
    /// Every register operand names one of the 16 registers. The decoder
    /// establishes this once, centrally; the executor rejects anything else.
    pub open spec fn wf(self) -> bool {
        match self {
            Instruction::SkipEqVal { register, .. } => register < VARIABLE_REGISTER_SIZE,
            Instruction::SkipNeVal { register, .. } => register < VARIABLE_REGISTER_SIZE,
            Instruction::SkipEqReg { x_register, y_register } => x_register
                < VARIABLE_REGISTER_SIZE && y_register < VARIABLE_REGISTER_SIZE,
            Instruction::SkipNeReg { x_register, y_register } => x_register
                < VARIABLE_REGISTER_SIZE && y_register < VARIABLE_REGISTER_SIZE,
            Instruction::SetRegister { register, .. } => register < VARIABLE_REGISTER_SIZE,
            Instruction::AddRegister { register, .. } => register < VARIABLE_REGISTER_SIZE,
            Instruction::Draw { x_register, y_register, .. } => x_register
                < VARIABLE_REGISTER_SIZE && y_register < VARIABLE_REGISTER_SIZE,
            _ => true,
        }
    }

    /// What each 16-bit word decodes to, keyed on its four nibbles.
    pub open spec fn decode_spec(w: u16) -> Result<Instruction, Chip8Error> {
        if w == 0x00E0 {
            Ok(Instruction::ClearScreen)
        } else if w == 0x00EE {
            Ok(Instruction::Return)
        } else if high_nibble(w) == 0x1 {
            Ok(Instruction::Jump(address_field(w)))
        } else if high_nibble(w) == 0x2 {
            Ok(Instruction::Call(address_field(w)))
        } else if high_nibble(w) == 0x3 {
            Ok(
                Instruction::SkipEqVal {
                    register: x_nibble(w) as usize,
                    value: immediate_byte(w) as u8,
                },
            )
        } else if high_nibble(w) == 0x4 {
            Ok(
                Instruction::SkipNeVal {
                    register: x_nibble(w) as usize,
                    value: immediate_byte(w) as u8,
                },
            )
        } else if high_nibble(w) == 0x5 && low_nibble(w) == 0x0 {
            Ok(
                Instruction::SkipEqReg {
                    x_register: x_nibble(w) as usize,
                    y_register: y_nibble(w) as usize,
                },
            )
        } else if high_nibble(w) == 0x9 && low_nibble(w) == 0x0 {
            Ok(
                Instruction::SkipNeReg {
                    x_register: x_nibble(w) as usize,
                    y_register: y_nibble(w) as usize,
                },
            )
        } else if high_nibble(w) == 0x6 {
            Ok(
                Instruction::SetRegister {
                    register: x_nibble(w) as usize,
                    value: immediate_byte(w) as u8,
                },
            )
        } else if high_nibble(w) == 0x7 {
            Ok(
                Instruction::AddRegister {
                    register: x_nibble(w) as usize,
                    value: immediate_byte(w) as u8,
                },
            )
        } else if high_nibble(w) == 0xA {
            Ok(Instruction::SetIndex(address_field(w)))
        } else if high_nibble(w) == 0xD {
            Ok(
                Instruction::Draw {
                    x_register: x_nibble(w) as usize,
                    y_register: y_nibble(w) as usize,
                    count: low_nibble(w) as u8,
                },
            )
        } else {
            Err(Chip8Error::UnknownOpcode(w))
        }
    }

    /// Maps a fetched 16-bit word to its instruction, exactly as the nibble
    /// table of `decode_spec` says; unrecognized words fail with
    /// `UnknownOpcode` carrying the raw word.
    pub fn decode(w: u16) -> (r: Result<Instruction, Chip8Error>)
        ensures
            r == Instruction::decode_spec(w),
            r is Ok ==> r->Ok_0.wf(),
    {
        proof {
            lemma_field_bounds(w);
            assert((w == 0x00E0) == ((w >> 12) & 0xF == 0 && (w >> 8) & 0xF == 0 && (w >> 4) & 0xF
                == 0xE && (w & 0xF) == 0)) by (bit_vector);
            assert((w == 0x00EE) == ((w >> 12) & 0xF == 0 && (w >> 8) & 0xF == 0 && (w >> 4) & 0xF
                == 0xE && (w & 0xF) == 0xE)) by (bit_vector);
        }
        let first = (w >> 12) & 0xF;
        let second = (w >> 8) & 0xF;
        let third = (w >> 4) & 0xF;
        let fourth = w & 0xF;
        let number = (w & 0xFF) as u8;
        let address = w & 0xFFF;
        match first {
            0x0 => {
                if second == 0x0 && third == 0xE {
                    if fourth == 0x0 {
                        return Ok(Instruction::ClearScreen);
                    }
                    if fourth == 0xE {
                        return Ok(Instruction::Return);
                    }
                }
                Err(Chip8Error::UnknownOpcode(w))
            },
            0x1 => Ok(Instruction::Jump(address)),
            0x2 => Ok(Instruction::Call(address)),
            0x3 => Ok(Instruction::SkipEqVal { register: second as usize, value: number }),
            0x4 => Ok(Instruction::SkipNeVal { register: second as usize, value: number }),
            0x5 => {
                if fourth == 0x0 {
                    Ok(
                        Instruction::SkipEqReg {
                            x_register: second as usize,
                            y_register: third as usize,
                        },
                    )
                } else {
                    Err(Chip8Error::UnknownOpcode(w))
                }
            },
            0x9 => {
                if fourth == 0x0 {
                    Ok(
                        Instruction::SkipNeReg {
                            x_register: second as usize,
                            y_register: third as usize,
                        },
                    )
                } else {
                    Err(Chip8Error::UnknownOpcode(w))
                }
            },
            0x6 => Ok(Instruction::SetRegister { register: second as usize, value: number }),
            0x7 => Ok(Instruction::AddRegister { register: second as usize, value: number }),
            0xA => Ok(Instruction::SetIndex(address)),
            0xD => Ok(
                Instruction::Draw {
                    x_register: second as usize,
                    y_register: third as usize,
                    count: fourth as u8,
                },
            ),
            _ => Err(Chip8Error::UnknownOpcode(w)),
        }
    }
}

/// Selects one of the four nibbles of an instruction word, counted from the
/// top; fails for a position outside 1..=4.
pub fn nth_nibble(instruction: u16, nth: u8) -> (r: Result<u8, Chip8Error>)
    ensures
        nth == 1 ==> r == Ok::<u8, Chip8Error>(high_nibble(instruction) as u8),
        nth == 2 ==> r == Ok::<u8, Chip8Error>(x_nibble(instruction) as u8),
        nth == 3 ==> r == Ok::<u8, Chip8Error>(y_nibble(instruction) as u8),
        nth == 4 ==> r == Ok::<u8, Chip8Error>(low_nibble(instruction) as u8),
        nth < 1 || nth > 4 ==> r == Err::<u8, Chip8Error>(Chip8Error::OutOfBounds),
{
    match nth {
        1 => Ok(((instruction >> 12) & 0xF) as u8),
        2 => Ok(((instruction >> 8) & 0xF) as u8),
        3 => Ok(((instruction >> 4) & 0xF) as u8),
        4 => Ok((instruction & 0xF) as u8),
        _ => Err(Chip8Error::OutOfBounds),
    }
}

/// Whether sprite row byte `byte` has its pixel set in column `col`; bit 7
/// is the leftmost column.
pub open spec fn sprite_bit(byte: u8, col: int) -> bool {
    ((byte >> ((7 - col) as u8)) & 1) == 1
}

/// Expands a sprite row byte to its 8 pixel bits, most significant first.
pub fn get_bits(byte: u8) -> (r: Vec<bool>)
    ensures
        r@.len() == 8,
        forall|c: int| 0 <= c < 8 ==> r@[c] == sprite_bit(byte, c),
{
    let mut bits: Vec<bool> = Vec::new();
    let mut i: usize = 0;
    while i < 8
        invariant
            i <= 8,
            bits@.len() == i,
            forall|c: int| 0 <= c < i ==> bits@[c] == sprite_bit(byte, c),
        decreases 8 - i,
    {
        let shift = (7 - i) as u8;
        let bit = ((byte >> shift) & 1) == 1;
        bits.push(bit);
        i = i + 1;
    }
    bits
}

} // verus!
