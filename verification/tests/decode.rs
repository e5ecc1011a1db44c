use chip8_emulator::get_bits;
use chip8_emulator::nth_nibble;
use chip8_emulator::Chip8Error;
use chip8_emulator::Instruction;

#[test]
fn decode_clear_and_return() {
    assert_eq!(Instruction::decode(0x00E0), Ok(Instruction::ClearScreen));
    assert_eq!(Instruction::decode(0x00EE), Ok(Instruction::Return));
}

#[test]
fn decode_jump_call_index() {
    assert_eq!(Instruction::decode(0x1234), Ok(Instruction::Jump(0x234)));
    assert_eq!(Instruction::decode(0x2ABC), Ok(Instruction::Call(0xABC)));
    assert_eq!(Instruction::decode(0xA050), Ok(Instruction::SetIndex(0x050)));
}

#[test]
fn decode_register_immediates() {
    assert_eq!(
        Instruction::decode(0x600C),
        Ok(Instruction::SetRegister { register: 0, value: 0x0C })
    );
    assert_eq!(
        Instruction::decode(0x730A),
        Ok(Instruction::AddRegister { register: 3, value: 0x0A })
    );
}

#[test]
fn decode_skips() {
    assert_eq!(
        Instruction::decode(0x3305),
        Ok(Instruction::SkipEqVal { register: 3, value: 5 })
    );
    assert_eq!(
        Instruction::decode(0x4305),
        Ok(Instruction::SkipNeVal { register: 3, value: 5 })
    );
    assert_eq!(
        Instruction::decode(0x5120),
        Ok(Instruction::SkipEqReg { x_register: 1, y_register: 2 })
    );
    assert_eq!(
        Instruction::decode(0x9120),
        Ok(Instruction::SkipNeReg { x_register: 1, y_register: 2 })
    );
}

#[test]
fn decode_draw() {
    assert_eq!(
        Instruction::decode(0xD015),
        Ok(Instruction::Draw { x_register: 0, y_register: 1, count: 5 })
    );
}

#[test]
fn decode_unknown_words() {
    assert_eq!(
        Instruction::decode(0x8123),
        Err(Chip8Error::UnknownOpcode(0x8123))
    );
    assert_eq!(
        Instruction::decode(0x0000),
        Err(Chip8Error::UnknownOpcode(0x0000))
    );
    assert_eq!(
        Instruction::decode(0x00EF),
        Err(Chip8Error::UnknownOpcode(0x00EF))
    );
    // The two-register skips require a zero low nibble.
    assert_eq!(
        Instruction::decode(0x5121),
        Err(Chip8Error::UnknownOpcode(0x5121))
    );
    assert_eq!(
        Instruction::decode(0x9129),
        Err(Chip8Error::UnknownOpcode(0x9129))
    );
}

#[test]
fn nth_nibble_selects_from_the_top() {
    assert_eq!(nth_nibble(0xABCD, 1), Ok(0xA));
    assert_eq!(nth_nibble(0xABCD, 2), Ok(0xB));
    assert_eq!(nth_nibble(0xABCD, 3), Ok(0xC));
    assert_eq!(nth_nibble(0xABCD, 4), Ok(0xD));
    assert_eq!(nth_nibble(0xABCD, 0), Err(Chip8Error::OutOfBounds));
    assert_eq!(nth_nibble(0xABCD, 5), Err(Chip8Error::OutOfBounds));
}

#[test]
fn get_bits_most_significant_first() {
    assert_eq!(
        get_bits(0xF0),
        vec![true, true, true, true, false, false, false, false]
    );
    assert_eq!(
        get_bits(0x01),
        vec![false, false, false, false, false, false, false, true]
    );
    assert_eq!(
        get_bits(0xA5),
        vec![true, false, true, false, false, true, false, true]
    );
}
