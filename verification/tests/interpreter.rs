use chip8_emulator::Chip8;
use chip8_emulator::Chip8Error;
use chip8_emulator::Instruction;
use chip8_emulator::DISPLAY_HEIGHT;
use chip8_emulator::DISPLAY_WIDTH;

const PROGRAM_CAPACITY: usize = 4096 - 0x200;

#[test]
fn fresh_machine_starts_clean() {
    let chip = Chip8::new(1, false).unwrap();
    assert_eq!(chip.program_counter(), 0);
    assert_eq!(chip.index_register(), 0);
    assert_eq!(chip.stack_depth(), 0);
    assert_eq!(chip.delay_timer(), 0);
    assert_eq!(chip.sound_timer(), 0);
    for i in 0..16 {
        assert_eq!(chip.register(i), 0);
    }
    let screen = chip.screen();
    assert_eq!(screen.len(), DISPLAY_WIDTH * DISPLAY_HEIGHT);
    assert!(screen.iter().all(|p| !p));
}

#[test]
fn load_program_resets_pc() {
    let mut chip = Chip8::new(1, false).unwrap();
    chip.load_program(&[0x12, 0x00]).unwrap();
    assert_eq!(chip.program_counter(), 0x200);
}

#[test]
fn jump_is_followed_by_a_fetch_at_the_target() {
    // 0x200: jump 0x204; 0x204: V0 := 5. After two ticks the program
    // counter sits past the jump target and the fetch there took effect.
    let mut chip = Chip8::new(2, false).unwrap();
    chip.load_program(&[0x12, 0x04, 0x00, 0x00, 0x60, 0x05]).unwrap();
    chip.update().unwrap();
    assert_eq!(chip.program_counter(), 0x206);
    assert_eq!(chip.register(0), 5);
}

#[test]
fn call_then_return_resumes_after_the_call() {
    // 0x200: call 0x208; 0x208: return. The return must land on 0x202,
    // the address immediately following the 2-byte call.
    let mut chip = Chip8::new(2, false).unwrap();
    chip.load_program(&[0x22, 0x08, 0x00, 0x00, 0x00, 0x00, 0x00, 0x00, 0x00, 0xEE])
        .unwrap();
    chip.update().unwrap();
    assert_eq!(chip.program_counter(), 0x202);
    assert_eq!(chip.stack_depth(), 0);
}

#[test]
fn call_pushes_a_return_address() {
    let mut chip = Chip8::new(1, false).unwrap();
    chip.load_program(&[0x22, 0x08]).unwrap();
    chip.update().unwrap();
    assert_eq!(chip.program_counter(), 0x208);
    assert_eq!(chip.stack_depth(), 1);
}

#[test]
fn return_on_empty_stack_underflows() {
    let mut chip = Chip8::new(1, false).unwrap();
    assert_eq!(
        chip.execute(Instruction::Return),
        Err(Chip8Error::StackUnderflow)
    );
}

#[test]
fn add_register_wraps_and_spares_the_flag() {
    // VF := 7; V3 := 250; V3 += 10. The add wraps to 4 and VF keeps 7.
    let mut chip = Chip8::new(3, false).unwrap();
    chip.load_program(&[0x6F, 0x07, 0x63, 0xFA, 0x73, 0x0A]).unwrap();
    chip.update().unwrap();
    assert_eq!(chip.register(3), 4);
    assert_eq!(chip.register(15), 7);
}

#[test]
fn skip_eq_val_taken_and_not_taken() {
    // V3 := 5; skip if V3 == 5: taken, so the counter moves 4 past the skip.
    let mut chip = Chip8::new(2, false).unwrap();
    chip.load_program(&[0x63, 0x05, 0x33, 0x05]).unwrap();
    chip.update().unwrap();
    assert_eq!(chip.program_counter(), 0x206);

    // V3 := 5; skip if V3 == 6: not taken, the counter moves only 2.
    let mut chip = Chip8::new(2, false).unwrap();
    chip.load_program(&[0x63, 0x05, 0x33, 0x06]).unwrap();
    chip.update().unwrap();
    assert_eq!(chip.program_counter(), 0x204);
}

#[test]
fn skip_ne_val_taken_and_not_taken() {
    let mut chip = Chip8::new(2, false).unwrap();
    chip.load_program(&[0x63, 0x05, 0x43, 0x06]).unwrap();
    chip.update().unwrap();
    assert_eq!(chip.program_counter(), 0x206);

    let mut chip = Chip8::new(2, false).unwrap();
    chip.load_program(&[0x63, 0x05, 0x43, 0x05]).unwrap();
    chip.update().unwrap();
    assert_eq!(chip.program_counter(), 0x204);
}

#[test]
fn skip_eq_reg_taken_and_not_taken() {
    // V1 := 9; V2 := 9; skip if V1 == V2: taken.
    let mut chip = Chip8::new(3, false).unwrap();
    chip.load_program(&[0x61, 0x09, 0x62, 0x09, 0x51, 0x20]).unwrap();
    chip.update().unwrap();
    assert_eq!(chip.program_counter(), 0x208);

    // V1 := 9; V2 := 8: not taken.
    let mut chip = Chip8::new(3, false).unwrap();
    chip.load_program(&[0x61, 0x09, 0x62, 0x08, 0x51, 0x20]).unwrap();
    chip.update().unwrap();
    assert_eq!(chip.program_counter(), 0x206);
}

#[test]
fn skip_ne_reg_taken_and_not_taken() {
    let mut chip = Chip8::new(3, false).unwrap();
    chip.load_program(&[0x61, 0x09, 0x62, 0x08, 0x91, 0x20]).unwrap();
    chip.update().unwrap();
    assert_eq!(chip.program_counter(), 0x208);

    let mut chip = Chip8::new(3, false).unwrap();
    chip.load_program(&[0x61, 0x09, 0x62, 0x09, 0x91, 0x20]).unwrap();
    chip.update().unwrap();
    assert_eq!(chip.program_counter(), 0x206);
}

#[test]
fn load_fills_memory_to_the_brim() {
    let mut chip = Chip8::new(1, false).unwrap();
    let program = vec![0u8; PROGRAM_CAPACITY];
    assert_eq!(chip.load_program(&program), Ok(()));
    assert_eq!(chip.program_counter(), 0x200);
}

#[test]
fn load_one_byte_too_many_changes_nothing() {
    let mut chip = Chip8::new(1, false).unwrap();
    // A program that jumps to 0x234 is in place first.
    chip.load_program(&[0x12, 0x34]).unwrap();
    let too_big = vec![0u8; PROGRAM_CAPACITY + 1];
    assert_eq!(chip.load_program(&too_big), Err(Chip8Error::CapacityExceeded));
    // The program counter still points at the old program, and the old
    // program is still in memory: one tick performs its jump.
    assert_eq!(chip.program_counter(), 0x200);
    chip.update().unwrap();
    assert_eq!(chip.program_counter(), 0x234);
}

#[test]
fn update_reports_unknown_opcodes() {
    // A fresh machine fetches 0x0000 at address 0, which no table row matches.
    let mut chip = Chip8::new(1, false).unwrap();
    assert_eq!(chip.update(), Err(Chip8Error::UnknownOpcode(0)));
}

#[test]
fn update_stops_at_the_first_failure() {
    // Ten ticks requested, but the second instruction is unknown: the
    // first tick's effect stays, the rest are skipped.
    let mut chip = Chip8::new(10, false).unwrap();
    chip.load_program(&[0x63, 0x05, 0x81, 0x23]).unwrap();
    assert_eq!(chip.update(), Err(Chip8Error::UnknownOpcode(0x8123)));
    assert_eq!(chip.register(3), 5);
    // The failing tick had already fetched, so the counter sits past the
    // unknown word.
    assert_eq!(chip.program_counter(), 0x204);
}

#[test]
fn fetch_past_the_end_is_out_of_bounds() {
    let mut chip = Chip8::new(1, false).unwrap();
    chip.execute(Instruction::Jump(0xFFF)).unwrap();
    assert_eq!(chip.update(), Err(Chip8Error::OutOfBounds));
}

#[test]
fn executor_rejects_register_indices_past_the_file() {
    let mut chip = Chip8::new(1, false).unwrap();
    assert_eq!(
        chip.execute(Instruction::SkipEqVal { register: 20, value: 1 }),
        Err(Chip8Error::InvalidRegister)
    );
    assert_eq!(
        chip.execute(Instruction::Draw { x_register: 0, y_register: 16, count: 1 }),
        Err(Chip8Error::InvalidRegister)
    );
}

#[test]
fn keys_remember_the_last_write() {
    let mut chip = Chip8::new(1, false).unwrap();
    assert!(!chip.key(5));
    chip.on_input(5, true);
    assert!(chip.key(5));
    chip.on_input(5, false);
    assert!(!chip.key(5));
    chip.on_input(0, true);
    chip.on_input(15, true);
    assert!(chip.key(0) && chip.key(15) && !chip.key(7));
}

#[test]
fn timers_saturate_at_zero() {
    let mut chip = Chip8::new(1, false).unwrap();
    chip.tick_timers();
    assert_eq!(chip.delay_timer(), 0);
    assert_eq!(chip.sound_timer(), 0);
}
