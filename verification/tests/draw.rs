use chip8_emulator::Chip8;
use chip8_emulator::Chip8Error;
use chip8_emulator::Instruction;
use chip8_emulator::DISPLAY_WIDTH;

/// The glyph for hex digit 0, as the font table stores it at 0x50.
const GLYPH_ZERO: [u8; 5] = [0xF0, 0x90, 0x90, 0x90, 0xF0];

fn glyph_pixel(glyph: &[u8; 5], row: usize, col: usize) -> bool {
    (glyph[row] >> (7 - col)) & 1 == 1
}

#[test]
fn rom_draws_the_zero_glyph() {
    // Clear screen; V0 := 12; V1 := 8; draw the 5-row sprite at I with
    // origin (V0, V1). I points at the font glyph for digit 0.
    let mut chip = Chip8::new(4, false).unwrap();
    chip.load_program(&[0x00, 0xE0, 0x60, 0x0C, 0x61, 0x08, 0xD0, 0x15])
        .unwrap();
    chip.execute(Instruction::SetIndex(0x50)).unwrap();
    chip.update().unwrap();

    let screen = chip.screen();
    for row in 0..5 {
        for col in 0..8 {
            let expected = glyph_pixel(&GLYPH_ZERO, row, col);
            let pos = (12 + col) + (8 + row) * DISPLAY_WIDTH;
            assert_eq!(screen[pos], expected, "pixel at row {row} col {col}");
        }
    }
    // Nothing outside the glyph box is lit, and there was no collision.
    for pos in 0..screen.len() {
        let x = pos % DISPLAY_WIDTH;
        let y = pos / DISPLAY_WIDTH;
        if !(12 <= x && x < 20 && 8 <= y && y < 13) {
            assert!(!screen[pos], "stray pixel at {x},{y}");
        }
    }
    assert_eq!(chip.register(15), 0);
    assert_eq!(chip.program_counter(), 0x208);
}

#[test]
fn drawing_twice_restores_the_screen() {
    let mut chip = Chip8::new(1, false).unwrap();
    chip.execute(Instruction::SetIndex(0x50)).unwrap();
    let draw = Instruction::Draw { x_register: 0, y_register: 1, count: 5 };

    chip.execute(draw).unwrap();
    assert_eq!(chip.register(15), 0);
    assert!(chip.screen().iter().any(|p| *p));

    chip.execute(draw).unwrap();
    assert!(chip.screen().iter().all(|p| !p));
    // Every set sprite pixel toggled off, so the collision flag is 1.
    assert_eq!(chip.register(15), 1);
}

#[test]
fn draw_clips_at_the_right_edge() {
    // Origin (62, 0): only columns 62 and 63 of each row are drawn;
    // nothing wraps around into column 0.
    let mut chip = Chip8::new(1, false).unwrap();
    chip.execute(Instruction::SetIndex(0x50)).unwrap();
    chip.execute(Instruction::SetRegister { register: 0, value: 62 }).unwrap();
    chip.execute(Instruction::Draw { x_register: 0, y_register: 1, count: 5 }).unwrap();

    let screen = chip.screen();
    for row in 0..5 {
        assert_eq!(screen[62 + row * DISPLAY_WIDTH], glyph_pixel(&GLYPH_ZERO, row, 0));
        assert_eq!(screen[63 + row * DISPLAY_WIDTH], glyph_pixel(&GLYPH_ZERO, row, 1));
        assert!(!screen[0 + row * DISPLAY_WIDTH]);
        assert!(!screen[1 + row * DISPLAY_WIDTH]);
    }
}

#[test]
fn draw_clips_at_the_bottom_edge() {
    // Origin (0, 30): rows 30 and 31 are drawn, rows below the display
    // are dropped.
    let mut chip = Chip8::new(1, false).unwrap();
    chip.execute(Instruction::SetIndex(0x50)).unwrap();
    chip.execute(Instruction::SetRegister { register: 1, value: 30 }).unwrap();
    chip.execute(Instruction::Draw { x_register: 0, y_register: 1, count: 5 }).unwrap();

    let screen = chip.screen();
    for col in 0..8 {
        assert_eq!(screen[col + 30 * DISPLAY_WIDTH], glyph_pixel(&GLYPH_ZERO, 0, col));
        assert_eq!(screen[col + 31 * DISPLAY_WIDTH], glyph_pixel(&GLYPH_ZERO, 1, col));
        // Rows 2 to 4 of the glyph fell below the display; rows 0 and 1 of
        // the screen stay dark, so nothing wrapped around.
        assert!(!screen[col]);
        assert!(!screen[col + DISPLAY_WIDTH]);
    }
}

#[test]
fn draw_origin_wraps_by_masking() {
    // V0 := 76 masks to column 12; V1 := 40 masks to row 8.
    let mut chip = Chip8::new(1, false).unwrap();
    chip.execute(Instruction::SetIndex(0x50)).unwrap();
    chip.execute(Instruction::SetRegister { register: 0, value: 76 }).unwrap();
    chip.execute(Instruction::SetRegister { register: 1, value: 40 }).unwrap();
    chip.execute(Instruction::Draw { x_register: 0, y_register: 1, count: 5 }).unwrap();

    let screen = chip.screen();
    for row in 0..5 {
        for col in 0..8 {
            let pos = (12 + col) + (8 + row) * DISPLAY_WIDTH;
            assert_eq!(screen[pos], glyph_pixel(&GLYPH_ZERO, row, col));
        }
    }
}

#[test]
fn draw_reports_collisions() {
    // Draw the 0 glyph, then draw the 1 glyph (at 0x55) over it: they
    // share lit pixels, so the flag register reports a collision.
    let mut chip = Chip8::new(1, false).unwrap();
    chip.execute(Instruction::SetIndex(0x50)).unwrap();
    chip.execute(Instruction::Draw { x_register: 0, y_register: 1, count: 5 }).unwrap();
    assert_eq!(chip.register(15), 0);

    chip.execute(Instruction::SetIndex(0x55)).unwrap();
    chip.execute(Instruction::Draw { x_register: 0, y_register: 1, count: 5 }).unwrap();
    assert_eq!(chip.register(15), 1);
}

#[test]
fn draw_past_memory_end_is_out_of_bounds() {
    let mut chip = Chip8::new(1, false).unwrap();
    chip.execute(Instruction::SetIndex(0xFFF)).unwrap();
    assert_eq!(
        chip.execute(Instruction::Draw { x_register: 0, y_register: 1, count: 5 }),
        Err(Chip8Error::OutOfBounds)
    );
    // The failed draw left the screen and the flag register untouched.
    assert!(chip.screen().iter().all(|p| !p));
    assert_eq!(chip.register(15), 0);
}

#[test]
fn clear_screen_turns_every_pixel_off() {
    let mut chip = Chip8::new(1, false).unwrap();
    chip.execute(Instruction::SetIndex(0x50)).unwrap();
    chip.execute(Instruction::Draw { x_register: 0, y_register: 1, count: 5 }).unwrap();
    assert!(chip.screen().iter().any(|p| *p));
    chip.execute(Instruction::ClearScreen).unwrap();
    assert!(chip.screen().iter().all(|p| !p));
}
