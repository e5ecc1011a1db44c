use vstd::prelude::*;

verus! {

/// The 16 built-in glyph bitmaps for the hex digits 0 through F, five
/// sprite rows each, as loaded at `FONT_START` before any program runs.
pub open spec fn font_seq() -> Seq<u8> {
    seq![
        0xF0u8, 0x90u8, 0x90u8, 0x90u8, 0xF0u8,  // 0
        0x20u8, 0x60u8, 0x20u8, 0x20u8, 0x70u8,  // 1
        0xF0u8, 0x10u8, 0xF0u8, 0x80u8, 0xF0u8,  // 2
        0xF0u8, 0x10u8, 0xF0u8, 0x10u8, 0xF0u8,  // 3
        0x90u8, 0x90u8, 0xF0u8, 0x10u8, 0x10u8,  // 4
        0xF0u8, 0x80u8, 0xF0u8, 0x10u8, 0xF0u8,  // 5
        0xF0u8, 0x80u8, 0xF0u8, 0x90u8, 0xF0u8,  // 6
        0xF0u8, 0x10u8, 0x20u8, 0x40u8, 0x40u8,  // 7
        0xF0u8, 0x90u8, 0xF0u8, 0x90u8, 0xF0u8,  // 8
        0xF0u8, 0x90u8, 0xF0u8, 0x10u8, 0xF0u8,  // 9
        0xF0u8, 0x90u8, 0xF0u8, 0x90u8, 0x90u8,  // A
        0xE0u8, 0x90u8, 0xE0u8, 0x90u8, 0xE0u8,  // B
        0xF0u8, 0x80u8, 0x80u8, 0x80u8, 0xF0u8,  // C
        0xE0u8, 0x90u8, 0x90u8, 0x90u8, 0xE0u8,  // D
        0xF0u8, 0x80u8, 0xF0u8, 0x80u8, 0xF0u8,  // E
        0xF0u8, 0x80u8, 0xF0u8, 0x80u8, 0x80u8,  // F
    ]
}

/// The font table as bytes, exactly `font_seq`.
pub fn font_data() -> (glyphs: Vec<u8>)
    ensures
        glyphs@ == font_seq(),
        glyphs@.len() == 80,
{
    let mut glyphs: Vec<u8> = Vec::new();
    glyphs.push(0xF0); glyphs.push(0x90); glyphs.push(0x90); glyphs.push(0x90); glyphs.push(0xF0);  // 0
    glyphs.push(0x20); glyphs.push(0x60); glyphs.push(0x20); glyphs.push(0x20); glyphs.push(0x70);  // 1
    glyphs.push(0xF0); glyphs.push(0x10); glyphs.push(0xF0); glyphs.push(0x80); glyphs.push(0xF0);  // 2
    glyphs.push(0xF0); glyphs.push(0x10); glyphs.push(0xF0); glyphs.push(0x10); glyphs.push(0xF0);  // 3
    glyphs.push(0x90); glyphs.push(0x90); glyphs.push(0xF0); glyphs.push(0x10); glyphs.push(0x10);  // 4
    glyphs.push(0xF0); glyphs.push(0x80); glyphs.push(0xF0); glyphs.push(0x10); glyphs.push(0xF0);  // 5
    glyphs.push(0xF0); glyphs.push(0x80); glyphs.push(0xF0); glyphs.push(0x90); glyphs.push(0xF0);  // 6
    glyphs.push(0xF0); glyphs.push(0x10); glyphs.push(0x20); glyphs.push(0x40); glyphs.push(0x40);  // 7
    glyphs.push(0xF0); glyphs.push(0x90); glyphs.push(0xF0); glyphs.push(0x90); glyphs.push(0xF0);  // 8
    glyphs.push(0xF0); glyphs.push(0x90); glyphs.push(0xF0); glyphs.push(0x10); glyphs.push(0xF0);  // 9
    glyphs.push(0xF0); glyphs.push(0x90); glyphs.push(0xF0); glyphs.push(0x90); glyphs.push(0x90);  // A
    glyphs.push(0xE0); glyphs.push(0x90); glyphs.push(0xE0); glyphs.push(0x90); glyphs.push(0xE0);  // B
    glyphs.push(0xF0); glyphs.push(0x80); glyphs.push(0x80); glyphs.push(0x80); glyphs.push(0xF0);  // C
    glyphs.push(0xE0); glyphs.push(0x90); glyphs.push(0x90); glyphs.push(0x90); glyphs.push(0xE0);  // D
    glyphs.push(0xF0); glyphs.push(0x80); glyphs.push(0xF0); glyphs.push(0x80); glyphs.push(0xF0);  // E
    glyphs.push(0xF0); glyphs.push(0x80); glyphs.push(0xF0); glyphs.push(0x80); glyphs.push(0x80);  // F
    proof {
        assert(glyphs@ =~= font_seq());
    }
    glyphs
}

} // verus!
