//! The built-in hexadecimal digit glyphs.

use vstd::prelude::*;

verus! {

/// The sixteen hexadecimal digit glyphs, five rows each, for digits 0 to F.
pub const FONT_SPRITES: [u8; 80] = [
    0xF0, 0x90, 0x90, 0x90, 0xF0, // 0
    0x20, 0x60, 0x20, 0x20, 0x70, // 1
    0xF0, 0x10, 0xF0, 0x80, 0xF0, // 2
    0xF0, 0x10, 0xF0, 0x10, 0xF0, // 3
    0x90, 0x90, 0xF0, 0x10, 0x10, // 4
    0xF0, 0x80, 0xF0, 0x10, 0xF0, // 5
    0xF0, 0x80, 0xF0, 0x90, 0xF0, // 6
    0xF0, 0x10, 0x20, 0x40, 0x40, // 7
    0xF0, 0x90, 0xF0, 0x90, 0xF0, // 8
    0xF0, 0x90, 0xF0, 0x10, 0xF0, // 9
    0xF0, 0x90, 0xF0, 0x90, 0x90, // A
    0xE0, 0x90, 0xE0, 0x90, 0xE0, // B
    0xF0, 0x80, 0x80, 0x80, 0xF0, // C
    0xE0, 0x90, 0x90, 0x90, 0xE0, // D
    0xF0, 0x80, 0xF0, 0x80, 0xF0, // E
    0xF0, 0x80, 0xF0, 0x80, 0x80, // F
];

/// `memory` with the glyph table copied to its first 80 bytes.
pub open spec fn with_font(memory: Seq<u8>) -> Seq<u8> {
    Seq::new(memory.len(), |a: int| if a < 80 { FONT_SPRITES@[a] } else { memory[a] })
}

/// Copies the glyph table to the start of `memory`.
pub fn load_font(memory: &mut [u8; 4096])
    ensures
        final(memory)@ == with_font(old(memory)@),
{
    let mut a: usize = 0;
    while a < 80
        invariant
            a <= 80,
            memory@.len() == 4096,
            forall|b: int| 0 <= b < a ==> memory@[b] == FONT_SPRITES@[b],
            forall|b: int| a <= b < 4096 ==> memory@[b] == old(memory)@[b],
        decreases 80 - a,
    {
        memory[a] = FONT_SPRITES[a];
        a = a + 1;
    }
    assert(memory@ =~= with_font(old(memory)@));
}

} // verus!
