//! The 64 x 32 monochrome framebuffer and its XOR sprite compositing.

use vstd::prelude::*;

pub use crate::font::FONT_SPRITES;

verus! {

/// Width of the framebuffer in pixels.
pub const WIDTH: usize = 64;

/// Height of the framebuffer in pixels.
pub const HEIGHT: usize = 32;

/// Number of pixels in the framebuffer.
pub const PIXELS: usize = 2048;

/// Index of the pixel at column `col` and row `row` (row-major).
pub open spec fn pixel_index(col: int, row: int) -> int {
    col + row * 64
}

/// How far column `col` lies to the right of `x`, counting around the edge.
pub open spec fn col_offset(col: int, x: int) -> int {
    (col - x) % 64
}

/// Bit `i` of a sprite row, counting from the most significant bit.
pub open spec fn sprite_bit(bits: u8, i: int) -> bool {
    (bits >> ((7 - i) as u8)) & 1u8 == 1u8
}

/// `buf` with the first `k` bits of sprite row `bits` XORed into row `row`,
/// starting at column `x` and wrapping at the right edge.
pub open spec fn xor_cols(buf: Seq<bool>, x: int, row: int, bits: u8, k: int) -> Seq<bool> {
    Seq::new(
        buf.len(),
        |p: int|
            if p / 64 == row && col_offset(p % 64, x) < k && sprite_bit(bits, col_offset(p % 64, x)) {
                !buf[p]
            } else {
                buf[p]
            },
    )
}

/// Whether one of the first `k` bits of sprite row `bits` lands on a lit pixel
/// of row `row`.
pub open spec fn row_collides(buf: Seq<bool>, x: int, row: int, bits: u8, k: int) -> bool {
    exists|i: int| 0 <= i < k && sprite_bit(bits, i) && #[trigger] buf[pixel_index((x + i) % 64, row)]
}

/// The row that sprite row `j` lands on when drawing from row `y`.
pub open spec fn sprite_row(y: int, j: int) -> int {
    (y + j) % 32
}

/// The framebuffer after drawing `sprite` at (`x`, `y`): each sprite row in
/// turn is XORed onto its (wrapped) framebuffer row.
pub open spec fn drawn(buf: Seq<bool>, x: int, y: int, sprite: Seq<u8>) -> Seq<bool>
    decreases sprite.len(),
{
    if sprite.len() == 0 {
        buf
    } else {
        xor_cols(
            drawn(buf, x, y, sprite.drop_last()),
            x,
            sprite_row(y, sprite.len() - 1),
            sprite.last(),
            8,
        )
    }
}

/// Whether drawing `sprite` at (`x`, `y`) sets a sprite bit on a pixel that was
/// lit at the moment its row was drawn.
pub open spec fn collides(buf: Seq<bool>, x: int, y: int, sprite: Seq<u8>) -> bool
    decreases sprite.len(),
{
    if sprite.len() == 0 {
        false
    } else {
        collides(buf, x, y, sprite.drop_last()) || row_collides(
            drawn(buf, x, y, sprite.drop_last()),
            x,
            sprite_row(y, sprite.len() - 1),
            sprite.last(),
            8,
        )
    }
}

/// The framebuffer with every pixel dark.
pub open spec fn blank() -> Seq<bool> {
    Seq::new(2048, |p: int| false)
}

proof fn lemma_col_offset(x: int, i: int)
    requires
        0 <= i < 64,
    ensures
        col_offset((x + i) % 64, x) == i,
        0 <= (x + i) % 64 < 64,
{
}

proof fn lemma_pixel_split(col: int, row: int)
    requires
        0 <= col < 64,
        0 <= row,
    ensures
        pixel_index(col, row) / 64 == row,
        pixel_index(col, row) % 64 == col,
{
}

/// A framebuffer of `len` dark pixels.
pub open spec fn dark(len: nat) -> Seq<bool> {
    Seq::new(len, |p: int| false)
}

/// Drawing a sprite XORs the framebuffer with a mask that depends only on the
/// sprite and its position: the pixels the same draw would light on a dark
/// framebuffer.
pub proof fn lemma_draw_is_xor_mask(buf: Seq<bool>, x: int, y: int, sprite: Seq<u8>)
    ensures
        drawn(buf, x, y, sprite).len() == buf.len(),
        forall|p: int|
            0 <= p < buf.len() ==> #[trigger] drawn(buf, x, y, sprite)[p] == (buf[p] != drawn(
                dark(buf.len()),
                x,
                y,
                sprite,
            )[p]),
    decreases sprite.len(),
{
    if sprite.len() > 0 {
        let rest = sprite.drop_last();
        lemma_draw_is_xor_mask(buf, x, y, rest);
        lemma_draw_is_xor_mask(dark(buf.len()), x, y, rest);
        let mask = drawn(dark(buf.len()), x, y, rest);
        assert forall|p: int| 0 <= p < buf.len() implies #[trigger] drawn(buf, x, y, sprite)[p] == (
        buf[p] != drawn(dark(buf.len()), x, y, sprite)[p]) by {
            assert(drawn(buf, x, y, rest)[p] == (buf[p] != mask[p]));
        }
    }
}

/// Drawing the same sprite at the same place twice restores every pixel.
pub proof fn lemma_draw_twice_restores(buf: Seq<bool>, x: int, y: int, sprite: Seq<u8>)
    ensures
        drawn(drawn(buf, x, y, sprite), x, y, sprite) == buf,
{
    let once = drawn(buf, x, y, sprite);
    lemma_draw_is_xor_mask(buf, x, y, sprite);
    lemma_draw_is_xor_mask(once, x, y, sprite);
    assert(drawn(once, x, y, sprite) =~= buf);
}

/// Drawing the first `k` rows of a sprite leaves every framebuffer row that
/// none of those rows lands on as it was.
pub proof fn lemma_draw_leaves_other_rows(buf: Seq<bool>, x: int, y: int, sprite: Seq<u8>, p: int)
    requires
        0 <= p < buf.len(),
        forall|j: int| 0 <= j < sprite.len() ==> sprite_row(y, j) != p / 64,
    ensures
        drawn(buf, x, y, sprite)[p] == buf[p],
    decreases sprite.len(),
{
    lemma_draw_is_xor_mask(buf, x, y, sprite);
    if sprite.len() > 0 {
        let rest = sprite.drop_last();
        assert forall|j: int| 0 <= j < rest.len() implies sprite_row(y, j) != p / 64 by {
            assert(sprite_row(y, j) != p / 64);
        }
        lemma_draw_leaves_other_rows(buf, x, y, rest, p);
        lemma_draw_is_xor_mask(buf, x, y, rest);
        assert(sprite_row(y, sprite.len() - 1) != p / 64);
    }
}

/// Whether some set bit of `sprite`, drawn at (`x`, `y`), lands on a pixel
/// that is lit in `buf`.
pub open spec fn lands_on_lit(buf: Seq<bool>, x: int, y: int, sprite: Seq<u8>) -> bool {
    exists|j: int, i: int|
        0 <= j < sprite.len() && 0 <= i < 8 && sprite_bit(sprite[j], i) && #[trigger] buf[pixel_index(
            (x + i) % 64,
            sprite_row(y, j),
        )]
}

/// For a sprite no taller than the framebuffer, a draw reports a collision
/// exactly when one of its set bits lands on a pixel that was lit before the
/// draw.
pub proof fn lemma_collision_iff_lands_on_lit(buf: Seq<bool>, x: int, y: int, sprite: Seq<u8>)
    requires
        buf.len() == 2048,
        sprite.len() <= 32,
    ensures
        collides(buf, x, y, sprite) == lands_on_lit(buf, x, y, sprite),
    decreases sprite.len(),
{
    if sprite.len() > 0 {
        let rest = sprite.drop_last();
        let last = sprite.len() - 1;
        let row = sprite_row(y, last);
        lemma_collision_iff_lands_on_lit(buf, x, y, rest);
        let before = drawn(buf, x, y, rest);
        assert forall|i: int| 0 <= i < 8 implies #[trigger] before[pixel_index((x + i) % 64, row)]
            == buf[pixel_index((x + i) % 64, row)] by {
            let p = pixel_index((x + i) % 64, row);
            assert(p / 64 == row);
            assert forall|j: int| 0 <= j < rest.len() implies sprite_row(y, j) != p / 64 by {
                assert((y + j) % 32 != (y + last) % 32);
            }
            lemma_draw_leaves_other_rows(buf, x, y, rest, p);
        }
        if collides(buf, x, y, sprite) {
            if collides(buf, x, y, rest) {
                let (j, i) = choose|j: int, i: int|
                    0 <= j < rest.len() && 0 <= i < 8 && sprite_bit(rest[j], i) && #[trigger] buf[pixel_index(
                        (x + i) % 64,
                        sprite_row(y, j),
                    )];
                assert(sprite[j] == rest[j]);
            } else {
                let i = choose|i: int|
                    0 <= i < 8 && sprite_bit(sprite.last(), i) && #[trigger] before[pixel_index(
                        (x + i) % 64,
                        row,
                    )];
                assert(buf[pixel_index((x + i) % 64, sprite_row(y, last))]);
            }
        }
        if lands_on_lit(buf, x, y, sprite) {
            let (j, i) = choose|j: int, i: int|
                0 <= j < sprite.len() && 0 <= i < 8 && sprite_bit(sprite[j], i) && #[trigger] buf[pixel_index(
                    (x + i) % 64,
                    sprite_row(y, j),
                )];
            if j < last {
                assert(rest[j] == sprite[j]);
                assert(lands_on_lit(buf, x, y, rest));
            } else {
                assert(before[pixel_index((x + i) % 64, row)]);
                assert(row_collides(before, x, row, sprite.last(), 8));
            }
        }
    }
}

/// Whether sprite row `j`, bit `i`, drawn at (`x`, `y`), is set and lands on
/// pixel `p`.
pub open spec fn covers(x: int, y: int, sprite: Seq<u8>, j: int, i: int, p: int) -> bool {
    &&& 0 <= j < sprite.len()
    &&& 0 <= i < 8
    &&& sprite_bit(sprite[j], i)
    &&& p == pixel_index((x + i) % 64, sprite_row(y, j))
}

/// A draw changes only pixels that a set sprite bit lands on, each sprite row
/// wrapping at the right edge and the rows wrapping at the bottom edge.
pub proof fn lemma_draw_changes_only_covered(buf: Seq<bool>, x: int, y: int, sprite: Seq<u8>, p: int)
    requires
        0 <= p < buf.len(),
        drawn(buf, x, y, sprite)[p] != buf[p],
    ensures
        exists|j: int, i: int| covers(x, y, sprite, j, i, p),
    decreases sprite.len(),
{
    lemma_draw_is_xor_mask(buf, x, y, sprite);
    let rest = sprite.drop_last();
    let last = sprite.len() - 1;
    lemma_draw_is_xor_mask(buf, x, y, rest);
    if drawn(buf, x, y, rest)[p] != buf[p] {
        lemma_draw_changes_only_covered(buf, x, y, rest, p);
        let (j, i) = choose|j: int, i: int| covers(x, y, rest, j, i, p);
        assert(covers(x, y, sprite, j, i, p));
    } else {
        let i = col_offset(p % 64, x);
        assert(p / 64 == sprite_row(y, last));
        assert((x + i) % 64 == p % 64);
        assert(covers(x, y, sprite, last, i, p));
    }
}

/// A draw reports a collision whenever one of its set bits lands on a pixel
/// that was lit before the draw.
pub proof fn lemma_lit_landing_collides(buf: Seq<bool>, x: int, y: int, sprite: Seq<u8>)
    requires
        buf.len() == 2048,
        lands_on_lit(buf, x, y, sprite),
    ensures
        collides(buf, x, y, sprite),
    decreases sprite.len(),
{
    let rest = sprite.drop_last();
    let last = sprite.len() - 1;
    let (j, i) = choose|j: int, i: int|
        0 <= j < sprite.len() && 0 <= i < 8 && sprite_bit(sprite[j], i) && #[trigger] buf[pixel_index(
            (x + i) % 64,
            sprite_row(y, j),
        )];
    let p = pixel_index((x + i) % 64, sprite_row(y, j));
    if j < last {
        assert(rest[j] == sprite[j]);
        assert(lands_on_lit(buf, x, y, rest));
        lemma_lit_landing_collides(buf, x, y, rest);
    } else {
        let before = drawn(buf, x, y, rest);
        lemma_draw_is_xor_mask(buf, x, y, rest);
        if before[p] {
            assert(row_collides(before, x, sprite_row(y, last), sprite.last(), 8));
        } else {
            lemma_draw_changes_only_covered(buf, x, y, rest, p);
            let (j2, i2) = choose|j2: int, i2: int| covers(x, y, rest, j2, i2, p);
            assert(rest[j2] == sprite[j2]);
            assert(buf[pixel_index((x + i2) % 64, sprite_row(y, j2))]);
            assert(lands_on_lit(buf, x, y, rest));
            lemma_lit_landing_collides(buf, x, y, rest);
        }
    }
}

/// Drawing a sprite a second time at the same place reports a collision
/// whenever one of its set bits lands on a pixel that the first draw left lit.
pub proof fn lemma_redraw_collides(buf: Seq<bool>, x: int, y: int, sprite: Seq<u8>)
    requires
        buf.len() == 2048,
        lands_on_lit(drawn(buf, x, y, sprite), x, y, sprite),
    ensures
        collides(drawn(buf, x, y, sprite), x, y, sprite),
{
    lemma_draw_is_xor_mask(buf, x, y, sprite);
    lemma_lit_landing_collides(drawn(buf, x, y, sprite), x, y, sprite);
}

/// Whether some set sprite bit, drawn at (`x`, `y`), lands on pixel `p`.
pub open spec fn covered(x: int, y: int, sprite: Seq<u8>, p: int) -> bool {
    exists|j: int, i: int| covers(x, y, sprite, j, i, p)
}

/// For a sprite no taller than the framebuffer, a draw flips exactly the
/// pixels that a set sprite bit lands on, each axis wrapping on its own, and
/// leaves every other pixel as it was.
pub proof fn lemma_draw_flips_covered(buf: Seq<bool>, x: int, y: int, sprite: Seq<u8>, p: int)
    requires
        buf.len() == 2048,
        sprite.len() <= 32,
        0 <= p < 2048,
    ensures
        drawn(buf, x, y, sprite)[p] == (buf[p] != covered(x, y, sprite, p)),
    decreases sprite.len(),
{
    if sprite.len() == 0 {
        if covered(x, y, sprite, p) {
            let (j, i) = choose|j: int, i: int| covers(x, y, sprite, j, i, p);
        }
    } else {
        let rest = sprite.drop_last();
        let last = sprite.len() - 1;
        let row = sprite_row(y, last);
        lemma_draw_flips_covered(buf, x, y, rest, p);
        lemma_draw_is_xor_mask(buf, x, y, rest);
        let off = col_offset(p % 64, x);
        let flips = p / 64 == row && off < 8 && sprite_bit(sprite.last(), off);
        let by_last = exists|i: int| covers(x, y, sprite, last, i, p);
        if flips {
            assert((x + off) % 64 == p % 64);
            assert(covers(x, y, sprite, last, off, p));
        }
        if by_last {
            let i = choose|i: int| covers(x, y, sprite, last, i, p);
            lemma_col_offset(x, i);
            lemma_pixel_split((x + i) % 64, row);
            assert(flips);
        }
        assert(flips == by_last);
        if covered(x, y, rest, p) {
            let (j, i) = choose|j: int, i: int| covers(x, y, rest, j, i, p);
            assert(rest[j] == sprite[j]);
            assert(covers(x, y, sprite, j, i, p));
            lemma_pixel_split((x + i) % 64, sprite_row(y, j));
            assert(sprite_row(y, j) != row);
            assert(!flips);
        }
        if covered(x, y, sprite, p) && !by_last {
            let (j, i) = choose|j: int, i: int| covers(x, y, sprite, j, i, p);
            assert(j != last);
            assert(rest[j] == sprite[j]);
            assert(covers(x, y, rest, j, i, p));
        }
        if covered(x, y, rest, p) || by_last {
            if by_last {
                let i = choose|i: int| covers(x, y, sprite, last, i, p);
                assert(covers(x, y, sprite, last, i, p));
            } else {
                let (j, i) = choose|j: int, i: int| covers(x, y, rest, j, i, p);
                assert(rest[j] == sprite[j]);
                assert(covers(x, y, sprite, j, i, p));
            }
        }
        assert(covered(x, y, sprite, p) == (covered(x, y, rest, p) || by_last));
    }
}

/// Whether some set bit of `sprite`, drawn at (`x`, `y`), lands on a pixel
/// that is dark in `buf`.
pub open spec fn lands_on_dark(buf: Seq<bool>, x: int, y: int, sprite: Seq<u8>) -> bool {
    exists|j: int, i: int|
        0 <= j < sprite.len() && 0 <= i < 8 && sprite_bit(sprite[j], i) && !#[trigger] buf[pixel_index(
            (x + i) % 64,
            sprite_row(y, j),
        )]
}

/// For a sprite no taller than the framebuffer, drawing it a second time at
/// the same place reports a collision exactly when some cell got a set bit
/// from both draws: a set bit that landed on a pixel dark before the first.
pub proof fn lemma_redraw_collision_iff(buf: Seq<bool>, x: int, y: int, sprite: Seq<u8>)
    requires
        buf.len() == 2048,
        sprite.len() <= 32,
    ensures
        collides(drawn(buf, x, y, sprite), x, y, sprite) == lands_on_dark(buf, x, y, sprite),
{
    let once = drawn(buf, x, y, sprite);
    lemma_draw_is_xor_mask(buf, x, y, sprite);
    lemma_collision_iff_lands_on_lit(once, x, y, sprite);
    if lands_on_lit(once, x, y, sprite) {
        let (j, i) = choose|j: int, i: int|
            0 <= j < sprite.len() && 0 <= i < 8 && sprite_bit(sprite[j], i) && #[trigger] once[pixel_index(
                (x + i) % 64,
                sprite_row(y, j),
            )];
        let p = pixel_index((x + i) % 64, sprite_row(y, j));
        lemma_draw_flips_covered(buf, x, y, sprite, p);
        assert(covers(x, y, sprite, j, i, p));
        assert(!buf[p]);
    }
    if lands_on_dark(buf, x, y, sprite) {
        let (j, i) = choose|j: int, i: int|
            0 <= j < sprite.len() && 0 <= i < 8 && sprite_bit(sprite[j], i) && !#[trigger] buf[pixel_index(
                (x + i) % 64,
                sprite_row(y, j),
            )];
        let p = pixel_index((x + i) % 64, sprite_row(y, j));
        lemma_draw_flips_covered(buf, x, y, sprite, p);
        assert(covers(x, y, sprite, j, i, p));
        assert(once[p]);
    }
}

/// A byte has a set bit exactly when it is not zero.
proof fn lemma_nonzero_has_bit(b: u8)
    ensures
        (b != 0) == (exists|i: int| 0 <= i < 8 && sprite_bit(b, i)),
{
    assert(b != 0 <==> (b >> 7u8) & 1u8 == 1u8 || (b >> 6u8) & 1u8 == 1u8 || (b >> 5u8) & 1u8 == 1u8
        || (b >> 4u8) & 1u8 == 1u8 || (b >> 3u8) & 1u8 == 1u8 || (b >> 2u8) & 1u8 == 1u8 || (b
        >> 1u8) & 1u8 == 1u8 || (b >> 0u8) & 1u8 == 1u8) by (bit_vector);
    if b != 0 {
        if (b >> 7u8) & 1u8 == 1u8 {
            assert(sprite_bit(b, 0));
        } else if (b >> 6u8) & 1u8 == 1u8 {
            assert(sprite_bit(b, 1));
        } else if (b >> 5u8) & 1u8 == 1u8 {
            assert(sprite_bit(b, 2));
        } else if (b >> 4u8) & 1u8 == 1u8 {
            assert(sprite_bit(b, 3));
        } else if (b >> 3u8) & 1u8 == 1u8 {
            assert(sprite_bit(b, 4));
        } else if (b >> 2u8) & 1u8 == 1u8 {
            assert(sprite_bit(b, 5));
        } else if (b >> 1u8) & 1u8 == 1u8 {
            assert(sprite_bit(b, 6));
        } else {
            assert(sprite_bit(b, 7));
        }
    } else {
        assert forall|i: int| 0 <= i < 8 implies !sprite_bit(b, i) by {
            let k = (7 - i) as u8;
            assert(b == 0 ==> (b >> k) & 1u8 == 0u8) by (bit_vector);
        }
    }
}

/// On a blank framebuffer, drawing a sprite (no taller than the framebuffer)
/// twice at the same place makes the second draw report a collision exactly
/// when some sprite row is not zero.
pub proof fn lemma_redraw_on_blank(x: int, y: int, sprite: Seq<u8>)
    requires
        sprite.len() <= 32,
    ensures
        collides(drawn(blank(), x, y, sprite), x, y, sprite) == (exists|j: int|
            0 <= j < sprite.len() && sprite[j] != 0),
{
    lemma_redraw_collision_iff(blank(), x, y, sprite);
    if exists|j: int| 0 <= j < sprite.len() && sprite[j] != 0 {
        let j = choose|j: int| 0 <= j < sprite.len() && sprite[j] != 0;
        lemma_nonzero_has_bit(sprite[j]);
        let i = choose|i: int| 0 <= i < 8 && sprite_bit(sprite[j], i);
        let p = pixel_index((x + i) % 64, sprite_row(y, j));
        assert(!blank()[p]);
    }
    if lands_on_dark(blank(), x, y, sprite) {
        let (j, i) = choose|j: int, i: int|
            0 <= j < sprite.len() && 0 <= i < 8 && sprite_bit(sprite[j], i) && !#[trigger] blank()[pixel_index(
                (x + i) % 64,
                sprite_row(y, j),
            )];
        lemma_nonzero_has_bit(sprite[j]);
    }
}

#[derive(Debug)]
pub struct Display {
    buffer: [bool; 2048],
}

impl View for Display {
    type V = Seq<bool>;

    closed spec fn view(&self) -> Seq<bool> {
        self.buffer@
    }
}

impl Display {
    /// The view holds one entry per pixel.
    pub proof fn lemma_view_len(&self)
        ensures
            self@.len() == 2048,
    {
    }

    pub fn new() -> (r: Self)
        ensures
            r@ == blank(),
    {
        let r = Display { buffer: [false; 2048] };
        assert(r@ =~= blank());
        r
    }

    pub fn get_buffer(&self) -> (r: &[bool; 2048])
        ensures
            r@ == self@,
    {
        &self.buffer
    }

    pub fn cls(&mut self)
        ensures
            final(self)@ == blank(),
    {
        self.buffer = [false; 2048];
        assert(self@ =~= blank());
    }

    fn set_pixel(&mut self, x: usize, y: usize, pixel: bool)
        requires
            x < 64,
            y < 32,
        ensures
            final(self)@ == old(self)@.update(pixel_index(x as int, y as int), pixel),
    {
        self.buffer[x + y * WIDTH] = pixel;
    }

    fn get_pixel(&self, x: usize, y: usize) -> (r: bool)
        requires
            x < 64,
            y < 32,
        ensures
            r == self@[pixel_index(x as int, y as int)],
    {
        self.buffer[x + y * WIDTH]
    }

    fn xor_pixel(&mut self, x: usize, y: usize, value: bool) -> (r: bool)
        requires
            x < 64,
            y < 32,
        ensures
            final(self)@ == old(self)@.update(
                pixel_index(x as int, y as int),
                old(self)@[pixel_index(x as int, y as int)] != value,
            ),
            r == (old(self)@[pixel_index(x as int, y as int)] && value),
    {
        let current_value = self.get_pixel(x, y);
        let new_value = current_value ^ value;
        self.set_pixel(x, y, new_value);
        current_value && value
    }

    /// XORs one sprite row onto framebuffer row `row`, starting at column `x`.
    fn draw_row(&mut self, x: usize, row: usize, bits: u8) -> (r: bool)
        requires
            row < 32,
        ensures
            final(self)@ == xor_cols(old(self)@, x as int, row as int, bits, 8),
            r == row_collides(old(self)@, x as int, row as int, bits, 8),
    {
        let ghost start = self@;
        let mut collision = false;
        let mut i: usize = 0;
        while i < 8
            invariant
                i <= 8,
                row < 32,
                start == old(self)@,
                start.len() == 2048,
                self@ == xor_cols(start, x as int, row as int, bits, i as int),
                collision == row_collides(start, x as int, row as int, bits, i as int),
            decreases 8 - i,
        {
            let col = (x % WIDTH + i) % WIDTH;
            let shifted = bits >> (7 - i) as u8;
            let value = shifted & 0x01 > 0;
            let ghost p = pixel_index(col as int, row as int);
            proof {
                assert(col as int == (x as int + i as int) % 64);
                lemma_col_offset(x as int, i as int);
                lemma_pixel_split(col as int, row as int);
                assert((shifted & 1u8 > 0) == (shifted & 1u8 == 1u8)) by (bit_vector);
                assert(value == sprite_bit(bits, i as int));
                assert(self@[p] == start[p]);
            }
            let hit = self.xor_pixel(col, row, value);
            collision = collision || hit;
            proof {
                let next = xor_cols(start, x as int, row as int, bits, i as int + 1);
                assert forall|q: int| 0 <= q < 2048 implies self@[q] == next[q] by {
                    if q != p && q / 64 == row as int && col_offset(q % 64, x as int) == i as int {
                        assert(q % 64 == col as int);
                        assert(q == pixel_index(q % 64, q / 64));
                    }
                }
                assert(self@ =~= next);
                if hit {
                    assert(start[pixel_index((x as int + i as int) % 64, row as int)]);
                }
                if row_collides(start, x as int, row as int, bits, i as int + 1) && !row_collides(
                    start,
                    x as int,
                    row as int,
                    bits,
                    i as int,
                ) {
                    let k = choose|k: int|
                        0 <= k < i + 1 && sprite_bit(bits, k) && #[trigger] start[pixel_index(
                            (x as int + k) % 64,
                            row as int,
                        )];
                    assert(k == i);
                }
            }
            i = i + 1;
        }
        collision
    }

    /// XORs `sprites` onto the framebuffer with its top-left corner at
    /// (`x`, `y`), wrapping independently on each axis, and reports whether a
    /// set sprite bit met a lit pixel.
    pub fn draw(&mut self, x: usize, y: usize, sprites: &[u8]) -> (r: bool)
        ensures
            final(self)@ == drawn(old(self)@, x as int, y as int, sprites@),
            final(self)@.len() == 2048,
            r == collides(old(self)@, x as int, y as int, sprites@),
    {
        let mut collision = false;
        let n = sprites.len();
        let mut j: usize = 0;
        while j < n
            invariant
                n == sprites@.len(),
                j <= n,
                self@.len() == 2048,
                self@ == drawn(old(self)@, x as int, y as int, sprites@.subrange(0, j as int)),
                collision == collides(old(self)@, x as int, y as int, sprites@.subrange(0, j as int)),
            decreases n - j,
        {
            let row = (y % HEIGHT + j % HEIGHT) % HEIGHT;
            let ghost done = sprites@.subrange(0, j as int);
            let ghost prefix = sprites@.subrange(0, j as int + 1);
            proof {
                assert(row as int == sprite_row(y as int, j as int));
                assert(prefix.drop_last() =~= done);
                assert(prefix.last() == sprites@[j as int]);
            }
            let hit = self.draw_row(x, row, sprites[j]);
            collision = collision || hit;
            proof {
                assert(self@ == drawn(old(self)@, x as int, y as int, prefix));
                assert(collision == collides(old(self)@, x as int, y as int, prefix));
            }
            j = j + 1;
        }
        assert(sprites@.subrange(0, n as int) =~= sprites@);
        collision
    }
}

} // verus!
