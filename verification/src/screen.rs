use vstd::prelude::*;

verus! {

/// Row of the sprite (counted from its top edge, wrapping at the bottom of
/// the screen) that screen pixel `p` lies in when the sprite is drawn at
/// vertical position `y_pos`.
pub open spec fn row_of(y_pos: int, p: int) -> int {
    (p / 64 - y_pos) % 32
}

/// Column of the sprite (counted from its left edge, wrapping at the right
/// of the screen) that screen pixel `p` lies in when the sprite is drawn at
/// horizontal position `x_pos`.
pub open spec fn col_of(x_pos: int, p: int) -> int {
    (p % 64 - x_pos) % 64
}

/// Index of the screen pixel that sprite cell (`row`, `bit`) lands on.
pub open spec fn pixel_index(x_pos: int, y_pos: int, row: int, bit: int) -> int {
    ((y_pos + row) % 32) * 64 + (x_pos + bit) % 64
}

/// Sprite cell (`row`, `bit`) lands on a pixel of the screen, and that
/// pixel lies in sprite row `row` and sprite column `bit`.
pub proof fn lemma_pixel_index(x_pos: int, y_pos: int, row: int, bit: int)
    requires
        0 <= x_pos,
        0 <= y_pos,
        0 <= row < 32,
        0 <= bit < 64,
    ensures
        0 <= pixel_index(x_pos, y_pos, row, bit) < 2048,
        row_of(y_pos, pixel_index(x_pos, y_pos, row, bit)) == row,
        col_of(x_pos, pixel_index(x_pos, y_pos, row, bit)) == bit,
{
    let a = (y_pos + row) % 32;
    let b = (x_pos + bit) % 64;
    let p = a * 64 + b;
    assert(p / 64 == a && p % 64 == b) by (nonlinear_arith)
        requires 0 <= a < 32, 0 <= b < 64, p == a * 64 + b;
}

/// A pixel is the one that its sprite row and column land on.
pub proof fn lemma_pixel_determined(x_pos: int, y_pos: int, p: int)
    requires
        0 <= x_pos,
        0 <= y_pos,
        0 <= p < 2048,
    ensures
        0 <= row_of(y_pos, p) < 32,
        0 <= col_of(x_pos, p) < 64,
        p == pixel_index(x_pos, y_pos, row_of(y_pos, p), col_of(x_pos, p)),
{
    let a = p / 64;
    let b = p % 64;
    assert(p == a * 64 + b && 0 <= a < 32 && 0 <= b < 64) by (nonlinear_arith)
        requires 0 <= p < 2048, a == p / 64, b == p % 64;
}


/// Whether the sprite of `height` rows stored at `addr` sets screen pixel `p`
/// when drawn at (`x_pos`, `y_pos`): the pixel falls in one of its rows and in
/// one of its eight columns, and that bit of the row's byte (most significant
/// bit leftmost) is set.
pub open spec fn sprite_covers(mem: Seq<u8>, addr: u16, x_pos: int, y_pos: int, height: u8, p: int) -> bool {
    let row = row_of(y_pos, p);
    let col = col_of(x_pos, p);
    &&& row < height
    &&& col < 8
    &&& mem[addr + row] & (0x80u8 >> (col as usize)) != 0
}

/// The screen after the sprite is drawn: every pixel it covers is flipped.
pub open spec fn drawn_display(display: Seq<bool>, mem: Seq<u8>, addr: u16, x_pos: int, y_pos: int, height: u8) -> Seq<bool> {
    Seq::new(2048, |p: int| display[p] != sprite_covers(mem, addr, x_pos, y_pos, height, p))
}

/// Whether drawing the sprite turns off at least one pixel that was on.
pub open spec fn sprite_collides(display: Seq<bool>, mem: Seq<u8>, addr: u16, x_pos: int, y_pos: int, height: u8) -> bool {
    exists|p: int| 0 <= p < 2048 && #[trigger] sprite_covers(mem, addr, x_pos, y_pos, height, p) && display[p]
}

/// The lit pixels among the first `k` of the screen, in row-major order, each
/// as its (column, row).
pub open spec fn lit_pixels_before(display: Seq<bool>, k: int) -> Seq<(usize, usize)>
    decreases k,
{
    if k <= 0 {
        Seq::empty()
    } else {
        let earlier = lit_pixels_before(display, k - 1);
        if display[k - 1] {
            earlier.push((((k - 1) % 64) as usize, ((k - 1) / 64) as usize))
        } else {
            earlier
        }
    }
}

/// Column `x` of row `y` is pixel `y * 64 + x`.
pub proof fn lemma_row_major(x: int, y: int)
    requires
        0 <= x < 64,
        0 <= y < 32,
    ensures
        0 <= y * 64 + x < 2048,
        (y * 64 + x) % 64 == x,
        (y * 64 + x) / 64 == y,
{
    let k = y * 64 + x;
    assert(0 <= k < 2048 && k % 64 == x && k / 64 == y) by (nonlinear_arith)
        requires 0 <= x < 64, 0 <= y < 32, k == y * 64 + x;
}

}
