//! Geometry of the text strip: 990 columns of 8 pixels that run around the
//! border of a 256x256 picture, each column holding the bits of one byte.
use vstd::prelude::*;

verus! {

/// Width and height of the picture, in pixels.
pub const IMAGE_SIZE: u32 = 256;

/// How many pixels deep a column reaches into the picture: one per bit.
pub const STRIP_DEPTH: i32 = 8;

/// Number of columns around the border, hence the longest text in bytes.
pub const COLUMN_COUNT: usize = 990;

/// A column: the pixel of its most significant bit and the step towards
/// the inside of the picture.
pub type Column = (u32, u32, i32, i32);

/// The `i`-th column. The columns go clockwise: along the top edge from the
/// left, down the right edge, back along the bottom edge, up the left edge.
/// Each column points inwards from its edge.
pub open spec fn column_spec(i: int) -> Column {
    if i < 248 {
        (i as u32, 0u32, 0i32, 1i32)
    } else if i < 495 {
        (255u32, (i - 247) as u32, -1i32, 0i32)
    } else if i < 743 {
        ((750 - i) as u32, 255u32, 0i32, -1i32)
    } else {
        (0u32, (998 - i) as u32, 1i32, 0i32)
    }
}

/// The pixel that holds bit `b` (0 is the most significant) of column `i`.
pub open spec fn bit_pixel(i: int, b: int) -> (int, int) {
    if i < 248 {
        (i, b)
    } else if i < 495 {
        (255 - b, i - 247)
    } else if i < 743 {
        (750 - i, 255 - b)
    } else {
        (b, 998 - i)
    }
}

/// The column and bit that the strip stores at pixel `(x, y)`, if any.
pub open spec fn strip_slot(x: int, y: int) -> Option<(int, int)> {
    if 0 <= y < 8 && 0 <= x <= 247 {
        Some((x, y))
    } else if 248 <= x <= 255 && 1 <= y <= 247 {
        Some((247 + y, 255 - x))
    } else if 248 <= y <= 255 && 8 <= x <= 255 {
        Some((750 - x, 255 - y))
    } else if 0 <= x < 8 && 9 <= y <= 255 {
        Some((998 - y, x))
    } else {
        None
    }
}

/// Bit `b` of a column is found by stepping `b` times from its first pixel.
pub proof fn lemma_bit_pixel_steps(i: int, b: int)
    requires
        0 <= i < 990,
        0 <= b < 8,
    ensures
        bit_pixel(i, b) == (
            column_spec(i).0 + column_spec(i).2 * b,
            column_spec(i).1 + column_spec(i).3 * b,
        ),
{
}

/// Every bit of every column lies inside the picture, and the strip gives
/// that pixel back to exactly this column and bit.
pub proof fn lemma_slot_of_bit_pixel(i: int, b: int)
    requires
        0 <= i < 990,
        0 <= b < 8,
    ensures
        0 <= bit_pixel(i, b).0 < 256,
        0 <= bit_pixel(i, b).1 < 256,
        strip_slot(bit_pixel(i, b).0, bit_pixel(i, b).1) == Some((i, b)),
{
}

/// A pixel that belongs to the strip is the pixel of the bit it holds.
pub proof fn lemma_bit_pixel_of_slot(x: int, y: int)
    requires
        strip_slot(x, y) is Some,
    ensures
        0 <= strip_slot(x, y).unwrap().0 < 990,
        0 <= strip_slot(x, y).unwrap().1 < 8,
        bit_pixel(strip_slot(x, y).unwrap().0, strip_slot(x, y).unwrap().1) == (x, y),
{
}

/// No two bits of the strip share a pixel.
pub proof fn lemma_strip_pixels_distinct(i: int, b: int, j: int, c: int)
    requires
        0 <= i < 990,
        0 <= b < 8,
        0 <= j < 990,
        0 <= c < 8,
        (i, b) != (j, c),
    ensures
        bit_pixel(i, b) != bit_pixel(j, c),
{
    lemma_slot_of_bit_pixel(i, b);
    lemma_slot_of_bit_pixel(j, c);
}

/// Every column starts on an edge of the picture and steps straight inwards
/// from it: down from the top edge, left from the right edge, up from the
/// bottom edge, right from the left edge; all eight of its pixels lie in
/// the picture.
pub proof fn lemma_columns_point_inwards(i: int)
    requires
        0 <= i < 990,
    ensures
        ({
            let (cx, cy, dx, dy) = column_spec(i);
            &&& (cy == 0 && dx == 0 && dy == 1) || (cx == 255 && dx == -1 && dy == 0) || (cy == 255
                && dx == 0 && dy == -1) || (cx == 0 && dx == 1 && dy == 0)
            &&& forall|b: int|
                0 <= b < 8 ==> 0 <= #[trigger] (cx + dx * b) < 256 && 0 <= cy + dy * b < 256
        }),
{
    let (cx, cy, dx, dy) = column_spec(i);
    assert forall|b: int| 0 <= b < 8 implies 0 <= #[trigger] (cx + dx * b) < 256 && 0 <= cy + dy
        * b < 256 by {
        lemma_bit_pixel_steps(i, b);
        lemma_slot_of_bit_pixel(i, b);
    }
}

/// The columns of the strip, in order.
pub fn frame_columns() -> (cols: Vec<Column>)
    ensures
        cols@.len() == COLUMN_COUNT,
        forall|i: int| 0 <= i < COLUMN_COUNT ==> #[trigger] cols@[i] == column_spec(i),
{
    let mut cols: Vec<Column> = Vec::with_capacity(127);
    let s: i32 = IMAGE_SIZE as i32 - 1;

    let mut x: i32 = 0;
    while x <= s - STRIP_DEPTH
        invariant
            s == 255,
            0 <= x <= 248,
            cols@.len() == x,
            forall|i: int| 0 <= i < cols@.len() ==> #[trigger] cols@[i] == column_spec(i),
        decreases 248 - x,
    {
        cols.push((x as u32, 0, 0, 1));
        x += 1;
    }
    let mut y: i32 = 1;
    while y <= s - STRIP_DEPTH
        invariant
            s == 255,
            1 <= y <= 248,
            cols@.len() == 247 + y,
            forall|i: int| 0 <= i < cols@.len() ==> #[trigger] cols@[i] == column_spec(i),
        decreases 248 - y,
    {
        cols.push((s as u32, y as u32, -1, 0));
        y += 1;
    }
    let mut x: i32 = s;
    while x >= STRIP_DEPTH
        invariant
            s == 255,
            7 <= x <= 255,
            cols@.len() == 750 - x,
            forall|i: int| 0 <= i < cols@.len() ==> #[trigger] cols@[i] == column_spec(i),
        decreases x,
    {
        cols.push((x as u32, s as u32, 0, -1));
        x -= 1;
    }
    let mut y: i32 = s;
    while y >= STRIP_DEPTH + 1
        invariant
            s == 255,
            8 <= y <= 255,
            cols@.len() == 998 - y,
            forall|i: int| 0 <= i < cols@.len() ==> #[trigger] cols@[i] == column_spec(i),
        decreases y,
    {
        cols.push((0, y as u32, 1, 0));
        y -= 1;
    }
    cols
}

} // verus!
