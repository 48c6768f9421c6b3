//! Writing text into the strip of an RGBA picture and reading it back.
use vstd::prelude::*;
use crate::strip::{
    bit_pixel, column_spec, frame_columns, lemma_bit_pixel_of_slot, lemma_bit_pixel_steps,
    lemma_slot_of_bit_pixel, strip_slot, Column, COLUMN_COUNT, IMAGE_SIZE,
};

verus! {

/// Number of bytes of a 256x256 RGBA picture.
pub const PIXEL_BYTES: usize = 262144;

/// Offset of the first channel of pixel `(x, y)` in a row-major RGBA buffer
/// whose rows are `width` pixels wide.
pub open spec fn pixel_offset(width: int, x: int, y: int) -> int {
    (y * width + x) * 4
}

/// Offset of channel `c` of pixel `(x, y)` in a 256-wide RGBA buffer.
pub open spec fn rgba_offset(x: int, y: int, c: int) -> int {
    pixel_offset(256, x, y) + c
}

/// Column `x` of the byte at offset `k` of a 256-wide RGBA buffer.
pub open spec fn byte_x(k: int) -> int {
    (k / 4) % 256
}

/// Row of the byte at offset `k` of a 256-wide RGBA buffer.
pub open spec fn byte_y(k: int) -> int {
    k / 1024
}

/// Channel (0 red, 1 green, 2 blue, 3 alpha) of the byte at offset `k`.
pub open spec fn byte_channel(k: int) -> int {
    k % 4
}

/// Bit `b` of `ch`, counting from the most significant bit.
pub open spec fn bit_set(ch: u8, b: int) -> bool {
    (ch >> ((7 - b) as u32)) & 1u8 == 1u8
}

/// Whether the strip paints pixel `(x, y)` black for `text`: the pixel holds
/// a bit of a column that stores a byte of the text, and that bit is set.
pub open spec fn strip_dark(text: Seq<u8>, x: int, y: int) -> bool {
    match strip_slot(x, y) {
        Some((i, b)) => i < text.len() && bit_set(text[i], b),
        None => false,
    }
}

/// Byte `k` of the picture that holds `text`: white everywhere but on the
/// red, green and blue channels of the dark strip pixels, which are 0.
pub open spec fn painted_at(text: Seq<u8>, k: int) -> u8 {
    if byte_channel(k) < 3 && strip_dark(text, byte_x(k), byte_y(k)) {
        0
    } else {
        255
    }
}

/// The RGBA picture (256x256, white background) that holds `text` in its strip.
pub open spec fn painted(text: Seq<u8>) -> Seq<u8> {
    Seq::new(PIXEL_BYTES as nat, |k: int| painted_at(text, k))
}

/// Offsets of a 256-wide buffer split into pixel and channel, and back.
pub proof fn lemma_offset_parts(x: int, y: int, c: int)
    requires
        0 <= x < 256,
        0 <= y < 256,
        0 <= c < 4,
    ensures
        0 <= pixel_offset(256, x, y) + c < PIXEL_BYTES,
        byte_x(pixel_offset(256, x, y) + c) == x,
        byte_y(pixel_offset(256, x, y) + c) == y,
        byte_channel(pixel_offset(256, x, y) + c) == c,
{
    let k = (y * 256 + x) * 4 + c;
    assert(k == y * 1024 + x * 4 + c);
    assert(k / 4 == y * 256 + x) by (nonlinear_arith)
        requires
            k == y * 1024 + x * 4 + c,
            0 <= c < 4,
            0 <= x,
            0 <= y,
    ;
    assert((y * 256 + x) % 256 == x) by (nonlinear_arith)
        requires
            0 <= x < 256,
            0 <= y,
    ;
    assert(k / 1024 == y) by (nonlinear_arith)
        requires
            k == y * 1024 + x * 4 + c,
            0 <= c < 4,
            0 <= x < 256,
            0 <= y,
    ;
    assert(k % 4 == c) by (nonlinear_arith)
        requires
            k == y * 1024 + x * 4 + c,
            0 <= c < 4,
            0 <= x,
            0 <= y,
    ;
}

/// Every offset of a 256x256 RGBA buffer is that of some pixel and channel.
pub proof fn lemma_offset_whole(k: int)
    requires
        0 <= k < PIXEL_BYTES,
    ensures
        0 <= byte_x(k) < 256,
        0 <= byte_y(k) < 256,
        0 <= byte_channel(k) < 4,
        k == pixel_offset(256, byte_x(k), byte_y(k)) + byte_channel(k),
{
    let x = byte_x(k);
    let y = byte_y(k);
    let c = byte_channel(k);
    assert(k == (k / 1024) * 1024 + ((k / 4) % 256) * 4 + k % 4 && 0 <= (k / 4) % 256 < 256
        && 0 <= k / 1024 < 256 && 0 <= k % 4 < 4) by (nonlinear_arith)
        requires
            0 <= k < 262144,
    ;
}


/// Like `strip_dark`, counting only the first `n` bits of the strip, taken
/// column by column and, in a column, from the most significant bit on.
pub open spec fn strip_dark_upto(text: Seq<u8>, n: int, x: int, y: int) -> bool {
    match strip_slot(x, y) {
        Some((i, b)) => i * 8 + b < n && i < text.len() && bit_set(text[i], b),
        None => false,
    }
}

/// Byte `k` of the picture after the first `n` bits of the strip are painted.
pub open spec fn painted_upto_at(text: Seq<u8>, n: int, k: int) -> u8 {
    if byte_channel(k) < 3 && strip_dark_upto(text, n, byte_x(k), byte_y(k)) {
        0
    } else {
        255
    }
}

/// Paints the three colour channels of pixel `(x, y)` black.
fn darken_pixel(pixels: &mut Vec<u8>, dst: usize)
    requires
        dst + 3 <= old(pixels)@.len() == PIXEL_BYTES,
    ensures
        final(pixels)@ == old(pixels)@.update(dst as int, 0u8).update(dst + 1, 0u8).update(
            dst + 2,
            0u8,
        ),
{
    pixels.set(dst, 0);
    pixels.set(dst + 1, 0);
    pixels.set(dst + 2, 0);
}

/// Paints bit `bit` of column `i` (with first pixel `(cx, cy)` and inward
/// step `(dx, dy)`) for byte `ch`: its pixel turns black when the bit is set.
fn paint_bit(pixels: &mut Vec<u8>, text: Ghost<Seq<u8>>, i: usize, ch: u8, col: Column, bit: u32)
    requires
        old(pixels)@.len() == PIXEL_BYTES,
        0 <= i < text@.len() <= COLUMN_COUNT,
        text@[i as int] == ch,
        col == column_spec(i as int),
        bit < 8,
        forall|k: int|
            0 <= k < PIXEL_BYTES ==> #[trigger] old(pixels)@[k] == painted_upto_at(
                text@,
                i * 8 + bit,
                k,
            ),
    ensures
        final(pixels)@.len() == PIXEL_BYTES,
        forall|k: int|
            0 <= k < PIXEL_BYTES ==> #[trigger] final(pixels)@[k] == painted_upto_at(
                text@,
                i * 8 + bit + 1,
                k,
            ),
{
    let (cx, cy, dx, dy) = col;
    let set = (ch >> (7 - bit)) & 1 == 1;
    proof {
        lemma_bit_pixel_steps(i as int, bit as int);
        lemma_slot_of_bit_pixel(i as int, bit as int);
    }
    let px = cx as i32 + dx * bit as i32;
    let py = cy as i32 + dy * bit as i32;
    let ghost before = pixels@;
    let ghost n = i * 8 + bit;
    if px >= 0 && px < IMAGE_SIZE as i32 && py >= 0 && py < IMAGE_SIZE as i32 {
        let dst = ((py as u32 * IMAGE_SIZE + px as u32) * 4) as usize;
        proof {
            lemma_offset_parts(px as int, py as int, 0);
            lemma_offset_parts(px as int, py as int, 1);
            lemma_offset_parts(px as int, py as int, 2);
            lemma_offset_parts(px as int, py as int, 3);
        }
        if set {
            darken_pixel(pixels, dst);
        }
        assert forall|k: int| 0 <= k < PIXEL_BYTES implies #[trigger] pixels@[k]
            == painted_upto_at(text@, n + 1, k) by {
            lemma_offset_whole(k);
            let x = byte_x(k);
            let y = byte_y(k);
            if strip_slot(x, y) is Some {
                lemma_bit_pixel_of_slot(x, y);
            }
            if x == px && y == py {
                assert(strip_slot(x, y) == Some((i as int, bit as int)));
            } else {
                assert(k != dst && k != dst + 1 && k != dst + 2);
                assert(strip_dark_upto(text@, n + 1, x, y) == strip_dark_upto(text@, n, x, y));
            }
        }
    }
}

/// The picture that holds `text` in its strip: `text[i]` goes to column `i`,
/// its most significant bit to the column's first pixel.
pub fn paint_strip(text: &[u8]) -> (pixels: Vec<u8>)
    requires
        text@.len() <= COLUMN_COUNT,
    ensures
        pixels@ == painted(text@),
{
    let cols = frame_columns();
    let mut pixels = vec![255u8; PIXEL_BYTES];
    let mut i: usize = 0;
    while i < text.len()
        invariant
            text@.len() <= COLUMN_COUNT,
            0 <= i <= text@.len(),
            cols@.len() == COLUMN_COUNT,
            forall|j: int| 0 <= j < COLUMN_COUNT ==> #[trigger] cols@[j] == column_spec(j),
            pixels@.len() == PIXEL_BYTES,
            forall|k: int|
                0 <= k < PIXEL_BYTES ==> #[trigger] pixels@[k] == painted_upto_at(text@, i * 8, k),
        decreases text@.len() - i,
    {
        let ch = text[i];
        let col = cols[i];
        let mut bit: u32 = 0;
        while bit < 8
            invariant
                text@.len() <= COLUMN_COUNT,
                0 <= i < text@.len(),
                text@[i as int] == ch,
                col == column_spec(i as int),
                bit <= 8,
                pixels@.len() == PIXEL_BYTES,
                forall|k: int|
                    0 <= k < PIXEL_BYTES ==> #[trigger] pixels@[k] == painted_upto_at(
                        text@,
                        i * 8 + bit,
                        k,
                    ),
            decreases 8 - bit,
        {
            paint_bit(&mut pixels, Ghost(text@), i, ch, col, bit);
            bit += 1;
        }
        i += 1;
    }
    assert forall|k: int| 0 <= k < PIXEL_BYTES implies #[trigger] pixels@[k] == painted(text@)[k] by {
        lemma_offset_whole(k);
        let x = byte_x(k);
        let y = byte_y(k);
        if strip_slot(x, y) is Some {
            lemma_bit_pixel_of_slot(x, y);
        }
        assert(strip_dark_upto(text@, i * 8, x, y) == strip_dark(text@, x, y));
    }
    assert(pixels@ =~= painted(text@));
    pixels
}


/// The red byte of the pixel that holds bit `b` of column `i`, in a picture
/// `width` pixels wide.
pub open spec fn strip_cell(pix: Seq<u8>, width: int, i: int, b: int) -> u8 {
    pix[pixel_offset(width, bit_pixel(i, b).0, bit_pixel(i, b).1)]
}

/// In the picture made for `text`, bit `b` (most significant first) of byte
/// `i` shows at the pixel `b` steps in from the start of column `i`: its red,
/// green and blue are 0 when the bit is set and 255 when it is clear.
pub proof fn lemma_painted_bit(text: Seq<u8>, i: int, b: int, c: int)
    requires
        text.len() <= COLUMN_COUNT,
        0 <= i < text.len(),
        0 <= b < 8,
        0 <= c < 3,
    ensures
        ({
            let (cx, cy, dx, dy) = column_spec(i);
            painted(text)[((cy + dy * b) * 256 + cx + dx * b) * 4 + c] == if (text[i] >> ((7 - b) as u32))
                & 1u8 == 1u8 {
                0u8
            } else {
                255u8
            }
        }),
{
    lemma_bit_pixel_steps(i, b);
    lemma_slot_of_bit_pixel(i, b);
    let (x, y) = bit_pixel(i, b);
    lemma_offset_parts(x, y, c);
}

/// Whether bit `b` of column `i` reads as set in a picture `width` pixels
/// wide: the red byte of the bit's pixel is below 128.
pub open spec fn bit_reads_set(pix: Seq<u8>, width: int, i: int, b: int) -> bool {
    strip_cell(pix, width, i, b) < 128
}

/// The byte made of the first `n` bits read from column `i`, most
/// significant first.
pub open spec fn column_value(pix: Seq<u8>, width: int, i: int, n: nat) -> u8
    decreases n,
{
    if n == 0 {
        0u8
    } else {
        let prev = column_value(pix, width, i, (n - 1) as nat);
        if bit_reads_set(pix, width, i, n - 1) {
            prev | (1u8 << ((7 - (n - 1)) as u32))
        } else {
            prev
        }
    }
}

/// The bytes read from column `i` on, up to the first column that reads as 0.
pub open spec fn strip_text_from(pix: Seq<u8>, width: int, i: int) -> Seq<u8>
    decreases COLUMN_COUNT - i,
{
    if i < 0 || i >= COLUMN_COUNT {
        seq![]
    } else {
        let v = column_value(pix, width, i, 8);
        if v == 0 {
            seq![]
        } else {
            seq![v] + strip_text_from(pix, width, i + 1)
        }
    }
}

/// The bytes that the strip of a picture `width` pixels wide holds: one per
/// column, stopping before the first column that reads as 0.
pub open spec fn strip_text(pix: Seq<u8>, width: int) -> Seq<u8> {
    strip_text_from(pix, width, 0)
}

/// The buffer is long enough, and its rows short enough, that every strip
/// pixel can be addressed with 32-bit offsets.
pub open spec fn strip_readable(len: int, width: int) -> bool {
    pixel_offset(width, 255, 255) < len && pixel_offset(width, 255, 255) <= u32::MAX
}

/// The red byte of bit `b` of column `i` lies inside a buffer of `len` bytes
/// (rows `width` pixels wide), at an offset that 32 bits can hold.
pub open spec fn cell_in_range(len: int, width: int, i: int, b: int) -> bool {
    pixel_offset(width, bit_pixel(i, b).0, bit_pixel(i, b).1) <= u32::MAX && pixel_offset(
        width,
        bit_pixel(i, b).0,
        bit_pixel(i, b).1,
    ) < len
}

/// Every bit of column `i` can be read.
pub open spec fn column_in_range(len: int, width: int, i: int) -> bool {
    forall|b: int| 0 <= b < 8 ==> #[trigger] cell_in_range(len, width, i, b)
}

/// The bytes read from column `i` on, up to the first column that reads as
/// 0; nothing when a column read on the way has a bit out of range.
pub open spec fn strip_read_from(pix: Seq<u8>, width: int, i: int) -> Option<Seq<u8>>
    decreases COLUMN_COUNT - i,
{
    if i < 0 || i >= COLUMN_COUNT {
        Some(seq![])
    } else if !column_in_range(pix.len() as int, width, i) {
        None
    } else {
        let v = column_value(pix, width, i, 8);
        if v == 0 {
            Some(seq![])
        } else {
            match strip_read_from(pix, width, i + 1) {
                Some(rest) => Some(seq![v] + rest),
                None => None,
            }
        }
    }
}

/// The bytes that the strip of a picture `width` pixels wide holds, read
/// column by column up to the first column that reads as 0; nothing when a
/// column read on the way reaches outside the buffer.
pub open spec fn strip_read(pix: Seq<u8>, width: int) -> Option<Seq<u8>> {
    strip_read_from(pix, width, 0)
}

/// `s` in front of the bytes of `o`, if any.
pub open spec fn prepend(s: Seq<u8>, o: Option<Seq<u8>>) -> Option<Seq<u8>> {
    match o {
        Some(r) => Some(s + r),
        None => None,
    }
}

proof fn lemma_offset_bound(width: int, x: int, y: int)
    requires
        0 <= width,
        0 <= x < 256,
        0 <= y < 256,
    ensures
        0 <= pixel_offset(width, x, y) <= pixel_offset(width, 255, 255),
{
    assert(0 <= y * width <= 255 * width) by (nonlinear_arith)
        requires
            0 <= width,
            0 <= y < 256,
    ;
}

proof fn lemma_read_from_whole(pix: Seq<u8>, width: int, i: int)
    requires
        0 <= width,
        strip_readable(pix.len() as int, width),
    ensures
        strip_read_from(pix, width, i) == Some(strip_text_from(pix, width, i)),
    decreases COLUMN_COUNT - i,
{
    if 0 <= i < COLUMN_COUNT {
        assert forall|b: int| 0 <= b < 8 implies #[trigger] cell_in_range(
            pix.len() as int,
            width,
            i,
            b,
        ) by {
            lemma_slot_of_bit_pixel(i, b);
            lemma_offset_bound(width, bit_pixel(i, b).0, bit_pixel(i, b).1);
        }
        lemma_read_from_whole(pix, width, i + 1);
    }
}

/// A strip that can be addressed whole reads as `strip_text`.
pub proof fn lemma_read_whole(pix: Seq<u8>, width: int)
    requires
        0 <= width,
        strip_readable(pix.len() as int, width),
    ensures
        strip_read(pix, width) == Some(strip_text(pix, width)),
{
    lemma_read_from_whole(pix, width, 0);
}

/// Reads the bytes that the strip of `pixels` holds (`width` pixels per
/// row); `None` when a column read on the way has a bit whose pixel lies
/// outside the buffer or past 32-bit offsets.
pub fn read_text(pixels: &[u8], width: u32) -> (text: Option<Vec<u8>>)
    ensures
        match strip_read(pixels@, width as int) {
            Some(t) => text matches Some(v) && v@ == t,
            None => text is None,
        },
{
    let cols = frame_columns();
    let mut result: Vec<u8> = Vec::with_capacity(cols.len());
    let mut i: usize = 0;
    while i < cols.len()
        invariant
            cols@.len() == COLUMN_COUNT,
            forall|j: int| 0 <= j < COLUMN_COUNT ==> #[trigger] cols@[j] == column_spec(j),
            0 <= i <= COLUMN_COUNT,
            strip_read(pixels@, width as int) == prepend(
                result@,
                strip_read_from(pixels@, width as int, i as int),
            ),
        decreases COLUMN_COUNT - i,
    {
        let (cx, cy, dx, dy) = cols[i];
        let mut byte: u8 = 0;
        let mut bit: u32 = 0;
        while bit < 8
            invariant
                0 <= i < COLUMN_COUNT,
                (cx, cy, dx, dy) == column_spec(i as int),
                bit <= 8,
                byte == column_value(pixels@, width as int, i as int, bit as nat),
                strip_read(pixels@, width as int) == prepend(
                    result@,
                    strip_read_from(pixels@, width as int, i as int),
                ),
                forall|b: int|
                    0 <= b < bit ==> #[trigger] cell_in_range(
                        pixels@.len() as int,
                        width as int,
                        i as int,
                        b,
                    ),
            decreases 8 - bit,
        {
            proof {
                lemma_bit_pixel_steps(i as int, bit as int);
                lemma_slot_of_bit_pixel(i as int, bit as int);
            }
            let px = cx as i32 + dx * bit as i32;
            let py = cy as i32 + dy * bit as i32;
            if px >= 0 && px < IMAGE_SIZE as i32 && py >= 0 && py < IMAGE_SIZE as i32 {
                proof {
                    assert(0 <= (py as int) * (width as int) <= 255 * 4294967295) by (
                    nonlinear_arith)
                        requires
                            0 <= py < 256,
                            0 <= width <= 4294967295,
                    ;
                }
                let offset = ((py as u64) * (width as u64) + px as u64) * 4;
                if offset > u32::MAX as u64 || offset >= pixels.len() as u64 {
                    assert(!cell_in_range(pixels@.len() as int, width as int, i as int, bit as int));
                    assert(strip_read_from(pixels@, width as int, i as int) is None);
                    assert(strip_read(pixels@, width as int) is None);
                    return None;
                }
                let dst = ((py as u32 * width + px as u32) * 4) as usize;
                if pixels[dst] < 128 {
                    byte |= 1 << (7 - bit);
                }
            }
            bit += 1;
        }
        assert(column_in_range(pixels@.len() as int, width as int, i as int));
        if byte == 0 {
            assert(result@ + seq![] =~= result@);
            return Some(result);
        }
        let ghost before = result@;
        result.push(byte);
        proof {
            match strip_read_from(pixels@, width as int, i + 1) {
                Some(rest) => {
                    assert(before + (seq![byte] + rest) =~= result@ + rest);
                },
                None => {},
            }
        }
        i += 1;
    }
    assert(result@ + seq![] =~= result@);
    Some(result)
}

/// Gathering the eight bits of a byte, most significant first, gives the byte.
proof fn lemma_byte_from_bits(ch: u8)
    ensures
        ({
            let v0: u8 = if (ch >> 7u32) & 1u8 == 1u8 { 0u8 | (1u8 << 7u32) } else { 0u8 };
            let v1: u8 = if (ch >> 6u32) & 1u8 == 1u8 { v0 | (1u8 << 6u32) } else { v0 };
            let v2: u8 = if (ch >> 5u32) & 1u8 == 1u8 { v1 | (1u8 << 5u32) } else { v1 };
            let v3: u8 = if (ch >> 4u32) & 1u8 == 1u8 { v2 | (1u8 << 4u32) } else { v2 };
            let v4: u8 = if (ch >> 3u32) & 1u8 == 1u8 { v3 | (1u8 << 3u32) } else { v3 };
            let v5: u8 = if (ch >> 2u32) & 1u8 == 1u8 { v4 | (1u8 << 2u32) } else { v4 };
            let v6: u8 = if (ch >> 1u32) & 1u8 == 1u8 { v5 | (1u8 << 1u32) } else { v5 };
            let v7: u8 = if (ch >> 0u32) & 1u8 == 1u8 { v6 | (1u8 << 0u32) } else { v6 };
            v7 == ch
        }),
{
    assert({
        let v0: u8 = if (ch >> 7u32) & 1u8 == 1u8 { 0u8 | (1u8 << 7u32) } else { 0u8 };
        let v1: u8 = if (ch >> 6u32) & 1u8 == 1u8 { v0 | (1u8 << 6u32) } else { v0 };
        let v2: u8 = if (ch >> 5u32) & 1u8 == 1u8 { v1 | (1u8 << 5u32) } else { v1 };
        let v3: u8 = if (ch >> 4u32) & 1u8 == 1u8 { v2 | (1u8 << 4u32) } else { v2 };
        let v4: u8 = if (ch >> 3u32) & 1u8 == 1u8 { v3 | (1u8 << 3u32) } else { v3 };
        let v5: u8 = if (ch >> 2u32) & 1u8 == 1u8 { v4 | (1u8 << 2u32) } else { v4 };
        let v6: u8 = if (ch >> 1u32) & 1u8 == 1u8 { v5 | (1u8 << 1u32) } else { v5 };
        let v7: u8 = if (ch >> 0u32) & 1u8 == 1u8 { v6 | (1u8 << 0u32) } else { v6 };
        v7 == ch
    }) by (bit_vector);
}

/// A column whose bits read as those of `ch` reads as `ch`.
proof fn lemma_column_value_of_byte(pix: Seq<u8>, width: int, i: int, ch: u8)
    requires
        forall|b: int| 0 <= b < 8 ==> bit_reads_set(pix, width, i, b) == #[trigger] bit_set(ch, b),
    ensures
        column_value(pix, width, i, 8) == ch,
{
    lemma_byte_from_bits(ch);
    let r = |b: int| bit_reads_set(pix, width, i, b);
    assert(r(0) == ((ch >> 7u32) & 1u8 == 1u8)) by { assert(r(0) == bit_set(ch, 0)); }
    assert(r(1) == ((ch >> 6u32) & 1u8 == 1u8)) by { assert(r(1) == bit_set(ch, 1)); }
    assert(r(2) == ((ch >> 5u32) & 1u8 == 1u8)) by { assert(r(2) == bit_set(ch, 2)); }
    assert(r(3) == ((ch >> 4u32) & 1u8 == 1u8)) by { assert(r(3) == bit_set(ch, 3)); }
    assert(r(4) == ((ch >> 3u32) & 1u8 == 1u8)) by { assert(r(4) == bit_set(ch, 4)); }
    assert(r(5) == ((ch >> 2u32) & 1u8 == 1u8)) by { assert(r(5) == bit_set(ch, 5)); }
    assert(r(6) == ((ch >> 1u32) & 1u8 == 1u8)) by { assert(r(6) == bit_set(ch, 6)); }
    assert(r(7) == ((ch >> 0u32) & 1u8 == 1u8)) by { assert(r(7) == bit_set(ch, 7)); }
    let c = |n: nat| column_value(pix, width, i, n);
    assert(c(0) == 0u8);
    assert(c(1) == if r(0) { 0u8 | (1u8 << 7u32) } else { 0u8 });
    assert(c(2) == if r(1) { c(1) | (1u8 << 6u32) } else { c(1) });
    assert(c(3) == if r(2) { c(2) | (1u8 << 5u32) } else { c(2) });
    assert(c(4) == if r(3) { c(3) | (1u8 << 4u32) } else { c(3) });
    assert(c(5) == if r(4) { c(4) | (1u8 << 3u32) } else { c(4) });
    assert(c(6) == if r(5) { c(5) | (1u8 << 2u32) } else { c(5) });
    assert(c(7) == if r(6) { c(6) | (1u8 << 1u32) } else { c(6) });
    assert(c(8) == if r(7) { c(7) | (1u8 << 0u32) } else { c(7) });
}

/// The strip of a picture that agrees with `painted(text)` on every strip
/// pixel reads back as `text`, when `text` fits and holds no zero byte.
pub proof fn lemma_read_painted(text: Seq<u8>, pix: Seq<u8>)
    requires
        text.len() <= COLUMN_COUNT,
        forall|i: int| 0 <= i < text.len() ==> #[trigger] text[i] != 0,
        pix.len() == PIXEL_BYTES,
        forall|x: int, y: int|
            0 <= x < 256 && 0 <= y < 256 && #[trigger] strip_slot(x, y) is Some ==> pix[pixel_offset(
                256,
                x,
                y,
            )] == painted(text)[pixel_offset(256, x, y)],
    ensures
        strip_text(pix, 256) == text,
{
    assert forall|i: int, b: int| 0 <= i < COLUMN_COUNT && 0 <= b < 8 implies #[trigger] bit_reads_set(
        pix,
        256,
        i,
        b,
    ) == (i < text.len() && bit_set(text[i], b)) by {
        lemma_slot_of_bit_pixel(i, b);
        let (x, y) = bit_pixel(i, b);
        lemma_offset_parts(x, y, 0);
        assert(strip_slot(x, y) is Some);
    }
    assert(forall|s: u32| s < 8 ==> (0u8 >> s) & 1u8 != 1u8) by (bit_vector);
    lemma_read_painted_from(text, pix, 0);
    assert(text.skip(0) =~= text);
}

proof fn lemma_read_painted_from(text: Seq<u8>, pix: Seq<u8>, i: int)
    requires
        text.len() <= COLUMN_COUNT,
        forall|j: int| 0 <= j < text.len() ==> #[trigger] text[j] != 0,
        forall|s: u32| s < 8 ==> (0u8 >> s) & 1u8 != 1u8,
        forall|j: int, b: int|
            0 <= j < COLUMN_COUNT && 0 <= b < 8 ==> #[trigger] bit_reads_set(pix, 256, j, b) == (j
                < text.len() && bit_set(text[j], b)),
        0 <= i <= text.len(),
    ensures
        strip_text_from(pix, 256, i) == text.skip(i),
    decreases text.len() - i,
{
    if i < text.len() {
        assert forall|b: int| 0 <= b < 8 implies bit_reads_set(pix, 256, i, b) == #[trigger] bit_set(
            text[i],
            b,
        ) by {}
        lemma_column_value_of_byte(pix, 256, i, text[i]);
        lemma_read_painted_from(text, pix, i + 1);
        assert(text.skip(i) =~= seq![text[i]] + text.skip(i + 1));
    } else if i < COLUMN_COUNT {
        assert forall|b: int| 0 <= b < 8 implies bit_reads_set(pix, 256, i, b) == #[trigger] bit_set(
            0u8,
            b,
        ) by {}
        lemma_column_value_of_byte(pix, 256, i, 0u8);
        assert(text.skip(i) =~= seq![]);
    } else {
        assert(text.skip(i) =~= seq![]);
    }
}


/// Left edge of a logo `w` pixels wide, centred on the picture.
pub open spec fn logo_left(w: int) -> int {
    (256 - w) / 2
}

/// Top edge of a logo `h` pixels high, centred on the picture.
pub open spec fn logo_top(h: int) -> int {
    (256 - h) / 2
}

/// Whether pixel `(x, y)` of the picture lies under the centred logo.
pub open spec fn in_logo(w: int, h: int, x: int, y: int) -> bool {
    logo_left(w) <= x < logo_left(w) + w && logo_top(h) <= y < logo_top(h) + h
}

/// Whether `v` is a value that byte `k` of the picture may take once the
/// RGBA logo (`w` x `h`, row-major) is laid over `before`: a fully
/// transparent logo pixel leaves the picture alone, an opaque one replaces
/// it, and any other one mixes each colour channel by `blend(logo, picture,
/// alpha)`; a covered pixel ends up opaque.
pub open spec fn overlaid_byte<F: Fn(u8, u8, u8) -> u8>(
    before: Seq<u8>,
    logo: Seq<u8>,
    w: int,
    h: int,
    blend: F,
    k: int,
    v: u8,
) -> bool {
    let x = byte_x(k);
    let y = byte_y(k);
    let c = byte_channel(k);
    let s = pixel_offset(w, x - logo_left(w), y - logo_top(h));
    let a = logo[s + 3];
    if !in_logo(w, h, x, y) || a == 0 {
        v == before[k]
    } else if c == 3 {
        v == 255
    } else if a == 255 {
        v == logo[s + c]
    } else {
        call_ensures(blend, (logo[s + c], before[k], a), v)
    }
}

/// `after` is `before` with the logo laid over it.
pub open spec fn overlaid<F: Fn(u8, u8, u8) -> u8>(
    before: Seq<u8>,
    after: Seq<u8>,
    logo: Seq<u8>,
    w: int,
    h: int,
    blend: F,
) -> bool {
    &&& before.len() == PIXEL_BYTES
    &&& after.len() == PIXEL_BYTES
    &&& forall|k: int|
        0 <= k < PIXEL_BYTES ==> overlaid_byte(before, logo, w, h, blend, k, #[trigger] after[k])
}

/// Whether logo pixel `(x - left, y - top)` comes before logo pixel `(lx, ly)`
/// in row-major order.
pub open spec fn logo_done(w: int, h: int, ly: int, lx: int, x: int, y: int) -> bool {
    let rx = x - logo_left(w);
    let ry = y - logo_top(h);
    ry < ly || (ry == ly && rx < lx)
}

/// The first logo pixels, up to `(lx, ly)` in row-major order, are laid over
/// `before`; the rest of the picture is as it was.
pub open spec fn overlaid_upto<F: Fn(u8, u8, u8) -> u8>(
    before: Seq<u8>,
    after: Seq<u8>,
    logo: Seq<u8>,
    w: int,
    h: int,
    blend: F,
    ly: int,
    lx: int,
) -> bool {
    &&& before.len() == PIXEL_BYTES
    &&& after.len() == PIXEL_BYTES
    &&& forall|k: int|
        0 <= k < PIXEL_BYTES ==> if logo_done(w, h, ly, lx, byte_x(k), byte_y(k)) {
            overlaid_byte(before, logo, w, h, blend, k, #[trigger] after[k])
        } else {
            after[k] == before[k]
        }
}

proof fn lemma_logo_offset(w: int, h: int, lx: int, ly: int)
    requires
        0 <= lx < w <= 256,
        0 <= ly < h <= 256,
    ensures
        0 <= pixel_offset(w, lx, ly),
        pixel_offset(w, lx, ly) + 4 <= w * h * 4,
        w * h * 4 <= PIXEL_BYTES,
{
    assert(0 <= ly * w && ly * w + lx < w * h && w * h <= 65536) by (nonlinear_arith)
        requires
            0 <= lx < w <= 256,
            0 <= ly < h <= 256,
    ;
}

/// Lays the RGBA logo (`logo_w` x `logo_h`, row-major) over the middle of
/// the picture.
pub fn overlay_logo<F: Fn(u8, u8, u8) -> u8>(
    pixels: &mut Vec<u8>,
    logo: &[u8],
    logo_w: u32,
    logo_h: u32,
    blend: F,
)
    requires
        old(pixels)@.len() == PIXEL_BYTES,
        logo_w <= IMAGE_SIZE,
        logo_h <= IMAGE_SIZE,
        logo_w * logo_h * 4 <= logo@.len(),
        forall|s: u8, d: u8, a: u8| call_requires(blend, (s, d, a)),
    ensures
        overlaid(old(pixels)@, final(pixels)@, logo@, logo_w as int, logo_h as int, blend),
        logo_laid(old(pixels)@, final(pixels)@, logo@, logo_w as int, logo_h as int, blend),
{
    let ghost before = pixels@;
    let ghost w = logo_w as int;
    let ghost h = logo_h as int;
    let left = (IMAGE_SIZE - logo_w) / 2;
    let top = (IMAGE_SIZE - logo_h) / 2;
    let mut ly: u32 = 0;
    while ly < logo_h
        invariant
            before.len() == PIXEL_BYTES,
            w == logo_w,
            h == logo_h,
            logo_w <= 256,
            logo_h <= 256,
            logo_w * logo_h * 4 <= logo@.len(),
            left == logo_left(w),
            top == logo_top(h),
            forall|s: u8, d: u8, a: u8| call_requires(blend, (s, d, a)),
            ly <= logo_h,
            overlaid_upto(before, pixels@, logo@, w, h, blend, ly as int, 0),
        decreases logo_h - ly,
    {
        let mut lx: u32 = 0;
        while lx < logo_w
            invariant
                before.len() == PIXEL_BYTES,
                w == logo_w,
                h == logo_h,
                logo_w <= 256,
                logo_h <= 256,
                logo_w * logo_h * 4 <= logo@.len(),
                left == logo_left(w),
                top == logo_top(h),
                forall|s: u8, d: u8, a: u8| call_requires(blend, (s, d, a)),
                ly < logo_h,
                lx <= logo_w,
                overlaid_upto(before, pixels@, logo@, w, h, blend, ly as int, lx as int),
            decreases logo_w - lx,
        {
            proof {
                lemma_logo_offset(w, h, lx as int, ly as int);
                assert(0 <= ly * logo_w <= 255 * 256) by (nonlinear_arith)
                    requires
                        ly < logo_h <= 256,
                        logo_w <= 256,
                ;
            }
            let src_idx = ((ly * logo_w + lx) * 4) as usize;
            let r = logo[src_idx];
            let g = logo[src_idx + 1];
            let b = logo[src_idx + 2];
            let a = logo[src_idx + 3];
            let px = left + lx;
            let py = top + ly;
            let ghost mid = pixels@;
            proof {
                lemma_offset_parts(px as int, py as int, 0);
                lemma_offset_parts(px as int, py as int, 1);
                lemma_offset_parts(px as int, py as int, 2);
                lemma_offset_parts(px as int, py as int, 3);
            }
            let dst_idx = ((py * IMAGE_SIZE + px) * 4) as usize;
            if a != 0 {
                if a == 255 {
                    pixels.set(dst_idx, r);
                    pixels.set(dst_idx + 1, g);
                    pixels.set(dst_idx + 2, b);
                    pixels.set(dst_idx + 3, 255);
                } else {
                    let nr = blend(r, pixels[dst_idx], a);
                    pixels.set(dst_idx, nr);
                    let ng = blend(g, pixels[dst_idx + 1], a);
                    pixels.set(dst_idx + 1, ng);
                    let nb = blend(b, pixels[dst_idx + 2], a);
                    pixels.set(dst_idx + 2, nb);
                    pixels.set(dst_idx + 3, 255);
                }
            }
            assert forall|k: int| 0 <= k < PIXEL_BYTES implies if logo_done(
                w,
                h,
                ly as int,
                lx + 1,
                byte_x(k),
                byte_y(k),
            ) {
                overlaid_byte(before, logo@, w, h, blend, k, #[trigger] pixels@[k])
            } else {
                pixels@[k] == before[k]
            } by {
                lemma_offset_whole(k);
                let x = byte_x(k);
                let y = byte_y(k);
                if x == px && y == py {
                    assert(!logo_done(w, h, ly as int, lx as int, x, y));
                    assert(mid[k] == before[k]);
                    assert(in_logo(w, h, x, y));
                } else {
                    assert(k != dst_idx && k != dst_idx + 1 && k != dst_idx + 2 && k != dst_idx
                        + 3);
                    assert(pixels@[k] == mid[k]);
                }
            }
            lx += 1;
        }
        assert forall|k: int| 0 <= k < PIXEL_BYTES implies if logo_done(
            w,
            h,
            ly + 1,
            0,
            byte_x(k),
            byte_y(k),
        ) {
            overlaid_byte(before, logo@, w, h, blend, k, #[trigger] pixels@[k])
        } else {
            pixels@[k] == before[k]
        } by {
            lemma_offset_whole(k);
            let x = byte_x(k);
            let y = byte_y(k);
            assert(logo_done(w, h, ly + 1, 0, x, y) == logo_done(w, h, ly as int, w, x, y)
                || !in_logo(w, h, x, y));
            if !in_logo(w, h, x, y) {
                assert(logo_done(w, h, ly as int, w, x, y) ==> overlaid_byte(before, logo@, w, h, blend, k, pixels@[k]));
            }
        }
        ly += 1;
    }
    assert forall|k: int| 0 <= k < PIXEL_BYTES implies overlaid_byte(
        before,
        logo@,
        w,
        h,
        blend,
        k,
        #[trigger] pixels@[k],
    ) by {
        lemma_offset_whole(k);
        let x = byte_x(k);
        let y = byte_y(k);
        if !logo_done(w, h, h, 0, x, y) {
            assert(!in_logo(w, h, x, y));
        }
    }
    proof {
        lemma_overlay_pixels(before, pixels@, logo@, w, h, blend);
    }
}


/// Offset of channel `c` of the picture pixel that logo pixel `(lx, ly)` of a
/// `w` x `h` logo, centred on the 256x256 picture, lands on.
pub open spec fn under_logo(w: int, h: int, lx: int, ly: int, c: int) -> int {
    (((256 - h) / 2 + ly) * 256 + (256 - w) / 2 + lx) * 4 + c
}

/// Offset of channel `c` of pixel `(lx, ly)` in a row-major RGBA logo `w`
/// pixels wide.
pub open spec fn in_logo_bytes(w: int, lx: int, ly: int, c: int) -> int {
    (ly * w + lx) * 4 + c
}

/// Pixel by pixel, the logo lies upright and centred on the picture: logo
/// pixel `(lx, ly)` lands on picture pixel `((256 - w) / 2 + lx, (256 - h) / 2
/// + ly)`. There an opaque logo pixel `(r, g, b, 255)` gives `(r, g, b, 255)`,
/// a transparent one leaves the picture as it was, and any other one gives
/// `blend(logo channel, picture channel, alpha)` for red, green and blue,
/// with alpha 255.
pub open spec fn logo_laid<F: Fn(u8, u8, u8) -> u8>(
    before: Seq<u8>,
    after: Seq<u8>,
    logo: Seq<u8>,
    w: int,
    h: int,
    blend: F,
) -> bool {
    forall|lx: int, ly: int, c: int|
        #![trigger after[under_logo(w, h, lx, ly, c)]]
        0 <= lx < w && 0 <= ly < h && 0 <= c < 4 ==> {
            let k = under_logo(w, h, lx, ly, c);
            let a = logo[in_logo_bytes(w, lx, ly, 3)];
            &&& a == 255 && c < 3 ==> after[k] == logo[in_logo_bytes(w, lx, ly, c)]
            &&& a != 0 && c == 3 ==> after[k] == 255
            &&& a == 0 ==> after[k] == before[k]
            &&& a != 0 && a != 255 && c < 3 ==> call_ensures(
                blend,
                (logo[in_logo_bytes(w, lx, ly, c)], before[k], a),
                after[k],
            )
        }
}

/// Laying a logo over a picture puts each logo pixel, upright and channel for
/// channel, on the picture pixel under it (see `logo_laid`).
pub proof fn lemma_overlay_pixels<F: Fn(u8, u8, u8) -> u8>(
    before: Seq<u8>,
    after: Seq<u8>,
    logo: Seq<u8>,
    w: int,
    h: int,
    blend: F,
)
    requires
        overlaid(before, after, logo, w, h, blend),
        0 <= w <= 256,
        0 <= h <= 256,
    ensures
        logo_laid(before, after, logo, w, h, blend),
{
    assert forall|lx: int, ly: int, c: int|
        #![trigger after[under_logo(w, h, lx, ly, c)]]
        0 <= lx < w && 0 <= ly < h && 0 <= c < 4 implies {
            let k = under_logo(w, h, lx, ly, c);
            let a = logo[in_logo_bytes(w, lx, ly, 3)];
            &&& a == 255 && c < 3 ==> after[k] == logo[in_logo_bytes(w, lx, ly, c)]
            &&& a != 0 && c == 3 ==> after[k] == 255
            &&& a == 0 ==> after[k] == before[k]
            &&& a != 0 && a != 255 && c < 3 ==> call_ensures(
                blend,
                (logo[in_logo_bytes(w, lx, ly, c)], before[k], a),
                after[k],
            )
        } by {
        let x = logo_left(w) + lx;
        let y = logo_top(h) + ly;
        lemma_offset_parts(x, y, c);
        let k = under_logo(w, h, lx, ly, c);
        assert(k == pixel_offset(256, x, y) + c);
        assert(in_logo(w, h, x, y));
        assert(pixel_offset(w, x - logo_left(w), y - logo_top(h)) + 3 == in_logo_bytes(w, lx, ly, 3));
        assert(pixel_offset(w, x - logo_left(w), y - logo_top(h)) + c == in_logo_bytes(w, lx, ly, c));
        assert(overlaid_byte(before, logo, w, h, blend, k, after[k]));
    }
}

/// A logo of at most 240x240 pixels, centred, stays clear of the strip.
pub proof fn lemma_logo_clear_of_strip(w: int, h: int, x: int, y: int)
    requires
        0 <= w <= 240,
        0 <= h <= 240,
        strip_slot(x, y) is Some,
    ensures
        !in_logo(w, h, x, y),
{
}

/// Laying a logo of at most 240x240 pixels over a picture leaves every byte
/// of every strip pixel as it was.
pub proof fn lemma_overlay_keeps_strip<F: Fn(u8, u8, u8) -> u8>(
    before: Seq<u8>,
    after: Seq<u8>,
    logo: Seq<u8>,
    w: int,
    h: int,
    blend: F,
)
    requires
        overlaid(before, after, logo, w, h, blend),
        0 <= w <= 240,
        0 <= h <= 240,
    ensures
        forall|x: int, y: int, c: int|
            0 <= x < 256 && 0 <= y < 256 && 0 <= c < 4 && strip_slot(x, y) is Some
                ==> #[trigger] after[rgba_offset(x, y, c)] == before[rgba_offset(x, y, c)],
{
    assert forall|x: int, y: int, c: int|
        0 <= x < 256 && 0 <= y < 256 && 0 <= c < 4 && strip_slot(x, y) is Some implies #[trigger] after[rgba_offset(x, y, c)]
        == before[rgba_offset(x, y, c)] by {
        lemma_offset_parts(x, y, c);
        lemma_logo_clear_of_strip(w, h, x, y);
        let k = rgba_offset(x, y, c);
        assert(overlaid_byte(before, logo, w, h, blend, k, after[k]));
    }
}

/// A text written into the strip, with a logo of at most 240x240 pixels laid
/// over the picture, reads back as the same text, when it fits the strip
/// and holds no zero byte.
pub proof fn lemma_strip_roundtrip<F: Fn(u8, u8, u8) -> u8>(
    text: Seq<u8>,
    pix: Seq<u8>,
    logo: Seq<u8>,
    w: int,
    h: int,
    blend: F,
)
    requires
        text.len() <= COLUMN_COUNT,
        forall|i: int| 0 <= i < text.len() ==> #[trigger] text[i] != 0,
        overlaid(painted(text), pix, logo, w, h, blend),
        0 <= w <= 240,
        0 <= h <= 240,
    ensures
        strip_text(pix, 256) == text,
{
    lemma_overlay_keeps_strip(painted(text), pix, logo, w, h, blend);
    assert forall|x: int, y: int|
        0 <= x < 256 && 0 <= y < 256 && #[trigger] strip_slot(x, y) is Some implies pix[pixel_offset(
            256,
            x,
            y,
        )] == painted(text)[pixel_offset(256, x, y)] by {
        assert(pix[rgba_offset(x, y, 0)] == painted(text)[rgba_offset(x, y, 0)]);
    }
    lemma_read_painted(text, pix);
}


/// Two pictures whose strip pixels have the same red bytes give the same
/// column values.
proof fn lemma_column_value_cells(p1: Seq<u8>, p2: Seq<u8>, width: int, i: int, n: nat)
    requires
        forall|b: int| 0 <= b < 8 ==> #[trigger] strip_cell(p1, width, i, b) == strip_cell(p2, width, i, b),
        n <= 8,
    ensures
        column_value(p1, width, i, n) == column_value(p2, width, i, n),
    decreases n,
{
    if n > 0 {
        lemma_column_value_cells(p1, p2, width, i, (n - 1) as nat);
        assert(strip_cell(p1, width, i, n - 1) == strip_cell(p2, width, i, n - 1));
    }
}

proof fn lemma_strip_read_from_cells(p1: Seq<u8>, p2: Seq<u8>, width: int, i: int)
    requires
        p1.len() == p2.len(),
        forall|j: int, b: int|
            0 <= j < COLUMN_COUNT && 0 <= b < 8 && cell_in_range(p1.len() as int, width, j, b)
                ==> #[trigger] strip_cell(p1, width, j, b) == strip_cell(p2, width, j, b),
    ensures
        strip_read_from(p1, width, i) == strip_read_from(p2, width, i),
    decreases COLUMN_COUNT - i,
{
    if 0 <= i < COLUMN_COUNT {
        if column_in_range(p1.len() as int, width, i) {
            assert forall|b: int| 0 <= b < 8 implies #[trigger] strip_cell(p1, width, i, b)
                == strip_cell(p2, width, i, b) by {
                assert(cell_in_range(p1.len() as int, width, i, b));
            }
            lemma_column_value_cells(p1, p2, width, i, 8);
        }
        lemma_strip_read_from_cells(p1, p2, width, i + 1);
    }
}

/// What the strip of a picture reads as depends only on the buffer's length
/// and the red bytes of its strip pixels: green, blue, alpha and every pixel
/// off the strip (the logo among them) play no part.
pub proof fn lemma_strip_read_depends_on_cells(p1: Seq<u8>, p2: Seq<u8>, width: int)
    requires
        p1.len() == p2.len(),
        forall|i: int, b: int|
            0 <= i < COLUMN_COUNT && 0 <= b < 8 && cell_in_range(p1.len() as int, width, i, b)
                ==> #[trigger] strip_cell(p1, width, i, b) == strip_cell(p2, width, i, b),
    ensures
        strip_read(p1, width) == strip_read(p2, width),
{
    lemma_strip_read_from_cells(p1, p2, width, 0);
}

} // verus!
