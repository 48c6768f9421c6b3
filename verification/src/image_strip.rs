//! Hiding a text in a PNG picture and reading it back: the text's UTF-8
//! bytes go into the strip around the border, and a logo sits in the middle.
use vstd::prelude::*;
use vstd::utf8::{
    char_is_scalar, decode_utf8, encode_scalar, encode_utf8, encode_utf8_decode_utf8,
    encode_utf8_valid_utf8, has_width_1_encoding, is_scalar, valid_utf8,
};
use crate::codec::{
    cell_in_range, lemma_read_whole, lemma_strip_read_depends_on_cells, lemma_strip_roundtrip,
    overlaid, overlay_logo, paint_strip, painted, read_text, strip_cell, strip_read, strip_readable,
    strip_text,
};
use crate::png_image::{decode_png, encode_png, png_decoded, png_encoded, DecodedPng};
use crate::strip::{COLUMN_COUNT, IMAGE_SIZE};

verus! {

/// Why a picture could not be made or read.
#[derive(Debug, PartialEq, Eq)]
pub enum StripError {
    /// The text has `len` bytes; the strip holds at most `max`.
    TextTooLong { len: usize, max: usize },
    /// The logo is not a PNG file that the decoder accepts.
    LogoUnreadable,
    /// The logo is larger than the picture, or holds fewer than four bytes
    /// per pixel.
    LogoTooLarge,
    /// The encoder refused the picture; it accepts every picture this crate
    /// makes, so `encode_to_image` never gives this error.
    ImageUnwritable,
    /// The file is not a PNG file that the decoder accepts.
    ImageUnreadable,
    /// A column read on the way has a bit whose pixel lies outside the
    /// picture's bytes, or past 32-bit offsets.
    ImageTooSmall,
    /// The bytes read from the strip are not UTF-8.
    NotUtf8,
}

/// A decoded logo can be laid over the picture: it is no larger than the
/// picture and holds four bytes for each of its pixels.
pub open spec fn logo_fits(logo: (Seq<u8>, u32, u32)) -> bool {
    &&& logo.1 <= IMAGE_SIZE
    &&& logo.2 <= IMAGE_SIZE
    &&& logo.1 * logo.2 * 4 <= logo.0.len()
}

/// `pix` is a picture made for `text` (its UTF-8 bytes in the strip) with
/// the logo (decoded from `logo_png`) laid over it.
pub open spec fn picture_of<F: Fn(u8, u8, u8) -> u8>(
    text: Seq<u8>,
    logo_png: Seq<u8>,
    blend: F,
    pix: Seq<u8>,
) -> bool {
    let logo = png_decoded(logo_png).unwrap();
    overlaid(painted(text), pix, logo.0, logo.1 as int, logo.2 as int, blend)
}

/// `file` is a PNG file that `encode_to_image` may write for `text` and the logo.
pub open spec fn image_of<F: Fn(u8, u8, u8) -> u8>(
    text: Seq<char>,
    logo_png: Seq<u8>,
    blend: F,
    file: Seq<u8>,
) -> bool {
    exists|pix: Seq<u8>|
        #![trigger picture_of(encode_utf8(text), logo_png, blend, pix)]
        picture_of(encode_utf8(text), logo_png, blend, pix) && file == png_encoded(pix, 256, 256)
            && png_decoded(file) == Some((pix, 256u32, 256u32))
}

/// What `decode_from_image` gives for a file: the text in the strip of the
/// decoded picture, or why there is none.
pub open spec fn text_of_image(file: Seq<u8>) -> Result<Seq<char>, StripError> {
    match png_decoded(file) {
        None => Err(StripError::ImageUnreadable),
        Some((pix, width, _height)) => text_of_pixels(pix, width),
    }
}

/// `String::from_utf8`, which (as its documentation says) succeeds exactly
/// when the bytes are valid UTF-8 and then holds the characters they encode.
/// The error's content is dropped.
#[verifier::external_body]
fn string_from_utf8(bytes: Vec<u8>) -> (res: Option<String>)
    ensures
        res is Some <==> valid_utf8(bytes@),
        res matches Some(s) ==> s@ == decode_utf8(bytes@),
{
    String::from_utf8(bytes).ok()
}

/// The picture (256x256, RGBA) that holds the UTF-8 bytes of `text` in its
/// border strip, with the decoded `logo` laid over its middle.
/// `blend(logo, picture, alpha)` mixes a colour channel where the logo is
/// neither transparent nor opaque.
pub fn picture_for<F: Fn(u8, u8, u8) -> u8>(text: &str, logo: &DecodedPng, blend: F) -> (res:
    Result<Vec<u8>, StripError>)
    requires
        logo_fits((logo.pixels@, logo.width, logo.height)),
        forall|s: u8, d: u8, a: u8| call_requires(blend, (s, d, a)),
    ensures
        encode_utf8(text@).len() > COLUMN_COUNT ==> res == Err::<Vec<u8>, StripError>(
            StripError::TextTooLong { len: encode_utf8(text@).len() as usize, max: COLUMN_COUNT },
        ),
        encode_utf8(text@).len() <= COLUMN_COUNT ==> res is Ok,
        res matches Ok(pix) ==> overlaid(
            painted(encode_utf8(text@)),
            pix@,
            logo.pixels@,
            logo.width as int,
            logo.height as int,
            blend,
        ),
{
    let bytes = text.as_bytes();
    let max_chars = COLUMN_COUNT;
    if bytes.len() > max_chars {
        return Err(StripError::TextTooLong { len: bytes.len(), max: max_chars });
    }
    let mut pixels = paint_strip(bytes);
    overlay_logo(&mut pixels, logo.pixels.as_slice(), logo.width, logo.height, blend);
    Ok(pixels)
}

/// Makes a PNG picture (256x256, RGBA) that holds the UTF-8 bytes of `text`
/// in its border strip, with the PNG logo `logo_png` laid over its middle.
/// `blend(logo, picture, alpha)` mixes a colour channel where the logo is
/// neither transparent nor opaque.
pub fn encode_to_image<F: Fn(u8, u8, u8) -> u8>(text: &str, logo_png: &[u8], blend: F) -> (res:
    Result<Vec<u8>, StripError>)
    requires
        forall|s: u8, d: u8, a: u8| call_requires(blend, (s, d, a)),
    ensures
        encode_utf8(text@).len() > COLUMN_COUNT ==> res == Err::<Vec<u8>, StripError>(
            StripError::TextTooLong { len: encode_utf8(text@).len() as usize, max: COLUMN_COUNT },
        ),
        encode_utf8(text@).len() <= COLUMN_COUNT && png_decoded(logo_png@) is None ==> res == Err::<
            Vec<u8>,
            StripError,
        >(StripError::LogoUnreadable),
        encode_utf8(text@).len() <= COLUMN_COUNT && png_decoded(logo_png@) is Some && !logo_fits(
            png_decoded(logo_png@).unwrap(),
        ) ==> res == Err::<Vec<u8>, StripError>(StripError::LogoTooLarge),
        encode_utf8(text@).len() <= COLUMN_COUNT && png_decoded(logo_png@) is Some && logo_fits(
            png_decoded(logo_png@).unwrap(),
        ) ==> res is Ok,
        res matches Ok(file) ==> image_of(text@, logo_png@, blend, file@),
{
    let text_bytes = text.as_bytes().len();
    if text_bytes > COLUMN_COUNT {
        return Err(StripError::TextTooLong { len: text_bytes, max: COLUMN_COUNT });
    }
    let logo: DecodedPng = match decode_png(logo_png) {
        Ok(d) => d,
        Err(_) => return Err(StripError::LogoUnreadable),
    };
    if !(logo.width <= IMAGE_SIZE && logo.height <= IMAGE_SIZE) {
        return Err(StripError::LogoTooLarge);
    }
    proof {
        assert(logo.width * logo.height <= 65536) by (nonlinear_arith)
            requires
                logo.width <= 256,
                logo.height <= 256,
        ;
    }
    if (logo.width as u64) * (logo.height as u64) * 4 > logo.pixels.len() as u64 {
        return Err(StripError::LogoTooLarge);
    }
    let pixels = match picture_for(text, &logo, blend) {
        Ok(p) => p,
        Err(e) => return Err(e),
    };
    assert(pixels@.len() == IMAGE_SIZE * IMAGE_SIZE * 4);
    match encode_png(pixels.as_slice(), IMAGE_SIZE, IMAGE_SIZE) {
        Ok(file) => {
            assert(picture_of(encode_utf8(text@), logo_png@, blend, pixels@));
            Ok(file)
        },
        Err(_) => Err(StripError::ImageUnwritable),
    }
}

/// What `text_from_pixels` gives for a picture `width` pixels wide: the text
/// in its strip, or why there is none.
pub open spec fn text_of_pixels(pix: Seq<u8>, width: u32) -> Result<Seq<char>, StripError> {
    match strip_read(pix, width as int) {
        None => Err(StripError::ImageTooSmall),
        Some(bytes) => if valid_utf8(bytes) {
            Ok(decode_utf8(bytes))
        } else {
            Err(StripError::NotUtf8)
        },
    }
}

/// Reads the text held in the strip of an RGBA picture `width` pixels wide.
pub fn text_from_pixels(pixels: &[u8], width: u32) -> (res: Result<String, StripError>)
    ensures
        match text_of_pixels(pixels@, width) {
            Ok(t) => res matches Ok(s) && s@ == t,
            Err(e) => res == Err::<String, StripError>(e),
        },
{
    let bytes = match read_text(pixels, width) {
        Some(b) => b,
        None => return Err(StripError::ImageTooSmall),
    };
    match string_from_utf8(bytes) {
        Some(s) => Ok(s),
        None => Err(StripError::NotUtf8),
    }
}

/// Reads the text held in the strip of a PNG picture.
pub fn decode_from_image(file: &[u8]) -> (res: Result<String, StripError>)
    ensures
        match text_of_image(file@) {
            Ok(t) => res matches Ok(s) && s@ == t,
            Err(e) => res == Err::<String, StripError>(e),
        },
{
    let image: DecodedPng = match decode_png(file) {
        Ok(d) => d,
        Err(_) => return Err(StripError::ImageUnreadable),
    };
    text_from_pixels(image.pixels.as_slice(), image.width)
}

/// The UTF-8 bytes of a character other than NUL are all non-zero.
proof fn lemma_scalar_bytes_nonzero(c: u32)
    requires
        is_scalar(c),
        c != 0,
    ensures
        forall|i: int| 0 <= i < encode_scalar(c).len() ==> #[trigger] encode_scalar(c)[i] != 0,
{
    assert(forall|x: u8| #[trigger] (0xC0u8 | x) != 0u8) by (bit_vector);
    assert(forall|x: u8| #[trigger] (0xE0u8 | x) != 0u8) by (bit_vector);
    assert(forall|x: u8| #[trigger] (0xF0u8 | x) != 0u8) by (bit_vector);
    assert(forall|x: u8| #[trigger] (0x80u8 | x) != 0u8) by (bit_vector);
    if has_width_1_encoding(c) {
        assert(((c & 0x7F) as u8) != 0u8) by (bit_vector)
            requires
                1 <= c <= 0x7F,
        ;
    }
}

/// The UTF-8 bytes of a text without NUL characters are all non-zero.
proof fn lemma_utf8_bytes_nonzero(text: Seq<char>)
    requires
        forall|i: int| 0 <= i < text.len() ==> #[trigger] text[i] != '\0',
    ensures
        forall|i: int|
            0 <= i < encode_utf8(text).len() ==> #[trigger] encode_utf8(text)[i] != 0,
    decreases text.len(),
{
    if text.len() > 0 {
        char_is_scalar(text[0]);
        assert(text[0] != '\0');
        if text[0] as u32 == 0 {
            vstd::utf8::char_u32_cast(text[0], 0u32);
            assert(('\0' as u32) == 0u32);
            vstd::utf8::char_u32_cast('\0', 0u32);
        }
        lemma_scalar_bytes_nonzero(text[0] as u32);
        let rest = text.drop_first();
        assert forall|i: int| 0 <= i < rest.len() implies #[trigger] rest[i] != '\0' by {
            assert(rest[i] == text[i + 1]);
        }
        lemma_utf8_bytes_nonzero(rest);
        let head = encode_scalar(text[0] as u32);
        assert(encode_utf8(text) == head + encode_utf8(rest));
        assert forall|i: int| 0 <= i < encode_utf8(text).len() implies #[trigger] encode_utf8(
            text,
        )[i] != 0 by {
            if i < head.len() {
                assert(encode_utf8(text)[i] == head[i]);
            } else {
                assert(encode_utf8(text)[i] == encode_utf8(rest)[i - head.len()]);
            }
        }
    }
}

/// The picture that `picture_for` makes for a text reads back, through
/// `text_from_pixels`, as that text, when the text has at most 990 UTF-8
/// bytes and no NUL character and the logo has at most 240x240 pixels.
pub proof fn lemma_picture_roundtrip<F: Fn(u8, u8, u8) -> u8>(
    text: Seq<char>,
    logo: Seq<u8>,
    w: u32,
    h: u32,
    blend: F,
    pix: Seq<u8>,
)
    requires
        encode_utf8(text).len() <= COLUMN_COUNT,
        forall|i: int| 0 <= i < text.len() ==> #[trigger] text[i] != '\0',
        w <= 240,
        h <= 240,
        overlaid(painted(encode_utf8(text)), pix, logo, w as int, h as int, blend),
    ensures
        strip_readable(pix.len() as int, 256),
        text_of_pixels(pix, 256) == Ok::<Seq<char>, StripError>(text),
{
    lemma_utf8_bytes_nonzero(text);
    lemma_strip_roundtrip(encode_utf8(text), pix, logo, w as int, h as int, blend);
    encode_utf8_valid_utf8(text);
    encode_utf8_decode_utf8(text);
    assert(strip_readable(pix.len() as int, 256));
    lemma_read_whole(pix, 256);
}

/// What `decode_from_image` reads from a picture that `encode_to_image` made
/// is the text it was made from, when the text has at most 990 UTF-8 bytes
/// and no NUL character and the logo is a PNG picture of at most 240x240
/// pixels.
pub proof fn lemma_image_roundtrip<F: Fn(u8, u8, u8) -> u8>(
    text: Seq<char>,
    logo_png: Seq<u8>,
    blend: F,
    file: Seq<u8>,
)
    requires
        encode_utf8(text).len() <= COLUMN_COUNT,
        forall|i: int| 0 <= i < text.len() ==> #[trigger] text[i] != '\0',
        png_decoded(logo_png) is Some,
        png_decoded(logo_png).unwrap().1 <= 240,
        png_decoded(logo_png).unwrap().2 <= 240,
        image_of(text, logo_png, blend, file),
    ensures
        text_of_image(file) == Ok::<Seq<char>, StripError>(text),
{
    let bytes = encode_utf8(text);
    let pix = choose|pix: Seq<u8>|
        #![trigger picture_of(bytes, logo_png, blend, pix)]
        picture_of(bytes, logo_png, blend, pix) && file == png_encoded(pix, 256, 256)
            && png_decoded(file) == Some((pix, 256u32, 256u32));
    let logo = png_decoded(logo_png).unwrap();
    lemma_picture_roundtrip(text, logo.0, logo.1, logo.2, blend, pix);
}


/// Two PNG files whose decoded pictures have the same width and the same
/// number of bytes, and the same red bytes on every strip pixel that can be
/// read, give the same result from `decode_from_image`.
pub proof fn lemma_image_text_depends_on_cells(f1: Seq<u8>, f2: Seq<u8>)
    requires
        png_decoded(f1) is Some,
        png_decoded(f2) is Some,
        png_decoded(f1).unwrap().1 == png_decoded(f2).unwrap().1,
        png_decoded(f1).unwrap().0.len() == png_decoded(f2).unwrap().0.len(),
        forall|i: int, b: int|
            0 <= i < COLUMN_COUNT && 0 <= b < 8 && cell_in_range(
                png_decoded(f1).unwrap().0.len() as int,
                png_decoded(f1).unwrap().1 as int,
                i,
                b,
            ) ==> #[trigger] strip_cell(
                png_decoded(f1).unwrap().0,
                png_decoded(f1).unwrap().1 as int,
                i,
                b,
            ) == strip_cell(png_decoded(f2).unwrap().0, png_decoded(f1).unwrap().1 as int, i, b),
    ensures
        text_of_image(f1) == text_of_image(f2),
{
    let (p1, w, _h1) = png_decoded(f1).unwrap();
    let (p2, _w2, _h2) = png_decoded(f2).unwrap();
    lemma_strip_read_depends_on_cells(p1, p2, w as int);
}

} // verus!
