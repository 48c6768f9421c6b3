//! PNG encoding and decoding of RGBA pictures held in memory, by the `png` crate.
use vstd::prelude::*;

verus! {

/// The error that the `png` decoder reports.
#[verifier::external_type_specification]
#[verifier::external_body]
pub struct ExDecodingError(png::DecodingError);

/// The error that the `png` encoder reports.
#[verifier::external_type_specification]
#[verifier::external_body]
pub struct ExEncodingError(png::EncodingError);

/// A decoded picture: its bytes (rows one after the other, as the file
/// stores them), and its size in pixels.
pub struct DecodedPng {
    pub pixels: Vec<u8>,
    pub width: u32,
    pub height: u32,
}

/// What the `png` decoder makes of a file: its pixel bytes, width and
/// height, or nothing when it rejects the file.
pub uninterp spec fn png_decoded(data: Seq<u8>) -> Option<(Seq<u8>, u32, u32)>;

/// The file that the `png` encoder writes for an 8-bit RGBA picture.
pub uninterp spec fn png_encoded(pixels: Seq<u8>, width: u32, height: u32) -> Seq<u8>;

/// Decodes a PNG file held in memory with `png::Decoder::new`,
/// `Decoder::read_info`, `Reader::output_buffer_size` and `Reader::next_frame`
/// (default limits and no transformations), keeping the first
/// `OutputInfo::buffer_size` bytes of the frame. Claimed: the call succeeds
/// exactly when the decoder accepts the file, and then returns what the
/// decoder makes of it; both depend on the file's bytes alone. The error's
/// content is not described.
#[verifier::external_body]
pub(crate) fn decode_png(data: &[u8]) -> (res: Result<DecodedPng, png::DecodingError>)
    ensures
        res is Ok <==> png_decoded(data@) is Some,
        res matches Ok(d) ==> png_decoded(data@) == Some((d.pixels@, d.width, d.height)),
{
    let decoder = png::Decoder::new(std::io::Cursor::new(data));
    let mut reader = decoder.read_info()?;
    let mut buf = vec![0u8; reader.output_buffer_size()];
    let info = reader.next_frame(&mut buf)?;
    buf.truncate(info.buffer_size());
    Ok(DecodedPng { pixels: buf, width: info.width, height: info.height })
}

/// Encodes an 8-bit RGBA picture into a PNG file held in memory with
/// `png::Encoder::new`, `Encoder::set_color(ColorType::Rgba)`,
/// `Encoder::set_depth(BitDepth::Eight)`, `Encoder::write_header` and
/// `Writer::write_image_data`; dropping the writer ends the file. The caller
/// hands exactly `width * height * 4` bytes. Claimed: the file depends on
/// the pixels and the size alone; the encoder fails only on a zero width or
/// height (`Writer::init`), since the colour type and depth are a valid pair,
/// one image is written, its length matches, and writing into a `Vec` cannot
/// fail; PNG is lossless, so for a picture of at most 256x256 pixels the
/// decoder (whose default limits such a picture stays far below) gives back
/// the same pixels and size.
#[verifier::external_body]
pub(crate) fn encode_png(pixels: &[u8], width: u32, height: u32) -> (res: Result<
    Vec<u8>,
    png::EncodingError,
>)
    requires
        pixels@.len() == width * height * 4,
    ensures
        width > 0 && height > 0 ==> res is Ok,
        res matches Ok(file) ==> file@ == png_encoded(pixels@, width, height),
        res matches Ok(file) ==> (width <= 256 && height <= 256 ==> png_decoded(file@) == Some(
            (pixels@, width, height),
        )),
{
    let mut out: Vec<u8> = Vec::new();
    {
        let mut encoder = png::Encoder::new(&mut out, width, height);
        encoder.set_color(png::ColorType::Rgba);
        encoder.set_depth(png::BitDepth::Eight);
        let mut writer = encoder.write_header()?;
        writer.write_image_data(pixels)?;
    }
    Ok(out)
}

} // verus!
