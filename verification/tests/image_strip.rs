use ct::codec::{overlay_logo, paint_strip, read_text, PIXEL_BYTES};
use ct::image_strip::{
    decode_from_image, encode_to_image, picture_for, text_from_pixels, StripError,
};
use ct::png_image::DecodedPng;
use ct::strip::{frame_columns, COLUMN_COUNT, IMAGE_SIZE, STRIP_DEPTH};

fn float_blend(src: u8, dst: u8, a: u8) -> u8 {
    let alpha = a as f32 / 255.0;
    let inv = 1.0 - alpha;
    (src as f32 * alpha + dst as f32 * inv) as u8
}

fn png_file(pixels: &[u8], width: u32, height: u32) -> Vec<u8> {
    let mut out = Vec::new();
    {
        let mut encoder = png::Encoder::new(&mut out, width, height);
        encoder.set_color(png::ColorType::Rgba);
        encoder.set_depth(png::BitDepth::Eight);
        let mut writer = encoder.write_header().unwrap();
        writer.write_image_data(pixels).unwrap();
    }
    out
}

fn decode_file(file: &[u8]) -> (Vec<u8>, u32, u32) {
    let decoder = png::Decoder::new(std::io::Cursor::new(file));
    let mut reader = decoder.read_info().unwrap();
    let mut buf = vec![0u8; reader.output_buffer_size()];
    let info = reader.next_frame(&mut buf).unwrap();
    buf.truncate(info.buffer_size());
    (buf, info.width, info.height)
}

/// A 64x64 logo: transparent border, half-transparent ring, opaque centre.
fn logo_pixels() -> Vec<u8> {
    let mut v = Vec::new();
    for y in 0..64u32 {
        for x in 0..64u32 {
            let d = x.min(y).min(63 - x).min(63 - y);
            let a = if d < 4 { 0 } else if d < 12 { 128 } else { 255 };
            v.extend_from_slice(&[200, 30, 60, a]);
        }
    }
    v
}

fn logo_png() -> Vec<u8> {
    png_file(&logo_pixels(), 64, 64)
}

fn offset(x: usize, y: usize) -> usize {
    (y * 256 + x) * 4
}

#[test]
fn constants() {
    assert_eq!(IMAGE_SIZE, 256);
    assert_eq!(STRIP_DEPTH, 8);
    assert_eq!(COLUMN_COUNT, 990);
    assert_eq!(PIXEL_BYTES, 256 * 256 * 4);
}

#[test]
fn frame_columns_walk_the_border() {
    let cols = frame_columns();
    assert_eq!(cols.len(), 990);
    assert_eq!(cols[0], (0, 0, 0, 1));
    assert_eq!(cols[247], (247, 0, 0, 1));
    assert_eq!(cols[248], (255, 1, -1, 0));
    assert_eq!(cols[494], (255, 247, -1, 0));
    assert_eq!(cols[495], (255, 255, 0, -1));
    assert_eq!(cols[742], (8, 255, 0, -1));
    assert_eq!(cols[743], (0, 255, 1, 0));
    assert_eq!(cols[989], (0, 9, 1, 0));
}

#[test]
fn frame_columns_pixels_distinct_and_inside() {
    let cols = frame_columns();
    let mut seen = std::collections::HashSet::new();
    for &(cx, cy, dx, dy) in &cols {
        for b in 0..8i32 {
            let x = cx as i32 + dx * b;
            let y = cy as i32 + dy * b;
            assert!((0..256).contains(&x) && (0..256).contains(&y));
            assert!(seen.insert((x, y)));
        }
    }
    assert_eq!(seen.len(), 990 * 8);
}

#[test]
fn paint_strip_sets_bits_of_first_column() {
    // 'A' = 0b0100_0001: bits 1 and 7 of column 0, i.e. pixels (0,1) and (0,7).
    let px = paint_strip(b"A");
    assert_eq!(px.len(), PIXEL_BYTES);
    assert_eq!(&px[offset(0, 1)..offset(0, 1) + 4], &[0, 0, 0, 255]);
    assert_eq!(&px[offset(0, 7)..offset(0, 7) + 4], &[0, 0, 0, 255]);
    assert_eq!(&px[offset(0, 0)..offset(0, 0) + 4], &[255, 255, 255, 255]);
    assert_eq!(&px[offset(0, 2)..offset(0, 2) + 4], &[255, 255, 255, 255]);
    let dark = px.iter().filter(|&&v| v == 0).count();
    assert_eq!(dark, 2 * 3);
}

#[test]
fn paint_strip_right_edge_column() {
    // Column 248 starts at (255, 1) and runs left; 0x80 sets only its first bit.
    let mut text = vec![1u8; 249];
    text[248] = 0x80;
    let px = paint_strip(&text);
    assert_eq!(&px[offset(255, 1)..offset(255, 1) + 3], &[0, 0, 0]);
    assert_eq!(px[offset(254, 1)], 255);
    // 0x01 sets the last bit of every other column: column 0 at (0, 7).
    assert_eq!(px[offset(0, 7)], 0);
}

#[test]
fn read_text_reads_painted_text() {
    let px = paint_strip(b"Hi there");
    assert_eq!(read_text(&px, 256).unwrap(), b"Hi there".to_vec());
    assert_eq!(read_text(&paint_strip(b""), 256).unwrap(), Vec::<u8>::new());
}

#[test]
fn read_text_full_strip() {
    let text: Vec<u8> = (0..990).map(|i| (i % 255 + 1) as u8).collect();
    let px = paint_strip(&text);
    assert_eq!(read_text(&px, 256).unwrap(), text);
}

#[test]
fn read_text_stops_at_zero_column() {
    let px = paint_strip(&[b'a', 0, b'b']);
    assert_eq!(read_text(&px, 256).unwrap(), b"a".to_vec());
}

#[test]
fn overlay_logo_opaque_transparent_and_blended() {
    let mut px = vec![100u8; PIXEL_BYTES];
    // 2x1 logo: opaque red, transparent; centred at x = 127, y = 127.
    let logo = [255, 0, 0, 255, 9, 9, 9, 0];
    overlay_logo(&mut px, &logo, 2, 1, float_blend);
    assert_eq!(&px[offset(127, 127)..offset(127, 127) + 4], &[255, 0, 0, 255]);
    assert_eq!(&px[offset(128, 127)..offset(128, 127) + 4], &[100, 100, 100, 100]);
    assert_eq!(px[offset(126, 127)], 100);

    let mut px = vec![0u8; PIXEL_BYTES];
    let logo = [200, 100, 50, 128];
    overlay_logo(&mut px, &logo, 1, 1, float_blend);
    let o = offset(127, 127);
    assert_eq!(&px[o..o + 4], &[float_blend(200, 0, 128), float_blend(100, 0, 128), float_blend(50, 0, 128), 255]);
    assert_eq!(px[o], 100);
}

#[test]
fn overlay_logo_spares_strip() {
    let text = b"strip stays";
    let mut px = paint_strip(text);
    let logo: Vec<u8> = [1u8, 1, 1, 255].repeat(240 * 240);
    overlay_logo(&mut px, &logo, 240, 240, float_blend);
    assert_eq!(read_text(&px, 256).unwrap(), text.to_vec());
    assert_eq!(px[offset(8, 8)], 1);
    assert_eq!(px[offset(247, 247)], 1);
}

#[test]
fn picture_for_errors() {
    let logo = DecodedPng { pixels: logo_pixels(), width: 64, height: 64 };
    let long = "x".repeat(991);
    assert_eq!(
        picture_for(&long, &logo, float_blend).unwrap_err(),
        StripError::TextTooLong { len: 991, max: 990 }
    );
    assert!(picture_for(&"x".repeat(990), &logo, float_blend).is_ok());
}

#[test]
fn encode_decode_roundtrip() {
    let text = "Hello, world! Grüße, 你好 — ħ€";
    let file = encode_to_image(text, &logo_png(), float_blend).unwrap();
    assert_eq!(decode_from_image(&file).unwrap(), text);
}

#[test]
fn encode_to_image_writes_png_of_picture() {
    let text = "png check";
    let file = encode_to_image(text, &logo_png(), float_blend).unwrap();
    assert_eq!(&file[..8], &[137, 80, 78, 71, 13, 10, 26, 10]);
    let (pix, w, h) = decode_file(&file);
    assert_eq!((w, h), (256, 256));
    let logo = DecodedPng { pixels: logo_pixels(), width: 64, height: 64 };
    assert_eq!(pix, picture_for(text, &logo, float_blend).unwrap());
}

#[test]
fn encode_decode_roundtrip_max_length() {
    let text = "ab".repeat(495);
    let file = encode_to_image(&text, &logo_png(), float_blend).unwrap();
    assert_eq!(decode_from_image(&file).unwrap(), text);
}

#[test]
fn encode_to_image_too_long() {
    let text = "é".repeat(496); // 992 bytes
    assert_eq!(
        encode_to_image(&text, &logo_png(), float_blend).unwrap_err(),
        StripError::TextTooLong { len: 992, max: 990 }
    );
}

#[test]
fn encode_to_image_bad_logo() {
    assert_eq!(
        encode_to_image("hi", b"not a png", float_blend).unwrap_err(),
        StripError::LogoUnreadable
    );
    let big = png_file(&vec![0u8; 300 * 2 * 4], 300, 2);
    assert_eq!(encode_to_image("hi", &big, float_blend).unwrap_err(), StripError::LogoTooLarge);
    // An RGB logo holds three bytes per pixel, fewer than the overlay reads.
    let mut rgb = Vec::new();
    {
        let mut encoder = png::Encoder::new(&mut rgb, 4, 4);
        encoder.set_color(png::ColorType::Rgb);
        encoder.set_depth(png::BitDepth::Eight);
        let mut writer = encoder.write_header().unwrap();
        writer.write_image_data(&[7u8; 4 * 4 * 3]).unwrap();
    }
    assert_eq!(encode_to_image("hi", &rgb, float_blend).unwrap_err(), StripError::LogoTooLarge);
}

#[test]
fn decode_from_image_errors() {
    assert_eq!(decode_from_image(b"garbage").unwrap_err(), StripError::ImageUnreadable);
    // A small white picture: the first column reads as 0, so reading stops
    // before any pixel outside the picture is needed.
    let small = png_file(&vec![255u8; 16 * 16 * 4], 16, 16);
    assert_eq!(decode_from_image(&small).unwrap(), "");
    // A small black picture: every column reads as 0xff until one reaches
    // outside the picture.
    let dark = png_file(&[0u8, 0, 0, 255].repeat(16 * 16), 16, 16);
    assert_eq!(decode_from_image(&dark).unwrap_err(), StripError::ImageTooSmall);
    let tiny = png_file(&[0u8, 0, 0, 255], 1, 1);
    assert_eq!(decode_from_image(&tiny).unwrap_err(), StripError::ImageTooSmall);
    let blank = png_file(&vec![255u8; PIXEL_BYTES], 256, 256);
    assert_eq!(decode_from_image(&blank).unwrap(), "");
}

#[test]
fn text_from_pixels_not_utf8() {
    let px = paint_strip(&[0xff, 0xfe]);
    assert_eq!(text_from_pixels(&px, 256).unwrap_err(), StripError::NotUtf8);
    assert_eq!(text_from_pixels(&paint_strip("ok ✓".as_bytes()), 256).unwrap(), "ok ✓");
}

#[test]
fn text_from_pixels_wider_picture() {
    // A 300-pixel wide picture: the strip is read at the same coordinates.
    let mut px = vec![255u8; 300 * 256 * 4];
    // Column 0, byte 0x40: bit 1 at (0, 1).
    px[(1 * 300 + 0) * 4] = 0;
    assert_eq!(text_from_pixels(&px, 300).unwrap(), "@");
}

#[test]
fn full_size_logo_covers_strip() {
    // A 256x256 opaque logo covers the whole picture, strip included.
    let mut px = paint_strip(b"gone");
    let logo: Vec<u8> = [255u8, 255, 255, 255].repeat(256 * 256);
    overlay_logo(&mut px, &logo, 256, 256, float_blend);
    assert_eq!(read_text(&px, 256).unwrap(), Vec::<u8>::new());
}

#[test]
fn nul_character_ends_the_text() {
    let file = encode_to_image("ab\0cd", &logo_png(), float_blend).unwrap();
    assert_eq!(decode_from_image(&file).unwrap(), "ab");
}

#[test]
fn encode_to_image_accepts_990_bytes() {
    let text = "a".repeat(990);
    let file = encode_to_image(&text, &logo_png(), float_blend).unwrap();
    assert_eq!(decode_from_image(&file).unwrap(), text);
}

#[test]
fn decoding_reads_only_red_bytes_of_strip() {
    let text = b"red only";
    let base = paint_strip(text);
    // Change green, blue and alpha everywhere, and red off the strip.
    let mut other = base.clone();
    for (k, v) in other.iter_mut().enumerate() {
        let (x, y) = ((k / 4) % 256, k / 1024);
        let on_strip = x < 8 || x >= 248 || y < 8 || y >= 248;
        if k % 4 != 0 || !on_strip {
            *v = v.wrapping_add(77);
        }
    }
    // Red bytes 127 and 128 read as set and clear.
    let mut near = base.clone();
    for v in near.iter_mut().step_by(4) {
        *v = if *v == 0 { 127 } else { 128 };
    }
    let f1 = png_file(&base, 256, 256);
    let f2 = png_file(&other, 256, 256);
    let f3 = png_file(&near, 256, 256);
    assert_eq!(decode_from_image(&f1).unwrap(), "red only");
    assert_eq!(decode_from_image(&f2).unwrap(), "red only");
    assert_eq!(decode_from_image(&f3).unwrap(), "red only");
}

#[test]
fn short_picture_reads_top_row_text() {
    let white = png_file(&vec![255u8; 256 * 100 * 4], 256, 100);
    assert_eq!(decode_from_image(&white).unwrap(), "");
    let px = paint_strip(b"hi");
    let top = png_file(&px[..256 * 100 * 4], 256, 100);
    assert_eq!(decode_from_image(&top).unwrap(), "hi");
    assert_eq!(read_text(&px[..256 * 100 * 4], 256).unwrap(), b"hi".to_vec());
    assert_eq!(read_text(&px[..1000], 256), None);
}
