# ct

The core of a small encrypted-notes editor, verified with Verus.

- `src/strip.rs`: the geometry of the text strip, 990 columns of 8 pixels
  around the border of a 256x256 picture, one byte per column.
- `src/codec.rs`: painting bytes into the strip of an RGBA picture, reading
  them back, and laying a logo over the middle of the picture.
- `src/png_image.rs`: PNG encoding and decoding in memory, by the `png` crate.
- `src/image_strip.rs`: a text's UTF-8 bytes into a PNG picture and back.
- `src/text_buffer.rs`: character-indexed text editing (ranges, deletion,
  insertion, search).
- `src/editor.rs`: the editor's state and what each user action does to it.
- `src/fonts.rs`: the fonts the editor adds to its user interface.
- `app/`: the window (egui/eframe), file dialogs, clipboard, encryption,
  file I/O and the floating-point colour blend of the logo.
