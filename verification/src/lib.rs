//! A text editor core with an image-strip codec: text is written as bit
//! columns around the border of a 256x256 RGBA picture and read back from it.

pub mod codec;
pub mod editor;
pub mod fonts;
pub mod image_strip;
pub mod png_image;
pub mod strip;
pub mod text_buffer;
