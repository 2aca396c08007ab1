//! Pixel-level analysis of raster images for hidden data.
//!
//! Three engines work on an RGBA pixel grid: a catalog of per-pixel views (bit planes,
//! channel masks, random colour maps), an extractor that packs selected channel bits of
//! every pixel into bytes, and a combiner of two images. Beside them stand a shifted-XOR
//! view, a text preview of extracted bytes, and walkers over the headers of BMP, PNG,
//! GIF and JPEG files.

pub mod apng;
pub mod bmpfile;
pub mod bytes;
pub mod combine;
pub mod extract;
pub mod filekind;
pub mod giffile;
pub mod grid;
pub mod hexdump;
pub mod jpegfile;
pub mod pack;
pub mod pngfile;
pub mod preview;
pub mod stereo;
pub mod transform;
