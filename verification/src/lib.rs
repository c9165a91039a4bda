//! Planar 8-bit RGB images: three channel arrays of equal length, their
//! conversion to and from interleaved buffers, synchronized traversal of the
//! channels, and loading and saving through a PNG codec.

use vstd::prelude::*;

pub mod buffer;
pub mod image;
pub mod png;
pub mod rgb;

pub use rgb::iter::Greyscale;
pub use image::{
    lemma_packed_of_planar, lemma_planar_of_packed, lemma_rows_of_packed, packed_rows, planar,
    planar_of_rows, rows_fit, rows_view,
    RgbImg, RgbImgView,
};

verus! {

/// The sample types a channel may hold.
pub trait Numeric: Copy {}

impl Numeric for u8 {}

} // verus!
