//! The two operations that the `image` crate performs on pixel buffers.
//!
//! Nothing in this file is proved: the contracts record what the crate's
//! source shows, and every proof about rasters built by these functions rests
//! on them.

use crate::raster::{Raster, RasterView};
use vstd::prelude::*;

verus! {

/// Calls `image::ImageBuffer::new` for RGBA pixels.
///
/// The crate allocates `4 * width * height` zeroed bytes, so the raster has
/// the requested size and every pixel of it is fully transparent. The size
/// bound keeps the allocation within what a vector can hold, where the crate
/// would panic otherwise; the dimensions are positive because those of every
/// raster are.
#[verifier::external_body]
pub(crate) fn blank(width: u32, height: u32) -> (raster: Raster)
    requires
        width >= 1,
        height >= 1,
        4 * width * height <= isize::MAX,
    ensures
        raster@ == RasterView::blank(width as nat, height as nat),
{
    let image: image::RgbaImage = image::ImageBuffer::new(width, height);
    Raster { width, height, data: image.into_raw() }
}

/// Calls `image::imageops::crop_imm` on `source` and hands the cropped view
/// to `image::imageops::replace`, which writes it into `dest` at `(dx, dy)`.
///
/// With both rectangles inside their rasters neither function clips, so
/// `replace` overwrites exactly the `width` by `height` pixels of `dest` that
/// start at `(dx, dy)` with the pixels of `source` that start at `(sx, sy)`,
/// channel for channel and without blending, and leaves every other pixel and
/// the size of `dest` as they were.
#[verifier::external_body]
pub(crate) fn copy_block(
    dest: &mut Raster,
    source: &Raster,
    sx: u32,
    sy: u32,
    width: u32,
    height: u32,
    dx: u32,
    dy: u32,
)
    requires
        sx + width <= source@.width,
        sy + height <= source@.height,
        dx + width <= old(dest)@.width,
        dy + height <= old(dest)@.height,
    ensures
        final(dest)@ == old(dest)@.with_block(
            source@,
            sx as int,
            sy as int,
            width as int,
            height as int,
            dx as int,
            dy as int,
        ),
{
    let top: image::ImageBuffer<image::Rgba<u8>, &[u8]> =
        image::ImageBuffer::from_raw(source.width, source.height, source.data.as_slice()).unwrap();
    let mut bottom: image::ImageBuffer<image::Rgba<u8>, &mut [u8]> =
        image::ImageBuffer::from_raw(dest.width, dest.height, dest.data.as_mut_slice()).unwrap();
    let block = image::imageops::crop_imm(&top, sx, sy, width, height);
    image::imageops::replace(&mut bottom, &*block, i64::from(dx), i64::from(dy));
}

} // verus!
