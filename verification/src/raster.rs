//! Rasters of RGBA pixels and their mathematical model.

use crate::imaging::blank;
use vstd::prelude::*;

verus! {

/// One pixel: red, green, blue and alpha, eight bits each.
#[derive(Clone, Copy, Debug, PartialEq, Eq, Structural)]
pub struct Rgba {
    pub red: u8,
    pub green: u8,
    pub blue: u8,
    pub alpha: u8,
}

impl Rgba {
    /// The fully transparent pixel: every channel is zero.
    pub open spec fn transparent() -> Rgba {
        Rgba { red: 0, green: 0, blue: 0, alpha: 0 }
    }
}

/// The pixel whose four channels are stored at `bytes[4 * index ..]`.
pub open spec fn pixel_of(bytes: Seq<u8>, index: int) -> Rgba {
    Rgba {
        red: bytes[4 * index],
        green: bytes[4 * index + 1],
        blue: bytes[4 * index + 2],
        alpha: bytes[4 * index + 3],
    }
}

/// The model of a raster: its size and its rows of pixels, top row first.
pub struct RasterView {
    pub width: nat,
    pub height: nat,
    pub rows: Seq<Seq<Rgba>>,
}

impl RasterView {
    /// A raster has at least one pixel in each direction, `height` rows and
    /// `width` pixels in every row.
    pub open spec fn well_formed(self) -> bool {
        &&& self.width >= 1
        &&& self.height >= 1
        &&& self.rows.len() == self.height
        &&& forall|y: int| 0 <= y < self.height ==> (#[trigger] self.rows[y]).len() == self.width
    }

    /// Whether `(x, y)` is a pixel position of the raster.
    pub open spec fn contains(self, x: int, y: int) -> bool {
        0 <= x < self.width && 0 <= y < self.height
    }

    /// The pixel in column `x` of row `y`.
    pub open spec fn pixel(self, x: int, y: int) -> Rgba {
        self.rows[y][x]
    }

    /// This raster after the `width` by `height` block of `source` that starts
    /// at `(sx, sy)` has been written over the pixels that start at `(dx, dy)`.
    pub open spec fn with_block(
        self,
        source: RasterView,
        sx: int,
        sy: int,
        width: int,
        height: int,
        dx: int,
        dy: int,
    ) -> RasterView {
        RasterView {
            width: self.width,
            height: self.height,
            rows: Seq::new(
                self.height,
                |y: int|
                    Seq::new(
                        self.width,
                        |x: int|
                            if dx <= x < dx + width && dy <= y < dy + height {
                                source.pixel(sx + (x - dx), sy + (y - dy))
                            } else {
                                self.pixel(x, y)
                            },
                    ),
            ),
        }
    }

    /// The `width` by `height` block of pixels whose top left corner is
    /// `(x, y)`, as rows of pixels.
    pub open spec fn block(self, x: int, y: int, width: int, height: int) -> Seq<Seq<Rgba>> {
        Seq::new(
            height as nat,
            |j: int| Seq::new(width as nat, |i: int| self.pixel(x + i, y + j)),
        )
    }

    /// The raster of the given size stored in `bytes`: row after row from the
    /// top, pixel after pixel from the left, four bytes to the pixel.
    pub open spec fn from_bytes(width: nat, height: nat, bytes: Seq<u8>) -> RasterView {
        RasterView {
            width,
            height,
            rows: Seq::new(
                height,
                |y: int| Seq::new(width, |x: int| pixel_of(bytes, y * width + x)),
            ),
        }
    }

    /// The raster of the given size whose every pixel is fully transparent.
    pub open spec fn blank(width: nat, height: nat) -> RasterView {
        RasterView {
            width,
            height,
            rows: Seq::new(height, |y: int| Seq::new(width, |x: int| Rgba::transparent())),
        }
    }
}

/// A raster of RGBA pixels, stored row by row, four bytes to the pixel.
#[derive(Debug)]
pub struct Raster {
    pub(crate) width: u32,
    pub(crate) height: u32,
    pub(crate) data: Vec<u8>,
}

impl View for Raster {
    type V = RasterView;

    closed spec fn view(&self) -> RasterView {
        RasterView::from_bytes(self.width as nat, self.height as nat, self.data@)
    }
}

/// Whether a raster of this size can be held in memory: both lengths fit the
/// 32-bit dimensions of a raster and its four bytes per pixel fit one
/// allocation.
pub open spec fn representable(width: int, height: int) -> bool {
    &&& width <= u32::MAX
    &&& height <= u32::MAX
    &&& 4 * width * height <= isize::MAX
}

/// Whether a raster of `width` by `height` pixels can be held in memory.
pub fn is_representable(width: u64, height: u64) -> (fits: bool)
    ensures
        fits == representable(width as int, height as int),
{
    if width > 0xffff_ffff || height > 0xffff_ffff {
        return false;
    }
    assert(4 * width * height <= 4 * 0xffff_ffff * 0xffff_ffff) by (nonlinear_arith)
        requires
            width <= 0xffff_ffff,
            height <= 0xffff_ffff,
    ;
    4 * (width as u128) * (height as u128) <= isize::MAX as u128
}

impl Raster {
    #[verifier::type_invariant]
    pub(crate) closed spec fn inv(self) -> bool {
        &&& self.width >= 1
        &&& self.height >= 1
        &&& self.data@.len() == 4 * self.width * self.height
    }

    /// The model of a raster that meets the invariant is well formed.
    pub(crate) proof fn lemma_well_formed(self)
        requires
            self.inv(),
        ensures
            self@.well_formed(),
    {
    }

    /// A fully transparent raster of the given size, or `None` where a
    /// dimension is zero or the raster would not fit in memory.
    pub fn new(width: u32, height: u32) -> (raster: Option<Raster>)
        ensures
            raster is Some <==> width >= 1 && height >= 1 && representable(
                width as int,
                height as int,
            ),
            raster matches Some(made) ==> made@ == RasterView::blank(width as nat, height as nat),
            raster matches Some(made) ==> made@.well_formed(),
    {
        if width == 0 || height == 0 || !is_representable(width as u64, height as u64) {
            return None;
        }
        Some(blank(width, height))
    }

    /// The raster of the given size whose pixels are stored in `data`, or
    /// `None` where a dimension is zero or `data` does not hold exactly four
    /// bytes for each pixel.
    pub fn from_raw(width: u32, height: u32, data: Vec<u8>) -> (raster: Option<Raster>)
        ensures
            raster is Some <==> width >= 1 && height >= 1 && data@.len() == 4 * width * height,
            raster matches Some(made) ==> made@ == RasterView::from_bytes(
                width as nat,
                height as nat,
                data@,
            ),
            raster matches Some(made) ==> made@.well_formed(),
    {
        if width == 0 || height == 0 {
            return None;
        }
        assert(4 * width * height <= 4 * 0xffff_ffff * 0xffff_ffff) by (nonlinear_arith)
            requires
                width <= 0xffff_ffff,
                height <= 0xffff_ffff,
        ;
        if data.len() as u128 != 4 * (width as u128) * (height as u128) {
            return None;
        }
        Some(Raster { width, height, data })
    }

    /// The bytes of the raster: row after row from the top, pixel after pixel
    /// from the left, four bytes to the pixel.
    pub fn into_raw(self) -> (bytes: Vec<u8>)
        ensures
            bytes@.len() == 4 * self@.width * self@.height,
            self@ == RasterView::from_bytes(self@.width, self@.height, bytes@),
    {
        proof {
            use_type_invariant(&self);
        }
        self.data
    }

    /// The pixel in column `x` of row `y`, or `None` where the raster has no
    /// such pixel.
    pub fn get_pixel(&self, x: u32, y: u32) -> (pixel: Option<Rgba>)
        ensures
            pixel is Some <==> self@.contains(x as int, y as int),
            pixel matches Some(found) ==> found == self@.pixel(x as int, y as int),
    {
        proof {
            use_type_invariant(self);
        }
        if x >= self.width || y >= self.height {
            return None;
        }
        let length: usize = self.data.len();
        assert(0 <= y * self.width && 4 * (y * self.width + x) + 4 <= length) by (nonlinear_arith)
            requires
                x < self.width,
                y < self.height,
                length == 4 * self.width * self.height,
        ;
        let first: usize = 4 * (y as usize * self.width as usize + x as usize);
        Some(
            Rgba {
                red: self.data[first],
                green: self.data[first + 1],
                blue: self.data[first + 2],
                alpha: self.data[first + 3],
            },
        )
    }

    /// The number of pixels in a row.
    pub fn width(&self) -> (width: u32)
        ensures
            width == self@.width,
            self@.well_formed(),
    {
        proof {
            use_type_invariant(self);
        }
        self.width
    }

    /// The number of rows.
    pub fn height(&self) -> (height: u32)
        ensures
            height == self@.height,
            self@.well_formed(),
    {
        proof {
            use_type_invariant(self);
        }
        self.height
    }
}

} // verus!
