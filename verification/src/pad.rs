//! Padding a spritesheet: the padded layout, the function that builds it and
//! what holds of every padded sheet.

use crate::geometry::{
    frame_count,
    in_frame,
    lemma_axis_of_one_frame,
    lemma_axis_without_padding,
    lemma_exact_axis,
    lemma_frame_count,
    lemma_frame_fits,
    lemma_nonnegative_cell,
    lemma_position_in_frame,
    padded_extent,
    padded_origin,
    source_origin,
    source_position,
    valid_frame,
};
use crate::imaging::{blank, copy_block};
use crate::raster::{is_representable, representable, Raster, RasterView, Rgba};
use vstd::prelude::*;

verus! {

/// Why a sheet could not be padded.
#[derive(Clone, Copy, Debug, PartialEq, Eq, Structural)]
pub enum PadError {
    /// The frame width or height is zero, or exceeds the sheet in that
    /// direction.
    InvalidFrameSize,
}

/// The frame grid of a sheet and the size of the sheet once it is padded.
#[derive(Clone, Copy, Debug, PartialEq, Eq, Structural)]
pub struct GridGeometry {
    /// The number of whole frames side by side.
    pub columns: u32,
    /// The number of whole frames one below the other.
    pub rows: u32,
    /// The width of the padded sheet.
    pub padded_width: u64,
    /// The height of the padded sheet.
    pub padded_height: u64,
}

/// Whether `frame_width` by `frame_height` frames can be cut from `sheet`.
pub open spec fn frames_fit(sheet: RasterView, frame_width: int, frame_height: int) -> bool {
    valid_frame(sheet.width as int, frame_width) && valid_frame(sheet.height as int, frame_height)
}

/// The pixel at `(x, y)` of the padded sheet: the source pixel it shows where
/// `(x, y)` lies inside a frame, and the transparent pixel in the gaps and
/// past the last whole frame.
pub open spec fn padded_pixel(
    sheet: RasterView,
    frame_width: int,
    frame_height: int,
    padding: int,
    x: int,
    y: int,
) -> Rgba {
    if in_frame(x, sheet.width as int, frame_width, padding) && in_frame(
        y,
        sheet.height as int,
        frame_height,
        padding,
    ) {
        sheet.pixel(
            source_position(x, frame_width, padding),
            source_position(y, frame_height, padding),
        )
    } else {
        Rgba::transparent()
    }
}

/// The padded sheet: `sheet` cut into frames of the given size, the frames
/// laid out again `padding` pixels apart, and every other pixel transparent.
pub open spec fn padded(
    sheet: RasterView,
    frame_width: int,
    frame_height: int,
    padding: int,
) -> RasterView {
    let width = padded_extent(sheet.width as int, frame_width, padding) as nat;
    let height = padded_extent(sheet.height as int, frame_height, padding) as nat;
    RasterView {
        width,
        height,
        rows: Seq::new(
            height,
            |y: int|
                Seq::new(
                    width,
                    |x: int| padded_pixel(sheet, frame_width, frame_height, padding, x, y),
                ),
        ),
    }
}

/// The sheet restricted to its whole frames: the same size, the pixels of the
/// whole frames kept, and what lies beyond the last whole frame in either
/// direction made transparent.
pub open spec fn whole_frames(sheet: RasterView, frame_width: int, frame_height: int) -> RasterView {
    let covered_width = frame_count(sheet.width as int, frame_width) * frame_width;
    let covered_height = frame_count(sheet.height as int, frame_height) * frame_height;
    RasterView {
        width: sheet.width,
        height: sheet.height,
        rows: Seq::new(
            sheet.height,
            |y: int|
                Seq::new(
                    sheet.width,
                    |x: int|
                        if x < covered_width && y < covered_height {
                            sheet.pixel(x, y)
                        } else {
                            Rgba::transparent()
                        },
                ),
        ),
    }
}

/// Whether cell `(column, row)` is one of the cells of the frame grid of
/// `sheet`.
pub open spec fn is_cell(
    sheet: RasterView,
    frame_width: int,
    frame_height: int,
    column: int,
    row: int,
) -> bool {
    &&& 0 <= column < frame_count(sheet.width as int, frame_width)
    &&& 0 <= row < frame_count(sheet.height as int, frame_height)
}

/// Whether the frame of cell `(column, row)` stands unchanged in `result`:
/// the block of frame size at the cell's padded origin lies within `result`
/// and equals, pixel for pixel, the block of frame size at the cell's origin
/// in `sheet`.
pub open spec fn frame_kept(
    sheet: RasterView,
    result: RasterView,
    frame_width: int,
    frame_height: int,
    padding: int,
    column: int,
    row: int,
) -> bool {
    &&& 0 <= padded_origin(column, frame_width, padding)
    &&& padded_origin(column, frame_width, padding) + frame_width <= result.width
    &&& 0 <= padded_origin(row, frame_height, padding)
    &&& padded_origin(row, frame_height, padding) + frame_height <= result.height
    &&& result.block(
        padded_origin(column, frame_width, padding),
        padded_origin(row, frame_height, padding),
        frame_width,
        frame_height,
    ) == sheet.block(
        source_origin(column, frame_width),
        source_origin(row, frame_height),
        frame_width,
        frame_height,
    )
}

/// Whether every frame of `sheet` stands unchanged in `result` at its padded
/// origin.
pub open spec fn frames_kept(
    sheet: RasterView,
    result: RasterView,
    frame_width: int,
    frame_height: int,
    padding: int,
) -> bool {
    forall|column: int, row: int| #[trigger]
        is_cell(sheet, frame_width, frame_height, column, row) ==> frame_kept(
            sheet,
            result,
            frame_width,
            frame_height,
            padding,
            column,
            row,
        )
}

/// Whether `(x, y)` lies where the padded layout places one of the frames of
/// `sheet`.
pub open spec fn in_placed_frame(
    sheet: RasterView,
    frame_width: int,
    frame_height: int,
    padding: int,
    x: int,
    y: int,
) -> bool {
    exists|column: int, row: int| #[trigger]
        is_cell(sheet, frame_width, frame_height, column, row) && padded_origin(
            column,
            frame_width,
            padding,
        ) <= x < padded_origin(column, frame_width, padding) + frame_width && padded_origin(
            row,
            frame_height,
            padding,
        ) <= y < padded_origin(row, frame_height, padding) + frame_height
}

/// Whether every pixel of `result` that lies in no placed frame of `sheet` is
/// fully transparent.
pub open spec fn gaps_transparent(
    sheet: RasterView,
    result: RasterView,
    frame_width: int,
    frame_height: int,
    padding: int,
) -> bool {
    forall|x: int, y: int|
        result.contains(x, y) && !in_placed_frame(sheet, frame_width, frame_height, padding, x, y)
            ==> #[trigger] result.pixel(x, y) == Rgba::transparent()
}

/// The grid in which frames of `width` by `height` pixels tile `source`, with
/// the size that the sheet takes once its frames are `padding` pixels apart,
/// or `InvalidFrameSize` where such frames cannot be cut from `source`.
///
/// The padded size is given even where it is too large for a raster.
pub fn grid_geometry(source: &Raster, width: &u32, height: &u32, padding: &u32) -> (result: Result<
    GridGeometry,
    PadError,
>)
    ensures
        result is Ok <==> frames_fit(source@, *width as int, *height as int),
        result matches Err(error) ==> error == PadError::InvalidFrameSize,
        result matches Ok(grid) ==> grid.columns == frame_count(
            source@.width as int,
            *width as int,
        ) && grid.rows == frame_count(source@.height as int, *height as int),
        result matches Ok(grid) ==> grid.columns >= 1 && grid.rows >= 1,
        result matches Ok(grid) ==> grid.padded_width == padded_extent(
            source@.width as int,
            *width as int,
            *padding as int,
        ) && grid.padded_height == padded_extent(
            source@.height as int,
            *height as int,
            *padding as int,
        ),
{
    let frame_width: u32 = *width;
    let frame_height: u32 = *height;
    let gap: u32 = *padding;
    if frame_width == 0 || frame_height == 0 || frame_width > source.width() || frame_height
        > source.height() {
        return Err(PadError::InvalidFrameSize);
    }
    let columns: u32 = source.width() / frame_width;
    let rows: u32 = source.height() / frame_height;
    proof {
        lemma_frame_count(source@.width as int, frame_width as int);
        lemma_frame_count(source@.height as int, frame_height as int);
        assert(0 <= (columns - 1) * gap <= 0xffff_ffff * 0xffff_ffff) by (nonlinear_arith)
            requires
                1 <= columns <= 0xffff_ffff,
                0 <= gap <= 0xffff_ffff,
        ;
        assert(0 <= (rows - 1) * gap <= 0xffff_ffff * 0xffff_ffff) by (nonlinear_arith)
            requires
                1 <= rows <= 0xffff_ffff,
                0 <= gap <= 0xffff_ffff,
        ;
    }
    let padded_width: u64 = source.width() as u64 + (columns - 1) as u64 * gap as u64;
    let padded_height: u64 = source.height() as u64 + (rows - 1) as u64 * gap as u64;
    Ok(GridGeometry { columns, rows, padded_width, padded_height })
}

/// Cuts `source` into frames of `width` by `height` pixels and returns the
/// sheet in which adjacent frames are `padding` transparent pixels apart.
///
/// Every frame is copied as it is, transparency included; nothing is blended.
/// Pixels of `source` beyond the last whole frame in either direction are
/// left out, and the room they took stays transparent. `source` itself is not
/// changed.
///
/// The caller sees to it that the padded sheet can be held in memory;
/// `try_pad_spritesheet` is for the caller who cannot.
pub fn pad_spritesheet(source: &Raster, width: &u32, height: &u32, padding: &u32) -> (result:
    Result<Raster, PadError>)
    requires
        frames_fit(source@, *width as int, *height as int) ==> representable(
            padded_extent(source@.width as int, *width as int, *padding as int),
            padded_extent(source@.height as int, *height as int, *padding as int),
        ),
    ensures
        result is Ok <==> frames_fit(source@, *width as int, *height as int),
        result matches Err(error) ==> error == PadError::InvalidFrameSize,
        result matches Ok(sheet) ==> sheet@ == padded(
            source@,
            *width as int,
            *height as int,
            *padding as int,
        ),
        result matches Ok(sheet) ==> sheet@.well_formed(),
        result matches Ok(sheet) ==> sheet@.width == source@.width + (source@.width as int
            / (*width as int) - 1) * *padding,
        result matches Ok(sheet) ==> sheet@.height == source@.height + (source@.height as int
            / (*height as int) - 1) * *padding,
        result matches Ok(sheet) ==> frames_kept(
            source@,
            sheet@,
            *width as int,
            *height as int,
            *padding as int,
        ),
        result matches Ok(sheet) ==> gaps_transparent(
            source@,
            sheet@,
            *width as int,
            *height as int,
            *padding as int,
        ),
        result matches Ok(sheet) ==> *padding == 0 ==> sheet@ == whole_frames(
            source@,
            *width as int,
            *height as int,
        ),
        result matches Ok(sheet) ==> *padding == 0 && source@.width as int % (*width as int) == 0
            && source@.height as int % (*height as int) == 0 ==> sheet@ == source@,
        result matches Ok(sheet) ==> *width == source@.width && *height == source@.height
            ==> sheet@ == source@,
{
    let grid = match grid_geometry(source, width, height, padding) {
        Ok(grid) => grid,
        Err(error) => {
            return Err(error);
        },
    };
    let frame_width: u32 = *width;
    let frame_height: u32 = *height;
    let gap: u32 = *padding;
    let columns: u32 = grid.columns;
    let rows: u32 = grid.rows;
    let mut sheet = blank(grid.padded_width as u32, grid.padded_height as u32);
    proof {
        lemma_nothing_placed(source@, frame_width as int, frame_height as int, gap as int);
    }
    let mut column: u32 = 0;
    while column < columns
        invariant
            frames_fit(source@, frame_width as int, frame_height as int),
            columns == frame_count(source@.width as int, frame_width as int),
            rows == frame_count(source@.height as int, frame_height as int),
            padded_extent(source@.width as int, frame_width as int, gap as int) <= u32::MAX,
            padded_extent(source@.height as int, frame_height as int, gap as int) <= u32::MAX,
            column <= columns,
            sheet@ == partly_padded(
                source@,
                frame_width as int,
                frame_height as int,
                gap as int,
                column as int,
                0,
            ),
        decreases columns - column,
    {
        let mut row: u32 = 0;
        while row < rows
            invariant
                frames_fit(source@, frame_width as int, frame_height as int),
                columns == frame_count(source@.width as int, frame_width as int),
                rows == frame_count(source@.height as int, frame_height as int),
                padded_extent(source@.width as int, frame_width as int, gap as int) <= u32::MAX,
                padded_extent(source@.height as int, frame_height as int, gap as int)
                    <= u32::MAX,
                column < columns,
                row <= rows,
                sheet@ == partly_padded(
                    source@,
                    frame_width as int,
                    frame_height as int,
                    gap as int,
                    column as int,
                    row as int,
                ),
            decreases rows - row,
        {
            proof {
                lemma_frame_fits(
                    source@.width as int,
                    frame_width as int,
                    gap as int,
                    column as int,
                );
                lemma_frame_fits(
                    source@.height as int,
                    frame_height as int,
                    gap as int,
                    row as int,
                );
                lemma_frame_placed(
                    source@,
                    frame_width as int,
                    frame_height as int,
                    gap as int,
                    column as int,
                    row as int,
                );
            }
            copy_block(
                &mut sheet,
                source,
                column * frame_width,
                row * frame_height,
                frame_width,
                frame_height,
                column * frame_width + column * gap,
                row * frame_height + row * gap,
            );
            row = row + 1;
        }
        proof {
            lemma_column_placed(
                source@,
                frame_width as int,
                frame_height as int,
                gap as int,
                column as int,
            );
        }
        column = column + 1;
    }
    proof {
        use_type_invariant(source);
        source.lemma_well_formed();
        lemma_all_placed(source@, frame_width as int, frame_height as int, gap as int);
        lemma_padded_size(source@, frame_width as int, frame_height as int, gap as int);
        lemma_frames_kept(source@, frame_width as int, frame_height as int, gap as int);
        lemma_gaps_transparent(source@, frame_width as int, frame_height as int, gap as int);
        if gap == 0 {
            lemma_zero_padding(source@, frame_width as int, frame_height as int);
            lemma_whole_frames_of_exact_sheet(source@, frame_width as int, frame_height as int);
        }
        if frame_width == source@.width && frame_height == source@.height {
            lemma_single_frame(source@, gap as int);
        }
    }
    Ok(sheet)
}

/// Pads `source` as `pad_spritesheet` does wherever the padded sheet can be
/// held in memory, and returns `None` where frames of the given size fit the
/// sheet but the padded sheet would be too large for a raster.
pub fn try_pad_spritesheet(source: &Raster, width: &u32, height: &u32, padding: &u32) -> (result:
    Option<Result<Raster, PadError>>)
    ensures
        result is None <==> frames_fit(source@, *width as int, *height as int) && !representable(
            padded_extent(source@.width as int, *width as int, *padding as int),
            padded_extent(source@.height as int, *height as int, *padding as int),
        ),
        result matches Some(outcome) ==> (outcome is Ok <==> frames_fit(
            source@,
            *width as int,
            *height as int,
        )),
        result matches Some(Err(error)) ==> error == PadError::InvalidFrameSize,
        result matches Some(Ok(sheet)) ==> sheet@ == padded(
            source@,
            *width as int,
            *height as int,
            *padding as int,
        ) && sheet@.well_formed(),
{
    match grid_geometry(source, width, height, padding) {
        Ok(grid) => {
            if !is_representable(grid.padded_width, grid.padded_height) {
                return None;
            }
        },
        Err(_) => {},
    }
    Some(pad_spritesheet(source, width, height, padding))
}

/// The padded sheet while it is being filled column of frames by column of
/// frames: the frames left of column `column`, and the first `row` frames of
/// that column, are in place; every other pixel is still transparent.
spec fn partly_padded(
    sheet: RasterView,
    frame_width: int,
    frame_height: int,
    padding: int,
    column: int,
    row: int,
) -> RasterView {
    let width = padded_extent(sheet.width as int, frame_width, padding) as nat;
    let height = padded_extent(sheet.height as int, frame_height, padding) as nat;
    RasterView {
        width,
        height,
        rows: Seq::new(
            height,
            |y: int|
                Seq::new(
                    width,
                    |x: int|
                        if placed(frame_width, frame_height, padding, column, row, x, y) {
                            padded_pixel(sheet, frame_width, frame_height, padding, x, y)
                        } else {
                            Rgba::transparent()
                        },
                ),
        ),
    }
}

/// Whether the cell that holds `(x, y)` comes before cell `(column, row)` in
/// the order of filling.
spec fn placed(
    frame_width: int,
    frame_height: int,
    padding: int,
    column: int,
    row: int,
    x: int,
    y: int,
) -> bool {
    let cell_column = x / (frame_width + padding);
    let cell_row = y / (frame_height + padding);
    cell_column < column || (cell_column == column && cell_row < row)
}

/// Before any frame is placed the sheet is blank.
proof fn lemma_nothing_placed(sheet: RasterView, frame_width: int, frame_height: int, padding: int)
    requires
        frames_fit(sheet, frame_width, frame_height),
        0 <= padding,
    ensures
        partly_padded(sheet, frame_width, frame_height, padding, 0, 0) == RasterView::blank(
            padded_extent(sheet.width as int, frame_width, padding) as nat,
            padded_extent(sheet.height as int, frame_height, padding) as nat,
        ),
{
    let partly = partly_padded(sheet, frame_width, frame_height, padding, 0, 0);
    let blank = RasterView::blank(
        padded_extent(sheet.width as int, frame_width, padding) as nat,
        padded_extent(sheet.height as int, frame_height, padding) as nat,
    );
    assert forall|y: int| 0 <= y < partly.height implies #[trigger] partly.rows[y]
        == blank.rows[y] by {
        assert forall|x: int| 0 <= x < partly.width implies #[trigger] partly.rows[y][x]
            == blank.rows[y][x] by {
            lemma_nonnegative_cell(x, frame_width + padding);
        }
        assert(partly.rows[y] =~= blank.rows[y]);
    }
    assert(partly.rows =~= blank.rows);
}

/// Writing frame `(column, row)` over the sheet that holds the frames before
/// it gives the sheet that holds the frames before `(column, row + 1)`.
proof fn lemma_frame_placed(
    sheet: RasterView,
    frame_width: int,
    frame_height: int,
    padding: int,
    column: int,
    row: int,
)
    requires
        frames_fit(sheet, frame_width, frame_height),
        0 <= padding,
        is_cell(sheet, frame_width, frame_height, column, row),
    ensures
        partly_padded(sheet, frame_width, frame_height, padding, column, row).with_block(
            sheet,
            source_origin(column, frame_width),
            source_origin(row, frame_height),
            frame_width,
            frame_height,
            source_origin(column, frame_width) + column * padding,
            source_origin(row, frame_height) + row * padding,
        ) == partly_padded(sheet, frame_width, frame_height, padding, column, row + 1),
{
    let before = partly_padded(sheet, frame_width, frame_height, padding, column, row);
    let after = before.with_block(
        sheet,
        source_origin(column, frame_width),
        source_origin(row, frame_height),
        frame_width,
        frame_height,
        source_origin(column, frame_width) + column * padding,
        source_origin(row, frame_height) + row * padding,
    );
    let goal = partly_padded(sheet, frame_width, frame_height, padding, column, row + 1);
    lemma_frame_fits(sheet.width as int, frame_width, padding, column);
    lemma_frame_fits(sheet.height as int, frame_height, padding, row);
    assert forall|y: int| 0 <= y < goal.height implies #[trigger] after.rows[y]
        == goal.rows[y] by {
        assert forall|x: int| 0 <= x < goal.width implies #[trigger] after.rows[y][x]
            == goal.rows[y][x] by {
            lemma_position_in_frame(x, frame_width, padding, column);
            lemma_position_in_frame(y, frame_height, padding, row);
        }
        assert(after.rows[y] =~= goal.rows[y]);
    }
    assert(after.rows =~= goal.rows);
}

/// Once every frame of a column is placed, the next column begins.
proof fn lemma_column_placed(
    sheet: RasterView,
    frame_width: int,
    frame_height: int,
    padding: int,
    column: int,
)
    requires
        frames_fit(sheet, frame_width, frame_height),
        0 <= padding,
        0 <= column,
    ensures
        partly_padded(
            sheet,
            frame_width,
            frame_height,
            padding,
            column,
            frame_count(sheet.height as int, frame_height),
        ) == partly_padded(sheet, frame_width, frame_height, padding, column + 1, 0),
{
    let rows = frame_count(sheet.height as int, frame_height);
    let before = partly_padded(sheet, frame_width, frame_height, padding, column, rows);
    let goal = partly_padded(sheet, frame_width, frame_height, padding, column + 1, 0);
    assert forall|y: int| 0 <= y < goal.height implies #[trigger] before.rows[y]
        == goal.rows[y] by {
        assert forall|x: int| 0 <= x < goal.width implies #[trigger] before.rows[y][x]
            == goal.rows[y][x] by {
            lemma_nonnegative_cell(y, frame_height + padding);
        }
        assert(before.rows[y] =~= goal.rows[y]);
    }
    assert(before.rows =~= goal.rows);
}

/// Once every column is placed, the sheet is the padded sheet.
proof fn lemma_all_placed(sheet: RasterView, frame_width: int, frame_height: int, padding: int)
    requires
        frames_fit(sheet, frame_width, frame_height),
        0 <= padding,
    ensures
        partly_padded(
            sheet,
            frame_width,
            frame_height,
            padding,
            frame_count(sheet.width as int, frame_width),
            0,
        ) == padded(sheet, frame_width, frame_height, padding),
{
    let columns = frame_count(sheet.width as int, frame_width);
    let before = partly_padded(sheet, frame_width, frame_height, padding, columns, 0);
    let goal = padded(sheet, frame_width, frame_height, padding);
    assert forall|y: int| 0 <= y < goal.height implies #[trigger] before.rows[y]
        == goal.rows[y] by {
        assert(before.rows[y] =~= goal.rows[y]);
    }
    assert(before.rows =~= goal.rows);
}

/// The padded sheet is a raster, as wide and as high as the source sheet and
/// the gaps between its frames together: each direction grows by the padding
/// times one less than the number of frames in that direction.
pub proof fn lemma_padded_size(sheet: RasterView, frame_width: int, frame_height: int, padding: int)
    requires
        frames_fit(sheet, frame_width, frame_height),
        0 <= padding,
    ensures
        padded(sheet, frame_width, frame_height, padding).well_formed(),
        padded(sheet, frame_width, frame_height, padding).width == sheet.width + (sheet.width as int
            / frame_width - 1) * padding,
        padded(sheet, frame_width, frame_height, padding).height == sheet.height + (
        sheet.height as int / frame_height - 1) * padding,
        padded(sheet, frame_width, frame_height, padding).width >= sheet.width,
        padded(sheet, frame_width, frame_height, padding).height >= sheet.height,
{
    lemma_frame_count(sheet.width as int, frame_width);
    lemma_frame_count(sheet.height as int, frame_height);
    assert(0 <= (frame_count(sheet.width as int, frame_width) - 1) * padding) by (nonlinear_arith)
        requires
            frame_count(sheet.width as int, frame_width) >= 1,
            0 <= padding,
    ;
    assert(0 <= (frame_count(sheet.height as int, frame_height) - 1) * padding)
        by (nonlinear_arith)
        requires
            frame_count(sheet.height as int, frame_height) >= 1,
            0 <= padding,
    ;
}

/// Every frame of the source sheet stands unchanged in the padded sheet: for
/// each cell of the grid, the block of frame size at the cell's padded origin
/// equals the block of frame size at the cell's origin in the source, pixel
/// for pixel.
pub proof fn lemma_frames_kept(sheet: RasterView, frame_width: int, frame_height: int, padding: int)
    requires
        frames_fit(sheet, frame_width, frame_height),
        0 <= padding,
    ensures
        frames_kept(
            sheet,
            padded(sheet, frame_width, frame_height, padding),
            frame_width,
            frame_height,
            padding,
        ),
{
    let result = padded(sheet, frame_width, frame_height, padding);
    lemma_padded_size(sheet, frame_width, frame_height, padding);
    assert forall|column: int, row: int| #[trigger]
        is_cell(sheet, frame_width, frame_height, column, row) implies frame_kept(
        sheet,
        result,
        frame_width,
        frame_height,
        padding,
        column,
        row,
    ) by {
        let left = padded_origin(column, frame_width, padding);
        let top = padded_origin(row, frame_height, padding);
        let placed = result.block(left, top, frame_width, frame_height);
        let cut = sheet.block(
            source_origin(column, frame_width),
            source_origin(row, frame_height),
            frame_width,
            frame_height,
        );
        lemma_frame_fits(sheet.width as int, frame_width, padding, column);
        lemma_frame_fits(sheet.height as int, frame_height, padding, row);
        assert forall|j: int| 0 <= j < frame_height implies #[trigger] placed[j] == cut[j] by {
            assert forall|i: int| 0 <= i < frame_width implies #[trigger] placed[j][i]
                == cut[j][i] by {
                lemma_position_in_frame(left + i, frame_width, padding, column);
                lemma_position_in_frame(top + j, frame_height, padding, row);
            }
            assert(placed[j] =~= cut[j]);
        }
        assert(placed =~= cut);
    }
}

/// Every pixel of the padded sheet that lies in no placed frame is fully
/// transparent.
pub proof fn lemma_gaps_transparent(
    sheet: RasterView,
    frame_width: int,
    frame_height: int,
    padding: int,
)
    requires
        frames_fit(sheet, frame_width, frame_height),
        0 <= padding,
    ensures
        gaps_transparent(
            sheet,
            padded(sheet, frame_width, frame_height, padding),
            frame_width,
            frame_height,
            padding,
        ),
{
    let result = padded(sheet, frame_width, frame_height, padding);
    assert forall|x: int, y: int|
        result.contains(x, y) && !in_placed_frame(
            sheet,
            frame_width,
            frame_height,
            padding,
            x,
            y,
        ) implies #[trigger] result.pixel(x, y) == Rgba::transparent() by {
        let column = x / (frame_width + padding);
        let row = y / (frame_height + padding);
        if in_frame(x, sheet.width as int, frame_width, padding) && in_frame(
            y,
            sheet.height as int,
            frame_height,
            padding,
        ) {
            lemma_nonnegative_cell(x, frame_width + padding);
            lemma_nonnegative_cell(y, frame_height + padding);
            lemma_position_in_frame(x, frame_width, padding, column);
            lemma_position_in_frame(y, frame_height, padding, row);
            assert(is_cell(sheet, frame_width, frame_height, column, row));
            assert(in_placed_frame(sheet, frame_width, frame_height, padding, x, y));
        }
    }
}

/// Padding by zero pixels gives the sheet restricted to its whole frames.
pub proof fn lemma_zero_padding(sheet: RasterView, frame_width: int, frame_height: int)
    requires
        frames_fit(sheet, frame_width, frame_height),
    ensures
        padded(sheet, frame_width, frame_height, 0) == whole_frames(
            sheet,
            frame_width,
            frame_height,
        ),
{
    let result = padded(sheet, frame_width, frame_height, 0);
    let kept = whole_frames(sheet, frame_width, frame_height);
    lemma_axis_without_padding(0, sheet.width as int, frame_width);
    lemma_axis_without_padding(0, sheet.height as int, frame_height);
    assert forall|y: int| 0 <= y < sheet.height implies #[trigger] result.rows[y]
        == kept.rows[y] by {
        assert forall|x: int| 0 <= x < sheet.width implies #[trigger] result.rows[y][x]
            == kept.rows[y][x] by {
            lemma_axis_without_padding(x, sheet.width as int, frame_width);
            lemma_axis_without_padding(y, sheet.height as int, frame_height);
        }
        assert(result.rows[y] =~= kept.rows[y]);
    }
    assert(result.rows =~= kept.rows);
}

/// A sheet whose size is an exact multiple of the frame size in both
/// directions consists of whole frames only.
pub proof fn lemma_whole_frames_of_exact_sheet(
    sheet: RasterView,
    frame_width: int,
    frame_height: int,
)
    requires
        sheet.well_formed(),
        frames_fit(sheet, frame_width, frame_height),
    ensures
        sheet.width as int % frame_width == 0 && sheet.height as int % frame_height == 0
            ==> whole_frames(sheet, frame_width, frame_height) == sheet,
{
    if sheet.width as int % frame_width == 0 && sheet.height as int % frame_height == 0 {
        let kept = whole_frames(sheet, frame_width, frame_height);
        lemma_exact_axis(sheet.width as int, frame_width);
        lemma_exact_axis(sheet.height as int, frame_height);
        assert forall|y: int| 0 <= y < sheet.height implies #[trigger] kept.rows[y]
            == sheet.rows[y] by {
            assert(kept.rows[y] =~= sheet.rows[y]);
        }
        assert(kept.rows =~= sheet.rows);
    }
}

/// A sheet whose size is an exact multiple of the frame size in both
/// directions is unchanged by padding with zero pixels.
pub proof fn lemma_zero_padding_exact(sheet: RasterView, frame_width: int, frame_height: int)
    requires
        sheet.well_formed(),
        frames_fit(sheet, frame_width, frame_height),
        sheet.width as int % frame_width == 0,
        sheet.height as int % frame_height == 0,
    ensures
        padded(sheet, frame_width, frame_height, 0) == sheet,
{
    lemma_zero_padding(sheet, frame_width, frame_height);
    lemma_whole_frames_of_exact_sheet(sheet, frame_width, frame_height);
}

/// A sheet that is a single frame is unchanged by padding, whatever the
/// padding: there are no adjacent frames to separate.
pub proof fn lemma_single_frame(sheet: RasterView, padding: int)
    requires
        sheet.well_formed(),
        0 <= padding,
    ensures
        padded(sheet, sheet.width as int, sheet.height as int, padding) == sheet,
{
    let result = padded(sheet, sheet.width as int, sheet.height as int, padding);
    lemma_axis_of_one_frame(0, sheet.width as int, padding);
    lemma_axis_of_one_frame(0, sheet.height as int, padding);
    assert forall|y: int| 0 <= y < sheet.height implies #[trigger] result.rows[y]
        == sheet.rows[y] by {
        assert forall|x: int| 0 <= x < sheet.width implies #[trigger] result.rows[y][x]
            == sheet.rows[y][x] by {
            lemma_axis_of_one_frame(x, sheet.width as int, padding);
            lemma_axis_of_one_frame(y, sheet.height as int, padding);
        }
        assert(result.rows[y] =~= sheet.rows[y]);
    }
    assert(result.rows =~= sheet.rows);
}

} // verus!
