use paddy::pad::{
    grid_geometry, pad_spritesheet, try_pad_spritesheet, GridGeometry, PadError,
};
use paddy::raster::{Raster, Rgba};

const CLEAR: Rgba = Rgba { red: 0, green: 0, blue: 0, alpha: 0 };

/// A pixel that differs from its neighbours and is never fully zero.
fn sample(x: u32, y: u32) -> Rgba {
    Rgba {
        red: (x % 251) as u8 + 1,
        green: (y % 251) as u8 + 1,
        blue: ((x * 7 + y * 13) % 256) as u8,
        alpha: ((x * 31 + y * 17) % 256) as u8,
    }
}

fn sample_sheet(width: u32, height: u32) -> Raster {
    let mut bytes = Vec::new();
    for y in 0..height {
        for x in 0..width {
            let pixel = sample(x, y);
            bytes.push(pixel.red);
            bytes.push(pixel.green);
            bytes.push(pixel.blue);
            bytes.push(pixel.alpha);
        }
    }
    Raster::from_raw(width, height, bytes).unwrap()
}

fn pixels(raster: &Raster) -> Vec<Vec<Rgba>> {
    let mut rows = Vec::new();
    for y in 0..raster.height() {
        let mut row = Vec::new();
        for x in 0..raster.width() {
            row.push(raster.get_pixel(x, y).unwrap());
        }
        rows.push(row);
    }
    rows
}

/// The padded sheet built frame by frame on a clear canvas.
fn expected(source: &Raster, frame_width: u32, frame_height: u32, padding: u32) -> Vec<Vec<Rgba>> {
    let columns = source.width() / frame_width;
    let rows = source.height() / frame_height;
    let width = source.width() + (columns - 1) * padding;
    let height = source.height() + (rows - 1) * padding;
    let mut canvas = vec![vec![CLEAR; width as usize]; height as usize];
    for column in 0..columns {
        for row in 0..rows {
            for j in 0..frame_height {
                for i in 0..frame_width {
                    let from_x = column * frame_width + i;
                    let from_y = row * frame_height + j;
                    let to_x = column * (frame_width + padding) + i;
                    let to_y = row * (frame_height + padding) + j;
                    canvas[to_y as usize][to_x as usize] = source.get_pixel(from_x, from_y).unwrap();
                }
            }
        }
    }
    canvas
}

#[test]
fn two_frames_side_by_side() {
    let source = sample_sheet(64, 32);
    let sheet = pad_spritesheet(&source, &32, &32, &4).unwrap();
    assert_eq!(sheet.width(), 68);
    assert_eq!(sheet.height(), 32);
    for y in 0..32 {
        for x in 0..32 {
            assert_eq!(sheet.get_pixel(x, y), source.get_pixel(x, y));
            assert_eq!(sheet.get_pixel(36 + x, y), source.get_pixel(32 + x, y));
        }
        for x in 32..36 {
            assert_eq!(sheet.get_pixel(x, y), Some(CLEAR));
        }
    }
}

#[test]
fn zero_frame_width_is_rejected() {
    let source = sample_sheet(64, 32);
    assert_eq!(pad_spritesheet(&source, &0, &32, &4).err(), Some(PadError::InvalidFrameSize));
    assert_eq!(grid_geometry(&source, &0, &32, &4), Err(PadError::InvalidFrameSize));
}

#[test]
fn zero_frame_height_is_rejected() {
    let source = sample_sheet(8, 8);
    assert_eq!(pad_spritesheet(&source, &4, &0, &1).err(), Some(PadError::InvalidFrameSize));
    assert_eq!(grid_geometry(&source, &4, &0, &1), Err(PadError::InvalidFrameSize));
}

#[test]
fn frame_wider_than_sheet_is_rejected() {
    let source = sample_sheet(8, 8);
    assert_eq!(pad_spritesheet(&source, &9, &8, &0).err(), Some(PadError::InvalidFrameSize));
    assert_eq!(grid_geometry(&source, &9, &8, &0), Err(PadError::InvalidFrameSize));
}

#[test]
fn frame_taller_than_sheet_is_rejected() {
    let source = sample_sheet(8, 8);
    assert_eq!(pad_spritesheet(&source, &8, &9, &0).err(), Some(PadError::InvalidFrameSize));
    assert_eq!(grid_geometry(&source, &8, &9, &0), Err(PadError::InvalidFrameSize));
}

#[test]
fn exact_sheet_without_padding_is_unchanged() {
    let source = sample_sheet(12, 6);
    let sheet = pad_spritesheet(&source, &4, &3, &0).unwrap();
    assert_eq!(sheet.width(), 12);
    assert_eq!(sheet.height(), 6);
    assert_eq!(pixels(&sheet), pixels(&source));
    assert_eq!(sheet.into_raw(), source.into_raw());
}

#[test]
fn inexact_sheet_without_padding_keeps_whole_frames_only() {
    let source = sample_sheet(10, 7);
    let sheet = pad_spritesheet(&source, &4, &3, &0).unwrap();
    assert_eq!(sheet.width(), 10);
    assert_eq!(sheet.height(), 7);
    for y in 0..7 {
        for x in 0..10 {
            let wanted = if x < 8 && y < 6 { sample(x, y) } else { CLEAR };
            assert_eq!(sheet.get_pixel(x, y), Some(wanted));
        }
    }
}

#[test]
fn single_frame_is_unchanged_whatever_the_padding() {
    let source = sample_sheet(5, 3);
    for padding in [0, 1, 7, 1000, u32::MAX] {
        let sheet = pad_spritesheet(&source, &5, &3, &padding).unwrap();
        assert_eq!(sheet.width(), 5);
        assert_eq!(sheet.height(), 3);
        assert_eq!(pixels(&sheet), pixels(&source));
    }
}

#[test]
fn padded_size_follows_the_formula() {
    let source = sample_sheet(10, 7);
    // three columns and three rows of whole frames
    assert_eq!(
        grid_geometry(&source, &3, &2, &2),
        Ok(GridGeometry { columns: 3, rows: 3, padded_width: 14, padded_height: 11 })
    );
    let sheet = pad_spritesheet(&source, &3, &2, &2).unwrap();
    assert_eq!((sheet.width(), sheet.height()), (14, 11));
    // one column, seven rows
    assert_eq!(
        grid_geometry(&source, &10, &1, &5),
        Ok(GridGeometry { columns: 1, rows: 7, padded_width: 10, padded_height: 37 })
    );
    // the size is computed even where it is too large to build
    assert_eq!(
        grid_geometry(&source, &1, &1, &u32::MAX),
        Ok(GridGeometry {
            columns: 10,
            rows: 7,
            padded_width: 10 + 9 * u32::MAX as u64,
            padded_height: 7 + 6 * u32::MAX as u64,
        })
    );
}

#[test]
fn two_frames_side_by_side_make_a_grid_of_two_by_one() {
    let source = sample_sheet(64, 32);
    assert_eq!(
        grid_geometry(&source, &32, &32, &4),
        Ok(GridGeometry { columns: 2, rows: 1, padded_width: 68, padded_height: 32 })
    );
}

#[test]
fn every_frame_lands_at_its_padded_origin() {
    let source = sample_sheet(10, 7);
    let sheet = pad_spritesheet(&source, &3, &2, &2).unwrap();
    for column in 0..3 {
        for row in 0..3 {
            for j in 0..2 {
                for i in 0..3 {
                    assert_eq!(
                        sheet.get_pixel(column * 5 + i, row * 4 + j),
                        Some(sample(column * 3 + i, row * 2 + j))
                    );
                }
            }
        }
    }
}

#[test]
fn gaps_and_leftover_are_transparent() {
    let source = sample_sheet(10, 7);
    let sheet = pad_spritesheet(&source, &3, &2, &2).unwrap();
    for y in 0..11 {
        for x in 0..14 {
            let in_frame = x % 5 < 3 && x / 5 < 3 && y % 4 < 2 && y / 4 < 3;
            if !in_frame {
                assert_eq!(sheet.get_pixel(x, y), Some(CLEAR));
            } else {
                assert_ne!(sheet.get_pixel(x, y), Some(CLEAR));
            }
        }
    }
}

#[test]
fn padded_sheet_matches_frame_by_frame_composition() {
    for (width, height, frame_width, frame_height, padding) in [
        (1, 1, 1, 1, 0),
        (1, 1, 1, 1, 3),
        (6, 4, 1, 1, 1),
        (6, 4, 2, 2, 3),
        (7, 5, 2, 2, 1),
        (7, 5, 3, 5, 4),
        (9, 9, 4, 4, 9),
        (9, 2, 2, 1, 0),
    ] {
        let source = sample_sheet(width, height);
        let sheet = pad_spritesheet(&source, &frame_width, &frame_height, &padding).unwrap();
        assert_eq!(pixels(&sheet), expected(&source, frame_width, frame_height, padding));
    }
}

#[test]
fn leftover_wider_than_the_padding_stays_transparent() {
    // 11 = 2 * 4 + 3: the leftover of three pixels is wider than the padding
    // of one, so the padded sheet reaches past where a third frame would start.
    let source = sample_sheet(11, 1);
    let sheet = pad_spritesheet(&source, &4, &1, &1).unwrap();
    assert_eq!(sheet.width(), 12);
    let row: Vec<Rgba> = (0..12).map(|x| sheet.get_pixel(x, 0).unwrap()).collect();
    let wanted = vec![
        sample(0, 0),
        sample(1, 0),
        sample(2, 0),
        sample(3, 0),
        CLEAR,
        sample(4, 0),
        sample(5, 0),
        sample(6, 0),
        sample(7, 0),
        CLEAR,
        CLEAR,
        CLEAR,
    ];
    assert_eq!(row, wanted);
}

#[test]
fn pixels_are_overwritten_not_blended() {
    // colour under a zero alpha and a half transparent pixel must arrive as
    // they are
    let bytes = vec![
        200, 100, 50, 0, //
        10, 20, 30, 128, //
        255, 255, 255, 1, //
        0, 0, 0, 255,
    ];
    let source = Raster::from_raw(2, 2, bytes.clone()).unwrap();
    let sheet = pad_spritesheet(&source, &1, &1, &1).unwrap();
    assert_eq!(sheet.width(), 3);
    assert_eq!(sheet.height(), 3);
    assert_eq!(sheet.get_pixel(0, 0), Some(Rgba { red: 200, green: 100, blue: 50, alpha: 0 }));
    assert_eq!(sheet.get_pixel(2, 0), Some(Rgba { red: 10, green: 20, blue: 30, alpha: 128 }));
    assert_eq!(sheet.get_pixel(0, 2), Some(Rgba { red: 255, green: 255, blue: 255, alpha: 1 }));
    assert_eq!(sheet.get_pixel(2, 2), Some(Rgba { red: 0, green: 0, blue: 0, alpha: 255 }));
    assert_eq!(sheet.get_pixel(1, 1), Some(CLEAR));
    assert_eq!(
        sheet.into_raw(),
        vec![
            200, 100, 50, 0, 0, 0, 0, 0, 10, 20, 30, 128, //
            0, 0, 0, 0, 0, 0, 0, 0, 0, 0, 0, 0, //
            255, 255, 255, 1, 0, 0, 0, 0, 0, 0, 0, 255,
        ]
    );
}

#[test]
fn source_is_left_as_it_was() {
    let source = sample_sheet(6, 4);
    let before = pixels(&source);
    let _ = pad_spritesheet(&source, &2, &2, &3).unwrap();
    let _ = pad_spritesheet(&source, &0, &2, &3);
    assert_eq!(pixels(&source), before);
}

#[test]
fn try_pad_gives_the_padded_sheet_where_it_fits() {
    let source = sample_sheet(7, 5);
    let sheet = try_pad_spritesheet(&source, &2, &2, &1).unwrap().unwrap();
    assert_eq!(pixels(&sheet), expected(&source, 2, 2, 1));
}

#[test]
fn try_pad_rejects_a_frame_size_that_does_not_fit() {
    let source = sample_sheet(7, 5);
    assert_eq!(
        try_pad_spritesheet(&source, &8, &2, &1).map(|outcome| outcome.err()),
        Some(Some(PadError::InvalidFrameSize))
    );
    assert_eq!(
        try_pad_spritesheet(&source, &2, &0, &u32::MAX).map(|outcome| outcome.err()),
        Some(Some(PadError::InvalidFrameSize))
    );
}

#[test]
fn try_pad_gives_nothing_where_the_padded_sheet_is_too_large() {
    let source = sample_sheet(2, 1);
    // two columns: the padded width is 2 + u32::MAX
    assert!(try_pad_spritesheet(&source, &1, &1, &u32::MAX).is_none());
    // one column and one row: no gap, whatever the padding
    assert!(try_pad_spritesheet(&source, &2, &1, &u32::MAX).is_some());
}
