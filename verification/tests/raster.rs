use paddy::raster::{is_representable, Raster, Rgba};

#[test]
fn new_raster_is_transparent() {
    let raster = Raster::new(3, 2).unwrap();
    assert_eq!(raster.width(), 3);
    assert_eq!(raster.height(), 2);
    for y in 0..2 {
        for x in 0..3 {
            assert_eq!(
                raster.get_pixel(x, y),
                Some(Rgba { red: 0, green: 0, blue: 0, alpha: 0 })
            );
        }
    }
    assert_eq!(raster.into_raw(), vec![0u8; 24]);
}

#[test]
fn new_raster_needs_positive_dimensions() {
    assert!(Raster::new(0, 5).is_none());
    assert!(Raster::new(5, 0).is_none());
    assert!(Raster::new(0, 0).is_none());
    assert!(Raster::new(1, 1).is_some());
}

#[test]
fn new_raster_must_fit_in_memory() {
    assert!(Raster::new(u32::MAX, u32::MAX).is_none());
}

#[test]
fn from_raw_reads_rows_of_four_byte_pixels() {
    let bytes: Vec<u8> = (0..24).collect();
    let raster = Raster::from_raw(3, 2, bytes.clone()).unwrap();
    assert_eq!(raster.width(), 3);
    assert_eq!(raster.height(), 2);
    assert_eq!(raster.get_pixel(0, 0), Some(Rgba { red: 0, green: 1, blue: 2, alpha: 3 }));
    assert_eq!(raster.get_pixel(2, 0), Some(Rgba { red: 8, green: 9, blue: 10, alpha: 11 }));
    assert_eq!(raster.get_pixel(0, 1), Some(Rgba { red: 12, green: 13, blue: 14, alpha: 15 }));
    assert_eq!(raster.get_pixel(2, 1), Some(Rgba { red: 20, green: 21, blue: 22, alpha: 23 }));
    assert_eq!(raster.into_raw(), bytes);
}

#[test]
fn from_raw_needs_four_bytes_for_each_pixel() {
    assert!(Raster::from_raw(3, 2, vec![0; 23]).is_none());
    assert!(Raster::from_raw(3, 2, vec![0; 25]).is_none());
    assert!(Raster::from_raw(3, 2, Vec::new()).is_none());
    assert!(Raster::from_raw(3, 2, vec![0; 24]).is_some());
}

#[test]
fn from_raw_needs_positive_dimensions() {
    assert!(Raster::from_raw(0, 2, Vec::new()).is_none());
    assert!(Raster::from_raw(2, 0, Vec::new()).is_none());
}

#[test]
fn get_pixel_outside_the_raster_is_none() {
    let raster = Raster::new(3, 2).unwrap();
    assert_eq!(raster.get_pixel(3, 0), None);
    assert_eq!(raster.get_pixel(0, 2), None);
    assert_eq!(raster.get_pixel(u32::MAX, u32::MAX), None);
}

#[test]
fn representable_sizes() {
    assert!(is_representable(1, 1));
    assert!(is_representable(0, 0));
    assert!(is_representable(u32::MAX as u64, 1));
    assert!(!is_representable(u32::MAX as u64 + 1, 1));
    assert!(!is_representable(1, u32::MAX as u64 + 1));
    assert!(!is_representable(u32::MAX as u64, u32::MAX as u64));
    // the largest area whose four bytes per pixel fit one allocation
    let side = 1u64 << 30;
    assert!(is_representable(side, (isize::MAX as u64 / 4) / side));
    assert!(!is_representable(side, (isize::MAX as u64 / 4) / side + 1));
}
