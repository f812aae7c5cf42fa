use watermark::raster::{byte_count, Raster, Rgba};

#[test]
fn new_checks_the_buffer_length() {
    assert!(Raster::new(2, 3, vec![0; 24]).is_some());
    assert!(Raster::new(2, 3, vec![0; 23]).is_none());
    assert!(Raster::new(2, 3, vec![0; 25]).is_none());
    assert!(Raster::new(0, 3, vec![]).is_some());
    assert!(Raster::new(u32::MAX, u32::MAX, vec![]).is_none());
}

#[test]
fn filled_repeats_the_pixel() {
    let p = Rgba { r: 1, g: 2, b: 3, a: 4 };
    let img = Raster::filled(3, 2, p).unwrap();
    assert_eq!((img.width(), img.height(), img.pixel_count()), (3, 2, 6));
    assert_eq!(img.as_bytes(), &[1u8, 2, 3, 4].repeat(6));
    for y in 0..2 {
        for x in 0..3 {
            assert_eq!(img.pixel(x, y), Some(p));
        }
    }
    assert_eq!(img.pixel(3, 0), None);
    assert_eq!(img.pixel(0, 2), None);
    assert_eq!(img.into_bytes(), [1u8, 2, 3, 4].repeat(6));
}

#[test]
fn pixels_are_stored_row_major() {
    let data: Vec<u8> = (0..24).collect();
    let img = Raster::new(3, 2, data).unwrap();
    assert_eq!(img.pixel(0, 0), Some(Rgba { r: 0, g: 1, b: 2, a: 3 }));
    assert_eq!(img.pixel(2, 0), Some(Rgba { r: 8, g: 9, b: 10, a: 11 }));
    assert_eq!(img.pixel(0, 1), Some(Rgba { r: 12, g: 13, b: 14, a: 15 }));
    assert_eq!(img.pixel(2, 1), Some(Rgba { r: 20, g: 21, b: 22, a: 23 }));
}

#[test]
fn byte_count_does_not_overflow() {
    assert_eq!(byte_count(0, 7), 0);
    assert_eq!(byte_count(3, 2), 24);
    assert_eq!(byte_count(u32::MAX, u32::MAX), 4 * (u32::MAX as u128) * (u32::MAX as u128));
    assert_eq!(Rgba::transparent(), Rgba { r: 0, g: 0, b: 0, a: 0 });
}

#[test]
fn filled_refuses_what_memory_cannot_hold() {
    assert!(Raster::filled(u32::MAX, u32::MAX, Rgba::transparent()).is_none());
    assert!(Raster::filled(0, u32::MAX, Rgba::transparent()).is_some());
}
