use watermark::overlay::{assemble_overlay, crop_center, layer_over, OverlayError};
use watermark::raster::{Raster, Rgba};

fn numbered(width: u32, height: u32) -> Raster {
    let mut data = Vec::new();
    for y in 0..height {
        for x in 0..width {
            data.extend_from_slice(&[x as u8, y as u8, 7, 255]);
        }
    }
    Raster::new(width, height, data).unwrap()
}

#[test]
fn layering_takes_the_upper_pixel_where_it_has_alpha() {
    let below = Raster::new(2, 1, vec![1, 2, 3, 4, 5, 6, 7, 8]).unwrap();
    let above = Raster::new(2, 1, vec![9, 9, 9, 0, 10, 11, 12, 1]).unwrap();
    let out = layer_over(&below, &above).unwrap();
    assert_eq!(out.as_bytes(), &vec![1, 2, 3, 4, 10, 11, 12, 1]);
}

#[test]
fn layering_refuses_different_sizes() {
    let a = numbered(2, 3);
    let b = numbered(3, 2);
    assert!(layer_over(&a, &b).is_none());
}

#[test]
fn crop_takes_the_centred_window() {
    let canvas = numbered(10, 10);
    let out = crop_center(&canvas, 4, 2).unwrap();
    assert_eq!((out.width(), out.height()), (4, 2));
    // Shift is 10/2 - 4/2 = 3 across and 10/2 - 2/2 = 4 down.
    for y in 0..2 {
        for x in 0..4 {
            assert_eq!(out.pixel(x, y), Some(Rgba { r: x as u8 + 3, g: y as u8 + 4, b: 7, a: 255 }));
        }
    }
}

#[test]
fn crop_of_odd_sizes_rounds_each_half_down() {
    let canvas = numbered(7, 7);
    let out = crop_center(&canvas, 3, 3).unwrap();
    // Shift is 7/2 - 3/2 = 3 - 1 = 2.
    assert_eq!(out.pixel(0, 0), Some(Rgba { r: 2, g: 2, b: 7, a: 255 }));
    assert_eq!(out.pixel(2, 2), Some(Rgba { r: 4, g: 4, b: 7, a: 255 }));
}

#[test]
fn crop_past_the_canvas_is_transparent() {
    let canvas = numbered(2, 2);
    let out = crop_center(&canvas, 6, 2).unwrap();
    assert_eq!((out.width(), out.height()), (6, 2));
    // Shift is 1 - 3 = -2 across, 1 - 1 = 0 down.
    assert_eq!(out.pixel(0, 0), Some(Rgba { r: 0, g: 0, b: 0, a: 0 }));
    assert_eq!(out.pixel(1, 1), Some(Rgba { r: 0, g: 0, b: 0, a: 0 }));
    assert_eq!(out.pixel(2, 0), Some(Rgba { r: 0, g: 0, b: 7, a: 255 }));
    assert_eq!(out.pixel(3, 1), Some(Rgba { r: 1, g: 1, b: 7, a: 255 }));
    assert_eq!(out.pixel(4, 0), Some(Rgba { r: 0, g: 0, b: 0, a: 0 }));
}

#[test]
fn crop_to_nothing_is_empty() {
    let canvas = numbered(4, 4);
    let out = crop_center(&canvas, 0, 3).unwrap();
    assert_eq!((out.width(), out.height()), (0, 3));
    assert!(out.as_bytes().is_empty());
}

#[test]
fn overlay_has_the_size_of_the_image() {
    for (w, h) in [(1u32, 1u32), (3, 9), (9, 3), (10, 10), (17, 4)] {
        for passes in 1..4 {
            let rendered: Vec<Raster> = (0..passes).map(|_| numbered(20, 20)).collect();
            let out = assemble_overlay(&rendered, w, h).unwrap();
            assert_eq!((out.width(), out.height()), (w, h));
            assert_eq!(out.as_bytes().len(), w as usize * h as usize * 4);
        }
    }
}

#[test]
fn later_passes_lie_on_top() {
    let red = Rgba { r: 255, g: 0, b: 0, a: 255 };
    let blue = Rgba { r: 0, g: 0, b: 255, a: 255 };
    let clear = Rgba { r: 0, g: 0, b: 0, a: 0 };
    let first = Raster::filled(4, 4, red).unwrap();
    let mut data = Vec::new();
    for i in 0..16 {
        let p = if i % 2 == 0 { blue } else { clear };
        data.extend_from_slice(&[p.r, p.g, p.b, p.a]);
    }
    let second = Raster::new(4, 4, data).unwrap();
    let out = assemble_overlay(&vec![first, second], 4, 4).unwrap();
    assert_eq!(out.pixel(0, 0), Some(blue));
    assert_eq!(out.pixel(1, 0), Some(red));
    assert_eq!(out.pixel(2, 3), Some(blue));
    assert_eq!(out.pixel(3, 3), Some(red));
}

#[test]
fn assembly_reports_its_errors() {
    assert!(matches!(assemble_overlay(&Vec::new(), 4, 4), Err(OverlayError::NoPasses)));
    let passes = vec![numbered(4, 4), numbered(4, 5)];
    assert!(matches!(assemble_overlay(&passes, 4, 4), Err(OverlayError::PassMismatch)));
    let passes = vec![numbered(4, 4), numbered(4, 4), numbered(5, 4)];
    assert!(matches!(assemble_overlay(&passes, 4, 4), Err(OverlayError::PassMismatch)));
}

#[test]
fn an_overlay_beyond_the_address_space_is_refused() {
    let passes = vec![numbered(4, 4)];
    assert!(matches!(
        assemble_overlay(&passes, u32::MAX, u32::MAX),
        Err(OverlayError::TooLarge)
    ));
    assert!(crop_center(&passes[0], u32::MAX, u32::MAX).is_none());
}
