use image::ImageEncoder;
use watermark::codec::{
    accept_decoded, clamp_quality, decode_image, drop_alpha, encode_image, image_kind, CodecError,
    FailureKind, ImageKind,
};
use watermark::names::OutputFormat;
use watermark::raster::Raster;

fn sample(width: u32, height: u32) -> Raster {
    let mut data = Vec::new();
    for y in 0..height {
        for x in 0..width {
            data.extend_from_slice(&[(x * 31) as u8, (y * 17) as u8, (x + y) as u8, 255 - (x as u8)]);
        }
    }
    Raster::new(width, height, data).unwrap()
}

#[test]
fn extensions_name_their_formats() {
    assert_eq!(image_kind("jpg"), Some(ImageKind::Jpeg));
    assert_eq!(image_kind("JPEG"), Some(ImageKind::Jpeg));
    assert_eq!(image_kind("jfif"), Some(ImageKind::Jpeg));
    assert_eq!(image_kind("png"), Some(ImageKind::Png));
    assert_eq!(image_kind("apng"), Some(ImageKind::Png));
    assert_eq!(image_kind("Gif"), Some(ImageKind::Gif));
    assert_eq!(image_kind("webp"), Some(ImageKind::WebP));
    assert_eq!(image_kind("tif"), Some(ImageKind::Tiff));
    assert_eq!(image_kind("TIFF"), Some(ImageKind::Tiff));
    assert_eq!(image_kind("bmp"), Some(ImageKind::Bmp));
    assert_eq!(image_kind("ico"), None);
    assert_eq!(image_kind("pdf"), None);
    assert_eq!(image_kind(""), None);
}

#[test]
fn quality_is_moved_into_range() {
    assert_eq!(clamp_quality(0), 1);
    assert_eq!(clamp_quality(1), 1);
    assert_eq!(clamp_quality(85), 85);
    assert_eq!(clamp_quality(100), 100);
    assert_eq!(clamp_quality(101), 100);
    assert_eq!(clamp_quality(255), 100);
}

#[test]
fn dropping_alpha_keeps_the_colours() {
    assert_eq!(drop_alpha(&[1, 2, 3, 4, 5, 6, 7, 8]), vec![1, 2, 3, 5, 6, 7]);
    assert_eq!(drop_alpha(&[]), Vec::<u8>::new());
    assert_eq!(drop_alpha(&[1, 2, 3, 4, 5]), vec![1, 2, 3]);
}

#[test]
fn decoder_answers_are_checked() {
    assert!(matches!(accept_decoded(0, 4, Vec::new()), Err(CodecError::EmptyImage)));
    assert!(matches!(accept_decoded(4, 0, Vec::new()), Err(CodecError::EmptyImage)));
    assert!(matches!(accept_decoded(1, 1, vec![0; 5]), Err(CodecError::Malformed)));
    let ok = accept_decoded(1, 2, vec![1, 2, 3, 4, 5, 6, 7, 8]).unwrap();
    assert_eq!((ok.width(), ok.height()), (1, 2));
}

#[test]
fn png_round_trips() {
    let img = sample(13, 7);
    let bytes = encode_image(&img, OutputFormat::Png, 85).unwrap();
    assert_eq!(&bytes[..8], &[0x89, b'P', b'N', b'G', 0x0d, 0x0a, 0x1a, 0x0a]);
    assert_ne!(&bytes, img.as_bytes());
    let back = decode_image(&bytes, ImageKind::Png).unwrap();
    assert_eq!((back.width(), back.height()), (13, 7));
    assert_eq!(back.as_bytes(), img.as_bytes());
}

#[test]
fn png_matches_a_direct_encode() {
    let img = sample(6, 5);
    let mut direct = Vec::new();
    image::codecs::png::PngEncoder::new(&mut direct)
        .write_image(img.as_bytes(), 6, 5, image::ExtendedColorType::Rgba8)
        .unwrap();
    assert_eq!(encode_image(&img, OutputFormat::Png, 1).unwrap(), direct);
    assert_eq!(encode_image(&img, OutputFormat::Png, 100).unwrap(), direct);
}

#[test]
fn webp_round_trips() {
    let img = sample(9, 4);
    let bytes = encode_image(&img, OutputFormat::WebP, 85).unwrap();
    assert_eq!(&bytes[..4], b"RIFF");
    assert_eq!(&bytes[8..12], b"WEBP");
    let back = decode_image(&bytes, ImageKind::WebP).unwrap();
    assert_eq!((back.width(), back.height()), (9, 4));
    assert_eq!(back.as_bytes(), img.as_bytes());
}

#[test]
fn jpeg_keeps_the_size_and_turns_opaque() {
    let img = sample(16, 8);
    let bytes = encode_image(&img, OutputFormat::Jpeg, 90).unwrap();
    assert_eq!(&bytes[..2], &[0xff, 0xd8]);
    let back = decode_image(&bytes, ImageKind::Jpeg).unwrap();
    assert_eq!((back.width(), back.height()), (16, 8));
    assert!(back.as_bytes().chunks(4).all(|p| p[3] == 255));
}

#[test]
fn jpeg_quality_is_clamped_before_encoding() {
    let img = sample(16, 8);
    assert_eq!(
        encode_image(&img, OutputFormat::Jpeg, 0).unwrap(),
        encode_image(&img, OutputFormat::Jpeg, 1).unwrap()
    );
    assert_eq!(
        encode_image(&img, OutputFormat::Jpeg, 255).unwrap(),
        encode_image(&img, OutputFormat::Jpeg, 100).unwrap()
    );
    assert_ne!(
        encode_image(&img, OutputFormat::Jpeg, 10).unwrap(),
        encode_image(&img, OutputFormat::Jpeg, 90).unwrap()
    );
}

#[test]
fn jpeg_refuses_an_image_without_pixels() {
    let empty = Raster::new(0, 0, Vec::new()).unwrap();
    assert!(matches!(
        encode_image(&empty, OutputFormat::Jpeg, 85),
        Err(CodecError::Failed(_))
    ));
}

#[test]
fn garbage_does_not_decode() {
    assert!(matches!(
        decode_image(&[1, 2, 3, 4, 5], ImageKind::Png),
        Err(CodecError::Failed(FailureKind::Decoding))
    ));
    assert!(matches!(decode_image(&[], ImageKind::Jpeg), Err(CodecError::Failed(_))));
}

#[test]
fn a_png_is_no_jpeg() {
    let bytes = encode_image(&sample(4, 4), OutputFormat::Png, 85).unwrap();
    assert!(decode_image(&bytes, ImageKind::Jpeg).is_err());
}
