use watermark::blend::cpu_blend;
use watermark::color::ColorError;
use watermark::generator::{plan_overlay, GenerateError, PatternParams};
use watermark::gpu::{start_blend, BlendRoute};
use watermark::layout::grid;
use watermark::overlay::assemble_overlay;
use watermark::pattern::Pattern;
use watermark::raster::{Raster, Rgba};
use watermark::select::GpuMode;

fn params(pattern: Pattern, color: &str, opacity: u8) -> PatternParams {
    PatternParams {
        text: "TEST".to_string(),
        text_scale_milli: 50,
        space_scale_milli: 1500,
        color: color.to_string(),
        opacity,
        pattern,
    }
}

/// Stands in for the glyph renderer: paints a bar of the text colour, one
/// glyph high, at every line of a pass.
fn render(side: u32, glyph_px: u32, color: Rgba, lines: &[(u64, u32)]) -> Raster {
    let mut data = vec![0u8; side as usize * side as usize * 4];
    for (x0, y0) in lines {
        for y in *y0..(*y0 + glyph_px).min(side) {
            for x in (*x0).min(side as u64) as u32..side {
                let o = (y as usize * side as usize + x as usize) * 4;
                data[o..o + 4].copy_from_slice(&[color.r, color.g, color.b, color.a]);
            }
        }
    }
    Raster::new(side, side, data).unwrap()
}

#[test]
fn plan_for_a_small_image() {
    let plan = plan_overlay(100, 100, &params(Pattern::Horizontal, "FF0000", 150)).unwrap();
    assert_eq!(plan.side, 142);
    assert_eq!(plan.glyph_milli, 5000);
    assert_eq!(plan.gap, 7);
    assert_eq!(plan.color, Rgba { r: 255, g: 0, b: 0, a: 150 });
    assert_eq!(plan.passes.len(), 1);
    assert_eq!(plan.passes[0].lines, grid(142, 7));
    assert!(plan.passes[0].rotations.is_empty());
}

#[test]
fn scales_never_fall_below_their_floors() {
    let mut p = params(Pattern::Diagonal, "808080", 150);
    p.text_scale_milli = 0;
    p.space_scale_milli = -3000;
    let plan = plan_overlay(640, 480, &p).unwrap();
    assert_eq!(plan.side, 800);
    assert_eq!(plan.glyph_milli, 1000);
    assert_eq!(plan.gap, 1);
    assert_eq!(plan.passes[0].lines.len(), 800);
}

#[test]
fn an_empty_text_is_planned_like_any_other() {
    let mut p = params(Pattern::Vertical, "808080", 150);
    p.text = String::new();
    let plan = plan_overlay(30, 40, &p).unwrap();
    assert_eq!(plan.side, 50);
    assert_eq!(plan.passes.len(), 1);
}

#[test]
fn plan_reports_its_errors() {
    let good = params(Pattern::Random, "808080", 150);
    assert!(matches!(plan_overlay(0, 10, &good), Err(GenerateError::InvalidDimensions)));
    assert!(matches!(plan_overlay(10, 0, &good), Err(GenerateError::InvalidDimensions)));
    let bad = params(Pattern::Random, "80808", 150);
    assert!(matches!(plan_overlay(10, 10, &bad), Err(GenerateError::Color(ColorError::BadLength))));
    let worse = params(Pattern::Random, "80808z", 150);
    assert!(matches!(plan_overlay(10, 10, &worse), Err(GenerateError::Color(ColorError::BadDigit))));
    // Dimensions are judged before the colour.
    assert!(matches!(plan_overlay(0, 0, &bad), Err(GenerateError::InvalidDimensions)));
    assert!(matches!(
        plan_overlay(u32::MAX, u32::MAX, &good),
        Err(GenerateError::CanvasTooLarge)
    ));
}

#[test]
fn overlay_has_the_image_size_for_every_pattern() {
    let all = [
        Pattern::Diagonal,
        Pattern::Horizontal,
        Pattern::Vertical,
        Pattern::CrossDiagonal,
        Pattern::Random,
    ];
    for pattern in all {
        for (w, h) in [(1u32, 1u32), (64, 48), (48, 64), (5, 90)] {
            let plan = plan_overlay(w, h, &params(pattern, "336699", 200)).unwrap();
            let glyph = (plan.glyph_milli / 1000) as u32;
            let rendered: Vec<Raster> = plan
                .passes
                .iter()
                .map(|pass| {
                    let lines: Vec<(u64, u32)> = pass.lines.iter().map(|l| (l.x, l.y)).collect();
                    render(plan.side, glyph, plan.color, &lines)
                })
                .collect();
            let overlay = assemble_overlay(&rendered, w, h).unwrap();
            assert_eq!((overlay.width(), overlay.height()), (w, h));
        }
    }
}

#[test]
fn red_image_gets_a_visible_opaque_watermark() {
    let red = Rgba { r: 255, g: 0, b: 0, a: 255 };
    let base = Raster::filled(100, 100, red).unwrap();
    let plan = plan_overlay(100, 100, &params(Pattern::Horizontal, "808080", 255)).unwrap();
    let glyph = (plan.glyph_milli / 1000) as u32;
    let lines: Vec<(u64, u32)> = plan.passes[0].lines.iter().map(|l| (l.x, l.y)).collect();
    let rendered = vec![render(plan.side, glyph, plan.color, &lines)];
    let overlay = assemble_overlay(&rendered, 100, 100).unwrap();
    let out = match start_blend(GpuMode::Auto, &base, &overlay, None).unwrap() {
        BlendRoute::Blended(img) => img,
        BlendRoute::Device(job) => job.finish_or_fall_back(),
    };
    assert_eq!((out.width(), out.height()), (100, 100));
    let pixels: Vec<&[u8]> = out.as_bytes().chunks(4).collect();
    assert!(pixels.iter().any(|p| p[..3] != [255, 0, 0]));
    assert!(pixels.iter().all(|p| p[3] == 255));
    assert_eq!(out.as_bytes(), cpu_blend(&base, &overlay).unwrap().as_bytes());
}
