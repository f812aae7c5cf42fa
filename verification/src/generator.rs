//! The pattern generator's plan: from the size of an image and the user's
//! parameters to everything a renderer needs to draw the overlay.

use crate::color::{parse_color, parsed_color, ColorError};
use crate::layout::{pass_views, pattern_passes, plan_passes, PassPlan, PassView};
use crate::pattern::{
    canvas_side,
    glyph_milli,
    is_canvas_side,
    lemma_canvas_side_covers,
    line_gap,
    resolve_glyph_milli,
    resolve_line_gap,
    Pattern,
};
use crate::raster::{byte_count, byte_len, Rgba};
use vstd::prelude::*;

verus! {

/// What the user asks for.
pub struct PatternParams {
    /// The watermark text.
    pub text: String,
    /// Glyph height relative to the image height, in thousandths.
    pub text_scale_milli: i32,
    /// Line spacing relative to the glyph height, in thousandths.
    pub space_scale_milli: i32,
    /// Colour as six hexadecimal digits.
    pub color: String,
    /// Opacity from 0 to 255.
    pub opacity: u8,
    /// How the text is laid out.
    pub pattern: Pattern,
}

/// Why no overlay can be planned.
#[derive(Clone, Copy, Debug, PartialEq, Eq, Structural)]
pub enum GenerateError {
    /// The image has no pixels.
    InvalidDimensions,
    /// The colour text was refused.
    Color(ColorError),
    /// The working canvas does not fit the address space.
    CanvasTooLarge,
}

/// What a renderer needs to draw the overlay of one image.
pub struct OverlayPlan {
    /// Side of the square working canvas, in pixels.
    pub side: u32,
    /// Glyph height in thousandths of a pixel, at least 1000.
    pub glyph_milli: u64,
    /// Distance between lines in pixels, at least 1.
    pub gap: u32,
    /// Colour and opacity of the text.
    pub color: Rgba,
    /// The passes to render, in stacking order.
    pub passes: Vec<PassPlan>,
}

/// The mathematical content of an overlay plan.
pub ghost struct OverlayPlanView {
    pub side: nat,
    pub glyph_milli: nat,
    pub gap: nat,
    pub color: Rgba,
    pub passes: Seq<PassView>,
}

impl View for OverlayPlan {
    type V = OverlayPlanView;

    open spec fn view(&self) -> OverlayPlanView {
        OverlayPlanView {
            side: self.side as nat,
            glyph_milli: self.glyph_milli as nat,
            gap: self.gap as nat,
            color: self.color,
            passes: pass_views(self.passes@),
        }
    }
}

/// The side of the working canvas of an image: its diagonal, rounded up.
pub open spec fn side_of(width: nat, height: nat) -> nat {
    choose|side: nat| is_canvas_side(side, width, height)
}

/// Glyph height in whole pixels, as far as 32 bits hold it.
pub open spec fn glyph_px(glyph: nat) -> nat {
    if glyph / 1000 > u32::MAX {
        u32::MAX as nat
    } else {
        glyph / 1000
    }
}

/// Whether a square canvas of the given side can be held in memory.
pub open spec fn canvas_fits(side: nat) -> bool {
    side <= u32::MAX && byte_len(side, side) <= usize::MAX
}

/// What `plan_overlay` owes for an image size and parameters.
pub open spec fn planned(
    width: nat,
    height: nat,
    text_scale_milli: int,
    space_scale_milli: int,
    color: Seq<char>,
    opacity: u8,
    pattern: Pattern,
) -> Result<OverlayPlanView, GenerateError> {
    let side = side_of(width, height);
    let glyph = glyph_milli(height, text_scale_milli);
    let gap = line_gap(glyph, space_scale_milli);
    if width == 0 || height == 0 {
        Err(GenerateError::InvalidDimensions)
    } else if parsed_color(color, opacity) is Err {
        Err(GenerateError::Color(parsed_color(color, opacity)->Err_0))
    } else if !canvas_fits(side) {
        Err(GenerateError::CanvasTooLarge)
    } else {
        Ok(
            OverlayPlanView {
                side,
                glyph_milli: glyph,
                gap,
                color: parsed_color(color, opacity)->Ok_0,
                passes: pattern_passes(pattern, side, gap, glyph_px(glyph)),
            },
        )
    }
}

/// Plans the overlay for a `width` by `height` image.
///
/// The canvas side is the image's diagonal rounded up, so that the canvas
/// covers the image however it is turned. Glyph height and line spacing
/// never fall below their floors, whatever scales are given, so the line
/// grid always advances. An empty text is no error: its lines are drawn all
/// the same.
pub fn plan_overlay(width: u32, height: u32, params: &PatternParams) -> (r: Result<
    OverlayPlan,
    GenerateError,
>)
    ensures
        match planned(
            width as nat,
            height as nat,
            params.text_scale_milli as int,
            params.space_scale_milli as int,
            params.color@,
            params.opacity,
            params.pattern,
        ) {
            Ok(view) => r matches Ok(plan) && plan@ == view && plan.glyph_milli >= 1000 && plan.gap
                >= 1 && plan.side >= width && plan.side >= height,
            Err(e) => r matches Err(f) && f == e,
        },
{
    if width == 0 || height == 0 {
        return Err(GenerateError::InvalidDimensions);
    }
    let color = match parse_color(params.color.as_str(), params.opacity) {
        Ok(color) => color,
        Err(e) => {
            return Err(GenerateError::Color(e));
        },
    };
    let wide: u64 = canvas_side(width, height);
    proof {
        lemma_canvas_side_covers(
            wide as nat,
            side_of(width as nat, height as nat),
            width as nat,
            height as nat,
        );
    }
    if wide > u32::MAX as u64 {
        return Err(GenerateError::CanvasTooLarge);
    }
    let side: u32 = wide as u32;
    if byte_count(side, side) > usize::MAX as u128 {
        return Err(GenerateError::CanvasTooLarge);
    }
    let glyph: u64 = resolve_glyph_milli(height, params.text_scale_milli);
    let gap: u32 = resolve_line_gap(glyph, params.space_scale_milli);
    let px: u32 = if glyph / 1000 > u32::MAX as u64 {
        u32::MAX
    } else {
        (glyph / 1000) as u32
    };
    let passes = plan_passes(params.pattern, side, gap, px);
    Ok(OverlayPlan { side, glyph_milli: glyph, gap, color, passes })
}

} // verus!
