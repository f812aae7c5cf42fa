//! Where the text lines go: for each pattern, the passes to render, each
//! with the origin of every line and the rotations to apply afterwards.
//!
//! Drawing glyphs and rotating canvases is done outside this library; a
//! `PassPlan` tells the renderer exactly what to draw and how to turn it.

use crate::pattern::{lemma_scaled_below, scaled, xorshift32, Pattern, Xorshift32, JITTER_SEED};
use vstd::prelude::*;

verus! {

/// Passes of the random pattern.
pub const RANDOM_PASSES: u32 = 3;

/// Origin of one text line on the working canvas, in pixels.
#[derive(Clone, Copy, Debug, PartialEq, Eq, Structural)]
pub struct LinePlacement {
    pub x: u64,
    pub y: u32,
}

/// One pass: lines drawn on a transparent canvas, which is then rotated
/// about its centre by each angle in turn. Angles are in thousandths of a
/// degree, clockwise positive.
#[derive(Debug)]
pub struct PassPlan {
    pub lines: Vec<LinePlacement>,
    pub rotations: Vec<i32>,
}

/// The mathematical content of a pass.
pub ghost struct PassView {
    pub lines: Seq<LinePlacement>,
    pub rotations: Seq<i32>,
}

impl View for PassPlan {
    type V = PassView;

    open spec fn view(&self) -> PassView {
        PassView { lines: self.lines@, rotations: self.rotations@ }
    }
}

/// The spacing actually used: never zero, so that a grid always advances.
pub open spec fn effective_gap(gap: nat) -> nat {
    if gap == 0 {
        1
    } else {
        gap
    }
}

/// The evenly spaced lines of a canvas: one at every multiple of the gap
/// below `side`, starting at row 0, each at the left edge.
pub open spec fn grid_lines(side: nat, gap: nat) -> Seq<LinePlacement> {
    let g = effective_gap(gap);
    Seq::new(
        ((side + g - 1) / (g as int)) as nat,
        |i: int| LinePlacement { x: 0, y: (i * g) as u32 },
    )
}

/// Angle of a random pass, from -60 to +60 degrees.
pub open spec fn random_angle(draw: u32) -> int {
    scaled(draw, 120_001) - 60_000
}

/// Advance from one jittered line to the next: between 0.8 and 1.4 times
/// the gap, rounded down, and at least one pixel.
pub open spec fn jitter_step(gap: nat, draw: u32) -> nat {
    let step = gap * (800 + scaled(draw, 601)) / 1000;
    if step < 1 {
        1
    } else {
        step as nat
    }
}

/// Widest horizontal shift of a jittered line: ten glyph heights.
pub open spec fn shift_range(glyph_px: nat) -> nat {
    10 * glyph_px + 1
}

/// Rows from `y` to the end of a canvas of the given side.
pub open spec fn rows_left(y: nat, side: nat) -> nat {
    if y < side {
        (side - y) as nat
    } else {
        0
    }
}

/// The jittered lines drawn from row `y` on, with the generator at `state`:
/// each line takes one draw for its horizontal shift and one for the
/// advance to the next line.
pub open spec fn random_lines(state: u32, y: nat, side: nat, gap: nat, glyph_px: nat) -> Seq<
    LinePlacement,
>
    decreases rows_left(y, side),
{
    if y >= side {
        Seq::empty()
    } else {
        let shift = xorshift32(state);
        let advance = xorshift32(shift);
        seq![
            LinePlacement {
                x: #[verifier::truncate] (scaled(shift, shift_range(glyph_px)) as u64),
                y: #[verifier::truncate] (y as u32),
            },
        ] + random_lines(advance, y + jitter_step(gap, advance), side, gap, glyph_px)
    }
}

/// The generator's state after `random_lines`.
pub open spec fn random_lines_end(state: u32, y: nat, side: nat, gap: nat) -> u32
    decreases rows_left(y, side),
{
    if y >= side {
        state
    } else {
        let advance = xorshift32(xorshift32(state));
        random_lines_end(advance, y + jitter_step(gap, advance), side, gap)
    }
}

/// One random pass with the generator at `state`: a draw for the angle, a
/// draw for the phase of the first line within `[0, gap)`, then the lines.
pub open spec fn random_pass(state: u32, side: nat, gap: nat, glyph_px: nat) -> PassView {
    let angle = xorshift32(state);
    let phase = xorshift32(angle);
    PassView {
        lines: random_lines(phase, scaled(phase, effective_gap(gap)), side, gap, glyph_px),
        rotations: seq![random_angle(angle) as i32],
    }
}

/// The generator's state after `random_pass`.
pub open spec fn random_pass_end(state: u32, side: nat, gap: nat) -> u32 {
    let phase = xorshift32(xorshift32(state));
    random_lines_end(phase, scaled(phase, effective_gap(gap)), side, gap)
}

/// `count` random passes in a row, each continuing the stream of the last.
pub open spec fn random_passes(state: u32, count: nat, side: nat, gap: nat, glyph_px: nat) -> Seq<
    PassView,
>
    decreases count,
{
    if count == 0 {
        Seq::empty()
    } else {
        seq![random_pass(state, side, gap, glyph_px)] + random_passes(
            random_pass_end(state, side, gap),
            (count - 1) as nat,
            side,
            gap,
            glyph_px,
        )
    }
}

/// The passes of a pattern on a canvas of the given side.
///
/// Horizontal is one unrotated grid; vertical the grid turned by 90
/// degrees; diagonal the grid turned by -45 degrees; cross-diagonal the
/// diagonal pass and a second one turned by a further 90 degrees; random is
/// three jittered passes from the fixed seed.
pub open spec fn pattern_passes(pattern: Pattern, side: nat, gap: nat, glyph_px: nat) -> Seq<
    PassView,
> {
    let grid = grid_lines(side, gap);
    match pattern {
        Pattern::Horizontal => seq![PassView { lines: grid, rotations: Seq::empty() }],
        Pattern::Vertical => seq![PassView { lines: grid, rotations: seq![90_000i32] }],
        Pattern::Diagonal => seq![PassView { lines: grid, rotations: seq![-45_000i32] }],
        Pattern::CrossDiagonal => seq![
            PassView { lines: grid, rotations: seq![-45_000i32] },
            PassView { lines: grid, rotations: seq![-45_000i32, 90_000i32] },
        ],
        Pattern::Random => random_passes(JITTER_SEED, RANDOM_PASSES as nat, side, gap, glyph_px),
    }
}

/// The views of a vector of passes, in order.
pub open spec fn pass_views(passes: Seq<PassPlan>) -> Seq<PassView> {
    Seq::new(passes.len(), |i: int| passes[i]@)
}

/// A random angle lies within 60 degrees of level.
pub proof fn lemma_random_angle_range(draw: u32)
    ensures
        -60_000 <= random_angle(draw) <= 60_000,
{
    lemma_scaled_below(draw, 120_001);
}

/// A jittered advance is at least one pixel and lies between 0.8 and 1.4
/// times the gap, up to rounding down.
pub proof fn lemma_jitter_step_range(gap: nat, draw: u32)
    ensures
        jitter_step(gap, draw) >= 1,
        jitter_step(gap, draw) * 1000 <= gap * 1400 || jitter_step(gap, draw) == 1,
        (jitter_step(gap, draw) + 1) * 1000 > gap * 800,
{
    lemma_scaled_below(draw, 601);
    let g = gap as int;
    let f = 800 + scaled(draw, 601) as int;
    let step = g * f / 1000;
    assert(step * 1000 <= g * 1400 && (step + 1) * 1000 > g * 800 && step >= 0) by (nonlinear_arith)
        requires
            step == g * f / 1000,
            800 <= f <= 1400,
            0 <= g,
    ;
}

/// Every grid line starts inside the canvas and lines are one gap apart.
pub proof fn lemma_grid_lines(side: nat, gap: nat, i: int)
    requires
        0 <= i < grid_lines(side, gap).len(),
        side <= u32::MAX,
    ensures
        grid_lines(side, gap)[i].x == 0,
        grid_lines(side, gap)[i].y == i * effective_gap(gap),
        grid_lines(side, gap)[i].y < side,
        grid_lines(side, gap).len() * effective_gap(gap) >= side,
{
    let g = effective_gap(gap) as int;
    let s = side as int;
    let n = (s + g - 1) / g;
    assert(n * g >= s && i * g < s && i * g >= 0) by (nonlinear_arith)
        requires
            n == (s + g - 1) / g,
            0 <= i < n,
            g >= 1,
            s >= 0,
    ;
}

/// Lays out the evenly spaced lines of a canvas.
pub fn grid(side: u32, gap: u32) -> (lines: Vec<LinePlacement>)
    ensures
        lines@ == grid_lines(side as nat, gap as nat),
{
    let g: u32 = if gap == 0 {
        1
    } else {
        gap
    };
    let mut lines: Vec<LinePlacement> = Vec::new();
    let mut y: u32 = 0;
    let mut done: bool = side == 0;
    let ghost n = grid_lines(side as nat, gap as nat).len() as int;
    proof {
        let s = side as int;
        assert(n == (s + g - 1) / (g as int));
        assert((s == 0) == (n == 0) && n >= 0) by (nonlinear_arith)
            requires
                n == (s + g - 1) / (g as int),
                g >= 1,
                s >= 0,
        ;
        assert(0 * g == 0) by (nonlinear_arith);
    }
    while !done
        invariant
            g == effective_gap(gap as nat),
            n == grid_lines(side as nat, gap as nat).len(),
            0 <= lines@.len() <= n,
            done <==> lines@.len() == n,
            !done ==> y == lines@.len() * g,
            forall|i: int|
                0 <= i < lines@.len() ==> #[trigger] lines@[i] == grid_lines(
                    side as nat,
                    gap as nat,
                )[i],
        decreases n - lines@.len(),
    {
        let ghost k = lines@.len() as int;
        proof {
            lemma_grid_lines(side as nat, gap as nat, k);
        }
        lines.push(LinePlacement { x: 0, y });
        proof {
            let s = side as int;
            assert(n == (s + g - 1) / (g as int));
            assert(((k + 1) * g < s) == (k + 1 < n) && (k + 1) * g == k * g + g) by (nonlinear_arith)
                requires
                    n == (s + g - 1) / (g as int),
                    0 <= k < n,
                    g >= 1,
                    s >= 0,
            ;
        }
        if side - y > g {
            y = y + g;
        } else {
            done = true;
        }
    }
    assert(lines@ =~= grid_lines(side as nat, gap as nat));
    lines
}

/// Lays out the jittered lines of one random pass from row `start` on,
/// drawing from `rng`.
pub fn jittered_lines(rng: &mut Xorshift32, start: u32, side: u32, gap: u32, glyph_px: u32) -> (lines:
    Vec<LinePlacement>)
    ensures
        lines@ == random_lines(old(rng)@, start as nat, side as nat, gap as nat, glyph_px as nat),
        final(rng)@ == random_lines_end(old(rng)@, start as nat, side as nat, gap as nat),
        forall|i: int| 0 <= i < lines@.len() ==> (#[trigger] lines@[i]).y < side,
{
    let ghost first = rng@;
    let ghost all = random_lines(first, start as nat, side as nat, gap as nat, glyph_px as nat);
    let ghost end = random_lines_end(first, start as nat, side as nat, gap as nat);
    let mut lines: Vec<LinePlacement> = Vec::new();
    let mut y: u64 = start as u64;
    while y < side as u64
        invariant
            y <= 0x3_0000_0000,
            all == lines@ + random_lines(rng@, y as nat, side as nat, gap as nat, glyph_px as nat),
            end == random_lines_end(rng@, y as nat, side as nat, gap as nat),
            forall|i: int| 0 <= i < lines@.len() ==> (#[trigger] lines@[i]).y < side,
        decreases rows_left(y as nat, side as nat),
    {
        let ghost before = rng@;
        let ghost rest = random_lines(before, y as nat, side as nat, gap as nat, glyph_px as nat);
        let x: u64 = rng.next_below(10 * (glyph_px as u64) + 1);
        let extra: u64 = rng.next_below(601);
        proof {
            lemma_jitter_step_range(gap as nat, rng@);
            assert(0 <= gap * (800 + extra) <= 0xffff_ffff * 1400) by (nonlinear_arith)
                requires
                    0 <= gap <= 0xffff_ffff,
                    0 <= extra <= 600,
            ;
        }
        let exact: u64 = (gap as u64) * (800 + extra) / 1000;
        let step: u64 = if exact < 1 {
            1
        } else {
            exact
        };
        let line = LinePlacement { x, y: y as u32 };
        lines.push(line);
        proof {
            let tail = random_lines(
                rng@,
                (y + step) as nat,
                side as nat,
                gap as nat,
                glyph_px as nat,
            );
            assert(rest == seq![line] + tail);
            assert(all =~= lines@ + tail);
        }
        y = y + step;
    }
    proof {
        assert(random_lines(rng@, y as nat, side as nat, gap as nat, glyph_px as nat)
            =~= Seq::<LinePlacement>::empty());
        assert(all =~= lines@);
    }
    lines
}

/// Plans one random pass, drawing from `rng`: the angle first, then the
/// phase of the first line, then the lines.
pub fn random_pass_plan(rng: &mut Xorshift32, side: u32, gap: u32, glyph_px: u32) -> (pass: PassPlan)
    ensures
        pass@ == random_pass(old(rng)@, side as nat, gap as nat, glyph_px as nat),
        final(rng)@ == random_pass_end(old(rng)@, side as nat, gap as nat),
        pass@.rotations.len() == 1,
        -60_000 <= pass@.rotations[0] <= 60_000,
        forall|i: int| 0 <= i < pass@.lines.len() ==> (#[trigger] pass@.lines[i]).y < side,
{
    let turn: u64 = rng.next_below(120_001);
    proof {
        lemma_random_angle_range(rng@);
    }
    let angle: i32 = (turn as i64 - 60_000) as i32;
    let g: u64 = if gap == 0 {
        1
    } else {
        gap as u64
    };
    let phase: u64 = rng.next_below(g);
    let lines = jittered_lines(rng, phase as u32, side, gap, glyph_px);
    let mut rotations: Vec<i32> = Vec::new();
    rotations.push(angle);
    let pass = PassPlan { lines, rotations };
    assert(pass@.rotations =~= seq![angle]);
    pass
}

/// Plans a pass of evenly spaced lines followed by the given rotations.
fn grid_pass(side: u32, gap: u32, rotations: Vec<i32>) -> (pass: PassPlan)
    ensures
        pass@ == (PassView { lines: grid_lines(side as nat, gap as nat), rotations: rotations@ }),
{
    PassPlan { lines: grid(side, gap), rotations }
}

/// Plans the passes of a pattern on a canvas `side` pixels square, with
/// lines `gap` pixels apart and glyphs `glyph_px` pixels high.
///
/// The plan is a function of its arguments alone: the random pattern
/// restarts its stream from the same seed at every call.
pub fn plan_passes(pattern: Pattern, side: u32, gap: u32, glyph_px: u32) -> (passes: Vec<PassPlan>)
    ensures
        pass_views(passes@) == pattern_passes(
            pattern,
            side as nat,
            gap as nat,
            glyph_px as nat,
        ),
        passes@.len() == (match pattern {
            Pattern::CrossDiagonal => 2nat,
            Pattern::Random => 3nat,
            _ => 1nat,
        }),
{
    let mut passes: Vec<PassPlan> = Vec::new();
    let ghost want = pattern_passes(pattern, side as nat, gap as nat, glyph_px as nat);
    match pattern {
        Pattern::Horizontal => {
            passes.push(grid_pass(side, gap, Vec::new()));
            assert(pass_views(passes@) =~= want);
        },
        Pattern::Vertical => {
            let mut turns: Vec<i32> = Vec::new();
            turns.push(90_000);
            passes.push(grid_pass(side, gap, turns));
            assert(passes@[0]@.rotations =~= seq![90_000i32]);
            assert(pass_views(passes@) =~= want);
        },
        Pattern::Diagonal => {
            let mut turns: Vec<i32> = Vec::new();
            turns.push(-45_000);
            passes.push(grid_pass(side, gap, turns));
            assert(passes@[0]@.rotations =~= seq![-45_000i32]);
            assert(pass_views(passes@) =~= want);
        },
        Pattern::CrossDiagonal => {
            let mut first: Vec<i32> = Vec::new();
            first.push(-45_000);
            let mut second: Vec<i32> = Vec::new();
            second.push(-45_000);
            second.push(90_000);
            passes.push(grid_pass(side, gap, first));
            passes.push(grid_pass(side, gap, second));
            assert(passes@[0]@.rotations =~= seq![-45_000i32]);
            assert(passes@[1]@.rotations =~= seq![-45_000i32, 90_000i32]);
            assert(pass_views(passes@) =~= want);
        },
        Pattern::Random => {
            let mut rng = Xorshift32::new(JITTER_SEED);
            let mut k: u32 = 0;
            while k < RANDOM_PASSES
                invariant
                    k <= RANDOM_PASSES,
                    passes@.len() == k,
                    want == pass_views(passes@) + random_passes(
                        rng@,
                        (RANDOM_PASSES - k) as nat,
                        side as nat,
                        gap as nat,
                        glyph_px as nat,
                    ),
                decreases RANDOM_PASSES - k,
            {
                let ghost done = pass_views(passes@);
                let ghost state = rng@;
                let pass = random_pass_plan(&mut rng, side, gap, glyph_px);
                passes.push(pass);
                proof {
                    let rest = random_passes(
                        rng@,
                        (RANDOM_PASSES - k - 1) as nat,
                        side as nat,
                        gap as nat,
                        glyph_px as nat,
                    );
                    assert(random_passes(
                        state,
                        (RANDOM_PASSES - k) as nat,
                        side as nat,
                        gap as nat,
                        glyph_px as nat,
                    ) == seq![pass@] + rest);
                    assert(pass_views(passes@) =~= done + seq![pass@]);
                    assert(want =~= pass_views(passes@) + rest);
                }
                k += 1;
            }
            assert(random_passes(rng@, 0, side as nat, gap as nat, glyph_px as nat)
                =~= Seq::<PassView>::empty());
            assert(want =~= pass_views(passes@));
        },
    }
    passes
}

} // verus!
