use watermark::layout::{grid, jittered_lines, plan_passes, random_pass_plan, LinePlacement};
use watermark::pattern::{Pattern, Xorshift32, JITTER_SEED};

fn place(x: u64, y: u32) -> LinePlacement {
    LinePlacement { x, y }
}

#[test]
fn grid_lines_start_at_row_zero_and_stop_before_the_side() {
    assert_eq!(grid(10, 4), vec![place(0, 0), place(0, 4), place(0, 8)]);
    assert_eq!(grid(8, 4), vec![place(0, 0), place(0, 4)]);
    assert_eq!(grid(1, 100), vec![place(0, 0)]);
    assert_eq!(grid(0, 4), vec![]);
}

#[test]
fn grid_with_zero_gap_advances_by_one() {
    assert_eq!(grid(3, 0), vec![place(0, 0), place(0, 1), place(0, 2)]);
}

#[test]
fn fixed_patterns_have_their_rotations() {
    let h = plan_passes(Pattern::Horizontal, 10, 4, 2);
    assert_eq!(h.len(), 1);
    assert_eq!(h[0].rotations, Vec::<i32>::new());
    assert_eq!(h[0].lines, grid(10, 4));

    let v = plan_passes(Pattern::Vertical, 10, 4, 2);
    assert_eq!(v.len(), 1);
    assert_eq!(v[0].rotations, vec![90_000]);
    assert_eq!(v[0].lines, grid(10, 4));

    let d = plan_passes(Pattern::Diagonal, 10, 4, 2);
    assert_eq!(d.len(), 1);
    assert_eq!(d[0].rotations, vec![-45_000]);

    let c = plan_passes(Pattern::CrossDiagonal, 10, 4, 2);
    assert_eq!(c.len(), 2);
    assert_eq!(c[0].rotations, vec![-45_000]);
    assert_eq!(c[1].rotations, vec![-45_000, 90_000]);
    assert_eq!(c[0].lines, grid(10, 4));
    assert_eq!(c[1].lines, grid(10, 4));
}

#[test]
fn random_pattern_is_three_reproducible_passes() {
    let passes = plan_passes(Pattern::Random, 100, 20, 5);
    assert_eq!(passes.len(), 3);
    assert_eq!(passes[0].rotations, vec![3_560]);
    assert_eq!(
        passes[0].lines,
        vec![place(14, 1), place(22, 23), place(27, 40), place(42, 65), place(21, 83)]
    );
    assert_eq!(passes[1].rotations, vec![58_474]);
    assert_eq!(passes[1].lines, vec![place(28, 4), place(40, 31), place(46, 58), place(9, 77)]);
    assert_eq!(passes[2].rotations, vec![-40_322]);
    assert_eq!(passes[2].lines, vec![place(49, 16), place(34, 43), place(46, 68), place(3, 87)]);

    let again = plan_passes(Pattern::Random, 100, 20, 5);
    for (a, b) in passes.iter().zip(again.iter()) {
        assert_eq!(a.lines, b.lines);
        assert_eq!(a.rotations, b.rotations);
    }
}

#[test]
fn random_passes_keep_their_ranges() {
    for (side, gap, glyph) in [(500u32, 13u32, 9u32), (64, 1, 1), (1000, 200, 40), (50, 0, 3)] {
        let mut rng = Xorshift32::new(JITTER_SEED);
        for _ in 0..20 {
            let pass = random_pass_plan(&mut rng, side, gap, glyph);
            assert_eq!(pass.rotations.len(), 1);
            assert!((-60_000..=60_000).contains(&pass.rotations[0]));
            if let Some(first) = pass.lines.first() {
                assert!(first.y < gap.max(1));
            }
            for pair in pass.lines.windows(2) {
                let step = (pair[1].y - pair[0].y) as u64;
                assert!(step >= 1);
                assert!(step >= gap as u64 * 800 / 1000);
                assert!(step <= (gap as u64 * 1400 / 1000).max(1));
            }
            for line in &pass.lines {
                assert!(line.y < side);
                assert!(line.x <= 10 * glyph as u64);
            }
        }
    }
}

#[test]
fn jittered_lines_start_where_asked() {
    let mut rng = Xorshift32::new(JITTER_SEED);
    let lines = jittered_lines(&mut rng, 7, 40, 10, 2);
    assert_eq!(lines[0].y, 7);
    let mut rng = Xorshift32::new(JITTER_SEED);
    assert!(jittered_lines(&mut rng, 40, 40, 10, 2).is_empty());
    // Nothing was drawn, so the stream did not move.
    assert_eq!(rng.next(), 0x8798_5aa5);
}
