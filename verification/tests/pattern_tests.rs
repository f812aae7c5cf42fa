use watermark::pattern::{
    canvas_side, resolve_glyph_milli, resolve_line_gap, Pattern, Xorshift32, JITTER_SEED,
};

#[test]
fn canvas_side_is_the_diagonal_rounded_up() {
    assert_eq!(canvas_side(3, 4), 5);
    assert_eq!(canvas_side(100, 100), 142);
    assert_eq!(canvas_side(1, 1), 2);
    assert_eq!(canvas_side(0, 0), 0);
    assert_eq!(canvas_side(1, 0), 1);
    assert_eq!(canvas_side(1920, 1080), 2203);
    assert_eq!(canvas_side(u32::MAX, u32::MAX), 6_074_000_999);
}

#[test]
fn canvas_side_covers_both_dimensions() {
    for (w, h) in [(1u32, 1000u32), (1000, 1), (640, 480), (7, 7)] {
        let s = canvas_side(w, h);
        assert!(s >= w as u64 && s >= h as u64);
        let target = w as u64 * w as u64 + h as u64 * h as u64;
        assert!(s * s >= target);
        assert!((s - 1) * (s - 1) < target);
    }
}

#[test]
fn glyph_size_has_a_floor_of_one_pixel() {
    assert_eq!(resolve_glyph_milli(1000, 50), 50_000);
    assert_eq!(resolve_glyph_milli(10, 50), 1000);
    assert_eq!(resolve_glyph_milli(1000, 0), 1000);
    assert_eq!(resolve_glyph_milli(1000, -50), 1000);
    assert_eq!(resolve_glyph_milli(0, 50), 1000);
    assert_eq!(resolve_glyph_milli(20, 50), 1000);
    assert_eq!(resolve_glyph_milli(21, 50), 1050);
}

#[test]
fn line_gap_has_a_floor_of_one_pixel() {
    assert_eq!(resolve_line_gap(50_000, 1500), 75);
    assert_eq!(resolve_line_gap(1000, 1500), 1);
    assert_eq!(resolve_line_gap(1999, 1000), 1);
    assert_eq!(resolve_line_gap(2000, 1000), 2);
    assert_eq!(resolve_line_gap(50_000, 0), 1);
    assert_eq!(resolve_line_gap(50_000, -1500), 1);
    assert_eq!(resolve_line_gap(u64::MAX, i32::MAX), i32::MAX as u32);
}

#[test]
fn xorshift_stream_is_the_classic_one() {
    let mut rng = Xorshift32::new(1);
    assert_eq!(rng.next(), 270_369);
    let mut rng = Xorshift32::new(JITTER_SEED);
    let draws: Vec<u32> = (0..6).map(|_| rng.next()).collect();
    assert_eq!(
        draws,
        vec![0x8798_5aa5, 0x155b_24a3, 0x4820_f4c4, 0x81b3_ac98, 0x703a_0788, 0x29a8_e24d]
    );
}

#[test]
fn xorshift_stream_repeats_for_the_same_seed() {
    let mut a = Xorshift32::new(JITTER_SEED);
    let mut b = Xorshift32::new(JITTER_SEED);
    for _ in 0..100 {
        assert_eq!(a.next(), b.next());
    }
}

#[test]
fn scaled_draws_stay_below_their_range() {
    let mut rng = Xorshift32::new(JITTER_SEED);
    // 0x87985aa5 * 120001 >> 32
    assert_eq!(rng.next_below(120_001), 63_560);
    for range in [1u64, 2, 7, 601, 1 << 40] {
        for _ in 0..50 {
            assert!(rng.next_below(range) < range);
        }
    }
    assert_eq!(rng.next_below(0), 0);
}

#[test]
fn patterns_compare_by_variant() {
    assert_eq!(Pattern::Diagonal, Pattern::Diagonal);
    assert_ne!(Pattern::Diagonal, Pattern::CrossDiagonal);
    let all = [
        Pattern::Diagonal,
        Pattern::Horizontal,
        Pattern::Vertical,
        Pattern::CrossDiagonal,
        Pattern::Random,
    ];
    assert_eq!(all.len(), 5);
}
