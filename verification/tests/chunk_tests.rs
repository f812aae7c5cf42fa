use watermark::chunk::{
    workgroups_for, ChunkDescriptor, ChunkPlan, DeviceLimits, PlanError, MAX_WORKGROUPS,
    WORKGROUP_SIZE,
};

fn check_partition(chunks: &[ChunkDescriptor], width: u32, height: u32) {
    assert!(!chunks.is_empty());
    let mut next_row: u64 = 0;
    for c in chunks {
        assert_eq!(c.row_offset as u64, next_row);
        assert!(c.row_count >= 1);
        assert_eq!(c.pixel_count, width as u64 * c.row_count as u64);
        assert_eq!(c.byte_size, c.pixel_count * 4);
        next_row += c.row_count as u64;
    }
    assert_eq!(next_row, height as u64);
}

#[test]
fn device_limits_take_the_smaller_binding() {
    let a = DeviceLimits::from_device(1 << 27, 1 << 28);
    assert_eq!(a.max_binding_bytes, 1 << 27);
    assert_eq!(a.max_dispatch_pixels, 256 * 65_535);
    let b = DeviceLimits::from_device(u32::MAX, 1000);
    assert_eq!(b.max_binding_bytes, 1000);
    assert_eq!(WORKGROUP_SIZE, 256);
    assert_eq!(MAX_WORKGROUPS, 65_535);
}

#[test]
fn rows_per_chunk_follows_the_tighter_limit() {
    // 1000 pixels per row, 4000 bytes per row.
    let by_binding = DeviceLimits { max_binding_bytes: 40_000, max_dispatch_pixels: 1 << 30 };
    assert_eq!(ChunkPlan::new(1000, 500, &by_binding).unwrap().rows_per_chunk(), 10);
    let by_dispatch = DeviceLimits { max_binding_bytes: 1 << 40, max_dispatch_pixels: 7_999 };
    assert_eq!(ChunkPlan::new(1000, 500, &by_dispatch).unwrap().rows_per_chunk(), 7);
    let roomy = DeviceLimits { max_binding_bytes: u64::MAX, max_dispatch_pixels: u64::MAX };
    assert_eq!(ChunkPlan::new(1000, 500, &roomy).unwrap().rows_per_chunk(), 500);
}

#[test]
fn chunks_partition_the_rows() {
    let limits = DeviceLimits { max_binding_bytes: 40_000, max_dispatch_pixels: 1 << 30 };
    let plan = ChunkPlan::new(1000, 25, &limits).unwrap();
    assert_eq!(plan.chunk_count(), 3);
    let chunks = plan.descriptors();
    assert_eq!(
        chunks,
        vec![
            ChunkDescriptor { row_offset: 0, row_count: 10, pixel_count: 10_000, byte_size: 40_000 },
            ChunkDescriptor { row_offset: 10, row_count: 10, pixel_count: 10_000, byte_size: 40_000 },
            ChunkDescriptor { row_offset: 20, row_count: 5, pixel_count: 5_000, byte_size: 20_000 },
        ]
    );
    check_partition(&chunks, 1000, 25);
    assert_eq!(plan.chunk(2), Some(chunks[2]));
    assert_eq!(plan.chunk(3), None);
}

#[test]
fn chunks_respect_both_limits_when_a_row_fits() {
    let mut seed: u64 = 7;
    for _ in 0..200 {
        seed = seed.wrapping_mul(6364136223846793005).wrapping_add(1442695040888963407);
        let width = 1 + (seed >> 33) as u32 % 300;
        let height = 1 + (seed >> 13) as u32 % 300;
        let bytes = width as u64 * 4 + (seed >> 40) % 5000;
        let pixels = width as u64 + (seed >> 20) % 3000;
        let limits = DeviceLimits { max_binding_bytes: bytes, max_dispatch_pixels: pixels };
        let chunks = ChunkPlan::new(width, height, &limits).unwrap().descriptors();
        check_partition(&chunks, width, height);
        for c in &chunks {
            assert!(c.byte_size <= bytes);
            assert!(c.pixel_count <= pixels);
        }
    }
}

#[test]
fn a_row_that_does_not_fit_is_dispatched_alone() {
    let limits = DeviceLimits { max_binding_bytes: 100, max_dispatch_pixels: 1 << 30 };
    let plan = ChunkPlan::new(1000, 10, &limits).unwrap();
    assert_eq!(plan.rows_per_chunk(), 1);
    let chunks = plan.descriptors();
    assert_eq!(chunks.len(), 10);
    check_partition(&chunks, 1000, 10);
    assert!(chunks.iter().all(|c| c.byte_size == 4000));
}

#[test]
fn plan_refuses_empty_images() {
    let limits = DeviceLimits { max_binding_bytes: 1 << 20, max_dispatch_pixels: 1 << 20 };
    assert!(matches!(ChunkPlan::new(0, 5, &limits), Err(PlanError::EmptyImage)));
    assert!(matches!(ChunkPlan::new(5, 0, &limits), Err(PlanError::EmptyImage)));
}

#[test]
fn plan_refuses_images_beyond_64_bits() {
    let limits = DeviceLimits { max_binding_bytes: 1 << 20, max_dispatch_pixels: 1 << 20 };
    assert!(matches!(ChunkPlan::new(u32::MAX, u32::MAX, &limits), Err(PlanError::TooLarge)));
    assert!(ChunkPlan::new(u32::MAX, 1, &limits).is_ok());
}

#[test]
fn workgroups_round_up() {
    assert_eq!(workgroups_for(0), 0);
    assert_eq!(workgroups_for(1), 1);
    assert_eq!(workgroups_for(256), 1);
    assert_eq!(workgroups_for(257), 2);
    assert_eq!(workgroups_for(256 * 65_535), 65_535);
    assert_eq!(workgroups_for(256 * 65_535 + 1), 65_536);
}
