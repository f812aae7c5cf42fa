use watermark::select::{
    choose_adapter, parse_gpu_mode, select_backend, worker_count, AdapterChoice, AdapterInfo,
    Backend, GpuMode, AUTO_GPU_MIN_PIXELS, PREFERRED_VENDOR,
};

fn adapter(discrete: bool, vendor: u32) -> AdapterInfo {
    AdapterInfo { discrete, vendor }
}

#[test]
fn mode_words_are_read_in_any_case() {
    assert_eq!(parse_gpu_mode("on"), GpuMode::On);
    assert_eq!(parse_gpu_mode("ON"), GpuMode::On);
    assert_eq!(parse_gpu_mode("oFf"), GpuMode::Off);
    assert_eq!(parse_gpu_mode("auto"), GpuMode::Auto);
    assert_eq!(parse_gpu_mode(""), GpuMode::Auto);
    assert_eq!(parse_gpu_mode("onn"), GpuMode::Auto);
    assert_eq!(parse_gpu_mode("of"), GpuMode::Auto);
}

#[test]
fn off_selects_the_cpu_for_every_size() {
    for pixels in [0u64, 1, 999_999, 1_000_000, 1 << 40, u64::MAX] {
        assert_eq!(select_backend(GpuMode::Off, pixels), Backend::Cpu);
    }
}

#[test]
fn on_selects_the_gpu_for_every_size() {
    for pixels in [0u64, 1, 999_999, 1_000_000, u64::MAX] {
        assert_eq!(select_backend(GpuMode::On, pixels), Backend::Gpu);
    }
}

#[test]
fn auto_switches_at_a_million_pixels() {
    assert_eq!(AUTO_GPU_MIN_PIXELS, 1_000_000);
    assert_eq!(select_backend(GpuMode::Auto, 999_999), Backend::Cpu);
    assert_eq!(select_backend(GpuMode::Auto, 1_000_000), Backend::Gpu);
    assert_eq!(select_backend(GpuMode::Auto, 0), Backend::Cpu);
    assert_eq!(select_backend(GpuMode::Auto, u64::MAX), Backend::Gpu);
}

#[test]
fn worker_pool_follows_request_then_mode_then_hardware() {
    assert_eq!(worker_count(Some(3), GpuMode::On, 8), 3);
    assert_eq!(worker_count(Some(0), GpuMode::Auto, 8), 1);
    assert_eq!(worker_count(None, GpuMode::On, 8), 1);
    assert_eq!(worker_count(None, GpuMode::Auto, 8), 8);
    assert_eq!(worker_count(None, GpuMode::Off, 8), 8);
    assert_eq!(worker_count(None, GpuMode::Off, 0), 1);
}

#[test]
fn no_default_adapter_means_no_device() {
    let found = vec![adapter(true, PREFERRED_VENDOR)];
    assert_eq!(choose_adapter(None, &found), AdapterChoice::Unavailable);
}

#[test]
fn a_discrete_default_yields_to_the_preferred_vendor() {
    let found = vec![adapter(true, 0x1002), adapter(true, PREFERRED_VENDOR)];
    assert_eq!(choose_adapter(Some(adapter(true, 0x1002)), &found), AdapterChoice::Candidate(1));
    let found = vec![adapter(true, PREFERRED_VENDOR)];
    assert_eq!(choose_adapter(Some(adapter(true, 0x1002)), &found), AdapterChoice::Candidate(0));
}

#[test]
fn a_discrete_default_yields_to_the_first_discrete_adapter() {
    let found = vec![adapter(false, PREFERRED_VENDOR), adapter(true, 0x1003), adapter(true, 0x1002)];
    assert_eq!(choose_adapter(Some(adapter(true, 0x1002)), &found), AdapterChoice::Candidate(1));
}

#[test]
fn a_discrete_default_is_kept_when_nothing_discrete_was_found() {
    let found = vec![adapter(false, PREFERRED_VENDOR)];
    assert_eq!(choose_adapter(Some(adapter(true, 0x1002)), &found), AdapterChoice::Default);
    assert_eq!(choose_adapter(Some(adapter(true, 0x1002)), &Vec::new()), AdapterChoice::Default);
}

#[test]
fn preferred_vendor_wins_among_discrete_adapters() {
    let found = vec![
        adapter(false, PREFERRED_VENDOR),
        adapter(true, 0x1002),
        adapter(true, PREFERRED_VENDOR),
        adapter(true, PREFERRED_VENDOR),
    ];
    assert_eq!(choose_adapter(Some(adapter(false, 0x8086)), &found), AdapterChoice::Candidate(2));
}

#[test]
fn first_discrete_adapter_wins_without_the_preferred_vendor() {
    let found = vec![adapter(false, 0x8086), adapter(true, 0x1002), adapter(true, 0x1003)];
    assert_eq!(choose_adapter(Some(adapter(false, 0x8086)), &found), AdapterChoice::Candidate(1));
}

#[test]
fn default_is_kept_when_nothing_is_discrete() {
    let found = vec![adapter(false, PREFERRED_VENDOR), adapter(false, 0x8086)];
    assert_eq!(choose_adapter(Some(adapter(false, 0x8086)), &found), AdapterChoice::Default);
    assert_eq!(choose_adapter(Some(adapter(false, 0x8086)), &Vec::new()), AdapterChoice::Default);
}
