use vapor::metrics::{cpu_load, gpu_usage_pct, ram_used_bytes, CpuLoad, CpuLoadTracker, GpuSample};

#[test]
fn first_cpu_poll_reports_nothing() {
    let mut t = CpuLoadTracker::new();
    assert_eq!(t.observe(Some([100, 50, 800, 10])), None);
    let load = t.observe(Some([130, 60, 850, 10])).unwrap();
    assert_eq!(load, CpuLoad { busy: 40, total: 90 });
}

#[test]
fn cpu_poll_after_reset_starts_fresh() {
    let mut t = CpuLoadTracker::new();
    t.observe(Some([1, 1, 1, 1]));
    t.reset();
    assert_eq!(t.observe(Some([5, 5, 5, 5])), None);
    assert_eq!(t.observe(Some([6, 5, 7, 5])), Some(CpuLoad { busy: 1, total: 3 }));
}

#[test]
fn failed_tick_read_breaks_the_delta() {
    let mut t = CpuLoadTracker::new();
    t.observe(Some([1, 1, 1, 1]));
    assert_eq!(t.observe(None), None);
    assert_eq!(t.observe(Some([2, 2, 2, 2])), None);
}

#[test]
fn cpu_load_handles_counter_wrap_and_idle_interval() {
    let prev = [u32::MAX - 9, 0, u32::MAX, 5];
    let curr = [10, 20, 29, 5];
    assert_eq!(cpu_load(prev, curr), Some(CpuLoad { busy: 40, total: 70 }));
    assert_eq!(cpu_load([3, 4, 5, 6], [3, 4, 5, 6]), None);
    let l = cpu_load([0, 0, 0, 0], [1, 1, 2, 0]).unwrap();
    assert_eq!(l.busy as f32 / l.total as f32 * 100.0, 50.0);
}

#[test]
fn gpu_usage_takes_last_reporting_accelerator() {
    let s = |d: Option<i32>, a: Option<i32>| GpuSample { device_utilization: d, gpu_activity: a };
    assert_eq!(gpu_usage_pct(&vec![]), None);
    assert_eq!(gpu_usage_pct(&vec![s(None, None)]), None);
    assert_eq!(gpu_usage_pct(&vec![s(Some(37), Some(90))]), Some(37));
    assert_eq!(gpu_usage_pct(&vec![s(None, Some(12))]), Some(12));
    assert_eq!(gpu_usage_pct(&vec![s(Some(20), None), s(Some(70), None)]), Some(70));
    assert_eq!(gpu_usage_pct(&vec![s(Some(20), None), s(None, None)]), Some(20));
    assert_eq!(gpu_usage_pct(&vec![s(Some(250), None)]), Some(100));
    assert_eq!(gpu_usage_pct(&vec![s(Some(-3), None)]), Some(0));
}

#[test]
fn ram_in_use_is_pages_times_page_size() {
    assert_eq!(ram_used_bytes(1000, 200, 30, 16384), Some(1230 * 16384));
    assert_eq!(ram_used_bytes(0, 0, 0, 16384), Some(0));
    assert_eq!(ram_used_bytes(u32::MAX, u32::MAX, u32::MAX, 4096), Some(3 * (u32::MAX as u64) * 4096));
    assert_eq!(ram_used_bytes(u32::MAX, u32::MAX, u32::MAX, u32::MAX), None);
}

#[test]
fn cpu_poll_follows_its_toggle() {
    let mut t = CpuLoadTracker::new();
    assert_eq!(t.poll(true, Some([10, 10, 10, 10])), None);
    assert_eq!(t.poll(true, Some([12, 10, 12, 11])), Some(CpuLoad { busy: 3, total: 5 }));
    assert_eq!(t.poll(false, None), None);
    assert_eq!(t.poll(true, Some([20, 20, 20, 20])), None);
    assert_eq!(t.poll(true, Some([21, 20, 21, 20])), Some(CpuLoad { busy: 1, total: 2 }));
}
