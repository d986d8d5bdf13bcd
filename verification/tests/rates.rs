use resources_core::process::Process;
use resources_core::sample::{GpuUsage, ProcessData, SystemInfo};

fn base_sample(pid: u32) -> ProcessData {
    ProcessData {
        pid,
        parent_pid: 1,
        uid: 1000,
        commandline: b"/usr/bin/demo".to_vec(),
        user_cpu_time: 0,
        system_cpu_time: 0,
        read_bytes: None,
        write_bytes: None,
        memory_usage: 0,
        starttime: 0,
        timestamp: 0,
        app_id: None,
        gpu_usage_stats: Vec::new(),
    }
}

fn info() -> SystemInfo {
    SystemInfo { tick_rate: 100, num_cpus: 4 }
}

fn gpu(slot: u64, gfx: u64, enc: u64, dec: u64, mem: u64, percent_based: bool) -> GpuUsage {
    GpuUsage { slot, gfx, enc, dec, mem, percent_based }
}

/// With no prior sample (timestamp-last sentinel), every rate is its
/// defined default: never undefined, infinite or negative.
#[test]
fn sentinel_rates_default() {
    let mut d = base_sample(7);
    d.user_cpu_time = 123;
    d.system_cpu_time = 456;
    d.read_bytes = Some(8192);
    d.write_bytes = Some(4096);
    d.timestamp = 50_000;
    d.gpu_usage_stats = vec![gpu(1, 900, 0, 0, 64, false)];
    let p = Process::from_process_data(d);
    assert_eq!(p.timestamp_last, 0);
    assert_eq!(p.cpu_time_ratio(info()), 0);
    assert_eq!(p.read_speed(), Some(0));
    assert_eq!(p.write_speed(), Some(0));
    assert_eq!(p.gpu_usage(), 0);
    assert_eq!(p.enc_usage(), 0);
    assert_eq!(p.dec_usage(), 0);
}

/// Unsupported I/O counters stay `None` through the sentinel state.
#[test]
fn unsupported_io_counters_are_none() {
    let p = Process::from_process_data(base_sample(8));
    assert_eq!(p.read_bytes_last, None);
    assert_eq!(p.write_bytes_last, None);
    assert_eq!(p.read_speed(), None);
    assert_eq!(p.write_speed(), None);
}

/// 200 CPU ticks over one second on a 100 Hz, 4-CPU machine is half the
/// machine: 500 000 parts per million.
#[test]
fn cpu_ratio_exact_value() {
    let mut d = base_sample(9);
    d.user_cpu_time = 150;
    d.system_cpu_time = 70;
    d.timestamp = 11_000;
    let mut p = Process::from_process_data(d);
    p.cpu_time_last = 20;
    p.timestamp_last = 10_000;
    assert_eq!(p.cpu_time_ratio(info()), 500_000);
}

/// A CPU counter that appears to decrease (pid reuse) clamps to a zero
/// delta instead of wrapping: the ratio stays finite and non-negative.
#[test]
fn cpu_ratio_counter_reset_clamps() {
    let mut d = base_sample(10);
    d.user_cpu_time = 3;
    d.system_cpu_time = 4;
    d.timestamp = 12_000;
    let mut p = Process::from_process_data(d);
    p.cpu_time_last = 1_000_000;
    p.timestamp_last = 10_000;
    assert_eq!(p.cpu_time_ratio(info()), 0);
}

/// A timestamp that did not advance degenerates to the zero default
/// rather than a division by zero.
#[test]
fn cpu_ratio_zero_interval_defaults() {
    let mut d = base_sample(11);
    d.user_cpu_time = 50;
    d.timestamp = 10_000;
    let mut p = Process::from_process_data(d);
    p.cpu_time_last = 10;
    p.timestamp_last = 10_000;
    assert_eq!(p.cpu_time_ratio(info()), 0);
}

/// 4096 bytes over two seconds is 2048 bytes per second.
#[test]
fn read_write_speed_exact_value() {
    let mut d = base_sample(12);
    d.read_bytes = Some(10_000);
    d.write_bytes = Some(20_000);
    d.timestamp = 12_000;
    let mut p = Process::from_process_data(d);
    p.read_bytes_last = Some(10_000 - 4096);
    p.write_bytes_last = Some(20_000 - 8192);
    p.timestamp_last = 10_000;
    assert_eq!(p.read_speed(), Some(2048));
    assert_eq!(p.write_speed(), Some(4096));
}

/// An I/O counter that appears to decrease clamps to zero speed.
#[test]
fn io_speed_counter_reset_clamps() {
    let mut d = base_sample(13);
    d.read_bytes = Some(5);
    d.timestamp = 12_000;
    let mut p = Process::from_process_data(d);
    p.read_bytes_last = Some(999_999);
    p.timestamp_last = 10_000;
    assert_eq!(p.read_speed(), Some(0));
}

/// Percent-based GPU counters report the raw percentage, scaled to parts
/// per million; tick-based ones report the delta over the interval.
#[test]
fn gpu_usage_percent_and_ticks() {
    let mut d = base_sample(14);
    d.timestamp = 11_000;
    // 50 % vendor-reported, and a tick-based GPU busy half the second.
    d.gpu_usage_stats = vec![
        gpu(1, 50, 0, 0, 0, true),
        gpu(2, 1_500_000_000, 0, 0, 0, false),
    ];
    let mut p = Process::from_process_data(d);
    p.timestamp_last = 10_000;
    p.gpu_usage_stats_last = vec![
        gpu(1, 40, 0, 0, 0, true),
        gpu(2, 1_000_000_000, 0, 0, 0, false),
    ];
    // The per-process figure is the maximum across GPUs: 500 000 ppm each.
    assert_eq!(p.gpu_usage(), 500_000);
}

/// A GPU absent from the previous sample contributes nothing, and a
/// tick counter whose previous value was zero is treated as idle.
#[test]
fn gpu_usage_skips_unseen_and_zero_baseline() {
    let mut d = base_sample(15);
    d.timestamp = 11_000;
    d.gpu_usage_stats = vec![
        gpu(1, 90, 0, 0, 0, true),
        gpu(2, 700_000_000, 0, 0, 0, false),
    ];
    let mut p = Process::from_process_data(d);
    p.timestamp_last = 10_000;
    // GPU 1 was never seen before; GPU 2 had a zero baseline.
    p.gpu_usage_stats_last = vec![gpu(2, 0, 0, 0, 0, false)];
    assert_eq!(p.gpu_usage(), 0);
}

/// Encode and decode engines are derived like the graphics engine.
#[test]
fn enc_dec_usage_exact_values() {
    let mut d = base_sample(16);
    d.timestamp = 11_000;
    d.gpu_usage_stats = vec![gpu(3, 0, 250_000_000, 125_000_000, 0, false)];
    let mut p = Process::from_process_data(d);
    p.timestamp_last = 10_000;
    p.gpu_usage_stats_last = vec![gpu(3, 0, 50_000_000, 25_000_000, 0, false)];
    assert_eq!(p.enc_usage(), 200_000);
    assert_eq!(p.dec_usage(), 100_000);
}

/// GPU memory is an instantaneous sum over all GPUs, no delta.
#[test]
fn gpu_mem_usage_sums() {
    let mut d = base_sample(17);
    d.gpu_usage_stats = vec![
        gpu(1, 0, 0, 0, 256 * 1024 * 1024, true),
        gpu(2, 0, 0, 0, 64 * 1024 * 1024, false),
    ];
    let p = Process::from_process_data(d);
    assert_eq!(p.gpu_mem_usage(), 320 * 1024 * 1024);
}

/// Start time converts boot ticks to milliseconds at the host tick rate.
#[test]
fn starttime_milliseconds() {
    let mut d = base_sample(18);
    d.starttime = 300;
    let p = Process::from_process_data(d);
    assert_eq!(p.starttime(info()), 3_000);
}
