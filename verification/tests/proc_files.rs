use std::collections::HashMap;

use process_watcher::parser::{
    parse_cpu_times, parse_proc_pid_stat_cpu_usage, parse_proc_pid_status, proc_stat_deltas,
    read_process_sample, CpuUsageCache, StatError, StatusFields,
};
use process_watcher::text::IntParseError;
use process_watcher::ProcessCpuTime;

const STATUS: &str = "Name:\tbash\nUmask:\t0022\nState:\tS (sleeping)\nVmPeak:\t   13000 kB\n\
VmSize:\t   12345 kB\nVmLck:\t       0 kB\nVmRSS:\t    2048 kB\nRssAnon:\t     100 kB\n\
RssFile:\t     200 kB\nRssShmem:\t      64 kB\nVmSwap:\t       0 kB\n";

fn stat_line(pid: i32, utime: u64, stime: u64) -> String {
    format!(
        "{} (bash) S 1 {} {} 34816 {} 4194304 1000 0 0 0 {} {} 0 0 20 0 1 0 100 12345 512",
        pid, pid, pid, pid, utime, stime
    )
}

#[test]
fn status_reads_the_three_memory_figures() {
    let r = parse_proc_pid_status(STATUS);
    assert_eq!(r, StatusFields { vm_size: 12345, vm_rss: Some(2048), rss_shem: 64 });
}

#[test]
fn status_stops_at_the_shared_memory_line() {
    let r = parse_proc_pid_status("RssShmem:\t5 kB\nVmSize:\t7 kB\nVmRSS:\t3 kB\n");
    assert_eq!(r, StatusFields { vm_size: 0, vm_rss: None, rss_shem: 5 });
}

#[test]
fn status_of_a_kernel_thread_has_no_memory() {
    let r = parse_proc_pid_status("Name:\tkthreadd\nState:\tS (sleeping)\nThreads:\t1\n");
    assert_eq!(r, StatusFields { vm_size: 0, vm_rss: None, rss_shem: 0 });
}

#[test]
fn status_ignores_figures_that_are_no_numbers() {
    let r = parse_proc_pid_status("VmSize:\tlots kB\nVmRSS:\n");
    assert_eq!(r, StatusFields { vm_size: 0, vm_rss: None, rss_shem: 0 });
}

#[test]
fn status_needs_the_key_at_the_start_of_the_line() {
    let r = parse_proc_pid_status(" VmSize:\t10 kB\nVmSizeX:\t11 kB\n");
    assert_eq!(r.vm_size, 0);
}

#[test]
fn status_keeps_the_last_value_of_a_repeated_key() {
    let r = parse_proc_pid_status("VmSize: 10 kB\r\nVmSize: 20 kB\r\n");
    assert_eq!(r.vm_size, 20);
}

#[test]
fn stat_first_reading_gives_nothing_and_is_recorded() {
    let mut cache = HashMap::new();
    let r = parse_proc_pid_stat_cpu_usage(42, &stat_line(42, 150, 30), &mut cache);
    assert_eq!(r, None);
    assert_eq!(cache.get(&42), Some(&ProcessCpuTime { user_time: 150, system_time: 30 }));
}

#[test]
fn stat_second_reading_gives_the_ticks_since_the_first() {
    let mut cache = HashMap::new();
    parse_proc_pid_stat_cpu_usage(42, &stat_line(42, 150, 30), &mut cache);
    let r = parse_proc_pid_stat_cpu_usage(42, &stat_line(42, 170, 35), &mut cache);
    assert_eq!(r, Some((20, 5)));
    assert_eq!(cache.get(&42), Some(&ProcessCpuTime { user_time: 170, system_time: 35 }));
}

#[test]
fn stat_counters_that_went_back_give_zero() {
    let mut cache = HashMap::new();
    parse_proc_pid_stat_cpu_usage(7, &stat_line(7, 150, 30), &mut cache);
    let r = parse_proc_pid_stat_cpu_usage(7, &stat_line(7, 100, 40), &mut cache);
    assert_eq!(r, Some((0, 10)));
}

#[test]
fn stat_keeps_processes_apart() {
    let mut cache = HashMap::new();
    parse_proc_pid_stat_cpu_usage(1, &stat_line(1, 10, 10), &mut cache);
    let r = parse_proc_pid_stat_cpu_usage(2, &stat_line(2, 50, 50), &mut cache);
    assert_eq!(r, None);
    assert_eq!(cache.len(), 2);
}

#[test]
fn stat_too_short_leaves_the_records_alone() {
    let mut cache = HashMap::new();
    cache.insert(3, ProcessCpuTime { user_time: 1, system_time: 1 });
    let r = parse_proc_pid_stat_cpu_usage(3, "3 (sh) S 1 2 3", &mut cache);
    assert_eq!(r, None);
    assert_eq!(cache.len(), 1);
    assert_eq!(cache.get(&3), Some(&ProcessCpuTime { user_time: 1, system_time: 1 }));
}

#[test]
fn stat_with_unreadable_times_leaves_the_records_alone() {
    let mut cache = HashMap::new();
    let r = parse_proc_pid_stat_cpu_usage(
        3,
        "3 (sh) S 1 2 3 4 5 6 7 8 9 10 x 12 13 14",
        &mut cache,
    );
    assert_eq!(r, None);
    assert!(cache.is_empty());
}

#[test]
fn cpu_times_of_a_full_line() {
    let c = parse_cpu_times("cpu0 10 20 30 40 50 60 70 80 90 100").unwrap();
    assert_eq!(c.cpu_name, "cpu0");
    assert_eq!(
        (c.user, c.nice, c.system, c.idle, c.iowait, c.irq, c.softirq, c.steal),
        (10, 20, 30, 40, 50, 60, 70, 80)
    );
}

#[test]
fn cpu_times_with_extra_spaces() {
    let c = parse_cpu_times("cpu  1 2 3 4 5 6 7 8").unwrap();
    assert_eq!(c.cpu_name, "cpu");
    assert_eq!(c.steal, 8);
}

#[test]
fn cpu_times_with_a_field_that_is_no_number() {
    assert_eq!(parse_cpu_times("cpu 1 x 3 4 5 6 7 8").unwrap_err(), IntParseError::InvalidDigit);
}

#[test]
fn cpu_times_with_a_field_too_large() {
    let r = parse_cpu_times("cpu 1 2 3 99999999999999999999 5 6 7 8");
    assert_eq!(r.unwrap_err(), IntParseError::PosOverflow);
}

#[test]
fn cpu_times_reports_the_first_bad_field() {
    let r = parse_cpu_times("cpu 1 2 - 99999999999999999999 5 6 7 8");
    assert_eq!(r.unwrap_err(), IntParseError::InvalidDigit);
}

fn deltas(contents: &str, cache: &mut CpuUsageCache) -> Result<Vec<(String, u64, u64)>, StatError> {
    proc_stat_deltas(contents, cache)
        .map(|v| v.into_iter().map(|d| (d.cpu_name, d.work_delta, d.total_delta)).collect())
}

#[test]
fn stat_file_first_reading_gives_nothing() {
    let mut cache = CpuUsageCache::new();
    let r = deltas("cpu 10 0 10 80 0 0 0 0 0 0\ncpu0 10 0 10 80 0 0 0 0\nintr 1 2 3\n", &mut cache);
    assert_eq!(r, Ok(vec![]));
}

#[test]
fn stat_file_second_reading_counts_from_zero() {
    let mut cache = CpuUsageCache::new();
    deltas("cpu 10 0 10 80 0 0 0 0\n", &mut cache).unwrap();
    let r = deltas("cpu 30 0 20 140 10 0 0 0\n", &mut cache);
    assert_eq!(r, Ok(vec![("cpu".to_string(), 50, 200)]));
}

#[test]
fn stat_file_later_readings_give_the_ticks_in_between() {
    let mut cache = CpuUsageCache::new();
    deltas("cpu 10 0 10 80 0 0 0 0\ncpu0 5 0 5 40 0 0 0 0\n", &mut cache).unwrap();
    deltas("cpu 30 0 20 140 10 0 0 0\ncpu0 15 0 10 70 5 0 0 0\n", &mut cache).unwrap();
    let r = deltas("cpu 40 0 20 180 10 0 0 0\ncpu0 20 0 10 90 5 0 0 0\n", &mut cache);
    assert_eq!(r, Ok(vec![("cpu".to_string(), 10, 50), ("cpu0".to_string(), 5, 25)]));
}

#[test]
fn stat_file_stops_at_the_first_other_line() {
    let mut cache = CpuUsageCache::new();
    deltas("cpu 1 1 1 1 1 1 1 1\nintr 5\ncpu1 1 1 1 1 1 1 1 1\n", &mut cache).unwrap();
    let r = deltas("cpu 2 2 2 2 2 2 2 2\nintr 5\ncpu1 9 9 9 9 9 9 9 9\n", &mut cache);
    assert_eq!(r, Ok(vec![("cpu".to_string(), 12, 16)]));
}

#[test]
fn stat_file_skips_a_line_with_a_bad_number() {
    let mut cache = CpuUsageCache::new();
    let r = deltas("cpu x 1 1 1 1 1 1 1\ncpu0 1 1 1 1 1 1 1 1\n", &mut cache);
    assert_eq!(r, Ok(vec![]));
    let r = deltas("cpu 1 1 1 1 1 1 1 1\ncpu0 2 1 1 1 1 1 1 1\n", &mut cache);
    assert_eq!(r, Ok(vec![("cpu0".to_string(), 7, 9)]));
}

#[test]
fn stat_file_with_a_short_cpu_line() {
    let mut cache = CpuUsageCache::new();
    assert_eq!(deltas("cpu 1 2 3\n", &mut cache), Err(StatError::MissingField));
}

#[test]
fn stat_file_with_counters_going_back() {
    let mut cache = CpuUsageCache::new();
    deltas("cpu 10 0 10 80 0 0 0 0\n", &mut cache).unwrap();
    deltas("cpu 30 0 20 140 10 0 0 0\n", &mut cache).unwrap();
    assert_eq!(deltas("cpu 1 0 1 1 0 0 0 0\n", &mut cache), Err(StatError::Overflow));
}

#[test]
fn stat_file_with_a_total_too_large() {
    let mut cache = CpuUsageCache::new();
    let max = u64::MAX;
    let line = format!("cpu {} {} 0 0 0 0 0 0\n", max, max);
    assert_eq!(deltas(&line, &mut cache), Err(StatError::Overflow));
}

#[test]
fn sample_of_a_kernel_thread_is_left_out() {
    let mut cache = HashMap::new();
    let r = read_process_sample(2, &stat_line(2, 1, 1), "Name:\tkthreadd\n", &mut cache);
    assert_eq!(r, None);
    assert!(cache.is_empty());
}

#[test]
fn sample_of_a_process_reads_memory_and_ticks() {
    let mut cache = HashMap::new();
    let first = read_process_sample(42, &stat_line(42, 150, 30), STATUS, &mut cache).unwrap();
    assert_eq!(first.status.vm_size, 12345);
    assert_eq!(first.cpu_ticks, None);
    let second = read_process_sample(42, &stat_line(42, 160, 31), STATUS, &mut cache).unwrap();
    assert_eq!(second.cpu_ticks, Some((10, 1)));
    assert_eq!(second.status, StatusFields { vm_size: 12345, vm_rss: Some(2048), rss_shem: 64 });
}

#[test]
fn stat_file_remembers_a_cpu_missing_from_one_reading() {
    let mut cache = CpuUsageCache::new();
    deltas("cpu 1 0 1 8 0 0 0 0\ncpu0 1 0 1 8 0 0 0 0\n", &mut cache).unwrap();
    deltas("cpu 2 0 2 16 0 0 0 0\ncpu0 2 0 2 16 0 0 0 0\n", &mut cache).unwrap();
    deltas("cpu 3 0 3 24 0 0 0 0\n", &mut cache).unwrap();
    let r = deltas("cpu 4 0 4 32 0 0 0 0\ncpu0 4 0 4 32 0 0 0 0\n", &mut cache);
    assert_eq!(r, Ok(vec![("cpu".to_string(), 2, 10), ("cpu0".to_string(), 4, 20)]));
}
