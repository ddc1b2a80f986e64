use lx_monitor::cpu::{cpu_freq_mhz, cpu_usage_delta, cpu_usage_deltas, parse_proc_stat, CpuStat, UsageDelta};

fn stat(v: [u64; 8]) -> CpuStat {
    CpuStat {
        user: v[0],
        nice: v[1],
        system: v[2],
        idle: v[3],
        iowait: v[4],
        irq: v[5],
        softirq: v[6],
        steal: v[7],
    }
}

#[test]
fn proc_stat_reads_per_cpu_lines() {
    let content = "cpu  10 20 30 40 50 60 70 80 0 0\ncpu0 1 2 3 4 5 6 7 8 0 0\ncpu1 9 x 3\nintr 5\n";
    let stats = parse_proc_stat(content);
    assert_eq!(stats.len(), 2);
    assert_eq!(stats[0], stat([1, 2, 3, 4, 5, 6, 7, 8]));
    assert_eq!(stats[1], stat([9, 0, 3, 0, 0, 0, 0, 0]));
}

#[test]
fn proc_stat_handles_crlf_tabs_and_missing_newline() {
    let content = "cpu0\t+7  8\r\ncpu12 18446744073709551615 18446744073709551616";
    let stats = parse_proc_stat(content);
    assert_eq!(stats.len(), 2);
    assert_eq!(stats[0], stat([7, 8, 0, 0, 0, 0, 0, 0]));
    assert_eq!(stats[1], stat([u64::MAX, 0, 0, 0, 0, 0, 0, 0]));
}

#[test]
fn proc_stat_skips_lines_that_are_not_per_cpu() {
    assert!(parse_proc_stat("").is_empty());
    assert!(parse_proc_stat("cpu 1 2 3\ncpux 1\ncp0 1\n cpu0 1\nCPU0 1\n").is_empty());
    assert_eq!(parse_proc_stat("cpu7").len(), 1);
    assert_eq!(parse_proc_stat("cpu7")[0], stat([0; 8]));
}

#[test]
fn totals_of_a_sample() {
    let s = stat([1, 2, 3, 4, 5, 6, 7, 8]);
    assert_eq!(s.total(), 36);
    assert_eq!(s.idle_total(), 9);
    assert!(s.idle_total() <= s.total());
    assert!(s.total_fits());
    assert!(!stat([u64::MAX, 1, 0, 0, 0, 0, 0, 0]).total_fits());
}

#[test]
fn usage_between_two_samples() {
    let prev = stat([100, 0, 50, 800, 50, 0, 0, 0]);
    let curr = stat([160, 0, 70, 900, 70, 0, 0, 0]);
    let d = cpu_usage_delta(&prev, &curr);
    assert_eq!(d, UsageDelta { busy: 80, total: 200 });
    assert!(d.busy <= d.total);
}

#[test]
fn usage_saturates_when_counters_go_back() {
    let prev = stat([100, 0, 0, 100, 0, 0, 0, 0]);
    let curr = stat([10, 0, 0, 10, 0, 0, 0, 0]);
    assert_eq!(cpu_usage_delta(&prev, &curr), UsageDelta { busy: 0, total: 0 });
    let prev = stat([0, 0, 0, 100, 0, 0, 0, 0]);
    let curr = stat([50, 0, 0, 60, 0, 0, 0, 0]);
    assert_eq!(cpu_usage_delta(&prev, &curr), UsageDelta { busy: 10, total: 10 });
}

#[test]
fn usage_pairs_cpus_by_position() {
    let prev = vec![stat([0; 8]), stat([0; 8])];
    let curr = vec![stat([1, 0, 0, 1, 0, 0, 0, 0])];
    let d = cpu_usage_deltas(&prev, &curr);
    assert_eq!(d, vec![UsageDelta { busy: 1, total: 2 }]);
}

#[test]
fn frequency_in_mhz() {
    assert_eq!(cpu_freq_mhz("3600000\n"), Some(3600));
    assert_eq!(cpu_freq_mhz("  999 "), Some(0));
    assert_eq!(cpu_freq_mhz("abc"), None);
    assert_eq!(cpu_freq_mhz(""), None);
    assert_eq!(cpu_freq_mhz("-5"), None);
}
