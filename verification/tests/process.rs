use api::process::{parse_boot_time, parse_stat, parse_status, sample, USER_HZ};

const STAT: &str = "4242 (api) S 1 4242 4242 0 -1 4194560 12345 0 3 0 250 125 0 0 20 0 17 0 \
                    2892562 3358720 418";

const STATUS: &str = "Name:\tapi\nThreads:\t17\nVmSize:\t 1263796 kB\nVmHWM:\t    9000 kB\n\
                      VmRSS:\t    7648 kB\n";

fn seconds(ticks: u64) -> f64 {
    ticks as f64 / USER_HZ as f64
}

#[test]
fn stat_converts_ticks_to_seconds() {
    let stat = parse_stat(STAT).unwrap();
    assert_eq!(seconds(stat.cpu_user_ticks), 2.5);
    assert_eq!(seconds(stat.cpu_system_ticks), 1.25);
}

#[test]
fn stat_reads_threads_and_start_time() {
    let stat = parse_stat(STAT).unwrap();
    assert_eq!(stat.threads as f64, 17.0);
    assert_eq!(stat.start_time_ticks as f64, 2_892_562.0);
}

#[test]
fn stat_survives_a_process_name_with_spaces_and_parens() {
    let raw = STAT.replace("(api)", "(we ird (name))");
    let stat = parse_stat(&raw).unwrap();
    assert_eq!(seconds(stat.cpu_user_ticks), 2.5);
    assert_eq!(stat.threads as f64, 17.0);
}

#[test]
fn stat_rejects_a_truncated_line() {
    assert!(parse_stat("4242 (api) S 1 4242").is_none());
    assert!(parse_stat("nonsense without a paren").is_none());
}

#[test]
fn status_converts_kilobytes_to_bytes() {
    let status = parse_status(STATUS).unwrap();
    assert_eq!(status.resident_bytes as f64, 7648.0 * 1024.0);
    assert_eq!(status.resident_peak_bytes as f64, 9000.0 * 1024.0);
    assert_eq!(status.virtual_bytes as f64, 1_263_796.0 * 1024.0);
}

#[test]
fn status_rejects_a_missing_field() {
    assert!(parse_status("Name:\tapi\nVmSize:\t 100 kB\n").is_none());
}

#[test]
fn boot_time_is_read_from_its_line() {
    let raw = "cpu  1 2 3\nbtime 1751587200\nprocesses 99\n";
    assert_eq!(parse_boot_time(raw).map(|t| t as f64), Some(1_751_587_200.0));
}

#[test]
fn boot_time_rejects_a_file_without_btime() {
    assert!(parse_boot_time("cpu  1 2 3\nprocesses 99\n").is_none());
}

#[test]
fn a_sample_needs_both_files() {
    assert!(sample(STAT, STATUS).is_some());
    assert!(sample(STAT, "Name:\tapi\n").is_none());
    assert!(sample("no paren", STATUS).is_none());
}

#[test]
fn a_field_with_a_leading_plus_reads_as_its_number() {
    let raw = "cpu  1 2 3\nbtime +1751587200\n";
    assert_eq!(parse_boot_time(raw), Some(1_751_587_200));
    assert!(parse_boot_time("btime +\n").is_none());
    assert!(parse_boot_time("btime 1.5\n").is_none());
}
