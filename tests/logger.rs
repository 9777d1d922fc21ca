use system_monitor::clock::{utc_now, Timestamp};
use system_monitor::logger::{frame_record, record_count, SystemData};
use system_monitor::models::{Percent, RawSample, SystemBaseInfo, SystemMonitor};
use system_monitor::sampler::take_sample;

fn reading() -> RawSample {
    RawSample {
        global_cpu_usage: Percent { hundredths: 1234 },
        cpus: Vec::new(),
        physical_core_count: None,
        total_memory: 8000,
        used_memory: 3000,
        total_swap: 100,
        used_swap: 10,
        disks: Vec::new(),
        networks: Vec::new(),
        processes: Vec::new(),
        base_info: SystemBaseInfo {
            system_name: String::new(),
            kernal_version: String::new(),
            os_version: String::new(),
            host_name: String::new(),
        },
    }
}

#[test]
fn record_copies_snapshot_figures() {
    let s = take_sample(reading());
    let r = SystemData::from_snapshot(&s, "2024-01-02 03:04:05".to_string());
    assert_eq!(r.timestamp, "2024-01-02 03:04:05");
    assert_eq!(r.cpu_usage_percent.hundredths, 1234);
    assert_eq!(r.memory_usage_byte, (3000, 8000));
    assert_eq!(r.swap_memory_usage_byte, (10, 100));
    assert_eq!(r.disk_usage_byte, (0, 0));
    assert_eq!(r.network_sent_byte, 0);
    assert_eq!(r.network_received_byte, 0);
}

#[test]
fn monitor_log_record_uses_current_snapshot() {
    let m = SystemMonitor::new(reading(), Percent { hundredths: 0 });
    let r = m.log_record("t".to_string());
    assert_eq!(r.timestamp, "t");
    assert_eq!(r.memory_usage_byte, (3000, 8000));
}

#[test]
fn frame_record_appends_newline() {
    assert_eq!(frame_record("{\"a\":1}"), Some("{\"a\":1}\n".to_string()));
    assert_eq!(frame_record(""), Some("\n".to_string()));
    assert_eq!(frame_record("a\nb"), None);
}

#[test]
fn each_append_adds_exactly_one_record() {
    let mut store = String::new();
    assert_eq!(record_count(&store), 0);
    let lines = ["{\"n\":1}", "{\"n\":2}", "{\"n\":3}"];
    for (i, line) in lines.iter().enumerate() {
        store.push_str(&frame_record(line).unwrap());
        assert_eq!(record_count(&store), i + 1);
        assert_eq!(store.lines().last(), Some(*line));
    }
    assert_eq!(store.lines().collect::<Vec<_>>(), lines.to_vec());
}

#[test]
fn record_count_ignores_unfinished_line() {
    assert_eq!(record_count("a\nb\nc"), 2);
    assert_eq!(record_count("\n\n"), 2);
}

#[test]
fn timestamp_text_is_zero_padded() {
    let t = Timestamp { year: 2024, month: 3, day: 5, hour: 7, minute: 8, second: 9 };
    assert_eq!(t.log_text(), "2024-03-05 07:08:09");
    let early = Timestamp { year: 42, month: 12, day: 31, hour: 23, minute: 59, second: 59 };
    assert_eq!(early.log_text(), "0042-12-31 23:59:59");
}

#[test]
fn timestamp_text_signs_years_outside_four_digits() {
    let late = Timestamp { year: 12345, month: 1, day: 1, hour: 0, minute: 0, second: 0 };
    assert_eq!(late.log_text(), "+12345-01-01 00:00:00");
    let bc = Timestamp { year: -5, month: 1, day: 1, hour: 0, minute: 0, second: 0 };
    assert_eq!(bc.log_text(), "-0005-01-01 00:00:00");
}

#[test]
fn utc_now_fields_in_range() {
    let t = utc_now().expect("the test machine's clock reads after 1970");
    assert!(t.year >= 2020);
    assert!((1..=12).contains(&t.month));
    assert!((1..=31).contains(&t.day));
    assert!(t.hour <= 23 && t.minute <= 59 && t.second <= 59);
    assert_eq!(t.log_text().len(), 19);
}

#[test]
fn record_now_stamps_current_snapshot() {
    let m = SystemMonitor::new(reading(), Percent { hundredths: 0 });
    let r = m.record_now().expect("the test machine's clock reads after 1970");
    assert_eq!(r.timestamp.len(), 19);
    assert_eq!(r.cpu_usage_percent.hundredths, 1234);
    assert_eq!(r.memory_usage_byte, (3000, 8000));
}
