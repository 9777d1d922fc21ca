use system_monitor::display::{base_info_line, percent_text, shorten_name};
use system_monitor::models::{Message, Percent, RawSample, SystemBaseInfo, SystemMonitor};

#[test]
fn percent_text_has_two_decimals() {
    assert_eq!(percent_text(Percent { hundredths: 1234 }), "12.34%");
    assert_eq!(percent_text(Percent { hundredths: 5 }), "0.05%");
    assert_eq!(percent_text(Percent { hundredths: 0 }), "0.00%");
    assert_eq!(percent_text(Percent { hundredths: 10000 }), "100.00%");
    assert_eq!(percent_text(system_monitor::sampler::percent_of(2, 3)), "66.67%");
}

#[test]
fn long_names_are_shortened() {
    let long = "x".repeat(41);
    assert_eq!(shorten_name(&long), "x".repeat(38));
    let edge = "y".repeat(40);
    assert_eq!(shorten_name(&edge), edge);
    assert_eq!(shorten_name("bash"), "bash");
}

#[test]
fn names_are_measured_and_cut_in_bytes() {
    let split = format!("{}é{}", "a".repeat(37), "abc");
    assert_eq!(shorten_name(&split), "a".repeat(37));
    let two_byte = "é".repeat(21);
    assert_eq!(shorten_name(&two_byte), "é".repeat(19));
    let short_wide = "é".repeat(20);
    assert_eq!(shorten_name(&short_wide), short_wide);
}

#[test]
fn base_info_banner() {
    let info = SystemBaseInfo {
        system_name: "Linux".to_string(),
        kernal_version: "6.1".to_string(),
        os_version: "12".to_string(),
        host_name: "box".to_string(),
    };
    assert_eq!(
        base_info_line(&info),
        "System Name: Linux | OS Version: 12 | Kernel Version: 6.1 | Host: box"
    );
}

#[test]
fn monitoring_button_label_follows_state() {
    let raw = RawSample {
        global_cpu_usage: Percent { hundredths: 0 },
        cpus: Vec::new(),
        physical_core_count: None,
        total_memory: 0,
        used_memory: 0,
        total_swap: 0,
        used_swap: 0,
        disks: Vec::new(),
        networks: Vec::new(),
        processes: Vec::new(),
        base_info: SystemBaseInfo {
            system_name: String::new(),
            kernal_version: String::new(),
            os_version: String::new(),
            host_name: String::new(),
        },
    };
    let mut m = SystemMonitor::new(raw, Percent { hundredths: 0 });
    assert_eq!(m.monitoring_label(), "Start Monitoring");
    m.update(Message::ToggleMonitoring);
    assert_eq!(m.monitoring_label(), "Stop Monitoring");
}
