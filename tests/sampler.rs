use system_monitor::models::{
    Percent, Process, RawCpu, RawDisk, RawNetwork, RawProcess, RawSample, SystemBaseInfo,
};
use system_monitor::sampler::{
    calculate_disk_usage, core_rows, disk_info, disk_infos, initial_process_rows,
    network_totals, percent_of, process_rows, sort_processes_by_memory, take_initial_sample,
    take_sample,
};

fn pct(h: u64) -> Percent {
    Percent { hundredths: h }
}

fn disk(name: &str, total: u64, free: u64) -> RawDisk {
    RawDisk {
        name: name.to_string(),
        kind: "SSD".to_string(),
        mount: format!("/mnt/{}", name),
        total_space: total,
        available_space: free,
    }
}

fn raw_proc(pid: u32, name: &str, cpu: u64, memory: u64) -> RawProcess {
    RawProcess { pid, name: name.to_string(), cpu_usage: pct(cpu), memory }
}

fn row(id: u32, mem: u64) -> Process {
    Process {
        id,
        name: format!("p{}", id),
        cpu_usage_percent: pct(0),
        memory_usage_percent: pct(mem),
    }
}

fn base() -> SystemBaseInfo {
    SystemBaseInfo {
        system_name: "Linux".to_string(),
        kernal_version: "6.1".to_string(),
        os_version: "12".to_string(),
        host_name: "box".to_string(),
    }
}

fn sample(processes: Vec<RawProcess>) -> RawSample {
    RawSample {
        global_cpu_usage: pct(2500),
        cpus: vec![
            RawCpu { name: "cpu0".to_string(), usage: pct(1000) },
            RawCpu { name: "cpu1".to_string(), usage: pct(4000) },
        ],
        physical_core_count: Some(1),
        total_memory: 1000,
        used_memory: 400,
        total_swap: 200,
        used_swap: 50,
        disks: vec![disk("a", 1000, 250), disk("b", 3000, 3000)],
        networks: vec![
            RawNetwork { total_transmitted: 10, total_received: 20 },
            RawNetwork { total_transmitted: 5, total_received: 7 },
        ],
        processes,
        base_info: base(),
    }
}

#[test]
fn percent_of_rounds_down_in_hundredths() {
    assert_eq!(percent_of(1, 3).hundredths, 3333);
    assert_eq!(percent_of(3, 4).hundredths, 7500);
    assert_eq!(percent_of(4, 4).hundredths, 10000);
}

#[test]
fn percent_of_rounds_to_nearest_hundredth() {
    assert_eq!(percent_of(2, 3).hundredths, 6667);
    assert_eq!(percent_of(1, 20000).hundredths, 1);
    assert_eq!(percent_of(1, 20001).hundredths, 0);
    assert_eq!(percent_of(1, 7).hundredths, 1429);
}

#[test]
fn disk_share_rounds_to_nearest() {
    let d = disk_info(&disk("sdb", 3, 1));
    assert_eq!(d.used_disk_percent.hundredths, 6667);
}

#[test]
fn startup_filter_uses_raw_memory() {
    let procs = vec![raw_proc(1, "half", 0, 1), raw_proc(2, "exact", 0, 2), raw_proc(3, "none", 0, 0)];
    let rows = initial_process_rows(&procs, 20000, true);
    let ids: Vec<u32> = rows.iter().map(|p| p.id).collect();
    assert_eq!(ids, vec![2]);
    assert_eq!(rows[0].memory_usage_percent.hundredths, 1);
    assert!(initial_process_rows(&procs, 0, true).is_empty());
}

#[test]
fn percent_of_zero_whole_is_zero() {
    assert_eq!(percent_of(5, 0).hundredths, 0);
    assert_eq!(percent_of(0, 0).hundredths, 0);
}

#[test]
fn percent_of_clamps_huge_ratio() {
    assert_eq!(percent_of(u64::MAX, 1).hundredths, u64::MAX);
    assert_eq!(percent_of(3, 1).hundredths, 30000);
}

#[test]
fn disk_usage_sums_used_and_total() {
    let disks = vec![disk("a", 1000, 250), disk("b", 3000, 1000)];
    assert_eq!(calculate_disk_usage(&disks), (2750, 4000));
    assert_eq!(calculate_disk_usage(&Vec::new()), (0, 0));
}

#[test]
fn disk_usage_tolerates_free_above_total_and_saturates() {
    let disks = vec![disk("a", 100, 500), disk("b", u64::MAX, 0), disk("c", 10, 0)];
    assert_eq!(calculate_disk_usage(&disks), (u64::MAX, u64::MAX));
    let odd = vec![disk("a", 100, 500)];
    assert_eq!(calculate_disk_usage(&odd), (0, 100));
}

#[test]
fn disk_info_used_share() {
    let d = disk_info(&disk("sda", 1000, 250));
    assert_eq!(d.name, "sda");
    assert_eq!(d.kind, "SSD");
    assert_eq!(d.mount, "/mnt/sda");
    assert_eq!(d.total_disk, 1000);
    assert_eq!(d.free_disk, 250);
    assert_eq!(d.used_disk_percent.hundredths, 7500);
}

#[test]
fn zero_sized_disks_show_zero_percent() {
    let disks = vec![disk("a", 0, 0), disk("b", 0, 10), disk("c", 0, 0)];
    let infos = disk_infos(&disks);
    assert_eq!(infos.len(), 3);
    for info in &infos {
        assert_eq!(info.used_disk_percent.hundredths, 0);
    }
    assert_eq!(calculate_disk_usage(&disks), (0, 0));
}

#[test]
fn network_totals_sum_each_direction() {
    let nets = vec![
        RawNetwork { total_transmitted: 10, total_received: 20 },
        RawNetwork { total_transmitted: 5, total_received: u64::MAX },
    ];
    assert_eq!(network_totals(&nets), (15, u64::MAX));
}

#[test]
fn process_rows_compute_memory_share_locally() {
    let rows = process_rows(&vec![raw_proc(7, "init", 123, 250), raw_proc(9, "sh", 5, 1)], 1000);
    assert_eq!(rows.len(), 2);
    assert_eq!(rows[0].id, 7);
    assert_eq!(rows[0].name, "init");
    assert_eq!(rows[0].cpu_usage_percent.hundredths, 123);
    assert_eq!(rows[0].memory_usage_percent.hundredths, 2500);
    assert_eq!(rows[1].memory_usage_percent.hundredths, 10);
}

#[test]
fn zero_total_memory_gives_zero_process_shares() {
    let s = take_sample(RawSample { total_memory: 0, ..sample(vec![raw_proc(1, "a", 0, 500)]) });
    assert_eq!(s.processes.len(), 1);
    assert_eq!(s.processes[0].memory_usage_percent.hundredths, 0);
}

#[test]
fn sort_is_descending_and_stable() {
    let sorted = sort_processes_by_memory(vec![row(1, 10), row(2, 50), row(3, 10), row(4, 70), row(5, 50)]);
    let ids: Vec<u32> = sorted.iter().map(|p| p.id).collect();
    assert_eq!(ids, vec![4, 2, 5, 1, 3]);
    assert!(sort_processes_by_memory(Vec::new()).is_empty());
}

#[test]
fn initial_rows_filter_small_and_gate_cpu() {
    let procs = vec![raw_proc(1, "big", 900, 500), raw_proc(2, "tiny", 300, 0), raw_proc(3, "small", 100, 1)];
    let settled = initial_process_rows(&procs, 10000, true);
    let ids: Vec<u32> = settled.iter().map(|p| p.id).collect();
    assert_eq!(ids, vec![1, 3]);
    assert_eq!(settled[0].cpu_usage_percent.hundredths, 900);
    assert_eq!(settled[1].memory_usage_percent.hundredths, 1);
    let unsettled = initial_process_rows(&procs, 10000, false);
    assert_eq!(unsettled.len(), 2);
    assert_eq!(unsettled[0].cpu_usage_percent.hundredths, 0);
    assert_eq!(unsettled[1].cpu_usage_percent.hundredths, 0);
}

#[test]
fn core_rows_keep_order() {
    let rows = core_rows(&vec![
        RawCpu { name: "cpu0".to_string(), usage: pct(1) },
        RawCpu { name: "cpu1".to_string(), usage: pct(2) },
    ]);
    assert_eq!(rows, vec![("cpu0".to_string(), pct(1)), ("cpu1".to_string(), pct(2))]);
}

#[test]
fn take_sample_fills_every_field() {
    let s = take_sample(sample(vec![raw_proc(1, "a", 0, 100), raw_proc(2, "b", 0, 300)]));
    assert_eq!(s.system_base_info.host_name, "box");
    assert_eq!(s.cpu_usage.hundredths, 2500);
    assert_eq!(s.no_of_processes, 2);
    assert_eq!(s.physical_cores, 1);
    assert_eq!(s.logical_processors, 2);
    assert_eq!(s.processors_info.len(), 2);
    assert_eq!(s.memory_usage, (400, 1000));
    assert_eq!(s.swap_memory_usage, (50, 200));
    assert_eq!(s.disk_usage, (750, 4000));
    assert_eq!(s.disks_info.len(), 2);
    assert_eq!(s.disks_info[1].used_disk_percent.hundredths, 0);
    assert_eq!(s.network_sent, 15);
    assert_eq!(s.network_received, 27);
    let ids: Vec<u32> = s.processes.iter().map(|p| p.id).collect();
    assert_eq!(ids, vec![2, 1]);
}

#[test]
fn missing_core_count_reads_as_zero() {
    let s = take_sample(RawSample { physical_core_count: None, ..sample(Vec::new()) });
    assert_eq!(s.physical_cores, 0);
    assert_eq!(s.no_of_processes, 0);
}

#[test]
fn initial_sample_keeps_provider_order_and_filters() {
    let procs = vec![raw_proc(1, "a", 50, 0), raw_proc(2, "b", 60, 100), raw_proc(3, "c", 70, 300)];
    let s = take_initial_sample(sample(procs), pct(3000));
    let ids: Vec<u32> = s.processes.iter().map(|p| p.id).collect();
    assert_eq!(ids, vec![2, 3]);
    assert_eq!(s.no_of_processes, 3);
    assert_eq!(s.processes[0].cpu_usage_percent.hundredths, 60);
    let flat = take_initial_sample(sample(vec![raw_proc(2, "b", 60, 100)]), pct(2500));
    assert_eq!(flat.processes[0].cpu_usage_percent.hundredths, 0);
}
