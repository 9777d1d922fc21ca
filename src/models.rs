use vstd::prelude::*;

verus! {

/// A percentage held as a whole number of hundredths of a percent
/// (`1234` is 12.34%). Values above 100% can occur when the provider's
/// counters race with each other.
#[derive(Clone, Copy, Debug, PartialEq, Eq, Structural)]
pub struct Percent {
    pub hundredths: u64,
}

impl Percent {
    pub fn zero() -> (r: Percent)
        ensures
            r.hundredths == 0,
    {
        Percent { hundredths: 0 }
    }
}

/// Display categories that the user can hide or show.
#[derive(Clone, Copy, Debug, PartialEq, Eq, Structural)]
pub enum Category {
    BaseInfo,
    Cpu,
    Memory,
    Disk,
    Network,
    Processes,
}

/// Events consumed by the monitor's transition function.
#[derive(Debug, Clone)]
pub enum Message {
    IntervalChanged(String),
    Tick,
    ToggleMonitoring,
    ToggleSaveToFile(bool),
    ToggleVisibility(Category, bool),
    LogToFile,
}

/// Basic host information.
#[derive(Debug, Clone)]
pub struct SystemBaseInfo {
    pub system_name: String,
    pub kernal_version: String,
    pub os_version: String,
    pub host_name: String,
}

/// One disk as shown to the user.
#[derive(Debug, Clone)]
pub struct DisksInfo {
    pub name: String,
    pub kind: String,
    pub mount: String,
    pub total_disk: u64,
    pub free_disk: u64,
    pub used_disk_percent: Percent,
}

/// One process as shown to the user.
#[derive(Debug, Clone)]
pub struct Process {
    pub id: u32,
    pub name: String,
    pub cpu_usage_percent: Percent,
    pub memory_usage_percent: Percent,
}

/// What the metrics provider reports for one logical processor.
#[derive(Debug, Clone)]
pub struct RawCpu {
    pub name: String,
    pub usage: Percent,
}

/// What the metrics provider reports for one disk.
#[derive(Debug, Clone)]
pub struct RawDisk {
    pub name: String,
    pub kind: String,
    pub mount: String,
    pub total_space: u64,
    pub available_space: u64,
}

/// Cumulative counters of one network interface.
#[derive(Debug, Clone, Copy)]
pub struct RawNetwork {
    pub total_transmitted: u64,
    pub total_received: u64,
}

/// What the metrics provider reports for one process.
#[derive(Debug, Clone)]
pub struct RawProcess {
    pub pid: u32,
    pub name: String,
    pub cpu_usage: Percent,
    pub memory: u64,
}

/// One refresh cycle of the metrics provider, as plain values.
#[derive(Debug, Clone)]
pub struct RawSample {
    pub global_cpu_usage: Percent,
    pub cpus: Vec<RawCpu>,
    pub physical_core_count: Option<usize>,
    pub total_memory: u64,
    pub used_memory: u64,
    pub total_swap: u64,
    pub used_swap: u64,
    pub disks: Vec<RawDisk>,
    pub networks: Vec<RawNetwork>,
    pub processes: Vec<RawProcess>,
    pub base_info: SystemBaseInfo,
}

/// One internally consistent reading of all monitored metrics.
#[derive(Debug)]
pub struct Snapshot {
    pub system_base_info: SystemBaseInfo,
    pub cpu_usage: Percent,
    pub no_of_processes: u32,
    pub physical_cores: u32,
    pub logical_processors: u32,
    pub processors_info: Vec<(String, Percent)>,
    pub memory_usage: (u64, u64),
    pub swap_memory_usage: (u64, u64),
    pub disk_usage: (u64, u64),
    pub disks_info: Vec<DisksInfo>,
    pub network_sent: u64,
    pub network_received: u64,
    pub processes: Vec<Process>,
}

/// Which display categories are shown.
#[derive(Clone, Copy, Debug, PartialEq, Eq, Structural)]
pub struct Visibility {
    pub base_info: bool,
    pub cpu: bool,
    pub memory: bool,
    pub disk: bool,
    pub network: bool,
    pub processes: bool,
}

/// The monitor's whole state: the current snapshot and the user's settings.
#[derive(Debug)]
pub struct SystemMonitor {
    pub snapshot: Snapshot,
    pub visibility: Visibility,
    pub is_monitoring: bool,
    pub save_to_file: bool,
    pub interval_in_secs: String,
}

} // verus!
