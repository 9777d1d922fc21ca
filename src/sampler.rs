use vstd::prelude::*;

use crate::models::{
    DisksInfo, Percent, Process, RawCpu, RawDisk, RawNetwork, RawProcess, RawSample, Snapshot,
};

verus! {

/// `part / whole` in hundredths of a percent, rounded to the nearest
/// hundredth (halves up); `0` when `whole` is `0`, so no reading can make
/// the monitor divide by zero.
pub open spec fn hundredths_of(part: int, whole: int) -> int {
    if whole == 0 {
        0
    } else {
        (part * 20000 + whole) / (2 * whole)
    }
}

/// A non-negative quantity clamped to what a `u64` holds.
pub open spec fn saturate(x: int) -> u64 {
    if x > u64::MAX {
        u64::MAX
    } else {
        x as u64
    }
}

/// A non-negative quantity clamped to what a `u32` holds.
pub open spec fn saturate_u32(x: int) -> u32 {
    if x > u32::MAX {
        u32::MAX
    } else {
        x as u32
    }
}

/// The sum of a sequence of integers.
pub open spec fn sum(s: Seq<int>) -> int
    decreases s.len(),
{
    if s.len() == 0 {
        0
    } else {
        sum(s.drop_last()) + s.last()
    }
}

/// Bytes in use on one disk; a provider that reports more free space than
/// total space counts as an empty disk.
pub open spec fn used_space(d: RawDisk) -> int {
    if d.available_space > d.total_space {
        0
    } else {
        d.total_space - d.available_space
    }
}

pub open spec fn total_spaces(d: Seq<RawDisk>) -> Seq<int> {
    d.map_values(|x: RawDisk| x.total_space as int)
}

pub open spec fn used_spaces(d: Seq<RawDisk>) -> Seq<int> {
    d.map_values(|x: RawDisk| used_space(x))
}

pub open spec fn transmitted(n: Seq<RawNetwork>) -> Seq<int> {
    n.map_values(|x: RawNetwork| x.total_transmitted as int)
}

pub open spec fn received(n: Seq<RawNetwork>) -> Seq<int> {
    n.map_values(|x: RawNetwork| x.total_received as int)
}

/// How one disk is shown.
pub open spec fn disk_info_of(d: RawDisk) -> DisksInfo {
    DisksInfo {
        name: d.name,
        kind: d.kind,
        mount: d.mount,
        total_disk: d.total_space,
        free_disk: d.available_space,
        used_disk_percent: Percent {
            hundredths: saturate(hundredths_of(used_space(d), d.total_space as int)),
        },
    }
}

proof fn lemma_sum_push(s: Seq<int>, x: int)
    ensures
        sum(s.push(x)) == sum(s) + x,
{
    assert(s.push(x).drop_last() =~= s);
}

proof fn lemma_sum_nonneg(s: Seq<int>)
    requires
        forall|i: int| 0 <= i < s.len() ==> s[i] >= 0,
    ensures
        sum(s) >= 0,
    decreases s.len(),
{
    if s.len() > 0 {
        lemma_sum_nonneg(s.drop_last());
    }
}

/// One step of a saturating running total: the clamped total of a longer
/// prefix follows from the clamped total of the shorter one.
proof fn lemma_saturating_step(s: Seq<int>, x: u64, acc: u64)
    requires
        forall|i: int| 0 <= i < s.len() ==> s[i] >= 0,
        acc == saturate(sum(s)),
    ensures
        acc.saturating_add(x) == saturate(sum(s.push(x as int))),
{
    lemma_sum_push(s, x as int);
    lemma_sum_nonneg(s);
}

/// `part / whole` as a percentage, in hundredths, rounded to the nearest
/// hundredth and clamped.
pub fn percent_of(part: u64, whole: u64) -> (r: Percent)
    ensures
        r.hundredths == saturate(hundredths_of(part as int, whole as int)),
{
    if whole == 0 {
        return Percent::zero();
    }
    proof {
        assert(part as int * 20000 <= u64::MAX as int * 20000) by (nonlinear_arith);
    }
    let scaled: u128 = (part as u128) * 20000 + whole as u128;
    let q: u128 = scaled / (2 * whole as u128);
    if q > u64::MAX as u128 {
        Percent { hundredths: u64::MAX }
    } else {
        Percent { hundredths: q as u64 }
    }
}

/// Used and total bytes over all disks, each total clamped to `u64`.
pub fn calculate_disk_usage(disks: &Vec<RawDisk>) -> (r: (u64, u64))
    ensures
        r.0 == saturate(sum(used_spaces(disks@))),
        r.1 == saturate(sum(total_spaces(disks@))),
{
    let mut used: u64 = 0;
    let mut total: u64 = 0;
    let mut i: usize = 0;
    while i < disks.len()
        invariant
            i <= disks.len(),
            used == saturate(sum(used_spaces(disks@.take(i as int)))),
            total == saturate(sum(total_spaces(disks@.take(i as int)))),
        decreases disks.len() - i,
    {
        let d = &disks[i];
        let u = d.total_space.saturating_sub(d.available_space);
        proof {
            let pre = disks@.take(i as int);
            let next = disks@.take(i + 1);
            assert(used_spaces(next) =~= used_spaces(pre).push(u as int));
            assert(total_spaces(next) =~= total_spaces(pre).push(d.total_space as int));
            lemma_saturating_step(used_spaces(pre), u, used);
            lemma_saturating_step(total_spaces(pre), d.total_space, total);
        }
        used = used.saturating_add(u);
        total = total.saturating_add(d.total_space);
        i = i + 1;
    }
    assert(disks@.take(disks.len() as int) =~= disks@);
    (used, total)
}

/// Bytes sent and received over all interfaces, each total clamped to `u64`.
pub fn network_totals(networks: &Vec<RawNetwork>) -> (r: (u64, u64))
    ensures
        r.0 == saturate(sum(transmitted(networks@))),
        r.1 == saturate(sum(received(networks@))),
{
    let mut sent: u64 = 0;
    let mut got: u64 = 0;
    let mut i: usize = 0;
    while i < networks.len()
        invariant
            i <= networks.len(),
            sent == saturate(sum(transmitted(networks@.take(i as int)))),
            got == saturate(sum(received(networks@.take(i as int)))),
        decreases networks.len() - i,
    {
        let n = networks[i];
        proof {
            let pre = networks@.take(i as int);
            let next = networks@.take(i + 1);
            assert(transmitted(next) =~= transmitted(pre).push(n.total_transmitted as int));
            assert(received(next) =~= received(pre).push(n.total_received as int));
            lemma_saturating_step(transmitted(pre), n.total_transmitted, sent);
            lemma_saturating_step(received(pre), n.total_received, got);
        }
        sent = sent.saturating_add(n.total_transmitted);
        got = got.saturating_add(n.total_received);
        i = i + 1;
    }
    assert(networks@.take(networks.len() as int) =~= networks@);
    (sent, got)
}

/// How one disk is shown: its counters and the share of it in use.
pub fn disk_info(d: &RawDisk) -> (r: DisksInfo)
    ensures
        r == disk_info_of(*d),
{
    let used = d.total_space.saturating_sub(d.available_space);
    DisksInfo {
        name: d.name.clone(),
        kind: d.kind.clone(),
        mount: d.mount.clone(),
        total_disk: d.total_space,
        free_disk: d.available_space,
        used_disk_percent: percent_of(used, d.total_space),
    }
}

/// How every disk is shown, in the provider's order.
pub fn disk_infos(disks: &Vec<RawDisk>) -> (r: Vec<DisksInfo>)
    ensures
        r@ == disks@.map_values(|d: RawDisk| disk_info_of(d)),
{
    let mut out: Vec<DisksInfo> = Vec::new();
    let mut i: usize = 0;
    while i < disks.len()
        invariant
            i <= disks.len(),
            out@ == disks@.take(i as int).map_values(|d: RawDisk| disk_info_of(d)),
        decreases disks.len() - i,
    {
        out.push(disk_info(&disks[i]));
        assert(disks@.take(i + 1).map_values(|d: RawDisk| disk_info_of(d))
            =~= disks@.take(i as int).map_values(|d: RawDisk| disk_info_of(d)).push(disk_info_of(disks@[i as int])));
        i = i + 1;
    }
    assert(disks@.take(disks.len() as int) =~= disks@);
    out
}

/// A process is listed in the first snapshot only if its memory is at
/// least this fraction of the total: one part in ten thousand, 0.01%.
pub const MIN_LISTED_MEMORY_DIVISOR: u64 = 10000;

/// Whether a process holds enough of the total memory to be listed in the
/// first snapshot. With a total of `0` nothing is listed.
pub open spec fn listed_at_startup(p: RawProcess, total_memory: u64) -> bool {
    total_memory > 0 && p.memory * MIN_LISTED_MEMORY_DIVISOR >= total_memory
}

pub open spec fn memory_key(p: Process) -> u64 {
    p.memory_usage_percent.hundredths
}

/// How one process is shown: the provider's CPU share as reported, and its
/// memory as a share of the sample's total memory.
pub open spec fn process_row_of(p: RawProcess, total_memory: u64) -> Process {
    Process {
        id: p.pid,
        name: p.name,
        cpu_usage_percent: p.cpu_usage,
        memory_usage_percent: Percent {
            hundredths: saturate(hundredths_of(p.memory as int, total_memory as int)),
        },
    }
}

pub open spec fn process_rows_of(p: Seq<RawProcess>, total_memory: u64) -> Seq<Process> {
    p.map_values(|x: RawProcess| process_row_of(x, total_memory))
}

/// The processes of `s`, in order, whose memory share is at least `k`.
pub open spec fn at_least(s: Seq<Process>, k: u64) -> Seq<Process>
    decreases s.len(),
{
    if s.len() == 0 {
        s
    } else if memory_key(s.last()) >= k {
        at_least(s.drop_last(), k).push(s.last())
    } else {
        at_least(s.drop_last(), k)
    }
}

/// The processes of `s`, in order, whose memory share is below `k`.
pub open spec fn below(s: Seq<Process>, k: u64) -> Seq<Process>
    decreases s.len(),
{
    if s.len() == 0 {
        s
    } else if memory_key(s.last()) < k {
        below(s.drop_last(), k).push(s.last())
    } else {
        below(s.drop_last(), k)
    }
}

/// Places `p` after every process of `s` with at least its memory share and
/// before every one with less. On a list already in descending order this is
/// insertion behind all equal keys.
pub open spec fn insert_by_memory(s: Seq<Process>, p: Process) -> Seq<Process> {
    at_least(s, memory_key(p)).push(p) + below(s, memory_key(p))
}

/// Stable sort by descending memory share: processes with equal shares keep
/// the provider's order.
pub open spec fn sort_by_memory(s: Seq<Process>) -> Seq<Process>
    decreases s.len(),
{
    if s.len() == 0 {
        s
    } else {
        insert_by_memory(sort_by_memory(s.drop_last()), s.last())
    }
}

/// In descending order of memory share.
pub open spec fn memory_sorted(s: Seq<Process>) -> bool {
    forall|i: int, j: int| 0 <= i < j < s.len() ==> memory_key(s[i]) >= memory_key(s[j])
}

/// How processes are listed in the first snapshot: a process's CPU share is
/// kept only once the warm-up showed global CPU time moving, and processes
/// with a negligible memory share are left out.
pub open spec fn initial_row_of(p: RawProcess, total_memory: u64, cpu_settled: bool) -> Process {
    let row = process_row_of(p, total_memory);
    Process {
        cpu_usage_percent: if cpu_settled {
            p.cpu_usage
        } else {
            Percent { hundredths: 0 }
        },
        ..row
    }
}

/// The rows of the processes listed in the first snapshot, in the
/// provider's order.
pub open spec fn initial_rows_of(p: Seq<RawProcess>, total_memory: u64, cpu_settled: bool) -> Seq<
    Process,
>
    decreases p.len(),
{
    if p.len() == 0 {
        Seq::empty()
    } else if listed_at_startup(p.last(), total_memory) {
        initial_rows_of(p.drop_last(), total_memory, cpu_settled).push(
            initial_row_of(p.last(), total_memory, cpu_settled),
        )
    } else {
        initial_rows_of(p.drop_last(), total_memory, cpu_settled)
    }
}

pub open spec fn core_row_of(c: RawCpu) -> (String, Percent) {
    (c.name, c.usage)
}

/// How one process is shown.
pub fn process_row(p: &RawProcess, total_memory: u64) -> (r: Process)
    ensures
        r == process_row_of(*p, total_memory),
{
    Process {
        id: p.pid,
        name: p.name.clone(),
        cpu_usage_percent: p.cpu_usage,
        memory_usage_percent: percent_of(p.memory, total_memory),
    }
}

/// Every process as shown, in the provider's order.
pub fn process_rows(procs: &Vec<RawProcess>, total_memory: u64) -> (r: Vec<Process>)
    ensures
        r@ == process_rows_of(procs@, total_memory),
{
    let mut out: Vec<Process> = Vec::new();
    let mut i: usize = 0;
    while i < procs.len()
        invariant
            i <= procs.len(),
            out@ == process_rows_of(procs@.take(i as int), total_memory),
        decreases procs.len() - i,
    {
        out.push(process_row(&procs[i], total_memory));
        assert(process_rows_of(procs@.take(i + 1), total_memory) =~= process_rows_of(
            procs@.take(i as int),
            total_memory,
        ).push(process_row_of(procs@[i as int], total_memory)));
        i = i + 1;
    }
    assert(procs@.take(procs.len() as int) =~= procs@);
    out
}

/// The processes listed in the first snapshot, in the provider's order.
pub fn initial_process_rows(procs: &Vec<RawProcess>, total_memory: u64, cpu_settled: bool) -> (r:
    Vec<Process>)
    ensures
        r@ == initial_rows_of(procs@, total_memory, cpu_settled),
{
    let mut out: Vec<Process> = Vec::new();
    let mut i: usize = 0;
    while i < procs.len()
        invariant
            i <= procs.len(),
            out@ == initial_rows_of(procs@.take(i as int), total_memory, cpu_settled),
        decreases procs.len() - i,
    {
        let p = &procs[i];
        let row = Process {
            id: p.pid,
            name: p.name.clone(),
            cpu_usage_percent: if cpu_settled {
                p.cpu_usage
            } else {
                Percent::zero()
            },
            memory_usage_percent: percent_of(p.memory, total_memory),
        };
        assert(row == initial_row_of(procs@[i as int], total_memory, cpu_settled));
        assert(procs@.take(i + 1).drop_last() =~= procs@.take(i as int));
        proof {
            assert(p.memory as int * 10000 <= u64::MAX as int * 10000) by (nonlinear_arith);
        }
        if total_memory > 0 && (p.memory as u128) * (MIN_LISTED_MEMORY_DIVISOR as u128)
            >= total_memory as u128 {
            out.push(row);
        }
        i = i + 1;
    }
    assert(procs@.take(procs.len() as int) =~= procs@);
    out
}

/// Each logical processor's label and usage, in the provider's order.
pub fn core_rows(cpus: &Vec<RawCpu>) -> (r: Vec<(String, Percent)>)
    ensures
        r@ == cpus@.map_values(|c: RawCpu| core_row_of(c)),
{
    let mut out: Vec<(String, Percent)> = Vec::new();
    let mut i: usize = 0;
    while i < cpus.len()
        invariant
            i <= cpus.len(),
            out@ == cpus@.take(i as int).map_values(|c: RawCpu| core_row_of(c)),
        decreases cpus.len() - i,
    {
        let c = &cpus[i];
        out.push((c.name.clone(), c.usage));
        assert(cpus@.take(i + 1).map_values(|c: RawCpu| core_row_of(c)) =~= cpus@.take(
            i as int,
        ).map_values(|c: RawCpu| core_row_of(c)).push(core_row_of(cpus@[i as int])));
        i = i + 1;
    }
    assert(cpus@.take(cpus.len() as int) =~= cpus@);
    out
}

/// Moves `p` into the descending list `sorted`, behind every process with at
/// least its memory share.
fn insert_process(sorted: Vec<Process>, p: Process) -> (r: Vec<Process>)
    ensures
        r@ == insert_by_memory(sorted@, p),
{
    let key = p.memory_usage_percent.hundredths;
    let mut rest = sorted;
    let ghost orig = rest@;
    let mut high: Vec<Process> = Vec::new();
    let mut low: Vec<Process> = Vec::new();
    while rest.len() > 0
        invariant
            rest@.len() <= orig.len(),
            rest@ == orig.skip(orig.len() - rest@.len()),
            high@ == at_least(orig.take(orig.len() - rest@.len()), key),
            low@ == below(orig.take(orig.len() - rest@.len()), key),
        decreases rest.len(),
    {
        let ghost done = orig.len() - rest@.len();
        assert(rest@[0] == orig[done]);
        let q = rest.remove(0);
        proof {
            assert(orig.take(done + 1).drop_last() =~= orig.take(done));
            assert(orig.take(done + 1).last() == q);
            assert(rest@ =~= orig.skip(done + 1));
        }
        if q.memory_usage_percent.hundredths >= key {
            high.push(q);
        } else {
            low.push(q);
        }
    }
    assert(orig.take(orig.len() as int) =~= orig);
    high.push(p);
    high.append(&mut low);
    high
}

/// Processes in descending order of memory share; equal shares keep their
/// order.
pub fn sort_processes_by_memory(procs: Vec<Process>) -> (r: Vec<Process>)
    ensures
        r@ == sort_by_memory(procs@),
{
    let mut rest = procs;
    let ghost orig = rest@;
    let mut sorted: Vec<Process> = Vec::new();
    while rest.len() > 0
        invariant
            rest@.len() <= orig.len(),
            rest@ == orig.skip(orig.len() - rest@.len()),
            sorted@ == sort_by_memory(orig.take(orig.len() - rest@.len())),
        decreases rest.len(),
    {
        let ghost done = orig.len() - rest@.len();
        assert(rest@[0] == orig[done]);
        let q = rest.remove(0);
        proof {
            assert(orig.take(done + 1).drop_last() =~= orig.take(done));
            assert(orig.take(done + 1).last() == q);
            assert(rest@ =~= orig.skip(done + 1));
        }
        sorted = insert_process(sorted, q);
    }
    assert(orig.take(orig.len() as int) =~= orig);
    sorted
}

/// The physical core count as shown: `0` when the provider cannot tell.
pub open spec fn physical_cores_of(c: Option<usize>) -> u32 {
    match c {
        Some(n) => saturate_u32(n as int),
        None => 0,
    }
}

/// Everything in `s` but the process list is drawn from `raw`.
pub open spec fn readings_of(s: Snapshot, raw: RawSample) -> bool {
    &&& s.system_base_info == raw.base_info
    &&& s.cpu_usage == raw.global_cpu_usage
    &&& s.no_of_processes == saturate_u32(raw.processes@.len() as int)
    &&& s.physical_cores == physical_cores_of(raw.physical_core_count)
    &&& s.logical_processors == saturate_u32(raw.cpus@.len() as int)
    &&& s.processors_info@ == raw.cpus@.map_values(|c: RawCpu| core_row_of(c))
    &&& s.memory_usage == (raw.used_memory, raw.total_memory)
    &&& s.swap_memory_usage == (raw.used_swap, raw.total_swap)
    &&& s.disk_usage == (saturate(sum(used_spaces(raw.disks@))), saturate(sum(total_spaces(raw.disks@))))
    &&& s.disks_info@ == raw.disks@.map_values(|d: RawDisk| disk_info_of(d))
    &&& s.network_sent == saturate(sum(transmitted(raw.networks@)))
    &&& s.network_received == saturate(sum(received(raw.networks@)))
}

/// `s` is what a display tick makes of `raw`: every process listed, in
/// descending order of memory share.
pub open spec fn is_sample_of(s: Snapshot, raw: RawSample) -> bool {
    &&& readings_of(s, raw)
    &&& s.processes@ == sort_by_memory(process_rows_of(raw.processes@, raw.total_memory))
}

/// `s` is the startup snapshot of `raw`, where `cpu_settled` tells whether the
/// warm-up saw global CPU usage rise.
pub open spec fn is_initial_sample_of(s: Snapshot, raw: RawSample, cpu_settled: bool) -> bool {
    &&& readings_of(s, raw)
    &&& s.processes@ == initial_rows_of(raw.processes@, raw.total_memory, cpu_settled)
}

/// Two snapshots hold the same values.
pub open spec fn same_readings(a: Snapshot, b: Snapshot) -> bool {
    &&& a.system_base_info == b.system_base_info
    &&& a.cpu_usage == b.cpu_usage
    &&& a.no_of_processes == b.no_of_processes
    &&& a.physical_cores == b.physical_cores
    &&& a.logical_processors == b.logical_processors
    &&& a.processors_info@ == b.processors_info@
    &&& a.memory_usage == b.memory_usage
    &&& a.swap_memory_usage == b.swap_memory_usage
    &&& a.disk_usage == b.disk_usage
    &&& a.disks_info@ == b.disks_info@
    &&& a.network_sent == b.network_sent
    &&& a.network_received == b.network_received
    &&& a.processes@ == b.processes@
}

fn count_u32(n: usize) -> (r: u32)
    ensures
        r == saturate_u32(n as int),
{
    if n > u32::MAX as usize {
        u32::MAX
    } else {
        n as u32
    }
}

/// Fills in everything but the process list.
fn snapshot_with(raw: RawSample, processes: Vec<Process>) -> (r: Snapshot)
    ensures
        readings_of(r, raw),
        r.processes == processes,
{
    let physical_cores = match raw.physical_core_count {
        Some(n) => count_u32(n),
        None => 0,
    };
    let disk_usage = calculate_disk_usage(&raw.disks);
    let (network_sent, network_received) = network_totals(&raw.networks);
    Snapshot {
        cpu_usage: raw.global_cpu_usage,
        no_of_processes: count_u32(raw.processes.len()),
        physical_cores,
        logical_processors: count_u32(raw.cpus.len()),
        processors_info: core_rows(&raw.cpus),
        memory_usage: (raw.used_memory, raw.total_memory),
        swap_memory_usage: (raw.used_swap, raw.total_swap),
        disk_usage,
        disks_info: disk_infos(&raw.disks),
        network_sent,
        network_received,
        processes,
        system_base_info: raw.base_info,
    }
}

/// The snapshot a display tick makes of one provider reading.
pub fn take_sample(raw: RawSample) -> (r: Snapshot)
    ensures
        is_sample_of(r, raw),
{
    let rows = process_rows(&raw.processes, raw.total_memory);
    let processes = sort_processes_by_memory(rows);
    snapshot_with(raw, processes)
}

/// The startup snapshot: `settled_cpu` is the global CPU usage read again
/// after the warm-up pause; per-process CPU shares are kept only if it rose
/// above the first reading.
pub fn take_initial_sample(raw: RawSample, settled_cpu: Percent) -> (r: Snapshot)
    ensures
        is_initial_sample_of(r, raw, settled_cpu.hundredths > raw.global_cpu_usage.hundredths),
{
    let cpu_settled = settled_cpu.hundredths > raw.global_cpu_usage.hundredths;
    let processes = initial_process_rows(&raw.processes, raw.total_memory, cpu_settled);
    snapshot_with(raw, processes)
}

proof fn lemma_at_least_from(s: Seq<Process>, k: u64)
    ensures
        forall|i: int| 0 <= i < at_least(s, k).len() ==> s.contains(#[trigger] at_least(s, k)[i]),
    decreases s.len(),
{
    if s.len() > 0 {
        let t = s.drop_last();
        lemma_at_least_from(t, k);
        assert forall|i: int| 0 <= i < at_least(s, k).len() implies s.contains(
            #[trigger] at_least(s, k)[i],
        ) by {
            if i < at_least(t, k).len() {
                let j = choose|j: int| 0 <= j < t.len() && t[j] == at_least(t, k)[i];
                assert(s[j] == t[j]);
            } else {
                assert(s[s.len() - 1] == s.last());
            }
        }
    }
}

proof fn lemma_below_from(s: Seq<Process>, k: u64)
    ensures
        forall|i: int| 0 <= i < below(s, k).len() ==> s.contains(#[trigger] below(s, k)[i]),
    decreases s.len(),
{
    if s.len() > 0 {
        let t = s.drop_last();
        lemma_below_from(t, k);
        assert forall|i: int| 0 <= i < below(s, k).len() implies s.contains(
            #[trigger] below(s, k)[i],
        ) by {
            if i < below(t, k).len() {
                let j = choose|j: int| 0 <= j < t.len() && t[j] == below(t, k)[i];
                assert(s[j] == t[j]);
            } else {
                assert(s[s.len() - 1] == s.last());
            }
        }
    }
}

/// Sorting only reorders: every listed process comes from the input.
pub proof fn lemma_sort_keeps_processes(s: Seq<Process>)
    ensures
        forall|i: int|
            0 <= i < sort_by_memory(s).len() ==> s.contains(#[trigger] sort_by_memory(s)[i]),
    decreases s.len(),
{
    if s.len() > 0 {
        let t = s.drop_last();
        let p = s.last();
        let st = sort_by_memory(t);
        lemma_sort_keeps_processes(t);
        lemma_at_least_from(st, memory_key(p));
        lemma_below_from(st, memory_key(p));
        let hi = at_least(st, memory_key(p));
        let lo = below(st, memory_key(p));
        assert forall|i: int| 0 <= i < sort_by_memory(s).len() implies s.contains(
            #[trigger] sort_by_memory(s)[i],
        ) by {
            let x = sort_by_memory(s)[i];
            if i < hi.len() {
                assert(x == hi[i]);
                assert(st.contains(x));
            } else if i == hi.len() {
                assert(x == p);
                assert(s[s.len() - 1] == p);
            } else {
                assert(x == lo[i - hi.len() - 1]);
                assert(st.contains(x));
            }
            if st.contains(x) {
                let j = choose|j: int| 0 <= j < st.len() && st[j] == x;
                assert(t.contains(st[j]));
                let m = choose|m: int| 0 <= m < t.len() && t[m] == x;
                assert(s[m] == t[m]);
            }
        }
    }
}

/// The processes of `s`, in order, whose memory share is exactly `k`.
pub open spec fn with_key(s: Seq<Process>, k: u64) -> Seq<Process>
    decreases s.len(),
{
    if s.len() == 0 {
        s
    } else if memory_key(s.last()) == k {
        with_key(s.drop_last(), k).push(s.last())
    } else {
        with_key(s.drop_last(), k)
    }
}

proof fn lemma_with_key_concat(a: Seq<Process>, b: Seq<Process>, k: u64)
    ensures
        with_key(a + b, k) == with_key(a, k) + with_key(b, k),
    decreases b.len(),
{
    if b.len() == 0 {
        assert(a + b =~= a);
        assert(with_key(a, k) + with_key(b, k) =~= with_key(a, k));
    } else {
        assert((a + b).drop_last() =~= a + b.drop_last());
        lemma_with_key_concat(a, b.drop_last(), k);
        if memory_key(b.last()) == k {
            assert(with_key(a, k) + with_key(b.drop_last(), k).push(b.last()) =~= (with_key(a, k)
                + with_key(b.drop_last(), k)).push(b.last()));
        }
    }
}

proof fn lemma_with_key_none(s: Seq<Process>, k: u64)
    requires
        forall|i: int| 0 <= i < s.len() ==> memory_key(#[trigger] s[i]) != k,
    ensures
        with_key(s, k).len() == 0,
    decreases s.len(),
{
    if s.len() > 0 {
        lemma_with_key_none(s.drop_last(), k);
    }
}

proof fn lemma_with_key_at_least(s: Seq<Process>, bound: u64, k: u64)
    ensures
        k >= bound ==> with_key(at_least(s, bound), k) == with_key(s, k),
        k < bound ==> with_key(below(s, bound), k) == with_key(s, k),
    decreases s.len(),
{
    if s.len() > 0 {
        let t = s.drop_last();
        let x = s.last();
        lemma_with_key_at_least(t, bound, k);
        assert(at_least(t, bound).push(x).drop_last() =~= at_least(t, bound));
        assert(below(t, bound).push(x).drop_last() =~= below(t, bound));
    }
}

proof fn lemma_at_least_keys(s: Seq<Process>, k: u64)
    ensures
        forall|i: int| 0 <= i < at_least(s, k).len() ==> memory_key(#[trigger] at_least(s, k)[i]) >= k,
        forall|i: int| 0 <= i < below(s, k).len() ==> memory_key(#[trigger] below(s, k)[i]) < k,
    decreases s.len(),
{
    if s.len() > 0 {
        let t = s.drop_last();
        lemma_at_least_keys(t, k);
        let hi = at_least(s, k);
        let lo = below(s, k);
        assert forall|i: int| 0 <= i < hi.len() implies memory_key(#[trigger] hi[i]) >= k by {
            if i < at_least(t, k).len() {
                assert(hi[i] == at_least(t, k)[i]);
            }
        }
        assert forall|i: int| 0 <= i < lo.len() implies memory_key(#[trigger] lo[i]) < k by {
            if i < below(t, k).len() {
                assert(lo[i] == below(t, k)[i]);
            }
        }
    }
}

proof fn lemma_parts_sorted(s: Seq<Process>, k: u64)
    requires
        memory_sorted(s),
    ensures
        memory_sorted(at_least(s, k)),
        memory_sorted(below(s, k)),
    decreases s.len(),
{
    if s.len() > 0 {
        let t = s.drop_last();
        assert(memory_sorted(t));
        lemma_parts_sorted(t, k);
        lemma_at_least_from(t, k);
        lemma_below_from(t, k);
        let x = s.last();
        assert forall|i: int| 0 <= i < t.len() implies memory_key(#[trigger] t[i]) >= memory_key(
            x,
        ) by {
            assert(s[i] == t[i]);
            assert(s[s.len() - 1] == x);
        }
        let hi = at_least(t, k);
        let lo = below(t, k);
        assert forall|i: int| 0 <= i < hi.len() implies memory_key(#[trigger] hi[i]) >= memory_key(
            x,
        ) by {
            assert(t.contains(hi[i]));
        }
        assert forall|i: int| 0 <= i < lo.len() implies memory_key(#[trigger] lo[i]) >= memory_key(
            x,
        ) by {
            assert(t.contains(lo[i]));
        }
    }
}

/// The order that `sort_by_memory` produces: descending memory shares, and
/// for each share the very processes of the input with that share, in their
/// input order. Together these say that it is the stable sort of its input.
pub proof fn lemma_sort_by_memory_is_stable_sort(s: Seq<Process>)
    ensures
        memory_sorted(sort_by_memory(s)),
        forall|k: u64| #[trigger] with_key(sort_by_memory(s), k) == with_key(s, k),
    decreases s.len(),
{
    if s.len() > 0 {
        let t = s.drop_last();
        let p = s.last();
        let kp = memory_key(p);
        let st = sort_by_memory(t);
        lemma_sort_by_memory_is_stable_sort(t);
        lemma_parts_sorted(st, kp);
        lemma_at_least_keys(st, kp);
        let hi = at_least(st, kp);
        let lo = below(st, kp);
        let r = sort_by_memory(s);
        assert(r == hi.push(p) + lo);
        assert forall|i: int, j: int| 0 <= i < j < r.len() implies memory_key(r[i]) >= memory_key(
            r[j],
        ) by {
            if j < hi.len() {
                assert(r[i] == hi[i] && r[j] == hi[j]);
            } else if j == hi.len() {
                assert(r[i] == hi[i]);
            } else if i < hi.len() {
                assert(r[i] == hi[i] && r[j] == lo[j - hi.len() - 1]);
            } else if i == hi.len() {
                assert(r[j] == lo[j - hi.len() - 1]);
            } else {
                assert(r[i] == lo[i - hi.len() - 1] && r[j] == lo[j - hi.len() - 1]);
            }
        }
        assert forall|k: u64| #[trigger] with_key(r, k) == with_key(s, k) by {
            lemma_with_key_concat(hi.push(p), lo, k);
            assert(hi.push(p).drop_last() =~= hi);
            lemma_with_key_at_least(st, kp, k);
            assert(with_key(st, k) == with_key(t, k));
            if k >= kp {
                lemma_with_key_none(lo, k);
                assert(with_key(hi.push(p), k) + with_key(lo, k) =~= with_key(hi.push(p), k));
            } else {
                assert forall|i: int| 0 <= i < hi.len() implies memory_key(#[trigger] hi[i]) != k by {}
                lemma_with_key_none(hi, k);
                assert(with_key(hi, k) + with_key(lo, k) =~= with_key(lo, k));
            }
        }
    }
}

proof fn lemma_parts_len(s: Seq<Process>, k: u64)
    ensures
        at_least(s, k).len() + below(s, k).len() == s.len(),
    decreases s.len(),
{
    if s.len() > 0 {
        lemma_parts_len(s.drop_last(), k);
    }
}

/// Sorting lists every process exactly as often as the input does, so the
/// list keeps its length.
pub proof fn lemma_sort_keeps_length(s: Seq<Process>)
    ensures
        sort_by_memory(s).len() == s.len(),
    decreases s.len(),
{
    if s.len() > 0 {
        lemma_sort_keeps_length(s.drop_last());
        lemma_parts_len(sort_by_memory(s.drop_last()), memory_key(s.last()));
    }
}

/// With a total of zero the shares short-circuit to zero instead of
/// dividing by it: every process of a sample whose total memory is `0`, and
/// every disk whose total space is `0`, shows a share of `0`.
pub proof fn lemma_zero_totals_give_zero_shares(s: Snapshot, raw: RawSample)
    requires
        is_sample_of(s, raw),
    ensures
        raw.total_memory == 0 ==> forall|i: int|
            0 <= i < s.processes@.len() ==> (#[trigger] s.processes@[i]).memory_usage_percent.hundredths
                == 0,
        forall|i: int|
            0 <= i < raw.disks@.len() && (#[trigger] raw.disks@[i]).total_space == 0
                ==> s.disks_info@[i].used_disk_percent.hundredths == 0,
{
    let rows = process_rows_of(raw.processes@, raw.total_memory);
    lemma_sort_keeps_processes(rows);
    if raw.total_memory == 0 {
        assert forall|i: int| 0 <= i < s.processes@.len() implies (
        #[trigger] s.processes@[i]).memory_usage_percent.hundredths == 0 by {
            assert(rows.contains(sort_by_memory(rows)[i]));
        }
    }
}

} // verus!
