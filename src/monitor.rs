use vstd::prelude::*;
use vstd::string::StrSliceExecFns;

use crate::models::{
    Category, Message, Percent, RawSample, Snapshot, SystemMonitor, Visibility,
};
use crate::sampler::{
    is_initial_sample_of, is_sample_of, lemma_sort_keeps_length, process_rows_of, same_readings,
    take_initial_sample, take_sample,
};

verus! {

/// What the surroundings must do after a message was applied.
#[derive(Clone, Copy, Debug, PartialEq, Eq, Structural)]
pub enum Action {
    /// Nothing.
    Idle,
    /// Read the metrics provider and hand the reading to `apply_sample`.
    Refresh,
    /// Append the current snapshot's log record to the log store.
    WriteLog,
}

/// Why the interval text gives no logging period.
#[derive(Clone, Copy, Debug, PartialEq, Eq, Structural)]
pub enum IntervalProblem {
    Empty,
    NotPositiveInteger,
}

/// Which periodic sources should be running.
#[derive(Clone, Copy, Debug, PartialEq, Eq, Structural)]
pub struct TickPlan {
    /// The display tick, once a second.
    pub display_tick: bool,
    /// The logging tick's period in seconds, when it runs.
    pub log_interval_secs: Option<u64>,
}

pub open spec fn is_digit(c: char) -> bool {
    '0' <= c <= '9'
}

pub open spec fn all_digits(s: Seq<char>) -> bool {
    forall|i: int| 0 <= i < s.len() ==> is_digit(#[trigger] s[i])
}

/// The number that a string of decimal digits denotes.
pub open spec fn decimal_value(s: Seq<char>) -> int
    decreases s.len(),
{
    if s.len() == 0 {
        0
    } else {
        decimal_value(s.drop_last()) * 10 + (s.last() as int - '0' as int)
    }
}

/// The text after an optional leading `+`.
pub open spec fn unsigned_part(s: Seq<char>) -> Seq<char> {
    if s.len() > 0 && s[0] == '+' {
        s.skip(1)
    } else {
        s
    }
}

/// The logging period, in seconds, that an interval text asks for: decimal
/// digits, optionally after a `+`, for a positive number that fits a `u64`.
/// Anything else, the empty text included, asks for none.
pub open spec fn interval_of(s: Seq<char>) -> Option<u64> {
    let d = unsigned_part(s);
    if d.len() > 0 && all_digits(d) && 0 < decimal_value(d) <= u64::MAX {
        Some(decimal_value(d) as u64)
    } else {
        None
    }
}

pub open spec fn all_shown() -> Visibility {
    Visibility {
        base_info: true,
        cpu: true,
        memory: true,
        disk: true,
        network: true,
        processes: true,
    }
}

/// Whether category `c` is shown.
pub open spec fn shown(v: Visibility, c: Category) -> bool {
    match c {
        Category::BaseInfo => v.base_info,
        Category::Cpu => v.cpu,
        Category::Memory => v.memory,
        Category::Disk => v.disk,
        Category::Network => v.network,
        Category::Processes => v.processes,
    }
}

pub open spec fn visibility_with(v: Visibility, c: Category, on: bool) -> Visibility {
    match c {
        Category::BaseInfo => Visibility { base_info: on, ..v },
        Category::Cpu => Visibility { cpu: on, ..v },
        Category::Memory => Visibility { memory: on, ..v },
        Category::Disk => Visibility { disk: on, ..v },
        Category::Network => Visibility { network: on, ..v },
        Category::Processes => Visibility { processes: on, ..v },
    }
}

/// The state after `msg`. No message touches the snapshot: only a reading
/// handed to `apply_sample` replaces it.
pub open spec fn after(m: SystemMonitor, msg: Message) -> SystemMonitor {
    match msg {
        Message::IntervalChanged(t) => SystemMonitor { interval_in_secs: t, ..m },
        Message::Tick => m,
        Message::ToggleMonitoring => SystemMonitor { is_monitoring: !m.is_monitoring, ..m },
        Message::ToggleSaveToFile(on) => SystemMonitor { save_to_file: on, ..m },
        Message::ToggleVisibility(c, on) => SystemMonitor {
            visibility: visibility_with(m.visibility, c, on),
            ..m
        },
        Message::LogToFile => m,
    }
}

/// What `msg` asks the surroundings to do: a display tick samples only while
/// monitoring, a logging tick writes only while logging is enabled.
pub open spec fn action_for(m: SystemMonitor, msg: Message) -> Action {
    match msg {
        Message::Tick => if m.is_monitoring {
            Action::Refresh
        } else {
            Action::Idle
        },
        Message::LogToFile => if m.save_to_file {
            Action::WriteLog
        } else {
            Action::Idle
        },
        _ => Action::Idle,
    }
}

/// The periodic sources that state `m` asks for.
pub open spec fn plan_of(m: SystemMonitor) -> TickPlan {
    TickPlan {
        display_tick: m.is_monitoring,
        log_interval_secs: if m.is_monitoring && m.save_to_file {
            interval_of(m.interval_in_secs@)
        } else {
            None
        },
    }
}

/// The user's settings, everything but the snapshot.
pub open spec fn same_settings(a: SystemMonitor, b: SystemMonitor) -> bool {
    &&& a.visibility == b.visibility
    &&& a.is_monitoring == b.is_monitoring
    &&& a.save_to_file == b.save_to_file
    &&& a.interval_in_secs == b.interval_in_secs
}

proof fn lemma_decimal_nonneg(s: Seq<char>)
    requires
        all_digits(s),
    ensures
        decimal_value(s) >= 0,
    decreases s.len(),
{
    if s.len() > 0 {
        lemma_decimal_nonneg(s.drop_last());
    }
}

/// Appending digits never makes the number smaller.
proof fn lemma_decimal_prefix(s: Seq<char>, k: int)
    requires
        all_digits(s),
        0 <= k <= s.len(),
    ensures
        decimal_value(s) >= decimal_value(s.take(k)),
    decreases s.len(),
{
    if k < s.len() {
        let t = s.drop_last();
        assert(t.take(k) =~= s.take(k));
        lemma_decimal_prefix(t, k);
        lemma_decimal_nonneg(t);
    } else {
        assert(s.take(k) =~= s);
    }
}

/// Reads a logging period from the interval text.
pub fn parse_interval(text: &str) -> (r: Option<u64>)
    ensures
        r == interval_of(text@),
{
    let n = text.unicode_len();
    let start: usize = if n > 0 && text.get_char(0) == '+' {
        1
    } else {
        0
    };
    let ghost d = unsigned_part(text@);
    assert(d =~= text@.skip(start as int));
    if start == n {
        return None;
    }
    let mut acc: u64 = 0;
    let mut i: usize = start;
    while i < n
        invariant
            start <= i <= n,
            n == text@.len(),
            d == text@.skip(start as int),
            d == unsigned_part(text@),
            all_digits(d.take(i - start)),
            acc == decimal_value(d.take(i - start)),
        decreases n - i,
    {
        let c = text.get_char(i);
        let ghost k = i - start;
        assert(d.take(k + 1).drop_last() =~= d.take(k));
        assert(d.take(k + 1).last() == c);
        assert(d[k] == c);
        if c < '0' || c > '9' {
            assert(!all_digits(d));
            return None;
        }
        let digit = (c as u32 - '0' as u32) as u64;
        let next = match acc.checked_mul(10) {
            Some(x) => x.checked_add(digit),
            None => None,
        };
        match next {
            Some(v) => {
                acc = v;
            },
            None => {
                proof {
                    assert(all_digits(d.take(k + 1)));
                    assert(decimal_value(d.take(k + 1)) == acc * 10 + digit);
                    assert(decimal_value(d.take(k + 1)) > u64::MAX);
                    if all_digits(d) {
                        lemma_decimal_prefix(d, k + 1);
                    }
                }
                return None;
            },
        }
        i = i + 1;
    }
    assert(d.take(n - start) =~= d);
    if acc == 0 {
        None
    } else {
        Some(acc)
    }
}

impl Visibility {
    /// Every category shown.
    pub fn all() -> (r: Visibility)
        ensures
            r == all_shown(),
    {
        Visibility {
            base_info: true,
            cpu: true,
            memory: true,
            disk: true,
            network: true,
            processes: true,
        }
    }

    /// Shows or hides one category.
    pub fn set(&mut self, c: Category, on: bool)
        ensures
            *final(self) == visibility_with(*old(self), c, on),
    {
        match c {
            Category::BaseInfo => self.base_info = on,
            Category::Cpu => self.cpu = on,
            Category::Memory => self.memory = on,
            Category::Disk => self.disk = on,
            Category::Network => self.network = on,
            Category::Processes => self.processes = on,
        }
    }

    /// Whether a category is shown.
    pub fn shows(&self, c: Category) -> (r: bool)
        ensures
            r == shown(*self, c),
    {
        match c {
            Category::BaseInfo => self.base_info,
            Category::Cpu => self.cpu,
            Category::Memory => self.memory,
            Category::Disk => self.disk,
            Category::Network => self.network,
            Category::Processes => self.processes,
        }
    }
}

impl SystemMonitor {
    /// The state at startup, built from the first provider reading and the
    /// global CPU usage read again after the warm-up pause. Monitoring and
    /// logging start off, every category is shown and the interval text is
    /// empty.
    pub fn new(raw: RawSample, settled_cpu: Percent) -> (r: SystemMonitor)
        ensures
            is_initial_sample_of(
                r.snapshot,
                raw,
                settled_cpu.hundredths > raw.global_cpu_usage.hundredths,
            ),
            r.visibility == all_shown(),
            !r.is_monitoring,
            !r.save_to_file,
            r.interval_in_secs@.len() == 0,
    {
        SystemMonitor {
            snapshot: take_initial_sample(raw, settled_cpu),
            visibility: Visibility::all(),
            is_monitoring: false,
            save_to_file: false,
            interval_in_secs: String::new(),
        }
    }

    /// The transition function: applies one message and says what the
    /// surroundings must do next.
    pub fn update(&mut self, message: Message) -> (r: Action)
        ensures
            *final(self) == after(*old(self), message),
            r == action_for(*old(self), message),
    {
        match message {
            Message::Tick => {
                if self.is_monitoring {
                    Action::Refresh
                } else {
                    Action::Idle
                }
            },
            Message::LogToFile => {
                if self.save_to_file {
                    Action::WriteLog
                } else {
                    Action::Idle
                }
            },
            Message::ToggleSaveToFile(on) => {
                self.save_to_file = on;
                Action::Idle
            },
            Message::ToggleMonitoring => {
                self.is_monitoring = !self.is_monitoring;
                Action::Idle
            },
            Message::ToggleVisibility(c, on) => {
                self.visibility.set(c, on);
                Action::Idle
            },
            Message::IntervalChanged(text) => {
                self.interval_in_secs = text;
                Action::Idle
            },
        }
    }

    /// Replaces the snapshot wholesale with what a display tick makes of a
    /// provider reading; the settings stay as they are.
    pub fn apply_sample(&mut self, raw: RawSample)
        ensures
            is_sample_of(final(self).snapshot, raw),
            same_settings(*final(self), *old(self)),
    {
        self.snapshot = take_sample(raw);
    }

    /// The periodic sources to run: the display tick while monitoring, and
    /// the logging tick while monitoring with logging enabled and an interval
    /// text that gives a period.
    pub fn subscription(&self) -> (r: TickPlan)
        ensures
            r == plan_of(*self),
    {
        let display_tick = self.is_monitoring;
        let log_interval_secs = if self.is_monitoring && self.save_to_file {
            parse_interval(self.interval_in_secs.as_str())
        } else {
            None
        };
        TickPlan { display_tick, log_interval_secs }
    }

    /// Why the interval text gives no logging period, if it gives none.
    pub fn interval_problem(&self) -> (r: Option<IntervalProblem>)
        ensures
            r == (if self.interval_in_secs@.len() == 0 {
                Some(IntervalProblem::Empty)
            } else if interval_of(self.interval_in_secs@) is None {
                Some(IntervalProblem::NotPositiveInteger)
            } else {
                None::<IntervalProblem>
            }),
    {
        let text = self.interval_in_secs.as_str();
        if text.unicode_len() == 0 {
            Some(IntervalProblem::Empty)
        } else if parse_interval(text).is_none() {
            Some(IntervalProblem::NotPositiveInteger)
        } else {
            None
        }
    }
}

/// Pausing and resuming keeps the last snapshot: no message changes it, a
/// display tick while paused asks for no sample, and toggling monitoring
/// off and back on restores the state exactly.
pub proof fn lemma_pause_resume_keeps_snapshot(m: SystemMonitor, msg: Message)
    ensures
        after(m, msg).snapshot == m.snapshot,
        after(after(m, Message::ToggleMonitoring), Message::ToggleMonitoring) == m,
        m.is_monitoring ==> action_for(after(m, Message::ToggleMonitoring), Message::Tick)
            == Action::Idle,
        !m.is_monitoring ==> action_for(m, Message::Tick) == Action::Idle,
{
}

/// Visibility is a pure presentation filter: changing a flag does not
/// change whether a display tick samples, and any two samples of one
/// provider reading hold the same values whatever the flags were.
pub proof fn lemma_visibility_leaves_samples_alone(
    m: SystemMonitor,
    c: Category,
    on: bool,
    raw: RawSample,
    a: Snapshot,
    b: Snapshot,
)
    requires
        is_sample_of(a, raw),
        is_sample_of(b, raw),
    ensures
        after(m, Message::ToggleVisibility(c, on)).snapshot == m.snapshot,
        action_for(after(m, Message::ToggleVisibility(c, on)), Message::Tick) == action_for(
            m,
            Message::Tick,
        ),
        same_readings(a, b),
{
}

/// A display tick's snapshot counts the reading's processes and lists each
/// of them, as long as the count fits the `u32` that holds it.
pub proof fn lemma_sample_counts_processes(s: Snapshot, raw: RawSample)
    requires
        is_sample_of(s, raw),
        raw.processes@.len() <= u32::MAX,
    ensures
        s.no_of_processes == raw.processes@.len(),
        s.processes@.len() == raw.processes@.len(),
{
    lemma_sort_keeps_length(process_rows_of(raw.processes@, raw.total_memory));
}

/// Starting stopped, one `ToggleMonitoring` makes every later display tick
/// ask for a sample, whatever samples were applied in between (they keep
/// the settings). Three ticks on readings with three different process
/// counts then give three different snapshots, each counting and listing
/// the processes of its own reading.
pub proof fn lemma_three_ticks_three_snapshots(
    m: SystemMonitor,
    r1: RawSample,
    r2: RawSample,
    r3: RawSample,
    s1: Snapshot,
    s2: Snapshot,
    s3: Snapshot,
)
    requires
        !m.is_monitoring,
        is_sample_of(s1, r1),
        is_sample_of(s2, r2),
        is_sample_of(s3, r3),
        r1.processes@.len() <= u32::MAX,
        r2.processes@.len() <= u32::MAX,
        r3.processes@.len() <= u32::MAX,
        r1.processes@.len() != r2.processes@.len(),
        r1.processes@.len() != r3.processes@.len(),
        r2.processes@.len() != r3.processes@.len(),
    ensures
        after(m, Message::ToggleMonitoring).is_monitoring,
        forall|later: SystemMonitor|
            same_settings(later, after(m, Message::ToggleMonitoring)) ==> #[trigger] action_for(
                later,
                Message::Tick,
            ) == Action::Refresh && same_settings(after(later, Message::Tick), later),
        s1.no_of_processes == r1.processes@.len() && s1.processes@.len() == r1.processes@.len(),
        s2.no_of_processes == r2.processes@.len() && s2.processes@.len() == r2.processes@.len(),
        s3.no_of_processes == r3.processes@.len() && s3.processes@.len() == r3.processes@.len(),
        s1 != s2 && s1 != s3 && s2 != s3,
{
    lemma_sample_counts_processes(s1, r1);
    lemma_sample_counts_processes(s2, r2);
    lemma_sample_counts_processes(s3, r3);
}

} // verus!
