use vstd::prelude::*;
use vstd::string::StrSliceExecFns;

use crate::models::{Percent, Snapshot, SystemMonitor};
use crate::clock::{timestamp_text, utc_now, Timestamp};
use crate::text::push_char;

verus! {

/// One log record: the timestamp and the headline figures of a snapshot.
#[derive(Debug)]
pub struct SystemData {
    pub timestamp: String,
    pub cpu_usage_percent: Percent,
    pub memory_usage_byte: (u64, u64),
    pub swap_memory_usage_byte: (u64, u64),
    pub disk_usage_byte: (u64, u64),
    pub network_sent_byte: u64,
    pub network_received_byte: u64,
}

/// `r` is the record of snapshot `s` taken at `timestamp`.
pub open spec fn is_record_of(r: SystemData, s: Snapshot, timestamp: Seq<char>) -> bool {
    &&& r.timestamp@ == timestamp
    &&& r.cpu_usage_percent == s.cpu_usage
    &&& r.memory_usage_byte == s.memory_usage
    &&& r.swap_memory_usage_byte == s.swap_memory_usage
    &&& r.disk_usage_byte == s.disk_usage
    &&& r.network_sent_byte == s.network_sent
    &&& r.network_received_byte == s.network_received
}

/// Splits log-store text at newlines: the complete records, each without
/// its newline, and the text after the last newline.
pub open spec fn split_records(s: Seq<char>) -> (Seq<Seq<char>>, Seq<char>)
    decreases s.len(),
{
    if s.len() == 0 {
        (Seq::empty(), Seq::empty())
    } else {
        let (done, open) = split_records(s.drop_last());
        if s.last() == '\n' {
            (done.push(open), Seq::empty())
        } else {
            (done, open.push(s.last()))
        }
    }
}

/// The complete records held in log-store text.
pub open spec fn records(s: Seq<char>) -> Seq<Seq<char>> {
    split_records(s).0
}

/// The text ends at a record boundary: it is empty or ends in a newline.
pub open spec fn is_framed(s: Seq<char>) -> bool {
    split_records(s).1.len() == 0
}

pub open spec fn single_line(s: Seq<char>) -> bool {
    forall|i: int| 0 <= i < s.len() ==> #[trigger] s[i] != '\n'
}

impl SystemData {
    /// The record of snapshot `s` at `timestamp`.
    pub fn from_snapshot(s: &Snapshot, timestamp: String) -> (r: SystemData)
        ensures
            is_record_of(r, *s, timestamp@),
    {
        SystemData {
            timestamp,
            cpu_usage_percent: s.cpu_usage,
            memory_usage_byte: s.memory_usage,
            swap_memory_usage_byte: s.swap_memory_usage,
            disk_usage_byte: s.disk_usage,
            network_sent_byte: s.network_sent,
            network_received_byte: s.network_received,
        }
    }
}

impl SystemMonitor {
    /// The record that a logging tick appends: the current snapshot at
    /// `timestamp`.
    pub fn log_record(&self, timestamp: String) -> (r: SystemData)
        ensures
            is_record_of(r, self.snapshot, timestamp@),
    {
        SystemData::from_snapshot(&self.snapshot, timestamp)
    }

    /// The record of the current snapshot, stamped with the current UTC time;
    /// `None` when the clock cannot be read as a calendar time.
    pub fn record_now(&self) -> (r: Option<SystemData>)
        ensures
            r matches Some(d) ==> exists|t: Timestamp|
                t.wf() && is_record_of(d, self.snapshot, #[trigger] timestamp_text(t)),
    {
        match utc_now() {
            Some(t) => {
                let d = self.log_record(t.log_text());
                assert(t.wf() && is_record_of(d, self.snapshot, timestamp_text(t)));
                Some(d)
            },
            None => None,
        }
    }
}

/// The text to append for one serialized record: the record and a newline.
/// A record that holds a newline cannot be framed.
pub fn frame_record(line: &str) -> (r: Option<String>)
    ensures
        r is Some <==> single_line(line@),
        r matches Some(t) ==> t@ == line@.push('\n'),
{
    let n = line.unicode_len();
    let mut out = String::new();
    let mut i: usize = 0;
    while i < n
        invariant
            n == line@.len(),
            i <= n,
            out@ == line@.take(i as int),
            single_line(line@.take(i as int)),
        decreases n - i,
    {
        let c = line.get_char(i);
        if c == '\n' {
            assert(!single_line(line@));
            return None;
        }
        push_char(&mut out, c);
        assert(line@.take(i + 1) =~= line@.take(i as int).push(c));
        i = i + 1;
    }
    assert(line@.take(n as int) =~= line@);
    push_char(&mut out, '\n');
    Some(out)
}

/// The number of complete records in log-store text.
pub fn record_count(store: &str) -> (r: usize)
    ensures
        r == records(store@).len(),
{
    let n = store.unicode_len();
    let mut count: usize = 0;
    let mut i: usize = 0;
    while i < n
        invariant
            n == store@.len(),
            i <= n,
            count == records(store@.take(i as int)).len(),
            count <= i,
        decreases n - i,
    {
        let c = store.get_char(i);
        assert(store@.take(i + 1).drop_last() =~= store@.take(i as int));
        if c == '\n' {
            count = count + 1;
        }
        i = i + 1;
    }
    assert(store@.take(n as int) =~= store@);
    count
}

proof fn lemma_split_single_line(store: Seq<char>, line: Seq<char>)
    requires
        single_line(line),
    ensures
        split_records(store + line) == (split_records(store).0, split_records(store).1 + line),
    decreases line.len(),
{
    if line.len() == 0 {
        assert(store + line =~= store);
        assert(split_records(store).1 + line =~= split_records(store).1);
    } else {
        let shorter = line.drop_last();
        assert((store + line).drop_last() =~= store + shorter);
        lemma_split_single_line(store, shorter);
        assert(split_records(store).1 + shorter.push(line.last()) =~= (split_records(store).1
            + shorter).push(line.last()));
        assert(shorter.push(line.last()) =~= line);
    }
}

/// Appending one framed record to a store that ends at a record boundary
/// adds exactly one record, the appended one, and keeps every earlier record
/// as it was.
pub proof fn lemma_append_adds_one_record(store: Seq<char>, line: Seq<char>)
    requires
        is_framed(store),
        single_line(line),
    ensures
        records(store + line.push('\n')) == records(store).push(line),
        records(store + line.push('\n')).len() == records(store).len() + 1,
        is_framed(store + line.push('\n')),
{
    lemma_split_single_line(store, line);
    let whole = store + line.push('\n');
    assert(whole.drop_last() =~= store + line);
    assert(split_records(store).1 + line =~= line);
}

} // verus!
