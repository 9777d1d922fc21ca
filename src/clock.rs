use vstd::prelude::*;

use crate::text::{padded, push_char, push_padded};

verus! {

/// A UTC calendar time at second precision.
#[derive(Clone, Copy, Debug, PartialEq, Eq, Structural)]
pub struct Timestamp {
    pub year: i32,
    pub month: u32,
    pub day: u32,
    pub hour: u32,
    pub minute: u32,
    pub second: u32,
}

impl Timestamp {
    /// Each field within its calendar range.
    pub open spec fn wf(self) -> bool {
        &&& 1 <= self.month <= 12
        &&& 1 <= self.day <= 31
        &&& self.hour <= 23
        &&& self.minute <= 59
        &&& self.second <= 59
    }
}

/// A year as a log record writes it: four digits from year 0 to 9999, with
/// a sign in front outside that range.
pub open spec fn year_text(y: int) -> Seq<char> {
    if y < 0 {
        seq!['-'] + padded((-y) as nat, 4)
    } else if y > 9999 {
        seq!['+'] + padded(y as nat, 4)
    } else {
        padded(y as nat, 4)
    }
}

/// `YYYY-MM-DD HH:MM:SS`.
pub open spec fn timestamp_text(t: Timestamp) -> Seq<char> {
    year_text(t.year as int) + seq!['-'] + padded(t.month as nat, 2) + seq!['-'] + padded(
        t.day as nat,
        2,
    ) + seq![' '] + padded(t.hour as nat, 2) + seq![':'] + padded(t.minute as nat, 2) + seq![':']
        + padded(t.second as nat, 2)
}

/// Relies on std's `SystemTime::now` for the clock and on chrono's
/// `DateTime::from_timestamp`, read through `Datelike` and `Timelike`: the
/// current UTC date and time, each field in the range that those traits
/// document. `None` when the clock reads before 1970 or past what chrono
/// can represent; nothing here panics.
#[verifier::external_body]
pub fn utc_now() -> (r: Option<Timestamp>)
    ensures
        r matches Some(t) ==> t.wf(),
{
    let since = std::time::SystemTime::now().duration_since(std::time::UNIX_EPOCH).ok()?;
    let now = chrono::DateTime::from_timestamp(i64::try_from(since.as_secs()).ok()?, 0)?;
    Some(Timestamp {
        year: chrono::Datelike::year(&now),
        month: chrono::Datelike::month(&now),
        day: chrono::Datelike::day(&now),
        hour: chrono::Timelike::hour(&now),
        minute: chrono::Timelike::minute(&now),
        second: chrono::Timelike::second(&now),
    })
}

impl Timestamp {
    /// The timestamp as a log record writes it.
    pub fn log_text(&self) -> (r: String)
        ensures
            r@ == timestamp_text(*self),
    {
        let mut out = String::new();
        if self.year < 0 {
            push_char(&mut out, '-');
            push_padded(&mut out, (-(self.year as i64)) as u64, 4);
        } else if self.year > 9999 {
            push_char(&mut out, '+');
            push_padded(&mut out, self.year as u64, 4);
        } else {
            push_padded(&mut out, self.year as u64, 4);
        }
        assert(out@ =~= year_text(self.year as int));
        push_char(&mut out, '-');
        push_padded(&mut out, self.month as u64, 2);
        push_char(&mut out, '-');
        push_padded(&mut out, self.day as u64, 2);
        push_char(&mut out, ' ');
        push_padded(&mut out, self.hour as u64, 2);
        push_char(&mut out, ':');
        push_padded(&mut out, self.minute as u64, 2);
        push_char(&mut out, ':');
        push_padded(&mut out, self.second as u64, 2);
        assert(out@ =~= timestamp_text(*self));
        out
    }
}

} // verus!
