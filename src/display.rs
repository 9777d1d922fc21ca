use vstd::prelude::*;
use vstd::string::{StrSliceExecFns, StringSliceAdditionalSpecFns};
use vstd::utf8::{encode_utf8_valid_utf8, is_char_boundary};

use crate::models::{Percent, SystemBaseInfo, SystemMonitor};
use crate::text::{decimal, padded, push_char, push_decimal, push_padded, push_str};

verus! {

/// Process names longer than this many bytes of UTF-8 are shortened.
pub const MAX_NAME_BYTES: usize = 40;

/// At most this many bytes of a long process name are shown.
pub const SHORT_NAME_BYTES: usize = 38;

/// A percentage as shown: whole percent, a point, two digits of
/// hundredths and a percent sign (`12.34%`).
pub open spec fn percent_text_of(p: Percent) -> Seq<char> {
    decimal((p.hundredths / 100) as nat) + seq!['.'] + padded((p.hundredths % 100) as nat, 2)
        + seq!['%']
}

/// The largest character boundary of `bytes` at or below `k`.
pub open spec fn boundary_at_or_below(bytes: Seq<u8>, k: nat) -> nat
    decreases k,
{
    if k == 0 || is_char_boundary(bytes, k as int) {
        k
    } else {
        boundary_at_or_below(bytes, (k - 1) as nat)
    }
}

/// The bytes of a process name as listed: a name over `MAX_NAME_BYTES`
/// bytes keeps its longest prefix of at most `SHORT_NAME_BYTES` bytes that
/// ends on a character boundary.
pub open spec fn shortened_name(bytes: Seq<u8>) -> Seq<u8> {
    if bytes.len() > MAX_NAME_BYTES {
        bytes.take(boundary_at_or_below(bytes, SHORT_NAME_BYTES as nat) as int)
    } else {
        bytes
    }
}

/// The banner line of host information.
pub open spec fn base_info_text(info: SystemBaseInfo) -> Seq<char> {
    "System Name: "@ + info.system_name@ + " | OS Version: "@ + info.os_version@
        + " | Kernel Version: "@ + info.kernal_version@ + " | Host: "@ + info.host_name@
}

/// A percentage as shown, such as `12.34%`.
pub fn percent_text(p: Percent) -> (r: String)
    ensures
        r@ == percent_text_of(p),
{
    let mut out = String::new();
    push_decimal(&mut out, p.hundredths / 100);
    push_char(&mut out, '.');
    push_padded(&mut out, p.hundredths % 100, 2);
    push_char(&mut out, '%');
    assert(out@ =~= percent_text_of(p));
    out
}

/// A process name as listed: names over `MAX_NAME_BYTES` bytes are cut
/// back to at most `SHORT_NAME_BYTES` bytes, at a character boundary.
pub fn shorten_name(name: &str) -> (r: &str)
    ensures
        r.spec_bytes() == shortened_name(name.spec_bytes()),
{
    if name.as_bytes().len() <= MAX_NAME_BYTES {
        return name;
    }
    let ghost bytes = name.spec_bytes();
    proof {
        encode_utf8_valid_utf8(name@);
    }
    let mut mid: usize = SHORT_NAME_BYTES;
    while mid > 0 && !name.is_char_boundary(mid)
        invariant
            mid <= SHORT_NAME_BYTES,
            bytes == name.spec_bytes(),
            vstd::utf8::valid_utf8(bytes),
            boundary_at_or_below(bytes, SHORT_NAME_BYTES as nat) == boundary_at_or_below(
                bytes,
                mid as nat,
            ),
        decreases mid,
    {
        mid = mid - 1;
    }
    assert(is_char_boundary(bytes, mid as int));
    let (head, _rest) = name.split_at(mid);
    assert(head.spec_bytes() =~= shortened_name(bytes));
    head
}

/// The banner line of host information.
pub fn base_info_line(info: &SystemBaseInfo) -> (r: String)
    ensures
        r@ == base_info_text(*info),
{
    let mut out = String::new();
    push_str(&mut out, "System Name: ");
    push_str(&mut out, info.system_name.as_str());
    push_str(&mut out, " | OS Version: ");
    push_str(&mut out, info.os_version.as_str());
    push_str(&mut out, " | Kernel Version: ");
    push_str(&mut out, info.kernal_version.as_str());
    push_str(&mut out, " | Host: ");
    push_str(&mut out, info.host_name.as_str());
    out
}

impl SystemMonitor {
    /// The label of the button that starts or stops monitoring.
    pub fn monitoring_label(&self) -> (r: &'static str)
        ensures
            r@ == (if self.is_monitoring {
                "Stop Monitoring"@
            } else {
                "Start Monitoring"@
            }),
    {
        if self.is_monitoring {
            "Stop Monitoring"
        } else {
            "Start Monitoring"
        }
    }
}

} // verus!
