//! Log levels, log entries, and human-readable size formatting.

use vstd::prelude::*;

use crate::text::{digit_char, spec_dec_digits, string_push_char, u128_to_dec};

verus! {

/// Severity of a log entry forwarded to the user interface.
pub enum ErrorLevel {
    Info,
    Warning,
    Error,
    Debug,
}

impl ErrorLevel {
    /// The wire name of this level, as the notification sink expects it.
    pub fn as_str(&self) -> (r: &str)
        ensures
            r@ == match self {
                ErrorLevel::Info => "info"@,
                ErrorLevel::Warning => "warning"@,
                ErrorLevel::Error => "error"@,
                ErrorLevel::Debug => "debug"@,
            },
    {
        match self {
            ErrorLevel::Info => "info",
            ErrorLevel::Warning => "warning",
            ErrorLevel::Error => "error",
            ErrorLevel::Debug => "debug",
        }
    }
}

/// One log line: a level name and a message, both borrowed from the caller.
pub struct LogEntry<'a> {
    pub level: &'a str,
    pub message: &'a str,
}

/// Phase of a long-running background task, as reported to the interface.
pub enum TaskStatus {
    Started,
    InProgress,
    Completed,
    Failed,
}

/// A quantity scaled by `div` and rounded half-up to two decimal places,
/// rendered as `whole.fraction`.
pub open spec fn spec_fixed2(size: nat, div: nat) -> Seq<char>
    recommends
        div >= 1,
{
    let h = (200 * size + div) / (2 * div);
    spec_dec_digits(h / 100) + seq!['.', digit_char((h / 10) % 10), digit_char(h % 10)]
}

/// A byte count rendered for display: plain bytes below one kibibyte, else
/// two decimal places of the matching binary unit.
pub open spec fn spec_format_size(size: nat) -> Seq<char> {
    if size < 1024 {
        spec_dec_digits(size) + " B"@
    } else if size < 1024 * 1024 {
        spec_fixed2(size, 1024) + " KB"@
    } else if size < 1024 * 1024 * 1024 {
        spec_fixed2(size, 1024 * 1024) + " MB"@
    } else {
        spec_fixed2(size, 1024 * 1024 * 1024) + " GB"@
    }
}

pub const KIB: u64 = 1024;

pub const MIB: u64 = 1024 * 1024;

pub const GIB: u64 = 1024 * 1024 * 1024;

/// Renders `size / div` with two decimal places, rounding half up.
fn format_fixed2(size: u64, div: u64) -> (r: String)
    requires
        div >= 1,
    ensures
        r@ == spec_fixed2(size as nat, div as nat),
{
    let h: u128 = (200u128 * (size as u128) + (div as u128)) / (2u128 * (div as u128));
    let mut s = u128_to_dec(h / 100);
    string_push_char(&mut s, '.');
    let d1: u8 = ((h / 10) % 10) as u8;
    let d0: u8 = (h % 10) as u8;
    string_push_char(&mut s, (48 + d1) as char);
    string_push_char(&mut s, (48 + d0) as char);
    proof {
        let hn = (200 * (size as nat) + (div as nat)) / (2 * (div as nat));
        assert(h == hn);
        assert(s@ =~= spec_fixed2(size as nat, div as nat));
    }
    s
}

/// Human-readable size: `"512 B"`, `"1.50 KB"`, `"2.00 MB"`, `"3.25 GB"`.
pub fn format_size(size: u64) -> (r: String)
    ensures
        r@ == spec_format_size(size as nat),
{
    if size < KIB {
        let mut s = u128_to_dec(size as u128);
        s.append(" B");
        s
    } else if size < MIB {
        let mut s = format_fixed2(size, KIB);
        s.append(" KB");
        s
    } else if size < GIB {
        let mut s = format_fixed2(size, MIB);
        s.append(" MB");
        s
    } else {
        let mut s = format_fixed2(size, GIB);
        s.append(" GB");
        s
    }
}

} // verus!
