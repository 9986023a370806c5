//! The text of a line of the service's log files.

use vstd::prelude::*;
use vstd::string::*;
use crate::text::{decimal_digits, push_decimal_u64};

verus! {

/// A log line: `[<timestamp>] [<level>] <file>:<line> — <message>`.
pub open spec fn log_entry_spec(
    timestamp: Seq<char>,
    level: Seq<char>,
    file: Seq<char>,
    line: u32,
    message: Seq<char>,
) -> Seq<char> {
    "["@ + timestamp + "] ["@ + level + "] "@ + file + ":"@ + decimal_digits(line as nat) + " — "@
        + message
}

/// The log line for `message`, written at `file`:`line` at `timestamp`
/// with severity `level` (`INFO` or `ERROR`).
pub fn log_entry(timestamp: &str, level: &str, file: &str, line: u32, message: &str) -> (s: String)
    ensures
        s@ == log_entry_spec(timestamp@, level@, file@, line, message@),
{
    let mut s = String::from_str("[");
    s.append(timestamp);
    s.append("] [");
    s.append(level);
    s.append("] ");
    s.append(file);
    s.append(":");
    push_decimal_u64(&mut s, line as u64);
    s.append(" — ");
    s.append(message);
    s
}

} // verus!
