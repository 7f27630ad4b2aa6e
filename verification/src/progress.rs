//! Following ffmpeg's `-progress` reports: each `out_time_us=` line moves
//! the encoded position forward.

use vstd::prelude::*;
use crate::duration::u64_max;
use crate::numparse::{IntErrorKind, int_error_message, parse_unsigned, parse_unsigned_chars};
use crate::text::chars_of;

verus! {

/// What the pattern `out_time_us=(\d+)` captures in `line`: the digits
/// after the first `out_time_us=` that is followed by at least one digit
/// (a Unicode decimal digit), if there is one.
pub uninterp spec fn out_time_digits(line: Seq<char>) -> Option<Seq<char>>;

/// `Regex::new(r"out_time_us=(\d+)")` and `Regex::captures` on `line`: the
/// text of the first capture group of the leftmost match, if any. The
/// pattern is a constant that compiles, so `unwrap` cannot fail. The group
/// is one or more digits, so a capture is never empty.
#[verifier::external_body]
fn capture_out_time(line: &str) -> (r: Option<String>)
    ensures
        match r {
            Some(d) => out_time_digits(line@) == Some(d@) && d@.len() > 0,
            None => out_time_digits(line@) is None,
        },
{
    let re = regex::Regex::new(r"out_time_us=(\d+)").unwrap();
    match re.captures(line) {
        Some(c) => Some(c[1].to_string()),
        None => None,
    }
}

/// What one line of progress output does.
#[derive(Clone, Copy, Debug, PartialEq, Eq, Structural)]
pub enum ProgressEvent {
    /// The line reports no output time.
    NoTime,
    /// The position moved to `position` milliseconds, `delta` past the last one.
    Advanced { position: u64, delta: u64 },
    /// The line reports a time before the last position.
    WentBack { position: u64 },
}

/// The milliseconds of a time of `micros` microseconds, rounded down.
pub open spec fn micros_to_millis(micros: nat) -> nat {
    micros / 1000
}

/// What a reported output time does to the position `last_position`.
pub open spec fn progress_of_digits(last_position: u64, digits: Seq<char>) -> Result<ProgressEvent, Seq<char>> {
    match parse_unsigned(digits, u64_max()) {
        Err(k) => Err(int_error_message(k)),
        Ok(us) => {
            let ms = micros_to_millis(us);
            if ms >= last_position {
                Ok(ProgressEvent::Advanced { position: ms as u64, delta: (ms - last_position) as u64 })
            } else {
                Ok(ProgressEvent::WentBack { position: ms as u64 })
            }
        },
    }
}

/// Moves the position to the output time given by `digits` (microseconds):
/// the new position in milliseconds and how far it moved. The time may not
/// lie before the last position.
pub fn advance_progress(last_position: u64, digits: &str) -> (r: Result<(u64, u64), String>)
    requires
        parse_unsigned(digits@, u64_max()) matches Ok(us) ==> micros_to_millis(us) >= last_position,
    ensures
        match parse_unsigned(digits@, u64_max()) {
            Err(k) => r matches Err(e) && e@ == int_error_message(k),
            Ok(us) => r == Ok::<(u64, u64), String>(
                (micros_to_millis(us) as u64, (micros_to_millis(us) - last_position) as u64),
            ),
        },
{
    let v = chars_of(digits);
    proof {
        crate::numparse::lemma_parse_bound(digits@, u64_max());
    }
    match parse_unsigned_chars(&v, u64::MAX) {
        Err(k) => Err(k.message()),
        Ok(us) => {
            let ms = us / 1000;
            Ok((ms, ms - last_position))
        },
    }
}

/// What one line of ffmpeg's progress output does to the position `last_position`.
pub fn progress_from_line(last_position: u64, line: &str) -> (r: Result<ProgressEvent, String>)
    ensures
        match out_time_digits(line@) {
            None => r == Ok::<ProgressEvent, String>(ProgressEvent::NoTime),
            Some(d) => match progress_of_digits(last_position, d) {
                Ok(ev) => r == Ok::<ProgressEvent, String>(ev),
                Err(m) => r matches Err(e) && e@ == m,
            },
        },
{
    let digits = match capture_out_time(line) {
        None => {
            return Ok(ProgressEvent::NoTime);
        },
        Some(d) => d,
    };
    let v = chars_of(digits.as_str());
    proof {
        crate::numparse::lemma_parse_bound(digits@, u64_max());
    }
    match parse_unsigned_chars(&v, u64::MAX) {
        Err(k) => Err(k.message()),
        Ok(us) => {
            let ms = us / 1000;
            if ms >= last_position {
                Ok(ProgressEvent::Advanced { position: ms, delta: ms - last_position })
            } else {
                Ok(ProgressEvent::WentBack { position: ms })
            }
        },
    }
}

} // verus!
