//! Human-friendly durations such as `"30s"`, `"1m"`, `"1m30s"` or `"90"`.

use vstd::prelude::*;
use crate::numparse::{IntErrorKind, int_error_message, parse_unsigned, parse_unsigned_chars};
use crate::text::{chars_of, is_ascii_digit, owned, push_char, push_chars, trim, trimmed};

verus! {

/// The largest `u64`, as a mathematical integer.
pub open spec fn u64_max() -> nat {
    0xffff_ffff_ffff_ffff
}

/// What reading a duration comes to: a number of seconds, an error message,
/// or an arithmetic overflow of the running total.
pub enum DurationOutcome {
    Seconds(nat),
    Fails(Seq<char>),
    Overflow,
}

/// The seconds that one unit letter stands for (`h`, `m`, `s`); `0` for any other character.
pub open spec fn unit_seconds(c: char) -> nat {
    if c == 'h' {
        3600
    } else if c == 'm' {
        60
    } else if c == 's' {
        1
    } else {
        0
    }
}

pub open spec fn is_unit(c: char) -> bool {
    c == 'h' || c == 'm' || c == 's'
}

pub open spec fn trailing_number_message(current: Seq<char>) -> Seq<char> {
    "trailing number '"@ + current + "' without unit, use e.g. '"@ + current + "s'"@
}

pub open spec fn unknown_unit_message(c: char) -> Seq<char> {
    "unknown duration unit '"@ + seq![c] + "', expected h/m/s"@
}

pub open spec fn zero_duration_message() -> Seq<char> {
    "duration must be greater than 0"@
}

/// Reads `t` one character at a time: digits collect into `current`; any
/// other character first reads `current` as a number and then must be a unit,
/// whose seconds times that number are added to `total`.
pub open spec fn scan_units(t: Seq<char>, total: nat, current: Seq<char>) -> DurationOutcome
    decreases t.len(),
{
    if t.len() == 0 {
        if current.len() > 0 {
            DurationOutcome::Fails(trailing_number_message(current))
        } else if total == 0 {
            DurationOutcome::Fails(zero_duration_message())
        } else {
            DurationOutcome::Seconds(total)
        }
    } else {
        let c = t[0];
        if is_ascii_digit(c) {
            scan_units(t.drop_first(), total, current.push(c))
        } else {
            match parse_unsigned(current, u64_max()) {
                Err(k) => DurationOutcome::Fails(int_error_message(k)),
                Ok(v) => if is_unit(c) {
                    let add = v * unit_seconds(c);
                    if add > u64_max() || total + add > u64_max() {
                        DurationOutcome::Overflow
                    } else {
                        scan_units(t.drop_first(), total + add, Seq::empty())
                    }
                } else {
                    DurationOutcome::Fails(unknown_unit_message(c))
                },
            }
        }
    }
}

/// What `parse_duration` makes of `s`: after trimming white space, a plain
/// number is that many seconds; anything else is read unit by unit.
pub open spec fn duration_outcome(s: Seq<char>) -> DurationOutcome {
    let t = trim(s);
    match parse_unsigned(t, u64_max()) {
        Ok(n) => DurationOutcome::Seconds(n),
        Err(_) => scan_units(t, 0, Seq::empty()),
    }
}

proof fn lemma_scan_step(t: Seq<char>, i: int, total: nat, current: Seq<char>)
    requires
        0 <= i < t.len(),
    ensures
        scan_units(t.subrange(i, t.len() as int), total, current) == ({
            let c = t[i];
            let rest = t.subrange(i + 1, t.len() as int);
            if is_ascii_digit(c) {
                scan_units(rest, total, current.push(c))
            } else {
                match parse_unsigned(current, u64_max()) {
                    Err(k) => DurationOutcome::Fails(int_error_message(k)),
                    Ok(v) => if is_unit(c) {
                        let add = v * unit_seconds(c);
                        if add > u64_max() || total + add > u64_max() {
                            DurationOutcome::Overflow
                        } else {
                            scan_units(rest, total + add, Seq::empty())
                        }
                    } else {
                        DurationOutcome::Fails(unknown_unit_message(c))
                    },
                }
            }
        }),
{
    let u = t.subrange(i, t.len() as int);
    assert(u.drop_first() =~= t.subrange(i + 1, t.len() as int));
    assert(u[0] == t[i]);
}

fn trailing_number_error(current: &Vec<char>) -> (r: String)
    ensures
        r@ == trailing_number_message(current@),
{
    let mut m = owned("trailing number '");
    push_chars(&mut m, current, 0, current.len());
    m.append("' without unit, use e.g. '");
    push_chars(&mut m, current, 0, current.len());
    m.append("s'");
    assert(current@.subrange(0, current@.len() as int) =~= current@);
    m
}

fn unknown_unit_error(c: char) -> (r: String)
    ensures
        r@ == unknown_unit_message(c),
{
    let mut m = owned("unknown duration unit '");
    push_char(&mut m, c);
    m.append("', expected h/m/s");
    assert(m@ =~= unknown_unit_message(c));
    m
}

/// Parse a human-friendly duration string like `"30s"`, `"1m"`, `"1m30s"`, `"90"`
/// into a number of seconds. Plain numbers are treated as seconds.
///
/// Surrounding white space is ignored. A plain number may be `0`; a
/// duration written with units must come to more than zero seconds.
pub fn parse_duration(s: &str) -> (r: Result<u64, String>)
    requires
        !(duration_outcome(s@) is Overflow),
    ensures
        match duration_outcome(s@) {
            DurationOutcome::Seconds(n) => r == Ok::<u64, String>(n as u64),
            DurationOutcome::Fails(m) => r matches Err(e) && e@ == m,
            DurationOutcome::Overflow => false,
        },
{
    let v = chars_of(s);
    let t = trimmed(&v);
    match parse_unsigned_chars(&t, u64::MAX) {
        Ok(n) => {
            return Ok(n);
        },
        Err(_) => {},
    }
    let mut total: u64 = 0;
    let mut current: Vec<char> = Vec::new();
    let mut i: usize = 0;
    assert(t@.subrange(0, t@.len() as int) =~= t@);
    while i < t.len()
        invariant
            i <= t.len(),
            duration_outcome(s@) == scan_units(t@, 0, Seq::empty()),
            scan_units(t@, 0, Seq::empty()) == scan_units(
                t@.subrange(i as int, t@.len() as int),
                total as nat,
                current@,
            ),
            !(scan_units(t@, 0, Seq::empty()) is Overflow),
            forall|k: int| 0 <= k < current@.len() ==> is_ascii_digit(#[trigger] current@[k]),
        decreases t.len() - i,
    {
        let c = t[i];
        proof {
            lemma_scan_step(t@, i as int, total as nat, current@);
        }
        if '0' <= c && c <= '9' {
            current.push(c);
        } else {
            let value = match parse_unsigned_chars(&current, u64::MAX) {
                Ok(value) => value,
                Err(k) => {
                    return Err(k.message());
                },
            };
            if c == 'h' {
                total = total + value * 3600;
            } else if c == 'm' {
                total = total + value * 60;
            } else if c == 's' {
                total = total + value;
            } else {
                return Err(unknown_unit_error(c));
            }
            current = Vec::new();
        }
        i += 1;
    }
    assert(t@.subrange(i as int, t@.len() as int) =~= Seq::<char>::empty());
    if current.len() > 0 {
        return Err(trailing_number_error(&current));
    }
    if total == 0 {
        return Err(owned("duration must be greater than 0"));
    }
    Ok(total)
}

proof fn lemma_scan_bound(t: Seq<char>, total: nat, current: Seq<char>)
    requires
        total <= u64_max(),
    ensures
        scan_units(t, total, current) matches DurationOutcome::Seconds(n) ==> n <= u64_max(),
    decreases t.len(),
{
    if t.len() > 0 {
        let c = t[0];
        if is_ascii_digit(c) {
            lemma_scan_bound(t.drop_first(), total, current.push(c));
        } else {
            match parse_unsigned(current, u64_max()) {
                Ok(v) => {
                    if is_unit(c) {
                        let add = v * unit_seconds(c);
                        if !(add > u64_max() || total + add > u64_max()) {
                            lemma_scan_bound(t.drop_first(), total + add, Seq::empty());
                        }
                    }
                },
                Err(_) => {},
            }
        }
    }
}

/// A duration that reads as seconds fits in a `u64`.
pub proof fn lemma_duration_bound(s: Seq<char>)
    ensures
        duration_outcome(s) matches DurationOutcome::Seconds(n) ==> n <= u64_max(),
{
    crate::numparse::lemma_parse_bound(trim(s), u64_max());
    lemma_scan_bound(trim(s), 0, Seq::empty());
}

} // verus!
