//! Unsigned decimal integers read the way `str::parse::<u32>()` and
//! `str::parse::<u64>()` read them, with the messages of their errors.

use vstd::prelude::*;
use crate::text::{digit_value, is_ascii_digit, owned};

verus! {

/// Why a decimal integer could not be read.
#[derive(Clone, Copy, Debug, PartialEq, Eq, Structural)]
pub enum IntErrorKind {
    /// The text was empty.
    Empty,
    /// A character other than an ASCII digit (after an optional leading `+`).
    InvalidDigit,
    /// The value does not fit in the target type.
    PosOverflow,
}

/// Reads the digits of `s` onto `acc`, left to right, failing at the first
/// non-digit or at the first digit that takes the value above `max`.
pub open spec fn accumulate_digits(s: Seq<char>, acc: nat, max: nat) -> Result<nat, IntErrorKind>
    decreases s.len(),
{
    if s.len() == 0 {
        Ok(acc)
    } else if !is_ascii_digit(s[0]) {
        Err(IntErrorKind::InvalidDigit)
    } else if acc * 10 + digit_value(s[0]) > max {
        Err(IntErrorKind::PosOverflow)
    } else {
        accumulate_digits(s.drop_first(), acc * 10 + digit_value(s[0]), max)
    }
}

/// The value of the unsigned decimal text `s`, for a type whose largest value is `max`.
pub open spec fn parse_unsigned(s: Seq<char>, max: nat) -> Result<nat, IntErrorKind> {
    if s.len() == 0 {
        Err(IntErrorKind::Empty)
    } else if s[0] == '+' {
        if s.len() == 1 {
            Err(IntErrorKind::InvalidDigit)
        } else {
            accumulate_digits(s.drop_first(), 0, max)
        }
    } else {
        accumulate_digits(s, 0, max)
    }
}

/// The message that `ParseIntError` displays for each kind.
pub open spec fn int_error_message(k: IntErrorKind) -> Seq<char> {
    match k {
        IntErrorKind::Empty => "cannot parse integer from empty string"@,
        IntErrorKind::InvalidDigit => "invalid digit found in string"@,
        IntErrorKind::PosOverflow => "number too large to fit in target type"@,
    }
}

impl IntErrorKind {
    /// The message of this error.
    pub fn message(&self) -> (r: String)
        ensures
            r@ == int_error_message(*self),
    {
        match self {
            IntErrorKind::Empty => owned("cannot parse integer from empty string"),
            IntErrorKind::InvalidDigit => owned("invalid digit found in string"),
            IntErrorKind::PosOverflow => owned("number too large to fit in target type"),
        }
    }
}

proof fn lemma_accumulate_step(s: Seq<char>, i: int, acc: nat, max: nat)
    requires
        0 <= i < s.len(),
    ensures
        accumulate_digits(s.subrange(i, s.len() as int), acc, max) == (if !is_ascii_digit(s[i]) {
            Err(IntErrorKind::InvalidDigit)
        } else if acc * 10 + digit_value(s[i]) > max {
            Err(IntErrorKind::PosOverflow)
        } else {
            accumulate_digits(
                s.subrange(i + 1, s.len() as int),
                acc * 10 + digit_value(s[i]),
                max,
            )
        }),
{
    let t = s.subrange(i, s.len() as int);
    assert(t.drop_first() =~= s.subrange(i + 1, s.len() as int));
    assert(t[0] == s[i]);
}

/// Reads `v[from..]` as unsigned decimal digits, for a type whose largest value is `max`.
fn accumulate(v: &Vec<char>, from: usize, max: u64) -> (r: Result<u64, IntErrorKind>)
    requires
        from <= v.len(),
        max >= 9,
    ensures
        match accumulate_digits(v@.subrange(from as int, v.len() as int), 0, max as nat) {
            Ok(n) => r == Ok::<u64, IntErrorKind>(n as u64),
            Err(k) => r == Err::<u64, IntErrorKind>(k),
        },
{
    let ghost whole = v@.subrange(from as int, v.len() as int);
    let mut acc: u64 = 0;
    let mut i = from;
    while i < v.len()
        invariant
            from <= i <= v.len(),
            acc <= max,
            max >= 9,
            whole == v@.subrange(from as int, v.len() as int),
            accumulate_digits(whole, 0, max as nat) == accumulate_digits(
                v@.subrange(i as int, v.len() as int),
                acc as nat,
                max as nat,
            ),
        decreases v.len() - i,
    {
        let c = v[i];
        proof {
            lemma_accumulate_step(v@, i as int, acc as nat, max as nat);
        }
        if !('0' <= c && c <= '9') {
            return Err(IntErrorKind::InvalidDigit);
        }
        let d = (c as u32 - 48) as u64;
        if acc > (max - d) / 10 {
            assert(acc * 10 + d > max) by (nonlinear_arith)
                requires
                    acc > (max - d) / 10,
                    d <= max,
            ;
            return Err(IntErrorKind::PosOverflow);
        }
        assert(acc * 10 + d <= max) by (nonlinear_arith)
            requires
                acc <= (max - d) / 10,
                d <= 9,
        ;
        acc = acc * 10 + d;
        i += 1;
    }
    assert(v@.subrange(i as int, v.len() as int) =~= Seq::<char>::empty());
    Ok(acc)
}

/// `str::parse` for an unsigned type whose largest value is `max`, on a character vector.
pub fn parse_unsigned_chars(v: &Vec<char>, max: u64) -> (r: Result<u64, IntErrorKind>)
    requires
        max >= 9,
    ensures
        match parse_unsigned(v@, max as nat) {
            Ok(n) => r == Ok::<u64, IntErrorKind>(n as u64),
            Err(k) => r == Err::<u64, IntErrorKind>(k),
        },
{
    if v.len() == 0 {
        return Err(IntErrorKind::Empty);
    }
    if v[0] == '+' {
        if v.len() == 1 {
            return Err(IntErrorKind::InvalidDigit);
        }
        assert(v@.subrange(1, v.len() as int) =~= v@.drop_first());
        accumulate(v, 1, max)
    } else {
        assert(v@.subrange(0, v.len() as int) =~= v@);
        accumulate(v, 0, max)
    }
}

pub proof fn lemma_accumulate_bound(s: Seq<char>, acc: nat, max: nat)
    requires
        acc <= max,
    ensures
        accumulate_digits(s, acc, max) matches Ok(n) ==> n <= max,
    decreases s.len(),
{
    if s.len() > 0 && is_ascii_digit(s[0]) && acc * 10 + digit_value(s[0]) <= max {
        lemma_accumulate_bound(s.drop_first(), acc * 10 + digit_value(s[0]), max);
    }
}

pub proof fn lemma_parse_bound(s: Seq<char>, max: nat)
    ensures
        parse_unsigned(s, max) matches Ok(n) ==> n <= max,
{
    if s.len() > 0 {
        lemma_accumulate_bound(s, 0, max);
        lemma_accumulate_bound(s.drop_first(), 0, max);
    }
}

} // verus!
