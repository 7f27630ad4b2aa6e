//! What reading numbers back gives: a number written in decimal reads as
//! that number, as a plain duration, as a duration with one unit, and as
//! the two sides of an aspect ratio; durations written with units add up
//! when written one after the other.

use vstd::prelude::*;
use crate::duration::{DurationOutcome, duration_outcome, scan_units, u64_max, unit_seconds, is_unit};
use crate::numparse::{IntErrorKind, accumulate_digits, parse_unsigned};
use crate::text::{
    decimal, digit_char, digit_value, index_of, is_ascii_digit, is_white_space, lemma_index_of_unique,
    trim, trim_end, trim_start,
};
use crate::types::{aspect_ratio_outcome, u32_max};

verus! {

proof fn lemma_accumulate_push(s: Seq<char>, c: char, acc: nat, max: nat)
    ensures
        accumulate_digits(s.push(c), acc, max) == match accumulate_digits(s, acc, max) {
            Err(k) => Err(k),
            Ok(v) => if !is_ascii_digit(c) {
                Err(IntErrorKind::InvalidDigit)
            } else if v * 10 + digit_value(c) > max {
                Err(IntErrorKind::PosOverflow)
            } else {
                Ok(v * 10 + digit_value(c))
            },
        },
    decreases s.len(),
{
    if s.len() == 0 {
        assert(s.push(c).drop_first() =~= Seq::<char>::empty());
        assert(s.push(c)[0] == c);
        assert(accumulate_digits(s, acc, max) == Ok::<nat, IntErrorKind>(acc));
        reveal_with_fuel(accumulate_digits, 2);
    } else {
        assert(s.push(c)[0] == s[0]);
        assert(s.push(c).drop_first() =~= s.drop_first().push(c));
        if is_ascii_digit(s[0]) && acc * 10 + digit_value(s[0]) <= max {
            lemma_accumulate_push(s.drop_first(), c, acc * 10 + digit_value(s[0]), max);
        }
    }
}

/// The characters of a decimal rendering are ASCII digits.
pub proof fn lemma_decimal_digits(n: nat)
    ensures
        decimal(n).len() >= 1,
        forall|k: int| 0 <= k < decimal(n).len() ==> is_ascii_digit(#[trigger] decimal(n)[k]),
    decreases n,
{
    if n >= 10 {
        lemma_decimal_digits(n / 10);
        let d = decimal(n / 10);
        assert forall|k: int| 0 <= k < decimal(n).len() implies is_ascii_digit(#[trigger] decimal(n)[k]) by {
            if k < d.len() {
                assert(decimal(n)[k] == d[k]);
            }
        }
    }
}

proof fn lemma_accumulate_decimal(n: nat, max: nat)
    requires
        n <= max,
    ensures
        accumulate_digits(decimal(n), 0, max) == Ok::<nat, IntErrorKind>(n),
    decreases n,
{
    if n < 10 {
        assert(decimal(n) == seq![digit_char(n)]);
        assert(decimal(n).drop_first() =~= Seq::<char>::empty());
        assert(digit_value(digit_char(n)) == n);
        assert(is_ascii_digit(digit_char(n)));
        reveal_with_fuel(accumulate_digits, 2);
    } else {
        lemma_accumulate_decimal(n / 10, max);
        lemma_accumulate_push(decimal(n / 10), digit_char(n % 10), 0, max);
        assert(digit_value(digit_char(n % 10)) == n % 10);
        assert(is_ascii_digit(digit_char(n % 10)));
        assert((n / 10) * 10 + n % 10 == n);
        assert(decimal(n) == decimal(n / 10).push(digit_char(n % 10)));
    }
}

/// A number written in decimal reads back as that number.
pub proof fn law_decimal_reads_back(n: nat, max: nat)
    requires
        n <= max,
    ensures
        parse_unsigned(decimal(n), max) == Ok::<nat, IntErrorKind>(n),
{
    lemma_decimal_digits(n);
    lemma_accumulate_decimal(n, max);
    assert(is_ascii_digit(decimal(n)[0]));
}

proof fn lemma_no_white_space_trim(s: Seq<char>)
    requires
        forall|k: int| 0 <= k < s.len() ==> !is_white_space(#[trigger] s[k]),
    ensures
        trim(s) == s,
{
    if s.len() > 0 {
        assert(!is_white_space(s[0]));
        assert(!is_white_space(s.last()));
    }
}

proof fn lemma_digit_not_white_space(c: char)
    requires
        is_ascii_digit(c),
    ensures
        !is_white_space(c),
        c != ':',
        c != '+',
{
}

proof fn lemma_scan_digits(digits: Seq<char>, rest: Seq<char>, total: nat, current: Seq<char>)
    requires
        forall|k: int| 0 <= k < digits.len() ==> is_ascii_digit(#[trigger] digits[k]),
    ensures
        scan_units(digits + rest, total, current) == scan_units(rest, total, current + digits),
    decreases digits.len(),
{
    if digits.len() > 0 {
        let s = digits + rest;
        assert(s[0] == digits[0]);
        assert(s.drop_first() =~= digits.drop_first() + rest);
        lemma_scan_digits(digits.drop_first(), rest, total, current.push(digits[0]));
        assert(current.push(digits[0]) + digits.drop_first() =~= current + digits);
    } else {
        assert(digits + rest =~= rest);
        assert(current + digits =~= current);
    }
}

/// Plain numbers are treated as seconds: the decimal text of any `u64`
/// reads as that many seconds.
pub proof fn law_plain_number_is_seconds(n: u64)
    ensures
        duration_outcome(decimal(n as nat)) == DurationOutcome::Seconds(n as nat),
{
    let d = decimal(n as nat);
    lemma_decimal_digits(n as nat);
    assert forall|k: int| 0 <= k < d.len() implies !is_white_space(#[trigger] d[k]) by {
        lemma_digit_not_white_space(d[k]);
    }
    lemma_no_white_space_trim(d);
    law_decimal_reads_back(n as nat, u64_max());
}

/// A number followed by one unit letter (`h`, `m` or `s`) reads as that
/// many hours, minutes or seconds, when that is more than zero seconds and
/// fits in a `u64`.
pub proof fn law_number_with_unit(n: nat, u: char)
    requires
        is_unit(u),
        n > 0,
        n * unit_seconds(u) <= u64_max(),
    ensures
        duration_outcome(decimal(n).push(u)) == DurationOutcome::Seconds(n * unit_seconds(u)),
{
    let d = decimal(n);
    let s = d.push(u);
    lemma_decimal_digits(n);
    assert(n <= n * unit_seconds(u)) by (nonlinear_arith)
        requires
            unit_seconds(u) >= 1,
    ;
    assert forall|k: int| 0 <= k < s.len() implies !is_white_space(#[trigger] s[k]) by {
        if k < d.len() {
            assert(s[k] == d[k]);
            lemma_digit_not_white_space(d[k]);
        }
    }
    lemma_no_white_space_trim(s);
    lemma_accumulate_push(d, u, 0, u64_max());
    lemma_accumulate_decimal(n, u64_max());
    assert(s[0] == d[0]);
    lemma_digit_not_white_space(d[0]);
    assert(parse_unsigned(s, u64_max()) is Err);
    assert(s =~= d + seq![u]);
    lemma_scan_digits(d, seq![u], 0, Seq::empty());
    assert(Seq::<char>::empty() + d =~= d);
    law_decimal_reads_back(n, u64_max());
    assert(seq![u].drop_first() =~= Seq::<char>::empty());
    assert(n * unit_seconds(u) > 0) by (nonlinear_arith)
        requires
            n > 0,
            unit_seconds(u) >= 1,
    ;
    assert(!is_ascii_digit(u));
    assert(parse_unsigned(d, u64_max()) == Ok::<nat, IntErrorKind>(n));
    assert(scan_units(Seq::empty(), n * unit_seconds(u), Seq::empty()) == DurationOutcome::Seconds(
        n * unit_seconds(u),
    ));
    assert(scan_units(seq![u], 0, d) == DurationOutcome::Seconds(n * unit_seconds(u)));
    assert(scan_units(s, 0, Seq::empty()) == DurationOutcome::Seconds(n * unit_seconds(u)));
}

/// Two non-zero numbers written as `W:H` read back as that aspect ratio.
pub proof fn law_aspect_ratio_reads_back(w: nat, h: nat)
    requires
        0 < w <= u32_max(),
        0 < h <= u32_max(),
    ensures
        aspect_ratio_outcome(decimal(w) + ":"@ + decimal(h)) == Ok::<(nat, nat), Seq<char>>((w, h)),
{
    reveal_strlit(":");
    let dw = decimal(w);
    let dh = decimal(h);
    let s = dw + ":"@ + dh;
    lemma_decimal_digits(w);
    lemma_decimal_digits(h);
    assert forall|k: int| 0 <= k < dw.len() implies s[k] != ':' by {
        assert(s[k] == dw[k]);
        lemma_digit_not_white_space(dw[k]);
    }
    assert(s[dw.len() as int] == ':');
    lemma_index_of_unique(s, ':', dw.len());
    assert(s.take(dw.len() as int) =~= dw);
    assert(s.skip(dw.len() + 1 as int) =~= dh);
    assert forall|k: int| 0 <= k < dw.len() implies !is_white_space(#[trigger] dw[k]) by {
        lemma_digit_not_white_space(dw[k]);
    }
    assert forall|k: int| 0 <= k < dh.len() implies !is_white_space(#[trigger] dh[k]) by {
        lemma_digit_not_white_space(dh[k]);
    }
    lemma_no_white_space_trim(dw);
    lemma_no_white_space_trim(dh);
    law_decimal_reads_back(w, u32_max());
    law_decimal_reads_back(h, u32_max());
}

/// A duration written with units only: a non-empty text of ASCII digits and
/// unit letters (`h`, `m`, `s`) that ends in a unit letter.
pub open spec fn is_unit_form(t: Seq<char>) -> bool {
    &&& t.len() > 0
    &&& is_unit(t.last())
    &&& forall|k: int| 0 <= k < t.len() ==> is_ascii_digit(#[trigger] t[k]) || is_unit(t[k])
}

proof fn lemma_accumulate_fails_on_last(s: Seq<char>, acc: nat, max: nat)
    requires
        s.len() > 0,
        !is_ascii_digit(s.last()),
    ensures
        accumulate_digits(s, acc, max) is Err,
    decreases s.len(),
{
    if is_ascii_digit(s[0]) && acc * 10 + digit_value(s[0]) <= max {
        assert(s.len() > 1);
        assert(s.drop_first().last() == s.last());
        lemma_accumulate_fails_on_last(s.drop_first(), acc * 10 + digit_value(s[0]), max);
    }
}

/// A text in unit form is read unit by unit, never as a plain number.
proof fn lemma_unit_form_scans(t: Seq<char>)
    requires
        is_unit_form(t),
    ensures
        duration_outcome(t) == scan_units(t, 0, Seq::empty()),
{
    assert forall|k: int| 0 <= k < t.len() implies !is_white_space(#[trigger] t[k]) by {
        if is_ascii_digit(t[k]) {
            lemma_digit_not_white_space(t[k]);
        }
    }
    lemma_no_white_space_trim(t);
    assert(t[0] != '+') by {
        if is_ascii_digit(t[0]) {
            lemma_digit_not_white_space(t[0]);
        }
    }
    lemma_accumulate_fails_on_last(t, 0, u64_max());
}

/// Once a prefix has been read to a number of seconds, the rest is read
/// from that total with no pending digits.
proof fn lemma_scan_append(a: Seq<char>, r: Seq<char>, total: nat, current: Seq<char>, x: nat)
    requires
        scan_units(a, total, current) == DurationOutcome::Seconds(x),
    ensures
        scan_units(a + r, total, current) == scan_units(r, x, Seq::empty()),
    decreases a.len(),
{
    if a.len() == 0 {
        assert(a + r =~= r);
        assert(current =~= Seq::<char>::empty());
    } else {
        let c = a[0];
        assert((a + r)[0] == c);
        assert((a + r).drop_first() =~= a.drop_first() + r);
        if is_ascii_digit(c) {
            lemma_scan_append(a.drop_first(), r, total, current.push(c), x);
        } else {
            let v = parse_unsigned(current, u64_max())->Ok_0;
            let add = v * unit_seconds(c);
            lemma_scan_append(a.drop_first(), r, total + add, Seq::empty(), x);
        }
    }
}

/// Starting a reading `d` seconds higher ends `d` seconds higher, as long as
/// the result still fits in a `u64`.
proof fn lemma_scan_shift(b: Seq<char>, t0: nat, current: Seq<char>, y: nat, d: nat)
    requires
        scan_units(b, t0, current) == DurationOutcome::Seconds(y),
        y + d <= u64_max(),
    ensures
        t0 <= y,
        scan_units(b, t0 + d, current) == DurationOutcome::Seconds(y + d),
    decreases b.len(),
{
    if b.len() > 0 {
        let c = b[0];
        if is_ascii_digit(c) {
            lemma_scan_shift(b.drop_first(), t0, current.push(c), y, d);
        } else {
            let v = parse_unsigned(current, u64_max())->Ok_0;
            let add = v * unit_seconds(c);
            lemma_scan_shift(b.drop_first(), t0 + add, Seq::empty(), y, d);
            assert(t0 + d + add == t0 + add + d);
        }
    }
}

/// Durations written with units add up when written one after the other:
/// if `a` reads as `x` seconds and `b` as `y` seconds, `a` followed by `b`
/// reads as `x + y` seconds, when that fits in a `u64`. So `"30s1m"` reads
/// as `"1m30s"` does.
pub proof fn law_unit_durations_add(a: Seq<char>, b: Seq<char>, x: nat, y: nat)
    requires
        is_unit_form(a),
        is_unit_form(b),
        duration_outcome(a) == DurationOutcome::Seconds(x),
        duration_outcome(b) == DurationOutcome::Seconds(y),
        x + y <= u64_max(),
    ensures
        duration_outcome(a + b) == DurationOutcome::Seconds(x + y),
{
    lemma_unit_form_scans(a);
    lemma_unit_form_scans(b);
    let ab = a + b;
    assert(ab.last() == b.last());
    assert forall|k: int| 0 <= k < ab.len() implies is_ascii_digit(#[trigger] ab[k]) || is_unit(ab[k]) by {
        if k < a.len() {
            assert(ab[k] == a[k]);
        } else {
            assert(ab[k] == b[k - a.len()]);
        }
    }
    lemma_unit_form_scans(ab);
    lemma_scan_append(a, b, 0, Seq::empty(), x);
    lemma_scan_shift(b, 0, Seq::empty(), y, x);
    assert(0 + x == x);
    assert(y + x == x + y);
}

} // verus!
