//! Character-level building blocks shared by the parsers and formatters:
//! a model of Unicode white space and trimming, decimal rendering, and
//! helpers that build `String`s from character sequences.

use vstd::prelude::*;

verus! {

/// Unicode `White_Space`: the characters that `char::is_whitespace` accepts
/// (U+0009..U+000D, U+0020, U+0085, U+00A0, U+1680, U+2000..U+200A,
/// U+2028, U+2029, U+202F, U+205F, U+3000).
pub open spec fn is_white_space(c: char) -> bool {
    let u = c as u32;
    ||| 9 <= u <= 13
    ||| u == 32
    ||| u == 0x85
    ||| u == 0xA0
    ||| u == 0x1680
    ||| 0x2000 <= u <= 0x200A
    ||| u == 0x2028
    ||| u == 0x2029
    ||| u == 0x202F
    ||| u == 0x205F
    ||| u == 0x3000
}

/// `s` without its leading white space.
pub open spec fn trim_start(s: Seq<char>) -> Seq<char>
    decreases s.len(),
{
    if s.len() > 0 && is_white_space(s[0]) {
        trim_start(s.drop_first())
    } else {
        s
    }
}

/// `s` without its trailing white space.
pub open spec fn trim_end(s: Seq<char>) -> Seq<char>
    decreases s.len(),
{
    if s.len() > 0 && is_white_space(s.last()) {
        trim_end(s.drop_last())
    } else {
        s
    }
}

/// `s` without leading and trailing white space, as `str::trim` gives it.
pub open spec fn trim(s: Seq<char>) -> Seq<char> {
    trim_end(trim_start(s))
}

/// The ASCII decimal digit for `d < 10`.
pub open spec fn digit_char(d: nat) -> char {
    if d == 0 {
        '0'
    } else if d == 1 {
        '1'
    } else if d == 2 {
        '2'
    } else if d == 3 {
        '3'
    } else if d == 4 {
        '4'
    } else if d == 5 {
        '5'
    } else if d == 6 {
        '6'
    } else if d == 7 {
        '7'
    } else if d == 8 {
        '8'
    } else {
        '9'
    }
}

/// `'0'..='9'`.
pub open spec fn is_ascii_digit(c: char) -> bool {
    '0' <= c && c <= '9'
}

/// The value of an ASCII decimal digit.
pub open spec fn digit_value(c: char) -> nat {
    (c as u32 - 48) as nat
}

/// The decimal rendering of `n`, without sign or leading zeros.
pub open spec fn decimal(n: nat) -> Seq<char>
    decreases n,
{
    if n < 10 {
        seq![digit_char(n)]
    } else {
        decimal(n / 10).push(digit_char(n % 10))
    }
}

/// `n` rendered in decimal, left-padded with `'0'` to at least `width` characters.
pub open spec fn zero_padded(n: nat, width: nat) -> Seq<char> {
    let d = decimal(n);
    if d.len() >= width {
        d
    } else {
        Seq::new((width - d.len()) as nat, |i: int| '0') + d
    }
}

/// The pieces of `parts` with `sep` between consecutive ones.
pub open spec fn join(parts: Seq<Seq<char>>, sep: Seq<char>) -> Seq<char>
    decreases parts.len(),
{
    if parts.len() == 0 {
        Seq::empty()
    } else if parts.len() == 1 {
        parts[0]
    } else {
        join(parts.drop_last(), sep) + sep + parts.last()
    }
}

/// The views of a vector of strings.
pub open spec fn views(v: Seq<String>) -> Seq<Seq<char>> {
    v.map_values(|s: String| s@)
}

/// `String::push`: appends one character.
#[verifier::external_body]
pub(crate) fn push_char(s: &mut String, c: char)
    ensures
        final(s)@ == old(s)@.push(c),
{
    s.push(c);
}

/// The characters of a string slice, in order.
pub fn chars_of(s: &str) -> (r: Vec<char>)
    ensures
        r@ == s@,
{
    let mut r: Vec<char> = Vec::new();
    for c in it: s.chars()
        invariant
            r@ == it.seq().take(it.index() as int),
            it.seq() == s@,
    {
        r.push(c);
    }
    r
}

/// Appends the characters `v[from..to]` to `s`.
pub(crate) fn push_chars(s: &mut String, v: &Vec<char>, from: usize, to: usize)
    requires
        from <= to <= v.len(),
    ensures
        final(s)@ == old(s)@ + v@.subrange(from as int, to as int),
{
    let mut i = from;
    while i < to
        invariant
            from <= i <= to <= v.len(),
            s@ == old(s)@ + v@.subrange(from as int, i as int),
        decreases to - i,
    {
        push_char(s, v[i]);
        i += 1;
        assert(v@.subrange(from as int, i as int) =~= v@.subrange(from as int, i - 1).push(
            v@[i - 1],
        ));
    }
}

/// A new `String` holding the characters of `v`.
pub fn string_of(v: &Vec<char>) -> (r: String)
    ensures
        r@ == v@,
{
    let mut s = String::new();
    push_chars(&mut s, v, 0, v.len());
    assert(v@.subrange(0, v.len() as int) =~= v@);
    s
}

/// A new `String` holding the characters of `s`.
pub fn owned(s: &str) -> (r: String)
    ensures
        r@ == s@,
{
    String::from_str(s)
}

/// Executable `is_white_space`.
pub fn white_space(c: char) -> (r: bool)
    ensures
        r == is_white_space(c),
{
    let u = c as u32;
    (9 <= u && u <= 13) || u == 32 || u == 0x85 || u == 0xA0 || u == 0x1680 || (0x2000 <= u && u
        <= 0x200A) || u == 0x2028 || u == 0x2029 || u == 0x202F || u == 0x205F || u == 0x3000
}

proof fn lemma_trim_start_skip(s: Seq<char>, i: int)
    requires
        0 <= i <= s.len(),
        forall|k: int| 0 <= k < i ==> is_white_space(#[trigger] s[k]),
    ensures
        trim_start(s) == trim_start(s.subrange(i, s.len() as int)),
    decreases i,
{
    if i > 0 {
        lemma_trim_start_skip(s.drop_first(), i - 1);
        assert(s.drop_first().subrange(i - 1, s.len() - 1) =~= s.subrange(i, s.len() as int));
    } else {
        assert(s.subrange(0, s.len() as int) =~= s);
    }
}

proof fn lemma_trim_end_cut(s: Seq<char>, j: int)
    requires
        0 <= j <= s.len(),
        forall|k: int| j <= k < s.len() ==> is_white_space(#[trigger] s[k]),
    ensures
        trim_end(s) == trim_end(s.subrange(0, j)),
    decreases s.len() - j,
{
    if j < s.len() {
        lemma_trim_end_cut(s.drop_last(), j);
        assert(s.drop_last().subrange(0, j) =~= s.subrange(0, j));
    } else {
        assert(s.subrange(0, j) =~= s);
    }
}

/// The characters of `v[from..to]` without leading and trailing white space,
/// as the bounds of that range.
pub fn trim_bounds(v: &Vec<char>, from: usize, to: usize) -> (r: (usize, usize))
    requires
        from <= to <= v.len(),
    ensures
        from <= r.0 <= r.1 <= to,
        v@.subrange(r.0 as int, r.1 as int) == trim(v@.subrange(from as int, to as int)),
{
    let ghost s = v@.subrange(from as int, to as int);
    let mut i = from;
    while i < to && white_space(v[i])
        invariant
            from <= i <= to <= v.len(),
            s == v@.subrange(from as int, to as int),
            forall|k: int| from <= k < i ==> is_white_space(#[trigger] v@[k]),
        decreases to - i,
    {
        i += 1;
    }
    proof {
        assert forall|k: int| 0 <= k < i - from implies is_white_space(#[trigger] s[k]) by {
            assert(s[k] == v@[from + k]);
        }
        lemma_trim_start_skip(s, i - from);
        assert(s.subrange(i - from, s.len() as int) =~= v@.subrange(i as int, to as int));
        if i < to {
            assert(!is_white_space(v@.subrange(i as int, to as int)[0]));
        }
    }
    let ghost t = v@.subrange(i as int, to as int);
    assert(trim_start(s) == t);
    let mut j = to;
    while j > i && white_space(v[j - 1])
        invariant
            from <= i <= j <= to <= v.len(),
            t == v@.subrange(i as int, to as int),
            forall|k: int| j <= k < to ==> is_white_space(#[trigger] v@[k]),
        decreases j - i,
    {
        j -= 1;
    }
    proof {
        assert forall|k: int| j - i <= k < t.len() implies is_white_space(#[trigger] t[k]) by {
            assert(t[k] == v@[i + k]);
        }
        lemma_trim_end_cut(t, j - i);
        assert(t.subrange(0, j - i) =~= v@.subrange(i as int, j as int));
        let u = v@.subrange(i as int, j as int);
        if j > i {
            assert(u.last() == v@[j - 1]);
        }
    }
    (i, j)
}

/// `str::trim` on a character vector.
pub fn trimmed(v: &Vec<char>) -> (r: Vec<char>)
    ensures
        r@ == trim(v@),
{
    let (a, b) = trim_bounds(v, 0, v.len());
    assert(v@.subrange(0, v.len() as int) =~= v@);
    let mut r: Vec<char> = Vec::new();
    let mut k = a;
    while k < b
        invariant
            a <= k <= b <= v.len(),
            r@ == v@.subrange(a as int, k as int),
        decreases b - k,
    {
        r.push(v[k]);
        k += 1;
        assert(r@ =~= v@.subrange(a as int, k as int));
    }
    r
}

/// The ASCII digit for `d < 10`.
pub fn digit(d: u64) -> (c: char)
    requires
        d < 10,
    ensures
        c == digit_char(d as nat),
{
    if d == 0 {
        '0'
    } else if d == 1 {
        '1'
    } else if d == 2 {
        '2'
    } else if d == 3 {
        '3'
    } else if d == 4 {
        '4'
    } else if d == 5 {
        '5'
    } else if d == 6 {
        '6'
    } else if d == 7 {
        '7'
    } else if d == 8 {
        '8'
    } else {
        '9'
    }
}

/// Appends the decimal rendering of `n` to `s`.
pub fn push_decimal(s: &mut String, n: u64)
    ensures
        final(s)@ == old(s)@ + decimal(n as nat),
    decreases n,
{
    if n >= 10 {
        push_decimal(s, n / 10);
    }
    push_char(s, digit(n % 10));
    proof {
        if n >= 10 {
            assert(decimal(n as nat) == decimal((n / 10) as nat).push(digit_char((n % 10) as nat)));
        }
    }
    assert(s@ =~= old(s)@ + decimal(n as nat));
}

/// The decimal rendering of `n`.
pub fn decimal_string(n: u64) -> (r: String)
    ensures
        r@ == decimal(n as nat),
{
    let mut s = String::new();
    push_decimal(&mut s, n);
    assert(s@ =~= decimal(n as nat));
    s
}

pub proof fn lemma_decimal_len(n: nat)
    ensures
        decimal(n).len() >= 1,
        n < 10 <==> decimal(n).len() == 1,
        n < 100 ==> decimal(n).len() <= 2,
    decreases n,
{
    if n >= 10 {
        lemma_decimal_len(n / 10);
    }
}

/// Appends `n` in decimal, left-padded with `'0'` to at least `width` characters.
pub fn push_zero_padded(s: &mut String, n: u64, width: usize)
    ensures
        final(s)@ == old(s)@ + zero_padded(n as nat, width as nat),
{
    let d = decimal_string(n);
    let dv = chars_of(d.as_str());
    let mut k = dv.len();
    while k < width
        invariant
            dv@ == decimal(n as nat),
            dv.len() <= k <= width || (k == dv.len() && k >= width),
            s@ == old(s)@ + Seq::new((k - dv.len()) as nat, |i: int| '0'),
        decreases width - k,
    {
        push_char(s, '0');
        k += 1;
        assert(s@ =~= old(s)@ + Seq::new((k - dv.len()) as nat, |i: int| '0'));
    }
    s.append(d.as_str());
    proof {
        if dv.len() >= width {
            assert(Seq::new(0nat, |i: int| '0') =~= Seq::<char>::empty());
        }
    }
    assert(s@ =~= old(s)@ + zero_padded(n as nat, width as nat));
}

} // verus!

verus! {

/// A new vector holding `v[from..to]`.
pub fn sub_vec(v: &Vec<char>, from: usize, to: usize) -> (r: Vec<char>)
    requires
        from <= to <= v.len(),
    ensures
        r@ == v@.subrange(from as int, to as int),
{
    let mut r: Vec<char> = Vec::new();
    let mut k = from;
    while k < to
        invariant
            from <= k <= to <= v.len(),
            r@ == v@.subrange(from as int, k as int),
        decreases to - k,
    {
        r.push(v[k]);
        k += 1;
        assert(r@ =~= v@.subrange(from as int, k as int));
    }
    r
}

/// Whether two character vectors hold the same characters.
pub fn same_chars(a: &Vec<char>, b: &Vec<char>) -> (r: bool)
    ensures
        r == (a@ == b@),
{
    if a.len() != b.len() {
        return false;
    }
    let mut k: usize = 0;
    while k < a.len()
        invariant
            a.len() == b.len(),
            k <= a.len(),
            forall|j: int| 0 <= j < k ==> a@[j] == b@[j],
        decreases a.len() - k,
    {
        if a[k] != b[k] {
            return false;
        }
        k += 1;
    }
    assert(a@ =~= b@);
    true
}

/// Whether two string slices hold the same text.
pub fn same_text(a: &str, b: &str) -> (r: bool)
    ensures
        r == (a@ == b@),
{
    let va = chars_of(a);
    let vb = chars_of(b);
    same_chars(&va, &vb)
}

/// The position of the first `c` in `s`, if there is one.
pub open spec fn index_of(s: Seq<char>, c: char) -> Option<nat>
    decreases s.len(),
{
    if s.len() == 0 {
        None
    } else if s[0] == c {
        Some(0)
    } else {
        match index_of(s.drop_first(), c) {
            Some(k) => Some(k + 1),
            None => None,
        }
    }
}

pub proof fn lemma_index_of(s: Seq<char>, c: char)
    ensures
        index_of(s, c) matches Some(k) ==> k < s.len() && s[k as int] == c && forall|j: int|
            0 <= j < k ==> s[j] != c,
        index_of(s, c) is None ==> forall|j: int| 0 <= j < s.len() ==> s[j] != c,
    decreases s.len(),
{
    if s.len() > 0 && s[0] != c {
        lemma_index_of(s.drop_first(), c);
        if let Some(k) = index_of(s.drop_first(), c) {
            assert forall|j: int| 0 <= j < k + 1 implies s[j] != c by {
                if j > 0 {
                    assert(s[j] == s.drop_first()[j - 1]);
                }
            }
        } else {
            assert forall|j: int| 0 <= j < s.len() implies s[j] != c by {
                if j > 0 {
                    assert(s[j] == s.drop_first()[j - 1]);
                }
            }
        }
    }
}

pub proof fn lemma_index_of_unique(s: Seq<char>, c: char, k: nat)
    requires
        k < s.len(),
        s[k as int] == c,
        forall|j: int| 0 <= j < k ==> s[j] != c,
    ensures
        index_of(s, c) == Some(k),
    decreases k,
{
    if k > 0 {
        lemma_index_of_unique(s.drop_first(), c, (k - 1) as nat);
    }
}

/// The position of the first `c` in `v`, if there is one.
pub fn find_char(v: &Vec<char>, c: char) -> (r: Option<usize>)
    ensures
        match index_of(v@, c) {
            Some(k) => r == Some(k as usize),
            None => r is None,
        },
{
    let mut k: usize = 0;
    while k < v.len()
        invariant
            k <= v.len(),
            forall|j: int| 0 <= j < k ==> v@[j] != c,
        decreases v.len() - k,
    {
        if v[k] == c {
            proof {
                lemma_index_of_unique(v@, c, k as nat);
            }
            return Some(k);
        }
        k += 1;
    }
    proof {
        lemma_index_of(v@, c);
    }
    None
}

} // verus!

verus! {

/// `s` cut at every `sep`, as `str::split` cuts it: one piece more than there
/// are separators, pieces possibly empty.
pub open spec fn split_on(s: Seq<char>, sep: char) -> Seq<Seq<char>>
    decreases s.len(),
{
    match index_of(s, sep) {
        None => seq![s],
        Some(k) => {
            proof {
                lemma_index_of(s, sep);
            }
            seq![s.take(k as int)] + split_on(s.skip(k + 1 as int), sep)
        },
    }
}

/// Each piece trimmed of white space, the empty ones left out.
pub open spec fn nonempty_trimmed(parts: Seq<Seq<char>>) -> Seq<Seq<char>>
    decreases parts.len(),
{
    if parts.len() == 0 {
        Seq::empty()
    } else {
        let t = trim(parts[0]);
        (if t.len() > 0 {
            seq![t]
        } else {
            Seq::<Seq<char>>::empty()
        }) + nonempty_trimmed(parts.drop_first())
    }
}

/// The non-empty pieces, in order.
pub open spec fn nonempty_pieces(parts: Seq<Seq<char>>) -> Seq<Seq<char>>
    decreases parts.len(),
{
    if parts.len() == 0 {
        Seq::empty()
    } else {
        (if parts[0].len() > 0 {
            seq![parts[0]]
        } else {
            Seq::<Seq<char>>::empty()
        }) + nonempty_pieces(parts.drop_first())
    }
}

pub proof fn lemma_split_no_sep(s: Seq<char>, sep: char)
    requires
        forall|j: int| 0 <= j < s.len() ==> s[j] != sep,
    ensures
        split_on(s, sep) == seq![s],
{
    lemma_index_of(s, sep);
}

pub proof fn lemma_split_cons(a: Seq<char>, rest: Seq<char>, sep: char)
    requires
        forall|j: int| 0 <= j < a.len() ==> a[j] != sep,
    ensures
        split_on(a + seq![sep] + rest, sep) == seq![a] + split_on(rest, sep),
{
    let s = a + seq![sep] + rest;
    assert forall|j: int| 0 <= j < a.len() implies s[j] != sep by {
        assert(s[j] == a[j]);
    }
    lemma_index_of_unique(s, sep, a.len());
    assert(s.take(a.len() as int) =~= a);
    assert(s.skip(a.len() + 1 as int) =~= rest);
}

pub proof fn lemma_nonempty_trimmed_cons(p: Seq<char>, rest: Seq<Seq<char>>)
    ensures
        nonempty_trimmed(seq![p] + rest) == (if trim(p).len() > 0 {
            seq![trim(p)]
        } else {
            Seq::<Seq<char>>::empty()
        }) + nonempty_trimmed(rest),
{
    let s = seq![p] + rest;
    assert(s[0] == p);
    assert(s.drop_first() =~= rest);
}

pub proof fn lemma_nonempty_pieces_cons(p: Seq<char>, rest: Seq<Seq<char>>)
    ensures
        nonempty_pieces(seq![p] + rest) == (if p.len() > 0 {
            seq![p]
        } else {
            Seq::<Seq<char>>::empty()
        }) + nonempty_pieces(rest),
{
    let s = seq![p] + rest;
    assert(s[0] == p);
    assert(s.drop_first() =~= rest);
}

/// The pieces of `v` between the separators `sep`, each trimmed of white
/// space, the empty ones left out.
pub fn trimmed_pieces(v: &Vec<char>, sep: char) -> (r: Vec<String>)
    ensures
        views(r@) == nonempty_trimmed(split_on(v@, sep)),
{
    let mut done: Vec<String> = Vec::new();
    let mut start: usize = 0;
    let mut i: usize = 0;
    assert(v@.skip(0) =~= v@);
    while i < v.len()
        invariant
            start <= i <= v.len(),
            forall|j: int| start <= j < i ==> v@[j] != sep,
            nonempty_trimmed(split_on(v@, sep)) == views(done@) + nonempty_trimmed(
                split_on(v@.skip(start as int), sep),
            ),
        decreases v.len() - i,
    {
        if v[i] == sep {
            let ghost piece = v@.subrange(start as int, i as int);
            proof {
                assert(v@.skip(start as int) =~= piece + seq![sep] + v@.skip(i + 1));
                lemma_split_cons(piece, v@.skip(i + 1), sep);
                lemma_nonempty_trimmed_cons(piece, split_on(v@.skip(i + 1), sep));
            }
            let (a, b) = trim_bounds(v, start, i);
            if a < b {
                let t = sub_vec(v, a, b);
                let ts = string_of(&t);
                let ghost before = done@;
                done.push(ts);
                assert(views(done@) =~= views(before) + seq![trim(piece)]);
            }
            start = i + 1;
        }
        i += 1;
    }
    let ghost piece = v@.subrange(start as int, v.len() as int);
    proof {
        assert(v@.skip(start as int) =~= piece);
        lemma_split_no_sep(piece, sep);
        assert(seq![piece] =~= seq![piece] + Seq::<Seq<char>>::empty());
        lemma_nonempty_trimmed_cons(piece, Seq::empty());
    }
    let (a, b) = trim_bounds(v, start, v.len());
    if a < b {
        let t = sub_vec(v, a, b);
        let ts = string_of(&t);
        let ghost before = done@;
        done.push(ts);
        assert(views(done@) =~= views(before) + seq![trim(piece)]);
    } else {
        assert(views(done@) =~= views(done@) + Seq::<Seq<char>>::empty());
    }
    done
}

} // verus!

verus! {

pub proof fn lemma_join_push(parts: Seq<Seq<char>>, p: Seq<char>, sep: Seq<char>)
    ensures
        join(parts.push(p), sep) == if parts.len() == 0 {
            p
        } else {
            join(parts, sep) + sep + p
        },
{
    assert(parts.push(p).drop_last() =~= parts);
    if parts.len() == 0 {
        assert(parts.push(p).len() == 1);
    }
}

/// The strings of `parts` with `sep` between consecutive ones.
pub fn join_strings(parts: &Vec<String>, sep: &str) -> (r: String)
    ensures
        r@ == join(views(parts@), sep@),
{
    let mut out = String::new();
    let mut i: usize = 0;
    while i < parts.len()
        invariant
            i <= parts.len(),
            out@ == join(views(parts@).take(i as int), sep@),
        decreases parts.len() - i,
    {
        proof {
            lemma_join_push(views(parts@).take(i as int), parts@[i as int]@, sep@);
            assert(views(parts@).take(i + 1) =~= views(parts@).take(i as int).push(parts@[i as int]@));
        }
        if i > 0 {
            out.append(sep);
        }
        out.append(parts[i].as_str());
        i += 1;
    }
    assert(views(parts@).take(parts.len() as int) =~= views(parts@));
    out
}

} // verus!

verus! {

proof fn lemma_trim_start_suffix(s: Seq<char>)
    ensures
        exists|i: int| 0 <= i <= s.len() && trim_start(s) == s.subrange(i, s.len() as int),
        trim_start(s).len() > 0 ==> !is_white_space(trim_start(s)[0]),
    decreases s.len(),
{
    if s.len() > 0 && is_white_space(s[0]) {
        lemma_trim_start_suffix(s.drop_first());
        let i = choose|i: int|
            0 <= i <= s.drop_first().len() && trim_start(s.drop_first()) == s.drop_first().subrange(
                i,
                s.drop_first().len() as int,
            );
        assert(s.drop_first().subrange(i, s.drop_first().len() as int) =~= s.subrange(
            i + 1,
            s.len() as int,
        ));
    } else {
        assert(s.subrange(0, s.len() as int) =~= s);
    }
}

proof fn lemma_trim_end_prefix(s: Seq<char>)
    ensures
        exists|j: int| 0 <= j <= s.len() && trim_end(s) == s.subrange(0, j),
        trim_end(s).len() > 0 ==> !is_white_space(trim_end(s).last()),
    decreases s.len(),
{
    if s.len() > 0 && is_white_space(s.last()) {
        lemma_trim_end_prefix(s.drop_last());
        let j = choose|j: int|
            0 <= j <= s.drop_last().len() && trim_end(s.drop_last()) == s.drop_last().subrange(0, j);
        assert(s.drop_last().subrange(0, j) =~= s.subrange(0, j));
    } else {
        assert(s.subrange(0, s.len() as int) =~= s);
    }
}

/// `trim(s)` is a stretch of `s` that neither starts nor ends with white space.
pub proof fn lemma_trim_shape(s: Seq<char>)
    ensures
        exists|a: int, b: int| 0 <= a <= b <= s.len() && trim(s) == s.subrange(a, b),
        trim(s).len() > 0 ==> !is_white_space(trim(s)[0]) && !is_white_space(trim(s).last()),
{
    lemma_trim_start_suffix(s);
    let t = trim_start(s);
    lemma_trim_end_prefix(t);
    let i = choose|i: int| 0 <= i <= s.len() && t == s.subrange(i, s.len() as int);
    let j = choose|j: int| 0 <= j <= t.len() && trim_end(t) == t.subrange(0, j);
    assert(t.subrange(0, j) =~= s.subrange(i, i + j));
    if trim(s).len() > 0 {
        assert(trim(s)[0] == t[0]);
    }
}

/// No piece of `split_on(s, sep)` holds `sep`, and every character of a
/// piece is a character of `s`.
pub proof fn lemma_split_pieces(s: Seq<char>, sep: char)
    ensures
        forall|i: int, k: int|
            0 <= i < split_on(s, sep).len() && 0 <= k < split_on(s, sep)[i].len() ==> split_on(
                s,
                sep,
            )[i][k] != sep && s.contains(split_on(s, sep)[i][k]),
    decreases s.len(),
{
    lemma_index_of(s, sep);
    match index_of(s, sep) {
        None => {
            assert forall|i: int, k: int|
                0 <= i < split_on(s, sep).len() && 0 <= k < split_on(s, sep)[i].len() implies split_on(
                s,
                sep,
            )[i][k] != sep && s.contains(split_on(s, sep)[i][k]) by {
                assert(split_on(s, sep)[i] == s);
            }
        },
        Some(k0) => {
            let rest = s.skip(k0 + 1 as int);
            lemma_split_pieces(rest, sep);
            let parts = split_on(s, sep);
            assert(parts == seq![s.take(k0 as int)] + split_on(rest, sep));
            assert forall|i: int, k: int|
                0 <= i < parts.len() && 0 <= k < parts[i].len() implies parts[i][k] != sep
                && s.contains(parts[i][k]) by {
                if i == 0 {
                    assert(parts[0] == s.take(k0 as int));
                    assert(s[k] == parts[i][k]);
                } else {
                    assert(parts[i] == split_on(rest, sep)[i - 1]);
                    let c = parts[i][k];
                    assert(rest.contains(c));
                    let m = choose|m: int| 0 <= m < rest.len() && rest[m] == c;
                    assert(s[k0 + 1 + m] == c);
                }
            }
        },
    }
}

/// Every piece of `nonempty_trimmed(parts)` is the trimmed form of a piece of `parts`, and not empty.
pub proof fn lemma_nonempty_trimmed_members(parts: Seq<Seq<char>>)
    ensures
        forall|i: int|
            0 <= i < nonempty_trimmed(parts).len() ==> #[trigger] nonempty_trimmed(parts)[i].len() > 0
                && exists|j: int| 0 <= j < parts.len() && nonempty_trimmed(parts)[i] == trim(parts[j]),
    decreases parts.len(),
{
    if parts.len() > 0 {
        lemma_nonempty_trimmed_members(parts.drop_first());
        let t = trim(parts[0]);
        let head = if t.len() > 0 {
            seq![t]
        } else {
            Seq::<Seq<char>>::empty()
        };
        let r = nonempty_trimmed(parts);
        assert(r == head + nonempty_trimmed(parts.drop_first()));
        assert forall|i: int| 0 <= i < r.len() implies #[trigger] r[i].len() > 0 && exists|j: int|
            0 <= j < parts.len() && r[i] == trim(parts[j]) by {
            if i < head.len() {
                assert(r[i] == trim(parts[0]));
            } else {
                let q = nonempty_trimmed(parts.drop_first());
                assert(r[i] == q[i - head.len()]);
                let j = choose|j: int|
                    0 <= j < parts.drop_first().len() && q[i - head.len()] == trim(
                        parts.drop_first()[j],
                    );
                assert(parts.drop_first()[j] == parts[j + 1]);
            }
        }
    }
}

/// Every piece of `nonempty_pieces(parts)` is a piece of `parts`, and not empty.
pub proof fn lemma_nonempty_pieces_members(parts: Seq<Seq<char>>)
    ensures
        forall|i: int|
            0 <= i < nonempty_pieces(parts).len() ==> #[trigger] nonempty_pieces(parts)[i].len() > 0
                && parts.contains(nonempty_pieces(parts)[i]),
    decreases parts.len(),
{
    if parts.len() > 0 {
        lemma_nonempty_pieces_members(parts.drop_first());
        let head = if parts[0].len() > 0 {
            seq![parts[0]]
        } else {
            Seq::<Seq<char>>::empty()
        };
        let r = nonempty_pieces(parts);
        assert(r == head + nonempty_pieces(parts.drop_first()));
        assert forall|i: int| 0 <= i < r.len() implies #[trigger] r[i].len() > 0 && parts.contains(
            r[i],
        ) by {
            if i < head.len() {
                assert(r[i] == parts[0]);
            } else {
                let q = nonempty_pieces(parts.drop_first());
                assert(r[i] == q[i - head.len()]);
                let j = choose|j: int| 0 <= j < parts.drop_first().len() && parts.drop_first()[j] == q[i - head.len()];
                assert(parts[j + 1] == r[i]);
            }
        }
    }
}

/// `a` comes before `b` in lexicographic character order.
pub open spec fn lex_less(a: Seq<char>, b: Seq<char>) -> bool {
    ||| exists|k: int|
        0 <= k < a.len() && k < b.len() && a.take(k) == b.take(k) && (a[k] as u32) < (b[k] as u32)
    ||| a.len() < b.len() && b.take(a.len() as int) == a
}

/// The three-digit rendering of a number below 1000.
pub proof fn lemma_three_digits(n: nat)
    requires
        n < 1000,
    ensures
        zero_padded(n, 3) == seq![digit_char(n / 100), digit_char((n / 10) % 10), digit_char(n % 10)],
{
    if n < 10 {
        assert(decimal(n) == seq![digit_char(n)]);
        assert(zero_padded(n, 3) =~= seq!['0', '0', digit_char(n)]);
    } else if n < 100 {
        assert(decimal(n / 10) == seq![digit_char(n / 10)]);
        assert(decimal(n) =~= seq![digit_char(n / 10), digit_char(n % 10)]);
        assert(zero_padded(n, 3) =~= seq!['0', digit_char(n / 10), digit_char(n % 10)]);
    } else {
        assert(decimal(n / 100) == seq![digit_char(n / 100)]);
        assert((n / 10) / 10 == n / 100);
        assert(decimal(n / 10) =~= seq![digit_char(n / 100), digit_char((n / 10) % 10)]);
        assert(decimal(n) =~= seq![digit_char(n / 100), digit_char((n / 10) % 10), digit_char(n % 10)]);
    }
}

} // verus!
