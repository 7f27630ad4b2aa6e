//! Names of downloaded clips and the titles shown while they download.

use vstd::prelude::*;
use crate::text::{
    chars_of, digit_char, lemma_three_digits, lex_less, owned, push_char, push_zero_padded,
    zero_padded,
};
use crate::types::{extension_for_mime, extension_of};

verus! {

/// A character of a title as it is shown: line breaks and tabs become spaces.
pub open spec fn title_char(c: char) -> char {
    if c == '\n' || c == '\t' {
        ' '
    } else {
        c
    }
}

/// The title as it is shown: its first 60 characters, on one line.
pub open spec fn shown_title(title: Seq<char>) -> Seq<char> {
    let n = if title.len() < 60 {
        title.len() as int
    } else {
        60
    };
    title.take(n).map_values(|c: char| title_char(c))
}

/// The first 60 characters of a title, with newlines and tabs replaced by spaces.
pub fn trim_title(title: &str) -> (r: String)
    ensures
        r@ == shown_title(title@),
{
    let v = chars_of(title);
    let n: usize = if v.len() < 60 {
        v.len()
    } else {
        60
    };
    let mut out = String::new();
    let mut i: usize = 0;
    while i < n
        invariant
            i <= n <= v.len(),
            n == (if title@.len() < 60 { title@.len() as int } else { 60 }),
            v@ == title@,
            out@ == title@.take(i as int).map_values(|c: char| title_char(c)),
        decreases n - i,
    {
        let c = v[i];
        let shown = if c == '\n' || c == '\t' {
            ' '
        } else {
            c
        };
        push_char(&mut out, shown);
        assert(title@.take(i + 1) =~= title@.take(i as int).push(c));
        assert(out@ =~= title@.take(i + 1).map_values(|c: char| title_char(c)));
        i += 1;
    }
    out
}

/// The file name of clip `i`: `clip_` and the index with at least three
/// digits, then the extension of its MIME type.
pub open spec fn clip_file_name_of(i: nat, mime: Seq<char>) -> Seq<char> {
    "clip_"@ + zero_padded(i, 3) + extension_of(mime)
}

/// The file name a clip is downloaded to.
pub fn clip_file_name(i: usize, mime: &str) -> (r: String)
    ensures
        r@ == clip_file_name_of(i as nat, mime@),
{
    let mut name = owned("clip_");
    push_zero_padded(&mut name, i as u64, 3);
    name.append(extension_for_mime(mime));
    name
}

/// A shown title is at most 60 characters long and holds no line break or tab.
pub proof fn law_shown_title_fits_one_line(title: Seq<char>)
    ensures
        shown_title(title).len() <= 60,
        forall|k: int|
            0 <= k < shown_title(title).len() ==> #[trigger] shown_title(title)[k] != '\n'
                && shown_title(title)[k] != '\t',
{
}

proof fn lemma_digit_char_code(x: nat)
    requires
        x < 10,
    ensures
        digit_char(x) as u32 == 48 + x,
{
}

proof fn lemma_three_digit_order(i: nat, j: nat)
    requires
        i < j < 1000,
    ensures
        i / 100 < j / 100 || (i / 100 == j / 100 && ((i / 10) % 10 < (j / 10) % 10 || ((i / 10) % 10
            == (j / 10) % 10 && i % 10 < j % 10))),
{
    assert(i == 100 * (i / 100) + 10 * ((i / 10) % 10) + i % 10);
    assert(j == 100 * (j / 100) + 10 * ((j / 10) % 10) + j % 10);
}

/// Downloads are put back in order by sorting their file names: for the
/// first thousand clips, the name of an earlier clip sorts before the name
/// of a later one, whatever their extensions.
pub proof fn law_clip_names_sort_in_order(i: nat, j: nat, mime_i: Seq<char>, mime_j: Seq<char>)
    requires
        i < j < 1000,
    ensures
        lex_less(clip_file_name_of(i, mime_i), clip_file_name_of(j, mime_j)),
{
    reveal_strlit("clip_");
    lemma_three_digits(i);
    lemma_three_digits(j);
    lemma_three_digit_order(i, j);
    let a = clip_file_name_of(i, mime_i);
    let b = clip_file_name_of(j, mime_j);
    let pre = "clip_"@;
    let da = zero_padded(i, 3);
    let db = zero_padded(j, 3);
    assert(a == pre + da + crate::types::extension_of(mime_i));
    assert(b == pre + db + crate::types::extension_of(mime_j));
    assert(a.take(5) =~= pre);
    assert(b.take(5) =~= pre);
    let k: int = if i / 100 != j / 100 {
        0
    } else if (i / 10) % 10 != (j / 10) % 10 {
        1
    } else {
        2
    };
    assert(da.take(k) =~= db.take(k));
    assert(a.take(5 + k) =~= pre + da.take(k));
    assert(b.take(5 + k) =~= pre + db.take(k));
    assert(a[5 + k] == da[k]);
    assert(b[5 + k] == db[k]);
    lemma_digit_char_code(i / 100);
    lemma_digit_char_code(j / 100);
    lemma_digit_char_code((i / 10) % 10);
    lemma_digit_char_code((j / 10) % 10);
    lemma_digit_char_code(i % 10);
    lemma_digit_char_code(j % 10);
    assert((a[5 + k] as u32) < (b[5 + k] as u32));
}

} // verus!
