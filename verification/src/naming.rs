//! Output file names: slugs of the people and tags that were filtered on,
//! followed by a random identifier made of words.

use vstd::prelude::*;
use rand::prelude::IndexedRandom;
use crate::text::{
    chars_of, join, lemma_index_of, lemma_join_push, lemma_nonempty_pieces_members, lemma_split_pieces, lemma_nonempty_pieces_cons, lemma_split_cons, lemma_split_no_sep,
    index_of, nonempty_pieces, nonempty_trimmed, owned, push_char, push_chars, split_on, trimmed_pieces,
    views,
};

verus! {

/// What `str::to_lowercase` returns for `s`: each character replaced by its
/// Unicode lower-case mapping.
pub uninterp spec fn lowercase_of(s: Seq<char>) -> Seq<char>;

/// What `char::is_alphanumeric` returns for `c`: whether `c` is alphabetic or numeric in Unicode.
pub uninterp spec fn is_alphanumeric_char(c: char) -> bool;

/// `str::to_lowercase`: the lower-case form of `s`.
#[verifier::external_body]
fn to_lowercase(s: &str) -> (r: String)
    ensures
        r@ == lowercase_of(s@),
{
    s.to_lowercase()
}

/// `char::is_alphanumeric`: whether `c` is a Unicode letter or number.
#[verifier::external_body]
fn alphanumeric(c: char) -> (r: bool)
    ensures
        r == is_alphanumeric_char(c),
{
    c.is_alphanumeric()
}

/// A character kept as it is in a slug, or `'-'` for any that is not alphanumeric.
pub open spec fn slug_char(c: char) -> char {
    if is_alphanumeric_char(c) {
        c
    } else {
        '-'
    }
}

/// The slug of `s`: lower-cased, every run of non-alphanumeric characters
/// turned into a single `'-'`, with none at either end.
pub open spec fn slug_of(s: Seq<char>) -> Seq<char> {
    join(nonempty_pieces(split_on(lowercase_of(s).map_values(|c: char| slug_char(c)), '-')), "-"@)
}

/// Appends `piece` to a text that joins `done` by `sep`, when `piece` is not empty.
fn push_piece(
    out: &mut String,
    any: &mut bool,
    v: &Vec<char>,
    from: usize,
    to: usize,
    sep: char,
    Ghost(done): Ghost<Seq<Seq<char>>>,
) -> (r: Ghost<Seq<Seq<char>>>)
    requires
        from <= to <= v.len(),
        *old(any) == (done.len() > 0),
        old(out)@ == join(done, seq![sep]),
    ensures
        r@ == done + nonempty_pieces(seq![v@.subrange(from as int, to as int)]),
        *final(any) == (r@.len() > 0),
        final(out)@ == join(r@, seq![sep]),
{
    let ghost piece = v@.subrange(from as int, to as int);
    proof {
        assert(seq![piece] =~= seq![piece] + Seq::<Seq<char>>::empty());
        lemma_nonempty_pieces_cons(piece, Seq::empty());
    }
    if from < to {
        proof {
            lemma_join_push(done, piece, seq![sep]);
        }
        if *any {
            push_char(out, sep);
        }
        push_chars(out, v, from, to);
        *any = true;
        assert(done + nonempty_pieces(seq![piece]) =~= done.push(piece));
        Ghost(done.push(piece))
    } else {
        assert(done + nonempty_pieces(seq![piece]) =~= done);
        Ghost(done)
    }
}

/// The non-empty pieces of `v` between the separators `sep`, joined by `sep`.
fn join_nonempty_pieces(v: &Vec<char>, sep: char) -> (r: String)
    ensures
        r@ == join(nonempty_pieces(split_on(v@, sep)), seq![sep]),
{
    let mut out = String::new();
    let mut any = false;
    let ghost mut done: Seq<Seq<char>> = Seq::empty();
    let mut start: usize = 0;
    let mut i: usize = 0;
    assert(v@.skip(0) =~= v@);
    while i < v.len()
        invariant
            start <= i <= v.len(),
            forall|j: int| start <= j < i ==> v@[j] != sep,
            nonempty_pieces(split_on(v@, sep)) == done + nonempty_pieces(
                split_on(v@.skip(start as int), sep),
            ),
            any == (done.len() > 0),
            out@ == join(done, seq![sep]),
        decreases v.len() - i,
    {
        if v[i] == sep {
            let ghost piece = v@.subrange(start as int, i as int);
            proof {
                assert(v@.skip(start as int) =~= piece + seq![sep] + v@.skip(i + 1));
                lemma_split_cons(piece, v@.skip(i + 1), sep);
                lemma_nonempty_pieces_cons(piece, split_on(v@.skip(i + 1), sep));
                assert(nonempty_pieces(seq![piece]) =~= (if piece.len() > 0 {
                    seq![piece]
                } else {
                    Seq::<Seq<char>>::empty()
                })) by {
                    assert(seq![piece] =~= seq![piece] + Seq::<Seq<char>>::empty());
                    lemma_nonempty_pieces_cons(piece, Seq::empty());
                }
            }
            let Ghost(d) = push_piece(&mut out, &mut any, v, start, i, sep, Ghost(done));
            proof {
                done = d;
            }
            start = i + 1;
        }
        i += 1;
    }
    let ghost piece = v@.subrange(start as int, v.len() as int);
    proof {
        assert(v@.skip(start as int) =~= piece);
        lemma_split_no_sep(piece, sep);
    }
    let Ghost(d) = push_piece(&mut out, &mut any, v, start, v.len(), sep, Ghost(done));
    out
}

/// Lower-cases `s`, turns every non-alphanumeric character into `'-'`,
/// and keeps the non-empty runs between them, joined by single `'-'`s.
pub fn slugify(s: &str) -> (r: String)
    ensures
        r@ == slug_of(s@),
{
    let lower = to_lowercase(s);
    let lv = chars_of(lower.as_str());
    let mut mapped: Vec<char> = Vec::new();
    let mut i: usize = 0;
    while i < lv.len()
        invariant
            i <= lv.len(),
            lv@ == lowercase_of(s@),
            mapped@ == lv@.take(i as int).map_values(|c: char| slug_char(c)),
        decreases lv.len() - i,
    {
        let c = lv[i];
        let m = if alphanumeric(c) {
            c
        } else {
            '-'
        };
        mapped.push(m);
        i += 1;
        assert(mapped@ =~= lv@.take(i as int).map_values(|c: char| slug_char(c)));
    }
    assert(lv@.take(lv.len() as int) =~= lv@);
    proof {
        reveal_strlit("-");
        assert(seq!['-'] =~= "-"@);
    }
    join_nonempty_pieces(&mapped, '-')
}

/// The two shapes of a random identifier: three words joined by `'-'`, or
/// the first two bytes of each word run together.
#[derive(Clone, Copy, Debug, PartialEq, Eq, Structural)]
pub enum IdFormat {
    Long,
    Short,
}

/// The number of bytes of `c` in UTF-8.
pub open spec fn utf8_len(c: char) -> nat {
    let u = c as u32;
    if u < 0x80 {
        1
    } else if u < 0x800 {
        2
    } else if u < 0x10000 {
        3
    } else {
        4
    }
}

/// Whether the first two bytes of `w` in UTF-8 end on a character boundary,
/// so that `&w[0..2]` is defined.
pub open spec fn has_two_byte_prefix(w: Seq<char>) -> bool {
    w.len() >= 1 && (utf8_len(w[0]) == 2 || (utf8_len(w[0]) == 1 && w.len() >= 2 && utf8_len(w[1])
        == 1))
}

/// The characters of `&w[0..2]`.
pub open spec fn two_byte_prefix(w: Seq<char>) -> Seq<char> {
    if utf8_len(w[0]) == 2 {
        w.take(1)
    } else {
        w.take(2)
    }
}

/// The text of an identifier made of two adjectives and a noun.
pub open spec fn id_text(format: IdFormat, adj1: Seq<char>, adj2: Seq<char>, noun: Seq<char>) -> Seq<char> {
    match format {
        IdFormat::Long => adj1 + "-"@ + adj2 + "-"@ + noun,
        IdFormat::Short => two_byte_prefix(adj1) + two_byte_prefix(adj2) + two_byte_prefix(noun),
    }
}

/// Whether a word can stand in an identifier of this format.
pub open spec fn fits_format(format: IdFormat, w: Seq<char>) -> bool {
    format == IdFormat::Short ==> has_two_byte_prefix(w)
}

fn utf8_width(c: char) -> (r: usize)
    ensures
        r == utf8_len(c),
{
    let u = c as u32;
    if u < 0x80 {
        1
    } else if u < 0x800 {
        2
    } else if u < 0x10000 {
        3
    } else {
        4
    }
}

fn push_two_byte_prefix(out: &mut String, w: &str)
    requires
        has_two_byte_prefix(w@),
    ensures
        final(out)@ == old(out)@ + two_byte_prefix(w@),
{
    let c0 = w.get_char(0);
    push_char(out, c0);
    if utf8_width(c0) != 2 {
        let c1 = w.get_char(1);
        push_char(out, c1);
    }
    assert(out@ =~= old(out)@ + two_byte_prefix(w@));
}

/// An identifier from two adjectives and a noun: `adj1-adj2-noun`, or the
/// first two bytes of each run together.
pub fn format_id(format: IdFormat, adj1: &str, adj2: &str, noun: &str) -> (r: String)
    requires
        fits_format(format, adj1@),
        fits_format(format, adj2@),
        fits_format(format, noun@),
    ensures
        r@ == id_text(format, adj1@, adj2@, noun@),
{
    match format {
        IdFormat::Long => {
            let mut r = owned(adj1);
            r.append("-");
            r.append(adj2);
            r.append("-");
            r.append(noun);
            r
        },
        IdFormat::Short => {
            let mut r = String::new();
            push_two_byte_prefix(&mut r, adj1);
            push_two_byte_prefix(&mut r, adj2);
            push_two_byte_prefix(&mut r, noun);
            assert(r@ =~= id_text(format, adj1@, adj2@, noun@));
            r
        },
    }
}

/// The words random identifiers are made of.
pub struct WordLists {
    pub adjectives: Vec<String>,
    pub nouns: Vec<String>,
}

impl WordLists {
    /// Both lists have words, and every word can stand in an identifier of
    /// `format` (for the short form: every word has a two-byte prefix).
    pub open spec fn usable_for(&self, format: IdFormat) -> bool {
        &&& self.adjectives@.len() > 0
        &&& self.nouns@.len() > 0
        &&& forall|i: int| 0 <= i < self.adjectives@.len() ==> fits_format(format, #[trigger] self.adjectives@[i]@)
        &&& forall|i: int| 0 <= i < self.nouns@.len() ==> fits_format(format, #[trigger] self.nouns@[i]@)
    }

    /// The word lists of two texts with one word per line: each line
    /// trimmed of white space, empty lines left out.
    pub fn from_text(adjectives: &str, nouns: &str) -> (r: WordLists)
        ensures
            views(r.adjectives@) == nonempty_trimmed(split_on(adjectives@, '\n')),
            views(r.nouns@) == nonempty_trimmed(split_on(nouns@, '\n')),
    {
        let a = chars_of(adjectives);
        let n = chars_of(nouns);
        WordLists { adjectives: trimmed_pieces(&a, '\n'), nouns: trimmed_pieces(&n, '\n') }
    }
}

#[verifier::external_type_specification]
#[verifier::external_body]
pub struct ExThreadRng(rand::rngs::ThreadRng);

/// `rand::rng()`: the thread-local random number generator.
#[verifier::external_body]
fn thread_rng() -> rand::rngs::ThreadRng {
    rand::rng()
}

/// `IndexedRandom::choose`: one of the words, picked at random; none when
/// there are no words. Which word comes back is left open.
#[verifier::external_body]
fn choose_word<'a>(words: &'a Vec<String>, rng: &mut rand::rngs::ThreadRng) -> (r: Option<&'a String>)
    ensures
        (r is None) == (words@.len() == 0),
        r matches Some(w) ==> exists|i: int| 0 <= i < words@.len() && words@[i] == *w,
{
    words.as_slice().choose(rng)
}

/// A random identifier: two random adjectives and a random noun in `format`.
fn random_id(format: IdFormat, words: &WordLists) -> (r: String)
    requires
        words.usable_for(format),
    ensures
        exists|i: int, j: int, k: int|
            0 <= i < words.adjectives@.len() && 0 <= j < words.adjectives@.len() && 0 <= k
                < words.nouns@.len() && r@ == id_text(
                format,
                words.adjectives@[i]@,
                words.adjectives@[j]@,
                words.nouns@[k]@,
            ),
{
    let mut rng = thread_rng();
    let adj1 = choose_word(&words.adjectives, &mut rng).unwrap();
    let adj2 = choose_word(&words.adjectives, &mut rng).unwrap();
    let noun = choose_word(&words.nouns, &mut rng).unwrap();
    let ghost i = choose|i: int| 0 <= i < words.adjectives@.len() && words.adjectives@[i] == *adj1;
    let ghost j = choose|j: int| 0 <= j < words.adjectives@.len() && words.adjectives@[j] == *adj2;
    let ghost k = choose|k: int| 0 <= k < words.nouns@.len() && words.nouns@[k] == *noun;
    let r = format_id(format, adj1.as_str(), adj2.as_str(), noun.as_str());
    assert(r@ == id_text(format, words.adjectives@[i]@, words.adjectives@[j]@, words.nouns@[k]@));
    r
}

/// The slugs of the people, then those of the tags.
pub open spec fn name_parts(tags: Seq<String>, people: Seq<String>) -> Seq<Seq<char>> {
    people.map_values(|p: String| slug_of(p@)) + tags.map_values(|t: String| slug_of(t@))
}

/// The output file name for these filters and an identifier: the slugs
/// joined by `'-'`, then `'-'` and the identifier; only the identifier when
/// there are no filters; `.mp4` at the end.
pub open spec fn output_name(tags: Seq<String>, people: Seq<String>, id: Seq<char>) -> Seq<char> {
    let parts = name_parts(tags, people);
    if parts.len() == 0 {
        id + ".mp4"@
    } else {
        join(parts, "-"@) + "-"@ + id + ".mp4"@
    }
}

/// The identifier shape used for a name: long when there are no filters, short otherwise.
pub open spec fn id_format_for(tags: Seq<String>, people: Seq<String>) -> IdFormat {
    if people.len() + tags.len() == 0 {
        IdFormat::Long
    } else {
        IdFormat::Short
    }
}

/// The output file name for these filters and a given identifier.
pub fn output_name_with_id(tags: &[String], people: &[String], id: &str) -> (r: String)
    ensures
        r@ == output_name(tags@, people@, id@),
{
    let ghost parts = name_parts(tags@, people@);
    let mut out = String::new();
    let ghost mut count: int = 0;
    let mut any = false;
    let mut i: usize = 0;
    while i < people.len()
        invariant
            i <= people@.len(),
            count == i,
            any == (count > 0),
            out@ == join(parts.take(count), "-"@),
            parts == name_parts(tags@, people@),
        decreases people@.len() - i,
    {
        let slug = slugify(people[i].as_str());
        proof {
            lemma_join_push(parts.take(count), slug@, "-"@);
            assert(parts.take(count + 1) =~= parts.take(count).push(slug@));
        }
        if any {
            out.append("-");
        }
        out.append(slug.as_str());
        any = true;
        proof {
            count = count + 1;
        }
        i += 1;
    }
    let mut k: usize = 0;
    while k < tags.len()
        invariant
            k <= tags@.len(),
            count == people@.len() + k,
            any == (count > 0),
            out@ == join(parts.take(count), "-"@),
            parts == name_parts(tags@, people@),
        decreases tags@.len() - k,
    {
        let slug = slugify(tags[k].as_str());
        proof {
            lemma_join_push(parts.take(count), slug@, "-"@);
            assert(parts.take(count + 1) =~= parts.take(count).push(slug@));
        }
        if any {
            out.append("-");
        }
        out.append(slug.as_str());
        any = true;
        proof {
            count = count + 1;
        }
        k += 1;
    }
    assert(parts.take(count) =~= parts);
    if !any {
        let mut r = owned(id);
        r.append(".mp4");
        r
    } else {
        out.append("-");
        out.append(id);
        out.append(".mp4");
        out
    }
}

/// Generate an output filename from the people and tags filtered on, or a
/// random adjective-adjective-noun name when there are none. With filters,
/// the name ends in a short random identifier.
pub fn generate_output_name(tags: &[String], people: &[String], words: &WordLists) -> (r: String)
    requires
        words.usable_for(id_format_for(tags@, people@)),
    ensures
        exists|i: int, j: int, k: int|
            0 <= i < words.adjectives@.len() && 0 <= j < words.adjectives@.len() && 0 <= k
                < words.nouns@.len() && r@ == output_name(
                tags@,
                people@,
                id_text(
                    id_format_for(tags@, people@),
                    words.adjectives@[i]@,
                    words.adjectives@[j]@,
                    words.nouns@[k]@,
                ),
            ),
{
    let format = if people.len() == 0 && tags.len() == 0 {
        IdFormat::Long
    } else {
        IdFormat::Short
    };
    let id = random_id(format, words);
    output_name_with_id(tags, people, id.as_str())
}

/// The shape of a slug: it neither starts nor ends with `'-'`, never has two
/// `'-'` in a row, and every other character is alphanumeric.
pub open spec fn slug_shaped(g: Seq<char>) -> bool {
    &&& g.len() > 0 ==> g[0] != '-' && g.last() != '-'
    &&& forall|k: int| 0 <= k < g.len() - 1 ==> !(#[trigger] g[k] == '-' && g[k + 1] == '-')
    &&& forall|k: int| 0 <= k < g.len() ==> #[trigger] g[k] == '-' || is_alphanumeric_char(g[k])
}

/// A piece of a slug: not empty, and only alphanumeric characters other than `'-'`.
pub open spec fn clean_piece(p: Seq<char>) -> bool {
    p.len() > 0 && forall|k: int| 0 <= k < p.len() ==> #[trigger] p[k] != '-' && is_alphanumeric_char(p[k])
}

proof fn lemma_join_clean(parts: Seq<Seq<char>>)
    requires
        forall|i: int| 0 <= i < parts.len() ==> clean_piece(#[trigger] parts[i]),
    ensures
        slug_shaped(join(parts, "-"@)),
        parts.len() > 0 ==> join(parts, "-"@).len() > 0,
    decreases parts.len(),
{
    reveal_strlit("-");
    if parts.len() == 1 {
        assert(clean_piece(parts[0]));
    } else if parts.len() > 1 {
        let pre = parts.drop_last();
        assert forall|i: int| 0 <= i < pre.len() implies clean_piece(#[trigger] pre[i]) by {
            assert(pre[i] == parts[i]);
        }
        lemma_join_clean(pre);
        let a = join(pre, "-"@);
        let last = parts.last();
        assert(clean_piece(last));
        let g = join(parts, "-"@);
        assert(g == a + "-"@ + last);
        assert(g[0] == a[0]);
        assert(g.last() == last.last());
        assert forall|k: int| 0 <= k < g.len() implies #[trigger] g[k] == '-' || is_alphanumeric_char(g[k]) by {
            if k < a.len() {
                assert(g[k] == a[k]);
            } else if k > a.len() {
                assert(g[k] == last[k - a.len() - 1]);
            }
        }
        assert forall|k: int| 0 <= k < g.len() - 1 implies !(#[trigger] g[k] == '-' && g[k + 1] == '-') by {
            if k + 1 < a.len() {
                assert(g[k] == a[k]);
                assert(g[k + 1] == a[k + 1]);
            } else if k + 1 == a.len() {
                assert(g[k] == a.last());
            } else if k == a.len() {
                assert(g[k + 1] == last[0]);
            } else {
                assert(g[k] == last[k - a.len() - 1]);
            }
        }
    }
}

/// Every slug has the shape of `slug_shaped`.
pub proof fn law_slug_shape(s: Seq<char>)
    ensures
        slug_shaped(slug_of(s)),
{
    let m = lowercase_of(s).map_values(|c: char| slug_char(c));
    let parts = split_on(m, '-');
    lemma_split_pieces(m, '-');
    lemma_nonempty_pieces_members(parts);
    let q = nonempty_pieces(parts);
    assert forall|i: int| 0 <= i < q.len() implies clean_piece(#[trigger] q[i]) by {
        let j = choose|j: int| 0 <= j < parts.len() && parts[j] == q[i];
        assert forall|k: int| 0 <= k < q[i].len() implies #[trigger] q[i][k] != '-'
            && is_alphanumeric_char(q[i][k]) by {
            assert(q[i][k] == parts[j][k]);
            let c = q[i][k];
            assert(m.contains(c));
            let x = choose|x: int| 0 <= x < m.len() && m[x] == c;
            assert(m[x] == slug_char(lowercase_of(s)[x]));
        }
    }
    lemma_join_clean(q);
}

/// Every output file name ends in `.mp4`.
pub proof fn law_output_name_ends_in_mp4(tags: Seq<String>, people: Seq<String>, id: Seq<char>)
    ensures
        output_name(tags, people, id).len() >= 4,
        output_name(tags, people, id).skip(output_name(tags, people, id).len() - 4) == ".mp4"@,
{
    reveal_strlit(".mp4");
    let g = output_name(tags, people, id);
    let parts = name_parts(tags, people);
    if parts.len() == 0 {
        assert(g.skip(g.len() - 4) =~= ".mp4"@);
    } else {
        assert(g.skip(g.len() - 4) =~= ".mp4"@);
    }
}

proof fn lemma_join_cons(a: Seq<char>, parts: Seq<Seq<char>>, sep: Seq<char>)
    requires
        parts.len() > 0,
    ensures
        join(seq![a] + parts, sep) == a + sep + join(parts, sep),
    decreases parts.len(),
{
    let all = seq![a] + parts;
    assert(all.drop_last() =~= seq![a] + parts.drop_last());
    assert(all.last() == parts.last());
    if parts.len() == 1 {
        assert(seq![a] + parts.drop_last() =~= seq![a]);
        assert(join(seq![a], sep) == a);
    } else {
        lemma_join_cons(a, parts.drop_last(), sep);
        assert(a + sep + join(parts.drop_last(), sep) + sep + parts.last() =~= a + sep + (join(
            parts.drop_last(),
            sep,
        ) + sep + parts.last()));
    }
}

/// Splitting a slug-shaped text at its dashes and joining the non-empty
/// pieces back with dashes gives the text again.
proof fn lemma_slug_round_trip(g: Seq<char>)
    requires
        slug_shaped(g),
    ensures
        join(nonempty_pieces(split_on(g, '-')), "-"@) == g,
        g.len() > 0 ==> nonempty_pieces(split_on(g, '-')).len() > 0,
    decreases g.len(),
{
    reveal_strlit("-");
    lemma_index_of(g, '-');
    match index_of(g, '-') {
        None => {
            lemma_split_no_sep(g, '-');
            assert(seq![g] =~= seq![g] + Seq::<Seq<char>>::empty());
            lemma_nonempty_pieces_cons(g, Seq::empty());
            if g.len() > 0 {
                assert(nonempty_pieces(split_on(g, '-')) =~= seq![g]);
            } else {
                assert(nonempty_pieces(split_on(g, '-')) =~= Seq::<Seq<char>>::empty());
                assert(g =~= Seq::<char>::empty());
            }
        },
        Some(k) => {
            let a = g.take(k as int);
            let rest = g.skip(k + 1 as int);
            assert(g =~= a + seq!['-'] + rest);
            assert(k > 0);
            assert(k + 1 < g.len()) by {
                if k + 1 == g.len() {
                    assert(g.last() == '-');
                }
            }
            assert(rest[0] != '-') by {
                let ki = k as int;
                assert(g[ki] == '-');
                assert(rest[0] == g[ki + 1]);
            }
            assert(rest.last() == g.last());
            assert forall|j: int| 0 <= j < rest.len() - 1 implies !(#[trigger] rest[j] == '-' && rest[j
                + 1] == '-') by {
                let ki = k as int;
                assert(rest[j] == g[ki + 1 + j]);
                assert(rest[j + 1] == g[ki + 1 + j + 1]);
            }
            assert forall|j: int| 0 <= j < rest.len() implies #[trigger] rest[j] == '-'
                || is_alphanumeric_char(rest[j]) by {
                let ki = k as int;
                assert(rest[j] == g[ki + 1 + j]);
            }
            lemma_slug_round_trip(rest);
            lemma_split_cons(a, rest, '-');
            lemma_nonempty_pieces_cons(a, split_on(rest, '-'));
            assert(seq![a] + nonempty_pieces(split_on(rest, '-')) == nonempty_pieces(
                split_on(g, '-'),
            ));
            lemma_join_cons(a, nonempty_pieces(split_on(rest, '-')), "-"@);
            assert(a + "-"@ + rest =~= g);
        },
    }
}

/// Slugifying a slug again gives it back, when lower-casing leaves the slug
/// unchanged (as it does, for example, for ASCII slugs).
pub proof fn law_slug_idempotent(s: Seq<char>)
    requires
        lowercase_of(slug_of(s)) == slug_of(s),
    ensures
        slug_of(slug_of(s)) == slug_of(s),
{
    let g = slug_of(s);
    law_slug_shape(s);
    assert(g.map_values(|c: char| slug_char(c)) =~= g);
    lemma_slug_round_trip(g);
}

proof fn lemma_output_name_cons(a: Seq<char>, rest: Seq<Seq<char>>, id: Seq<char>)
    ensures
        join(seq![a] + rest, "-"@) + "-"@ + id + ".mp4"@ == a + "-"@ + (if rest.len() == 0 {
            id + ".mp4"@
        } else {
            join(rest, "-"@) + "-"@ + id + ".mp4"@
        }),
{
    if rest.len() == 0 {
        assert(seq![a] + rest =~= seq![a]);
        assert(join(seq![a], "-"@) == a);
        assert(a + "-"@ + id + ".mp4"@ =~= a + "-"@ + (id + ".mp4"@));
    } else {
        lemma_join_cons(a, rest, "-"@);
        assert(a + "-"@ + join(rest, "-"@) + "-"@ + id + ".mp4"@ =~= a + "-"@ + (join(rest, "-"@)
            + "-"@ + id + ".mp4"@));
    }
}

/// The output name lists the slug of every person, in order, then the slug
/// of every tag, each followed by `'-'`, and ends with the identifier and
/// `.mp4`: one part per person and per tag, the first person's slug first
/// (or, without people, the first tag's), the rest of the name being the
/// name without that person (or tag).
pub proof fn law_output_name_lists_every_filter(tags: Seq<String>, people: Seq<String>, id: Seq<char>)
    ensures
        name_parts(tags, people).len() == people.len() + tags.len(),
        forall|k: int| 0 <= k < people.len() ==> #[trigger] name_parts(tags, people)[k] == slug_of(people[k]@),
        forall|k: int|
            0 <= k < tags.len() ==> #[trigger] name_parts(tags, people)[people.len() + k] == slug_of(
                tags[k]@,
            ),
        people.len() == 0 && tags.len() == 0 ==> output_name(tags, people, id) == id + ".mp4"@,
        people.len() > 0 ==> output_name(tags, people, id) == slug_of(people[0]@) + "-"@ + output_name(
            tags,
            people.drop_first(),
            id,
        ),
        people.len() == 0 && tags.len() > 0 ==> output_name(tags, people, id) == slug_of(tags[0]@) + "-"@
            + output_name(tags.drop_first(), people, id),
{
    let parts = name_parts(tags, people);
    assert forall|k: int| 0 <= k < tags.len() implies #[trigger] name_parts(tags, people)[people.len()
        + k] == slug_of(tags[k]@) by {
        assert(parts[people.len() + k] == tags.map_values(|t: String| slug_of(t@))[k]);
    }
    if people.len() > 0 {
        let a = slug_of(people[0]@);
        let rest = name_parts(tags, people.drop_first());
        assert(people.drop_first().map_values(|p: String| slug_of(p@)) =~= people.map_values(
            |p: String| slug_of(p@),
        ).drop_first());
        assert(parts =~= seq![a] + rest);
        lemma_output_name_cons(a, rest, id);
    } else if tags.len() > 0 {
        let a = slug_of(tags[0]@);
        let rest = name_parts(tags.drop_first(), people);
        assert(people.map_values(|p: String| slug_of(p@)) =~= Seq::<Seq<char>>::empty());
        assert(tags.drop_first().map_values(|t: String| slug_of(t@)) =~= tags.map_values(
            |t: String| slug_of(t@),
        ).drop_first());
        assert(parts =~= seq![a] + rest);
        lemma_output_name_cons(a, rest, id);
    }
}

} // verus!
