//! Selecting media from the catalogue API: the query of each page, which
//! listed files qualify, and when to stop asking for pages.

use vstd::prelude::*;
use crate::clips::{is_stable_sorting, sort_by_popularity};
use crate::text::{decimal, owned, push_decimal};
use crate::types::{Orientation, VideoFile};

verus! {

/// What a fetch asks the catalogue for. `max_clip_duration` is in seconds;
/// `seed` is the random seed as it is sent.
pub struct FetchVideosParams<'a> {
    pub max_clip_duration: u64,
    pub desired_count: usize,
    pub seed: &'a str,
    pub orientation: Orientation,
    pub tags: &'a [String],
    pub people: &'a [String],
    pub with_images: bool,
}

/// The texts of a list of query pairs.
pub open spec fn pair_views(pairs: Seq<(String, String)>) -> Seq<(Seq<char>, Seq<char>)> {
    pairs.map_values(|p: (String, String)| (p.0@, p.1@))
}

/// One query pair per value, all with the same key.
pub open spec fn keyed(key: Seq<char>, values: Seq<String>) -> Seq<(Seq<char>, Seq<char>)> {
    values.map_values(|v: String| (key, v@))
}

/// The orientation filter: none for `Any`.
pub open spec fn orientation_pairs(o: Orientation) -> Seq<(Seq<char>, Seq<char>)> {
    match o {
        Orientation::Any => Seq::empty(),
        Orientation::Portrait => seq![("orientation"@, "Portrait"@)],
        Orientation::Landscape => seq![("orientation"@, "Landscape"@)],
        Orientation::Square => seq![("orientation"@, "Square"@)],
    }
}

/// The query of page `page` of `/api/file`: random order under the seed,
/// 50 files a page, videos (and images when asked), tags included when
/// `with_tags`, then the orientation, person and tag filters.
pub open spec fn file_query(
    params: FetchVideosParams,
    page: u32,
    with_tags: bool,
) -> Seq<(Seq<char>, Seq<char>)> {
    seq![
        ("sort"@, "random"@),
        ("fileType"@, "video"@),
        ("size"@, "50"@),
        ("page"@, decimal(page as nat)),
        ("seed"@, params.seed@),
    ] + (if with_tags {
        seq![("withTags"@, "true"@)]
    } else {
        Seq::empty()
    }) + (if params.with_images {
        seq![("fileType"@, "image"@)]
    } else {
        Seq::empty()
    }) + orientation_pairs(params.orientation) + keyed("person"@, params.people@) + keyed(
        "tag"@,
        params.tags@,
    )
}

fn push_pair(pairs: &mut Vec<(String, String)>, k: &str, v: String)
    ensures
        pair_views(final(pairs)@) == pair_views(old(pairs)@).push((k@, v@)),
{
    let ghost before = pairs@;
    pairs.push((owned(k), v));
    assert(pair_views(pairs@) =~= pair_views(before).push((k@, v@)));
}

fn push_keyed(pairs: &mut Vec<(String, String)>, k: &str, values: &[String])
    ensures
        pair_views(final(pairs)@) == pair_views(old(pairs)@) + keyed(k@, values@),
{
    let mut i: usize = 0;
    while i < values.len()
        invariant
            i <= values@.len(),
            pair_views(pairs@) == pair_views(old(pairs)@) + keyed(k@, values@).take(i as int),
        decreases values@.len() - i,
    {
        let v = values[i].clone();
        assert(v@ == values@[i as int]@);
        push_pair(pairs, k, v);
        assert(keyed(k@, values@).take(i + 1) =~= keyed(k@, values@).take(i as int).push(
            (k@, values@[i as int]@),
        ));
        i += 1;
    }
    assert(keyed(k@, values@).take(values@.len() as int) =~= keyed(k@, values@));
}

/// The query pairs of one page of `/api/file`, as `file_query` states them.
pub fn file_query_pairs(params: &FetchVideosParams, page: u32, with_tags: bool) -> (r: Vec<(String, String)>)
    ensures
        pair_views(r@) == file_query(*params, page, with_tags),
{
    let mut pairs: Vec<(String, String)> = Vec::new();
    push_pair(&mut pairs, "sort", owned("random"));
    push_pair(&mut pairs, "fileType", owned("video"));
    push_pair(&mut pairs, "size", owned("50"));
    push_pair(&mut pairs, "page", crate::text::decimal_string(page as u64));
    push_pair(&mut pairs, "seed", owned(params.seed));
    let ghost fixed = pair_views(pairs@);
    if with_tags {
        push_pair(&mut pairs, "withTags", owned("true"));
    }
    let ghost tagged = pair_views(pairs@);
    if params.with_images {
        push_pair(&mut pairs, "fileType", owned("image"));
    }
    let ghost imaged = pair_views(pairs@);
    match params.orientation.as_api_param() {
        Some(o) => push_pair(&mut pairs, "orientation", owned(o)),
        None => {},
    }
    let ghost oriented = pair_views(pairs@);
    assert(oriented =~= imaged + orientation_pairs(params.orientation));
    push_keyed(&mut pairs, "person", params.people);
    push_keyed(&mut pairs, "tag", params.tags);
    assert(pair_views(pairs@) =~= file_query(*params, page, with_tags));
    pairs
}

/// `max_clip_duration.as_millis() as u64` for a duration of `secs` seconds.
pub open spec fn clip_millis_limit(secs: u64) -> nat {
    ((secs * 1000) % 0x1_0000_0000_0000_0000) as nat
}

/// A listed file qualifies when its width, height and duration are all
/// known and it lasts no longer than `limit_millis`.
pub open spec fn qualifies(item: VideoFile, limit_millis: nat) -> bool {
    &&& item.width is Some
    &&& item.height is Some
    &&& item.duration is Some
    &&& item.duration.unwrap() <= limit_millis
}

/// `sorted` is `orig` stably sorted by popularity.
pub open spec fn is_popularity_ordering(orig: Seq<VideoFile>, sorted: Seq<VideoFile>) -> bool {
    exists|perm: Seq<int>| is_stable_sorting(orig, sorted, perm)
}

/// The files kept from everything `offered`, in order: those that qualify
/// under `limit_millis` and whose content was reachable.
pub open spec fn chosen(offered: Seq<(VideoFile, bool)>, limit_millis: nat) -> Seq<VideoFile>
    decreases offered.len(),
{
    if offered.len() == 0 {
        Seq::empty()
    } else {
        let rest = chosen(offered.drop_last(), limit_millis);
        let (item, reachable) = offered.last();
        if qualifies(item, limit_millis) && reachable {
            rest.push(item)
        } else {
            rest
        }
    }
}

/// The first `n` elements of `s`, or all of them when there are fewer.
pub open spec fn at_most<A>(s: Seq<A>, n: nat) -> Seq<A> {
    if s.len() <= n {
        s
    } else {
        s.take(n as int)
    }
}

/// How many files a collection stops at: the desired number, and at least one.
pub open spec fn wanted(desired_count: usize) -> nat {
    if desired_count == 0 {
        1
    } else {
        desired_count as nat
    }
}

/// The files selected so far, up to the desired number.
pub struct MediaCollector {
    pub media: Vec<VideoFile>,
    pub desired_count: usize,
    pub limit_millis: u64,
    /// Every listed file offered so far, in order, with whether its content was reachable.
    pub offered: Ghost<Seq<(VideoFile, bool)>>,
}

impl MediaCollector {
    /// The collected files are the qualifying, reachable ones among those
    /// offered, and collection stops at the wanted number.
    pub open spec fn well_formed(&self) -> bool {
        &&& self.media@ == chosen(self.offered@, self.limit_millis as nat)
        &&& self.media@.len() <= wanted(self.desired_count)
    }

    /// Whether collection is complete: the wanted number has been reached.
    pub open spec fn is_done(&self) -> bool {
        self.media@.len() >= wanted(self.desired_count)
    }

    /// An empty collection for `desired_count` files of at most `max_clip_duration` seconds.
    pub fn new(desired_count: usize, max_clip_duration: u64) -> (r: Self)
        ensures
            r.well_formed(),
            r.offered@.len() == 0,
            r.media@.len() == 0,
            r.desired_count == desired_count,
            r.limit_millis == clip_millis_limit(max_clip_duration),
    {
        let millis: u128 = max_clip_duration as u128 * 1000;
        let limit = (millis % 0x1_0000_0000_0000_0000) as u64;
        MediaCollector {
            media: Vec::new(),
            desired_count,
            limit_millis: limit,
            offered: Ghost(Seq::empty()),
        }
    }

    /// Whether a listed file qualifies.
    pub fn qualifies(&self, item: &VideoFile) -> (r: bool)
        ensures
            r == qualifies(*item, self.limit_millis as nat),
    {
        if item.width.is_none() || item.height.is_none() || item.duration.is_none() {
            return false;
        }
        item.duration.unwrap() <= self.limit_millis
    }

    /// Offers the next listed file, with whether its content was reachable:
    /// it is kept when it qualifies and was reachable. Returns whether the
    /// wanted number is now reached.
    pub fn offer(&mut self, item: VideoFile, reachable: bool) -> (done: bool)
        requires
            old(self).well_formed(),
            !old(self).is_done(),
        ensures
            final(self).well_formed(),
            final(self).offered@ == old(self).offered@.push((item, reachable)),
            final(self).media@ == (if qualifies(item, old(self).limit_millis as nat) && reachable {
                old(self).media@.push(item)
            } else {
                old(self).media@
            }),
            final(self).desired_count == old(self).desired_count,
            final(self).limit_millis == old(self).limit_millis,
            done == final(self).is_done(),
    {
        let keep = reachable && self.qualifies(&item);
        let ghost offered = self.offered@.push((item, reachable));
        self.offered = Ghost(offered);
        assert(offered.drop_last() =~= old(self).offered@);
        if keep {
            self.media.push(item);
        }
        self.media.len() > 0 && self.media.len() >= self.desired_count
    }

    /// The files selected, or an error when none qualified.
    pub fn finish(self) -> (r: Result<Vec<VideoFile>, String>)
        ensures
            self.media@.len() > 0 ==> r == Ok::<Vec<VideoFile>, String>(self.media),
            self.media@.len() == 0 ==> (r matches Err(e) && e@ == "No suitable videos found"@),
    {
        if self.media.len() == 0 {
            return Err(owned("No suitable videos found"));
        }
        Ok(self.media)
    }

    /// Like `finish`, with the files ordered by popularity, least popular first.
    pub fn finish_sorted(self) -> (r: Result<Vec<VideoFile>, String>)
        ensures
            self.media@.len() > 0 ==> r is Ok,
            r is Ok ==> is_popularity_ordering(self.media@, r->Ok_0@),
            r is Ok ==> forall|a: int, b: int|
                0 <= a < b < r->Ok_0@.len() ==> r->Ok_0@[a].popularity <= r->Ok_0@[b].popularity,
            self.media@.len() == 0 ==> (r matches Err(e) && e@ == "No suitable videos found"@),
    {
        if self.media.len() == 0 {
            return Err(owned("No suitable videos found"));
        }
        let ghost m = self.media@;
        let v = sort_by_popularity(self.media);
        assert(is_popularity_ordering(m, v@));
        proof {
            let perm = choose|perm: Seq<int>| is_stable_sorting(m, v@, perm);
            crate::clips::law_files_ordered_by_popularity(m, v@, perm);
        }
        Ok(v)
    }
}

/// The page after `page`, if there is one among `total_pages`.
pub fn next_page(page: u32, total_pages: u32) -> (r: Option<u32>)
    ensures
        page + 1 < total_pages ==> r == Some((page + 1) as u32),
        page + 1 >= total_pages ==> r is None,
{
    if page >= total_pages || total_pages - page <= 1 {
        None
    } else {
        Some(page + 1)
    }
}

proof fn lemma_chosen_append(a: Seq<(VideoFile, bool)>, b: Seq<(VideoFile, bool)>, limit_millis: nat)
    ensures
        chosen(a + b, limit_millis) == chosen(a, limit_millis) + chosen(b, limit_millis),
    decreases b.len(),
{
    if b.len() == 0 {
        assert(a + b =~= a);
        assert(chosen(a, limit_millis) + Seq::<VideoFile>::empty() =~= chosen(a, limit_millis));
    } else {
        assert((a + b).drop_last() =~= a + b.drop_last());
        assert((a + b).last() == b.last());
        lemma_chosen_append(a, b.drop_last(), limit_millis);
        let (item, reachable) = b.last();
        if qualifies(item, limit_millis) && reachable {
            assert(chosen(a, limit_millis) + chosen(b.drop_last(), limit_millis).push(item)
                =~= (chosen(a, limit_millis) + chosen(b.drop_last(), limit_millis)).push(item));
        }
    }
}

/// A fetch selects the first files of the listing that qualify and are
/// reachable: when collection stops, because the wanted number (the desired
/// number, at least one) was reached or because the listing ran out, the
/// collected files are the first `wanted` qualifying, reachable files of
/// everything listed, in listing order across pages. The files listed after
/// it stopped (`later`) change nothing.
pub proof fn law_collected_are_first_qualifying(c: MediaCollector, later: Seq<(VideoFile, bool)>)
    requires
        c.well_formed(),
        c.is_done() || later.len() == 0,
    ensures
        c.media@ == at_most(chosen(c.offered@ + later, c.limit_millis as nat), wanted(c.desired_count)),
{
    let lim = c.limit_millis as nat;
    lemma_chosen_append(c.offered@, later, lim);
    let n = wanted(c.desired_count) as int;
    if later.len() == 0 {
        assert(chosen(later, lim) =~= Seq::<VideoFile>::empty());
        assert(c.offered@ + later =~= c.offered@);
        assert(c.media@ + chosen(later, lim) =~= c.media@);
    } else {
        assert(c.media@.len() == n);
        assert((c.media@ + chosen(later, lim)).take(n) =~= c.media@);
    }
}

/// The page query filters on orientation exactly as asked: for `Portrait`,
/// `Landscape` and `Square` it holds the pair `("orientation", name)` with
/// that name, the value `Orientation::as_api_param` gives; for `Any` it has
/// no `orientation` pair at all.
pub proof fn law_query_filters_orientation(params: FetchVideosParams, page: u32, with_tags: bool)
    ensures
        params.orientation == Orientation::Portrait ==> file_query(params, page, with_tags).contains(
            ("orientation"@, "Portrait"@),
        ),
        params.orientation == Orientation::Landscape ==> file_query(params, page, with_tags).contains(
            ("orientation"@, "Landscape"@),
        ),
        params.orientation == Orientation::Square ==> file_query(params, page, with_tags).contains(
            ("orientation"@, "Square"@),
        ),
        params.orientation == Orientation::Any ==> forall|k: int|
            0 <= k < file_query(params, page, with_tags).len() ==> (#[trigger] file_query(
                params,
                page,
                with_tags,
            )[k]).0 != "orientation"@,
{
    reveal_strlit("orientation");
    reveal_strlit("sort");
    reveal_strlit("fileType");
    reveal_strlit("size");
    reveal_strlit("page");
    reveal_strlit("seed");
    reveal_strlit("withTags");
    reveal_strlit("person");
    reveal_strlit("tag");
    let q = file_query(params, page, with_tags);
    let fixed = seq![
        ("sort"@, "random"@),
        ("fileType"@, "video"@),
        ("size"@, "50"@),
        ("page"@, decimal(page as nat)),
        ("seed"@, params.seed@),
    ];
    let tagged: Seq<(Seq<char>, Seq<char>)> = if with_tags {
        seq![("withTags"@, "true"@)]
    } else {
        Seq::empty()
    };
    let imaged: Seq<(Seq<char>, Seq<char>)> = if params.with_images {
        seq![("fileType"@, "image"@)]
    } else {
        Seq::empty()
    };
    let front = fixed + tagged + imaged;
    let o = orientation_pairs(params.orientation);
    let people = keyed("person"@, params.people@);
    let tags = keyed("tag"@, params.tags@);
    assert(q =~= front + o + people + tags);
    if params.orientation != Orientation::Any {
        assert(q[front.len() as int] == o[0]);
    } else {
        assert forall|k: int| 0 <= k < q.len() implies (#[trigger] q[k]).0 != "orientation"@ by {
            assert("orientation"@.len() == 11);
            if k < fixed.len() {
                assert(q[k] == fixed[k]);
            } else if k < fixed.len() + tagged.len() {
                assert(q[k] == tagged[k - fixed.len()]);
            } else if k < front.len() {
                assert(q[k] == imaged[k - fixed.len() - tagged.len()]);
            } else if k < front.len() + people.len() {
                assert(q[k] == people[k - front.len()]);
            } else {
                assert(q[k] == tags[k - front.len() - people.len()]);
            }
        }
    }
}

/// The page query asks for what was requested: the page number and the
/// seed, one `("person", name)` pair for every person and one `("tag", tag)`
/// pair for every tag, in the order given.
pub proof fn law_query_asks_for_every_filter(params: FetchVideosParams, page: u32, with_tags: bool)
    ensures
        file_query(params, page, with_tags).contains(("page"@, decimal(page as nat))),
        file_query(params, page, with_tags).contains(("seed"@, params.seed@)),
        forall|k: int|
            0 <= k < params.people@.len() ==> file_query(params, page, with_tags).contains(
                ("person"@, #[trigger] params.people@[k]@),
            ),
        forall|k: int|
            0 <= k < params.tags@.len() ==> file_query(params, page, with_tags).contains(
                ("tag"@, #[trigger] params.tags@[k]@),
            ),
        forall|a: int, b: int|
            #![trigger params.tags@[a], params.tags@[b]]
            0 <= a < b < params.tags@.len() ==> exists|i: int, j: int|
                #![trigger file_query(params, page, with_tags)[i], file_query(params, page, with_tags)[j]]
                0 <= i < j < file_query(params, page, with_tags).len() && file_query(
                    params,
                    page,
                    with_tags,
                )[i] == ("tag"@, params.tags@[a]@) && file_query(params, page, with_tags)[j] == (
                    "tag"@,
                    params.tags@[b]@,
                ),
        forall|a: int, b: int|
            #![trigger params.people@[a], params.people@[b]]
            0 <= a < b < params.people@.len() ==> exists|i: int, j: int|
                #![trigger file_query(params, page, with_tags)[i], file_query(params, page, with_tags)[j]]
                0 <= i < j < file_query(params, page, with_tags).len() && file_query(
                    params,
                    page,
                    with_tags,
                )[i] == ("person"@, params.people@[a]@) && file_query(params, page, with_tags)[j] == (
                    "person"@,
                    params.people@[b]@,
                ),
{
    let q = file_query(params, page, with_tags);
    let front = seq![
        ("sort"@, "random"@),
        ("fileType"@, "video"@),
        ("size"@, "50"@),
        ("page"@, decimal(page as nat)),
        ("seed"@, params.seed@),
    ] + (if with_tags {
        seq![("withTags"@, "true"@)]
    } else {
        Seq::empty()
    }) + (if params.with_images {
        seq![("fileType"@, "image"@)]
    } else {
        Seq::empty()
    }) + orientation_pairs(params.orientation);
    let people = keyed("person"@, params.people@);
    let tags = keyed("tag"@, params.tags@);
    assert(q =~= front + people + tags);
    assert(q[3] == ("page"@, decimal(page as nat)));
    assert(q[4] == ("seed"@, params.seed@));
    let pl = front.len() as int;
    let tl = (front.len() + people.len()) as int;
    assert forall|k: int| 0 <= k < params.people@.len() implies q.contains(
        ("person"@, #[trigger] params.people@[k]@),
    ) by {
        assert(q[pl + k] == people[k]);
    }
    assert forall|k: int| 0 <= k < params.tags@.len() implies q.contains(
        ("tag"@, #[trigger] params.tags@[k]@),
    ) by {
        assert(q[tl + k] == tags[k]);
    }
    assert forall|a: int, b: int|
        #![trigger params.tags@[a], params.tags@[b]]
        0 <= a < b < params.tags@.len() implies exists|i: int, j: int|
        #![trigger q[i], q[j]]
        0 <= i < j < q.len() && q[i] == ("tag"@, params.tags@[a]@) && q[j] == (
            "tag"@,
            params.tags@[b]@,
        ) by {
        assert(q[tl + a] == tags[a]);
        assert(q[tl + b] == tags[b]);
    }
    assert forall|a: int, b: int|
        #![trigger params.people@[a], params.people@[b]]
        0 <= a < b < params.people@.len() implies exists|i: int, j: int|
        #![trigger q[i], q[j]]
        0 <= i < j < q.len() && q[i] == ("person"@, params.people@[a]@) && q[j] == (
            "person"@,
            params.people@[b]@,
        ) by {
        assert(q[pl + a] == people[a]);
        assert(q[pl + b] == people[b]);
    }
}

} // verus!
