//! From the selected media files to the clips of the canvas: their content
//! URLs, their widths once scaled to the viewport height and cropped, and
//! their order by popularity.

use vstd::prelude::*;
use crate::text::views;
use crate::types::Person;
use crate::types::{
    ClipInfo, FileType, VideoFile, content_url_of, even_scaled_width, round_up_even,
    scaled_to_height, u32_max,
};

verus! {

/// Items that carry a popularity order key.
pub trait PopularityRanked {
    spec fn rank_of(&self) -> u32;

    fn rank(&self) -> (r: u32)
        ensures
            r == self.rank_of(),
    ;
}

impl PopularityRanked for ClipInfo {
    open spec fn rank_of(&self) -> u32 {
        self.popularity
    }

    fn rank(&self) -> (r: u32) {
        self.popularity
    }
}

impl PopularityRanked for VideoFile {
    open spec fn rank_of(&self) -> u32 {
        self.popularity
    }

    fn rank(&self) -> (r: u32) {
        self.popularity
    }
}

/// `sorted` is `orig` reordered by `perm` (`sorted[k] == orig[perm[k]]`),
/// ascending by rank, with items of equal rank in their original order.
pub open spec fn is_stable_sorting<T: PopularityRanked>(
    orig: Seq<T>,
    sorted: Seq<T>,
    perm: Seq<int>,
) -> bool {
    &&& perm.len() == orig.len()
    &&& sorted.len() == orig.len()
    &&& forall|k: int| 0 <= k < perm.len() ==> 0 <= #[trigger] perm[k] < orig.len()
    &&& forall|a: int, b: int| 0 <= a < b < perm.len() ==> perm[a] != perm[b]
    &&& forall|k: int| 0 <= k < sorted.len() ==> #[trigger] sorted[k] == orig[perm[k]]
    &&& forall|a: int, b: int|
        0 <= a < b < sorted.len() ==> sorted[a].rank_of() <= sorted[b].rank_of()
    &&& forall|a: int, b: int|
        0 <= a < b < sorted.len() && sorted[a].rank_of() == sorted[b].rank_of() ==> perm[a]
            < perm[b]
}

/// Sorts by rank, ascending; items of equal rank keep their order.
pub fn sort_by_popularity<T: PopularityRanked>(items: Vec<T>) -> (r: Vec<T>)
    ensures
        exists|perm: Seq<int>| is_stable_sorting(items@, r@, perm),
{
    let ghost orig = items@;
    let mut rest = items;
    let mut out: Vec<T> = Vec::new();
    let ghost mut perm: Seq<int> = Seq::empty();
    let ghost mut i: int = 0;
    assert(orig.skip(0) =~= orig);
    while rest.len() > 0
        invariant
            0 <= i <= orig.len(),
            rest@ == orig.skip(i),
            is_stable_sorting(orig.take(i), out@, perm),
        decreases rest.len(),
    {
        let x = rest.remove(0);
        assert(orig.skip(i).remove(0) =~= orig.skip(i + 1));
        assert(x == orig[i]);
        let key = x.rank();
        let mut p: usize = 0;
        while p < out.len() && out[p].rank() <= key
            invariant
                p <= out.len(),
                forall|q: int| 0 <= q < p ==> #[trigger] out@[q].rank_of() <= key,
            decreases out.len() - p,
        {
            p += 1;
        }
        let ghost old_out = out@;
        let ghost old_perm = perm;
        out.insert(p, x);
        proof {
            perm = old_perm.insert(p as int, i);
            let ot = orig.take(i + 1);
            assert(orig.take(i) =~= ot.take(i));
            assert forall|k: int| 0 <= k < out@.len() implies #[trigger] out@[k] == ot[perm[k]] by {
                if k < p {
                    assert(out@[k] == old_out[k]);
                    assert(perm[k] == old_perm[k]);
                } else if k == p {
                } else {
                    assert(out@[k] == old_out[k - 1]);
                    assert(perm[k] == old_perm[k - 1]);
                }
            }
            assert forall|k: int| 0 <= k < perm.len() implies 0 <= #[trigger] perm[k] < ot.len() by {
                if k < p {
                    assert(perm[k] == old_perm[k]);
                } else if k > p {
                    assert(perm[k] == old_perm[k - 1]);
                }
            }
            assert forall|a: int, b: int| 0 <= a < b < perm.len() implies perm[a] != perm[b] by {
                let pa = if a < p { old_perm[a] } else if a == p { i } else { old_perm[a - 1] };
                let pb = if b < p { old_perm[b] } else if b == p { i } else { old_perm[b - 1] };
                assert(perm[a] == pa);
                assert(perm[b] == pb);
                if a != p && b != p {
                    assert(old_perm[if a < p { a } else { a - 1 }] != old_perm[if b < p { b } else { b - 1 }]);
                } else if a == p {
                    assert(0 <= old_perm[b - 1] < i);
                } else {
                    assert(0 <= old_perm[if a < p { a } else { a - 1 }] < i);
                }
            }
            assert forall|a: int, b: int|
                0 <= a < b < out@.len() implies out@[a].rank_of() <= out@[b].rank_of() by {
                let oa = if a < p { a } else { a - 1 };
                let ob = if b < p { b } else { b - 1 };
                if a != p && b != p {
                    assert(out@[a] == old_out[oa]);
                    assert(out@[b] == old_out[ob]);
                } else if a == p {
                    assert(out@[b] == old_out[ob]);
                    if ob < old_out.len() && p < old_out.len() {
                        assert(old_out[p as int].rank_of() > key);
                        assert(old_out[p as int].rank_of() <= old_out[ob].rank_of() || p == ob);
                    }
                } else {
                    assert(out@[a] == old_out[oa]);
                    assert(old_out[oa].rank_of() <= key);
                }
            }
            assert forall|a: int, b: int|
                0 <= a < b < out@.len() && out@[a].rank_of() == out@[b].rank_of() implies perm[a]
                < perm[b] by {
                let oa = if a < p { a } else { a - 1 };
                let ob = if b < p { b } else { b - 1 };
                if a != p && b != p {
                    assert(out@[a] == old_out[oa]);
                    assert(out@[b] == old_out[ob]);
                    assert(perm[a] == old_perm[oa]);
                    assert(perm[b] == old_perm[ob]);
                } else if a == p {
                    assert(out@[b] == old_out[ob]);
                    if p < old_out.len() {
                        assert(old_out[p as int].rank_of() > key);
                        assert(old_out[p as int].rank_of() <= old_out[ob].rank_of() || p == ob);
                    }
                } else {
                    assert(perm[a] == old_perm[oa]);
                    assert(0 <= old_perm[oa] < i);
                }
            }
            i = i + 1;
        }
    }
    assert(orig.take(i) =~= orig);
    assert(is_stable_sorting(orig, out@, perm));
    out
}

/// `x as u32`: the same bits read as an unsigned number.
pub open spec fn i32_as_u32(x: i32) -> nat {
    if x >= 0 {
        x as nat
    } else {
        (x + 0x1_0000_0000) as nat
    }
}

fn i32_to_u32(x: i32) -> (r: u32)
    ensures
        r == i32_as_u32(x),
{
    if x >= 0 {
        x as u32
    } else {
        (x as i64 + 0x1_0000_0000i64) as u32
    }
}

/// A file's width once scaled to the viewport height, rounded up to even.
pub open spec fn scaled_clip_width(v: VideoFile, height: u32) -> nat {
    round_up_even(
        scaled_to_height(i32_as_u32(v.width.unwrap()), i32_as_u32(v.height.unwrap()), height as nat),
    )
}

/// Whether a file has both dimensions, a non-zero height, and a width that
/// scales to the viewport height without overflow.
pub open spec fn can_scale(v: VideoFile, height: u32) -> bool {
    &&& v.width is Some
    &&& v.height is Some
    &&& i32_as_u32(v.height.unwrap()) > 0
    &&& scaled_to_height(i32_as_u32(v.width.unwrap()), i32_as_u32(v.height.unwrap()), height as nat)
        < u32_max()
}

pub open spec fn person_names(people: Seq<Person>) -> Seq<Seq<char>> {
    people.map_values(|p: Person| p.name@)
}

/// `c` is the clip of file `v`: its content URL under `base`, its width
/// scaled to `height` and narrowed to `crop_width` if that is smaller, the
/// names of its people, its tags, its popularity and whether it is an image.
pub open spec fn describes_clip(
    c: ClipInfo,
    v: VideoFile,
    base: Seq<char>,
    height: u32,
    crop_width: Option<u32>,
) -> bool {
    let scaled = scaled_clip_width(v, height);
    &&& c.path@ == content_url_of(v.id as nat, v.mime_type@, base)
    &&& c.scaled_width == scaled
    &&& c.output_width == match crop_width {
        Some(cw) => if scaled <= cw {
            scaled
        } else {
            cw as nat
        },
        None => scaled,
    }
    &&& views(c.performers@) == person_names(v.people@)
    &&& views(c.tags@) == views(v.tags@)
    &&& c.popularity == v.popularity
    &&& c.is_image == (v.file_type == FileType::Image)
}

fn copy_strings(v: &Vec<String>) -> (r: Vec<String>)
    ensures
        views(r@) == views(v@),
{
    let mut r: Vec<String> = Vec::new();
    let mut i: usize = 0;
    while i < v.len()
        invariant
            i <= v.len(),
            views(r@) == views(v@).take(i as int),
        decreases v.len() - i,
    {
        let c = v[i].clone();
        assert(c@ == v@[i as int]@);
        let ghost before = r@;
        r.push(c);
        assert(views(r@) =~= views(before).push(c@));
        assert(views(v@).take(i + 1) =~= views(v@).take(i as int).push(v@[i as int]@));
        i += 1;
    }
    assert(views(v@).take(v.len() as int) =~= views(v@));
    r
}

/// The clip of one file, as `describes_clip` states it.
pub fn clip_info(v: &VideoFile, content_base: &str, height: u32, crop_width: Option<u32>) -> (c: ClipInfo)
    requires
        can_scale(*v, height),
    ensures
        describes_clip(c, *v, content_base@, height, crop_width),
{
    let w = i32_to_u32(v.width.unwrap());
    let h = i32_to_u32(v.height.unwrap());
    let scaled_w = even_scaled_width(w, h, height);
    let output_w = match crop_width {
        Some(cw) => if scaled_w <= cw {
            scaled_w
        } else {
            cw
        },
        None => scaled_w,
    };
    let mut performers: Vec<String> = Vec::new();
    let mut i: usize = 0;
    while i < v.people.len()
        invariant
            i <= v.people.len(),
            views(performers@) == person_names(v.people@).take(i as int),
        decreases v.people.len() - i,
    {
        let name = v.people[i].name.clone();
        assert(name@ == v.people@[i as int].name@);
        let ghost before = performers@;
        performers.push(name);
        assert(views(performers@) =~= views(before).push(name@));
        assert(person_names(v.people@).take(i + 1) =~= person_names(v.people@).take(i as int).push(
            v.people@[i as int].name@,
        ));
        i += 1;
    }
    assert(person_names(v.people@).take(v.people.len() as int) =~= person_names(v.people@));
    ClipInfo {
        is_image: v.is_image(),
        path: v.content_url(content_base),
        scaled_width: scaled_w,
        output_width: output_w,
        performers,
        tags: copy_strings(&v.tags),
        popularity: v.popularity,
    }
}

/// The clips of the selected files, ordered by popularity, least popular
/// first; files of equal popularity keep their order.
pub fn plan_clips(videos: &Vec<VideoFile>, content_base: &str, height: u32, crop_width: Option<u32>) -> (r: Vec<ClipInfo>)
    requires
        forall|k: int| 0 <= k < videos@.len() ==> can_scale(#[trigger] videos@[k], height),
    ensures
        exists|infos: Seq<ClipInfo>, perm: Seq<int>|
            #![trigger is_stable_sorting(infos, r@, perm)]
            infos.len() == videos@.len() && (forall|k: int|
                0 <= k < infos.len() ==> describes_clip(
                    #[trigger] infos[k],
                    videos@[k],
                    content_base@,
                    height,
                    crop_width,
                )) && is_stable_sorting(infos, r@, perm),
        forall|a: int, b: int| 0 <= a < b < r@.len() ==> r@[a].popularity <= r@[b].popularity,
{
    let mut infos: Vec<ClipInfo> = Vec::new();
    let mut i: usize = 0;
    while i < videos.len()
        invariant
            i <= videos.len(),
            infos@.len() == i,
            forall|k: int| 0 <= k < videos@.len() ==> can_scale(#[trigger] videos@[k], height),
            forall|k: int|
                0 <= k < i ==> describes_clip(
                    #[trigger] infos@[k],
                    videos@[k],
                    content_base@,
                    height,
                    crop_width,
                ),
        decreases videos.len() - i,
    {
        infos.push(clip_info(&videos[i], content_base, height, crop_width));
        i += 1;
    }
    let ghost all = infos@;
    let r = sort_by_popularity(infos);
    let ghost perm = choose|perm: Seq<int>| is_stable_sorting(all, r@, perm);
    assert(is_stable_sorting(all, r@, perm));
    proof {
        law_clips_ordered_by_popularity(all, r@, perm);
    }
    r
}

/// Clips ordered by popularity come least popular first: along the result
/// the popularity keys never decrease, and clips with equal keys keep the
/// order they had.
pub proof fn law_clips_ordered_by_popularity(orig: Seq<ClipInfo>, sorted: Seq<ClipInfo>, perm: Seq<int>)
    requires
        is_stable_sorting(orig, sorted, perm),
    ensures
        forall|a: int, b: int|
            0 <= a < b < sorted.len() ==> sorted[a].popularity <= sorted[b].popularity,
        forall|a: int, b: int|
            0 <= a < b < sorted.len() && sorted[a].popularity == sorted[b].popularity ==> perm[a]
                < perm[b],
        forall|k: int| 0 <= k < sorted.len() ==> #[trigger] sorted[k] == orig[perm[k]],
{
}

/// Files ordered by popularity come least popular first: along the result
/// the popularity keys never decrease, and files with equal keys keep the
/// order they had.
pub proof fn law_files_ordered_by_popularity(orig: Seq<VideoFile>, sorted: Seq<VideoFile>, perm: Seq<int>)
    requires
        is_stable_sorting(orig, sorted, perm),
    ensures
        forall|a: int, b: int|
            0 <= a < b < sorted.len() ==> sorted[a].popularity <= sorted[b].popularity,
        forall|a: int, b: int|
            0 <= a < b < sorted.len() && sorted[a].popularity == sorted[b].popularity ==> perm[a]
                < perm[b],
        forall|k: int| 0 <= k < sorted.len() ==> #[trigger] sorted[k] == orig[perm[k]],
{
}

} // verus!
