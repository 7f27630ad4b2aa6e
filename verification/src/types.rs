//! The plain data of the tool: aspect ratios, orientations, the media files
//! that the catalogue API lists, and the clips that go into a compilation.

use vstd::prelude::*;
use crate::numparse::{int_error_message, parse_unsigned, parse_unsigned_chars};
use crate::text::{
    chars_of, find_char, index_of, lemma_index_of, owned, push_char, same_text, sub_vec, trim,
    trim_bounds,
};

verus! {

/// The largest `u32`, as a mathematical integer.
pub open spec fn u32_max() -> nat {
    0xffff_ffff
}

/// A width to height ratio such as 9:16.
#[derive(Clone, Copy, Debug, PartialEq, Eq, Structural)]
pub struct AspectRatio {
    pub w: u32,
    pub h: u32,
}

/// `x` rounded up to the next even number.
pub open spec fn round_up_even(x: nat) -> nat {
    x + x % 2
}

/// `height * w / h` as `u32` arithmetic gives it: the quotient taken modulo 2^32.
pub open spec fn scaled_to_height(w: nat, h: nat, height: nat) -> nat {
    (height * w / h) % 0x1_0000_0000
}

/// What `AspectRatio::parse` makes of `s`: the two numbers around the first
/// `':'`, each trimmed, or the message of the first thing that is wrong.
pub open spec fn aspect_ratio_outcome(s: Seq<char>) -> Result<(nat, nat), Seq<char>> {
    match index_of(s, ':') {
        None => Err("expected W:H format, got '"@ + s + "'"@),
        Some(k) => match parse_unsigned(trim(s.take(k as int)), u32_max()) {
            Err(e) => Err(int_error_message(e)),
            Ok(w) => match parse_unsigned(trim(s.skip(k + 1 as int)), u32_max()) {
                Err(e) => Err(int_error_message(e)),
                Ok(h) => if w == 0 || h == 0 {
                    Err("aspect ratio components must be > 0"@)
                } else {
                    Ok((w, h))
                },
            },
        },
    }
}

/// Both numbers of an aspect ratio that reads fit in a `u32`.
pub proof fn lemma_aspect_ratio_bound(s: Seq<char>)
    ensures
        aspect_ratio_outcome(s) matches Ok((w, h)) ==> w <= u32_max() && h <= u32_max(),
{
    if let Some(k) = index_of(s, ':') {
        crate::numparse::lemma_parse_bound(trim(s.take(k as int)), u32_max());
        crate::numparse::lemma_parse_bound(trim(s.skip(k + 1 as int)), u32_max());
    }
}

/// A crop width is even, and at most one more than the scaled width.
pub proof fn law_round_up_even(x: nat)
    ensures
        round_up_even(x) % 2 == 0,
        x <= round_up_even(x) <= x + 1,
{
}

impl AspectRatio {
    /// Parses `"W:H"`, such as `"9:16"`. White space around each number is
    /// ignored; both numbers must be greater than zero.
    pub fn parse(s: &str) -> (r: Result<AspectRatio, String>)
        ensures
            match aspect_ratio_outcome(s@) {
                Ok((w, h)) => r == Ok::<AspectRatio, String>(AspectRatio { w: w as u32, h: h as u32 }),
                Err(m) => r matches Err(e) && e@ == m,
            },
    {
        let v = chars_of(s);
        proof {
            lemma_index_of(v@, ':');
        }
        let k = match find_char(&v, ':') {
            None => {
                let mut m = owned("expected W:H format, got '");
                m.append(s);
                m.append("'");
                return Err(m);
            },
            Some(k) => k,
        };
        proof {
            crate::numparse::lemma_parse_bound(trim(v@.take(k as int)), u32_max());
            crate::numparse::lemma_parse_bound(trim(v@.skip(k + 1 as int)), u32_max());
        }
        let (a, b) = trim_bounds(&v, 0, k);
        let wv = sub_vec(&v, a, b);
        assert(v@.subrange(0, k as int) =~= v@.take(k as int));
        let w = match parse_unsigned_chars(&wv, 0xffff_ffff) {
            Ok(w) => w,
            Err(e) => {
                return Err(e.message());
            },
        };
        let (c, d) = trim_bounds(&v, k + 1, v.len());
        let hv = sub_vec(&v, c, d);
        assert(v@.subrange(k + 1, v.len() as int) =~= v@.skip(k + 1));
        let h = match parse_unsigned_chars(&hv, 0xffff_ffff) {
            Ok(h) => h,
            Err(e) => {
                return Err(e.message());
            },
        };
        if w == 0 || h == 0 {
            return Err(owned("aspect ratio components must be > 0"));
        }
        Ok(AspectRatio { w: w as u32, h: h as u32 })
    }

    /// Given a viewport height, return the crop width for this aspect ratio:
    /// `height * w / h`, rounded up to an even number.
    pub fn crop_width(&self, height: u32) -> (r: u32)
        requires
            self.h > 0,
            scaled_to_height(self.w as nat, self.h as nat, height as nat) < u32_max(),
        ensures
            r == round_up_even(scaled_to_height(self.w as nat, self.h as nat, height as nat)),
    {
        even_scaled_width(self.w, self.h, height)
    }
}

/// `height * w / h` truncated to 32 bits, then rounded up to an even number.
pub fn even_scaled_width(w: u32, h: u32, height: u32) -> (r: u32)
    requires
        h > 0,
        scaled_to_height(w as nat, h as nat, height as nat) < u32_max(),
    ensures
        r == round_up_even(scaled_to_height(w as nat, h as nat, height as nat)),
{
    assert(height as u64 * w as u64 <= 0xffff_ffff_ffff_ffff) by (nonlinear_arith)
        requires
            height <= 0xffff_ffff,
            w <= 0xffff_ffff,
    ;
    let q: u64 = height as u64 * w as u64 / h as u64;
    let t: u32 = (q % 0x1_0000_0000) as u32;
    t + t % 2
}

/// The orientation of a media file, as the catalogue API filters on it.
#[derive(Clone, Copy, Debug, PartialEq, Eq, Structural)]
pub enum Orientation {
    Any,
    Portrait,
    Landscape,
    Square,
}

impl Orientation {
    /// The value of the API's `orientation` query parameter; none for `Any`.
    pub fn as_api_param(&self) -> (r: Option<&'static str>)
        ensures
            match *self {
                Orientation::Any => r is None,
                Orientation::Portrait => r matches Some(p) && p@ == "Portrait"@,
                Orientation::Landscape => r matches Some(p) && p@ == "Landscape"@,
                Orientation::Square => r matches Some(p) && p@ == "Square"@,
            },
    {
        match self {
            Orientation::Any => None,
            Orientation::Portrait => Some("Portrait"),
            Orientation::Landscape => Some("Landscape"),
            Orientation::Square => Some("Square"),
        }
    }

    /// The name shown when choosing an orientation.
    pub fn label(&self) -> (r: String)
        ensures
            r@ == match *self {
                Orientation::Any => "Any"@,
                Orientation::Portrait => "Portrait"@,
                Orientation::Landscape => "Landscape"@,
                Orientation::Square => "Square"@,
            },
    {
        match self {
            Orientation::Any => owned("Any"),
            Orientation::Portrait => owned("Portrait"),
            Orientation::Landscape => owned("Landscape"),
            Orientation::Square => owned("Square"),
        }
    }
}

/// The file extension (with its dot) that content of MIME type `mime` is stored under.
pub open spec fn extension_of(mime: Seq<char>) -> Seq<char> {
    if mime == "video/mp4"@ || mime == "video/x-m4v"@ || mime == "audio/mp4"@ || mime
        == "video/quicktime"@ || mime == "application/x-matroska"@ || mime
        == "application/octet-stream"@ {
        ".mp4"@
    } else if mime == "video/webm"@ {
        ".webm"@
    } else if mime == "image/jpeg"@ {
        ".jpeg"@
    } else if mime == "image/png"@ {
        ".png"@
    } else if mime == "image/gif"@ {
        ".gif"@
    } else if mime == "image/webp"@ {
        ".webp"@
    } else if mime == "image/avif"@ {
        ".avif"@
    } else {
        ".mp4"@
    }
}

/// The file extension for a MIME type. The MP4-like video types
/// (`video/mp4`, `video/x-m4v`, `audio/mp4`, `video/quicktime`,
/// `application/x-matroska`, `application/octet-stream`) and every type not
/// listed give `.mp4`.
pub fn extension_for_mime(mime: &str) -> (r: &'static str)
    ensures
        r@ == extension_of(mime@),
{
    if same_text(mime, "video/mp4") || same_text(mime, "video/x-m4v") || same_text(
        mime,
        "audio/mp4",
    ) || same_text(mime, "video/quicktime") || same_text(mime, "application/x-matroska")
        || same_text(mime, "application/octet-stream") {
        ".mp4"
    } else if same_text(mime, "video/webm") {
        ".webm"
    } else if same_text(mime, "image/jpeg") {
        ".jpeg"
    } else if same_text(mime, "image/png") {
        ".png"
    } else if same_text(mime, "image/gif") {
        ".gif"
    } else if same_text(mime, "image/webp") {
        ".webp"
    } else if same_text(mime, "image/avif") {
        ".avif"
    } else {
        ".mp4"
    }
}

/// How the view scrolls across the canvas.
#[derive(Clone, Copy, Debug, PartialEq, Eq, Structural)]
pub enum ScrollEasing {
    Linear,
    Ease,
}

impl ScrollEasing {
    /// The name shown when choosing an easing.
    pub fn label(&self) -> (r: String)
        ensures
            r@ == match *self {
                ScrollEasing::Linear => "Linear"@,
                ScrollEasing::Ease => "Ease (smoothstep)"@,
            },
    {
        match self {
            ScrollEasing::Linear => owned("Linear"),
            ScrollEasing::Ease => owned("Ease (smoothstep)"),
        }
    }
}

/// The kind of a catalogue file.
#[derive(Clone, Copy, Debug, PartialEq, Eq, Structural)]
pub enum FileType {
    Video,
    Image,
    Text,
}

/// A person credited on a catalogue file.
#[derive(Debug)]
pub struct Person {
    pub name: String,
    pub person_type: String,
}

/// A file as the catalogue API lists it.
///
/// `id` is the file's UUID as a 128-bit value. `popularity` is an order key:
/// files compare by it as they compare by their popularity score.
#[derive(Debug)]
pub struct VideoFile {
    pub id: u128,
    pub title: String,
    pub file_type: FileType,
    pub width: Option<i32>,
    pub height: Option<i32>,
    pub duration: Option<u64>,
    pub mime_type: String,
    pub people: Vec<Person>,
    pub popularity: u32,
    pub tags: Vec<String>,
}

/// The lower-case hexadecimal digit for `n < 16`.
pub open spec fn hex_digit(n: nat) -> char {
    if n < 10 {
        (48 + n) as char
    } else {
        (87 + n) as char
    }
}

/// The `k`-th hexadecimal digit of a 128-bit value, from the most significant (`k == 0`).
pub open spec fn uuid_nibble(id: nat, k: int) -> nat {
    ((id as int / vstd::arithmetic::power::pow(16, (31 - k) as nat)) % 16) as nat
}

/// How many of the four hyphens of a UUID's text come before position `p`.
pub open spec fn hyphens_before(p: int) -> int {
    (if p > 8 { 1int } else { 0int }) + (if p > 13 { 1int } else { 0int }) + (if p > 18 {
        1int
    } else {
        0int
    }) + (if p > 23 { 1int } else { 0int })
}

/// The hyphenated lower-case text of a UUID, `xxxxxxxx-xxxx-xxxx-xxxx-xxxxxxxxxxxx`,
/// the 32 hexadecimal digits of `id` from the most significant one.
pub open spec fn uuid_text(id: nat) -> Seq<char> {
    Seq::new(
        36,
        |p: int|
            if p == 8 || p == 13 || p == 18 || p == 23 {
                '-'
            } else {
                hex_digit(uuid_nibble(id, p - hyphens_before(p)))
            },
    )
}

/// `uuid::Uuid::from_u128(id).to_string()`: the UUID with this 128-bit value
/// (its bytes are the value's big-endian bytes) in its `Display` form, which
/// the `uuid` crate writes as the hyphenated lower-case hexadecimal text.
#[verifier::external_body]
fn uuid_string(id: u128) -> (r: String)
    ensures
        r@ == uuid_text(id as nat),
{
    uuid::Uuid::from_u128(id).to_string()
}

/// The content URL of a file: `{base}/{first}/{id}{ext}`, where `id` is the
/// file's UUID text, `first` its first character and `ext` the extension for
/// its MIME type.
pub open spec fn content_url_of(id: nat, mime: Seq<char>, base: Seq<char>) -> Seq<char> {
    base + "/"@ + seq![uuid_text(id)[0]] + "/"@ + uuid_text(id) + extension_of(mime)
}

impl VideoFile {
    pub fn is_image(&self) -> (r: bool)
        ensures
            r == (self.file_type == FileType::Image),
    {
        match self.file_type {
            FileType::Image => true,
            _ => false,
        }
    }

    /// Where the file's content is served from under the content base URL.
    pub fn content_url(&self, base_url: &str) -> (r: String)
        ensures
            r@ == content_url_of(self.id as nat, self.mime_type@, base_url@),
    {
        let id = uuid_string(self.id);
        let first = id.as_str().get_char(0);
        let ext = extension_for_mime(self.mime_type.as_str());
        let mut url = owned(base_url);
        url.append("/");
        push_char(&mut url, first);
        url.append("/");
        url.append(id.as_str());
        url.append(ext);
        assert(url@ =~= content_url_of(self.id as nat, self.mime_type@, base_url@));
        url
    }
}

/// A clip placed on the canvas.
pub struct ClipInfo {
    pub path: String,
    /// Width after scaling to viewport height (preserving aspect ratio).
    pub scaled_width: u32,
    /// Width after optional crop (same as scaled_width if no crop).
    pub output_width: u32,
    pub performers: Vec<String>,
    pub tags: Vec<String>,
    /// Order key of the clip's popularity score.
    pub popularity: u32,
    pub is_image: bool,
}

/// The paging block of an API page.
#[derive(Clone, Copy, Debug)]
pub struct PageInfo {
    pub size: u32,
    pub number: u32,
    pub total_elements: u64,
    pub total_pages: u32,
}

/// One page of an API listing.
pub struct PageResponse<T> {
    pub content: Vec<T>,
    pub page: PageInfo,
}

} // verus!
