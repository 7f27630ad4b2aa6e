//! The ffmpeg side of a compilation: the filter graph that scales, crops,
//! labels and stacks the clips and scrolls a viewport across them, and the
//! command line that runs it.

use vstd::prelude::*;
use crate::encoding::EncodingArgs;
use crate::text::{
    decimal, join, join_strings, lemma_join_push, owned, push_char, push_decimal, views,
};
use crate::types::ClipInfo;

verus! {

/// Which text to draw on each clip.
#[derive(Clone, Copy, Debug, PartialEq, Eq, Structural)]
pub enum Text {
    Performers,
    Tags,
}

/// The escape of one character for ffmpeg's drawtext filter.
pub open spec fn escape_char(c: char) -> Seq<char> {
    if c == '\\' {
        seq!['\\', '\\', '\\', '\\']
    } else if c == ':' {
        seq!['\\', ':']
    } else if c == '\'' {
        seq!['\'', '\\', '\\', '\\', '\'', '\'']
    } else {
        seq![c]
    }
}

/// `s` with every character escaped for drawtext.
pub open spec fn escaped(s: Seq<char>) -> Seq<char>
    decreases s.len(),
{
    if s.len() == 0 {
        Seq::empty()
    } else {
        escaped(s.drop_last()) + escape_char(s.last())
    }
}

/// Escape special characters for ffmpeg's drawtext filter.
/// Backslashes, colons and single quotes need escaping: a backslash becomes
/// four, a colon `\:`, a quote `'\\\''`.
pub fn escape_drawtext(text: &str) -> (r: String)
    ensures
        r@ == escaped(text@),
{
    let mut out = String::new();
    for c in it: text.chars()
        invariant
            it.seq() == text@,
            out@ == escaped(it.seq().take(it.index() as int)),
    {
        proof {
            let t = it.seq().take(it.index() + 1);
            assert(t.drop_last() =~= it.seq().take(it.index() as int));
        }
        if c == '\\' {
            push_char(&mut out, '\\');
            push_char(&mut out, '\\');
            push_char(&mut out, '\\');
            push_char(&mut out, '\\');
        } else if c == ':' {
            push_char(&mut out, '\\');
            push_char(&mut out, ':');
        } else if c == '\'' {
            push_char(&mut out, '\'');
            push_char(&mut out, '\\');
            push_char(&mut out, '\\');
            push_char(&mut out, '\\');
            push_char(&mut out, '\'');
            push_char(&mut out, '\'');
        } else {
            push_char(&mut out, c);
        }
        assert(out@ =~= escaped(it.seq().take(it.index() + 1)));
    }
    assert(text@.take(text@.len() as int) =~= text@);
    out
}

/// Every colon of an escaped text is escaped: a backslash stands right before it.
pub proof fn law_escaped_colons(s: Seq<char>)
    ensures
        forall|k: int|
            0 <= k < escaped(s).len() && #[trigger] escaped(s)[k] == ':' ==> k > 0 && escaped(s)[k
                - 1] == '\\',
    decreases s.len(),
{
    if s.len() > 0 {
        law_escaped_colons(s.drop_last());
        let pre = escaped(s.drop_last());
        let chunk = escape_char(s.last());
        let e = escaped(s);
        assert(e == pre + chunk);
        assert forall|k: int| 0 <= k < e.len() && #[trigger] e[k] == ':' implies k > 0 && e[k - 1]
            == '\\' by {
            if k < pre.len() {
                assert(e[k] == pre[k]);
                assert(e[k - 1] == pre[k - 1]);
            } else {
                assert(e[k] == chunk[k - pre.len()]);
                assert(s.last() == ':');
                assert(k - pre.len() == 1);
                assert(e[k - 1] == chunk[0]);
            }
        }
    }
}

/// The label drawn on a clip: its performers or its tags, joined by `", "`.
pub open spec fn clip_label(clip: ClipInfo, text: Text) -> Seq<char> {
    match text {
        Text::Performers => join(views(clip.performers@), ", "@),
        Text::Tags => join(views(clip.tags@), ", "@),
    }
}

/// The label of a clip lists every one of its tags (or performers), in
/// order, with `", "` between consecutive ones: no label without tags, the
/// tag itself for one tag, and one more tag after `", "` for each tag added
/// at the end.
pub proof fn law_label_lists_every_item(c1: ClipInfo, c2: ClipInfo, t: Seq<char>)
    ensures
        c1.tags@.len() == 0 ==> clip_label(c1, Text::Tags) == Seq::<char>::empty(),
        c1.performers@.len() == 0 ==> clip_label(c1, Text::Performers) == Seq::<char>::empty(),
        views(c2.tags@) == views(c1.tags@).push(t) ==> clip_label(c2, Text::Tags) == if c1.tags@.len()
            == 0 {
            t
        } else {
            clip_label(c1, Text::Tags) + ", "@ + t
        },
        views(c2.performers@) == views(c1.performers@).push(t) ==> clip_label(c2, Text::Performers)
            == if c1.performers@.len() == 0 {
            t
        } else {
            clip_label(c1, Text::Performers) + ", "@ + t
        },
{
    lemma_join_push(views(c1.tags@), t, ", "@);
    lemma_join_push(views(c1.performers@), t, ", "@);
}

/// The filter chain of clip `i`: frame rate, scale to the viewport height,
/// a centred crop when the clip is narrower on output, the label, and the
/// output pad `[v{i}]`.
pub open spec fn clip_chain(i: nat, clip: ClipInfo, viewport_height: u32, text: Option<Text>) -> Seq<char> {
    let h = decimal(viewport_height as nat);
    "["@ + decimal(i) + ":v]fps=30,scale="@ + decimal(clip.scaled_width as nat) + ":"@ + h
        + ",setpts=PTS-STARTPTS"@ + (if clip.output_width < clip.scaled_width {
        ",crop="@ + decimal(clip.output_width as nat) + ":"@ + h + ":(iw-"@ + decimal(
            clip.output_width as nat,
        ) + ")/2:0"@
    } else {
        Seq::empty()
    }) + (match text {
        Some(t) => ",drawtext=text='"@ + escaped(clip_label(clip, t))
            + "':fontsize=24:fontcolor=white:borderw=2:bordercolor=black:x=(w-text_w)/2:y=h-text_h-20"@,
        None => Seq::empty(),
    }) + "[v"@ + decimal(i) + "]"@
}

/// The chain of a clip drawn with a text draws exactly that clip's label,
/// escaped: `drawtext=text='<label>'` stands in it.
pub proof fn law_chain_draws_label(i: nat, clip: ClipInfo, viewport_height: u32, t: Text)
    ensures
        exists|k: int|
            0 <= k && k + ("drawtext=text='"@ + escaped(clip_label(clip, t)) + "'"@).len() <= clip_chain(
                i,
                clip,
                viewport_height,
                Some(t),
            ).len() && #[trigger] clip_chain(i, clip, viewport_height, Some(t)).subrange(
                k,
                k + ("drawtext=text='"@ + escaped(clip_label(clip, t)) + "'"@).len(),
            ) == "drawtext=text='"@ + escaped(clip_label(clip, t)) + "'"@,
{
    reveal_strlit(",drawtext=text='");
    reveal_strlit("drawtext=text='");
    reveal_strlit(",");
    reveal_strlit("'");
    reveal_strlit("':fontsize=24:fontcolor=white:borderw=2:bordercolor=black:x=(w-text_w)/2:y=h-text_h-20");
    reveal_strlit(":fontsize=24:fontcolor=white:borderw=2:bordercolor=black:x=(w-text_w)/2:y=h-text_h-20");
    let h = decimal(viewport_height as nat);
    let head = "["@ + decimal(i) + ":v]fps=30,scale="@ + decimal(clip.scaled_width as nat) + ":"@ + h
        + ",setpts=PTS-STARTPTS"@ + (if clip.output_width < clip.scaled_width {
        ",crop="@ + decimal(clip.output_width as nat) + ":"@ + h + ":(iw-"@ + decimal(
            clip.output_width as nat,
        ) + ")/2:0"@
    } else {
        Seq::empty()
    });
    let mid = "drawtext=text='"@ + escaped(clip_label(clip, t)) + "'"@;
    let tail = ":fontsize=24:fontcolor=white:borderw=2:bordercolor=black:x=(w-text_w)/2:y=h-text_h-20"@
        + "[v"@ + decimal(i) + "]"@;
    let chain = clip_chain(i, clip, viewport_height, Some(t));
    assert(",drawtext=text='"@ =~= ","@ + "drawtext=text='"@);
    assert("':fontsize=24:fontcolor=white:borderw=2:bordercolor=black:x=(w-text_w)/2:y=h-text_h-20"@
        =~= "'"@ + ":fontsize=24:fontcolor=white:borderw=2:bordercolor=black:x=(w-text_w)/2:y=h-text_h-20"@);
    assert(chain =~= (head + ","@) + mid + tail);
    let k = (head + ","@).len() as int;
    assert(chain.subrange(k, k + mid.len()) =~= mid);
}

/// `[v0][v1]...[v{n-1}]`.
pub open spec fn stack_inputs(n: nat) -> Seq<char>
    decreases n,
{
    if n == 0 {
        Seq::empty()
    } else {
        stack_inputs((n - 1) as nat) + "[v"@ + decimal((n - 1) as nat) + "]"@
    }
}

/// The filter graph: one chain per clip, the horizontal stack of all of
/// them, and the crop of the viewport that moves right at `speed` pixels
/// per second until it reaches `max_offset`.
pub open spec fn filter_graph(
    clips: Seq<ClipInfo>,
    viewport_width: u32,
    viewport_height: u32,
    speed: Seq<char>,
    max_offset: u32,
    text: Option<Text>,
) -> Seq<char> {
    let n = clips.len();
    let chains = Seq::new(n, |i: int| clip_chain(i as nat, clips[i], viewport_height, text));
    let stack = stack_inputs(n) + "hstack=inputs="@ + decimal(n) + "[canvas]"@;
    let scroll = "[canvas]crop="@ + decimal(viewport_width as nat) + ":"@ + decimal(
        viewport_height as nat,
    ) + ":'min(t*"@ + speed + ","@ + decimal(max_offset as nat) + ")':0[out]"@;
    join(chains.push(stack).push(scroll), ";\n"@)
}

fn build_clip_chain(i: usize, clip: &ClipInfo, viewport_height: u32, text: Option<Text>) -> (r: String)
    ensures
        r@ == clip_chain(i as nat, *clip, viewport_height, text),
{
    let mut chain = owned("[");
    push_decimal(&mut chain, i as u64);
    chain.append(":v]fps=30,scale=");
    push_decimal(&mut chain, clip.scaled_width as u64);
    chain.append(":");
    push_decimal(&mut chain, viewport_height as u64);
    chain.append(",setpts=PTS-STARTPTS");
    let ghost base = chain@;
    if clip.output_width < clip.scaled_width {
        chain.append(",crop=");
        push_decimal(&mut chain, clip.output_width as u64);
        chain.append(":");
        push_decimal(&mut chain, viewport_height as u64);
        chain.append(":(iw-");
        push_decimal(&mut chain, clip.output_width as u64);
        chain.append(")/2:0");
    }
    let ghost cropped = chain@;
    match text {
        Some(t) => {
            let label = match t {
                Text::Performers => join_strings(&clip.performers, ", "),
                Text::Tags => join_strings(&clip.tags, ", "),
            };
            let escaped_label = escape_drawtext(label.as_str());
            chain.append(",drawtext=text='");
            chain.append(escaped_label.as_str());
            chain.append(
                "':fontsize=24:fontcolor=white:borderw=2:bordercolor=black:x=(w-text_w)/2:y=h-text_h-20",
            );
        },
        None => {},
    }
    chain.append("[v");
    push_decimal(&mut chain, i as u64);
    chain.append("]");
    assert(chain@ =~= clip_chain(i as nat, *clip, viewport_height, text));
    chain
}

/// The ffmpeg filter graph for a scrolling compilation of `clips`, as
/// `filter_graph` states it. `speed` is the scroll speed already written
/// with two decimals.
pub fn build_filter_graph(
    clips: &Vec<ClipInfo>,
    viewport_width: u32,
    viewport_height: u32,
    speed: &str,
    max_offset: u32,
    text: Option<Text>,
) -> (r: String)
    ensures
        r@ == filter_graph(clips@, viewport_width, viewport_height, speed@, max_offset, text),
{
    let n = clips.len();
    let ghost chains = Seq::new(
        n as nat,
        |i: int| clip_chain(i as nat, clips@[i], viewport_height, text),
    );
    let mut parts: Vec<String> = Vec::new();
    let mut inputs = String::new();
    let mut i: usize = 0;
    while i < n
        invariant
            i <= n == clips.len(),
            chains == Seq::new(n as nat, |i: int| clip_chain(i as nat, clips@[i], viewport_height, text)),
            views(parts@) == chains.take(i as int),
            inputs@ == stack_inputs(i as nat),
        decreases n - i,
    {
        let chain = build_clip_chain(i, &clips[i], viewport_height, text);
        let ghost before = parts@;
        parts.push(chain);
        assert(views(parts@) =~= views(before).push(chains[i as int]));
        assert(chains.take(i + 1) =~= chains.take(i as int).push(chains[i as int]));
        inputs.append("[v");
        push_decimal(&mut inputs, i as u64);
        inputs.append("]");
        assert(inputs@ =~= stack_inputs((i + 1) as nat));
        i += 1;
    }
    assert(chains.take(n as int) =~= chains);
    let mut stack = inputs;
    stack.append("hstack=inputs=");
    push_decimal(&mut stack, n as u64);
    stack.append("[canvas]");
    let mut scroll = owned("[canvas]crop=");
    push_decimal(&mut scroll, viewport_width as u64);
    scroll.append(":");
    push_decimal(&mut scroll, viewport_height as u64);
    scroll.append(":'min(t*");
    scroll.append(speed);
    scroll.append(",");
    push_decimal(&mut scroll, max_offset as u64);
    scroll.append(")':0[out]");
    let ghost before = parts@;
    parts.push(stack);
    parts.push(scroll);
    assert(views(parts@) =~= chains.push(
        stack_inputs(n as nat) + "hstack=inputs="@ + decimal(n as nat) + "[canvas]"@,
    ).push(
        "[canvas]crop="@ + decimal(viewport_width as nat) + ":"@ + decimal(viewport_height as nat)
            + ":'min(t*"@ + speed@ + ","@ + decimal(max_offset as nat) + ")':0[out]"@,
    ));
    join_strings(&parts, ";\n")
}

/// The sum of the output widths of `clips`: the width of the stacked canvas.
pub open spec fn total_width(clips: Seq<ClipInfo>) -> nat
    decreases clips.len(),
{
    if clips.len() == 0 {
        0
    } else {
        total_width(clips.drop_last()) + clips.last().output_width as nat
    }
}

pub open spec fn canvas_too_narrow_message(total: nat, viewport_width: u32) -> Seq<char> {
    "Total canvas width ("@ + decimal(total) + ") must be greater than viewport width ("@
        + decimal(viewport_width as nat) + "). Add more clips or use a narrower viewport."@
}

/// How far the viewport scrolls: the canvas width less the viewport width.
/// The canvas must be wider than the viewport.
pub fn scroll_offset(clips: &Vec<ClipInfo>, viewport_width: u32) -> (r: Result<u32, String>)
    requires
        total_width(clips@) <= 0xffff_ffff,
    ensures
        total_width(clips@) > viewport_width ==> r == Ok::<u32, String>(
            (total_width(clips@) - viewport_width) as u32,
        ),
        total_width(clips@) <= viewport_width ==> (r matches Err(e) && e@
            == canvas_too_narrow_message(total_width(clips@), viewport_width)),
{
    let mut total: u32 = 0;
    let mut i: usize = 0;
    while i < clips.len()
        invariant
            i <= clips.len(),
            total == total_width(clips@.take(i as int)),
            total_width(clips@) <= 0xffff_ffff,
        decreases clips.len() - i,
    {
        proof {
            assert(clips@.take(i + 1).drop_last() =~= clips@.take(i as int));
            lemma_total_width_prefix(clips@, i + 1);
        }
        total = total + clips[i].output_width;
        i += 1;
    }
    assert(clips@.take(clips.len() as int) =~= clips@);
    if total <= viewport_width {
        let mut m = owned("Total canvas width (");
        push_decimal(&mut m, total as u64);
        m.append(") must be greater than viewport width (");
        push_decimal(&mut m, viewport_width as u64);
        m.append("). Add more clips or use a narrower viewport.");
        return Err(m);
    }
    Ok(total - viewport_width)
}

proof fn lemma_total_width_prefix(clips: Seq<ClipInfo>, k: int)
    requires
        0 <= k <= clips.len(),
    ensures
        total_width(clips.take(k)) <= total_width(clips),
    decreases clips.len(),
{
    if k < clips.len() {
        assert(clips.drop_last().take(k) =~= clips.take(k));
        lemma_total_width_prefix(clips.drop_last(), k);
    } else {
        assert(clips.take(k) =~= clips);
    }
}

/// The input arguments of one clip: images loop as a still stream, videos
/// loop forever; then `-i {path}`.
pub open spec fn input_args(clip: ClipInfo) -> Seq<Seq<char>> {
    (if clip.is_image {
        seq!["-loop"@, "1"@]
    } else {
        seq!["-stream_loop"@, "-1"@]
    }) + seq!["-i"@, clip.path@]
}

/// The input arguments of all clips, in order.
pub open spec fn all_input_args(clips: Seq<ClipInfo>) -> Seq<Seq<char>>
    decreases clips.len(),
{
    if clips.len() == 0 {
        Seq::empty()
    } else {
        all_input_args(clips.drop_last()) + input_args(clips.last())
    }
}

/// The audio input, after the clips.
pub open spec fn audio_input_args(audio: Option<Seq<char>>) -> Seq<Seq<char>> {
    match audio {
        Some(a) => seq!["-i"@, a],
        None => Seq::empty(),
    }
}

/// The audio mapping: the audio input's stream in AAC, cut to the shorter
/// stream; no audio at all without an audio input.
pub open spec fn audio_map_args(inputs: nat, audio: Option<Seq<char>>) -> Seq<Seq<char>> {
    match audio {
        Some(a) => seq!["-map"@, decimal(inputs) + ":a"@, "-c:a"@, "aac"@, "-shortest"@],
        None => seq!["-an"@],
    }
}

/// The ffmpeg arguments of a compilation: every clip as a looping input,
/// the audio file after them, the filter graph, the mapping of `[out]` (and
/// of the audio, cut to the shorter stream, or no audio), the duration, the
/// encoder settings, and progress reports on standard output.
pub open spec fn ffmpeg_args(
    clips: Seq<ClipInfo>,
    graph: Seq<char>,
    audio: Option<Seq<char>>,
    duration_secs: u32,
    encoding: EncodingArgs,
    output: Seq<char>,
) -> Seq<Seq<char>> {
    all_input_args(clips) + audio_input_args(audio) + seq![
        "-filter_complex"@,
        graph,
        "-map"@,
        "[out]"@,
    ] + audio_map_args(clips.len(), audio) + seq![
        "-t"@,
        decimal(duration_secs as nat),
        "-c:v"@,
        encoding.codec@,
    ] + views(encoding.preset_args@) + seq![
        encoding.quality_flag@,
        decimal(encoding.quality_value as nat),
        "-y"@,
        "-progress"@,
        "-"@,
        "-nostats"@,
        output,
    ]
}

fn push_arg(args: &mut Vec<String>, a: &str)
    ensures
        views(final(args)@) == views(old(args)@).push(a@),
{
    let ghost before = args@;
    args.push(owned(a));
    assert(views(args@) =~= views(before).push(a@));
}

fn push_string_arg(args: &mut Vec<String>, a: String)
    ensures
        views(final(args)@) == views(old(args)@).push(a@),
{
    let ghost before = args@;
    args.push(a);
    assert(views(args@) =~= views(before).push(a@));
}

fn push_input_args(args: &mut Vec<String>, clips: &Vec<ClipInfo>)
    ensures
        views(final(args)@) == views(old(args)@) + all_input_args(clips@),
{
    let mut i: usize = 0;
    assert(views(args@) =~= views(old(args)@) + all_input_args(clips@.take(0)));
    while i < clips.len()
        invariant
            i <= clips.len(),
            views(args@) == views(old(args)@) + all_input_args(clips@.take(i as int)),
        decreases clips.len() - i,
    {
        let ghost before = views(args@);
        if clips[i].is_image {
            push_arg(args, "-loop");
            push_arg(args, "1");
        } else {
            push_arg(args, "-stream_loop");
            push_arg(args, "-1");
        }
        push_arg(args, "-i");
        push_arg(args, clips[i].path.as_str());
        proof {
            assert(clips@.take(i + 1).drop_last() =~= clips@.take(i as int));
            assert(views(args@) =~= before + input_args(clips@[i as int]));
        }
        i += 1;
    }
    assert(clips@.take(clips.len() as int) =~= clips@);
}

fn push_strings(args: &mut Vec<String>, v: &Vec<String>)
    ensures
        views(final(args)@) == views(old(args)@) + views(v@),
{
    let mut k: usize = 0;
    while k < v.len()
        invariant
            k <= v.len(),
            views(args@) == views(old(args)@) + views(v@).take(k as int),
        decreases v.len() - k,
    {
        push_arg(args, v[k].as_str());
        assert(views(v@).take(k + 1) =~= views(v@).take(k as int).push(v@[k as int]@));
        k += 1;
    }
    assert(views(v@).take(v.len() as int) =~= views(v@));
}

/// The arguments of the ffmpeg command that encodes a compilation, as `ffmpeg_args` states them.
pub fn ffmpeg_command_args(
    clips: &Vec<ClipInfo>,
    graph: &str,
    audio: Option<&str>,
    duration_secs: u32,
    encoding: &EncodingArgs,
    output: &str,
) -> (r: Vec<String>)
    ensures
        views(r@) == ffmpeg_args(
            clips@,
            graph@,
            match audio {
                Some(a) => Some(a@),
                None => None,
            },
            duration_secs,
            *encoding,
            output@,
        ),
{
    let ghost audio_view = match audio {
        Some(a) => Some(a@),
        None => None,
    };
    let mut args: Vec<String> = Vec::new();
    push_input_args(&mut args, clips);
    let ghost p1 = views(args@);
    match audio {
        Some(a) => {
            push_arg(&mut args, "-i");
            push_arg(&mut args, a);
        },
        None => {},
    }
    assert(views(args@) =~= p1 + audio_input_args(audio_view));
    let ghost p2 = views(args@);
    push_arg(&mut args, "-filter_complex");
    push_arg(&mut args, graph);
    push_arg(&mut args, "-map");
    push_arg(&mut args, "[out]");
    assert(views(args@) =~= p2 + seq!["-filter_complex"@, graph@, "-map"@, "[out]"@]);
    let ghost p3 = views(args@);
    match audio {
        Some(_) => {
            push_arg(&mut args, "-map");
            let mut m = String::new();
            push_decimal(&mut m, clips.len() as u64);
            m.append(":a");
            push_string_arg(&mut args, m);
            push_arg(&mut args, "-c:a");
            push_arg(&mut args, "aac");
            push_arg(&mut args, "-shortest");
        },
        None => {
            push_arg(&mut args, "-an");
        },
    }
    assert(views(args@) =~= p3 + audio_map_args(clips@.len(), audio_view));
    let ghost p4 = views(args@);
    push_arg(&mut args, "-t");
    push_string_arg(&mut args, crate::text::decimal_string(duration_secs as u64));
    push_arg(&mut args, "-c:v");
    push_arg(&mut args, encoding.codec.as_str());
    assert(views(args@) =~= p4 + seq![
        "-t"@,
        decimal(duration_secs as nat),
        "-c:v"@,
        encoding.codec@,
    ]);
    push_strings(&mut args, &encoding.preset_args);
    let ghost p5 = views(args@);
    push_arg(&mut args, encoding.quality_flag);
    push_string_arg(&mut args, crate::text::decimal_string(encoding.quality_value as u64));
    push_arg(&mut args, "-y");
    push_arg(&mut args, "-progress");
    push_arg(&mut args, "-");
    push_arg(&mut args, "-nostats");
    push_arg(&mut args, output);
    assert(views(args@) =~= p5 + seq![
        encoding.quality_flag@,
        decimal(encoding.quality_value as nat),
        "-y"@,
        "-progress"@,
        "-"@,
        "-nostats"@,
        output@,
    ]);
    args
}

} // verus!
