//! The parameters of one run, from the command line or the interactive
//! prompts, merged with the configuration file.

use vstd::prelude::*;
use crate::config::{Config, LogLevel};
use crate::duration::{DurationOutcome, duration_outcome, parse_duration};
use crate::encoding::{Codec, Effort, Quality};
use crate::ffmpeg::Text;
use crate::text::{
    chars_of, is_white_space, lemma_nonempty_trimmed_members, lemma_split_pieces, lemma_trim_shape,
    nonempty_trimmed, split_on, trim, trimmed_pieces, views,
};
use crate::types::{AspectRatio, Orientation, ScrollEasing, aspect_ratio_outcome};

verus! {

/// The command-line arguments. Durations are in seconds; `seed` is the bit
/// pattern of the floating-point seed; `api_url` and `content_url` are set
/// only when given on the command line.
pub struct Args {
    pub clip_count: usize,
    pub output: Option<String>,
    pub width: u32,
    pub height: u32,
    pub duration: u64,
    pub text: Option<Text>,
    pub max_clip_duration: u64,
    pub seed: Option<u64>,
    pub orientation: Orientation,
    pub tags: Vec<String>,
    pub people: Vec<String>,
    pub with_images: bool,
    pub crop: Option<AspectRatio>,
    pub api_url: Option<String>,
    pub content_url: Option<String>,
    pub download_concurrency: usize,
    pub codec: Codec,
    pub quality: Quality,
    pub effort: Effort,
    pub gpu: bool,
    pub song: Option<String>,
    pub easing: ScrollEasing,
    pub log: Option<LogLevel>,
}

/// Everything one run needs. Durations are in seconds; `seed` is the bit
/// pattern of the floating-point seed.
pub struct RunParams {
    pub clip_count: usize,
    pub output: Option<String>,
    pub width: u32,
    pub height: u32,
    pub duration: u64,
    pub text: Option<Text>,
    pub max_clip_duration: u64,
    pub seed: Option<u64>,
    pub orientation: Orientation,
    pub tags: Vec<String>,
    pub people: Vec<String>,
    pub with_images: bool,
    pub crop: Option<AspectRatio>,
    pub api_url: String,
    pub content_url: String,
    pub gpu: bool,
    pub codec: Codec,
    pub quality: Quality,
    pub effort: Effort,
    pub song: Option<String>,
    pub easing: ScrollEasing,
}

/// A value given on the command line wins over the configured one.
pub open spec fn cli_over_config(cli: Option<String>, configured: String) -> Seq<char> {
    match cli {
        Some(v) => v@,
        None => configured@,
    }
}

impl RunParams {
    /// The parameters of a command-line run: command-line arguments win over
    /// the configuration file, which wins over the built-in defaults; the GPU
    /// is used when either asks for it.
    pub fn from_cli(args: Args, config: Config) -> (r: Self)
        ensures
            r.clip_count == args.clip_count,
            r.output == args.output,
            r.width == args.width,
            r.height == args.height,
            r.duration == args.duration,
            r.text == args.text,
            r.max_clip_duration == args.max_clip_duration,
            r.seed == args.seed,
            r.orientation == args.orientation,
            r.tags == args.tags,
            r.people == args.people,
            r.with_images == args.with_images,
            r.crop == args.crop,
            r.api_url@ == cli_over_config(args.api_url, config.api_url),
            r.content_url@ == cli_over_config(args.content_url, config.content_url),
            r.gpu == (args.gpu || config.gpu),
            r.codec == args.codec,
            r.quality == args.quality,
            r.effort == args.effort,
            r.song == args.song,
            r.easing == args.easing,
    {
        let api_url = match args.api_url {
            Some(u) => u,
            None => config.api_url,
        };
        let content_url = match args.content_url {
            Some(u) => u,
            None => config.content_url,
        };
        RunParams {
            clip_count: args.clip_count,
            output: args.output,
            width: args.width,
            height: args.height,
            duration: args.duration,
            text: args.text,
            max_clip_duration: args.max_clip_duration,
            seed: args.seed,
            orientation: args.orientation,
            tags: args.tags,
            people: args.people,
            with_images: args.with_images,
            crop: args.crop,
            api_url,
            content_url,
            gpu: args.gpu || config.gpu,
            codec: args.codec,
            quality: args.quality,
            effort: args.effort,
            song: args.song,
            easing: args.easing,
        }
    }
}

/// The logging level of a command-line run: the command line's, else the configured one.
pub fn log_level(args_log: Option<LogLevel>, config: &Config) -> (r: Option<LogLevel>)
    ensures
        r == match args_log {
            Some(l) => Some(l),
            None => config.log,
        },
{
    match args_log {
        Some(l) => Some(l),
        None => config.log,
    }
}

/// Splits a comma-separated list: each item trimmed of white space, empty items left out.
pub fn parse_comma_list(input: &str) -> (r: Vec<String>)
    ensures
        views(r@) == nonempty_trimmed(split_on(input@, ',')),
{
    let v = chars_of(input);
    trimmed_pieces(&v, ',')
}

/// Every item of a comma-separated list is non-empty, holds no comma, and
/// neither starts nor ends with white space.
pub proof fn law_comma_list_items(input: Seq<char>)
    ensures
        forall|i: int|
            0 <= i < nonempty_trimmed(split_on(input, ',')).len() ==> {
                let item = #[trigger] nonempty_trimmed(split_on(input, ','))[i];
                &&& item.len() > 0
                &&& !item.contains(',')
                &&& !is_white_space(item[0])
                &&& !is_white_space(item.last())
            },
{
    let parts = split_on(input, ',');
    lemma_nonempty_trimmed_members(parts);
    lemma_split_pieces(input, ',');
    assert forall|i: int| 0 <= i < nonempty_trimmed(parts).len() implies {
        let item = #[trigger] nonempty_trimmed(parts)[i];
        &&& item.len() > 0
        &&& !item.contains(',')
        &&& !is_white_space(item[0])
        &&& !is_white_space(item.last())
    } by {
        let item = nonempty_trimmed(parts)[i];
        let j = choose|j: int| 0 <= j < parts.len() && item == trim(parts[j]);
        lemma_trim_shape(parts[j]);
        let (a, b) = choose|a: int, b: int|
            0 <= a <= b <= parts[j].len() && trim(parts[j]) == parts[j].subrange(a, b);
        if item.contains(',') {
            let m = choose|m: int| 0 <= m < item.len() && item[m] == ',';
            assert(parts[j][a + m] == ',');
        }
    }
}

/// The answers given to the interactive prompts, as typed or chosen.
pub struct PromptAnswers {
    pub tags: String,
    pub people: String,
    pub clip_count: usize,
    pub duration: String,
    pub orientation: Orientation,
    pub codec: Codec,
    pub quality: Quality,
    pub effort: Effort,
    pub with_images: bool,
    pub song: String,
    pub crop: String,
    pub easing: ScrollEasing,
    pub output: String,
}

/// `None` for an empty answer, else the answer.
pub open spec fn optional_answer(s: String) -> Option<Seq<char>> {
    if s@.len() == 0 {
        None
    } else {
        Some(s@)
    }
}

pub open spec fn string_option_view(o: Option<String>) -> Option<Seq<char>> {
    match o {
        Some(s) => Some(s@),
        None => None,
    }
}

impl PromptAnswers {
    /// The duration answer reads as a duration, and the crop answer is empty
    /// or reads as an aspect ratio (the prompts accept nothing else).
    pub open spec fn valid(&self) -> bool {
        &&& duration_outcome(self.duration@) is Seconds
        &&& self.crop@.len() > 0 ==> aspect_ratio_outcome(self.crop@) is Ok
    }
}

fn optional(s: String) -> (r: Option<String>)
    ensures
        string_option_view(r) == optional_answer(s),
{
    if s.as_str().is_empty() {
        None
    } else {
        Some(s)
    }
}

impl RunParams {
    /// The parameters of an interactive run: the answers, the built-in
    /// defaults for what is not asked (a 1920x1080 viewport, clips of at
    /// most 30 seconds, no text, a random seed), and the configured URLs and GPU.
    pub fn from_prompt(answers: PromptAnswers, config: Config) -> (r: Self)
        requires
            answers.valid(),
        ensures
            views(r.tags@) == nonempty_trimmed(split_on(answers.tags@, ',')),
            views(r.people@) == nonempty_trimmed(split_on(answers.people@, ',')),
            r.clip_count == answers.clip_count,
            duration_outcome(answers.duration@) == DurationOutcome::Seconds(r.duration as nat),
            r.orientation == answers.orientation,
            r.codec == answers.codec,
            r.quality == answers.quality,
            r.effort == answers.effort,
            r.with_images == answers.with_images,
            string_option_view(r.song) == optional_answer(answers.song),
            answers.crop@.len() == 0 ==> r.crop is None,
            answers.crop@.len() > 0 ==> (r.crop matches Some(c) && aspect_ratio_outcome(answers.crop@)
                == Ok::<(nat, nat), Seq<char>>((c.w as nat, c.h as nat))),
            r.easing == answers.easing,
            string_option_view(r.output) == optional_answer(answers.output),
            r.width == 1920,
            r.height == 1080,
            r.text is None,
            r.max_clip_duration == 30,
            r.seed is None,
            r.api_url == config.api_url,
            r.content_url == config.content_url,
            r.gpu == config.gpu,
    {
        proof {
            crate::duration::lemma_duration_bound(answers.duration@);
            crate::types::lemma_aspect_ratio_bound(answers.crop@);
        }
        let tags = parse_comma_list(answers.tags.as_str());
        let people = parse_comma_list(answers.people.as_str());
        let duration = match parse_duration(answers.duration.as_str()) {
            Ok(d) => d,
            Err(_) => 0,
        };
        let crop = if answers.crop.as_str().is_empty() {
            None
        } else {
            match AspectRatio::parse(answers.crop.as_str()) {
                Ok(c) => Some(c),
                Err(_) => None,
            }
        };
        RunParams {
            clip_count: answers.clip_count,
            output: optional(answers.output),
            width: 1920,
            height: 1080,
            duration,
            text: None,
            max_clip_duration: 30,
            seed: None,
            orientation: answers.orientation,
            tags,
            people,
            with_images: answers.with_images,
            crop,
            api_url: config.api_url,
            content_url: config.content_url,
            gpu: config.gpu,
            codec: answers.codec,
            quality: answers.quality,
            effort: answers.effort,
            song: optional(answers.song),
            easing: answers.easing,
        }
    }
}

} // verus!
