use scrolling_compilation_maker::config::{
    default_api_url, default_content_url, progress_hidden, Config, LogLevel,
};
use scrolling_compilation_maker::encoding::{Codec, Effort, Quality};
use scrolling_compilation_maker::ffmpeg::Text;
use scrolling_compilation_maker::run_params::{log_level, Args, PromptAnswers, RunParams};
use scrolling_compilation_maker::types::{AspectRatio, Orientation, ScrollEasing};

fn args() -> Args {
    Args {
        clip_count: 20,
        output: None,
        width: 1920,
        height: 1080,
        duration: 60,
        text: Some(Text::Tags),
        max_clip_duration: 30,
        seed: Some(7),
        orientation: Orientation::Portrait,
        tags: vec!["beach".to_string()],
        people: vec![],
        with_images: false,
        crop: Some(AspectRatio { w: 9, h: 16 }),
        api_url: None,
        content_url: None,
        download_concurrency: 4,
        codec: Codec::X264,
        quality: Quality::Medium,
        effort: Effort::Medium,
        gpu: false,
        song: None,
        easing: ScrollEasing::Linear,
        log: None,
    }
}

fn config() -> Config {
    Config {
        api_url: "https://api.example".to_string(),
        content_url: "https://cdn.example".to_string(),
        gpu: true,
        log: Some(LogLevel::Info),
    }
}

#[test]
fn defaults() {
    assert_eq!(default_api_url(), "https://alexandria.soundchaser128.com");
    assert_eq!(default_content_url(), "https://content.r2.soundchaser128.com");
    let c = Config::default();
    assert_eq!(c.api_url, "https://alexandria.soundchaser128.com");
    assert_eq!(c.content_url, "https://content.r2.soundchaser128.com");
    assert!(!c.gpu);
    assert_eq!(c.log, None);
}

#[test]
fn progress_hidden_when_logging() {
    assert!(progress_hidden(&Some(LogLevel::Debug)));
    assert!(!progress_hidden(&None));
}

#[test]
fn config_fills_what_the_command_line_leaves_out() {
    let p = RunParams::from_cli(args(), config());
    assert_eq!(p.api_url, "https://api.example");
    assert_eq!(p.content_url, "https://cdn.example");
    assert!(p.gpu);
    assert_eq!(p.clip_count, 20);
    assert_eq!(p.duration, 60);
    assert_eq!(p.tags, vec!["beach".to_string()]);
    assert_eq!(p.crop, Some(AspectRatio { w: 9, h: 16 }));
    assert_eq!(p.seed, Some(7));
}

#[test]
fn command_line_wins_over_config() {
    let mut a = args();
    a.api_url = Some("https://cli.example".to_string());
    a.content_url = Some("https://cli-cdn.example".to_string());
    let p = RunParams::from_cli(a, config());
    assert_eq!(p.api_url, "https://cli.example");
    assert_eq!(p.content_url, "https://cli-cdn.example");
}

#[test]
fn built_in_defaults_without_config_file() {
    let p = RunParams::from_cli(args(), Config::default());
    assert_eq!(p.api_url, "https://alexandria.soundchaser128.com");
    assert!(!p.gpu);
    let mut a = args();
    a.gpu = true;
    assert!(RunParams::from_cli(a, Config::default()).gpu);
}

#[test]
fn log_level_precedence() {
    assert_eq!(log_level(Some(LogLevel::Trace), &config()), Some(LogLevel::Trace));
    assert_eq!(log_level(None, &config()), Some(LogLevel::Info));
    assert_eq!(log_level(None, &Config::default()), None);
}

fn answers() -> PromptAnswers {
    PromptAnswers {
        tags: "beach, sunset".to_string(),
        people: "".to_string(),
        clip_count: 12,
        duration: "1m30s".to_string(),
        orientation: Orientation::Landscape,
        codec: Codec::Hevc,
        quality: Quality::High,
        effort: Effort::Low,
        with_images: true,
        song: "".to_string(),
        crop: "9:16".to_string(),
        easing: ScrollEasing::Ease,
        output: "out.mp4".to_string(),
    }
}

#[test]
fn interactive_answers_become_parameters() {
    let p = RunParams::from_prompt(answers(), config());
    assert_eq!(p.tags, vec!["beach".to_string(), "sunset".to_string()]);
    assert!(p.people.is_empty());
    assert_eq!(p.clip_count, 12);
    assert_eq!(p.duration, 90);
    assert_eq!(p.orientation, Orientation::Landscape);
    assert_eq!(p.crop, Some(AspectRatio { w: 9, h: 16 }));
    assert_eq!(p.song, None);
    assert_eq!(p.output, Some("out.mp4".to_string()));
    assert_eq!(p.width, 1920);
    assert_eq!(p.height, 1080);
    assert_eq!(p.max_clip_duration, 30);
    assert_eq!(p.seed, None);
    assert_eq!(p.text, None);
    assert_eq!(p.api_url, "https://api.example");
    assert!(p.gpu);
    assert_eq!(p.easing, ScrollEasing::Ease);
}

#[test]
fn interactive_empty_answers_are_none() {
    let mut a = answers();
    a.crop = String::new();
    a.output = String::new();
    a.song = "https://song".to_string();
    let p = RunParams::from_prompt(a, Config::default());
    assert_eq!(p.crop, None);
    assert_eq!(p.output, None);
    assert_eq!(p.song, Some("https://song".to_string()));
}

#[test]
fn enum_labels() {
    assert_eq!(Orientation::Portrait.label(), "Portrait");
    assert_eq!(ScrollEasing::Ease.label(), "Ease (smoothstep)");
}
