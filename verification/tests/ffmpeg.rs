use scrolling_compilation_maker::encoding::{Codec, Effort, EncodingArgs, GpuBackend, Quality};
use scrolling_compilation_maker::ffmpeg::{
    build_filter_graph, escape_drawtext, ffmpeg_command_args, scroll_offset, Text,
};
use scrolling_compilation_maker::types::ClipInfo;

fn clip(path: &str, scaled: u32, output: u32, performers: &[&str], tags: &[&str], image: bool) -> ClipInfo {
    ClipInfo {
        path: path.to_string(),
        scaled_width: scaled,
        output_width: output,
        performers: performers.iter().map(|s| s.to_string()).collect(),
        tags: tags.iter().map(|s| s.to_string()).collect(),
        popularity: 0,
        is_image: image,
    }
}

fn two_clips() -> Vec<ClipInfo> {
    vec![
        clip("a.mp4", 608, 608, &["Ann", "Bo"], &["x"], false),
        clip("b.png", 1440, 608, &[], &["t:1"], true),
    ]
}

#[test]
fn escape_drawtext_special_characters() {
    assert_eq!(escape_drawtext("a:b"), "a\\:b");
    assert_eq!(escape_drawtext("a\\b"), "a\\\\\\\\b");
    assert_eq!(escape_drawtext("it's"), "it'\\\\\\''s");
    assert_eq!(escape_drawtext("plain text"), "plain text");
}

#[test]
fn escape_drawtext_matches_sequential_replaces() {
    let s = "a\\b:c'd";
    let expected = s
        .replace('\\', "\\\\\\\\")
        .replace(':', "\\:")
        .replace('\'', "'\\\\\\''");
    assert_eq!(escape_drawtext(s), expected);
}

#[test]
fn filter_graph_with_tags() {
    let g = build_filter_graph(&two_clips(), 1920, 1080, "2.50", 100, Some(Text::Tags));
    let expected = "[0:v]fps=30,scale=608:1080,setpts=PTS-STARTPTS,drawtext=text='x':fontsize=24:fontcolor=white:borderw=2:bordercolor=black:x=(w-text_w)/2:y=h-text_h-20[v0];\n\
[1:v]fps=30,scale=1440:1080,setpts=PTS-STARTPTS,crop=608:1080:(iw-608)/2:0,drawtext=text='t\\:1':fontsize=24:fontcolor=white:borderw=2:bordercolor=black:x=(w-text_w)/2:y=h-text_h-20[v1];\n\
[v0][v1]hstack=inputs=2[canvas];\n\
[canvas]crop=1920:1080:'min(t*2.50,100)':0[out]";
    assert_eq!(g, expected);
}

#[test]
fn filter_graph_with_performers_and_without_text() {
    let g = build_filter_graph(&two_clips(), 1000, 720, "1.00", 216, Some(Text::Performers));
    assert!(g.starts_with("[0:v]fps=30,scale=608:720,setpts=PTS-STARTPTS,drawtext=text='Ann, Bo':"));
    let g = build_filter_graph(&two_clips(), 1000, 720, "1.00", 216, None);
    assert_eq!(
        g,
        "[0:v]fps=30,scale=608:720,setpts=PTS-STARTPTS[v0];\n\
[1:v]fps=30,scale=1440:720,setpts=PTS-STARTPTS,crop=608:720:(iw-608)/2:0[v1];\n\
[v0][v1]hstack=inputs=2[canvas];\n\
[canvas]crop=1000:720:'min(t*1.00,216)':0[out]"
    );
}

#[test]
fn canvas_must_be_wider_than_viewport() {
    assert_eq!(
        scroll_offset(&two_clips(), 1920),
        Err("Total canvas width (1216) must be greater than viewport width (1920). Add more clips or use a narrower viewport.".to_string())
    );
    assert_eq!(
        scroll_offset(&two_clips(), 1216),
        Err("Total canvas width (1216) must be greater than viewport width (1216). Add more clips or use a narrower viewport.".to_string())
    );
    assert_eq!(scroll_offset(&two_clips(), 1000), Ok(216));
}

#[test]
fn ffmpeg_arguments_with_audio() {
    let enc = EncodingArgs::new(&Codec::X264, &Quality::Medium, &Effort::Medium, false, GpuBackend::Nvenc);
    let args = ffmpeg_command_args(&two_clips(), "GRAPH", Some("song.m4a"), 60, &enc, "out.mp4");
    let expected: Vec<String> = [
        "-stream_loop", "-1", "-i", "a.mp4", "-loop", "1", "-i", "b.png", "-i", "song.m4a",
        "-filter_complex", "GRAPH", "-map", "[out]", "-map", "2:a", "-c:a", "aac", "-shortest",
        "-t", "60", "-c:v", "libx264", "-preset", "medium", "-crf", "23", "-y", "-progress", "-",
        "-nostats", "out.mp4",
    ]
    .iter()
    .map(|s| s.to_string())
    .collect();
    assert_eq!(args, expected);
}

#[test]
fn ffmpeg_arguments_without_audio() {
    let enc = EncodingArgs::new(&Codec::Hevc, &Quality::High, &Effort::Low, true, GpuBackend::Nvenc);
    let mut clips = two_clips();
    clips.truncate(1);
    let args = ffmpeg_command_args(&clips, "G", None, 5, &enc, "o.mp4");
    let expected: Vec<String> = [
        "-stream_loop", "-1", "-i", "a.mp4", "-filter_complex", "G", "-map", "[out]", "-an", "-t",
        "5", "-c:v", "hevc_nvenc", "-preset", "p1", "-rc", "vbr", "-cq", "22", "-y", "-progress",
        "-", "-nostats", "o.mp4",
    ]
    .iter()
    .map(|s| s.to_string())
    .collect();
    assert_eq!(args, expected);
}
