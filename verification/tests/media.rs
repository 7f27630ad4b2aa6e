use scrolling_compilation_maker::clips::{plan_clips, sort_by_popularity};
use scrolling_compilation_maker::download::{clip_file_name, trim_title};
use scrolling_compilation_maker::types::{
    extension_for_mime, FileType, Orientation, Person, VideoFile,
};

fn video(id: u128, popularity: u32, width: i32, height: i32, mime: &str) -> VideoFile {
    VideoFile {
        id,
        title: format!("clip {id}"),
        file_type: FileType::Video,
        width: Some(width),
        height: Some(height),
        duration: Some(10_000),
        mime_type: mime.to_string(),
        people: vec![Person { name: "Ann".to_string(), person_type: "performer".to_string() }],
        popularity,
        tags: vec!["beach".to_string()],
    }
}

#[test]
fn mime_extensions() {
    assert_eq!(extension_for_mime("video/mp4"), ".mp4");
    assert_eq!(extension_for_mime("video/quicktime"), ".mp4");
    assert_eq!(extension_for_mime("application/octet-stream"), ".mp4");
    assert_eq!(extension_for_mime("video/webm"), ".webm");
    assert_eq!(extension_for_mime("image/jpeg"), ".jpeg");
    assert_eq!(extension_for_mime("image/png"), ".png");
    assert_eq!(extension_for_mime("image/gif"), ".gif");
    assert_eq!(extension_for_mime("image/webp"), ".webp");
    assert_eq!(extension_for_mime("image/avif"), ".avif");
    assert_eq!(extension_for_mime("text/plain"), ".mp4");
}

#[test]
fn orientation_api_params() {
    assert_eq!(Orientation::Any.as_api_param(), None);
    assert_eq!(Orientation::Portrait.as_api_param(), Some("Portrait"));
    assert_eq!(Orientation::Landscape.as_api_param(), Some("Landscape"));
    assert_eq!(Orientation::Square.as_api_param(), Some("Square"));
}

#[test]
fn content_url_uses_uuid_text() {
    let v = video(0x0123456789abcdef0123456789abcdef, 0, 1080, 1920, "video/webm");
    assert_eq!(
        v.content_url("https://cdn"),
        "https://cdn/0/01234567-89ab-cdef-0123-456789abcdef.webm"
    );
    let w = video(0xfedcba98765432100000000000000001, 0, 1080, 1920, "image/png");
    assert_eq!(
        w.content_url("https://c"),
        "https://c/f/fedcba98-7654-3210-0000-000000000001.png"
    );
}

#[test]
fn is_image_only_for_images() {
    let mut v = video(1, 0, 1, 1, "image/png");
    assert!(!v.is_image());
    v.file_type = FileType::Image;
    assert!(v.is_image());
}

#[test]
fn clips_are_scaled_and_sorted_by_popularity() {
    let videos = vec![
        video(1, 5, 1080, 1920, "video/mp4"),
        video(2, 1, 1920, 1080, "video/mp4"),
        video(3, 5, 1080, 1080, "video/mp4"),
        video(4, 0, 1080, 1920, "video/mp4"),
    ];
    let clips = plan_clips(&videos, "https://cdn", 1080, Some(608));
    let paths: Vec<&str> = clips.iter().map(|c| c.path.as_str()).collect();
    assert_eq!(
        paths,
        vec![
            "https://cdn/0/00000000-0000-0000-0000-000000000004.mp4",
            "https://cdn/0/00000000-0000-0000-0000-000000000002.mp4",
            "https://cdn/0/00000000-0000-0000-0000-000000000001.mp4",
            "https://cdn/0/00000000-0000-0000-0000-000000000003.mp4",
        ]
    );
    // 1080 * 1080 / 1920 = 607.5 -> 607 -> 608
    assert_eq!(clips[0].scaled_width, 608);
    assert_eq!(clips[0].output_width, 608);
    // 1080 * 1920 / 1080 = 1920, cropped to 608
    assert_eq!(clips[1].scaled_width, 1920);
    assert_eq!(clips[1].output_width, 608);
    assert_eq!(clips[3].scaled_width, 1080);
    assert_eq!(clips[3].output_width, 608);
    assert_eq!(clips[0].performers, vec!["Ann".to_string()]);
    assert_eq!(clips[0].tags, vec!["beach".to_string()]);
    assert!(!clips[0].is_image);
}

#[test]
fn sort_is_stable() {
    let videos = vec![
        video(1, 2, 1, 1, "video/mp4"),
        video(2, 1, 1, 1, "video/mp4"),
        video(3, 2, 1, 1, "video/mp4"),
        video(4, 1, 1, 1, "video/mp4"),
        video(5, 0, 1, 1, "video/mp4"),
    ];
    let sorted = sort_by_popularity(videos);
    let ids: Vec<u128> = sorted.iter().map(|v| v.id).collect();
    assert_eq!(ids, vec![5, 2, 4, 1, 3]);
}

#[test]
fn titles_fit_one_line() {
    assert_eq!(trim_title("Line1\nLine2\tEnd"), "Line1 Line2 End");
    let long = "a".repeat(70);
    assert_eq!(trim_title(&long), "a".repeat(60));
    assert_eq!(trim_title("ééé"), "ééé");
}

#[test]
fn clip_file_names() {
    assert_eq!(clip_file_name(7, "video/webm"), "clip_007.webm");
    assert_eq!(clip_file_name(42, "video/mp4"), "clip_042.mp4");
    assert_eq!(clip_file_name(1234, "image/png"), "clip_1234.png");
}

#[test]
fn clip_file_names_sort_in_order() {
    let mut names: Vec<String> =
        (0..120).rev().map(|i| clip_file_name(i, if i % 2 == 0 { "video/webm" } else { "video/mp4" })).collect();
    names.sort();
    let expected: Vec<String> =
        (0..120).map(|i| clip_file_name(i, if i % 2 == 0 { "video/webm" } else { "video/mp4" })).collect();
    assert_eq!(names, expected);
}
