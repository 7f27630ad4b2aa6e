use scrolling_compilation_maker::progress::{advance_progress, progress_from_line, ProgressEvent};
use scrolling_compilation_maker::source::{file_query_pairs, next_page, FetchVideosParams, MediaCollector};
use scrolling_compilation_maker::types::{FileType, Orientation, VideoFile};

fn item(id: u128, duration: Option<u64>, popularity: u32) -> VideoFile {
    VideoFile {
        id,
        title: String::new(),
        file_type: FileType::Video,
        width: Some(1080),
        height: Some(1920),
        duration,
        mime_type: "video/mp4".to_string(),
        people: vec![],
        popularity,
        tags: vec![],
    }
}

fn pairs(v: &[(&str, &str)]) -> Vec<(String, String)> {
    v.iter().map(|(a, b)| (a.to_string(), b.to_string())).collect()
}

#[test]
fn query_of_a_page() {
    let tags = vec!["a".to_string()];
    let people = vec!["p".to_string()];
    let params = FetchVideosParams {
        max_clip_duration: 30,
        desired_count: 5,
        seed: "0.5",
        orientation: Orientation::Portrait,
        tags: &tags,
        people: &people,
        with_images: true,
    };
    assert_eq!(
        file_query_pairs(&params, 3, true),
        pairs(&[
            ("sort", "random"),
            ("fileType", "video"),
            ("size", "50"),
            ("page", "3"),
            ("seed", "0.5"),
            ("withTags", "true"),
            ("fileType", "image"),
            ("orientation", "Portrait"),
            ("person", "p"),
            ("tag", "a"),
        ])
    );
}

#[test]
fn query_without_filters() {
    let params = FetchVideosParams {
        max_clip_duration: 30,
        desired_count: 5,
        seed: "1",
        orientation: Orientation::Any,
        tags: &[],
        people: &[],
        with_images: false,
    };
    assert_eq!(
        file_query_pairs(&params, 0, false),
        pairs(&[("sort", "random"), ("fileType", "video"), ("size", "50"), ("page", "0"), ("seed", "1")])
    );
}

#[test]
fn qualifying_files() {
    let c = MediaCollector::new(2, 30);
    assert_eq!(c.limit_millis, 30_000);
    assert!(c.qualifies(&item(1, Some(30_000), 0)));
    assert!(!c.qualifies(&item(2, Some(30_001), 0)));
    assert!(!c.qualifies(&item(3, None, 0)));
    let mut no_width = item(4, Some(1), 0);
    no_width.width = None;
    assert!(!c.qualifies(&no_width));
}

#[test]
fn collection_stops_at_the_desired_count() {
    let mut c = MediaCollector::new(2, 30);
    assert!(!c.offer(item(1, Some(1), 3), true));
    assert!(c.offer(item(2, Some(1), 1), true));
    let media = c.finish().unwrap();
    assert_eq!(media.len(), 2);
}

#[test]
fn collection_of_zero_stops_after_one() {
    let mut c = MediaCollector::new(0, 30);
    assert!(c.offer(item(1, Some(1), 3), true));
}

#[test]
fn selection_keeps_the_first_qualifying_reachable_files() {
    let mut c = MediaCollector::new(2, 30);
    assert!(!c.offer(item(1, Some(1), 0), false));
    assert!(!c.offer(item(2, Some(31_000), 0), true));
    assert!(!c.offer(item(3, Some(1), 0), true));
    assert!(!c.offer(item(4, None, 0), true));
    assert!(c.offer(item(5, Some(2), 0), true));
    let ids: Vec<u128> = c.finish().unwrap().iter().map(|v| v.id).collect();
    assert_eq!(ids, vec![3, 5]);
}

#[test]
fn unreachable_files_are_skipped() {
    let mut c = MediaCollector::new(1, 30);
    assert!(!c.offer(item(1, Some(1), 0), false));
    assert_eq!(c.media.len(), 0);
    assert!(c.offer(item(2, Some(1), 0), true));
    assert_eq!(c.media[0].id, 2);
}

#[test]
fn nothing_found_is_an_error() {
    let c = MediaCollector::new(2, 30);
    assert_eq!(c.finish().map(|v| v.len()), Err("No suitable videos found".to_string()));
    let c = MediaCollector::new(2, 30);
    assert_eq!(c.finish_sorted().map(|v| v.len()), Err("No suitable videos found".to_string()));
}

#[test]
fn partial_collection_sorted_by_popularity() {
    let mut c = MediaCollector::new(5, 30);
    c.offer(item(1, Some(1), 3), true);
    c.offer(item(2, Some(1), 1), true);
    c.offer(item(3, Some(1), 3), true);
    let ids: Vec<u128> = c.finish_sorted().unwrap().iter().map(|v| v.id).collect();
    assert_eq!(ids, vec![2, 1, 3]);
}

#[test]
fn paging() {
    assert_eq!(next_page(0, 3), Some(1));
    assert_eq!(next_page(1, 3), Some(2));
    assert_eq!(next_page(2, 3), None);
    assert_eq!(next_page(0, 0), None);
    assert_eq!(next_page(0, 1), None);
}

#[test]
fn progress_lines() {
    assert_eq!(
        progress_from_line(0, "out_time_us=1500000"),
        Ok(ProgressEvent::Advanced { position: 1500, delta: 1500 })
    );
    assert_eq!(
        progress_from_line(1000, "out_time_us=2500999"),
        Ok(ProgressEvent::Advanced { position: 2500, delta: 1500 })
    );
    assert_eq!(progress_from_line(2000, "out_time_us=1500000"), Ok(ProgressEvent::WentBack { position: 1500 }));
    assert_eq!(progress_from_line(0, "frame=10"), Ok(ProgressEvent::NoTime));
    assert_eq!(progress_from_line(0, "out_time_us=N/A"), Ok(ProgressEvent::NoTime));
}

#[test]
fn progress_line_with_other_digits() {
    // `\d` matches Unicode digits, which do not read as a number.
    assert_eq!(
        progress_from_line(0, "out_time_us=\u{0661}\u{0662}"),
        Err("invalid digit found in string".to_string())
    );
}

#[test]
fn progress_advance() {
    assert_eq!(advance_progress(1000, "2500000"), Ok((2500, 1500)));
    assert_eq!(advance_progress(0, "x"), Err("invalid digit found in string".to_string()));
}
