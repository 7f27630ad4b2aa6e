use scrolling_compilation_maker::naming::{
    format_id, generate_output_name, output_name_with_id, slugify, IdFormat, WordLists,
};

fn strings(v: &[&str]) -> Vec<String> {
    v.iter().map(|s| s.to_string()).collect()
}

#[test]
fn slugify_lowercases_and_joins_words() {
    assert_eq!(slugify("Hello World"), "hello-world");
    assert_eq!(slugify("  Foo__Bar!! "), "foo-bar");
    assert_eq!(slugify("ÉTÉ 2024"), "été-2024");
}

#[test]
fn slugify_of_only_punctuation_is_empty() {
    assert_eq!(slugify("---"), "");
    assert_eq!(slugify(""), "");
}

#[test]
fn slug_has_no_double_or_edge_dashes() {
    let s = slugify("--a  --  b--");
    assert_eq!(s, "a-b");
    assert!(!s.starts_with('-') && !s.ends_with('-') && !s.contains("--"));
}

#[test]
fn long_and_short_ids() {
    assert_eq!(format_id(IdFormat::Long, "happy", "brave", "tiger"), "happy-brave-tiger");
    assert_eq!(format_id(IdFormat::Short, "happy", "brave", "tiger"), "habrti");
}

#[test]
fn short_id_takes_two_bytes() {
    // 'é' takes two bytes in UTF-8, so it is the whole two-byte prefix.
    assert_eq!(format_id(IdFormat::Short, "été", "ab", "cd"), "éabcd");
}

#[test]
fn output_name_with_filters() {
    let tags = strings(&["Beach Day"]);
    let people = strings(&["Jane Doe"]);
    assert_eq!(
        output_name_with_id(&tags, &people, "abcdef"),
        "jane-doe-beach-day-abcdef.mp4"
    );
}

#[test]
fn output_name_without_filters() {
    assert_eq!(output_name_with_id(&[], &[], "x-y-z"), "x-y-z.mp4");
}

#[test]
fn output_name_people_before_tags() {
    let tags = strings(&["T1", "T2"]);
    let people = strings(&["P"]);
    assert_eq!(output_name_with_id(&tags, &people, "id"), "p-t1-t2-id.mp4");
}

#[test]
fn generated_name_from_single_words() {
    let words = WordLists { adjectives: strings(&["happy"]), nouns: strings(&["tiger"]) };
    assert_eq!(generate_output_name(&[], &[], &words), "happy-happy-tiger.mp4");
    let people = strings(&["Ann"]);
    assert_eq!(generate_output_name(&[], &people, &words), "ann-hahati.mp4");
}

#[test]
fn generated_name_uses_listed_words() {
    let words = WordLists {
        adjectives: strings(&["red", "blue"]),
        nouns: strings(&["fox", "owl"]),
    };
    for _ in 0..20 {
        let name = generate_output_name(&[], &[], &words);
        assert!(name.ends_with(".mp4"));
        let stem = name.trim_end_matches(".mp4");
        let parts: Vec<&str> = stem.split('-').collect();
        assert_eq!(parts.len(), 3);
        assert!(["red", "blue"].contains(&parts[0]));
        assert!(["red", "blue"].contains(&parts[1]));
        assert!(["fox", "owl"].contains(&parts[2]));
    }
}

#[test]
fn word_lists_from_text() {
    let words = WordLists::from_text("happy\n  brave \n\nsilly\r\n", "tiger\n");
    assert_eq!(words.adjectives, strings(&["happy", "brave", "silly"]));
    assert_eq!(words.nouns, strings(&["tiger"]));
}

#[test]
fn long_names_accept_one_letter_words() {
    let words = WordLists { adjectives: strings(&["a"]), nouns: strings(&["x"]) };
    assert_eq!(generate_output_name(&[], &[], &words), "a-a-x.mp4");
}

#[test]
fn slugify_is_idempotent_on_ascii() {
    for s in ["Hello, World!", "--a--b--", "Jane Doe", "already-a-slug", ""] {
        let once = slugify(s);
        assert_eq!(slugify(&once), once);
    }
}
