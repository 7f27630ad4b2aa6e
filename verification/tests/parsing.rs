use scrolling_compilation_maker::duration::parse_duration;
use scrolling_compilation_maker::run_params::parse_comma_list;
use scrolling_compilation_maker::types::AspectRatio;

#[test]
fn duration_plain_number_is_seconds() {
    assert_eq!(parse_duration("90"), Ok(90));
    assert_eq!(parse_duration("0"), Ok(0));
    assert_eq!(parse_duration("+5"), Ok(5));
}

#[test]
fn duration_with_units() {
    assert_eq!(parse_duration("30s"), Ok(30));
    assert_eq!(parse_duration("1m"), Ok(60));
    assert_eq!(parse_duration("1m30s"), Ok(90));
    assert_eq!(parse_duration("2h"), Ok(7200));
    assert_eq!(parse_duration("1h1m1s"), Ok(3661));
    assert_eq!(parse_duration("1m1m"), Ok(120));
}

#[test]
fn duration_ignores_surrounding_white_space() {
    assert_eq!(parse_duration("  45s \n"), Ok(45));
    assert_eq!(parse_duration("\t12 "), Ok(12));
}

#[test]
fn duration_unknown_unit() {
    assert_eq!(
        parse_duration("5x"),
        Err("unknown duration unit 'x', expected h/m/s".to_string())
    );
}

#[test]
fn duration_trailing_number() {
    assert_eq!(
        parse_duration("1m30"),
        Err("trailing number '30' without unit, use e.g. '30s'".to_string())
    );
}

#[test]
fn duration_unit_without_number() {
    assert_eq!(
        parse_duration("m"),
        Err("cannot parse integer from empty string".to_string())
    );
    assert_eq!(
        parse_duration("+5s"),
        Err("cannot parse integer from empty string".to_string())
    );
}

#[test]
fn duration_zero_with_units_is_refused() {
    assert_eq!(parse_duration("0s"), Err("duration must be greater than 0".to_string()));
    assert_eq!(parse_duration(""), Err("duration must be greater than 0".to_string()));
}

#[test]
fn duration_too_long_plain_number() {
    assert_eq!(
        parse_duration("99999999999999999999"),
        Err(
            "trailing number '99999999999999999999' without unit, use e.g. '99999999999999999999s'"
                .to_string()
        )
    );
    assert_eq!(
        parse_duration("99999999999999999999s"),
        Err("number too large to fit in target type".to_string())
    );
}

#[test]
fn aspect_ratio_parses() {
    assert_eq!(AspectRatio::parse("9:16"), Ok(AspectRatio { w: 9, h: 16 }));
    assert_eq!(AspectRatio::parse(" 3 : 4 "), Ok(AspectRatio { w: 3, h: 4 }));
    assert_eq!(AspectRatio::parse("16:9:1").map_err(|e| e), Err("invalid digit found in string".to_string()));
}

#[test]
fn aspect_ratio_errors() {
    assert_eq!(
        AspectRatio::parse("916"),
        Err("expected W:H format, got '916'".to_string())
    );
    assert_eq!(
        AspectRatio::parse("0:16"),
        Err("aspect ratio components must be > 0".to_string())
    );
    assert_eq!(
        AspectRatio::parse("a:16"),
        Err("invalid digit found in string".to_string())
    );
    assert_eq!(
        AspectRatio::parse(":16"),
        Err("cannot parse integer from empty string".to_string())
    );
    assert_eq!(
        AspectRatio::parse("4294967296:1"),
        Err("number too large to fit in target type".to_string())
    );
}

#[test]
fn aspect_ratio_crop_width_rounds_up_to_even() {
    let r = AspectRatio::parse("9:16").unwrap();
    // 1080 * 9 / 16 = 607.5 -> 607 -> 608
    assert_eq!(r.crop_width(1080), 608);
    let r = AspectRatio { w: 3, h: 4 };
    assert_eq!(r.crop_width(1080), 810);
    let r = AspectRatio { w: 1, h: 1 };
    assert_eq!(r.crop_width(7), 8);
}

#[test]
fn comma_list_trims_and_drops_empty_items() {
    assert_eq!(
        parse_comma_list(" beach, sunset ,,  , city "),
        vec!["beach".to_string(), "sunset".to_string(), "city".to_string()]
    );
    assert!(parse_comma_list("").is_empty());
    assert!(parse_comma_list(" , ,").is_empty());
}

#[test]
fn unit_durations_add_when_joined() {
    assert_eq!(parse_duration("30s1m"), parse_duration("1m30s"));
    assert_eq!(parse_duration("30s1m"), Ok(90));
    assert_eq!(parse_duration("1h"), parse_duration("60m"));
    assert_eq!(parse_duration("60m"), parse_duration("3600"));
    assert_eq!(parse_duration("1h30m"), Ok(parse_duration("1h").unwrap() + parse_duration("30m").unwrap()));
}
