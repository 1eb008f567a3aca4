use pdl::temporal::{parse_temporal_unit, validate_format_pattern, TemporalUnit};

#[test]
fn temporal_scalar_functions_validate_pattern_tokens() {
    assert_eq!(validate_format_pattern("%Y-%m-%dT%H:%M:%S%:z"), Ok(()));
    assert_eq!(validate_format_pattern("%G-W%V-%u %j"), Ok(()));
    assert_eq!(validate_format_pattern("%%"), Ok(()));
    assert_eq!(validate_format_pattern("%B"), Err("%B".to_string()));
    assert_eq!(validate_format_pattern("%:m"), Err("%:m".to_string()));
    assert_eq!(validate_format_pattern("trailing %"), Err("%".to_string()));
}

#[test]
fn pattern_errors_report_the_first_bad_token() {
    assert_eq!(validate_format_pattern("%Y %:"), Err("%:".to_string()));
    assert_eq!(validate_format_pattern("%q then %B"), Err("%q".to_string()));
    assert_eq!(validate_format_pattern("no tokens at all"), Ok(()));
    assert_eq!(validate_format_pattern(""), Ok(()));
    assert_eq!(validate_format_pattern("%z%:z"), Ok(()));
}

#[test]
fn temporal_units_parse_by_name() {
    assert_eq!(parse_temporal_unit("day"), Some(TemporalUnit::Day));
    assert_eq!(parse_temporal_unit("week"), Some(TemporalUnit::Week));
    assert_eq!(parse_temporal_unit("month"), Some(TemporalUnit::Month));
    assert_eq!(parse_temporal_unit("year"), Some(TemporalUnit::Year));
    assert_eq!(parse_temporal_unit("Day"), None);
    assert_eq!(parse_temporal_unit("hour"), None);
}

use pdl::temporal::{
    floor_temporal, format_temporal, normalize_date, normalize_datetime, parse_temporal,
    temporal_day, temporal_month, temporal_year, TemporalValue,
};

#[test]
fn temporal_scalar_functions_parse_accepted_forms() {
    assert!(matches!(
        parse_temporal("2024-01-15"),
        Some(TemporalValue::Date(_))
    ));
    for text in [
        "2025-02-17T14:20:59Z",
        "2025-02-17T14:20:59+00:00",
        "2024-01-15T10:22:33-05:00",
        "2024-01-15T10:22:33.123456-05:00",
        " 2024-01-15 ",
    ] {
        assert!(parse_temporal(text).is_some(), "{text} must parse");
    }
    for text in ["", "yesterday", "02/03/2025", "2024-13-01", "2024-01-32"] {
        assert!(parse_temporal(text).is_none(), "{text} must not parse");
    }
}

#[test]
fn temporal_scalar_functions_z_and_utc_offset_agree() {
    let z = parse_temporal("2025-02-17T14:20:59Z").expect("Z form parses");
    let offset = parse_temporal("2025-02-17T14:20:59+00:00").expect("+00:00 form parses");
    assert_eq!(temporal_year(&z), temporal_year(&offset));
    assert_eq!(temporal_month(&z), temporal_month(&offset));
    assert_eq!(temporal_day(&z), temporal_day(&offset));
    assert_eq!(normalize_datetime(&z), normalize_datetime(&offset));
    assert_eq!(
        normalize_datetime(&z).as_deref(),
        Some("2025-02-17T14:20:59Z")
    );
}

#[test]
fn temporal_scalar_functions_floor_preserves_offset() {
    let parsed = parse_temporal("2024-01-15T10:22:33-05:00").expect("offset form parses");
    let floored = floor_temporal(&parsed, TemporalUnit::Month);
    assert_eq!(
        normalize_datetime(&floored).as_deref(),
        Some("2024-01-01T00:00:00-05:00")
    );
    let date = parse_temporal("2024-01-15").expect("date parses");
    assert_eq!(
        normalize_date(&floor_temporal(&date, TemporalUnit::Year)),
        "2024-01-01"
    );
}

#[test]
fn temporal_scalar_functions_floor_week_is_iso_monday() {
    for (input, expected) in [
        ("2025-02-17", "2025-02-17"),
        ("2025-02-23", "2025-02-17"),
        ("2025-01-01", "2024-12-30"),
    ] {
        let parsed = parse_temporal(input).expect("date parses");
        assert_eq!(
            normalize_date(&floor_temporal(&parsed, TemporalUnit::Week)),
            expected,
            "{input}"
        );
    }
    let datetime = parse_temporal("2025-02-23T10:22:33-05:00").expect("datetime parses");
    assert_eq!(
        normalize_datetime(&floor_temporal(&datetime, TemporalUnit::Week)).as_deref(),
        Some("2025-02-17T00:00:00-05:00")
    );
}

#[test]
fn temporal_scalar_functions_format_token_subset() {
    let datetime = parse_temporal("2024-01-15T10:22:33.5-05:00").expect("datetime parses");
    assert_eq!(
        format_temporal(&datetime, "%Y-%m-%d %H:%M:%S %z %:z 100%%").as_deref(),
        Some("2024-01-15 10:22:33 -0500 -05:00 100%")
    );
    let date = parse_temporal("2024-01-15").expect("date parses");
    assert_eq!(format_temporal(&date, "%Y-%m").as_deref(), Some("2024-01"));
    assert_eq!(
        format_temporal(&date, "%H:%M:%S").as_deref(),
        Some("00:00:00")
    );
    assert_eq!(format_temporal(&date, "%z"), None);
    assert_eq!(format_temporal(&date, "%:z"), None);
}

#[test]
fn temporal_scalar_functions_iso_week_tokens() {
    for (input, expected) in [
        ("2027-01-01", "2026-W53-5 001"),
        ("2024-12-30", "2025-W01-1 365"),
        ("2025-02-17", "2025-W08-1 048"),
    ] {
        let parsed = parse_temporal(input).expect("date parses");
        assert_eq!(
            format_temporal(&parsed, "%G-W%V-%u %j").as_deref(),
            Some(expected),
            "{input}"
        );
    }
    let datetime = parse_temporal("2024-12-30T23:59:59-05:00").expect("datetime parses");
    assert_eq!(
        format_temporal(&datetime, "%G-W%V").as_deref(),
        Some("2025-W01")
    );
}

#[test]
fn dates_render_padded_and_datetimes_have_no_date_only_form() {
    let date = parse_temporal("0007-03-04").expect("small year");
    assert_eq!(normalize_date(&date), "0007-03-04");
    assert_eq!(normalize_datetime(&date), None);
    let east = parse_temporal("2024-06-30T23:59:59+05:30").expect("east offset");
    assert_eq!(normalize_date(&east), "2024-06-30");
    assert_eq!(format_temporal(&east, "%z|%:z|%q|trailing %").as_deref(), Some("+0530|+05:30|%q|trailing %"));
    assert_eq!(normalize_date(&floor_temporal(&east, TemporalUnit::Day)), "2024-06-30");
}

#[test]
fn flooring_twice_is_flooring_once() {
    let date = parse_temporal("2025-01-01").expect("date parses");
    for unit in [TemporalUnit::Day, TemporalUnit::Week, TemporalUnit::Month, TemporalUnit::Year] {
        let once = floor_temporal(&date, unit);
        let twice = floor_temporal(&once, unit);
        assert_eq!(normalize_date(&once), normalize_date(&twice));
    }
}

#[test]
fn datetimes_render_offsets_fractions_and_leap_seconds() {
    let east = parse_temporal("2024-06-30T23:59:59.75+05:30").expect("east offset");
    assert_eq!(normalize_datetime(&east).as_deref(), Some("2024-06-30T23:59:59+05:30"));
    let leap = parse_temporal("2016-12-31T23:59:60Z").expect("leap second");
    assert_eq!(normalize_datetime(&leap).as_deref(), Some("2016-12-31T23:59:60Z"));
    let small = parse_temporal("0042-01-02T03:04:05-00:01").expect("small year");
    assert_eq!(normalize_datetime(&small).as_deref(), Some("0042-01-02T03:04:05-00:01"));
}
