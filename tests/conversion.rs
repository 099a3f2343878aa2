use epochfmt::classify::Unit;
use epochfmt::{get_dt, parse_ticks, render_at_offset, rewrite, Opt};
use regex::Regex;

fn utc() -> Opt {
    Opt {
        format: None,
        local: false,
        stringify: false,
    }
}

#[test]
fn get_dt_should_stringify_replacements_if_asked_to() {
    let opt = Opt {
        format: None,
        local: false,
        stringify: true,
    };

    let result = get_dt(1574736728, 10, '1', &opt);
    assert_eq!(result, Some("\"2019-11-26T02:52:08Z\"".to_string()));
}

#[test]
fn get_dt_should_handle_various_scenarios() {
    let opt = utc();
    let tests: Vec<(&str, Option<String>)> = vec![
        ("11111111", None),
        ("999999999", Some("2001-09-09T01:46:39Z".to_string())),
        ("4999999999", Some("2128-06-11T08:53:19Z".to_string())),
        ("5000000000", None),
        ("999999999999", Some("2001-09-09T01:46:39.000000999Z".to_string())),
        ("4999999999999", Some("2128-06-11T08:53:19.000000999Z".to_string())),
        ("5000000000000", None),
        ("999999999999999", Some("2001-09-09T01:46:39.000999999Z".to_string())),
        ("4999999999999999", Some("2128-06-11T08:53:19.000999999Z".to_string())),
        ("5000000000000000", None),
        ("11111111111111111", None),
    ];

    for (input, expected) in tests {
        let ticks = input.to_string().parse::<i64>().unwrap();
        let length = input.len();
        let first_char = input.chars().nth(0).unwrap();
        let result = get_dt(ticks, length, first_char, &opt);
        assert_eq!(result, expected);
    }
}

#[test]
fn parse_ticks_no_format_should_use_default_format() {
    let result = parse_ticks(100_000_000, 1, &utc());
    assert_eq!(result, "1973-03-03T09:46:40Z".to_string());
}

// Local rendering always carries a numeric offset, `+00:00` included, so the
// sign is left open: it depends on the machine's zone.
#[test]
fn parse_ticks_local_should_not_return_z_time() {
    let opt = Opt {
        format: None,
        local: true,
        stringify: false,
    };

    let re = Regex::new(r"^\d{4}-\d{2}-\d{2}T\d{2}:\d{2}:\d{2}[+-]\d{2}:\d{2}$").unwrap();
    let result = parse_ticks(100_000_000, 1, &opt);
    assert!(re.is_match(&result));
}

#[test]
fn parse_ticks_should_use_supplied_format() {
    let opt = Opt {
        format: Some("%Y %m".to_string()),
        local: false,
        stringify: false,
    };

    let result = parse_ticks(100_000_000, 1, &opt);
    assert_eq!(result, "1973 03".to_string());
}

#[test]
fn parse_ticks_should_handle_various_scenarios() {
    let opt = utc();
    let tests: Vec<(i64, i64, &str)> = vec![
        (100_000_000, 1, "1973-03-03T09:46:40Z"),
        (400_000_000, 1, "1982-09-04T15:06:40Z"),
        (100_000_000_000, 1_000, "1973-03-03T09:46:40Z"),
        (4_000_000_000_000, 1_000, "2096-10-02T07:06:40Z"),
    ];

    for (ticks, divisor, expected) in tests {
        let result = parse_ticks(ticks, divisor, &opt);
        assert_eq!(result, expected.to_string());
    }
}

#[test]
fn natural_lengths_accept_any_first_digit() {
    let opt = utc();
    assert!(get_dt(999_999_999, 9, '9', &opt).is_some());
    assert!(get_dt(999_999_999_999, 12, '9', &opt).is_some());
    assert!(get_dt(999_999_999_999_999, 15, '9', &opt).is_some());
    assert!(get_dt(100_000_000, 9, '1', &opt).is_some());
}

#[test]
fn longer_lengths_stop_at_first_digit_five() {
    let opt = utc();
    assert!(get_dt(4_999_999_999, 10, '4', &opt).is_some());
    assert!(get_dt(5_000_000_000, 10, '5', &opt).is_none());
    assert!(get_dt(9_999_999_999, 10, '9', &opt).is_none());
    assert!(get_dt(4_000_000_000_000, 13, '4', &opt).is_some());
    assert!(get_dt(5_999_999_999_999, 13, '5', &opt).is_none());
    assert!(get_dt(1_000_000_000_000_000, 16, '1', &opt).is_some());
    assert!(get_dt(6_000_000_000_000_000, 16, '6', &opt).is_none());
}

#[test]
fn other_lengths_are_rejected() {
    let opt = utc();
    assert_eq!(get_dt(12_345_678_901, 11, '1', &opt), None);
    assert_eq!(get_dt(12_345_678_901_234, 14, '1', &opt), None);
    assert_eq!(get_dt(12_345_678, 8, '1', &opt), None);
    assert_eq!(get_dt(0, 0, '0', &opt), None);
}

#[test]
fn boundary_value_round_trips() {
    let opt = utc();
    assert_eq!(
        rewrite("a 4999999999 b", &opt),
        "a 2128-06-11T08:53:19Z b".to_string()
    );
    assert_eq!(rewrite("a 5000000000 b", &opt), "a 5000000000 b".to_string());
}

#[test]
fn nine_digits_render_with_default_options() {
    assert_eq!(rewrite("999999999", &utc()), "2001-09-09T01:46:39Z".to_string());
}

#[test]
fn nine_digits_render_quoted_when_stringified() {
    let opt = Opt {
        format: None,
        local: false,
        stringify: true,
    };
    assert_eq!(
        rewrite("999999999", &opt),
        "\"2001-09-09T01:46:39Z\"".to_string()
    );
}

#[test]
fn milliseconds_keep_their_remainder() {
    assert_eq!(
        rewrite("t=999999999999;", &utc()),
        "t=2001-09-09T01:46:39.000000999Z;".to_string()
    );
}

#[test]
fn custom_pattern_in_rewrite() {
    let opt = Opt {
        format: Some("%Y %m".to_string()),
        local: false,
        stringify: false,
    };
    assert_eq!(rewrite("[100000000]", &opt), "[1973 03]".to_string());
}

#[test]
fn malformed_pattern_is_shown_as_written() {
    let opt = Opt {
        format: Some("%Y %".to_string()),
        local: false,
        stringify: false,
    };
    assert_eq!(parse_ticks(100_000_000, 1, &opt), "%Y %".to_string());
}

#[test]
fn local_rendering_carries_numeric_offset() {
    let opt = Opt {
        format: None,
        local: true,
        stringify: false,
    };
    assert_eq!(
        render_at_offset(100_000_000, 1, -18_000, &opt),
        "1973-03-03T04:46:40-05:00".to_string()
    );
    assert_eq!(
        render_at_offset(100_000_000, 1, 3_600, &opt),
        "1973-03-03T10:46:40+01:00".to_string()
    );
    assert_eq!(
        render_at_offset(100_000_000, 1, 0, &opt),
        "1973-03-03T09:46:40+00:00".to_string()
    );
}

#[test]
fn local_pattern_uses_the_offset() {
    let opt = Opt {
        format: Some("%H:%M %:z".to_string()),
        local: true,
        stringify: true,
    };
    assert_eq!(
        render_at_offset(100_000_000, 1, 5_400, &opt),
        "\"11:16 +01:30\"".to_string()
    );
}

#[test]
fn utc_ignores_the_offset() {
    assert_eq!(
        render_at_offset(100_000_000, 1, 7_200, &utc()),
        "1973-03-03T09:46:40Z".to_string()
    );
}

#[test]
fn two_equal_length_timestamps_replaced_in_place() {
    assert_eq!(
        rewrite("a 999999999 b 100000000 c", &utc()),
        "a 2001-09-09T01:46:39Z b 1973-03-03T09:46:40Z c".to_string()
    );
}

#[test]
fn repeated_literal_replaced_each_time() {
    assert_eq!(
        rewrite("999999999,999999999", &utc()),
        "2001-09-09T01:46:39Z,2001-09-09T01:46:39Z".to_string()
    );
}

#[test]
fn rejected_run_does_not_take_a_later_replacement() {
    assert_eq!(
        rewrite("5123456789 123456789", &utc()),
        "5123456789 1973-11-29T21:33:09Z".to_string()
    );
}

#[test]
fn text_without_candidates_is_unchanged() {
    let text = "no stamps: 12345678, 12345678901234567, 12345678901 and é ✓\n";
    assert_eq!(rewrite(text, &utc()), text.to_string());
    assert_eq!(rewrite("", &utc()), "".to_string());
}

#[test]
fn overlong_run_is_not_split() {
    let text = "99999999999999999999999999";
    assert_eq!(rewrite(text, &utc()), text.to_string());
}

#[test]
fn runs_next_to_letters_and_unicode() {
    assert_eq!(
        rewrite("é100000000000ms", &utc()),
        "é1973-03-03T09:46:40Zms".to_string()
    );
}

#[test]
fn microseconds_render_remainder() {
    assert_eq!(
        rewrite("100000000000001", &utc()),
        "1973-03-03T09:46:40.000000001Z".to_string()
    );
}

#[test]
fn unit_divisors() {
    assert_eq!(Unit::Seconds.divisor(), 1);
    assert_eq!(Unit::Milliseconds.divisor(), 1_000);
    assert_eq!(Unit::Microseconds.divisor(), 1_000_000);
}
