use claude_status_line::branch::{active_branch_with, branch_from_git_output};
use claude_status_line::calendar::days_from_civil;
use claude_status_line::number::WholeNumber;
use claude_status_line::json::{JsonMember, JsonNumber, JsonValue};
use claude_status_line::limits::{model_scoped_limits_with, needs_usage_cache, ScopedLimit};
use claude_status_line::segments::{format_percentage_segment, tildify, workspace_dir_with};
use claude_status_line::status::{countdowns_in_range, format_status_line_with};
use claude_status_line::text::{eq_ignore_ascii_case, join_strings, starts_with, str_eq, trim};
use claude_status_line::time::{
    format_remaining, format_remaining_short, remaining_label, time_display_from, TimeDisplay,
};
use claude_status_line::timestamp::{parse_iso8601, parse_tz_offset};

fn rounded_up(value: f64) -> WholeNumber {
    WholeNumber::from_text(&format!("{}", value.ceil())).expect("a finite number rounds up")
}

fn model(value: &serde_json::Value) -> JsonValue {
    match value {
        serde_json::Value::Null => JsonValue::Null,
        serde_json::Value::Bool(b) => JsonValue::Bool(*b),
        serde_json::Value::Number(n) => JsonValue::Number(JsonNumber {
            exact: n.as_i64(),
            rounded_up: rounded_up(n.as_f64().unwrap_or(0.0)),
        }),
        serde_json::Value::String(s) => JsonValue::Str(s.clone()),
        serde_json::Value::Array(items) => JsonValue::Array(items.iter().map(model).collect()),
        serde_json::Value::Object(members) => JsonValue::Object(
            members
                .iter()
                .map(|(key, value)| JsonMember { key: key.clone(), value: model(value) })
                .collect(),
        ),
    }
}

fn parse(text: &str) -> JsonValue {
    model(&serde_json::from_str(text).expect("valid JSON"))
}

fn number(text: &str) -> WholeNumber {
    WholeNumber::from_text(text).expect("a whole number")
}

fn no_git(_: &str) -> Option<String> {
    None
}

#[test]
fn short_countdown_starts_the_full_one() {
    for secs in [-5, 0, 60, 61, 119, 2820, 3600, 3661, 15120, 86_400, 90_061, 518_400, 529_200] {
        let full = format_remaining(secs);
        let short = format_remaining_short(secs);
        assert!(full.starts_with(&short), "{secs}: {short} / {full}");
    }
}

#[test]
fn countdowns_at_the_extremes() {
    assert_eq!(format_remaining(i64::MIN), "<1m");
    assert_eq!(format_remaining_short(i64::MIN), "<1m");
    assert_eq!(format_remaining(i64::MAX), "106751991167300d15h");
    assert_eq!(format_remaining_short(i64::MAX), "106751991167300d");
    // A zero hour drops the minutes too.
    assert_eq!(format_remaining(86_400 + 5 * 60), "1d");
    assert_eq!(format_remaining(3600 + 59), "1h");
}

#[test]
fn remaining_label_per_mode() {
    assert_eq!(remaining_label(TimeDisplay::Static, 1_000, 0), None);
    assert_eq!(remaining_label(TimeDisplay::Static, i64::MIN, i64::MAX), None);
    assert_eq!(remaining_label(TimeDisplay::Normal, 15_120, 0), Some("4h12m".to_string()));
    assert_eq!(remaining_label(TimeDisplay::Short, 15_120, 0), Some("4h".to_string()));
}

#[test]
fn epoch_is_day_zero() {
    assert_eq!(days_from_civil(1970, 1, 1), Some(0));
    assert_eq!(days_from_civil(1969, 12, 31), Some(-1));
    assert_eq!(days_from_civil(2000, 3, 1), Some(11_017));
    assert_eq!(days_from_civil(2026, 7, 22), Some(20_656));
    assert_eq!(days_from_civil(-1, 1, 1), Some(-719_893));
}

#[test]
fn year_lengths_follow_the_leap_rule() {
    let length = |y: i64| days_from_civil(y + 1, 1, 1).unwrap() - days_from_civil(y, 1, 1).unwrap();
    assert_eq!(length(2024), 366);
    assert_eq!(length(2023), 365);
    assert_eq!(length(2000), 366);
    assert_eq!(length(1900), 365);
    assert_eq!(length(-4), 366);
}

#[test]
fn months_follow_each_other() {
    assert_eq!(days_from_civil(2024, 3, 1).unwrap(), days_from_civil(2024, 2, 29).unwrap() + 1);
    assert_eq!(days_from_civil(1900, 3, 1).unwrap(), days_from_civil(1900, 2, 28).unwrap() + 1);
    assert_eq!(days_from_civil(2025, 1, 1).unwrap(), days_from_civil(2024, 12, 31).unwrap() + 1);
    assert_eq!(days_from_civil(2024, 12, 31).unwrap(), days_from_civil(2024, 1, 1).unwrap() + 365);
}

#[test]
fn days_from_civil_rejects_out_of_range_fields() {
    assert_eq!(days_from_civil(2024, 0, 1), None);
    assert_eq!(days_from_civil(2024, 13, 1), None);
    assert_eq!(days_from_civil(2024, 1, 0), None);
    assert_eq!(days_from_civil(2024, 1, 32), None);
    // Days that the month does not have.
    assert_eq!(days_from_civil(2023, 2, 29), None);
    assert_eq!(days_from_civil(1900, 2, 29), None);
    assert_eq!(days_from_civil(2024, 4, 31), None);
    assert_eq!(days_from_civil(2023, 2, 31), None);
    assert!(days_from_civil(2024, 2, 29).is_some());
    assert!(days_from_civil(2000, 2, 29).is_some());
}

#[test]
fn timezone_offsets() {
    assert_eq!(parse_tz_offset("Z"), Some(0));
    assert_eq!(parse_tz_offset("z"), Some(0));
    assert_eq!(parse_tz_offset("+00:00"), Some(0));
    assert_eq!(parse_tz_offset("+02:00"), Some(7_200));
    assert_eq!(parse_tz_offset("+0200"), Some(7_200));
    assert_eq!(parse_tz_offset("-01:30"), Some(-5_400));
    assert_eq!(parse_tz_offset("-0130"), Some(-5_400));
    assert_eq!(parse_tz_offset("-00:00"), Some(0));
    assert_eq!(parse_tz_offset("+23:59"), Some(86_340));
    assert_eq!(parse_tz_offset("Zulu"), None);
    assert_eq!(parse_tz_offset("+02:00 trailing"), None);
    assert_eq!(parse_tz_offset("+24:00"), None);
    assert_eq!(parse_tz_offset("+02:60"), None);
    assert_eq!(parse_tz_offset("+-1:00"), None);
    assert_eq!(parse_tz_offset("+02-00"), None);
    assert_eq!(parse_tz_offset(""), None);
    assert_eq!(parse_tz_offset("X"), None);
    assert_eq!(parse_tz_offset("+02"), None);
    assert_eq!(parse_tz_offset("+0a:00"), None);
    assert_eq!(parse_tz_offset("+02:0"), None);
}

#[test]
fn timestamp_spellings() {
    let instant = Some(1_784_692_799);
    assert_eq!(parse_iso8601("2026-07-22t03:59:59Z"), instant);
    assert_eq!(parse_iso8601("2026-07-22 03:59:59Z"), instant);
    assert_eq!(parse_iso8601("2026-07-22T03:59:59.5Z"), instant);
    assert_eq!(parse_iso8601("2026-07-22T03:59:59+0000"), instant);
    assert_eq!(parse_iso8601("2026-07-22T01:29:59-02:30"), instant);
    assert_eq!(parse_iso8601("1970-01-01T00:00:00Z"), Some(0));
    assert_eq!(parse_iso8601("1969-12-31T23:59:59Z"), Some(-1));
}

#[test]
fn malformed_timestamps() {
    assert_eq!(parse_iso8601(""), None);
    assert_eq!(parse_iso8601("2026-07-22T03:59:59"), None);
    assert_eq!(parse_iso8601("2026-07-22T03:59:59.769"), None);
    assert_eq!(parse_iso8601("2026/07/22T03:59:59Z"), None);
    assert_eq!(parse_iso8601("2026-07-22X03:59:59Z"), None);
    assert_eq!(parse_iso8601("2026-07-32T03:59:59Z"), None);
    assert_eq!(parse_iso8601("2026-00-22T03:59:59Z"), None);
    assert_eq!(parse_iso8601("2026-07-22T03:59"), None);
    assert_eq!(parse_iso8601("2026-07-22T03:59:59é"), None);
    assert_eq!(parse_iso8601("2026-02-30T00:00:00Z"), None);
    assert_eq!(parse_iso8601("2026-07-22T03:59:59Zjunk"), None);
    assert_eq!(parse_iso8601("2026-07-22T03:59:59+02:00 "), None);
    assert_eq!(parse_iso8601("2026-07-22T24:00:00Z"), None);
    assert_eq!(parse_iso8601("2026-07-22T03:60:00Z"), None);
    assert_eq!(parse_iso8601("2026-07-22T03:59:61Z"), None);
    assert_eq!(parse_iso8601("2026-07-22T03:59:5912Z"), None);
    assert_eq!(parse_iso8601("2026-07-22T03:59:59..Z"), None);
    assert_eq!(parse_iso8601("2026-07-22T03:59:59.Z"), None);
    assert_eq!(parse_iso8601("2026-07-22T03:59:59.1.2Z"), None);
}

#[test]
fn timestamp_fields_take_digits_only() {
    assert_eq!(parse_iso8601("2026-07-22T+3:59:59Z"), None);
    assert_eq!(parse_iso8601("+026-07-22T03:59:59Z"), None);
    assert_eq!(parse_iso8601("2026--7-22T03:59:59Z"), None);
}

#[test]
fn time_display_spellings() {
    assert_eq!(time_display_from(Some("\tShort\n")), TimeDisplay::Short);
    assert_eq!(time_display_from(Some("NoNe")), TimeDisplay::Static);
    assert_eq!(time_display_from(Some("\u{3000}none\u{a0}")), TimeDisplay::Static);
    assert_eq!(time_display_from(Some("none x")), TimeDisplay::Normal);
    assert_eq!(time_display_from(Some("nonе")), TimeDisplay::Normal);
}

#[test]
fn trims_unicode_whitespace() {
    assert_eq!(trim(" \u{2003}a b\u{85}\n"), "a b");
    assert_eq!(trim("   "), "");
    assert_eq!(trim(""), "");
}

#[test]
fn joins_with_separator() {
    let parts = vec!["a".to_string(), "b".to_string(), "c".to_string()];
    assert_eq!(join_strings(&parts, ", "), "a, b, c");
    assert_eq!(join_strings(&Vec::new(), ", "), "");
}

#[test]
fn percentage_text_and_colours() {
    assert_eq!(format_percentage_segment("ctx", &number("-3")), "\x1b[48;5;34m\x1b[38;5;0m ctx -3% \x1b[0m");
    assert_eq!(format_percentage_segment("ctx", &number("0")), "\x1b[48;5;34m\x1b[38;5;0m ctx 0% \x1b[0m");
    assert_eq!(format_percentage_segment("ctx", &number("-0")), "\x1b[48;5;34m\x1b[38;5;0m ctx -0% \x1b[0m");
    assert_eq!(format_percentage_segment("7d", &number("81")), "\x1b[48;5;196m\x1b[38;5;0m 7d 81% \x1b[0m");
    assert_eq!(format_percentage_segment("7d", &number("080")), "\x1b[48;5;220m\x1b[38;5;0m 7d 080% \x1b[0m");
    assert_eq!(
        format_percentage_segment("ctx", &number("10000000000000000000")),
        "\x1b[48;5;196m\x1b[38;5;0m ctx 10000000000000000000% \x1b[0m"
    );
    assert_eq!(
        format_percentage_segment("x", &number("-9223372036854775808")),
        "\x1b[48;5;34m\x1b[38;5;0m x -9223372036854775808% \x1b[0m"
    );
}

#[test]
fn home_trailing_separators() {
    assert_eq!(tildify("/home/a/x", Some("/home/a//")), "~/x");
    assert_eq!(tildify("/home/a/x", Some("/")), "/home/a/x");
    assert_eq!(tildify("/home/a", Some("")), "/home/a");
    assert_eq!(tildify("/home/ab", Some("/home/a")), "/home/ab");
    assert_eq!(tildify("/home/a\\x", Some("/home/a")), "~\\x");
}

#[test]
fn empty_current_dir_hides_the_dir() {
    let status = parse(r#"{ "workspace": { "current_dir": "" }, "cwd": "/x" }"#);
    assert_eq!(workspace_dir_with(&status, None), None);
    let status = parse(r#"{ "cwd": "" }"#);
    assert_eq!(workspace_dir_with(&status, None), None);
}

#[test]
fn empty_worktree_branch_asks_git() {
    let status = parse(r#"{ "worktree": { "branch": "" }, "cwd": "" }"#);
    let branch = active_branch_with(&status, |dir| {
        assert_eq!(dir, "");
        Some("main".to_string())
    });
    assert_eq!(branch, Some("main".to_string()));
    let status = parse(r#"{ "worktree": { "branch": "" } }"#);
    assert_eq!(active_branch_with(&status, |_| panic!("no directory to ask about")), None);
}

#[test]
fn payload_limits_skip_incomplete_entries() {
    let status = parse(
        r#"{ "rate_limits": { "model_scoped": [
            { "display_name": "A", "utilization": "12" },
            { "utilization": 5 },
            { "display_name": "B", "utilization": 7, "resets_at": 3 },
            { "display_name": "C", "utilization": 0.5, "resets_at": "soon" }
        ] } }"#,
    );
    assert_eq!(
        model_scoped_limits_with(&status, None),
        vec![
            ScopedLimit { name: "B".to_string(), percent: number("7"), resets_at: None },
            ScopedLimit { name: "C".to_string(), percent: number("1"), resets_at: Some("soon".to_string()) },
        ]
    );
}

#[test]
fn cache_read_only_when_needed() {
    let cache = parse(
        r#"{ "cachedUsageUtilization": { "utilization": { "limits": [
            { "kind": "weekly_scoped", "percent": 4.0,
              "scope": { "model": { "display_name": "Fable" } } }
        ] } } }"#,
    );
    // No model_scoped array, but rate limits reported: the cache counts.
    let status = parse(r#"{ "rate_limits": {} }"#);
    assert!(needs_usage_cache(&status));
    assert_eq!(model_scoped_limits_with(&status, Some(&cache)).len(), 1);
    assert_eq!(model_scoped_limits_with(&status, None), Vec::new());
    // An empty model_scoped array is the payload's own answer.
    let status = parse(r#"{ "rate_limits": { "model_scoped": [] } }"#);
    assert!(!needs_usage_cache(&status));
    assert_eq!(model_scoped_limits_with(&status, Some(&cache)), Vec::new());
    // A model_scoped that is no array does not count as the payload's answer.
    let status = parse(r#"{ "rate_limits": { "model_scoped": {} } }"#);
    assert!(needs_usage_cache(&status));
}

#[test]
fn static_labels_ignore_the_clock() {
    let status = parse(
        r#"{ "rate_limits": {
            "five_hour": { "used_percentage": 23.5, "resets_at": 1000 },
            "model_scoped": [ { "display_name": "Fable", "utilization": 1,
                                "resets_at": "2026-07-22T03:59:59Z" } ]
        } }"#,
    );
    let early = format_status_line_with(&status, 0, TimeDisplay::Static, None, no_git, None);
    let late = format_status_line_with(&status, 5_000_000_000, TimeDisplay::Static, None, no_git, None);
    assert_eq!(early, late);
    assert_eq!(
        early,
        Some(
            "\x1b[48;5;34m\x1b[38;5;0m 5h 24% \x1b[0m \x1b[48;5;34m\x1b[38;5;0m 7d Fable 1% \x1b[0m"
                .to_string()
        )
    );
}

#[test]
fn countdown_overflow_is_detected() {
    let status = parse(
        r#"{ "rate_limits": { "five_hour": { "used_percentage": 1, "resets_at": -9223372036854775808 } } }"#,
    );
    assert!(!countdowns_in_range(&status, 1, TimeDisplay::Normal, &Vec::new()));
    assert!(countdowns_in_range(&status, 0, TimeDisplay::Normal, &Vec::new()));
    assert!(countdowns_in_range(&status, 1, TimeDisplay::Static, &Vec::new()));
    let limits = vec![ScopedLimit {
        name: "Fable".to_string(),
        percent: number("1"),
        resets_at: Some("2026-07-22T03:59:59Z".to_string()),
    }];
    assert!(!countdowns_in_range(&parse("{}"), i64::MIN, TimeDisplay::Short, &limits));
    assert!(countdowns_in_range(&parse("{}"), 0, TimeDisplay::Short, &limits));
}

#[test]
fn rows_join_with_a_newline() {
    let status = parse(r#"{ "cwd": "/home/jane/p", "context_window": { "used_percentage": 99.2 } }"#);
    let out = format_status_line_with(
        &status,
        0,
        TimeDisplay::Normal,
        Some("/home/jane"),
        |dir: &str| if dir == "/home/jane/p" { Some("trunk".to_string()) } else { None },
        None,
    );
    assert_eq!(
        out,
        Some(
            "\x1b[38;5;15m~/p\x1b[0m \x1b[38;5;63m| \x1b[38;5;214mtrunk\x1b[0m\n\x1b[48;5;196m\x1b[38;5;0m ctx 100% \x1b[0m"
                .to_string()
        )
    );
}

#[test]
fn string_helpers_agree_with_std() {
    for u in 0u32..0x3100 {
        let Some(c) = char::from_u32(u) else { continue };
        let s = format!("{c}x{c}");
        assert_eq!(trim(&s), s.trim(), "U+{u:04X}");
        let upper = format!("{}", c.to_ascii_uppercase());
        let lower = format!("{c}");
        assert_eq!(eq_ignore_ascii_case(&upper, &lower), upper.eq_ignore_ascii_case(&lower));
    }
    for (a, b) in [("", ""), ("ab", "a"), ("a", "ab"), ("é", "e"), ("ab", "ab"), ("ab", "b")] {
        assert_eq!(starts_with(a, b), a.starts_with(b));
        assert_eq!(str_eq(a, b), a == b);
    }
}

#[test]
fn timestamps_at_the_edges_of_the_ranges() {
    assert_eq!(parse_iso8601("2024-02-29T23:59:59Z"), Some(1_709_251_199));
    assert_eq!(parse_iso8601("2016-12-31T23:59:60Z"), Some(1_483_228_800));
    assert_eq!(parse_iso8601("0000-01-01T00:00:00Z"), Some(-62_167_219_200));
    assert_eq!(parse_iso8601("9999-12-31T23:59:59+23:59"), Some(253_402_214_459));
}

#[test]
fn reads_the_branch_from_git_output() {
    assert_eq!(branch_from_git_output(true, b"main\n".to_vec()), Some("main".to_string()));
    assert_eq!(branch_from_git_output(true, "  f\u{e9}ature \n".as_bytes().to_vec()), Some("f\u{e9}ature".to_string()));
    assert_eq!(branch_from_git_output(false, b"main\n".to_vec()), None);
    assert_eq!(branch_from_git_output(true, b"\n".to_vec()), None);
    assert_eq!(branch_from_git_output(true, Vec::new()), None);
    assert_eq!(branch_from_git_output(true, vec![0x6d, 0xff, 0x6e]), None);
}

#[test]
fn whole_numbers_from_text() {
    assert_eq!(WholeNumber::from_text(""), None);
    assert_eq!(WholeNumber::from_text("-"), None);
    assert_eq!(WholeNumber::from_text("1.5"), None);
    assert_eq!(WholeNumber::from_text("+1"), None);
    assert_eq!(WholeNumber::from_text("1e3"), None);
    assert_eq!(WholeNumber::from_text("--1"), None);
    assert!(number("-0").is_negative());
    assert!(number("50").at_most(50));
    assert!(!number("51").at_most(50));
    assert!(number("-999999999999999999999999").at_most(0));
    assert!(!number("99999999999999999999999").at_most(80));
}

#[test]
fn every_finite_percentage_is_shown() {
    let out = format_status_line_with(
        &parse(r#"{ "context_window": { "used_percentage": 1e19 } }"#),
        0,
        TimeDisplay::Normal,
        None,
        no_git,
        None,
    );
    assert_eq!(out, Some("\x1b[48;5;196m\x1b[38;5;0m ctx 10000000000000000000% \x1b[0m".to_string()));
    let out = format_status_line_with(
        &parse(r#"{ "context_window": { "used_percentage": -0.5 } }"#),
        0,
        TimeDisplay::Normal,
        None,
        no_git,
        None,
    );
    assert_eq!(out, Some("\x1b[48;5;34m\x1b[38;5;0m ctx -0% \x1b[0m".to_string()));
    let status = parse(r#"{ "rate_limits": { "model_scoped": [ { "display_name": "Big", "utilization": 1e19 } ] } }"#);
    assert_eq!(
        model_scoped_limits_with(&status, None),
        vec![ScopedLimit { name: "Big".to_string(), percent: number("10000000000000000000"), resets_at: None }]
    );
    let cache = parse(
        r#"{ "cachedUsageUtilization": { "utilization": { "limits": [
            { "kind": "weekly_scoped", "percent": 1e19,
              "scope": { "model": { "display_name": "Big" } } }
        ] } } }"#,
    );
    assert_eq!(
        model_scoped_limits_with(&parse(r#"{ "rate_limits": {} }"#), Some(&cache)),
        vec![ScopedLimit { name: "Big".to_string(), percent: number("10000000000000000000"), resets_at: None }]
    );
}
