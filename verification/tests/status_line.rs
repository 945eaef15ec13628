use claude_status_line::number::WholeNumber;
use claude_status_line::json::{string_at, percentage_at, JsonMember, JsonNumber, JsonValue};
use claude_status_line::branch::active_branch_with;
use claude_status_line::limits::{model_scoped_limits_with, needs_usage_cache, ScopedLimit};
use claude_status_line::segments::{
    format_branch_segment, format_dir_segment, format_model_segment, format_percentage_segment,
    tildify, workspace_dir_with,
};
use claude_status_line::status::format_status_line_with;
use claude_status_line::time::{
    format_remaining, format_remaining_short, time_display_from, TimeDisplay,
};
use claude_status_line::timestamp::parse_iso8601;

/// A number rounded up to a whole number, as the status line shows it.
fn rounded_up(value: f64) -> WholeNumber {
    WholeNumber::from_text(&format!("{}", value.ceil())).expect("a finite number rounds up")
}

fn whole(value: f64) -> WholeNumber {
    rounded_up(value)
}

fn model(value: &serde_json::Value) -> JsonValue {
    match value {
        serde_json::Value::Null => JsonValue::Null,
        serde_json::Value::Bool(b) => JsonValue::Bool(*b),
        serde_json::Value::Number(n) => JsonValue::Number(JsonNumber {
            exact: n.as_i64(),
            rounded_up: rounded_up(n.as_f64().unwrap_or(0.0)),
        }),
        serde_json::Value::String(s) => JsonValue::Str(s.clone()),
        serde_json::Value::Array(items) => JsonValue::Array(items.iter().map(model).collect()),
        serde_json::Value::Object(members) => JsonValue::Object(
            members
                .iter()
                .map(|(key, value)| JsonMember { key: key.clone(), value: model(value) })
                .collect(),
        ),
    }
}

fn parse(text: &str) -> JsonValue {
    model(&serde_json::from_str(text).expect("valid JSON"))
}

fn no_git(_: &str) -> Option<String> {
    None
}

/// The status line as the default display mode renders it for a session
/// without git, home or usage cache to consult.
fn format_status_line(status: &JsonValue) -> Option<String> {
    format_status_line_with(status, 1_000_000_000, TimeDisplay::Normal, None, no_git, None)
}

/// What the binary prints for a status line.
fn printed(line: Option<String>) -> String {
    match line {
        Some(line) => format!("{line}\n"),
        None => String::new(),
    }
}

fn limit(name: &str, percent: WholeNumber, resets_at: Option<&str>) -> ScopedLimit {
    ScopedLimit { name: name.to_string(), percent, resets_at: resets_at.map(str::to_string) }
}

#[test]
fn formats_percentage_segments_with_threshold_colors() {
    assert_eq!(
        format_percentage_segment("ctx", &whole(50.0)),
        "\x1b[48;5;34m\x1b[38;5;0m ctx 50% \x1b[0m"
    );
    assert_eq!(
        format_percentage_segment("ctx", &whole(50.1)),
        "\x1b[48;5;220m\x1b[38;5;0m ctx 51% \x1b[0m"
    );
    assert_eq!(
        format_percentage_segment("ctx", &whole(80.0)),
        "\x1b[48;5;220m\x1b[38;5;0m ctx 80% \x1b[0m"
    );
    assert_eq!(
        format_percentage_segment("ctx", &whole(80.1)),
        "\x1b[48;5;196m\x1b[38;5;0m ctx 81% \x1b[0m"
    );
}

#[test]
fn formats_model_and_branch_segments() {
    assert_eq!(
        format_model_segment("Opus", "high"),
        "\x1b[48;5;24m\x1b[38;5;15m Opus|high \x1b[0m"
    );
    assert_eq!(format_branch_segment("main"), "\x1b[38;5;214mmain\x1b[0m");
    assert_eq!(
        format_dir_segment("~/dev/project"),
        "\x1b[38;5;15m~/dev/project\x1b[0m"
    );
}

#[test]
fn reads_nested_percentages_and_strings() {
    let status = parse(
        r#"{
            "context_window": { "used_percentage": 42.5 },
            "model": { "display_name": "Sonnet" }
        }"#,
    );

    assert_eq!(
        percentage_at(&status, &["context_window", "used_percentage"]),
        Some(&whole(42.5))
    );
    assert_eq!(string_at(&status, &["model", "display_name"]), Some("Sonnet"));
    assert_eq!(percentage_at(&status, &["missing"]), None);
    assert_eq!(string_at(&status, &["context_window", "used_percentage"]), None);
}

#[test]
fn builds_status_line_from_json_fields() {
    let status = parse(
        r#"{
            "workspace": { "current_dir": "/srv/example/project" },
            "worktree": { "branch": "feature" },
            "context_window": { "used_percentage": 50.1 },
            "rate_limits": {
                "five_hour": { "used_percentage": 23.5 },
                "seven_day": { "used_percentage": 80.1 },
                "model_scoped": [
                    { "display_name": "Fable", "utilization": 12.3, "resets_at": null }
                ]
            },
            "model": { "display_name": "Opus" },
            "effort": { "level": "high" }
        }"#,
    );

    let top_line = [
        "\x1b[38;5;15m/srv/example/project\x1b[0m",
        "\x1b[38;5;63m|",
        "\x1b[38;5;214mfeature\x1b[0m",
    ]
    .join(" ");
    let bottom_line = [
        "\x1b[48;5;24m\x1b[38;5;15m Opus|high \x1b[0m",
        "\x1b[48;5;220m\x1b[38;5;0m ctx 51% \x1b[0m",
        "\x1b[48;5;34m\x1b[38;5;0m 5h 24% \x1b[0m",
        "\x1b[48;5;196m\x1b[38;5;0m 7d 81% \x1b[0m",
        "\x1b[48;5;34m\x1b[38;5;0m 7d Fable 13% \x1b[0m",
    ]
    .join(" ");

    assert_eq!(format_status_line(&status), Some(format!("{top_line}\n{bottom_line}")));
}

#[test]
fn renders_partial_payloads() {
    // A branch without a dir renders alone, without the separator.
    let only_branch = parse(r#"{ "worktree": { "branch": "feature" } }"#);
    assert_eq!(
        format_status_line(&only_branch),
        Some("\x1b[38;5;214mfeature\x1b[0m".to_string())
    );

    let only_bottom = parse(r#"{ "context_window": { "used_percentage": 42.0 } }"#);
    assert_eq!(
        format_status_line(&only_bottom),
        Some("\x1b[48;5;34m\x1b[38;5;0m ctx 42% \x1b[0m".to_string())
    );
}

#[test]
fn shows_placeholder_when_dir_has_no_branch() {
    // A directory that exists nowhere fails the git lookup, so the
    // branch side falls back to the placeholder.
    let status = parse(r#"{ "workspace": { "current_dir": "/nonexistent-dir-for-test" } }"#);

    assert_eq!(
        format_status_line(&status),
        Some(
            [
                "\x1b[38;5;15m/nonexistent-dir-for-test\x1b[0m",
                "\x1b[38;5;63m|",
                "\x1b[38;5;124m<no git branch>\x1b[0m",
            ]
            .join(" ")
        )
    );
}

#[test]
fn replaces_home_prefix_with_tilde() {
    assert_eq!(tildify("/Users/jane/dev/project", Some("/Users/jane")), "~/dev/project");
    assert_eq!(tildify("/Users/jane", Some("/Users/jane")), "~");
    assert_eq!(tildify("/Users/jane/dev", Some("/Users/jane/")), "~/dev");
    assert_eq!(tildify("/Users/janedoe/dev", Some("/Users/jane")), "/Users/janedoe/dev");
    assert_eq!(tildify("/srv/project", None), "/srv/project");
    assert_eq!(
        tildify(r"C:\Users\jane\dev\project", Some(r"C:\Users\jane")),
        r"~\dev\project"
    );
}

#[test]
fn builds_workspace_dir_segment_value() {
    let status = parse(
        r#"{
            "cwd": "/fallback/dir",
            "workspace": { "current_dir": "/Users/jane/dev/some-quite-long-project-name" }
        }"#,
    );

    let dir = workspace_dir_with(&status, Some("/Users/jane"));

    assert_eq!(dir, Some("~/dev/some-quite-long-project-name".to_string()));
}

#[test]
fn workspace_dir_falls_back_to_cwd() {
    let status = parse(r#"{ "cwd": "/fallback/dir" }"#);

    assert_eq!(workspace_dir_with(&status, None), Some("/fallback/dir".to_string()));
    assert_eq!(workspace_dir_with(&parse("{}"), None), None);
}

#[test]
fn prefers_payload_model_scoped_over_usage_cache() {
    let status = parse(
        r#"{
            "rate_limits": {
                "model_scoped": [
                    { "display_name": "Fable", "utilization": 12.3 }
                ]
            }
        }"#,
    );

    // The cache is not to be read, and would not be used if it were.
    assert!(!needs_usage_cache(&status));
    let cache = parse(
        r#"{ "cachedUsageUtilization": { "utilization": { "limits": [
            { "kind": "weekly_scoped", "percent": 99.0,
              "scope": { "model": { "display_name": "Other" } } }
        ] } } }"#,
    );
    let limits = model_scoped_limits_with(&status, Some(&cache));

    assert_eq!(limits, vec![limit("Fable", whole(12.3), None)]);
}

#[test]
fn falls_back_to_usage_cache_for_model_scoped_limits() {
    let status = parse(r#"{ "rate_limits": { "seven_day": { "used_percentage": 2.0 } } }"#);
    let cache = parse(
        r#"{
            "cachedUsageUtilization": {
                "utilization": {
                    "limits": [
                        { "kind": "weekly_all", "percent": 2.0 },
                        { "kind": "weekly_scoped", "percent": 4.0 },
                        {
                            "kind": "weekly_scoped",
                            "percent": 4.0,
                            "scope": { "model": { "display_name": "Fable" } }
                        }
                    ]
                }
            }
        }"#,
    );

    assert!(needs_usage_cache(&status));
    let limits = model_scoped_limits_with(&status, Some(&cache));

    assert_eq!(limits, vec![limit("Fable", whole(4.0), None)]);
}

#[test]
fn skips_usage_cache_when_payload_has_no_rate_limits() {
    let status = parse("{}");
    assert!(!needs_usage_cache(&status));
    let cache = parse(
        r#"{ "cachedUsageUtilization": { "utilization": { "limits": [
            { "kind": "weekly_scoped", "percent": 4.0,
              "scope": { "model": { "display_name": "Fable" } } }
        ] } } }"#,
    );
    let limits = model_scoped_limits_with(&status, Some(&cache));

    assert_eq!(limits, Vec::new());
}

#[test]
fn returns_none_when_no_segments_can_be_built() {
    assert_eq!(format_status_line(&parse("{}")), None);
}

#[test]
fn prefers_worktree_branch_over_git_fallback() {
    let status = parse(r#"{ "cwd": "/repo", "worktree": { "branch": "worktree-feature" } }"#);

    let branch = active_branch_with(&status, |_| Some("main".to_string()));

    assert_eq!(branch, Some("worktree-feature".to_string()));
}

#[test]
fn falls_back_to_cwd_git_branch() {
    let status = parse(r#"{ "cwd": "/repo", "workspace": { "current_dir": "/workspace" } }"#);

    let branch = active_branch_with(&status, |cwd| {
        assert_eq!(cwd, "/repo");
        Some("main".to_string())
    });

    assert_eq!(branch, Some("main".to_string()));
}

#[test]
fn falls_back_to_workspace_current_dir_when_cwd_git_fails() {
    let status = parse(r#"{ "cwd": "/not-a-repo", "workspace": { "current_dir": "/repo" } }"#);

    let branch = active_branch_with(&status, |cwd| match cwd {
        "/not-a-repo" => None,
        "/repo" => Some("develop".to_string()),
        _ => panic!("unexpected cwd: {cwd}"),
    });

    assert_eq!(branch, Some("develop".to_string()));
}

#[test]
fn formats_remaining_with_two_largest_units() {
    assert_eq!(format_remaining(-1), "<1m");
    assert_eq!(format_remaining(0), "<1m");
    assert_eq!(format_remaining(60), "<1m");
    assert_eq!(format_remaining(61), "1m");
    assert_eq!(format_remaining(2820), "47m");
    assert_eq!(format_remaining(3600), "1h");
    assert_eq!(format_remaining(15120), "4h12m");
    assert_eq!(format_remaining(518400), "6d");
    assert_eq!(format_remaining(529200), "6d3h");
}

#[test]
fn parses_iso8601_reset_timestamps() {
    // The three spellings all denote the same instant.
    assert_eq!(parse_iso8601("2026-07-22T03:59:59.769790+00:00"), Some(1784692799));
    assert_eq!(parse_iso8601("2026-07-22T03:59:59Z"), Some(1784692799));
    assert_eq!(parse_iso8601("2026-07-22T05:59:59+02:00"), Some(1784692799));

    assert_eq!(parse_iso8601("not a date"), None);
    assert_eq!(parse_iso8601("2026-13-01T00:00:00Z"), None);
}

fn window_status(now: i64, with_context: bool) -> JsonValue {
    let context = if with_context { r#""context_window": { "used_percentage": 10.0 },"# } else { "" };
    parse(&format!(
        r#"{{
            {context}
            "rate_limits": {{
                "five_hour": {{ "used_percentage": 23.5, "resets_at": {five} }},
                "seven_day": {{ "used_percentage": 80.1, "resets_at": {seven} }},
                "model_scoped": [
                    {{ "display_name": "Fable", "utilization": 12.3,
                      "resets_at": "2026-07-22T03:59:59.769790+00:00" }}
                ]
            }}
        }}"#,
        five = now + 15_120,
        seven = now + 529_200,
    ))
}

#[test]
fn window_labels_show_time_remaining() {
    let now = 1_000_000_000;
    let status = window_status(now, true);

    let out = format_status_line_with(&status, now, TimeDisplay::Normal, None, no_git, None)
        .expect("segments should render");

    assert!(out.contains(" 4h12m 24% "), "5h window: {out}");
    assert!(out.contains(" 6d3h 81% "), "7d window: {out}");
    // model_scoped reset is fixed, so pin the countdown against a fixed now.
    let out = format_status_line_with(&status, 1_784_592_000, TimeDisplay::Normal, None, no_git, None)
        .expect("segments should render");
    assert!(out.contains(" 1d3h Fable 13% "), "per-model window: {out}");
}

#[test]
fn window_labels_stay_static_in_none_mode() {
    let now = 1_000_000_000;
    let status = window_status(now, false);

    let out = format_status_line_with(&status, now, TimeDisplay::Static, None, no_git, None)
        .expect("segments should render");

    assert!(out.contains(" 5h 24% "), "5h window: {out}");
    assert!(out.contains(" 7d 81% "), "7d window: {out}");
    assert!(out.contains(" 7d Fable 13% "), "per-model window: {out}");
}

#[test]
fn window_labels_show_single_unit_in_short_mode() {
    let now = 1_784_592_000;
    let status = window_status(now, false);

    let out = format_status_line_with(&status, now, TimeDisplay::Short, None, no_git, None)
        .expect("segments should render");

    assert!(out.contains(" 4h 24% "), "5h window: {out}");
    assert!(out.contains(" 6d 81% "), "7d window: {out}");
    assert!(out.contains(" 1d Fable 13% "), "per-model window: {out}");
}

#[test]
fn formats_remaining_short_with_largest_unit() {
    assert_eq!(format_remaining_short(0), "<1m");
    assert_eq!(format_remaining_short(60), "<1m");
    assert_eq!(format_remaining_short(2820), "47m");
    assert_eq!(format_remaining_short(15120), "4h");
    assert_eq!(format_remaining_short(529200), "6d");
}

#[test]
fn parses_time_display_from_env_value() {
    assert_eq!(time_display_from(None), TimeDisplay::Normal);
    assert_eq!(time_display_from(Some("normal")), TimeDisplay::Normal);
    assert_eq!(time_display_from(Some("none")), TimeDisplay::Static);
    assert_eq!(time_display_from(Some("short")), TimeDisplay::Short);
    assert_eq!(time_display_from(Some(" NONE ")), TimeDisplay::Static);
    assert_eq!(time_display_from(Some("bogus")), TimeDisplay::Normal);
    assert_eq!(time_display_from(Some("")), TimeDisplay::Normal);
}

#[test]
fn window_labels_fall_back_when_reset_time_absent() {
    let status = parse(
        r#"{
            "rate_limits": {
                "five_hour": { "used_percentage": 23.5 },
                "seven_day": { "used_percentage": 80.1 }
            }
        }"#,
    );

    let out = format_status_line_with(&status, 1_000_000_000, TimeDisplay::Normal, None, no_git, None)
        .expect("segments should render");

    assert!(out.contains(" 5h 24% "), "5h fallback: {out}");
    assert!(out.contains(" 7d 81% "), "7d fallback: {out}");
}

#[test]
fn window_labels_show_expired_windows_as_under_a_minute() {
    let now = 1_000_000_000;
    let status = parse(&format!(
        r#"{{ "rate_limits": {{ "five_hour": {{ "used_percentage": 23.5, "resets_at": {} }} }} }}"#,
        now - 100
    ));

    let out = format_status_line_with(&status, now, TimeDisplay::Normal, None, no_git, None)
        .expect("segments should render");

    assert!(out.contains(" <1m 24% "), "expired window: {out}");
}
