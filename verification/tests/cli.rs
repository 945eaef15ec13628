use claude_status_line::number::WholeNumber;
use claude_status_line::json::{JsonMember, JsonNumber, JsonValue};
use claude_status_line::limits::{model_scoped_limits_with, needs_usage_cache};
use claude_status_line::status::{countdowns_in_range, format_status_line_with};
use claude_status_line::time::time_display_from;

// The payloads the binary's end-to-end runs read on stdin.

const MINIMAL_STATUS: &str = r#"{
  "model": { "display_name": "Opus" },
  "worktree": { "branch": "feature-test" },
  "effort": { "level": "high" },
  "context_window": { "used_percentage": 50.1 },
  "rate_limits": {
    "five_hour": { "used_percentage": 23.5 },
    "seven_day": { "used_percentage": 80.1 }
  }
}"#;

const SCHEMA_STATUS: &str = r#"{
  "hook_event_name": "Status",
  "session_id": "abc123",
  "cwd": "/current/working/directory",
  "model": { "display_name": "Opus" },
  "workspace": {
    "current_dir": "/current/working/directory",
    "project_dir": "/original/project/directory"
  },
  "worktree": { "branch": "worktree-my-feature" },
  "effort": { "level": "high" },
  "context_window": { "used_percentage": 80.4 },
  "rate_limits": {
    "five_hour": { "used_percentage": 23.5, "resets_at": 1784607120 },
    "seven_day": { "used_percentage": 41.2, "resets_at": 1785121200 },
    "model_scoped": [
      { "display_name": "Fable", "utilization": 12.3,
        "resets_at": "2026-07-22T03:59:59.769790+00:00" }
    ]
  }
}"#;

const EMPTY_STATUS: &str = "{}";

/// The usage snapshot cached in the home directory of the usage-cache run.
const USAGE_CACHE: &str = r#"{
  "cachedUsageUtilization": {
    "utilization": {
      "limits": [
        { "kind": "weekly_all", "percent": 2.0 },
        {
          "kind": "weekly_scoped",
          "percent": 3.2,
          "resets_at": "2026-07-22T03:59:59.769790+00:00",
          "scope": { "model": { "display_name": "Fable" } }
        }
      ]
    }
  }
}"#;

/// The pinned clock: 1784592000 = 2026-07-21T00:00:00Z.
const NOW: i64 = 1_784_592_000;

const FIXTURE_HOME: &str = "/work/status-line/tests/fixtures";

fn rounded_up(value: f64) -> WholeNumber {
    WholeNumber::from_text(&format!("{}", value.ceil())).expect("a finite number rounds up")
}

fn model(value: &serde_json::Value) -> JsonValue {
    match value {
        serde_json::Value::Null => JsonValue::Null,
        serde_json::Value::Bool(b) => JsonValue::Bool(*b),
        serde_json::Value::Number(n) => JsonValue::Number(JsonNumber {
            exact: n.as_i64(),
            rounded_up: rounded_up(n.as_f64().unwrap_or(0.0)),
        }),
        serde_json::Value::String(s) => JsonValue::Str(s.clone()),
        serde_json::Value::Array(items) => JsonValue::Array(items.iter().map(model).collect()),
        serde_json::Value::Object(members) => JsonValue::Object(
            members
                .iter()
                .map(|(key, value)| JsonMember { key: key.clone(), value: model(value) })
                .collect(),
        ),
    }
}

fn parse(text: &str) -> JsonValue {
    model(&serde_json::from_str(text).expect("valid JSON"))
}

/// What the binary prints for `status` on stdin, with the clock pinned, the
/// home directory holding `usage_cache` (if any) and the display mode set to
/// `time` (if set).
fn run(status: &str, usage_cache: Option<&str>, time: Option<&str>) -> String {
    let status = parse(status);
    let time = time_display_from(time);
    let cache = if needs_usage_cache(&status) { usage_cache.map(parse) } else { None };
    let limits = model_scoped_limits_with(&status, cache.as_ref());
    assert!(countdowns_in_range(&status, NOW, time, &limits));
    let line = format_status_line_with(
        &status,
        NOW,
        time,
        Some(FIXTURE_HOME),
        |_: &str| None,
        cache.as_ref(),
    );
    match line {
        Some(line) => format!("{line}\n"),
        None => String::new(),
    }
}

#[test]
fn prints_status_line_from_minimal_json() {
    let stdout = run(MINIMAL_STATUS, None, None);

    let top_line = "\x1b[38;5;214mfeature-test\x1b[0m";
    let bottom_line = [
        "\x1b[48;5;24m\x1b[38;5;15m Opus|high \x1b[0m",
        "\x1b[48;5;220m\x1b[38;5;0m ctx 51% \x1b[0m",
        "\x1b[48;5;34m\x1b[38;5;0m 5h 24% \x1b[0m",
        "\x1b[48;5;196m\x1b[38;5;0m 7d 81% \x1b[0m",
    ]
    .join(" ");

    assert_eq!(stdout, format!("{top_line}\n{bottom_line}\n"));
}

#[test]
fn prints_status_line_from_schema_example() {
    let stdout = run(SCHEMA_STATUS, None, None);

    let top_line = [
        "\x1b[38;5;15m/current/working/directory\x1b[0m",
        "\x1b[38;5;63m|",
        "\x1b[38;5;214mworktree-my-feature\x1b[0m",
    ]
    .join(" ");
    let bottom_line = [
        "\x1b[48;5;24m\x1b[38;5;15m Opus|high \x1b[0m",
        "\x1b[48;5;196m\x1b[38;5;0m ctx 81% \x1b[0m",
        "\x1b[48;5;34m\x1b[38;5;0m 4h12m 24% \x1b[0m",
        "\x1b[48;5;34m\x1b[38;5;0m 6d3h 42% \x1b[0m",
        "\x1b[48;5;34m\x1b[38;5;0m 1d3h Fable 13% \x1b[0m",
    ]
    .join(" ");

    assert_eq!(stdout, format!("{top_line}\n{bottom_line}\n"));
}

#[test]
fn hides_time_remaining_when_time_display_is_none() {
    let stdout = run(SCHEMA_STATUS, None, Some("none"));

    let bottom_line = [
        "\x1b[48;5;24m\x1b[38;5;15m Opus|high \x1b[0m",
        "\x1b[48;5;196m\x1b[38;5;0m ctx 81% \x1b[0m",
        "\x1b[48;5;34m\x1b[38;5;0m 5h 24% \x1b[0m",
        "\x1b[48;5;34m\x1b[38;5;0m 7d 42% \x1b[0m",
        "\x1b[48;5;34m\x1b[38;5;0m 7d Fable 13% \x1b[0m",
    ]
    .join(" ");

    assert!(stdout.ends_with(&format!("{bottom_line}\n")), "unexpected output: {stdout}");
}

#[test]
fn shows_single_unit_when_time_display_is_short() {
    let stdout = run(SCHEMA_STATUS, None, Some("short"));

    let bottom_line = [
        "\x1b[48;5;24m\x1b[38;5;15m Opus|high \x1b[0m",
        "\x1b[48;5;196m\x1b[38;5;0m ctx 81% \x1b[0m",
        "\x1b[48;5;34m\x1b[38;5;0m 4h 24% \x1b[0m",
        "\x1b[48;5;34m\x1b[38;5;0m 6d 42% \x1b[0m",
        "\x1b[48;5;34m\x1b[38;5;0m 1d Fable 13% \x1b[0m",
    ]
    .join(" ");

    assert!(stdout.ends_with(&format!("{bottom_line}\n")), "unexpected output: {stdout}");
}

#[test]
fn adds_model_scoped_segment_from_usage_cache() {
    let stdout = run(MINIMAL_STATUS, Some(USAGE_CACHE), None);

    let top_line = "\x1b[38;5;214mfeature-test\x1b[0m";
    let bottom_line = [
        "\x1b[48;5;24m\x1b[38;5;15m Opus|high \x1b[0m",
        "\x1b[48;5;220m\x1b[38;5;0m ctx 51% \x1b[0m",
        "\x1b[48;5;34m\x1b[38;5;0m 5h 24% \x1b[0m",
        "\x1b[48;5;196m\x1b[38;5;0m 7d 81% \x1b[0m",
        "\x1b[48;5;34m\x1b[38;5;0m 1d3h Fable 4% \x1b[0m",
    ]
    .join(" ");

    assert_eq!(stdout, format!("{top_line}\n{bottom_line}\n"));
}

#[test]
fn prints_nothing_when_no_segments_can_be_built() {
    let stdout = run(EMPTY_STATUS, None, None);

    assert_eq!(stdout, "");
}
