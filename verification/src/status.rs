use crate::branch::{active_branch_with, branch_outcome};
use crate::json::{keys, spec_epoch_at, spec_percentage_at, spec_string_at, epoch_at, percentage_at, string_at, JsonValue};
use crate::limits::{limit_views, model_scoped_limits_with, spec_model_scoped_limits, LimitView, ScopedLimit};
use crate::segments::{
    branch_segment, dir_segment, format_branch_segment, format_dir_segment, format_model_segment,
    format_no_branch_segment, format_percentage_segment, format_separator_segment, model_segment,
    no_branch_segment, percentage_segment, separator_segment, spec_workspace_dir, workspace_dir_with,
};
use crate::text::{join, join_strings, opt_str, opt_text, texts};
use crate::time::{countdown_fits, remaining_label, spec_remaining_label, TimeDisplay};
use crate::timestamp::{parse_iso8601, spec_parse_iso8601};
use vstd::prelude::*;
use vstd::string::*;
use vstd::utf8::encode_utf8;

verus! {

/// The top row: the workspace directory, a separator and the branch (or a
/// placeholder when there is none); without a directory, the branch alone.
pub open spec fn top_row(dir: Option<Seq<char>>, branch: Option<Seq<char>>) -> Seq<Seq<char>> {
    match dir {
        Some(d) => seq![
            dir_segment(d),
            separator_segment(),
            match branch {
                Some(b) => branch_segment(b),
                None => no_branch_segment(),
            },
        ],
        None => match branch {
            Some(b) => seq![branch_segment(b)],
            None => seq![],
        },
    }
}

/// The model segment, when the payload names both the model and the effort
/// level.
pub open spec fn model_segments(json: JsonValue) -> Seq<Seq<char>> {
    match (
        spec_string_at(json, seq!["model"@, "display_name"@]),
        spec_string_at(json, seq!["effort"@, "level"@]),
    ) {
        (Some(model_name), Some(effort_level)) => seq![model_segment(model_name, effort_level)],
        _ => seq![],
    }
}

/// A usage segment labelled `label` for the percentage at `path`, if any.
pub open spec fn percentage_segments(json: JsonValue, label: Seq<char>, path: Seq<Seq<char>>) -> Seq<Seq<char>> {
    match spec_percentage_at(json, path) {
        Some(p) => seq![percentage_segment(label, p)],
        None => seq![],
    }
}

/// A rate-limit window's label: the countdown to its reset time (at
/// `resets_path`) when there is one and the mode shows countdowns, else
/// `fallback`.
pub open spec fn window_label(
    json: JsonValue,
    fallback: Seq<char>,
    resets_path: Seq<Seq<char>>,
    now: int,
    time: TimeDisplay,
) -> Seq<char> {
    match spec_epoch_at(json, resets_path) {
        Some(resets_at) => match spec_remaining_label(time, resets_at as int, now) {
            Some(countdown) => countdown,
            None => fallback,
        },
        None => fallback,
    }
}

/// A rate-limit window's usage segment, when its percentage is reported.
pub open spec fn window_segments(
    json: JsonValue,
    fallback: Seq<char>,
    percentage_path: Seq<Seq<char>>,
    resets_path: Seq<Seq<char>>,
    now: int,
    time: TimeDisplay,
) -> Seq<Seq<char>> {
    match spec_percentage_at(json, percentage_path) {
        Some(p) => seq![percentage_segment(window_label(json, fallback, resets_path, now, time), p)],
        None => seq![],
    }
}

/// The reset time of a per-model limit, when it is written and well formed.
pub open spec fn limit_resets_at(limit: LimitView) -> Option<int> {
    match limit.2 {
        Some(r) => spec_parse_iso8601(encode_utf8(r)),
        None => None,
    }
}

/// A per-model limit's label: the countdown and the model's name, or `7d` and
/// the model's name when there is no countdown.
pub open spec fn limit_label(limit: LimitView, now: int, time: TimeDisplay) -> Seq<char> {
    let countdown = match limit_resets_at(limit) {
        Some(t) => spec_remaining_label(time, t, now),
        None => None,
    };
    match countdown {
        Some(c) => c + " "@ + limit.0,
        None => "7d "@ + limit.0,
    }
}

/// The usage segments of the per-model limits, in order.
pub open spec fn limit_segments(limits: Seq<LimitView>, now: int, time: TimeDisplay) -> Seq<Seq<char>> {
    limits.map_values(|l: LimitView| percentage_segment(limit_label(l, now, time), l.1))
}

/// The 5-hour window's usage.
pub open spec fn five_hour_percentage() -> Seq<Seq<char>> {
    seq!["rate_limits"@, "five_hour"@, "used_percentage"@]
}

/// The 5-hour window's reset time.
pub open spec fn five_hour_resets() -> Seq<Seq<char>> {
    seq!["rate_limits"@, "five_hour"@, "resets_at"@]
}

/// The 7-day window's usage.
pub open spec fn seven_day_percentage() -> Seq<Seq<char>> {
    seq!["rate_limits"@, "seven_day"@, "used_percentage"@]
}

/// The 7-day window's reset time.
pub open spec fn seven_day_resets() -> Seq<Seq<char>> {
    seq!["rate_limits"@, "seven_day"@, "resets_at"@]
}

/// The bottom row: model and effort, context usage, the 5-hour and 7-day
/// windows, then the per-model limits.
pub open spec fn bottom_row(json: JsonValue, now: int, time: TimeDisplay, limits: Seq<LimitView>) -> Seq<Seq<char>> {
    model_segments(json) + percentage_segments(json, "ctx"@, seq!["context_window"@, "used_percentage"@])
        + window_segments(json, "5h"@, five_hour_percentage(), five_hour_resets(), now, time)
        + window_segments(json, "7d"@, seven_day_percentage(), seven_day_resets(), now, time)
        + limit_segments(limits, now, time)
}

/// The rows that have segments, each row's segments joined by spaces, the
/// rows by a newline; `None` when neither row has a segment.
pub open spec fn rendered(top: Seq<Seq<char>>, bottom: Seq<Seq<char>>) -> Option<Seq<char>> {
    if top.len() > 0 && bottom.len() > 0 {
        Some(join(top, " "@) + "\n"@ + join(bottom, " "@))
    } else if top.len() > 0 {
        Some(join(top, " "@))
    } else if bottom.len() > 0 {
        Some(join(bottom, " "@))
    } else {
        None
    }
}

/// A window's countdown can be computed without overflow, where one is computed.
pub open spec fn window_fits(
    json: JsonValue,
    percentage_path: Seq<Seq<char>>,
    resets_path: Seq<Seq<char>>,
    now: int,
    time: TimeDisplay,
) -> bool {
    spec_percentage_at(json, percentage_path) is Some && spec_epoch_at(json, resets_path) is Some
        ==> countdown_fits(time, spec_epoch_at(json, resets_path)->0 as int, now)
}

/// Every countdown the rows show can be computed without overflow.
pub open spec fn countdowns_fit(json: JsonValue, now: int, time: TimeDisplay, limits: Seq<LimitView>) -> bool {
    &&& window_fits(json, five_hour_percentage(), five_hour_resets(), now, time)
    &&& window_fits(json, seven_day_percentage(), seven_day_resets(), now, time)
    &&& forall|i: int|
        0 <= i < limits.len() && (#[trigger] limit_resets_at(limits[i])) is Some ==> countdown_fits(
            time,
            limit_resets_at(limits[i])->0,
            now,
        )
}

/// Appends the usage segment labelled `label` for the percentage at `path`,
/// when there is one; the segments already there stay as they are.
pub fn add_percentage_segment(segments: &mut Vec<String>, json: &JsonValue, label: &str, path: &[&str])
    ensures
        final(segments)@.len() == old(segments)@.len() + percentage_segments(*json, label@, keys(path@)).len(),
        final(segments)@.subrange(0, old(segments)@.len() as int) == old(segments)@,
        texts(final(segments)@) == texts(old(segments)@) + percentage_segments(*json, label@, keys(path@)),
{
    let ghost before = segments@;
    if let Some(value) = percentage_at(json, path) {
        segments.push(format_percentage_segment(label, value));
    }
    assert(texts(segments@) =~= texts(before) + percentage_segments(*json, label@, keys(path@)));
}

/// Like `add_percentage_segment`, but for rate-limit windows: the label shows
/// the time remaining until the window resets (from `resets_path`) instead of a
/// fixed name. Falls back to `fallback_label` when no reset time is available.
/// The segments already there stay as they are.
pub fn add_window_segment(
    segments: &mut Vec<String>,
    json: &JsonValue,
    fallback_label: &str,
    percentage_path: &[&str],
    resets_path: &[&str],
    now: i64,
    time: TimeDisplay,
)
    requires
        window_fits(*json, keys(percentage_path@), keys(resets_path@), now as int, time),
    ensures
        final(segments)@.len() == old(segments)@.len() + window_segments(
            *json,
            fallback_label@,
            keys(percentage_path@),
            keys(resets_path@),
            now as int,
            time,
        ).len(),
        final(segments)@.subrange(0, old(segments)@.len() as int) == old(segments)@,
        texts(final(segments)@) == texts(old(segments)@) + window_segments(
            *json,
            fallback_label@,
            keys(percentage_path@),
            keys(resets_path@),
            now as int,
            time,
        ),
{
    let ghost before = segments@;
    let value = match percentage_at(json, percentage_path) {
        Some(v) => v,
        None => {
            assert(texts(segments@) =~= texts(before) + window_segments(
                *json,
                fallback_label@,
                keys(percentage_path@),
                keys(resets_path@),
                now as int,
                time,
            ));
            return;
        },
    };
    let countdown = match epoch_at(json, resets_path) {
        Some(resets_at) => remaining_label(time, resets_at, now),
        None => None,
    };
    let label = match countdown {
        Some(c) => c,
        None => fallback_label.to_owned(),
    };
    assert(label@ == window_label(*json, fallback_label@, keys(resets_path@), now as int, time));
    segments.push(format_percentage_segment(label.as_str(), value));
    assert(texts(segments@) =~= texts(before) + window_segments(
        *json,
        fallback_label@,
        keys(percentage_path@),
        keys(resets_path@),
        now as int,
        time,
    ));
}

/// The usage segment of a per-model limit.
fn limit_segment(limit: &ScopedLimit, now: i64, time: TimeDisplay) -> (r: String)
    requires
        limit_resets_at(limit@) is Some ==> countdown_fits(time, limit_resets_at(limit@)->0, now as int),
    ensures
        r@ == percentage_segment(limit_label(limit@, now as int, time), limit.percent@),
{
    let resets_at = match &limit.resets_at {
        Some(text) => parse_iso8601(text.as_str()),
        None => None,
    };
    let countdown = match resets_at {
        Some(t) => remaining_label(time, t, now),
        None => None,
    };
    let mut label = String::new();
    match countdown {
        Some(c) => {
            label.append(c.as_str());
            label.append(" ");
        },
        None => {
            label.append("7d ");
        },
    }
    label.append(limit.name.as_str());
    assert(label@ =~= limit_label(limit@, now as int, time));
    format_percentage_segment(label.as_str(), &limit.percent)
}

/// The two rows of segments, given what the payload alone does not tell: the
/// workspace directory as shown, the active branch, and the per-model limits.
pub fn status_rows(
    json: &JsonValue,
    now: i64,
    time: TimeDisplay,
    dir: Option<String>,
    branch: Option<String>,
    limits: &Vec<ScopedLimit>,
) -> (r: (Vec<String>, Vec<String>))
    requires
        countdowns_fit(*json, now as int, time, limit_views(limits@)),
    ensures
        texts(r.0@) == top_row(opt_text(dir), opt_text(branch)),
        texts(r.1@) == bottom_row(*json, now as int, time, limit_views(limits@)),
{
    let mut top: Vec<String> = Vec::new();
    match dir {
        Some(dir) => {
            top.push(format_dir_segment(dir.as_str()));
            top.push(format_separator_segment());
            top.push(
                match branch {
                    Some(branch) => format_branch_segment(branch.as_str()),
                    None => format_no_branch_segment(),
                },
            );
        },
        None => {
            if let Some(branch) = branch {
                top.push(format_branch_segment(branch.as_str()));
            }
        },
    }
    assert(texts(top@) =~= top_row(opt_text(dir), opt_text(branch)));

    let mut segments: Vec<String> = Vec::new();
    let model_path = ["model", "display_name"];
    let effort_path = ["effort", "level"];
    assert(keys(model_path@) =~= seq!["model"@, "display_name"@]);
    assert(keys(effort_path@) =~= seq!["effort"@, "level"@]);
    if let (Some(model_name), Some(effort_level)) = (
        string_at(json, &model_path),
        string_at(json, &effort_path),
    ) {
        segments.push(format_model_segment(model_name, effort_level));
    }
    assert(texts(segments@) =~= model_segments(*json));

    let ctx_path = ["context_window", "used_percentage"];
    assert(keys(ctx_path@) =~= seq!["context_window"@, "used_percentage"@]);
    add_percentage_segment(&mut segments, json, "ctx", &ctx_path);

    let five_pct = ["rate_limits", "five_hour", "used_percentage"];
    let five_resets = ["rate_limits", "five_hour", "resets_at"];
    assert(keys(five_pct@) =~= five_hour_percentage());
    assert(keys(five_resets@) =~= five_hour_resets());
    add_window_segment(&mut segments, json, "5h", &five_pct, &five_resets, now, time);

    let seven_pct = ["rate_limits", "seven_day", "used_percentage"];
    let seven_resets = ["rate_limits", "seven_day", "resets_at"];
    assert(keys(seven_pct@) =~= seven_day_percentage());
    assert(keys(seven_resets@) =~= seven_day_resets());
    add_window_segment(&mut segments, json, "7d", &seven_pct, &seven_resets, now, time);

    let ghost before = segments@;
    let ghost views = limit_views(limits@);
    let n = limits.len();
    let mut i: usize = 0;
    while i < n
        invariant
            n == limits@.len(),
            i <= n,
            views == limit_views(limits@),
            countdowns_fit(*json, now as int, time, views),
            texts(segments@) == texts(before) + limit_segments(views.take(i as int), now as int, time),
        decreases n - i,
    {
        assert(views[i as int] == limits@[i as int]@);
        assert(limit_resets_at(views[i as int]) is Some ==> countdown_fits(
            time,
            limit_resets_at(views[i as int])->0,
            now as int,
        ));
        let ghost prev = segments@;
        segments.push(limit_segment(&limits[i], now, time));
        assert(views.take(i + 1) =~= views.take(i as int).push(views[i as int]));
        assert(texts(segments@) =~= texts(prev).push(segments@.last()@));
        assert(limit_segments(views.take(i + 1), now as int, time) =~= limit_segments(
            views.take(i as int),
            now as int,
            time,
        ).push(percentage_segment(limit_label(views[i as int], now as int, time), views[i as int].1)));
        i = i + 1;
    }
    assert(views.take(n as int) =~= views);
    assert(texts(segments@) =~= bottom_row(*json, now as int, time, views));
    (top, segments)
}

/// Whether a countdown from `now` to `resets_at` can be computed.
fn countdown_in_range(time: TimeDisplay, resets_at: i64, now: i64) -> (r: bool)
    ensures
        r == countdown_fits(time, resets_at as int, now as int),
{
    match time {
        TimeDisplay::Static => true,
        _ => resets_at.checked_sub(now).is_some(),
    }
}

fn window_in_range(json: &JsonValue, percentage_path: &[&str], resets_path: &[&str], now: i64, time: TimeDisplay) -> (r: bool)
    ensures
        r == window_fits(*json, keys(percentage_path@), keys(resets_path@), now as int, time),
{
    match (percentage_at(json, percentage_path), epoch_at(json, resets_path)) {
        (Some(_), Some(resets_at)) => countdown_in_range(time, resets_at, now),
        _ => true,
    }
}

/// Whether every countdown the status line would show can be computed
/// without overflow, the per-model limits being `limits`.
pub fn countdowns_in_range(json: &JsonValue, now: i64, time: TimeDisplay, limits: &Vec<ScopedLimit>) -> (r: bool)
    ensures
        r == countdowns_fit(*json, now as int, time, limit_views(limits@)),
{
    let five_pct = ["rate_limits", "five_hour", "used_percentage"];
    let five_resets = ["rate_limits", "five_hour", "resets_at"];
    let seven_pct = ["rate_limits", "seven_day", "used_percentage"];
    let seven_resets = ["rate_limits", "seven_day", "resets_at"];
    assert(keys(five_pct@) =~= five_hour_percentage());
    assert(keys(five_resets@) =~= five_hour_resets());
    assert(keys(seven_pct@) =~= seven_day_percentage());
    assert(keys(seven_resets@) =~= seven_day_resets());
    if !window_in_range(json, &five_pct, &five_resets, now, time) {
        return false;
    }
    if !window_in_range(json, &seven_pct, &seven_resets, now, time) {
        return false;
    }
    let ghost views = limit_views(limits@);
    let n = limits.len();
    let mut i: usize = 0;
    while i < n
        invariant
            n == limits@.len(),
            i <= n,
            views == limit_views(limits@),
            forall|k: int|
                0 <= k < i && (#[trigger] limit_resets_at(views[k])) is Some ==> countdown_fits(
                    time,
                    limit_resets_at(views[k])->0,
                    now as int,
                ),
        decreases n - i,
    {
        assert(views[i as int] == limits@[i as int]@);
        let resets_at = match &limits[i].resets_at {
            Some(text) => parse_iso8601(text.as_str()),
            None => None,
        };
        assert(limit_resets_at(views[i as int]) == (match resets_at {
            Some(t) => Some(t as int),
            None => None,
        }));
        if let Some(t) = resets_at {
            if !countdown_in_range(time, t, now) {
                assert(!countdowns_fit(*json, now as int, time, views)) by {
                    assert(limit_resets_at(views[i as int]) is Some);
                }
                return false;
            }
        }
        i = i + 1;
    }
    true
}

/// Two rows: workspace dir and branch on top, usage and model below. The host
/// application renders each line of output as its own status row. `home` is the home
/// directory, shown as `~`; `git_branch` finds the branch checked out in a
/// directory; `usage_cache` is the cached usage snapshot, as read when
/// `needs_usage_cache` says so.
pub fn status_lines<F>(
    json: &JsonValue,
    now: i64,
    time: TimeDisplay,
    home: Option<&str>,
    git_branch: F,
    usage_cache: Option<&JsonValue>,
) -> (r: (Vec<String>, Vec<String>)) where F: Fn(&str) -> Option<String>
    requires
        forall|d: &str| call_requires(git_branch, (d,)),
        countdowns_fit(
            *json,
            now as int,
            time,
            spec_model_scoped_limits(*json, opt_json(usage_cache)),
        ),
    ensures
        exists|branch: Option<Seq<char>>|
            #![trigger branch_outcome(*json, git_branch, branch)]
            branch_outcome(*json, git_branch, branch) && texts(r.0@) == top_row(
                spec_workspace_dir(*json, opt_str(home)),
                branch,
            ) && texts(r.1@) == bottom_row(
                *json,
                now as int,
                time,
                spec_model_scoped_limits(*json, opt_json(usage_cache)),
            ),
{
    let dir = workspace_dir_with(json, home);
    let branch = active_branch_with(json, git_branch);
    let limits = model_scoped_limits_with(json, usage_cache);
    let r = status_rows(json, now, time, dir, branch, &limits);
    assert(branch_outcome(*json, git_branch, opt_text(branch)));
    r
}

/// An optional borrowed document, as a value.
pub open spec fn opt_json(v: Option<&JsonValue>) -> Option<JsonValue> {
    match v {
        Some(j) => Some(*j),
        None => None,
    }
}

/// The rows that have segments, each joined by spaces, the rows by a newline;
/// `None` when neither row has a segment.
pub fn render_rows(top: &Vec<String>, bottom: &Vec<String>) -> (r: Option<String>)
    ensures
        opt_text(r) == rendered(texts(top@), texts(bottom@)),
{
    let mut lines: Vec<String> = Vec::new();
    if top.len() != 0 {
        lines.push(join_strings(top, " "));
    }
    if bottom.len() != 0 {
        lines.push(join_strings(bottom, " "));
    }
    if lines.len() == 0 {
        None
    } else {
        let r = join_strings(&lines, "\n");
        proof {
            let ls = texts(lines@);
            if ls.len() == 2 {
                assert(ls.drop_last().len() == 1);
                assert(join(ls, "\n"@) == join(ls.drop_last(), "\n"@) + "\n"@ + ls.last());
            }
        }
        Some(r)
    }
}

/// The status line: the rows that have segments, joined by a newline; `None`
/// when no segment can be built.
pub fn format_status_line_with<F>(
    json: &JsonValue,
    now: i64,
    time: TimeDisplay,
    home: Option<&str>,
    git_branch: F,
    usage_cache: Option<&JsonValue>,
) -> (r: Option<String>) where F: Fn(&str) -> Option<String>
    requires
        forall|d: &str| call_requires(git_branch, (d,)),
        countdowns_fit(
            *json,
            now as int,
            time,
            spec_model_scoped_limits(*json, opt_json(usage_cache)),
        ),
    ensures
        exists|branch: Option<Seq<char>>|
            #![trigger branch_outcome(*json, git_branch, branch)]
            branch_outcome(*json, git_branch, branch) && opt_text(r) == rendered(
                top_row(spec_workspace_dir(*json, opt_str(home)), branch),
                bottom_row(
                    *json,
                    now as int,
                    time,
                    spec_model_scoped_limits(*json, opt_json(usage_cache)),
                ),
            ),
{
    let rows = status_lines(json, now, time, home, git_branch, usage_cache);
    render_rows(&rows.0, &rows.1)
}

} // verus!
