use crate::text::{
    append_decimal, decimal, eq_ascii_case_insensitive, eq_ignore_ascii_case, opt_str, opt_text, trim,
    trim_whitespace,
};
use vstd::prelude::*;
use vstd::string::*;

verus! {

/// How rate-limit window labels render the time remaining until the window
/// resets.
#[derive(Clone, Copy, PartialEq, Eq, Debug)]
pub enum TimeDisplay {
    /// Two largest non-zero units (`4h12m`). Default.
    Normal,
    /// Static labels only (`5h`, `7d`), no countdown.
    Static,
    /// Single largest unit (`4h`).
    Short,
}

/// The display mode a setting selects: `none` and `short` (surrounding
/// whitespace and ASCII case aside) select those modes; anything else, and no
/// setting at all, selects `Normal`.
pub open spec fn spec_time_display(value: Option<Seq<char>>) -> TimeDisplay {
    match value {
        Some(v) => {
            let t = trim_whitespace(v);
            if eq_ascii_case_insensitive(t, "none"@) {
                TimeDisplay::Static
            } else if eq_ascii_case_insensitive(t, "short"@) {
                TimeDisplay::Short
            } else {
                TimeDisplay::Normal
            }
        },
        None => TimeDisplay::Normal,
    }
}

/// Unset, `normal`, or anything unrecognized means `Normal`, so a typo
/// degrades to the default rather than hiding information.
pub fn time_display_from(value: Option<&str>) -> (r: TimeDisplay)
    ensures
        r == spec_time_display(opt_str(value)),
{
    match value {
        Some(v) => {
            let t = trim(v);
            if eq_ignore_ascii_case(t, "none") {
                TimeDisplay::Static
            } else if eq_ignore_ascii_case(t, "short") {
                TimeDisplay::Short
            } else {
                TimeDisplay::Normal
            }
        },
        None => TimeDisplay::Normal,
    }
}

/// Whole days in `secs`.
pub open spec fn days_part(secs: int) -> int {
    secs / 86_400
}

/// Whole hours left over after the days.
pub open spec fn hours_part(secs: int) -> int {
    (secs % 86_400) / 3_600
}

/// Whole minutes left over after the hours.
pub open spec fn minutes_part(secs: int) -> int {
    (secs % 3_600) / 60
}

/// The two largest units of the time remaining, the second dropped when zero;
/// `<1m` at or below one minute.
pub open spec fn remaining_text(secs: int) -> Seq<char> {
    let days = days_part(secs);
    let hours = hours_part(secs);
    let minutes = minutes_part(secs);
    if secs <= 60 {
        "<1m"@
    } else if days > 0 {
        if hours > 0 {
            decimal(days as nat) + "d"@ + decimal(hours as nat) + "h"@
        } else {
            decimal(days as nat) + "d"@
        }
    } else if hours > 0 {
        if minutes > 0 {
            decimal(hours as nat) + "h"@ + decimal(minutes as nat) + "m"@
        } else {
            decimal(hours as nat) + "h"@
        }
    } else {
        decimal(minutes as nat) + "m"@
    }
}

/// The largest non-zero unit of the time remaining; `<1m` at or below one
/// minute.
pub open spec fn remaining_short_text(secs: int) -> Seq<char> {
    let days = days_part(secs);
    let hours = hours_part(secs);
    let minutes = minutes_part(secs);
    if secs <= 60 {
        "<1m"@
    } else if days > 0 {
        decimal(days as nat) + "d"@
    } else if hours > 0 {
        decimal(hours as nat) + "h"@
    } else {
        decimal(minutes as nat) + "m"@
    }
}

fn unit_text(n: i64, unit: &str) -> (r: String)
    requires
        n >= 0,
    ensures
        r@ == decimal(n as nat) + unit@,
{
    let mut r = String::new();
    append_decimal(&mut r, n as u64);
    r.append(unit);
    r
}

fn under_a_minute() -> (r: String)
    ensures
        r@ == "<1m"@,
{
    let mut r = String::new();
    r.append("<1m");
    r
}

/// Compact remaining time using the two largest non-zero units (e.g. `4h12m`,
/// `6d3h`, `47m`). A zero secondary unit is dropped (`6d`, `1h`). Anything at or
/// below one minute — including already-expired windows — renders `<1m`.
pub fn format_remaining(secs: i64) -> (r: String)
    ensures
        r@ == remaining_text(secs as int),
{
    if secs <= 60 {
        return under_a_minute();
    }
    let days = secs / 86_400;
    let hours = (secs % 86_400) / 3_600;
    let minutes = (secs % 3_600) / 60;

    if days > 0 {
        let mut r = unit_text(days, "d");
        if hours > 0 {
            let h = unit_text(hours, "h");
            r.append(h.as_str());
        }
        r
    } else if hours > 0 {
        let mut r = unit_text(hours, "h");
        if minutes > 0 {
            let m = unit_text(minutes, "m");
            r.append(m.as_str());
        }
        r
    } else {
        unit_text(minutes, "m")
    }
}

/// Like `format_remaining`, but only the single largest non-zero unit
/// (e.g. `4h`, `6d`, `47m`).
pub fn format_remaining_short(secs: i64) -> (r: String)
    ensures
        r@ == remaining_short_text(secs as int),
{
    if secs <= 60 {
        return under_a_minute();
    }
    let days = secs / 86_400;
    let hours = (secs % 86_400) / 3_600;
    let minutes = (secs % 3_600) / 60;

    if days > 0 {
        unit_text(days, "d")
    } else if hours > 0 {
        unit_text(hours, "h")
    } else {
        unit_text(minutes, "m")
    }
}

/// Whether the countdown for a window resetting at `resets_at` can be computed
/// without the subtraction overflowing (no countdown is computed in `Static`
/// mode).
pub open spec fn countdown_fits(time: TimeDisplay, resets_at: int, now: int) -> bool {
    time == TimeDisplay::Static || i64::MIN <= resets_at - now <= i64::MAX
}

/// The countdown label of a window resetting at `resets_at`, per mode.
pub open spec fn spec_remaining_label(time: TimeDisplay, resets_at: int, now: int) -> Option<Seq<char>> {
    match time {
        TimeDisplay::Static => None,
        TimeDisplay::Normal => Some(remaining_text(resets_at - now)),
        TimeDisplay::Short => Some(remaining_short_text(resets_at - now)),
    }
}

/// Countdown text for a window resetting at `resets_at`, per the display mode.
/// `None` means the static fallback label should be used instead.
pub fn remaining_label(time: TimeDisplay, resets_at: i64, now: i64) -> (r: Option<String>)
    requires
        countdown_fits(time, resets_at as int, now as int),
    ensures
        opt_text(r) == spec_remaining_label(time, resets_at as int, now as int),
{
    match time {
        TimeDisplay::Static => None,
        TimeDisplay::Normal => Some(format_remaining(resets_at - now)),
        TimeDisplay::Short => Some(format_remaining_short(resets_at - now)),
    }
}

} // verus!
