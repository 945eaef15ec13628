use crate::branch::{branch_outcome, worktree_branch};
use crate::calendar::{
    civil_day_number, days_before_year, is_leap_year, lemma_leap_years_step, month_length,
    spec_days_from_civil,
};
use crate::json::{spec_array_at, spec_epoch_at, spec_percentage_at, spec_string_at, JsonValue};
use crate::limits::{
    cached_entry, filter_map_seq, payload_entry, spec_model_scoped_limits, spec_needs_usage_cache,
    spec_payload_model_scoped, LimitView,
};
use crate::number::{digits_number, is_decimal_digits, whole_value, WholeView};
use crate::segments::{
    branch_segment, dir_segment, is_path_separator, no_branch_segment, path_separator,
    percentage_segment, separator_segment, spec_tildify, spec_workspace_dir, ANSI_BG_GREEN,
    ANSI_BG_RED, ANSI_BG_YELLOW,
};
use crate::status::{
    bottom_row, five_hour_percentage, five_hour_resets, limit_resets_at, limit_segments,
    model_segments, percentage_segments, rendered, seven_day_percentage, seven_day_resets, top_row,
    window_segments,
};
use crate::text::{decimal, digit_char, is_prefix, join, trim_end_by};
use crate::time::{remaining_short_text, remaining_text, TimeDisplay};
use crate::timestamp::{
    all_digits, digits_value, field, is_digit, iso_punctuation, skip_digits, spec_parse_iso8601,
    spec_tz_offset, zone_of,
};
use vstd::arithmetic::div_mod::lemma_fundamental_div_mod_converse;
use vstd::prelude::*;
use vstd::string::*;

verus! {

/// The single-unit countdown is always the start of the two-unit countdown.
pub proof fn law_short_countdown_starts_the_full_one(secs: int)
    ensures
        is_prefix(remaining_short_text(secs), remaining_text(secs)),
{
    let s = remaining_short_text(secs);
    let t = remaining_text(secs);
    assert(t.subrange(0, s.len() as int) =~= s);
}

/// Anything at or below one minute, expired windows included, reads `<1m`.
pub proof fn law_countdown_under_a_minute(secs: int)
    requires
        secs <= 60,
    ensures
        remaining_text(secs) == "<1m"@,
        remaining_short_text(secs) == "<1m"@,
{
}

/// A decimal digit's character is `'0'` advanced by the digit's value.
pub proof fn law_digit_characters(d: nat)
    requires
        d < 10,
    ensures
        '0' <= digit_char(d) <= '9',
        digit_char(d) as int - '0' as int == d,
{
}

/// The digits written for `n` are its base-10 numeral: ASCII digits, no
/// leading zero, and read back they give `n` again.
pub proof fn law_decimal_denotes_its_number(n: nat)
    ensures
        is_decimal_digits(decimal(n)),
        digits_number(decimal(n)) == n,
        n > 0 ==> decimal(n)[0] != '0',
    decreases n,
{
    if n < 10 {
        law_digit_characters(n);
        assert(decimal(n).drop_last() =~= Seq::<char>::empty());
        assert(digits_number(Seq::<char>::empty()) == 0);
        assert(decimal(n).last() == digit_char(n));
    } else {
        let q = (n / 10) as nat;
        law_decimal_denotes_its_number(q);
        law_digit_characters(n % 10);
        assert(decimal(n).drop_last() =~= decimal(q));
        assert(decimal(n).last() == digit_char((n % 10) as nat));
        assert(digits_number(decimal(n)) == digits_number(decimal(q)) * 10 + (n % 10));
        assert(n == q * 10 + n % 10);
        assert(decimal(n)[0] == decimal(q)[0]);
        assert forall|i: int| 0 <= i < decimal(n).len() implies '0' <= #[trigger] decimal(n)[i] <= '9' by {
            if i < decimal(q).len() {
                assert(decimal(n)[i] == decimal(q)[i]);
            }
        }
    }
}

/// A countdown of more than a minute splits the time into days, hours (under
/// 24), minutes (under 60) and seconds (under 60) and shows the two largest
/// units, the second dropped when zero; the short countdown shows the largest.
pub proof fn law_countdown_units(secs: int, d: nat, h: nat, m: nat, s: nat)
    requires
        secs > 60,
        h < 24,
        m < 60,
        s < 60,
        secs == d * 86_400 + h * 3_600 + m * 60 + s,
    ensures
        d > 0 ==> remaining_text(secs) == decimal(d) + "d"@ + (if h > 0 {
            decimal(h) + "h"@
        } else {
            Seq::<char>::empty()
        }),
        d == 0 && h > 0 ==> remaining_text(secs) == decimal(h) + "h"@ + (if m > 0 {
            decimal(m) + "m"@
        } else {
            Seq::<char>::empty()
        }),
        d == 0 && h == 0 ==> remaining_text(secs) == decimal(m) + "m"@,
        remaining_short_text(secs) == (if d > 0 {
            decimal(d) + "d"@
        } else if h > 0 {
            decimal(h) + "h"@
        } else {
            decimal(m) + "m"@
        }),
{
    let within_minute: int = (m * 60 + s) as int;
    let within_day: int = (h * 3_600) as int + within_minute;
    lemma_fundamental_div_mod_converse(secs, 86_400, d as int, within_day);
    lemma_fundamental_div_mod_converse(within_day, 3_600, h as int, within_minute);
    lemma_fundamental_div_mod_converse(secs, 3_600, (d * 24 + h) as int, within_minute);
    lemma_fundamental_div_mod_converse(within_minute, 60, m as int, s as int);
    if d > 0 && h == 0 {
        assert(decimal(d) + "d"@ + Seq::<char>::empty() =~= decimal(d) + "d"@);
    }
    if d == 0 && h > 0 && m == 0 {
        assert(decimal(h) + "h"@ + Seq::<char>::empty() =~= decimal(h) + "h"@);
    }
}

/// 1970-01-01 is day zero.
pub proof fn law_epoch_is_day_zero()
    ensures
        civil_day_number(1970, 1, 1) == 0,
{
}

/// A year has 366 days when it is a leap year and 365 otherwise.
pub proof fn law_year_length(y: int)
    ensures
        days_before_year(y + 1) - days_before_year(y) == (if is_leap_year(y) { 366int } else { 365 }),
{
    lemma_leap_years_step(y);
}

/// The first day of a month follows the last day of the month before, and
/// January 1st follows December 31st of the year before.
pub proof fn law_months_follow_each_other(y: int, m: int)
    requires
        1 <= m <= 12,
    ensures
        m < 12 ==> civil_day_number(y, m + 1, 1) == civil_day_number(y, m, month_length(y, m)) + 1,
        m == 12 ==> civil_day_number(y + 1, 1, 1) == civil_day_number(y, 12, 31) + 1,
{
    lemma_leap_years_step(y);
}

/// Every real date has its day number and no other day does: a day `1..=`
/// the month's length gets `civil_day_number`, any other day gets `None`.
/// Months have 28 to 31 days, and a year's months fill it exactly.
pub proof fn law_real_dates_have_day_numbers(y: int, m: int, d: int)
    requires
        1 <= m <= 12,
    ensures
        1 <= d <= month_length(y, m) ==> spec_days_from_civil(y, m, d) == Some(civil_day_number(y, m, d)),
        !(1 <= d <= month_length(y, m)) ==> spec_days_from_civil(y, m, d) is None,
        28 <= month_length(y, m) <= 31,
        civil_day_number(y, 12, month_length(y, 12)) - civil_day_number(y, 1, 1) + 1 == (if is_leap_year(y) {
            366int
        } else {
            365
        }),
{
}

/// The payload's own per-model limits win: the cache makes no difference then.
pub proof fn law_payload_limits_win(json: JsonValue, cache: Option<JsonValue>)
    requires
        spec_payload_model_scoped(json) is Some,
    ensures
        spec_model_scoped_limits(json, cache) == spec_payload_model_scoped(json)->0,
{
}

/// The usage cache matters only when it is to be read: otherwise any cache
/// gives the same limits as none.
pub proof fn law_cache_read_only_when_needed(json: JsonValue, cache: Option<JsonValue>)
    requires
        !spec_needs_usage_cache(json),
    ensures
        spec_model_scoped_limits(json, cache) == spec_model_scoped_limits(json, None),
{
}

/// A worktree branch named in the payload is the active branch, whatever git
/// would say.
pub proof fn law_worktree_branch_wins<F: Fn(&str) -> Option<String>>(
    json: JsonValue,
    git: F,
    branch: Option<Seq<char>>,
)
    requires
        worktree_branch(json) is Some,
    ensures
        branch_outcome(json, git, branch) <==> branch == worktree_branch(json),
{
}

proof fn lemma_filter_map_keeps<A, B>(s: Seq<A>, f: spec_fn(A) -> Option<B>, i: int)
    requires
        0 <= i < s.len(),
        f(s[i]) is Some,
    ensures
        filter_map_seq(s, f).contains(f(s[i])->0),
    decreases s.len(),
{
    let prev = filter_map_seq(s.drop_last(), f);
    if i == s.len() - 1 {
        assert(filter_map_seq(s, f) == prev.push(f(s[i])->0));
        assert(filter_map_seq(s, f)[prev.len() as int] == f(s[i])->0);
    } else {
        assert(s.drop_last()[i] == s[i]);
        lemma_filter_map_keeps(s.drop_last(), f, i);
        let j = choose|j: int| 0 <= j < prev.len() && prev[j] == f(s[i])->0;
        assert(filter_map_seq(s, f)[j] == f(s[i])->0);
    }
}

proof fn lemma_filter_map_all<A, B>(s: Seq<A>, f: spec_fn(A) -> Option<B>)
    requires
        forall|i: int| 0 <= i < s.len() ==> (#[trigger] f(s[i])) is Some,
    ensures
        filter_map_seq(s, f).len() == s.len(),
        forall|i: int| 0 <= i < s.len() ==> filter_map_seq(s, f)[i] == (#[trigger] f(s[i]))->0,
    decreases s.len(),
{
    if s.len() > 0 {
        let t = s.drop_last();
        assert forall|i: int| 0 <= i < t.len() implies (#[trigger] f(t[i])) is Some by {
            assert(t[i] == s[i]);
        }
        lemma_filter_map_all(t, f);
        assert(f(s[s.len() - 1]) is Some);
        assert forall|i: int| 0 <= i < s.len() implies filter_map_seq(s, f)[i] == (#[trigger] f(s[i]))->0 by {
            if i < t.len() {
                assert(t[i] == s[i]);
                assert(f(t[i]) is Some);
            }
        }
    }
}

/// A cache entry that is shown: kind `weekly_scoped`, a string
/// `scope.model.display_name` and a numeric `percent`, whatever its value.
pub open spec fn complete_weekly_entry(e: JsonValue) -> bool {
    &&& spec_string_at(e, seq!["kind"@]) == Some("weekly_scoped"@)
    &&& spec_string_at(e, seq!["scope"@, "model"@, "display_name"@]) is Some
    &&& spec_percentage_at(e, seq!["percent"@]) is Some
}

/// The limit a complete weekly cache entry shows: its model's name, its
/// percentage and its reset time as written.
pub open spec fn weekly_entry_limit(e: JsonValue) -> LimitView {
    (
        spec_string_at(e, seq!["scope"@, "model"@, "display_name"@])->0,
        spec_percentage_at(e, seq!["percent"@])->0,
        spec_string_at(e, seq!["resets_at"@]),
    )
}

/// When the usage cache is read, every complete weekly entry of its snapshot
/// is shown as a limit, a zero percentage included; when every entry is
/// complete, the limits are the entries one for one, in order.
pub proof fn law_cached_weekly_entries_are_shown(json: JsonValue, cache: JsonValue, items: Seq<JsonValue>)
    requires
        spec_needs_usage_cache(json),
        spec_array_at(cache, seq!["cachedUsageUtilization"@, "utilization"@, "limits"@]) == Some(items),
    ensures
        forall|i: int|
            0 <= i < items.len() && complete_weekly_entry(#[trigger] items[i]) ==> spec_model_scoped_limits(
                json,
                Some(cache),
            ).contains(weekly_entry_limit(items[i])),
        (forall|i: int| 0 <= i < items.len() ==> complete_weekly_entry(#[trigger] items[i])) ==> {
            &&& spec_model_scoped_limits(json, Some(cache)).len() == items.len()
            &&& forall|i: int|
                0 <= i < items.len() ==> spec_model_scoped_limits(json, Some(cache))[i]
                    == weekly_entry_limit(#[trigger] items[i])
        },
{
    let f = |e: JsonValue| cached_entry(e);
    assert(spec_model_scoped_limits(json, Some(cache)) == filter_map_seq(items, f));
    assert forall|i: int| 0 <= i < items.len() && complete_weekly_entry(#[trigger] items[i]) implies spec_model_scoped_limits(
        json,
        Some(cache),
    ).contains(weekly_entry_limit(items[i])) by {
        assert(f(items[i]) == Some(weekly_entry_limit(items[i])));
        lemma_filter_map_keeps(items, f, i);
    }
    if forall|i: int| 0 <= i < items.len() ==> complete_weekly_entry(#[trigger] items[i]) {
        assert forall|i: int| 0 <= i < items.len() implies (#[trigger] f(items[i])) is Some by {
            assert(complete_weekly_entry(items[i]));
        }
        lemma_filter_map_all(items, f);
        assert forall|i: int| 0 <= i < items.len() implies spec_model_scoped_limits(json, Some(cache))[i]
            == weekly_entry_limit(#[trigger] items[i]) by {
            assert(complete_weekly_entry(items[i]));
            assert(f(items[i]) == Some(weekly_entry_limit(items[i])));
        }
    }
}

/// An entry of the payload's `rate_limits.model_scoped` that is shown: a
/// string `display_name` and a numeric `utilization`, whatever its value.
pub open spec fn complete_payload_entry(e: JsonValue) -> bool {
    &&& spec_string_at(e, seq!["display_name"@]) is Some
    &&& spec_percentage_at(e, seq!["utilization"@]) is Some
}

/// The limit a complete payload entry shows.
pub open spec fn payload_entry_limit(e: JsonValue) -> LimitView {
    (
        spec_string_at(e, seq!["display_name"@])->0,
        spec_percentage_at(e, seq!["utilization"@])->0,
        spec_string_at(e, seq!["resets_at"@]),
    )
}

/// Every complete entry of the payload's `rate_limits.model_scoped` is shown
/// as a limit, whatever its percentage and whatever the cache holds; when
/// every entry is complete, the limits are the entries one for one, in order.
pub proof fn law_payload_entries_are_shown(json: JsonValue, cache: Option<JsonValue>, items: Seq<JsonValue>)
    requires
        spec_array_at(json, seq!["rate_limits"@, "model_scoped"@]) == Some(items),
    ensures
        forall|i: int|
            0 <= i < items.len() && complete_payload_entry(#[trigger] items[i]) ==> spec_model_scoped_limits(
                json,
                cache,
            ).contains(payload_entry_limit(items[i])),
        (forall|i: int| 0 <= i < items.len() ==> complete_payload_entry(#[trigger] items[i])) ==> {
            &&& spec_model_scoped_limits(json, cache).len() == items.len()
            &&& forall|i: int|
                0 <= i < items.len() ==> spec_model_scoped_limits(json, cache)[i] == payload_entry_limit(
                    #[trigger] items[i],
                )
        },
{
    let f = |e: JsonValue| payload_entry(e);
    assert(spec_model_scoped_limits(json, cache) == filter_map_seq(items, f));
    assert forall|i: int| 0 <= i < items.len() && complete_payload_entry(#[trigger] items[i]) implies spec_model_scoped_limits(
        json,
        cache,
    ).contains(payload_entry_limit(items[i])) by {
        assert(f(items[i]) == Some(payload_entry_limit(items[i])));
        lemma_filter_map_keeps(items, f, i);
    }
    if forall|i: int| 0 <= i < items.len() ==> complete_payload_entry(#[trigger] items[i]) {
        assert forall|i: int| 0 <= i < items.len() implies (#[trigger] f(items[i])) is Some by {
            assert(complete_payload_entry(items[i]));
        }
        lemma_filter_map_all(items, f);
        assert forall|i: int| 0 <= i < items.len() implies spec_model_scoped_limits(json, cache)[i]
            == payload_entry_limit(#[trigger] items[i]) by {
            assert(complete_payload_entry(items[i]));
            assert(f(items[i]) == Some(payload_entry_limit(items[i])));
        }
    }
}

/// Usage segments are green up to 50%, yellow up to 80% and red above.
pub proof fn law_usage_colours(label: Seq<char>, percent: WholeView)
    ensures
        whole_value(percent) <= 50 ==> is_prefix(ANSI_BG_GREEN@, percentage_segment(label, percent)),
        50 < whole_value(percent) <= 80 ==> is_prefix(
            ANSI_BG_YELLOW@,
            percentage_segment(label, percent),
        ),
        80 < whole_value(percent) ==> is_prefix(ANSI_BG_RED@, percentage_segment(label, percent)),
{
    let seg = percentage_segment(label, percent);
    if whole_value(percent) <= 50 {
        assert(seg.subrange(0, ANSI_BG_GREEN@.len() as int) =~= ANSI_BG_GREEN@);
    } else if whole_value(percent) <= 80 {
        assert(seg.subrange(0, ANSI_BG_YELLOW@.len() as int) =~= ANSI_BG_YELLOW@);
    } else {
        assert(seg.subrange(0, ANSI_BG_RED@.len() as int) =~= ANSI_BG_RED@);
    }
}

/// A path inside the home directory (or the home directory itself) is shown
/// relative to `~`.
pub proof fn law_home_shown_as_tilde(home: Seq<char>, rest: Seq<char>)
    requires
        home.len() > 0,
        !is_path_separator(home.last()),
        rest.len() == 0 || is_path_separator(rest[0]),
    ensures
        spec_tildify(home + rest, Some(home)) == "~"@ + rest,
{
    assert(trim_end_by(home, path_separator()) == home);
    assert((home + rest).subrange(0, home.len() as int) =~= home);
    assert((home + rest).skip(home.len() as int) =~= rest);
    if rest.len() == 0 {
        assert("~"@ + rest =~= "~"@);
    }
}

/// Trailing separators of the home directory make no difference.
pub proof fn law_home_trailing_separator(path: Seq<char>, home: Seq<char>, sep: char)
    requires
        sep == '/' || sep == '\\',
    ensures
        spec_tildify(path, Some(home.push(sep))) == spec_tildify(path, Some(home)),
{
    assert(home.push(sep).drop_last() =~= home);
    assert(trim_end_by(home.push(sep), path_separator()) == trim_end_by(home, path_separator()));
}

/// A fraction of a second: a `.` and at least one digit.
pub open spec fn fraction_bytes(f: Seq<u8>) -> bool {
    f.len() >= 2 && f[0] == 46 && all_digits(f.drop_first())
}

proof fn lemma_skip_digits_prefix(d: Seq<u8>, t: Seq<u8>)
    requires
        all_digits(d),
    ensures
        skip_digits(d + t) == skip_digits(t),
    decreases d.len(),
{
    if d.len() > 0 {
        assert((d + t)[0] == d[0]);
        assert((d + t).drop_first() =~= d.drop_first() + t);
        assert(all_digits(d.drop_first())) by {
            assert forall|i: int| 0 <= i < d.drop_first().len() implies is_digit(
                #[trigger] d.drop_first()[i],
            ) by {
                assert(d.drop_first()[i] == d[i + 1]);
            }
        }
        lemma_skip_digits_prefix(d.drop_first(), t);
    } else {
        assert(d + t =~= t);
    }
}

/// A zone that neither starts with a digit nor with `.`.
pub open spec fn plain_zone(zone: Seq<u8>) -> bool {
    zone.len() == 0 || (!is_digit(zone[0]) && zone[0] != 46)
}

proof fn lemma_same_date_and_time(stamp: Seq<u8>, a: Seq<u8>, b: Seq<u8>)
    requires
        stamp.len() == 19,
        a.len() >= 19,
        b.len() >= 19,
        a.subrange(0, 19) == stamp,
        b.subrange(0, 19) == stamp,
    ensures
        iso_punctuation(a) == iso_punctuation(b),
        field(a, 0, 4) == field(b, 0, 4),
        field(a, 5, 7) == field(b, 5, 7),
        field(a, 8, 10) == field(b, 8, 10),
        field(a, 11, 13) == field(b, 11, 13),
        field(a, 14, 16) == field(b, 14, 16),
        field(a, 17, 19) == field(b, 17, 19),
{
    assert forall|lo: int, hi: int| 0 <= lo < hi <= 19 implies field(a, lo, hi) == field(b, lo, hi) by {
        assert(a.subrange(lo, hi) =~= a.subrange(0, 19).subrange(lo, hi));
        assert(b.subrange(lo, hi) =~= b.subrange(0, 19).subrange(lo, hi));
    }
    assert(a[4] == a.subrange(0, 19)[4] && b[4] == b.subrange(0, 19)[4]);
    assert(a[7] == a.subrange(0, 19)[7] && b[7] == b.subrange(0, 19)[7]);
    assert(a[10] == a.subrange(0, 19)[10] && b[10] == b.subrange(0, 19)[10]);
    assert(a[13] == a.subrange(0, 19)[13] && b[13] == b.subrange(0, 19)[13]);
    assert(a[16] == a.subrange(0, 19)[16] && b[16] == b.subrange(0, 19)[16]);
}

/// Fractional seconds are ignored: a timestamp reads the same with or without
/// a fraction after its seconds.
pub proof fn law_fraction_ignored(stamp: Seq<u8>, fraction: Seq<u8>, zone: Seq<u8>)
    requires
        stamp.len() == 19,
        fraction_bytes(fraction),
        plain_zone(zone),
    ensures
        spec_parse_iso8601(stamp + fraction + zone) == spec_parse_iso8601(stamp + zone),
{
    let a = stamp + fraction + zone;
    let b = stamp + zone;
    assert(a.subrange(0, 19) =~= stamp);
    assert(b.subrange(0, 19) =~= stamp);
    lemma_same_date_and_time(stamp, a, b);
    assert(a.skip(19) =~= fraction + zone);
    assert(b.skip(19) =~= zone);
    assert((fraction + zone)[0] == 46);
    assert((fraction + zone).drop_first() =~= fraction.drop_first() + zone);
    assert((fraction + zone).drop_first()[0] == fraction[1]);
    assert(is_digit(fraction.drop_first()[0]));
    lemma_skip_digits_prefix(fraction.drop_first(), zone);
    assert(zone_of(fraction + zone) == Some(zone));
    assert(zone_of(zone) == Some(zone));
}

/// An offset moves the instant: a timestamp with a zone offset denotes the same
/// wall-clock reading in UTC minus that offset.
pub proof fn law_offset_shifts_the_instant(stamp: Seq<u8>, zone: Seq<u8>)
    requires
        stamp.len() == 19,
        spec_tz_offset(zone) is Some,
        spec_parse_iso8601(stamp + seq![90u8]) is Some,
    ensures
        spec_parse_iso8601(stamp + zone) == Some(
            spec_parse_iso8601(stamp + seq![90u8])->0 - spec_tz_offset(zone)->0,
        ),
{
    let a = stamp + zone;
    let b = stamp + seq![90u8];
    assert(a.subrange(0, 19) =~= stamp);
    assert(b.subrange(0, 19) =~= stamp);
    lemma_same_date_and_time(stamp, a, b);
    assert(a.skip(19) =~= zone);
    assert(b.skip(19) =~= seq![90u8]);
    assert(zone_of(zone) == Some(zone));
    assert(zone_of(seq![90u8]) == Some(seq![90u8]));
    assert(spec_tz_offset(seq![90u8]) == Some(0int));
}

/// The colon inside an offset is optional: `±HH:MM` and `±HHMM` denote the
/// same offset.
pub proof fn law_offset_colon_optional(sign: u8, h1: u8, h2: u8, m1: u8, m2: u8)
    requires
        sign == 43 || sign == 45,
    ensures
        spec_tz_offset(seq![sign, h1, h2, 58u8, m1, m2]) == spec_tz_offset(
            seq![sign, h1, h2, m1, m2],
        ),
{
    let a = seq![sign, h1, h2, 58u8, m1, m2];
    let b = seq![sign, h1, h2, m1, m2];
    assert(a.subrange(1, 3) =~= seq![h1, h2]);
    assert(b.subrange(1, 3) =~= seq![h1, h2]);
    assert(a.subrange(4, 6) =~= seq![m1, m2]);
    assert(b.subrange(3, 5) =~= seq![m1, m2]);
}

/// `Z`, `z`, `+00:00` and `+0000` all denote UTC.
pub proof fn law_utc_designators()
    ensures
        spec_tz_offset(seq![90u8]) == Some(0int),
        spec_tz_offset(seq![122u8]) == Some(0int),
        spec_tz_offset(seq![43u8, 48u8, 48u8, 58u8, 48u8, 48u8]) == Some(0int),
        spec_tz_offset(seq![43u8, 48u8, 48u8, 48u8, 48u8]) == Some(0int),
{
    let a = seq![43u8, 48u8, 48u8, 58u8, 48u8, 48u8];
    let b = seq![43u8, 48u8, 48u8, 48u8, 48u8];
    assert(a.subrange(1, 3) =~= seq![48u8, 48u8]);
    assert(a.subrange(4, 6) =~= seq![48u8, 48u8]);
    assert(b.subrange(1, 3) =~= seq![48u8, 48u8]);
    assert(b.subrange(3, 5) =~= seq![48u8, 48u8]);
    assert(seq![48u8, 48u8].drop_last() =~= seq![48u8]);
    assert(seq![48u8].drop_last() =~= Seq::<u8>::empty());
    assert(digits_value(Seq::<u8>::empty()) == 0);
    assert(digits_value(seq![48u8]) == 0);
    assert(digits_value(seq![48u8, 48u8]) == 0);
    assert(all_digits(seq![48u8, 48u8]));
}

/// The label of a per-model limit, read off its reset time: with countdowns
/// on and a reset time that parses to `t`, the countdown to `t` (however far
/// past `t` the clock is) and the model's name; otherwise `7d` and the name.
pub open spec fn expected_limit_label(limit: LimitView, now: int, time: TimeDisplay) -> Seq<char> {
    match (time, limit_resets_at(limit)) {
        (TimeDisplay::Normal, Some(t)) => remaining_text(t - now) + " "@ + limit.0,
        (TimeDisplay::Short, Some(t)) => remaining_short_text(t - now) + " "@ + limit.0,
        _ => "7d "@ + limit.0,
    }
}

/// The per-model limits close the bottom row, one segment each, in order:
/// each shows its percentage under its countdown label, and a window whose
/// reset time has passed (or is at most a minute away) counts down as `<1m`.
pub proof fn law_limit_segments_count_down(
    json: JsonValue,
    now: int,
    time: TimeDisplay,
    limits: Seq<LimitView>,
    i: int,
)
    requires
        0 <= i < limits.len(),
    ensures
        bottom_row(json, now, time, limits).len() >= limits.len(),
        bottom_row(json, now, time, limits)[bottom_row(json, now, time, limits).len() - limits.len() + i]
            == percentage_segment(expected_limit_label(limits[i], now, time), limits[i].1),
        limit_resets_at(limits[i]) matches Some(t) ==> (time != TimeDisplay::Static && t - now <= 60
            ==> expected_limit_label(limits[i], now, time) == "<1m "@ + limits[i].0),
{
    let prefix = model_segments(json) + percentage_segments(
        json,
        "ctx"@,
        seq!["context_window"@, "used_percentage"@],
    ) + window_segments(json, "5h"@, five_hour_percentage(), five_hour_resets(), now, time)
        + window_segments(json, "7d"@, seven_day_percentage(), seven_day_resets(), now, time);
    let tail = limit_segments(limits, now, time);
    let row = bottom_row(json, now, time, limits);
    assert(row == prefix + tail);
    assert(row[prefix.len() + i] == tail[i]);
    assert(tail[i] == percentage_segment(crate::status::limit_label(limits[i], now, time), limits[i].1));
    assert(crate::status::limit_label(limits[i], now, time) == expected_limit_label(limits[i], now, time));
    if let Some(t) = limit_resets_at(limits[i]) {
        if t - now <= 60 {
            law_countdown_under_a_minute(t - now);
            reveal_strlit("<1m");
            reveal_strlit(" ");
            reveal_strlit("<1m ");
            assert("<1m"@ + " "@ =~= "<1m "@);
            assert("<1m"@ + " "@ + limits[i].0 =~= "<1m "@ + limits[i].0);
        }
    }
}

/// A rate-limit window's segment, when its percentage is reported: labelled
/// with the countdown to its reset time (however far past it the clock is)
/// when countdowns are on and the reset time is reported, else `fallback`.
pub open spec fn expected_window_segments(
    json: JsonValue,
    fallback: Seq<char>,
    percentage_path: Seq<Seq<char>>,
    resets_path: Seq<Seq<char>>,
    now: int,
    time: TimeDisplay,
) -> Seq<Seq<char>> {
    let label = match (time, spec_epoch_at(json, resets_path)) {
        (TimeDisplay::Normal, Some(t)) => remaining_text(t - now),
        (TimeDisplay::Short, Some(t)) => remaining_short_text(t - now),
        _ => fallback,
    };
    match spec_percentage_at(json, percentage_path) {
        Some(p) => seq![percentage_segment(label, p)],
        None => seq![],
    }
}

/// The bottom row, segment by segment: model and effort, context usage, the
/// 5-hour window, the 7-day window, then one segment per per-model limit, in
/// order, each window and limit labelled with its countdown.
pub proof fn law_bottom_row_segments(json: JsonValue, now: int, time: TimeDisplay, limits: Seq<LimitView>)
    ensures
        bottom_row(json, now, time, limits) == model_segments(json) + percentage_segments(
            json,
            "ctx"@,
            seq!["context_window"@, "used_percentage"@],
        ) + expected_window_segments(
            json,
            "5h"@,
            seq!["rate_limits"@, "five_hour"@, "used_percentage"@],
            seq!["rate_limits"@, "five_hour"@, "resets_at"@],
            now,
            time,
        ) + expected_window_segments(
            json,
            "7d"@,
            seq!["rate_limits"@, "seven_day"@, "used_percentage"@],
            seq!["rate_limits"@, "seven_day"@, "resets_at"@],
            now,
            time,
        ) + limits.map_values(
            |l: LimitView| percentage_segment(expected_limit_label(l, now, time), l.1),
        ),
{
    assert(window_segments(json, "5h"@, five_hour_percentage(), five_hour_resets(), now, time)
        == expected_window_segments(
        json,
        "5h"@,
        seq!["rate_limits"@, "five_hour"@, "used_percentage"@],
        seq!["rate_limits"@, "five_hour"@, "resets_at"@],
        now,
        time,
    ));
    assert(window_segments(json, "7d"@, seven_day_percentage(), seven_day_resets(), now, time)
        == expected_window_segments(
        json,
        "7d"@,
        seq!["rate_limits"@, "seven_day"@, "used_percentage"@],
        seq!["rate_limits"@, "seven_day"@, "resets_at"@],
        now,
        time,
    ));
    assert forall|i: int| 0 <= i < limits.len() implies crate::status::limit_label(limits[i], now, time)
        == expected_limit_label(limits[i], now, time) by {}
    assert(limit_segments(limits, now, time) =~= limits.map_values(
        |l: LimitView| percentage_segment(expected_limit_label(l, now, time), l.1),
    ));
}

/// The directory shown is `workspace.current_dir` when the payload has that
/// string, else `cwd`, home shown as `~`; an empty one (even with a `cwd`
/// beside it) or none at all shows no directory.
pub proof fn law_workspace_dir_source(json: JsonValue, home: Option<Seq<char>>)
    ensures
        spec_string_at(json, seq!["workspace"@, "current_dir"@]) matches Some(d) ==> spec_workspace_dir(
            json,
            home,
        ) == (if d.len() > 0 {
            Some(spec_tildify(d, home))
        } else {
            None
        }),
        spec_string_at(json, seq!["workspace"@, "current_dir"@]) is None ==> spec_workspace_dir(
            json,
            home,
        ) == match spec_string_at(json, seq!["cwd"@]) {
            Some(c) => if c.len() > 0 {
                Some(spec_tildify(c, home))
            } else {
                None
            },
            None => None,
        },
{
}

/// The top row: the directory first, then the separator, then the branch or
/// the placeholder for a directory without one; without a directory, the
/// branch alone; empty exactly when there is neither.
pub proof fn law_top_row_layout(dir: Option<Seq<char>>, branch: Option<Seq<char>>)
    ensures
        top_row(dir, branch).len() == 0 <==> (dir is None && branch is None),
        dir matches Some(d) ==> top_row(dir, branch) == seq![
            dir_segment(d),
            separator_segment(),
            if branch is Some {
                branch_segment(branch->0)
            } else {
                no_branch_segment()
            },
        ],
        dir is None && branch is Some ==> top_row(dir, branch) == seq![branch_segment(branch->0)],
{
}

/// `~` stands for the home directory only at a path boundary: when the
/// shown path differs from `path`, it is `~` alone or `~` and a `/` or `\`,
/// and putting the home directory (without trailing separators) back in place
/// of the `~` gives `path` again.
pub proof fn law_tilde_only_at_a_path_boundary(path: Seq<char>, home: Seq<char>)
    ensures
        spec_tildify(path, Some(home)) != path ==> {
            let r = spec_tildify(path, Some(home));
            &&& r.len() >= 1
            &&& r[0] == '~'
            &&& r.len() == 1 || r[1] == '/' || r[1] == '\\'
            &&& trim_end_by(home, path_separator()) + r.drop_first() == path
        },
{
    reveal_strlit("~");
    let r = spec_tildify(path, Some(home));
    let h = trim_end_by(home, path_separator());
    if r != path {
        let rest = path.skip(h.len() as int);
        assert(path.subrange(0, h.len() as int) == h);
        assert(h + rest =~= path);
        if rest.len() == 0 {
            assert(r.drop_first() =~= rest);
        } else {
            assert(r == "~"@ + rest);
            assert(r.drop_first() =~= rest);
            assert(r[1] == rest[0]);
        }
    }
}

/// The number written by the two ASCII digits at `i` and `i + 1`.
pub open spec fn two_digits(b: Seq<u8>, i: int) -> int {
    (b[i] - 48) * 10 + (b[i + 1] - 48)
}

/// The number written by the four ASCII digits from `i` on.
pub open spec fn four_digits(b: Seq<u8>, i: int) -> int {
    two_digits(b, i) * 100 + two_digits(b, i + 2)
}

proof fn lemma_two_digit_field(b: Seq<u8>, i: int)
    requires
        0 <= i,
        i + 2 <= b.len(),
        is_digit(b[i]),
        is_digit(b[i + 1]),
    ensures
        field(b, i, i + 2) == Some(two_digits(b, i)),
{
    let f = b.subrange(i, i + 2);
    assert(f.drop_last() =~= seq![b[i]]);
    assert(f.drop_last().drop_last() =~= Seq::<u8>::empty());
    assert(digits_value(Seq::<u8>::empty()) == 0);
    assert(digits_value(seq![b[i]]) == b[i] - 48);
    assert(all_digits(f));
}

proof fn lemma_four_digit_field(b: Seq<u8>, i: int)
    requires
        0 <= i,
        i + 4 <= b.len(),
        is_digit(b[i]),
        is_digit(b[i + 1]),
        is_digit(b[i + 2]),
        is_digit(b[i + 3]),
    ensures
        field(b, i, i + 4) == Some(four_digits(b, i)),
{
    let f = b.subrange(i, i + 4);
    let f3 = f.drop_last();
    let f2 = f3.drop_last();
    let f1 = f2.drop_last();
    assert(f1 =~= seq![b[i]]);
    assert(f1.drop_last() =~= Seq::<u8>::empty());
    assert(digits_value(Seq::<u8>::empty()) == 0);
    assert(digits_value(f1) == b[i] - 48);
    assert(digits_value(f2) == (b[i] - 48) * 10 + (b[i + 1] - 48));
    assert(digits_value(f3) == digits_value(f2) * 10 + (b[i + 2] - 48));
    assert(digits_value(f) == digits_value(f3) * 10 + (b[i + 3] - 48));
    assert(all_digits(f));
}

/// A UTC timestamp `YYYY-MM-DDTHH:MM:SSZ` denotes the Unix time of its date and
/// time of day, read digit by digit, when the date exists and the time of day
/// is in range (a leap second allowed); otherwise it denotes nothing.
pub proof fn law_utc_timestamp(b: Seq<u8>)
    requires
        b.len() == 20,
        b[4] == 45 && b[7] == 45 && b[10] == 84 && b[13] == 58 && b[16] == 58 && b[19] == 90,
        forall|i: int|
            0 <= i < 19 && i != 4 && i != 7 && i != 10 && i != 13 && i != 16 ==> is_digit(
                #[trigger] b[i],
            ),
    ensures
        ({
            let y = four_digits(b, 0);
            let mo = two_digits(b, 5);
            let d = two_digits(b, 8);
            let h = two_digits(b, 11);
            let mi = two_digits(b, 14);
            let se = two_digits(b, 17);
            spec_parse_iso8601(b) == if 1 <= mo <= 12 && 1 <= d <= month_length(y, mo) && h <= 23
                && mi <= 59 && se <= 60 {
                Some(civil_day_number(y, mo, d) * 86_400 + h * 3_600 + mi * 60 + se)
            } else {
                None
            }
        }),
{
    assert(is_digit(b[0]) && is_digit(b[1]) && is_digit(b[2]) && is_digit(b[3]));
    assert(is_digit(b[5]) && is_digit(b[6]) && is_digit(b[8]) && is_digit(b[9]));
    assert(is_digit(b[11]) && is_digit(b[12]) && is_digit(b[14]) && is_digit(b[15]));
    assert(is_digit(b[17]) && is_digit(b[18]));
    lemma_four_digit_field(b, 0);
    lemma_two_digit_field(b, 5);
    lemma_two_digit_field(b, 8);
    lemma_two_digit_field(b, 11);
    lemma_two_digit_field(b, 14);
    lemma_two_digit_field(b, 17);
    assert(b.skip(19) =~= seq![90u8]);
    assert(zone_of(seq![90u8]) == Some(seq![90u8]));
    assert(spec_tz_offset(seq![90u8]) == Some(0int));
    let mo = two_digits(b, 5);
    if 1 <= mo <= 12 {
        law_real_dates_have_day_numbers(four_digits(b, 0), mo, two_digits(b, 8));
    }
}

/// A `±HH:MM` offset is that many hours and minutes east of UTC, west for `-`,
/// when the hours are at most 23 and the minutes at most 59.
pub proof fn law_offset_value(sign: u8, h1: u8, h2: u8, m1: u8, m2: u8)
    requires
        sign == 43 || sign == 45,
        is_digit(h1) && is_digit(h2) && is_digit(m1) && is_digit(m2),
    ensures
        ({
            let hours = (h1 - 48) * 10 + (h2 - 48);
            let minutes = (m1 - 48) * 10 + (m2 - 48);
            let magnitude = hours * 3_600 + minutes * 60;
            spec_tz_offset(seq![sign, h1, h2, 58u8, m1, m2]) == if hours <= 23 && minutes <= 59 {
                Some(if sign == 45 { -magnitude } else { magnitude })
            } else {
                None
            }
        }),
{
    let t = seq![sign, h1, h2, 58u8, m1, m2];
    lemma_two_digit_field(t, 1);
    lemma_two_digit_field(t, 4);
}

/// With countdowns off, the bottom row does not depend on the time.
pub proof fn law_static_labels_ignore_the_clock(
    json: JsonValue,
    now: int,
    other_now: int,
    limits: Seq<LimitView>,
)
    ensures
        bottom_row(json, now, TimeDisplay::Static, limits) == bottom_row(
            json,
            other_now,
            TimeDisplay::Static,
            limits,
        ),
{
    assert(crate::status::limit_segments(limits, now, TimeDisplay::Static)
        =~= crate::status::limit_segments(limits, other_now, TimeDisplay::Static));
}

/// The status line is absent exactly when neither row has a segment.
pub proof fn law_nothing_to_show(top: Seq<Seq<char>>, bottom: Seq<Seq<char>>)
    ensures
        rendered(top, bottom) is None <==> (top.len() == 0 && bottom.len() == 0),
{
}

/// A row that has segments.
pub open spec fn has_segments() -> spec_fn(Seq<Seq<char>>) -> bool {
    |row: Seq<Seq<char>>| row.len() > 0
}

/// A row's segments joined by spaces.
pub open spec fn row_line() -> spec_fn(Seq<Seq<char>>) -> Seq<char> {
    |row: Seq<Seq<char>>| join(row, " "@)
}

/// The rows that have segments, each joined by spaces.
pub open spec fn shown_lines(top: Seq<Seq<char>>, bottom: Seq<Seq<char>>) -> Seq<Seq<char>> {
    seq![top, bottom].filter(has_segments()).map_values(row_line())
}

/// The status line is the rows that have segments, each joined by spaces,
/// joined by newlines: no empty line, no leading or trailing newline, and
/// nothing at all when no row has a segment.
pub proof fn law_status_line_is_the_shown_rows(top: Seq<Seq<char>>, bottom: Seq<Seq<char>>)
    ensures
        rendered(top, bottom) == (if shown_lines(top, bottom).len() == 0 {
            None
        } else {
            Some(join(shown_lines(top, bottom), "\n"@))
        }),
{
    reveal_with_fuel(Seq::filter, 3);
    let rows = seq![top, bottom];
    assert(rows.drop_last() =~= seq![top]);
    assert(seq![top].drop_last() =~= Seq::<Seq<Seq<char>>>::empty());
    let f = rows.filter(has_segments());
    let lines = shown_lines(top, bottom);
    if top.len() > 0 && bottom.len() > 0 {
        assert(f =~= seq![top, bottom]);
        assert(lines =~= seq![join(top, " "@), join(bottom, " "@)]);
        assert(lines.drop_last() =~= seq![join(top, " "@)]);
        assert(join(lines, "\n"@) == join(lines.drop_last(), "\n"@) + "\n"@ + lines.last());
        assert(join(lines.drop_last(), "\n"@) == join(top, " "@));
    } else if top.len() > 0 {
        assert(f =~= seq![top]);
        assert(lines =~= seq![join(top, " "@)]);
        assert(join(lines, "\n"@) == join(top, " "@));
    } else if bottom.len() > 0 {
        assert(f =~= seq![bottom]);
        assert(lines =~= seq![join(bottom, " "@)]);
        assert(join(lines, "\n"@) == join(bottom, " "@));
    } else {
        assert(f =~= Seq::<Seq<Seq<char>>>::empty());
        assert(lines.len() == 0);
    }
}

} // verus!
