use crate::json::{
    array_at, keys, percentage_at, spec_array_at, spec_get, spec_percentage_at, spec_string_at,
    string_at, JsonValue,
};
use crate::number::{WholeNumber, WholeView};
use crate::text::str_eq;
use vstd::prelude::*;

verus! {

/// A per-model weekly rate limit (e.g. Fable): the model's name, its usage as
/// a whole percentage (rounded up), and when the window resets, as written in
/// the payload.
#[derive(Debug, PartialEq)]
pub struct ScopedLimit {
    pub name: String,
    pub percent: WholeNumber,
    pub resets_at: Option<String>,
}

/// What a `ScopedLimit` holds, as plain values.
pub type LimitView = (Seq<char>, WholeView, Option<Seq<char>>);

impl View for ScopedLimit {
    type V = LimitView;

    open spec fn view(&self) -> LimitView {
        (
            self.name@,
            self.percent@,
            match self.resets_at {
                Some(s) => Some(s@),
                None => None,
            },
        )
    }
}

/// The views of the limits.
pub open spec fn limit_views(v: Seq<ScopedLimit>) -> Seq<LimitView> {
    v.map_values(|l: ScopedLimit| l@)
}

/// The results of `f` on the elements of `s` that it maps to something, in order.
pub open spec fn filter_map_seq<A, B>(s: Seq<A>, f: spec_fn(A) -> Option<B>) -> Seq<B>
    decreases s.len(),
{
    if s.len() == 0 {
        seq![]
    } else {
        let prev = filter_map_seq(s.drop_last(), f);
        match f(s.last()) {
            Some(x) => prev.push(x),
            None => prev,
        }
    }
}

/// An entry of `rate_limits.model_scoped`: it counts when it has a
/// `display_name` and a numeric `utilization`.
pub open spec fn payload_entry(entry: JsonValue) -> Option<LimitView> {
    match (
        spec_string_at(entry, seq!["display_name"@]),
        spec_percentage_at(entry, seq!["utilization"@]),
    ) {
        (Some(name), Some(percent)) => Some(
            (name, percent, spec_string_at(entry, seq!["resets_at"@])),
        ),
        _ => None,
    }
}

/// An entry of the cached usage snapshot: it counts when its `kind` is
/// `weekly_scoped` and it has `scope.model.display_name` and a numeric
/// `percent`.
pub open spec fn cached_entry(entry: JsonValue) -> Option<LimitView> {
    match spec_string_at(entry, seq!["kind"@]) {
        Some(kind) => if kind == "weekly_scoped"@ {
            match (
                spec_string_at(entry, seq!["scope"@, "model"@, "display_name"@]),
                spec_percentage_at(entry, seq!["percent"@]),
            ) {
                (Some(name), Some(percent)) => Some(
                    (name, percent, spec_string_at(entry, seq!["resets_at"@])),
                ),
                _ => None,
            }
        } else {
            None
        },
        None => None,
    }
}

/// The limits the payload reports in `rate_limits.model_scoped`; `None` when
/// it has no such array.
pub open spec fn spec_payload_model_scoped(json: JsonValue) -> Option<Seq<LimitView>> {
    match spec_array_at(json, seq!["rate_limits"@, "model_scoped"@]) {
        Some(items) => Some(filter_map_seq(items, |e: JsonValue| payload_entry(e))),
        None => None,
    }
}

/// The limits of the cached usage snapshot
/// (`cachedUsageUtilization.utilization.limits`).
pub open spec fn spec_cached_model_scoped(cache: JsonValue) -> Seq<LimitView> {
    match spec_array_at(cache, seq!["cachedUsageUtilization"@, "utilization"@, "limits"@]) {
        Some(items) => filter_map_seq(items, |e: JsonValue| cached_entry(e)),
        None => seq![],
    }
}

/// Whether the usage cache is consulted: the payload has no
/// `rate_limits.model_scoped` array but does report `rate_limits`.
pub open spec fn spec_needs_usage_cache(json: JsonValue) -> bool {
    spec_payload_model_scoped(json) is None && spec_get(json, "rate_limits"@) is Some
}

/// The per-model limits shown: the payload's own when it has them, else the
/// cache's when it is consulted and could be read, else none.
pub open spec fn spec_model_scoped_limits(json: JsonValue, cache: Option<JsonValue>) -> Seq<LimitView> {
    match spec_payload_model_scoped(json) {
        Some(limits) => limits,
        None => if spec_needs_usage_cache(json) {
            match cache {
                Some(c) => spec_cached_model_scoped(c),
                None => seq![],
            }
        } else {
            seq![]
        },
    }
}

fn limit_from(name: &str, percent: &WholeNumber, resets_at: Option<&str>) -> (r: ScopedLimit)
    ensures
        r@ == (name@, percent@, match resets_at {
            Some(s) => Some(s@),
            None => None,
        }),
{
    ScopedLimit {
        name: name.to_owned(),
        percent: percent.copy(),
        resets_at: match resets_at {
            Some(s) => Some(s.to_owned()),
            None => None,
        },
    }
}

fn payload_entry_limit(entry: &JsonValue) -> (r: Option<ScopedLimit>)
    ensures
        (match r {
            Some(l) => Some(l@),
            None => None,
        }) == payload_entry(*entry),
{
    let name_path = ["display_name"];
    let value_path = ["utilization"];
    let resets_path = ["resets_at"];
    assert(keys(name_path@) =~= seq!["display_name"@]);
    assert(keys(value_path@) =~= seq!["utilization"@]);
    assert(keys(resets_path@) =~= seq!["resets_at"@]);
    let name = match string_at(entry, &name_path) {
        Some(n) => n,
        None => return None,
    };
    let value = match percentage_at(entry, &value_path) {
        Some(v) => v,
        None => return None,
    };
    let resets_at = string_at(entry, &resets_path);
    Some(limit_from(name, value, resets_at))
}

fn cached_entry_limit(entry: &JsonValue) -> (r: Option<ScopedLimit>)
    ensures
        (match r {
            Some(l) => Some(l@),
            None => None,
        }) == cached_entry(*entry),
{
    let kind_path = ["kind"];
    let name_path = ["scope", "model", "display_name"];
    let value_path = ["percent"];
    let resets_path = ["resets_at"];
    assert(keys(kind_path@) =~= seq!["kind"@]);
    assert(keys(name_path@) =~= seq!["scope"@, "model"@, "display_name"@]);
    assert(keys(value_path@) =~= seq!["percent"@]);
    assert(keys(resets_path@) =~= seq!["resets_at"@]);
    let kind = match string_at(entry, &kind_path) {
        Some(k) => k,
        None => return None,
    };
    if !str_eq(kind, "weekly_scoped") {
        return None;
    }
    let name = match string_at(entry, &name_path) {
        Some(n) => n,
        None => return None,
    };
    let value = match percentage_at(entry, &value_path) {
        Some(v) => v,
        None => return None,
    };
    let resets_at = string_at(entry, &resets_path);
    Some(limit_from(name, value, resets_at))
}

/// The limits that `payload_entry` (`cached` false) or `cached_entry`
/// (`cached` true) finds among `entries`.
fn collect_limits(entries: &Vec<JsonValue>, cached: bool) -> (r: Vec<ScopedLimit>)
    ensures
        limit_views(r@) == filter_map_seq(
            entries@,
            if cached {
                |e: JsonValue| cached_entry(e)
            } else {
                |e: JsonValue| payload_entry(e)
            },
        ),
{
    let ghost f = if cached {
        |e: JsonValue| cached_entry(e)
    } else {
        |e: JsonValue| payload_entry(e)
    };
    let mut r: Vec<ScopedLimit> = Vec::new();
    let n = entries.len();
    let mut i: usize = 0;
    assert(entries@.take(0) =~= Seq::<JsonValue>::empty());
    assert(limit_views(r@) =~= Seq::<LimitView>::empty());
    while i < n
        invariant
            n == entries@.len(),
            i <= n,
            f == (if cached {
                |e: JsonValue| cached_entry(e)
            } else {
                |e: JsonValue| payload_entry(e)
            }),
            limit_views(r@) == filter_map_seq(entries@.take(i as int), f),
        decreases n - i,
    {
        let ghost prev = r@;
        assert(entries@.take(i + 1).drop_last() =~= entries@.take(i as int));
        assert(entries@.take(i + 1).last() == entries@[i as int]);
        let found = if cached {
            cached_entry_limit(&entries[i])
        } else {
            payload_entry_limit(&entries[i])
        };
        match found {
            Some(limit) => {
                r.push(limit);
                assert(limit_views(r@) =~= limit_views(prev).push(r@.last()@));
            },
            None => {},
        }
        i = i + 1;
    }
    assert(entries@.take(n as int) =~= entries@);
    r
}

/// The limits the payload reports in `rate_limits.model_scoped`.
pub fn payload_model_scoped(json: &JsonValue) -> (r: Option<Vec<ScopedLimit>>)
    ensures
        (match r {
            Some(v) => Some(limit_views(v@)),
            None => None,
        }) == spec_payload_model_scoped(*json),
{
    let path = ["rate_limits", "model_scoped"];
    assert(keys(path@) =~= seq!["rate_limits"@, "model_scoped"@]);
    match array_at(json, &path) {
        Some(entries) => Some(collect_limits(entries, false)),
        None => None,
    }
}

/// The limits of the cached usage snapshot.
pub fn cached_model_scoped(cache: &JsonValue) -> (r: Vec<ScopedLimit>)
    ensures
        limit_views(r@) == spec_cached_model_scoped(*cache),
{
    let path = ["cachedUsageUtilization", "utilization", "limits"];
    assert(keys(path@) =~= seq!["cachedUsageUtilization"@, "utilization"@, "limits"@]);
    match array_at(cache, &path) {
        Some(entries) => collect_limits(entries, true),
        None => Vec::new(),
    }
}

/// Whether the usage cache is to be read for this payload: only for sessions
/// that report rate limits at all (API-key and third-party provider sessions
/// have no plan limits), and only while the payload does not carry
/// `rate_limits.model_scoped` itself.
pub fn needs_usage_cache(json: &JsonValue) -> (r: bool)
    ensures
        r == spec_needs_usage_cache(*json),
{
    match payload_model_scoped(json) {
        Some(_) => false,
        None => json.get("rate_limits").is_some(),
    }
}

/// Per-model weekly rate limits (e.g. Fable), reported separately from the
/// all-models `seven_day` bucket. Preferred source is `rate_limits.model_scoped`
/// in the payload; until the host application emits it, the usage snapshot it caches
/// (`usage_cache`, as read when `needs_usage_cache` says so) stands in.
pub fn model_scoped_limits_with(json: &JsonValue, usage_cache: Option<&JsonValue>) -> (r: Vec<ScopedLimit>)
    ensures
        limit_views(r@) == spec_model_scoped_limits(
            *json,
            match usage_cache {
                Some(c) => Some(*c),
                None => None,
            },
        ),
{
    if let Some(limits) = payload_model_scoped(json) {
        return limits;
    }
    if json.get("rate_limits").is_none() {
        return Vec::new();
    }
    match usage_cache {
        Some(cache) => cached_model_scoped(cache),
        None => Vec::new(),
    }
}

} // verus!
