use crate::calendar::{
    civil_day_number, civil_in_range, days_from_civil, era_day, lemma_era_count_is_civil, march_year,
    spec_days_from_civil,
};
use vstd::arithmetic::div_mod::lemma_fundamental_div_mod;
use vstd::prelude::*;
use vstd::string::*;

verus! {

/// An ASCII decimal digit byte.
pub open spec fn is_digit(b: u8) -> bool {
    48 <= b <= 57
}

/// Whether every byte of `s` is an ASCII digit.
pub open spec fn all_digits(s: Seq<u8>) -> bool {
    forall|i: int| 0 <= i < s.len() ==> is_digit(#[trigger] s[i])
}

/// The number that ASCII digits denote.
pub open spec fn digits_value(s: Seq<u8>) -> int
    decreases s.len(),
{
    if s.len() == 0 {
        0
    } else {
        digits_value(s.drop_last()) * 10 + (s.last() - 48)
    }
}

/// The number written with the ASCII digits in bytes `lo..hi` of `b`; `None`
/// when `b` is shorter or another byte stands there.
pub open spec fn field(b: Seq<u8>, lo: int, hi: int) -> Option<int> {
    if hi <= b.len() && all_digits(b.subrange(lo, hi)) {
        Some(digits_value(b.subrange(lo, hi)))
    } else {
        None
    }
}

/// `b` without its leading ASCII digits.
pub open spec fn skip_digits(b: Seq<u8>) -> Seq<u8>
    decreases b.len(),
{
    if b.len() > 0 && is_digit(b[0]) {
        skip_digits(b.drop_first())
    } else {
        b
    }
}

/// What follows the seconds once an optional fraction (`.` and at least one
/// digit) is passed: the zone designator; `None` for a `.` without digits.
pub open spec fn zone_of(after_seconds: Seq<u8>) -> Option<Seq<u8>> {
    if after_seconds.len() > 0 && after_seconds[0] == 46 {
        let rest = after_seconds.drop_first();
        if rest.len() > 0 && is_digit(rest[0]) {
            Some(skip_digits(rest))
        } else {
            None
        }
    } else {
        Some(after_seconds)
    }
}

/// A zone designator's offset in seconds east of UTC: `Z`/`z` is 0; `+HH:MM`,
/// `-HH:MM`, `+HHMM` and `-HHMM` (hours up to 23, minutes up to 59) are signed
/// hours and minutes. Nothing may follow the designator.
pub open spec fn spec_tz_offset(t: Seq<u8>) -> Option<int> {
    if t.len() == 1 && (t[0] == 90 || t[0] == 122) {
        Some(0)
    } else if (t.len() == 6 && t[3] == 58 || t.len() == 5) && (t[0] == 43 || t[0] == 45) {
        let minute_start: int = if t.len() == 6 { 4 } else { 3 };
        match (field(t, 1, 3), field(t, minute_start, minute_start + 2)) {
            (Some(hours), Some(minutes)) => if hours <= 23 && minutes <= 59 {
                let magnitude = hours * 3_600 + minutes * 60;
                Some(if t[0] == 45 { -magnitude } else { magnitude })
            } else {
                None
            },
            _ => None,
        }
    } else {
        None
    }
}

/// The fixed punctuation of `YYYY-MM-DDTHH:MM:SS` (the `T` may also be `t` or
/// a space).
pub open spec fn iso_punctuation(b: Seq<u8>) -> bool {
    &&& b.len() > 16
    &&& b[4] == 45
    &&& b[7] == 45
    &&& (b[10] == 84 || b[10] == 116 || b[10] == 32)
    &&& b[13] == 58
    &&& b[16] == 58
}

/// Unix epoch seconds of an RFC-3339 timestamp
/// `YYYY-MM-DDTHH:MM:SS[.fraction](Z|±HH:MM|±HHMM)`, fraction ignored: the
/// date must exist, the hour be at most 23, the minute at most 59 and the
/// second at most 60 (a leap second); `None` when any part is malformed.
pub open spec fn spec_parse_iso8601(b: Seq<u8>) -> Option<int> {
    let year = field(b, 0, 4);
    let month = field(b, 5, 7);
    let day = field(b, 8, 10);
    let hour = field(b, 11, 13);
    let minute = field(b, 14, 16);
    let second = field(b, 17, 19);
    let zone = zone_of(b.skip(19));
    let offset = match zone {
        Some(z) => spec_tz_offset(z),
        None => None,
    };
    if iso_punctuation(b) && year is Some && month is Some && day is Some && hour is Some
        && minute is Some && second is Some && hour->0 <= 23 && minute->0 <= 59 && second->0 <= 60
        && offset is Some && spec_days_from_civil(year->0, month->0, day->0) is Some {
        Some(
            spec_days_from_civil(year->0, month->0, day->0)->0 * 86_400 + hour->0 * 3_600
                + minute->0 * 60 + second->0 - offset->0,
        )
    } else {
        None
    }
}

/// `10^n`.
pub open spec fn ten_pow(n: nat) -> int
    decreases n,
{
    if n == 0 {
        1
    } else {
        10 * ten_pow((n - 1) as nat)
    }
}

proof fn lemma_digits_bound(s: Seq<u8>)
    requires
        all_digits(s),
    ensures
        0 <= digits_value(s) < ten_pow(s.len()),
    decreases s.len(),
{
    if s.len() > 0 {
        assert(all_digits(s.drop_last())) by {
            assert forall|i: int| 0 <= i < s.drop_last().len() implies is_digit(
                #[trigger] s.drop_last()[i],
            ) by {
                assert(s.drop_last()[i] == s[i]);
            }
        }
        lemma_digits_bound(s.drop_last());
        assert(is_digit(s[s.len() - 1]));
    }
}

/// Reads the ASCII digits in bytes `lo..hi` of `b` (at most four bytes).
fn parse_digits(b: &[u8], lo: usize, hi: usize) -> (r: Option<i64>)
    requires
        lo < hi <= lo + 4,
    ensures
        r matches Some(v) ==> field(b@, lo as int, hi as int) == Some(v as int),
        r is None ==> field(b@, lo as int, hi as int) is None,
        r matches Some(v) ==> 0 <= v < 10_000,
        r matches Some(v) ==> hi - lo <= 2 ==> v < 100,
{
    if hi > b.len() {
        return None;
    }
    let ghost d = b@.subrange(lo as int, hi as int);
    let mut acc: i64 = 0;
    let mut i = lo;
    assert(b@.subrange(lo as int, lo as int) =~= Seq::<u8>::empty());
    while i < hi
        invariant
            lo <= i <= hi <= b@.len(),
            hi <= lo + 4,
            d == b@.subrange(lo as int, hi as int),
            all_digits(b@.subrange(lo as int, i as int)),
            acc == digits_value(b@.subrange(lo as int, i as int)),
            0 <= acc < ten_pow((i - lo) as nat),
        decreases hi - i,
    {
        let c = b[i];
        if c < 48u8 || c > 57u8 {
            assert(!all_digits(d)) by {
                assert(d[i - lo] == c);
            }
            return None;
        }
        let ghost prev = b@.subrange(lo as int, i as int);
        let ghost next = b@.subrange(lo as int, i + 1);
        assert(next.drop_last() =~= prev);
        assert(next.last() == c);
        assert(all_digits(next)) by {
            assert forall|k: int| 0 <= k < next.len() implies is_digit(#[trigger] next[k]) by {
                if k < prev.len() {
                    assert(next[k] == prev[k]);
                }
            }
        }
        assert(ten_pow((i + 1 - lo) as nat) == 10 * ten_pow((i - lo) as nat));
        assert(ten_pow((i - lo) as nat) <= 1000) by {
            reveal_with_fuel(ten_pow, 5);
        }
        acc = acc * 10 + (c - 48u8) as i64;
        i = i + 1;
    }
    assert(acc < 10_000) by {
        reveal_with_fuel(ten_pow, 5);
    }
    assert(hi - lo <= 2 ==> acc < 100) by {
        reveal_with_fuel(ten_pow, 3);
    }
    Some(acc)
}

proof fn lemma_field_shift(b: Seq<u8>, k: int, lo: int, hi: int)
    requires
        0 <= k <= b.len(),
        0 <= lo < hi,
    ensures
        field(b.skip(k), lo, hi) == field(b, k + lo, k + hi),
{
    if k + hi <= b.len() {
        assert(b.skip(k).subrange(lo, hi) =~= b.subrange(k + lo, k + hi));
    }
}

/// The zone designator that makes up bytes `k..` of `b`.
fn tz_offset_at(b: &[u8], k: usize) -> (r: Option<i64>)
    requires
        k <= b@.len(),
    ensures
        r matches Some(v) ==> spec_tz_offset(b@.skip(k as int)) == Some(v as int),
        r is None ==> spec_tz_offset(b@.skip(k as int)) is None,
        r matches Some(v) ==> -100_000 < v < 100_000,
{
    let ghost t = b@.skip(k as int);
    let n = b.len() - k;
    if n == 0 {
        return None;
    }
    assert(t[0] == b@[k as int]);
    let first = b[k];
    if n == 1 && (first == 90u8 || first == 122u8) {
        return Some(0);
    }
    if !(n == 5 || n == 6) || !(first == 43u8 || first == 45u8) {
        return None;
    }
    assert(t[3] == b@[k + 3]);
    if n == 6 && b[k + 3] != 58u8 {
        return None;
    }
    proof {
        lemma_field_shift(b@, k as int, 1, 3);
        lemma_field_shift(b@, k as int, 3, 5);
        lemma_field_shift(b@, k as int, 4, 6);
    }
    let hours = match parse_digits(b, k + 1, k + 3) {
        Some(v) => v,
        None => return None,
    };
    let minute_start: usize = if n == 6 {
        4
    } else {
        3
    };
    let minutes = match parse_digits(b, k + minute_start, k + minute_start + 2) {
        Some(v) => v,
        None => return None,
    };
    if hours > 23 || minutes > 59 {
        return None;
    }
    let magnitude = hours * 3_600 + minutes * 60;
    Some(if first == 45u8 { -magnitude } else { magnitude })
}

/// `Z`/`z` -> 0; `+HH:MM`/`-HH:MM`/`+HHMM`/`-HHMM` -> seconds east of UTC.
pub fn parse_tz_offset(tz: &str) -> (r: Option<i64>)
    ensures
        r matches Some(v) ==> spec_tz_offset(tz.spec_bytes()) == Some(v as int),
        r is None ==> spec_tz_offset(tz.spec_bytes()) is None,
{
    let b = tz.as_bytes();
    assert(b@.skip(0) =~= b@);
    tz_offset_at(b, 0)
}

proof fn lemma_four_digit_year_in_range(y: int, m: int, d: int)
    requires
        -10_000 < y < 10_000,
    ensures
        civil_in_range(y, m, d),
        (1 <= m <= 12 && 1 <= d <= 31) ==> -10_000_000 < civil_day_number(y, m, d) < 10_000_000,
{
    let yy = march_year(y, m);
    lemma_fundamental_div_mod(yy, 400);
    if 1 <= m <= 12 && 1 <= d <= 31 {
        lemma_era_count_is_civil(y, m, d);
        let era = yy / 400;
        let yoe = yy - era * 400;
        assert(0 <= yoe < 400);
        assert(0 <= era_day(y, m, d) < 200_000);
    }
}

/// Where the zone designator starts: after byte `k` (the end of the seconds)
/// and an optional fraction; `None` for a `.` without digits.
fn zone_start(b: &[u8], k: usize) -> (r: Option<usize>)
    requires
        k <= b@.len(),
    ensures
        r matches Some(z) ==> k <= z <= b@.len() && zone_of(b@.skip(k as int)) == Some(
            b@.skip(z as int),
        ),
        r is None ==> zone_of(b@.skip(k as int)) is None,
{
    let ghost after = b@.skip(k as int);
    if k >= b.len() || b[k] != 46u8 {
        assert(k < b@.len() ==> after[0] == b@[k as int]);
        return Some(k);
    }
    assert(after[0] == b@[k as int]);
    let first_digit = k + 1;
    assert(after.drop_first() =~= b@.skip(first_digit as int));
    if first_digit >= b.len() || !(48u8 <= b[first_digit] && b[first_digit] <= 57u8) {
        assert(first_digit < b@.len() ==> b@.skip(first_digit as int)[0] == b@[first_digit as int]);
        return None;
    }
    let mut i = first_digit;
    while i < b.len() && 48u8 <= b[i] && b[i] <= 57u8
        invariant
            first_digit <= i <= b@.len(),
            skip_digits(b@.skip(first_digit as int)) == skip_digits(b@.skip(i as int)),
        decreases b@.len() - i,
    {
        assert(b@.skip(i as int).drop_first() =~= b@.skip(i + 1));
        assert(b@.skip(i as int)[0] == b@[i as int]);
        i = i + 1;
    }
    assert(i < b@.len() ==> b@.skip(i as int)[0] == b@[i as int]);
    Some(i)
}

/// Parses the RFC-3339 subset the host application emits for `model_scoped`
/// reset times (`YYYY-MM-DDTHH:MM:SS[.fraction](Z|±HH:MM|±HHMM)`) into Unix
/// epoch seconds. Fractional seconds are ignored. Any malformed input (a date
/// that does not exist, a time out of range, text after the zone) yields
/// `None`, which callers treat as "no reset time" and fall back to the static
/// label.
pub fn parse_iso8601(s: &str) -> (r: Option<i64>)
    ensures
        r matches Some(v) ==> spec_parse_iso8601(s.spec_bytes()) == Some(v as int),
        r is None ==> spec_parse_iso8601(s.spec_bytes()) is None,
{
    let bytes = s.as_bytes();
    let ghost b = bytes@;

    let year = match parse_digits(bytes, 0, 4) {
        Some(v) => v,
        None => return None,
    };
    if bytes.len() <= 4 || bytes[4] != 45u8 {
        return None;
    }
    let month = match parse_digits(bytes, 5, 7) {
        Some(v) => v,
        None => return None,
    };
    if bytes.len() <= 7 || bytes[7] != 45u8 {
        return None;
    }
    let day = match parse_digits(bytes, 8, 10) {
        Some(v) => v,
        None => return None,
    };
    if bytes.len() <= 10 || !(bytes[10] == 84u8 || bytes[10] == 116u8 || bytes[10] == 32u8) {
        return None;
    }
    let hour = match parse_digits(bytes, 11, 13) {
        Some(v) => v,
        None => return None,
    };
    if bytes.len() <= 13 || bytes[13] != 58u8 {
        return None;
    }
    let minute = match parse_digits(bytes, 14, 16) {
        Some(v) => v,
        None => return None,
    };
    if bytes.len() <= 16 || bytes[16] != 58u8 {
        return None;
    }
    let second = match parse_digits(bytes, 17, 19) {
        Some(v) => v,
        None => return None,
    };
    assert(iso_punctuation(b));
    if hour > 23 || minute > 59 || second > 60 {
        return None;
    }

    // Skip an optional ".fraction", then interpret the zone designator.
    let tz_start = match zone_start(bytes, 19) {
        Some(z) => z,
        None => return None,
    };
    let offset_secs = match tz_offset_at(bytes, tz_start) {
        Some(v) => v,
        None => return None,
    };

    proof {
        lemma_four_digit_year_in_range(year as int, month as int, day as int);
    }
    let days = match days_from_civil(year, month, day) {
        Some(v) => v,
        None => return None,
    };
    Some(days * 86_400 + hour * 3_600 + minute * 60 + second - offset_secs)
}

} // verus!
