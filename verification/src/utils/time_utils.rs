//! Reading and showing timestamps with `chrono`. An instant is held as milliseconds
//! since the Unix epoch (UTC).
use vstd::prelude::*;
use crate::foreign::{format_millis, formatted_millis_of, now_millis, parse_millis, parsed_millis_of};
use crate::plugins::ov;
use crate::text::{append_str, chars_of, decimal, decimal_chars_u64, string_of};

verus! {

/// How an instant is shown: date, time and milliseconds.
pub const DISPLAY_FORMAT: &'static str = "%Y-%m-%d %H:%M:%S%.3f";

/// How a day is shown.
pub const DAY_FORMAT: &'static str = "%Y-%m-%d";

/// The formats tried, in order, when reading a timestamp.
pub open spec fn timestamp_formats() -> Seq<Seq<char>> {
    seq![
        "%Y-%m-%d %H:%M:%S%.3f"@, "%Y-%m-%d %H:%M:%S"@, "%Y-%m-%dT%H:%M:%S%.3fZ"@, "%Y-%m-%dT%H:%M:%SZ"@,
        "%Y-%m-%d %H:%M:%S%.3f %z"@, "%Y-%m-%d %H:%M:%S %z"@,
    ]
}

/// The instant read with the first of the formats that reads the text.
pub open spec fn first_parsed(fs: Seq<Seq<char>>, text: Seq<char>) -> Option<int>
    decreases fs.len(),
{
    if fs.len() == 0 {
        None
    } else {
        match parsed_millis_of(text, fs[0]) {
            Some(m) => Some(m),
            None => first_parsed(fs.drop_first(), text),
        }
    }
}

/// `a / b` rounded toward zero, as Rust divides.
pub open spec fn div_toward_zero(a: int, b: int) -> int {
    if a >= 0 {
        a / b
    } else {
        -((-a) / b)
    }
}

/// The decimal notation of an integer, with a `-` when it is negative.
pub open spec fn signed_decimal(i: int) -> Seq<char> {
    if i < 0 {
        "-"@ + decimal((-i) as nat)
    } else {
        decimal(i as nat)
    }
}

/// How long before `now` the instant `at` was, in the largest fitting unit of
/// seconds, minutes, hours and days (each rounded toward zero), or the day of `at`
/// from 30 days on.
pub open spec fn relative_time(at: int, now: int) -> Option<Seq<char>> {
    let secs = div_toward_zero(now - at, 1000);
    let mins = div_toward_zero(secs, 60);
    let hours = div_toward_zero(secs, 3600);
    let days = div_toward_zero(secs, 86400);
    if secs < 60 {
        Some(signed_decimal(secs) + "秒前"@)
    } else if mins < 60 {
        Some(signed_decimal(mins) + "分钟前"@)
    } else if hours < 24 {
        Some(signed_decimal(hours) + "小时前"@)
    } else if days < 30 {
        Some(signed_decimal(days) + "天前"@)
    } else {
        formatted_millis_of(at, DAY_FORMAT@)
    }
}

/// Timestamp helpers.
pub struct TimeUtils;

fn formats_list() -> (r: Vec<&'static str>)
    ensures
        r@.map_values(|f: &str| f@) == timestamp_formats(),
{
    let mut r: Vec<&'static str> = Vec::new();
    r.push("%Y-%m-%d %H:%M:%S%.3f");
    r.push("%Y-%m-%d %H:%M:%S");
    r.push("%Y-%m-%dT%H:%M:%S%.3fZ");
    r.push("%Y-%m-%dT%H:%M:%SZ");
    r.push("%Y-%m-%d %H:%M:%S%.3f %z");
    r.push("%Y-%m-%d %H:%M:%S %z");
    assert(r@.map_values(|f: &str| f@) =~= timestamp_formats());
    r
}

fn signed_decimal_string(i: i64) -> (r: String)
    ensures
        r@ == signed_decimal(i as int),
{
    if i < 0 {
        let abs: u64 = if i == i64::MIN {
            9223372036854775808u64
        } else {
            (-i) as u64
        };
        let mut v = chars_of("-");
        let d = decimal_chars_u64(abs);
        crate::text::append(&mut v, &d);
        string_of(&v)
    } else {
        let d = decimal_chars_u64(i as u64);
        string_of(&d)
    }
}

fn with_suffix(n: i64, suffix: &str) -> (r: String)
    ensures
        r@ == signed_decimal(n as int) + suffix@,
{
    let s = signed_decimal_string(n);
    let mut v = chars_of(s.as_str());
    append_str(&mut v, suffix);
    string_of(&v)
}

fn div_toward_zero_exec(a: i64, b: i64) -> (r: i64)
    requires
        b > 0,
    ensures
        r == div_toward_zero(a as int, b as int),
{
    if a >= 0 {
        a / b
    } else if a == i64::MIN {
        let q = (i64::MAX / b) as i128;
        let rem_fix: i128 = if (i64::MAX % b) + 1 == b { 1 } else { 0 };
        let r = -(q + rem_fix);
        assert((-(a as int)) / (b as int) == (i64::MAX / b) + if (i64::MAX % b) + 1 == b { 1int } else { 0int }) by (nonlinear_arith)
            requires
                a == i64::MIN,
                b > 0,
        ;
        r as i64
    } else {
        -((-a) / b)
    }
}

impl TimeUtils {
    /// The instant a timestamp stands for, read with the first format that reads
    /// it (see `timestamp_formats`).
    pub fn parse_timestamp(timestamp_str: &str) -> (r: Option<i64>)
        ensures
            match r {
                Some(m) => first_parsed(timestamp_formats(), timestamp_str@) == Some(m as int),
                None => first_parsed(timestamp_formats(), timestamp_str@) is None,
            },
    {
        let fs = formats_list();
        let ghost p = fs@.map_values(|f: &str| f@);
        let mut i: usize = 0;
        assert(p.skip(0) =~= p);
        while i < fs.len()
            invariant
                i <= fs@.len(),
                p == fs@.map_values(|f: &str| f@),
                p == timestamp_formats(),
                first_parsed(p.skip(i as int), timestamp_str@) == first_parsed(p, timestamp_str@),
            decreases fs.len() - i,
        {
            assert(p.skip(i as int).drop_first() =~= p.skip(i as int + 1));
            assert(p.skip(i as int)[0] == fs@[i as int]@);
            if let Some(m) = parse_millis(timestamp_str, fs[i]) {
                return Some(m);
            }
            i = i + 1;
        }
        assert(p.skip(i as int) =~= Seq::<Seq<char>>::empty());
        None
    }

    /// The instant as `YYYY-MM-DD HH:MM:SS.mmm`; `None` outside chrono's range.
    pub fn format_timestamp(millis: i64) -> (r: Option<String>)
        ensures
            ov(r) == formatted_millis_of(millis as int, DISPLAY_FORMAT@),
    {
        format_millis(millis, DISPLAY_FORMAT)
    }

    /// How long ago the instant was, measured from `now` (see `relative_time`).
    pub fn relative_time_at(millis: i64, now: i64) -> (r: Option<String>)
        ensures
            ov(r) == relative_time(millis as int, now as int),
    {
        let diff: i128 = now as i128 - millis as i128;
        let secs: i64 = if diff >= 0 {
            (diff / 1000) as i64
        } else {
            (-((-diff) / 1000)) as i64
        };
        let mins = div_toward_zero_exec(secs, 60);
        let hours = div_toward_zero_exec(secs, 3600);
        let days = div_toward_zero_exec(secs, 86400);
        if secs < 60 {
            Some(with_suffix(secs, "秒前"))
        } else if mins < 60 {
            Some(with_suffix(mins, "分钟前"))
        } else if hours < 24 {
            Some(with_suffix(hours, "小时前"))
        } else if days < 30 {
            Some(with_suffix(days, "天前"))
        } else {
            format_millis(millis, DAY_FORMAT)
        }
    }

    /// How long ago the instant was, measured from the current time; `None` when
    /// the clock cannot be read as milliseconds since 1970.
    pub fn format_relative_time(millis: i64) -> (r: Option<String>)
        ensures
            r is None || exists|now: i64| ov(r) == relative_time(millis as int, now as int),
    {
        match now_millis() {
            Some(now) => Self::relative_time_at(millis, now),
            None => None,
        }
    }

    /// The current time, in milliseconds since 1970; `None` when the clock is set
    /// before 1970.
    pub fn current_timestamp() -> (r: Option<i64>)
        ensures
            r matches Some(t) ==> t >= 0,
    {
        now_millis()
    }

    /// Milliseconds from `start` to `end`.
    pub fn time_diff_ms(start: i64, end: i64) -> (r: i64)
        requires
            i64::MIN <= end - start <= i64::MAX,
        ensures
            r == end - start,
    {
        end - start
    }
}

} // verus!
