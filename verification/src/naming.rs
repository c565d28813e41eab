//! Names of the persisted artifacts: the per-symbol candle cache file and the
//! timestamped per-run result files, built from plain values so no two runs
//! collide.  The clock itself is read through a trusted wrapper; everything
//! built from its fields is verified.

use vstd::prelude::*;
use chrono::{Datelike, Timelike};

verus! {

/// A civil UTC timestamp split into its fields.
#[derive(Clone, Copy, PartialEq, Eq, Structural, Debug)]
pub struct TimeParts {
    pub year: i32,
    pub month: u32,
    pub day: u32,
    pub hour: u32,
    pub minute: u32,
    pub second: u32,
}

impl TimeParts {
    /// The documented field ranges of a civil timestamp.
    pub open spec fn wf(self) -> bool {
        &&& 1 <= self.month <= 12
        &&& 1 <= self.day <= 31
        &&& self.hour < 24
        &&& self.minute < 60
        &&& self.second < 60
    }
}

/// Relies on chrono's `Utc::now` with the `Datelike` and `Timelike`
/// accessors.  The clock's value depends on the moment of the call, so
/// nothing is promised of it beyond the accessors' documented field ranges
/// (month 1 to 12, day 1 to 31, hour 0 to 23, minute and second 0 to 59).
#[verifier::external_body]
pub fn utc_now_parts() -> (t: TimeParts)
    ensures
        t.wf(),
{
    let now = chrono::Utc::now();
    TimeParts {
        year: now.year(),
        month: now.month(),
        day: now.day(),
        hour: now.hour(),
        minute: now.minute(),
        second: now.second(),
    }
}

/// The character of one decimal digit.
pub open spec fn spec_digit(d: nat) -> char {
    ((48 + d) as u8) as char
}

/// The decimal digits of `n`, most significant first, no leading zeros.
pub open spec fn spec_udec(n: nat) -> Seq<char>
    decreases n,
{
    if n < 10 {
        seq![spec_digit(n)]
    } else {
        spec_udec(n / 10).push(spec_digit(n % 10))
    }
}

/// The decimal form of a signed value: a leading minus sign when negative.
pub open spec fn spec_idec(n: int) -> Seq<char> {
    if n < 0 {
        seq!['-'] + spec_udec((-n) as nat)
    } else {
        spec_udec(n as nat)
    }
}

/// One decimal digit as a string.
fn digit_string(d: u32) -> (s: String)
    requires
        d < 10,
    ensures
        s@ == seq![spec_digit(d as nat)],
{
    let s = if d == 0 {
        String::from_str("0")
    } else if d == 1 {
        String::from_str("1")
    } else if d == 2 {
        String::from_str("2")
    } else if d == 3 {
        String::from_str("3")
    } else if d == 4 {
        String::from_str("4")
    } else if d == 5 {
        String::from_str("5")
    } else if d == 6 {
        String::from_str("6")
    } else if d == 7 {
        String::from_str("7")
    } else if d == 8 {
        String::from_str("8")
    } else {
        String::from_str("9")
    };
    proof {
        reveal_strlit("0");
        reveal_strlit("1");
        reveal_strlit("2");
        reveal_strlit("3");
        reveal_strlit("4");
        reveal_strlit("5");
        reveal_strlit("6");
        reveal_strlit("7");
        reveal_strlit("8");
        reveal_strlit("9");
        assert(s@ =~= seq![spec_digit(d as nat)]);
    }
    s
}

/// The decimal form of `n`.
pub fn u32_to_string(n: u32) -> (s: String)
    ensures
        s@ == spec_udec(n as nat),
    decreases n,
{
    if n < 10 {
        digit_string(n)
    } else {
        let mut s = u32_to_string(n / 10);
        let tail = digit_string(n % 10);
        s.append(tail.as_str());
        proof {
            assert(s@ =~= spec_udec(n as nat));
        }
        s
    }
}

/// The decimal form of `n`, sign included.
pub fn i32_to_string(n: i32) -> (s: String)
    ensures
        s@ == spec_idec(n as int),
{
    if n < 0 {
        let magnitude: u32 = (-(n as i64)) as u32;
        let mut s = String::from_str("-");
        let digits = u32_to_string(magnitude);
        s.append(digits.as_str());
        proof {
            reveal_strlit("-");
            assert("-"@ =~= seq!['-']);
            assert(s@ =~= spec_idec(n as int));
        }
        s
    } else {
        u32_to_string(n as u32)
    }
}

/// Where the candle cache for one symbol/interval pair lives.
pub open spec fn spec_kline_cache_file_name(symbol: Seq<char>, interval: Seq<char>) -> Seq<char> {
    "data/"@ + symbol + "-"@ + interval + ".json"@
}

/// The candle cache file for one symbol/interval pair.
pub fn kline_cache_file_name(symbol: &str, interval: &str) -> (name: String)
    ensures
        name@ == spec_kline_cache_file_name(symbol@, interval@),
{
    let mut name = String::from_str("data/");
    name.append(symbol);
    name.append("-");
    name.append(interval);
    name.append(".json");
    proof {
        assert(name@ =~= spec_kline_cache_file_name(symbol@, interval@));
    }
    name
}

/// The name of one run's result file: the symbol, the interval and the full
/// timestamp, so files of distinct runs never collide.
pub open spec fn spec_result_file_name(
    symbol: Seq<char>,
    interval: Seq<char>,
    t: TimeParts,
) -> Seq<char> {
    symbol + "-"@ + interval + "_"@ + spec_idec(t.year as int) + "_"@ + spec_udec(t.month as nat)
        + "_"@ + spec_udec(t.day as nat) + "_"@ + spec_udec(t.hour as nat) + "h"@ + spec_udec(
        t.minute as nat,
    ) + "m"@ + spec_udec(t.second as nat) + "s.json"@
}

/// Build the result file name for one run from the symbol, the interval and
/// a timestamp (as the clock read when the run's reports were written).
pub fn generate_result_name(symbol: &String, interval: &String, t: TimeParts) -> (name: String)
    ensures
        name@ == spec_result_file_name(symbol@, interval@, t),
{
    let mut name = String::new();
    name.append(symbol.as_str());
    name.append("-");
    name.append(interval.as_str());
    name.append("_");
    let year = i32_to_string(t.year);
    name.append(year.as_str());
    name.append("_");
    let month = u32_to_string(t.month);
    name.append(month.as_str());
    name.append("_");
    let day = u32_to_string(t.day);
    name.append(day.as_str());
    name.append("_");
    let hour = u32_to_string(t.hour);
    name.append(hour.as_str());
    name.append("h");
    let minute = u32_to_string(t.minute);
    name.append(minute.as_str());
    name.append("m");
    let second = u32_to_string(t.second);
    name.append(second.as_str());
    name.append("s.json");
    proof {
        assert(name@ =~= spec_result_file_name(symbol@, interval@, t));
    }
    name
}

} // verus!
