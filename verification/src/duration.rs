//! Spans of time with millisecond resolution.

use vstd::prelude::*;

use crate::text;
use crate::text::Text;

verus! {

/// A span of time: whole seconds and the milliseconds beyond them.
#[derive(Debug, Clone, Copy, PartialEq, Eq, Structural)]
pub struct Duration {
    pub secs: u64,
    pub millis: u16,
}

impl Duration {
    /// The milliseconds stay below one second.
    pub open spec fn wf(self) -> bool {
        self.millis < 1000
    }

    /// The span in milliseconds.
    pub open spec fn total_millis(self) -> int {
        self.secs * 1000 + self.millis
    }

    pub fn from_secs(secs: u64) -> (r: Duration)
        ensures
            r == (Duration { secs, millis: 0 }),
    {
        Duration { secs, millis: 0 }
    }

    pub fn from_millis(n: u64) -> (r: Duration)
        ensures
            r.wf(),
            r.total_millis() == n,
            r == (Duration { secs: n / 1000, millis: (n % 1000) as u16 }),
    {
        Duration { secs: n / 1000, millis: (n % 1000) as u16 }
    }

    /// The whole seconds of the span.
    pub fn as_secs(self) -> (r: u64)
        ensures
            r == self.secs,
    {
        self.secs
    }

    pub fn is_zero(self) -> (r: bool)
        ensures
            r == (self.secs == 0 && self.millis == 0),
    {
        self.secs == 0 && self.millis == 0
    }
}

/// `n` units of `mult` seconds each, if that fits.
pub open spec fn scaled_secs(digits: Text, mult: nat) -> Option<Duration> {
    match text::parse_unsigned(digits, u64::MAX as nat) {
        Some(n) => if n * mult <= u64::MAX {
            Some(Duration { secs: (n * mult) as u64, millis: 0 })
        } else {
            None
        },
        None => None,
    }
}

/// The span that `s` denotes: digits followed by `ms`, `s`, `m` or `h`.
pub open spec fn duration_of(s: Text) -> Option<Duration> {
    if text::ends_with(s, "ms"@) {
        match text::parse_unsigned(s.take(s.len() - 2), u64::MAX as nat) {
            Some(n) => Some(
                Duration { secs: (n as u64) / 1000, millis: ((n as u64) % 1000) as u16 },
            ),
            None => None,
        }
    } else if text::ends_with(s, "s"@) {
        scaled_secs(s.drop_last(), 1)
    } else if text::ends_with(s, "m"@) {
        scaled_secs(s.drop_last(), 60)
    } else if text::ends_with(s, "h"@) {
        scaled_secs(s.drop_last(), 3600)
    } else {
        None
    }
}

fn scale(v: &Vec<char>, mult: u64) -> (r: Option<Duration>)
    requires
        v@.len() > 0,
        mult > 0,
    ensures
        r == scaled_secs(v@.drop_last(), mult as nat),
{
    let digits = text::sub_chars(v, 0, v.len() - 1);
    assert(digits@ =~= v@.drop_last());
    match text::parse_digits(&digits, u64::MAX) {
        Some(n) => match n.checked_mul(mult) {
            Some(secs) => Some(Duration::from_secs(secs)),
            None => None,
        },
        None => None,
    }
}

/// The span that `s` denotes: digits followed by `ms`, `s`, `m` or `h`.
pub fn parse_duration_str(s: &str) -> (r: Option<Duration>)
    ensures
        r == duration_of(s@),
        r is Some ==> r->0.wf(),
{
    proof {
        reveal_strlit("ms");
        reveal_strlit("s");
        reveal_strlit("m");
        reveal_strlit("h");
    }
    let v = text::chars_of(s);
    if text::chars_end_with(&v, "ms") {
        let digits = text::sub_chars(&v, 0, v.len() - 2);
        assert(digits@ =~= v@.take(v@.len() - 2));
        match text::parse_digits(&digits, u64::MAX) {
            Some(n) => Some(Duration::from_millis(n)),
            None => None,
        }
    } else if text::chars_end_with(&v, "s") {
        scale(&v, 1)
    } else if text::chars_end_with(&v, "m") {
        scale(&v, 60)
    } else if text::chars_end_with(&v, "h") {
        scale(&v, 3600)
    } else {
        None
    }
}

/// A span in its largest whole unit; fractions of a second are not shown.
pub open spec fn duration_text(d: Duration) -> Text {
    if d.secs == 0 {
        "0s"@
    } else if d.secs % 86_400 == 0 {
        text::decimal((d.secs / 86_400) as nat) + "d"@
    } else if d.secs % 3_600 == 0 {
        text::decimal((d.secs / 3_600) as nat) + "h"@
    } else if d.secs % 60 == 0 {
        text::decimal((d.secs / 60) as nat) + "m"@
    } else {
        text::decimal(d.secs as nat) + "s"@
    }
}

/// A span in its largest whole unit; fractions of a second are not shown.
pub fn format_duration(d: Duration) -> (r: String)
    ensures
        r@ == duration_text(d),
{
    let seconds = d.as_secs();
    if seconds == 0 {
        return "0s".to_owned();
    }
    if seconds % 86_400 == 0 {
        return text::concat2(text::decimal_u64(seconds / 86_400).as_str(), "d");
    }
    if seconds % 3_600 == 0 {
        return text::concat2(text::decimal_u64(seconds / 3_600).as_str(), "h");
    }
    if seconds % 60 == 0 {
        return text::concat2(text::decimal_u64(seconds / 60).as_str(), "m");
    }
    text::concat2(text::decimal_u64(seconds).as_str(), "s")
}

/// `millis` as a span, unless it is negative.
pub fn duration_from_nonnegative_millis(millis: i64) -> (r: Option<Duration>)
    ensures
        match r {
            Some(d) => millis >= 0 && d.wf() && d.total_millis() == millis,
            None => millis < 0,
        },
{
    if millis < 0 {
        None
    } else {
        Some(Duration::from_millis(millis as u64))
    }
}

/// A span of whole seconds is read back from its text, unless it is a number
/// of whole days: days have no unit of input.
pub proof fn lemma_duration_read_back(d: Duration)
    requires
        d.millis == 0,
        d.secs == 0 || d.secs % 86_400 != 0,
    ensures
        duration_of(duration_text(d)) == Some(d),
{
    reveal_strlit("0s");
    reveal_strlit("ms");
    reveal_strlit("s");
    reveal_strlit("m");
    reveal_strlit("h");
    let (mult, unit) = if d.secs == 0 {
        (1nat, "s"@)
    } else if d.secs % 3_600 == 0 {
        (3_600nat, "h"@)
    } else if d.secs % 60 == 0 {
        (60nat, "m"@)
    } else {
        (1nat, "s"@)
    };
    let n = d.secs as nat / mult;
    assert(n * mult == d.secs) by (nonlinear_arith)
        requires
            n == d.secs as nat / mult,
            d.secs as nat % mult == 0,
            mult > 0,
    ;
    let digits = text::decimal(n);
    text::lemma_decimal_read_back(n, u64::MAX as nat);
    let s = duration_text(d);
    assert(s =~= digits + unit);
    assert(s.drop_last() =~= digits);
    assert(s[s.len() - 1] == unit[0]);
    assert(text::is_digit(digits[digits.len() - 1]));
    assert(s[s.len() - 2] == digits[digits.len() - 1]);
    let end = s.len() as int;
    assert(s.subrange(end - 2, end)[0] == s[end - 2]);
    assert("ms"@[0] == 'm');
    assert(!text::ends_with(s, "ms"@));
    assert(s.subrange(end - 1, end) =~= unit);
    assert("s"@[0] == 's' && "m"@[0] == 'm' && "h"@[0] == 'h');
    assert(scaled_secs(digits, mult) == Some(d));
    assert(text::ends_with(s, "s"@) == (unit == "s"@));
    assert(text::ends_with(s, "m"@) == (unit == "m"@));
    assert(text::ends_with(s, "h"@) == (unit == "h"@));
}

} // verus!
