//! Spans of time as `chrono`'s `TimeDelta` holds them: whole seconds,
//! rounded down, and the nanoseconds beyond them, within its bounds.
use vstd::prelude::*;
use crate::decimal::decimal_chars;

verus! {

/// The whole seconds of the shortest span: `-i64::MAX` milliseconds,
/// rounded down to a second.
pub const MIN_SECS: i64 = -9223372036854776;

/// The nanoseconds of the shortest span beyond its whole seconds.
pub const MIN_NANOS: u32 = 193_000_000;

/// The whole seconds of the longest span: `i64::MAX` milliseconds.
pub const MAX_SECS: i64 = 9223372036854775;

/// The nanoseconds of the longest span beyond its whole seconds.
pub const MAX_NANOS: u32 = 807_000_000;

/// `secs` seconds and `nanos` nanoseconds make a span: `nanos` is below a
/// second, and the span lies between `-i64::MAX` and `i64::MAX`
/// milliseconds.
pub open spec fn span_in_range(secs: int, nanos: int) -> bool {
    &&& 0 <= nanos < 1_000_000_000
    &&& MIN_SECS <= secs <= MAX_SECS
    &&& !(secs == MAX_SECS && nanos > MAX_NANOS)
    &&& !(secs == MIN_SECS && nanos < MIN_NANOS)
}

/// The whole seconds of a span, rounded toward zero.
pub open spec fn whole_seconds_of(secs: int, nanos: int) -> int {
    if secs < 0 && nanos > 0 {
        secs + 1
    } else {
        secs
    }
}

/// The length of a span, as whole seconds and the nanoseconds beyond them.
pub open spec fn magnitude(secs: int, nanos: int) -> (int, int) {
    if secs < 0 {
        if nanos == 0 {
            (-secs, 0)
        } else {
            (-secs - 1, 1_000_000_000 - nanos)
        }
    } else {
        (secs, nanos)
    }
}

/// The nine digit text of `n` (below a billion), with zeros in front.
pub open spec fn nine_digits(n: int) -> Seq<char> {
    let d = decimal_chars(n);
    Seq::new((9 - d.len()) as nat, |k: int| '0') + d
}

/// `s` without the zeros at its end.
pub open spec fn without_trailing_zeros(s: Seq<char>) -> Seq<char>
    decreases s.len(),
{
    if s.len() > 0 && s.last() == '0' {
        without_trailing_zeros(s.drop_last())
    } else {
        s
    }
}

/// The ISO 8601 text of a span: `-` when it is negative, `P`, then `0D`
/// for an empty span, else `T`, the whole seconds of its length, the
/// nanoseconds of its length as a fraction without trailing zeros when
/// there are any, and `S`.
pub open spec fn iso_duration_text(secs: int, nanos: int) -> Seq<char> {
    let (s, n) = magnitude(secs, nanos);
    let sign = if secs < 0 {
        seq!['-']
    } else {
        Seq::<char>::empty()
    };
    let body = if s == 0 && n == 0 {
        seq!['0', 'D']
    } else {
        seq!['T'] + decimal_chars(s) + (if n > 0 {
            seq!['.'] + without_trailing_zeros(nine_digits(n))
        } else {
            Seq::<char>::empty()
        }) + seq!['S']
    };
    sign + seq!['P'] + body
}

/// `TimeDelta::new`: whether chrono makes a span of `secs` seconds and
/// `nanos` nanoseconds; it does exactly within its bounds.
#[verifier::external_body]
fn delta_fits(secs: i64, nanos: u32) -> (r: bool)
    ensures
        r == span_in_range(secs as int, nanos as int),
{
    chrono::TimeDelta::new(secs, nanos).is_some()
}

/// `TimeDelta::num_seconds` of the span of `secs` seconds and `nanos`
/// nanoseconds: its whole seconds, rounded toward zero.
#[verifier::external_body]
fn delta_num_seconds(secs: i64, nanos: u32) -> (r: i64)
    requires
        span_in_range(secs as int, nanos as int),
    ensures
        r == whole_seconds_of(secs as int, nanos as int),
{
    chrono::TimeDelta::new(secs, nanos).unwrap_or_default().num_seconds()
}

/// `TimeDelta`'s `Display` of the span of `secs` seconds and `nanos`
/// nanoseconds: its ISO 8601 text (see `iso_duration_text`).
#[verifier::external_body]
fn delta_text(secs: i64, nanos: u32) -> (r: String)
    requires
        span_in_range(secs as int, nanos as int),
    ensures
        r@ == iso_duration_text(secs as int, nanos as int),
{
    chrono::TimeDelta::new(secs, nanos).unwrap_or_default().to_string()
}

/// A span of time: whole seconds, rounded down, and the nanoseconds beyond
/// them.
#[derive(Debug, Clone, Copy, PartialEq, Eq, Hash, Structural)]
pub struct TimeSpan {
    secs: i64,
    nanos: u32,
}

impl TimeSpan {
    #[verifier::type_invariant]
    spec fn in_bounds(self) -> bool {
        span_in_range(self.secs as int, self.nanos as int)
    }

    /// The whole seconds, rounded down.
    pub closed spec fn spec_secs(self) -> int {
        self.secs as int
    }

    /// The nanoseconds beyond the whole seconds.
    pub closed spec fn spec_nanos(self) -> int {
        self.nanos as int
    }

    /// The whole seconds, rounded toward zero.
    pub open spec fn spec_whole_seconds(self) -> int {
        whole_seconds_of(self.spec_secs(), self.spec_nanos())
    }

    /// The ISO 8601 text.
    pub open spec fn spec_text(self) -> Seq<char> {
        iso_duration_text(self.spec_secs(), self.spec_nanos())
    }

    /// The span of `secs` seconds and `nanos` nanoseconds, when it is within
    /// the bounds (see `span_in_range`).
    pub fn new(secs: i64, nanos: u32) -> (r: Option<TimeSpan>)
        ensures
            r is Some == span_in_range(secs as int, nanos as int),
            r matches Some(t) ==> t.spec_secs() == secs && t.spec_nanos() == nanos,
    {
        if delta_fits(secs, nanos) {
            Some(TimeSpan { secs, nanos })
        } else {
            None
        }
    }

    /// The whole seconds of the span, rounded toward zero.
    pub fn num_seconds(&self) -> (r: i64)
        ensures
            r == self.spec_whole_seconds(),
    {
        proof {
            use_type_invariant(self);
        }
        delta_num_seconds(self.secs, self.nanos)
    }

    /// The ISO 8601 text of the span (see `iso_duration_text`).
    pub fn to_string(&self) -> (r: String)
        ensures
            r@ == self.spec_text(),
    {
        proof {
            use_type_invariant(self);
        }
        delta_text(self.secs, self.nanos)
    }
}

} // verus!
