//! Core domain types shared across fetchers, pipeline, and tools.
use vstd::prelude::*;

verus! {

/// Topic of an article or feed.
#[derive(Clone, Copy, Debug, PartialEq, Eq, Structural)]
pub enum Category {
    Crypto,
    Ai,
    Security,
    Market,
}

/// The `humantime` crate's duration parse error.
#[verifier::external_type_specification]
#[verifier::external_body]
pub struct ExDurationError(humantime::DurationError);

/// Whether `humantime::parse_duration` accepts `s` as a duration.
pub uninterp spec fn humantime_accepts(s: Seq<char>) -> bool;

/// The duration `humantime::parse_duration` reads from `s`, in nanoseconds.
pub uninterp spec fn humantime_nanos(s: Seq<char>) -> u128;

/// Nanoseconds in a second.
pub const NANOS_PER_SEC: u128 = 1_000_000_000;

/// The most nanoseconds a `Duration` holds: `u64::MAX` seconds and just
/// under one more second.
pub open spec fn max_duration_nanos() -> int {
    (u64::MAX as int + 1) * 1_000_000_000 - 1
}

/// Number of ASCII digits in `s`.
pub open spec fn digit_count(s: Seq<char>) -> nat
    decreases s.len(),
{
    if s.len() == 0 {
        0
    } else {
        digit_count(s.drop_last()) + if '0' <= s.last() && s.last() <= '9' {
            1nat
        } else {
            0nat
        }
    }
}

/// Most ASCII digits a duration text may hold. With at most this many digits
/// every span is under 10^11 years, so the seconds humantime adds up stay far
/// below `u64::MAX`, where its carry of a whole second into a full seconds
/// count would make `Duration::new` panic.
pub const MAX_DURATION_DIGITS: usize = 11;

/// `humantime::parse_duration`: reads a duration such as `"12h"` or
/// `"2h 37min"`, handed back as its length in nanoseconds
/// (`Duration::as_nanos`). It succeeds exactly when [`humantime_accepts`]
/// holds of the text, the length is [`humantime_nanos`] of the text, it is
/// no longer than a `Duration` can be, and `"0"` reads as zero. The text is
/// kept to [`MAX_DURATION_DIGITS`] digits: on a text whose spans sum to
/// exactly `u64::MAX` seconds and one more second of nanoseconds the parser
/// panics.
#[verifier::external_body]
fn parse_duration(s: &str) -> (r: Result<u128, humantime::DurationError>)
    requires
        digit_count(s@) <= MAX_DURATION_DIGITS,
    ensures
        r is Ok <==> humantime_accepts(s@),
        r matches Ok(n) ==> n == humantime_nanos(s@) && n <= max_duration_nanos() && (s@ == "0"@ ==> n == 0),
        s@ == "0"@ ==> r is Ok,
{
    humantime::parse_duration(s).map(|d| d.as_nanos())
}

/// The `Duration` of `secs` whole seconds and `nanos` nanoseconds.
pub uninterp spec fn std_duration(secs: u64, nanos: u32) -> std::time::Duration;

/// `std::time::Duration::new` with fewer than a second of nanoseconds, which
/// never carries into the seconds and so never panics.
#[verifier::external_body]
fn duration_new(secs: u64, nanos: u32) -> (d: std::time::Duration)
    requires
        nanos < 1_000_000_000,
    ensures
        d == std_duration(secs, nanos),
{
    std::time::Duration::new(secs, nanos)
}

/// The message of a duration parse error (its `Display` form); nothing is
/// stated of the text.
#[verifier::external_body]
fn duration_error_message(e: &humantime::DurationError) -> String {
    e.to_string()
}

/// The error for a duration text with too many digits.
pub open spec fn too_many_digits() -> Seq<char> {
    "duration has more than 11 digits"@
}

/// Count the ASCII digits of `s`.
pub fn count_digits(s: &str) -> (n: usize)
    ensures
        n == digit_count(s@),
{
    let c = crate::text::chars_of(s);
    let mut n: usize = 0;
    let mut i: usize = 0;
    while i < c.len()
        invariant
            i <= c.len(),
            c@ == s@,
            n == digit_count(c@.take(i as int)),
            n <= i,
        decreases c.len() - i,
    {
        assert(c@.take(i + 1).drop_last() =~= c@.take(i as int));
        if '0' <= c[i] && c[i] <= '9' {
            n += 1;
        }
        i += 1;
    }
    assert(c@.take(c.len() as int) =~= c@);
    n
}

/// A humantime duration string (`"12h"`, `"30m"`) parsed eagerly at load.
///
/// Wraps `std::time::Duration` so config structs can hold real durations while
/// still reading from the human-friendly string form.
#[derive(Clone, Copy, Debug, PartialEq, Eq)]
pub struct HumanDuration(pub std::time::Duration);

impl HumanDuration {
    /// The wrapped duration.
    pub fn as_duration(self) -> (d: std::time::Duration)
        ensures
            d == self.0,
    {
        self.0
    }

    /// Read a duration written the humantime way; the error carries the
    /// parser's message. A text with more than [`MAX_DURATION_DIGITS`] digits
    /// is refused before it reaches the parser.
    pub fn parse(s: &str) -> (r: Result<HumanDuration, String>)
        ensures
            digit_count(s@) > MAX_DURATION_DIGITS ==> (r matches Err(m) && m@ == too_many_digits()),
            digit_count(s@) <= MAX_DURATION_DIGITS ==> (r is Ok <==> humantime_accepts(s@)),
            r matches Ok(h) ==> h.0 == std_duration(
                (humantime_nanos(s@) / NANOS_PER_SEC) as u64,
                (humantime_nanos(s@) % NANOS_PER_SEC) as u32,
            ),
    {
        if count_digits(s) > MAX_DURATION_DIGITS {
            return Err(String::from_str("duration has more than 11 digits"));
        }
        match parse_duration(s) {
            Ok(n) => {
                let secs = (n / NANOS_PER_SEC) as u64;
                let nanos = (n % NANOS_PER_SEC) as u32;
                Ok(HumanDuration(duration_new(secs, nanos)))
            },
            Err(e) => Err(duration_error_message(&e)),
        }
    }
}

} // verus!
