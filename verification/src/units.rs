//! Durations and byte sizes as people write them: `1ms`, `5s`, `44.0 MB`.
//!
//! The grammars are those of the `humantime` and `bytesize` crates, which do
//! the reading. This module names what they read and guards the calls.

use vstd::prelude::*;
use vstd::string::StringSliceAdditionalSpecFns;
use vstd::utf8::encode_utf8;

verus! {

/// How many decimal digits a duration may hold in all.
///
/// `humantime` adds up seconds in a `std::time::Duration` and stops with a
/// panic where the sum, with a carry from the nanoseconds, passes `u64::MAX`.
/// Each number of the text counts at most 31 557 600 seconds (a year), so
/// with eleven digits in all the sum stays below 10^11 * 31 557 600 + 10^11,
/// which is less than 2^62.
pub const MAX_DURATION_DIGITS: usize = 11;

/// A span of time: whole seconds and the nanoseconds of the second begun.
#[derive(Clone, Copy, Debug, PartialEq, Eq)]
pub struct TimeSpan {
    secs: u64,
    nanos: u32,
}

/// The mathematical content of a [`TimeSpan`].
pub struct TimeSpanView {
    pub secs: nat,
    /// Less than a second: below 1 000 000 000.
    pub nanos: nat,
}

impl TimeSpanView {
    /// The span in nanoseconds.
    pub open spec fn total_nanos(self) -> nat {
        self.secs * 1_000_000_000 + self.nanos
    }
}

impl TimeSpan {
    #[verifier::type_invariant]
    spec fn inv(self) -> bool {
        self.nanos < 1_000_000_000
    }

    /// The seconds and nanoseconds.
    pub closed spec fn view(&self) -> TimeSpanView {
        TimeSpanView { secs: self.secs as nat, nanos: self.nanos as nat }
    }

    /// The span of `secs` seconds and `nanos` nanoseconds, where `nanos` is
    /// less than a second.
    pub fn new(secs: u64, nanos: u32) -> (span: Option<TimeSpan>)
        ensures
            span is Some == (nanos < 1_000_000_000),
            span matches Some(t) ==> t@ == (TimeSpanView { secs: secs as nat, nanos: nanos as nat }),
    {
        if nanos < 1_000_000_000 {
            Some(TimeSpan { secs, nanos })
        } else {
            None
        }
    }

    /// The whole seconds of the span.
    pub fn as_secs(&self) -> (s: u64)
        ensures
            s == self@.secs,
    {
        self.secs
    }

    /// The nanoseconds of the second begun.
    pub fn subsec_nanos(&self) -> (n: u32)
        ensures
            n == self@.nanos,
            n < 1_000_000_000,
    {
        proof {
            use_type_invariant(self);
        }
        self.nanos
    }

    /// The span in nanoseconds.
    pub fn as_nanos(&self) -> (n: u128)
        ensures
            n == self@.total_nanos(),
    {
        proof {
            use_type_invariant(self);
        }
        let secs: u128 = self.secs as u128;
        let nanos: u128 = self.nanos as u128;
        assert(secs * 1_000_000_000 <= 0xffff_ffff_ffff_ffff * 1_000_000_000) by (nonlinear_arith)
            requires
                secs <= 0xffff_ffff_ffff_ffff,
        ;
        secs * 1_000_000_000 + nanos
    }
}

/// Whether `b` is the code of a decimal digit.
pub open spec fn is_digit_byte(b: u8) -> bool {
    48 <= b <= 57
}

/// How many bytes of `bytes` are decimal digits.
pub open spec fn digit_bytes(bytes: Seq<u8>) -> nat
    decreases bytes.len(),
{
    if bytes.len() == 0 {
        0
    } else {
        digit_bytes(bytes.drop_last()) + if is_digit_byte(bytes.last()) {
            1nat
        } else {
            0nat
        }
    }
}

/// Whether a text is short enough in digits to be read as a duration. The
/// digits are counted in the bytes of the text as it is stored.
pub open spec fn duration_digits_fit(text: Seq<char>) -> bool {
    digit_bytes(encode_utf8(text)) <= MAX_DURATION_DIGITS
}

/// What `humantime::parse_duration` reads in a text: the seconds and the
/// nanoseconds of the duration, or nothing where the text is none.
pub uninterp spec fn humantime_reading(text: Seq<char>) -> Option<(u64, u32)>;

/// What `bytesize` reads in a text: the number of bytes, or the message that
/// says why the text is no size.
pub uninterp spec fn bytesize_reading(text: Seq<char>) -> Result<u64, Seq<char>>;

/// Calls `humantime::parse_duration`.
///
/// The contract claims that the call returns, for a text with at most
/// [`MAX_DURATION_DIGITS`] digits; that what it returns depends on the text
/// alone; and that the nanoseconds are those of `Duration::subsec_nanos`,
/// which are less than a second. Nothing of the grammar is claimed.
#[verifier::external_body]
fn humantime_parse(text: &str) -> (r: Option<(u64, u32)>)
    requires
        duration_digits_fit(text@),
    ensures
        r == humantime_reading(text@),
        r matches Some((_, nanos)) ==> nanos < 1_000_000_000,
{
    match humantime::parse_duration(text) {
        Ok(d) => Some((d.as_secs(), d.subsec_nanos())),
        Err(_) => None,
    }
}

/// Calls `bytesize`'s `FromStr` for `ByteSize`.
///
/// The contract claims that what the call returns depends on the text alone.
/// Nothing of the grammar is claimed.
#[verifier::external_body]
fn bytesize_parse(text: &str) -> (r: Result<u64, String>)
    ensures
        match r {
            Ok(n) => bytesize_reading(text@) == Ok::<u64, Seq<char>>(n),
            Err(m) => bytesize_reading(text@) == Err::<u64, Seq<char>>(m@),
        },
{
    match text.parse::<bytesize::ByteSize>() {
        Ok(size) => Ok(size.0),
        Err(message) => Err(message),
    }
}

/// Counts the decimal digits of a text.
pub fn count_digits(text: &str) -> (n: usize)
    ensures
        n == digit_bytes(text.spec_bytes()),
{
    let bytes = text.as_bytes();
    let mut n: usize = 0;
    let mut i: usize = 0;
    assert(bytes@.subrange(0, 0) =~= Seq::<u8>::empty());
    while i < bytes.len()
        invariant
            i <= bytes.len(),
            n <= i,
            n == digit_bytes(bytes@.subrange(0, i as int)),
        decreases bytes.len() - i,
    {
        let b: u8 = bytes[i];
        assert(bytes@.subrange(0, i as int + 1).drop_last() =~= bytes@.subrange(0, i as int));
        if 48 <= b && b <= 57 {
            n += 1;
        }
        i += 1;
    }
    assert(bytes@.subrange(0, i as int) =~= bytes@);
    n
}

/// The span that a reading of `humantime` stands for.
pub open spec fn span_of_reading(reading: Option<(u64, u32)>) -> Option<TimeSpanView> {
    match reading {
        Some((secs, nanos)) => if nanos < 1_000_000_000 {
            Some(TimeSpanView { secs: secs as nat, nanos: nanos as nat })
        } else {
            None
        },
        None => None,
    }
}

/// What a text is as a duration: what `humantime` reads in it, and nothing
/// where the text holds more digits than [`MAX_DURATION_DIGITS`].
pub open spec fn duration_of(text: Seq<char>) -> Option<TimeSpanView> {
    if duration_digits_fit(text) {
        span_of_reading(humantime_reading(text))
    } else {
        None
    }
}

/// The span for what `humantime` read.
pub fn span_from_reading(reading: Option<(u64, u32)>) -> (span: Option<TimeSpan>)
    ensures
        match span {
            Some(t) => span_of_reading(reading) == Some(t@),
            None => span_of_reading(reading) is None,
        },
{
    match reading {
        Some((secs, nanos)) => TimeSpan::new(secs, nanos),
        None => None,
    }
}

/// Reads a duration such as `1ms`, `5s` or `2h 37min`.
pub fn parse_duration(text: &str) -> (span: Option<TimeSpan>)
    ensures
        match span {
            Some(t) => duration_of(text@) == Some(t@),
            None => duration_of(text@) is None,
        },
{
    if count_digits(text) > MAX_DURATION_DIGITS {
        return None;
    }
    span_from_reading(humantime_parse(text))
}

/// Reads a byte size such as `44.0 MB` or `1024`.
pub fn parse_size(text: &str) -> (size: Result<u64, String>)
    ensures
        match size {
            Ok(n) => bytesize_reading(text@) == Ok::<u64, Seq<char>>(n),
            Err(m) => bytesize_reading(text@) == Err::<u64, Seq<char>>(m@),
        },
{
    bytesize_parse(text)
}

} // verus!
