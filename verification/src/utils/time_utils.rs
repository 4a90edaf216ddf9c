//! Instants and elapsed times as plain values, and their text forms.

use vstd::prelude::*;

verus! {

/// An instant on the UTC time line: whole seconds since 1970-01-01T00:00:00Z
/// and the nanoseconds past that second.
#[derive(Clone, Copy, Debug, PartialEq, Eq)]
pub struct Timestamp {
    pub secs: i64,
    pub nanos: u32,
}

/// Largest magnitude of an elapsed time, in nanoseconds: `i64::MAX`
/// milliseconds.
pub open spec fn span_limit() -> int {
    0x7fff_ffff_ffff_ffffint * 1_000_000
}

/// Division by a positive number that rounds towards zero.
pub open spec fn trunc_div(a: int, b: int) -> int {
    if a >= 0 {
        a / b
    } else {
        -((-a) / b)
    }
}

/// The value fits in an `i64`.
pub open spec fn fits_i64(v: int) -> bool {
    i64::MIN <= v <= i64::MAX
}

/// A signed elapsed time with nanosecond precision, between `-i64::MAX` and
/// `i64::MAX` milliseconds.  Its view is its length in nanoseconds.
pub struct TimeSpan {
    secs: i64,
    nanos: u32,
}

impl View for TimeSpan {
    type V = int;

    closed spec fn view(&self) -> int {
        self.secs * 1_000_000_000 + self.nanos
    }
}

impl TimeSpan {
    #[verifier::type_invariant]
    closed spec fn inv(self) -> bool {
        &&& self.nanos < 1_000_000_000
        &&& -span_limit() <= self.secs * 1_000_000_000 + self.nanos <= span_limit()
    }

    /// The elapsed time of `secs` seconds and `nanos` nanoseconds; `None` when
    /// `nanos` is not below one second or the total is out of range.
    pub fn new(secs: i64, nanos: u32) -> (r: Option<TimeSpan>)
        ensures
            r is Some <==> (nanos < 1_000_000_000 && -span_limit() <= secs * 1_000_000_000
                + nanos <= span_limit()),
            r matches Some(d) ==> d@ == secs * 1_000_000_000 + nanos,
    {
        if nanos >= 1_000_000_000 {
            return None;
        }
        let total: i128 = secs as i128 * 1_000_000_000 + nanos as i128;
        let limit: i128 = 0x7fff_ffff_ffff_ffff * 1_000_000;
        if total < -limit || total > limit {
            None
        } else {
            Some(TimeSpan { secs, nanos })
        }
    }

    /// The elapsed time whose whole seconds are `whole_secs` and whose
    /// fraction, of the same sign, is `subsec_nanos`; `None` when the
    /// fraction is a second or more or the total is out of range.
    pub fn from_signed_parts(whole_secs: i64, subsec_nanos: i32) -> (r: Option<TimeSpan>)
        ensures
            r is Some <==> (-1_000_000_000 < subsec_nanos < 1_000_000_000 && -span_limit()
                <= whole_secs * 1_000_000_000 + subsec_nanos <= span_limit()),
            r matches Some(d) ==> d@ == whole_secs * 1_000_000_000 + subsec_nanos,
    {
        if subsec_nanos <= -1_000_000_000 || subsec_nanos >= 1_000_000_000 {
            return None;
        }
        if subsec_nanos >= 0 {
            TimeSpan::new(whole_secs, subsec_nanos as u32)
        } else if whole_secs == i64::MIN {
            None
        } else {
            TimeSpan::new(whole_secs - 1, (subsec_nanos + 1_000_000_000) as u32)
        }
    }

    /// The elapsed time of `micros` microseconds.
    pub fn microseconds(micros: i64) -> (r: TimeSpan)
        ensures
            r@ == micros * 1000,
    {
        let total: i128 = micros as i128 * 1000;
        let secs: i128 = if total >= 0 {
            total / 1_000_000_000
        } else {
            -((-total + 999_999_999) / 1_000_000_000)
        };
        let nanos: i128 = total - secs * 1_000_000_000;
        assert(0 <= nanos < 1_000_000_000) by (nonlinear_arith)
            requires
                secs == (if total >= 0 {
                    total / 1_000_000_000
                } else {
                    -((-total + 999_999_999) / 1_000_000_000)
                }),
                nanos == total - secs * 1_000_000_000,
        ;
        let r = TimeSpan { secs: secs as i64, nanos: nanos as u32 };
        r
    }

    /// Whole seconds of the split into seconds and a non-negative fraction.
    pub fn floor_secs(&self) -> (r: i64)
        ensures
            self@ == r * 1_000_000_000 + self.fraction_nanos_spec(),
    {
        self.secs
    }

    /// The non-negative nanosecond fraction that goes with [`floor_secs`].
    pub closed spec fn fraction_nanos_spec(&self) -> int {
        self.nanos as int
    }

    /// The non-negative nanosecond fraction, below one second.
    pub fn fraction_nanos(&self) -> (r: u32)
        ensures
            r == self.fraction_nanos_spec(),
            r < 1_000_000_000,
    {
        proof {
            use_type_invariant(self);
        }
        self.nanos
    }

    /// Length in whole milliseconds, rounded towards zero.
    pub fn num_milliseconds(&self) -> (r: i64)
        ensures
            r == trunc_div(self@, 1_000_000),
    {
        proof {
            use_type_invariant(self);
        }
        let total: i128 = self.secs as i128 * 1_000_000_000 + self.nanos as i128;
        if total >= 0 {
            (total / 1_000_000) as i64
        } else {
            -((-total) / 1_000_000) as i64
        }
    }

    /// Length in whole microseconds, rounded towards zero; `None` when that
    /// does not fit in an `i64`.
    pub fn num_microseconds(&self) -> (r: Option<i64>)
        ensures
            r == (if fits_i64(trunc_div(self@, 1000)) {
                Some(trunc_div(self@, 1000) as i64)
            } else {
                None::<i64>
            }),
    {
        proof {
            use_type_invariant(self);
        }
        let total: i128 = self.secs as i128 * 1_000_000_000 + self.nanos as i128;
        let micros: i128 = if total >= 0 {
            total / 1000
        } else {
            -((-total) / 1000)
        };
        if micros < i64::MIN as i128 || micros > i64::MAX as i128 {
            None
        } else {
            Some(micros as i64)
        }
    }
}

/// The instant that `chrono::DateTime::parse_from_rfc3339` reads from an RFC
/// 3339 text, as whole seconds since the epoch and the nanoseconds past them,
/// or `None` when chrono refuses the text.
pub uninterp spec fn rfc3339_instant(text: Seq<char>) -> Option<(i64, u32)>;

/// The text that chrono's `DateTime::<Utc>::to_rfc3339` writes for the instant
/// `secs`, `nanos`, or `None` when `DateTime::from_timestamp` has no such
/// instant.
pub uninterp spec fn rfc3339_text(secs: i64, nanos: u32) -> Option<Seq<char>>;

/// The text that chrono's `DateTime::<Utc>::format(pattern)` writes for the
/// instant `secs`, `nanos`, or `None` when `DateTime::from_timestamp` has no
/// such instant.
pub uninterp spec fn utc_format_text(secs: i64, nanos: u32, pattern: Seq<char>) -> Option<Seq<char>>;

/// The instant `secs`, `nanos` has an RFC 3339 text that reads back as the
/// same instant: its year lies between 0000 and 9999 (four digits), and its
/// nanoseconds are below one second, or below two seconds during a leap
/// second, which can only follow the 59th second of a minute.
pub open spec fn rfc3339_readable(secs: int, nanos: int) -> bool {
    &&& -62_167_219_200 <= secs < 253_402_300_800
    &&& (nanos < 1_000_000_000 || (nanos < 2_000_000_000 && secs % 60 == 59))
}

/// The strftime pattern of compact UTC stamps such as `20240523100000`.
pub open spec fn compact_stamp_pattern() -> Seq<char> {
    seq!['%', 'Y', '%', 'm', '%', 'd', '%', 'H', '%', 'M', '%', 'S']
}

/// Calls `chrono::DateTime::parse_from_rfc3339` and takes the UTC seconds and
/// sub-second nanoseconds of what it read.  The contract only names the
/// outcome; the RFC 3339 grammar that chrono accepts is not restated.
#[verifier::external_body]
fn parse_rfc3339_parts(text: &str) -> (r: Option<(i64, u32)>)
    ensures
        r == rfc3339_instant(text@),
{
    match chrono::DateTime::parse_from_rfc3339(text) {
        Ok(dt) => Some((dt.timestamp(), dt.timestamp_subsec_nanos())),
        Err(_) => None,
    }
}

/// Calls `chrono::DateTime::from_timestamp` and then `to_rfc3339` on the
/// instant.  The contract names the outcome; chrono's layout of the text is
/// not restated.  It also states that, for years 0000 to 9999, there is a text
/// and `parse_from_rfc3339` reads it back as the same instant: chrono writes
/// such a year with four digits, a leap second as second 60, the fraction
/// with 3, 6 or 9 digits and the offset as `+00:00`, all of which its RFC 3339
/// reader takes back.
#[verifier::external_body]
fn format_rfc3339_parts(secs: i64, nanos: u32) -> (r: Option<String>)
    ensures
        match r {
            Some(t) => {
                &&& rfc3339_text(secs, nanos) == Some(t@)
                &&& rfc3339_readable(secs as int, nanos as int) ==> rfc3339_instant(t@) == Some(
                    (secs, nanos),
                )
            },
            None => rfc3339_text(secs, nanos) is None && !rfc3339_readable(
                secs as int,
                nanos as int,
            ),
        },
{
    match chrono::DateTime::from_timestamp(secs, nanos) {
        Some(dt) => Some(dt.to_rfc3339()),
        None => None,
    }
}

/// Calls `chrono::DateTime::from_timestamp` and then `format(pattern)` on the
/// instant, written out with `to_string`.  The pattern is held to the one
/// strftime pattern this library uses, for which chrono's formatting cannot
/// fail.  The contract only names the outcome.
#[verifier::external_body]
fn format_utc_parts(secs: i64, nanos: u32, pattern: &str) -> (r: Option<String>)
    requires
        pattern@ == compact_stamp_pattern(),
    ensures
        match r {
            Some(t) => utc_format_text(secs, nanos, pattern@) == Some(t@),
            None => utc_format_text(secs, nanos, pattern@) is None,
        },
{
    match chrono::DateTime::from_timestamp(secs, nanos) {
        Some(dt) => Some(dt.format(pattern).to_string()),
        None => None,
    }
}

/// The timestamp that parsed parts stand for.
pub open spec fn instant_from_parts(parts: Option<(i64, u32)>) -> Option<Timestamp> {
    match parts {
        Some((secs, nanos)) => Some(Timestamp { secs, nanos }),
        None => None,
    }
}

impl Timestamp {
    /// Reads an RFC 3339 date and time (any offset) as an instant in UTC;
    /// `None` when chrono refuses the text.
    pub fn parse_rfc3339(text: &str) -> (r: Option<Timestamp>)
        ensures
            r == instant_from_parts(rfc3339_instant(text@)),
    {
        match parse_rfc3339_parts(text) {
            Some((secs, nanos)) => Some(Timestamp { secs, nanos }),
            None => None,
        }
    }

    /// The RFC 3339 text of the instant in UTC (offset `+00:00`); `None` when
    /// the instant lies outside chrono's calendar.  For years 0000 to 9999 the
    /// text, read back with [`Timestamp::parse_rfc3339`], gives this instant.
    pub fn to_rfc3339(&self) -> (r: Option<String>)
        ensures
            match r {
                Some(t) => rfc3339_text(self.secs, self.nanos) == Some(t@),
                None => rfc3339_text(self.secs, self.nanos) is None,
            },
            rfc3339_readable(self.secs as int, self.nanos as int) ==> (r matches Some(t)
                && instant_from_parts(rfc3339_instant(t@)) == Some(*self)),
    {
        format_rfc3339_parts(self.secs, self.nanos)
    }

    /// The compact UTC stamp `YYYYMMDDHHMMSS` of the instant; `None` when the
    /// instant lies outside chrono's calendar.
    pub fn compact_stamp(&self) -> (r: Option<String>)
        ensures
            match r {
                Some(t) => utc_format_text(self.secs, self.nanos, compact_stamp_pattern()) == Some(
                    t@,
                ),
                None => utc_format_text(self.secs, self.nanos, compact_stamp_pattern()) is None,
            },
    {
        let pattern = "%Y%m%d%H%M%S";
        proof {
            reveal_strlit("%Y%m%d%H%M%S");
            assert(pattern@ =~= compact_stamp_pattern());
        }
        format_utc_parts(self.secs, self.nanos, pattern)
    }
}

/// The number that an elapsed time of `v` nanoseconds is stored as: whole
/// microseconds rounded towards zero, or `-1` when they do not fit in an `i64`.
pub open spec fn wire_micros(v: int) -> i64 {
    if fits_i64(trunc_div(v, 1000)) {
        trunc_div(v, 1000) as i64
    } else {
        -1i64
    }
}

/// The number an elapsed time is stored as: its whole microseconds, or `-1`
/// when they do not fit in an `i64`.
pub fn duration_wire_value(d: &TimeSpan) -> (r: i64)
    ensures
        r == wire_micros(d@),
{
    match d.num_microseconds() {
        Some(m) => m,
        None => -1,
    }
}

/// The elapsed time that a stored number of microseconds stands for.
pub fn duration_from_wire_value(micros: i64) -> (r: TimeSpan)
    ensures
        r@ == micros * 1000,
{
    TimeSpan::microseconds(micros)
}

/// Storing an elapsed time read from a stored number gives back that number:
/// `duration_wire_value(duration_from_wire_value(m)) == m` for every `m`.
pub proof fn lemma_duration_wire_roundtrip(micros: i64)
    ensures
        wire_micros(micros * 1000) == micros,
{
    let v: int = micros * 1000;
    if v >= 0 {
        assert(v / 1000 == micros) by (nonlinear_arith)
            requires
                v == micros * 1000,
        ;
    } else {
        assert((-v) / 1000 == -micros) by (nonlinear_arith)
            requires
                v == micros * 1000,
                v < 0,
        ;
    }
}

} // verus!
