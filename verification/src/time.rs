//! Instants and the text in which they are stored.
use chrono::{DateTime, SecondsFormat, Utc};
use vstd::prelude::*;
use vstd::string::*;

verus! {

/// Whether an instant has a calendar date: it lies between the years -262143
/// and 262142, and only the last second of a minute may run over (a leap
/// second).
pub open spec fn on_calendar(seconds: i64, nanos: u32) -> bool {
    &&& -8_334_601_228_800 <= seconds <= 8_210_266_876_799
    &&& nanos < 2_000_000_000
    &&& nanos >= 1_000_000_000 ==> seconds as int % 60 == 59
}

/// Whether an instant lies in the years 0 to 9999, which RFC 3339 can write.
pub open spec fn in_written_years(seconds: i64) -> bool {
    -62_167_219_200 <= seconds <= 253_402_300_799
}

/// Nanoseconds cut down to whole microseconds.
pub open spec fn whole_micros(nanos: u32) -> u32 {
    (nanos - nanos % 1000) as u32
}

/// The RFC 3339 text of an instant in UTC, with six decimals and `Z`.
pub uninterp spec fn rfc3339_micros(seconds: i64, nanos: u32) -> Seq<char>;

/// The instant that RFC 3339 text gives, or why it gives none.
pub uninterp spec fn rfc3339_instant(text: Seq<char>) -> Result<(i64, u32), Seq<char>>;

/// `chrono::DateTime::to_rfc3339_opts` with microseconds and `Z`: the text is
/// a function of the instant, and within the years 0 to 9999 it reads back as
/// that instant cut down to whole microseconds.
#[verifier::external_body]
pub(crate) fn rfc3339_text(seconds: i64, nanos: u32) -> (r: String)
    requires
        on_calendar(seconds, nanos),
    ensures
        r@ == rfc3339_micros(seconds, nanos),
        match rfc3339_instant(r@) {
            Ok(read) => in_written_years(seconds) ==> read == (seconds, whole_micros(nanos)),
            Err(_) => !in_written_years(seconds),
        },
{
    let instant: DateTime<Utc> = DateTime::from_timestamp(seconds, nanos).expect("calendar date");
    instant.to_rfc3339_opts(SecondsFormat::Micros, true)
}

/// `chrono::DateTime::parse_from_rfc3339`: the instant, or the text of the
/// error, is a function of the text, and an instant read has a calendar date.
#[verifier::external_body]
pub(crate) fn rfc3339_parse(text: &str) -> (r: Result<(i64, u32), String>)
    ensures
        match r {
            Ok(instant) => (rfc3339_instant(text@) matches Ok(read) && read == instant)
                && on_calendar(instant.0, instant.1),
            Err(reason) => rfc3339_instant(text@) matches Err(why) && why == reason@,
        },
{
    match DateTime::parse_from_rfc3339(text) {
        Ok(instant) => Ok((instant.timestamp(), instant.timestamp_subsec_nanos())),
        Err(error) => Err(error.to_string()),
    }
}

/// An instant in UTC: seconds since 1970 and nanoseconds.
#[derive(Debug, Clone, Copy, PartialEq, Eq, Structural)]
pub struct Timestamp {
    seconds: i64,
    nanos: u32,
}

impl Timestamp {
    #[verifier::type_invariant]
    closed spec fn inv(self) -> bool {
        on_calendar(self.seconds, self.nanos)
    }

    /// Seconds since 1970 and nanoseconds.
    pub closed spec fn at(self) -> (i64, u32) {
        (self.seconds, self.nanos)
    }

    /// Admits the instants that have a calendar date.
    pub fn new(seconds: i64, nanos: u32) -> (r: Option<Timestamp>)
        ensures
            match r {
                Some(t) => on_calendar(seconds, nanos) && t.at() == (seconds, nanos),
                None => !on_calendar(seconds, nanos),
            },
    {
        if seconds < -8_334_601_228_800 || seconds > 8_210_266_876_799 || nanos >= 2_000_000_000 {
            return None;
        }
        if nanos >= 1_000_000_000 {
            let shifted: i64 = seconds + 8_334_601_228_800;
            if shifted % 60 != 59 {
                return None;
            }
        }
        Some(Timestamp { seconds, nanos })
    }

    /// Seconds since 1970.
    pub fn seconds(&self) -> (r: i64)
        ensures
            r == self.at().0,
    {
        self.seconds
    }

    /// Nanoseconds within the second.
    pub fn nanos(&self) -> (r: u32)
        ensures
            r == self.at().1,
    {
        self.nanos
    }

    /// Whether two instants are the same.
    pub fn same(&self, other: &Timestamp) -> (r: bool)
        ensures
            r == (self.at() == other.at()),
    {
        self.seconds == other.seconds && self.nanos == other.nanos
    }

    /// The instant as it is stored: RFC 3339 with whole microseconds.
    ///
    /// Within the years 0 to 9999 the text reads back as the instant cut down
    /// to whole microseconds.
    pub fn to_rfc3339(&self) -> (r: String)
        ensures
            r@ == rfc3339_micros(self.at().0, self.at().1),
            in_written_years(self.at().0) ==> rfc3339_instant(r@) == Ok::<(i64, u32), Seq<char>>(
                (self.at().0, whole_micros(self.at().1)),
            ),
    {
        proof {
            use_type_invariant(self);
        }
        rfc3339_text(self.seconds, self.nanos)
    }

    /// Reads an instant from stored text; the error is the reader's.
    pub fn from_rfc3339(text: &str) -> (r: Result<Timestamp, String>)
        ensures
            match r {
                Ok(t) => rfc3339_instant(text@) == Ok::<(i64, u32), Seq<char>>(t.at()),
                Err(reason) => rfc3339_instant(text@) == Err::<(i64, u32), Seq<char>>(reason@),
            },
    {
        match rfc3339_parse(text) {
            Ok((seconds, nanos)) => Ok(Timestamp { seconds, nanos }),
            Err(reason) => Err(reason),
        }
    }
}

} // verus!
