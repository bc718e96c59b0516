//! Instants, and their text form in RFC 3339.

use vstd::prelude::*;
use crate::text::text_less;

verus! {

/// The first second that the calendar can hold, counted from 1970 in UTC.
pub const FIRST_SECOND: i64 = -8334601228800;

/// The last second that the calendar can hold.
pub const LAST_SECOND: i64 = 8210266876799;

/// The first second of the year 0.
pub const YEAR_ZERO: i64 = -62167219200;

/// The last second of the year 9999.
pub const YEAR_9999_END: i64 = 253402300799;

/// An instant in UTC: whole seconds since 1970 and the nanoseconds after them. A leap
/// second counts as the second before it, with a billion nanoseconds or more.
#[derive(Clone, Copy, Debug, PartialEq, Eq, Hash, Structural)]
pub struct Timestamp {
    pub seconds: i64,
    pub nanos: u32,
}

impl Timestamp {
    /// Whether the calendar has this instant.
    pub open spec fn valid(self) -> bool {
        &&& FIRST_SECOND <= self.seconds <= LAST_SECOND
        &&& self.nanos < 2_000_000_000
        &&& self.nanos >= 1_000_000_000 ==> self.seconds as int % 60 == 59
    }

    /// Whether the year of this instant has four digits.
    pub open spec fn four_digit_year(self) -> bool {
        YEAR_ZERO <= self.seconds <= YEAR_9999_END
    }

    /// Whether this instant comes before `other`.
    pub open spec fn before(self, other: Timestamp) -> bool {
        self.seconds < other.seconds || (self.seconds == other.seconds && self.nanos < other.nanos)
    }

    /// Whether this instant comes before `other`.
    pub fn is_before(&self, other: &Timestamp) -> (r: bool)
        ensures
            r == self.before(*other),
    {
        self.seconds < other.seconds || (self.seconds == other.seconds && self.nanos < other.nanos)
    }

    /// Whether the calendar has this instant.
    pub fn is_valid(&self) -> (r: bool)
        ensures
            r == self.valid(),
    {
        let minute: i64 = 60;
        FIRST_SECOND <= self.seconds && self.seconds <= LAST_SECOND && self.nanos < 2_000_000_000
            && (self.nanos < 1_000_000_000 || (self.seconds - FIRST_SECOND) % minute == 59)
    }
}

/// The text that chrono's `DateTime::to_rfc3339` gives an instant in UTC.
pub uninterp spec fn rfc3339_text(seconds: i64, nanos: u32) -> Seq<char>;

/// What chrono's `DateTime::parse_from_rfc3339` reads: an instant, taken to UTC as
/// seconds and nanoseconds, or the words of its refusal.
pub uninterp spec fn rfc3339_instant(s: Seq<char>) -> Result<(i64, u32), Seq<char>>;

/// Whether `s` is the RFC 3339 text of the instant `t`.
pub open spec fn reads_as(s: Seq<char>, t: Timestamp) -> bool {
    rfc3339_instant(s) == Ok::<(i64, u32), Seq<char>>((t.seconds, t.nanos))
}

/// The plain values of what was read.
pub open spec fn reading(r: Result<Timestamp, String>) -> Result<(i64, u32), Seq<char>> {
    match r {
        Ok(t) => Ok((t.seconds, t.nanos)),
        Err(e) => Err(e@),
    }
}

/// `chrono::DateTime::<Utc>::to_rfc3339`, by name. For years of four digits the text is
/// made of zero-padded fields, the most significant first, then a fraction of no, three,
/// six or nine digits, then `+00:00`; other years have a sign before them, which sorts before
/// every digit. Of that these facts are claimed, years of four digits taken first: reading the
/// text gives the instant back; from 1970 on the text starts with a digit other than `0`; the
/// text is ordered among the texts of such years as the instant is, which also holds of years
/// before them; and it does not come before the text of a later year.
#[verifier::external_body]
pub(crate) fn to_rfc3339(t: &Timestamp) -> (r: String)
    requires
        t.valid(),
    ensures
        r@ == rfc3339_text(t.seconds, t.nanos),
        t.four_digit_year() ==> reads_as(r@, *t),
        t.four_digit_year() && t.seconds >= 0 ==> r@.len() > 0 && '1' <= r@[0] <= '9',
        t.seconds <= YEAR_9999_END ==> forall|u: Timestamp|
            u.valid() && u.four_digit_year() ==> text_less(
                r@,
                #[trigger] rfc3339_text(u.seconds, u.nanos),
            ) == t.before(u),
        t.four_digit_year() ==> forall|u: Timestamp|
            u.valid() && u.seconds > YEAR_9999_END ==> !text_less(
                r@,
                #[trigger] rfc3339_text(u.seconds, u.nanos),
            ),
{
    chrono::DateTime::<chrono::Utc>::from_timestamp(t.seconds, t.nanos).unwrap().to_rfc3339()
}

/// `chrono::DateTime::parse_from_rfc3339`, by name, the instant taken to UTC with
/// `with_timezone` and the error as its text. What is read is an instant of the calendar.
#[verifier::external_body]
pub(crate) fn from_rfc3339(s: &str) -> (r: Result<Timestamp, String>)
    ensures
        reading(r) == rfc3339_instant(s@),
        r matches Ok(t) ==> t.valid(),
{
    match chrono::DateTime::parse_from_rfc3339(s) {
        Ok(local) => {
            let utc = local.with_timezone(&chrono::Utc);
            Ok(Timestamp { seconds: utc.timestamp(), nanos: utc.timestamp_subsec_nanos() })
        },
        Err(error) => Err(error.to_string()),
    }
}

/// `chrono::Utc::now`: the instant of the machine's clock, which is some instant from 1970
/// on. Nothing more is claimed of it.
#[verifier::external_body]
pub(crate) fn utc_now() -> (r: Timestamp)
    ensures
        r.valid(),
        r.seconds >= 0,
        r.nanos < 1_000_000_000,
{
    let now = chrono::Utc::now();
    Timestamp { seconds: now.timestamp(), nanos: now.timestamp_subsec_nanos() }
}

} // verus!
