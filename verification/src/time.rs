//! Points in time, carried as seconds and nanoseconds since the Unix epoch, and
//! their RFC 3339 text.

use vstd::prelude::*;

verus! {

/// The instant that an RFC 3339 text denotes, as seconds and nanoseconds
/// since the Unix epoch in UTC; `None` where the text is no RFC 3339 date and time.
pub uninterp spec fn instant_of_rfc3339(text: Seq<char>) -> Option<(i64, u32)>;

/// The RFC 3339 text of an instant; `None` where the seconds or the
/// nanoseconds are out of the calendar's range.
pub uninterp spec fn rfc3339_of_instant(seconds: i64, nanos: u32) -> Option<Seq<char>>;

/// The seconds since the Unix epoch that lie in the years 0 to 9999 of the
/// calendar: from 0000-01-01T00:00:00Z to 9999-12-31T23:59:59Z. These are the
/// years that RFC 3339 writes with four digits.
pub open spec fn in_four_digit_years(seconds: i64) -> bool {
    -62_167_219_200 <= seconds <= 253_402_300_799
}

/// The calendar can show the instant: it has an RFC 3339 text, and within the
/// years 0 to 9999 that text reads back as the same instant. (Beyond them the
/// text has a sign and a fifth digit, and is not read back.)
pub open spec fn shown(seconds: i64, nanos: u32) -> bool {
    rfc3339_of_instant(seconds, nanos) matches Some(text) && (in_four_digit_years(seconds)
        ==> instant_of_rfc3339(text) == Some((seconds, nanos)))
}

/// A point in time that the calendar can show.
#[derive(Clone, Copy, Debug)]
pub struct Timestamp {
    seconds: i64,
    nanos: u32,
}

/// `chrono::DateTime::parse_from_rfc3339`, then `with_timezone(&Utc)`,
/// `timestamp` and `timestamp_subsec_nanos`: the instant that the text denotes.
/// What these two give, `DateTime::from_timestamp` takes back, so the
/// calendar can show it.
#[verifier::external_body]
fn chrono_parse_rfc3339(text: &str) -> (r: Option<(i64, u32)>)
    ensures
        r == instant_of_rfc3339(text@),
        r matches Some(t) ==> shown(t.0, t.1),
{
    chrono::DateTime::parse_from_rfc3339(text).ok().map(|d| d.with_timezone(&chrono::Utc)).map(
        |d| (d.timestamp(), d.timestamp_subsec_nanos()),
    )
}

/// `chrono::DateTime::from_timestamp`, then `to_rfc3339`: the text of the
/// instant, where the calendar holds it. For a year from 0 to 9999 the text
/// is four digits of year, month, day, hour, minute and second (60 for a leap
/// second), the fraction in 3, 6 or 9 digits where there is one, and `+00:00`:
/// `parse_from_rfc3339` reads exactly that back as the same instant.
#[verifier::external_body]
fn chrono_format_rfc3339(seconds: i64, nanos: u32) -> (r: Option<String>)
    ensures
        r is Some <==> rfc3339_of_instant(seconds, nanos) is Some,
        r matches Some(s) ==> rfc3339_of_instant(seconds, nanos) == Some(s@),
        r is Some ==> shown(seconds, nanos),
{
    chrono::DateTime::from_timestamp(seconds, nanos).map(|d| d.to_rfc3339())
}

/// `chrono::Utc::now`, as `timestamp` and `timestamp_subsec_nanos` give it.
/// Whatever the clock says, `DateTime::from_timestamp` takes it back, so the
/// calendar can show it.
#[verifier::external_body]
fn chrono_now() -> (r: (i64, u32))
    ensures
        shown(r.0, r.1),
{
    let now = chrono::Utc::now();
    (now.timestamp(), now.timestamp_subsec_nanos())
}

impl Timestamp {
    #[verifier::type_invariant]
    spec fn shown_by_calendar(self) -> bool {
        shown(self.seconds, self.nanos)
    }

    /// What holds of every timestamp: the calendar can show it.
    pub open spec fn wf(self) -> bool {
        shown(self.seconds(), self.nanos())
    }

    /// Whole seconds since the Unix epoch.
    pub closed spec fn seconds(self) -> i64 {
        self.seconds
    }

    /// Nanoseconds since the last whole second.
    pub closed spec fn nanos(self) -> u32 {
        self.nanos
    }

    /// The RFC 3339 text of the instant.
    pub open spec fn text(self) -> Seq<char> {
        rfc3339_of_instant(self.seconds(), self.nanos())->0
    }

    /// The instant that holds `seconds` and `nanos`, where the calendar can show it.
    pub fn from_parts(seconds: i64, nanos: u32) -> (r: Option<Timestamp>)
        ensures
            r is Some <==> rfc3339_of_instant(seconds, nanos) is Some,
            r matches Some(t) ==> t.seconds() == seconds && t.nanos() == nanos && t.wf(),
    {
        match chrono_format_rfc3339(seconds, nanos) {
            Some(_) => Some(Timestamp { seconds, nanos }),
            None => None,
        }
    }

    /// The instant that an RFC 3339 text denotes.
    pub fn parse(text: &str) -> (r: Option<Timestamp>)
        ensures
            r is Some <==> instant_of_rfc3339(text@) is Some,
            r matches Some(t) ==> instant_of_rfc3339(text@) == Some((t.seconds(), t.nanos()))
                && t.wf(),
    {
        match chrono_parse_rfc3339(text) {
            Some((seconds, nanos)) => Some(Timestamp { seconds, nanos }),
            None => None,
        }
    }

    /// The present instant, which the calendar can show. Two calls need
    /// not agree.
    pub fn now() -> (r: Timestamp)
        ensures
            r.wf(),
    {
        let (seconds, nanos) = chrono_now();
        Timestamp { seconds, nanos }
    }

    /// Whole seconds since the Unix epoch.
    pub fn unix_seconds(&self) -> (r: i64)
        ensures
            r == self.seconds(),
    {
        self.seconds
    }

    /// Nanoseconds since the last whole second.
    pub fn subsec_nanos(&self) -> (r: u32)
        ensures
            r == self.nanos(),
    {
        self.nanos
    }

    /// The RFC 3339 text of the instant.
    pub fn to_rfc3339(&self) -> (r: String)
        ensures
            rfc3339_of_instant(self.seconds(), self.nanos()) == Some(r@),
            r@ == self.text(),
            self.wf(),
            in_four_digit_years(self.seconds()) ==> instant_of_rfc3339(r@) == Some(
                (self.seconds(), self.nanos()),
            ),
    {
        proof {
            use_type_invariant(self);
        }
        match chrono_format_rfc3339(self.seconds, self.nanos) {
            Some(s) => s,
            None => String::new(),
        }
    }
}

} // verus!
