//! Date-times with an offset from UTC.

use vstd::prelude::*;

verus! {

/// How chrono writes the instant that lies `seconds` seconds and
/// `nanoseconds` nanoseconds after 1970-01-01 00:00:00 UTC, seen at `offset`
/// seconds east of UTC; `None` where chrono has no such date-time.
pub uninterp spec fn date_time_display(seconds: i64, nanoseconds: u32, offset: i32) -> Option<
    Seq<char>,
>;

/// Builds the date-time with `chrono::DateTime::from_timestamp`, moves it to
/// the offset that `chrono::FixedOffset::east_opt` makes, and writes it with
/// chrono's `Display`. The two constructors hand back `None` for values out
/// of their range, and then nothing is written. The text depends on the
/// three numbers alone.
#[verifier::external_body]
fn format_date_time(seconds: i64, nanoseconds: u32, offset: i32) -> (text: Option<String>)
    ensures
        text is Some == date_time_display(seconds, nanoseconds, offset) is Some,
        text is Some ==> text->0@ == date_time_display(seconds, nanoseconds, offset)->0,
{
    let utc = chrono::DateTime::from_timestamp(seconds, nanoseconds)?;
    let zone = chrono::FixedOffset::east_opt(offset)?;
    Some(utc.with_timezone(&zone).to_string())
}

/// An instant with the offset from UTC at which it is written.
#[derive(Copy, Debug)]
pub struct DateTime {
    seconds: i64,
    nanoseconds: u32,
    offset: i32,
}

impl Clone for DateTime {
    fn clone(&self) -> (copy: DateTime)
        ensures
            copy == *self,
    {
        *self
    }
}

impl DateTime {
    #[verifier::type_invariant]
    spec fn wf(self) -> bool {
        date_time_display(self.seconds, self.nanoseconds, self.offset) is Some
    }

    /// Seconds since 1970-01-01 00:00:00 UTC, leap seconds not counted.
    pub closed spec fn spec_seconds(self) -> i64 {
        self.seconds
    }

    /// Nanoseconds since the last whole second.
    pub closed spec fn spec_nanoseconds(self) -> u32 {
        self.nanoseconds
    }

    /// Seconds east of UTC.
    pub closed spec fn spec_offset(self) -> i32 {
        self.offset
    }

    /// The instant, whatever the offset: the seconds, then the nanoseconds.
    pub open spec fn instant(self) -> (int, int) {
        (self.spec_seconds() as int, self.spec_nanoseconds() as int)
    }

    /// The date-time as it is written.
    pub open spec fn rendered(self) -> Seq<char> {
        date_time_display(self.spec_seconds(), self.spec_nanoseconds(), self.spec_offset())->0
    }

    /// The instant `seconds` seconds and `nanoseconds` nanoseconds after
    /// 1970-01-01 00:00:00 UTC, written at `offset` seconds east of UTC;
    /// `None` where there is no such date-time.
    pub fn new(seconds: i64, nanoseconds: u32, offset: i32) -> (date_time: Option<DateTime>)
        ensures
            date_time is Some == date_time_display(seconds, nanoseconds, offset) is Some,
            date_time matches Some(d) ==> d.spec_seconds() == seconds && d.spec_nanoseconds()
                == nanoseconds && d.spec_offset() == offset,
    {
        match format_date_time(seconds, nanoseconds, offset) {
            Some(_) => Some(DateTime { seconds, nanoseconds, offset }),
            None => None,
        }
    }

    /// Seconds since 1970-01-01 00:00:00 UTC, leap seconds not counted.
    #[verifier::when_used_as_spec(spec_seconds)]
    pub fn seconds(self) -> (seconds: i64)
        ensures
            seconds == self.spec_seconds(),
    {
        self.seconds
    }

    /// Nanoseconds since the last whole second.
    #[verifier::when_used_as_spec(spec_nanoseconds)]
    pub fn nanoseconds(self) -> (nanoseconds: u32)
        ensures
            nanoseconds == self.spec_nanoseconds(),
    {
        self.nanoseconds
    }

    /// Seconds east of UTC.
    #[verifier::when_used_as_spec(spec_offset)]
    pub fn offset(self) -> (offset: i32)
        ensures
            offset == self.spec_offset(),
    {
        self.offset
    }

    /// The date-time as it is written.
    pub fn to_string(&self) -> (text: String)
        ensures
            text@ == self.rendered(),
    {
        proof {
            use_type_invariant(self);
        }
        match format_date_time(self.seconds, self.nanoseconds, self.offset) {
            Some(text) => text,
            None => String::new(),
        }
    }
}

impl PartialEq for DateTime {
    /// Two date-times are equal where they are the same instant, whatever
    /// their offsets.
    fn eq(&self, other: &DateTime) -> (equal: bool) {
        self.seconds == other.seconds && self.nanoseconds == other.nanoseconds
    }
}

impl vstd::std_specs::cmp::PartialEqSpecImpl for DateTime {
    open spec fn obeys_eq_spec() -> bool {
        true
    }

    open spec fn eq_spec(&self, other: &DateTime) -> bool {
        self.spec_seconds() == other.spec_seconds() && self.spec_nanoseconds()
            == other.spec_nanoseconds()
    }
}

} // verus!
