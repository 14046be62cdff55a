use vstd::prelude::*;
use crate::utils::ImmichError;

verus! {

/// The first second that a `DateTime` can hold: the start of the year -9999.
pub const MIN_TIMESTAMP: i64 = -377_705_116_800;

/// The last second that a `DateTime` can hold: the end of the year 9999.
pub const MAX_TIMESTAMP: i64 = 253_402_300_799;

/// Whether `year` is a leap year of the Gregorian calendar.
pub open spec fn leap_year(year: int) -> bool {
    year % 4 == 0 && (year % 100 != 0 || year % 400 == 0)
}

/// The number of days of `month` in `year`; 0 where `month` is no month.
pub open spec fn days_in_month(year: int, month: int) -> int {
    if month == 4 || month == 6 || month == 9 || month == 11 {
        30
    } else if month == 2 {
        if leap_year(year) {
            29
        } else {
            28
        }
    } else if 1 <= month <= 12 {
        31
    } else {
        0
    }
}

/// Whether the six numbers are a day of the Gregorian calendar in the years -9999 to 9999
/// and a time of that day.
pub open spec fn valid_civil(
    year: int,
    month: int,
    day: int,
    hour: int,
    minute: int,
    second: int,
) -> bool {
    &&& -9999 <= year <= 9999
    &&& 1 <= month <= 12
    &&& 1 <= day <= days_in_month(year, month)
    &&& 0 <= hour < 24
    &&& 0 <= minute < 60
    &&& 0 <= second < 60
}

/// The days from the first day of 1970 to the given day of the Gregorian calendar,
/// which is taken to hold for all years, with a year 0 before the year 1. The count
/// goes by years that begin in March, so that the day of a leap year comes last, and
/// by spans of 400 years, which all have 146 097 days.
pub open spec fn days_from_civil(year: int, month: int, day: int) -> int {
    let y = if month <= 2 {
        year - 1
    } else {
        year
    };
    let era = y / 400;
    let year_of_era = y - era * 400;
    let day_of_year = (153 * ((month + 9) % 12) + 2) / 5 + day - 1;
    let day_of_era = year_of_era * 365 + year_of_era / 4 - year_of_era / 100 + day_of_year;
    era * 146_097 + day_of_era - 719_468
}

/// The seconds from the start of 1970 (UTC) to the given day and time of the Gregorian
/// calendar.
pub open spec fn civil_timestamp(
    year: int,
    month: int,
    day: int,
    hour: int,
    minute: int,
    second: int,
) -> int {
    days_from_civil(year, month, day) * 86_400 + hour * 3_600 + minute * 60 + second
}

/// Every day and time of the years -9999 to 9999 lies in the range of seconds that a
/// `DateTime` holds.
pub proof fn lemma_civil_in_range(
    year: int,
    month: int,
    day: int,
    hour: int,
    minute: int,
    second: int,
)
    requires
        valid_civil(year, month, day, hour, minute, second),
    ensures
        MIN_TIMESTAMP <= civil_timestamp(year, month, day, hour, minute, second) <= MAX_TIMESTAMP,
{
    let y = if month <= 2 {
        year - 1
    } else {
        year
    };
    let era = y / 400;
    let year_of_era = y - era * 400;
    assert(-10000 <= y <= 9999);
    assert(-25 <= era <= 24);
    assert(0 <= year_of_era <= 399);
    let day_of_year = (153 * ((month + 9) % 12) + 2) / 5 + day - 1;
    assert(0 <= day_of_year <= 365);
    let day_of_era = year_of_era * 365 + year_of_era / 4 - year_of_era / 100 + day_of_year;
    let days = days_from_civil(year, month, day);
    assert(days == era * 146_097 + day_of_era - 719_468);
    if year == -9999 && month <= 2 {
        assert(era == -25 && year_of_era == 0);
        assert(day_of_year >= 306);
    }
    if year == 9999 && month >= 3 {
        assert(era == 24 && year_of_era == 399);
        assert(day_of_year <= 305);
    }
    assert(-4_371_587 <= days <= 2_932_896);
}

/// The text that the `time` crate writes for the second `timestamp` (UTC) under the format
/// description `description`.
pub uninterp spec fn formatted(timestamp: int, description: Seq<char>) -> Seq<char>;

/// The format description of a timestamp on the wire: seconds precision, then the literal
/// fraction `.000` and the literal `Z`.
pub fn wire_description() -> (s: &'static str)
    ensures
        s@ == "[year]-[month]-[day]T[hour]:[minute]:[second].000Z"@,
{
    "[year]-[month]-[day]T[hour]:[minute]:[second].000Z"
}

/// The format description of a timestamp inside a file name.
pub fn filename_description() -> (s: &'static str)
    ensures
        s@ == "[year][month][day]_[hour][minute][second]"@,
{
    "[year][month][day]_[hour][minute][second]"
}

/// `OffsetDateTime::new_utc(..).unix_timestamp()` of the `time` crate on a month of
/// `Month::try_from`, a date of `Date::from_calendar_date` and a time of
/// `Time::from_hms`: `None` exactly where one of the three refuses its numbers, which
/// for a year from -9999 to 9999 is where they are no day of the calendar or no time of
/// day; else the seconds from the start of 1970 to that day and time.
#[verifier::external_body]
fn unix_of_civil(year: i32, month: u8, day: u8, hour: u8, minute: u8, second: u8) -> (r: Option<
    i64,
>)
    requires
        -9999 <= year <= 9999,
    ensures
        r is Some <==> valid_civil(
            year as int,
            month as int,
            day as int,
            hour as int,
            minute as int,
            second as int,
        ),
        r matches Some(t) ==> t == civil_timestamp(
            year as int,
            month as int,
            day as int,
            hour as int,
            minute as int,
            second as int,
        ),
{
    let month = time::Month::try_from(month).ok()?;
    let date = time::Date::from_calendar_date(year, month, day).ok()?;
    let time = time::Time::from_hms(hour, minute, second).ok()?;
    Some(time::OffsetDateTime::new_utc(date, time).unix_timestamp())
}

/// `OffsetDateTime::format` of the `time` crate on the second `timestamp` (UTC), which
/// `OffsetDateTime::from_unix_timestamp` makes of the number, under one of the two format
/// descriptions of this crate, which `format_description::parse_borrowed` reads: the
/// text that `formatted` names. Nothing is claimed of the shape of the text.
#[verifier::external_body]
fn format_timestamp(timestamp: i64, description: &'static str) -> (s: String)
    requires
        MIN_TIMESTAMP <= timestamp <= MAX_TIMESTAMP,
        description@ == "[year]-[month]-[day]T[hour]:[minute]:[second].000Z"@ || description@
            == "[year][month][day]_[hour][minute][second]"@,
    ensures
        s@ == formatted(timestamp as int, description@),
{
    let items = time::format_description::parse_borrowed::<1>(description)
        .expect("the description is one of this crate's");
    time::OffsetDateTime::from_unix_timestamp(timestamp)
        .expect("the timestamp is in range")
        .format(&items)
        .expect("a date and a time can be written under the description")
}

/// The second in which a time of the system clock lies, counted from the start of 1970:
/// a time before 1970 that is no whole second lies in the second before.
pub open spec fn clock_second(after: bool, seconds: u64, nanos: u32) -> int {
    if after {
        seconds as int
    } else if nanos == 0 {
        -(seconds as int)
    } else {
        -(seconds as int) - 1
    }
}

/// A second of UTC between the start of the year -9999 and the end of the year 9999, as
/// the timestamps in the server's metadata are.
#[derive(Clone, Copy, Debug)]
pub struct DateTime {
    timestamp: i64,
}

impl View for DateTime {
    type V = int;

    /// The seconds from the start of 1970 (UTC).
    closed spec fn view(&self) -> int {
        self.timestamp as int
    }
}

impl DateTime {
    #[verifier::type_invariant]
    spec fn in_range(self) -> bool {
        MIN_TIMESTAMP <= self.timestamp <= MAX_TIMESTAMP
    }

    /// What `new` makes of what the calendar gave: the second, or `InvalidDate` where
    /// it gave none.
    pub fn from_civil_result(second: Option<i64>) -> (r: Result<Self, ImmichError>)
        ensures
            match second {
                Some(t) if MIN_TIMESTAMP <= t <= MAX_TIMESTAMP => r is Ok && r->Ok_0@ == t,
                _ => r is Err && r->Err_0 is InvalidDate,
            },
    {
        match second {
            Some(t) => match Self::from_unix_timestamp(t) {
                Some(d) => Ok(d),
                None => Err(ImmichError::InvalidDate),
            },
            None => Err(ImmichError::InvalidDate),
        }
    }

    /// The given day and time of the Gregorian calendar, in UTC; `InvalidDate` where the
    /// numbers are no day of the years -9999 to 9999 or no time of day.
    pub fn new(year: i32, month: u8, day: u8, hour: u8, minute: u8, second: u8) -> (r: Result<
        Self,
        ImmichError,
    >)
        ensures
            valid_civil(
                year as int,
                month as int,
                day as int,
                hour as int,
                minute as int,
                second as int,
            ) ==> r is Ok && r->Ok_0@ == civil_timestamp(
                year as int,
                month as int,
                day as int,
                hour as int,
                minute as int,
                second as int,
            ),
            !valid_civil(
                year as int,
                month as int,
                day as int,
                hour as int,
                minute as int,
                second as int,
            ) ==> r is Err && r->Err_0 is InvalidDate,
    {
        if year < -9999 || year > 9999 {
            return Err(ImmichError::InvalidDate);
        }
        proof {
            if valid_civil(
                year as int,
                month as int,
                day as int,
                hour as int,
                minute as int,
                second as int,
            ) {
                lemma_civil_in_range(
                    year as int,
                    month as int,
                    day as int,
                    hour as int,
                    minute as int,
                    second as int,
                );
            }
        }
        Self::from_civil_result(unix_of_civil(year, month, day, hour, minute, second))
    }

    /// The second `timestamp` after the start of 1970 (before it, where negative), where
    /// it lies in the years -9999 to 9999.
    pub fn from_unix_timestamp(timestamp: i64) -> (r: Option<Self>)
        ensures
            MIN_TIMESTAMP <= timestamp <= MAX_TIMESTAMP ==> r is Some && r->Some_0@ == timestamp,
            !(MIN_TIMESTAMP <= timestamp <= MAX_TIMESTAMP) ==> r is None,
    {
        if MIN_TIMESTAMP <= timestamp && timestamp <= MAX_TIMESTAMP {
            Some(DateTime { timestamp })
        } else {
            None
        }
    }

    /// The second in which a time of the system clock lies: `seconds` whole seconds and
    /// `nanos` billionths of a second after the start of 1970, where `after`, and before
    /// it, where not. A time between two seconds lies in the earlier one. `None` where
    /// that second is none of the years -9999 to 9999.
    pub fn from_system_time(after: bool, seconds: u64, nanos: u32) -> (r: Option<Self>)
        ensures
            match r {
                Some(d) => d@ == clock_second(after, seconds, nanos),
                None => !(MIN_TIMESTAMP <= clock_second(after, seconds, nanos) <= MAX_TIMESTAMP),
            },
    {
        if seconds > 400_000_000_000 {
            return None;
        }
        let whole = seconds as i64;
        if after {
            Self::from_unix_timestamp(whole)
        } else if nanos == 0 {
            Self::from_unix_timestamp(-whole)
        } else {
            Self::from_unix_timestamp(-whole - 1)
        }
    }

    /// The seconds from the start of 1970 (UTC).
    pub fn unix_timestamp(&self) -> (t: i64)
        ensures
            t == self@,
            MIN_TIMESTAMP <= t <= MAX_TIMESTAMP,
    {
        proof {
            use_type_invariant(self);
        }
        self.timestamp
    }

    /// The later of the two.
    pub fn max(self, other: DateTime) -> (r: DateTime)
        ensures
            r@ == if other@ >= self@ {
                other@
            } else {
                self@
            },
    {
        if other.timestamp >= self.timestamp {
            other
        } else {
            self
        }
    }

    /// The timestamp as it goes over the wire: `YYYY-MM-DDTHH:MM:SS.000Z`.
    pub fn to_string(&self) -> (s: String)
        ensures
            s@ == formatted(self@, "[year]-[month]-[day]T[hour]:[minute]:[second].000Z"@),
    {
        proof {
            use_type_invariant(self);
        }
        format_timestamp(self.timestamp, wire_description())
    }

    /// The timestamp as it stands in a made-up file name: `YYYYMMDD_HHMMSS`.
    pub fn filename(&self) -> (s: String)
        ensures
            s@ == formatted(self@, "[year][month][day]_[hour][minute][second]"@),
    {
        proof {
            use_type_invariant(self);
        }
        format_timestamp(self.timestamp, filename_description())
    }
}

impl Default for DateTime {
    /// Noon of 3 October 1990, which stands for an unknown time.
    fn default() -> (r: Self)
        ensures
            r@ == civil_timestamp(1990, 10, 3, 12, 0, 0),
            r@ == 654_955_200,
    {
        match unix_of_civil(1990, 10, 3, 12, 0, 0) {
            Some(timestamp) => DateTime { timestamp },
            None => DateTime { timestamp: 654_955_200 },
        }
    }
}

} // verus!
