//! The wall clock, read to the minute, and the text that names a minute.
//!
//! The clock and the calendar belong to the `time` crate. The two functions
//! of this module that call it are trusted: Verus takes their contracts as
//! given.

use vstd::prelude::*;
use crate::text::{is_digit, lemma_zero_padded_digits, zero_padded};

verus! {

/// How a minute is named, in the notation of the `time` crate's format
/// descriptions.
pub const MINUTE_DESCRIPTION: &'static str = "[year]-[month]-[day]-[hour]-[minute]";

/// A minute of the UTC calendar.
#[derive(Clone, Copy, Debug)]
pub struct UtcMinute {
    pub year: i32,
    pub month: u8,
    pub day: u8,
    pub hour: u8,
    pub minute: u8,
}

/// Whether `year` is a leap year of the Gregorian calendar, carried back
/// before its introduction, with a year zero.
pub open spec fn is_leap_year(year: int) -> bool {
    year % 4 == 0 && (year % 100 != 0 || year % 400 == 0)
}

/// The number of days of the month `month` (1 to 12) in the year `year`.
pub open spec fn days_in_month(year: int, month: int) -> int {
    if month == 2 {
        if is_leap_year(year) {
            29
        } else {
            28
        }
    } else if month == 4 || month == 6 || month == 9 || month == 11 {
        30
    } else {
        31
    }
}

/// The text of a year: four digits, with a minus sign in front of a year
/// before year zero.
pub open spec fn year_text(year: int) -> Seq<char> {
    if year < 0 {
        seq!['-'] + zero_padded((-year) as nat, 4)
    } else {
        zero_padded(year as nat, 4)
    }
}

/// The text that names a minute: year, month, day, hour and minute, each
/// with leading zeros, joined by hyphens (`2024-03-05-07-09`).
pub open spec fn minute_stamp(at: UtcMinute) -> Seq<char> {
    year_text(at.year as int) + seq!['-'] + zero_padded(at.month as nat, 2) + seq!['-']
        + zero_padded(at.day as nat, 2) + seq!['-'] + zero_padded(at.hour as nat, 2) + seq!['-']
        + zero_padded(at.minute as nat, 2)
}

impl UtcMinute {
    /// The minute with the given calendar fields. The fields are taken as
    /// they are; whether they name a day of the calendar is found out when
    /// the minute is formatted.
    pub fn new(year: i32, month: u8, day: u8, hour: u8, minute: u8) -> (at: UtcMinute)
        ensures
            at == (UtcMinute { year, month, day, hour, minute }),
    {
        UtcMinute { year, month, day, hour, minute }
    }

    /// Whether month, day, hour and minute lie in the ranges of a clock
    /// reading. Says nothing on the length of the month.
    pub open spec fn in_range(&self) -> bool {
        &&& 1 <= self.month <= 12
        &&& 1 <= self.day <= 31
        &&& self.hour < 24
        &&& self.minute < 60
    }

    /// Whether this is a minute of the calendar: a year from -9999 to 9999,
    /// a month of the year, a day that the month has in that year, an hour
    /// of the day and a minute of the hour.
    pub open spec fn on_calendar(&self) -> bool {
        &&& -9999 <= self.year <= 9999
        &&& self.in_range()
        &&& self.day <= days_in_month(self.year as int, self.month as int)
    }
}

/// Reads the current time in UTC with `time::OffsetDateTime::now_utc` and
/// keeps its calendar fields down to the minute. Trusted: the contract
/// claims that what `time` hands out is a minute of the calendar, as `time`
/// holds no other date (built, as it is here, without its `large-dates`
/// feature, its years run from -9999 to 9999). Which minute comes back
/// depends on the clock.
#[verifier::external_body]
pub(crate) fn utc_now() -> (now: UtcMinute)
    ensures
        now.on_calendar(),
{
    let now = time::OffsetDateTime::now_utc();
    UtcMinute {
        year: now.year(),
        month: u8::from(now.month()),
        day: now.day(),
        hour: now.hour(),
        minute: now.minute(),
    }
}

/// Formats a minute with `time::OffsetDateTime::format` under
/// [`MINUTE_DESCRIPTION`], which `time::format_description::parse_borrowed`
/// reads. Trusted, on three claims. `time` takes the fields for a date and a
/// time of day exactly where they are a minute of the calendar (its years
/// run from -9999 to 9999, built, as it is here, without its `large-dates`
/// feature). It reads the description and formats every such minute. And
/// the text is `minute_stamp` of the minute. `None` comes back where `time`
/// refuses the fields.
#[verifier::external_body]
pub(crate) fn format_minute(at: &UtcMinute, description: &str) -> (stamp: Option<String>)
    requires
        description@ == MINUTE_DESCRIPTION@,
    ensures
        stamp is Some <==> at.on_calendar(),
        stamp matches Some(text) ==> text@ == minute_stamp(*at),
{
    let month = time::Month::try_from(at.month).ok()?;
    let date = time::Date::from_calendar_date(at.year, month, at.day).ok()?;
    let moment = date.with_hms(at.hour, at.minute, 0).ok()?.assume_utc();
    let items = time::format_description::parse_borrowed::<1>(description).ok()?;
    moment.format(&items).ok()
}

/// The name of a minute of the years 0 to 9999 has sixteen characters:
/// digits, but for the hyphens after the year, the month, the day and the
/// hour.
pub proof fn lemma_minute_stamp_shape(at: UtcMinute)
    requires
        0 <= at.year <= 9999,
        at.in_range(),
    ensures
        minute_stamp(at).len() == 16,
        forall|i: int|
            0 <= i < 16 ==> if i == 4 || i == 7 || i == 10 || i == 13 {
                #[trigger] minute_stamp(at)[i] == '-'
            } else {
                is_digit(minute_stamp(at)[i])
            },
{
    let year = zero_padded(at.year as nat, 4);
    let month = zero_padded(at.month as nat, 2);
    let day = zero_padded(at.day as nat, 2);
    let hour = zero_padded(at.hour as nat, 2);
    let minute = zero_padded(at.minute as nat, 2);
    lemma_padded_len_4(at.year as nat);
    lemma_padded_len_2(at.month as nat);
    lemma_padded_len_2(at.day as nat);
    lemma_padded_len_2(at.hour as nat);
    lemma_padded_len_2(at.minute as nat);
    lemma_zero_padded_digits(at.year as nat, 4);
    lemma_zero_padded_digits(at.month as nat, 2);
    lemma_zero_padded_digits(at.day as nat, 2);
    lemma_zero_padded_digits(at.hour as nat, 2);
    lemma_zero_padded_digits(at.minute as nat, 2);
    let stamp = minute_stamp(at);
    assert(stamp.len() == 16);
    assert forall|i: int| 0 <= i < 16 implies if i == 4 || i == 7 || i == 10 || i == 13 {
        #[trigger] stamp[i] == '-'
    } else {
        is_digit(stamp[i])
    } by {
        if i < 4 {
            assert(stamp[i] == year[i]);
        } else if 5 <= i < 7 {
            assert(stamp[i] == month[i - 5]);
        } else if 8 <= i < 10 {
            assert(stamp[i] == day[i - 8]);
        } else if 11 <= i < 13 {
            assert(stamp[i] == hour[i - 11]);
        } else if 14 <= i {
            assert(stamp[i] == minute[i - 14]);
        }
    }
}

/// A number below a hundred, padded to two, has two characters.
proof fn lemma_padded_len_2(n: nat)
    requires
        n < 100,
    ensures
        zero_padded(n, 2).len() == 2,
{
    reveal_with_fuel(crate::text::decimal, 3);
}

/// A number below ten thousand, padded to four, has four characters.
proof fn lemma_padded_len_4(n: nat)
    requires
        n < 10000,
    ensures
        zero_padded(n, 4).len() == 4,
{
    reveal_with_fuel(crate::text::decimal, 5);
}

} // verus!
