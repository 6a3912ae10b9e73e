//! Calendar dates, moments in time, and the window of a schedule query.
//!
//! Dates are those of the proleptic Gregorian calendar. Parsing, printing, the
//! clock and the arithmetic on days are the `time` crate's; what the library
//! decides with them is verified here.

use crate::text::digit_char;
use vstd::prelude::*;

verus! {

/// The first year that a date can have.
pub const MIN_YEAR: i32 = -9999;

/// The last year that a date can have.
pub const MAX_YEAR: i32 = 9999;

/// How the date of an event is written.
pub const DATE_FORMAT: &'static str = "[year]-[month]-[day]";

/// How the bounds of a schedule query are written.
pub const TIMESTAMP_FORMAT: &'static str = "[year]-[month]-[day]T[hour]:[minute]:[second]Z";

/// Why a date could not be had.
#[derive(Debug, Clone, Copy, PartialEq, Eq, Structural)]
pub enum DateError {
    /// The text is no date.
    Unparsable,
    /// The values are no date or no time of day.
    Invalid,
    /// The date lies before the first that can be represented.
    OutOfRange,
    /// The moment could not be written as text.
    Unprintable,
}

/// A day of the calendar.
#[derive(Debug, Clone, Copy, PartialEq, Eq, Structural)]
pub struct CalendarDate {
    pub year: i32,
    /// 1 for January to 12 for December.
    pub month: u8,
    /// The day of the month, from 1.
    pub day: u8,
}

/// A date with a time of day, in UTC.
#[derive(Debug, Clone, Copy, PartialEq, Eq, Structural)]
pub struct Moment {
    pub date: CalendarDate,
    pub hour: u8,
    pub minute: u8,
    pub second: u8,
}

/// The bounds of a schedule query.
#[derive(Debug, Clone, Copy, PartialEq, Eq, Structural)]
pub struct ScheduleWindow {
    pub start: Moment,
    pub end: Moment,
}

/// Whether `year` has a 29th of February.
pub open spec fn is_leap_year(year: int) -> bool {
    year % 4 == 0 && (year % 100 != 0 || year % 400 == 0)
}

/// The number of days of the month `month` of `year`.
pub open spec fn days_in_month(year: int, month: int) -> int {
    if month == 2 {
        if is_leap_year(year) {
            29
        } else {
            28
        }
    } else if month == 4 || month == 6 || month == 9 || month == 11 {
        30
    } else {
        31
    }
}

/// The number of days of `year`.
pub open spec fn days_in_year(year: int) -> int {
    if is_leap_year(year) {
        366
    } else {
        365
    }
}

/// The number of days of `year` that lie before the first of `month`.
pub open spec fn days_before_month(year: int, month: int) -> int
    decreases month,
{
    if month <= 1 {
        0
    } else {
        days_before_month(year, month - 1) + days_in_month(year, month - 1)
    }
}

/// The number of days between the first of January of the year 0 and that of
/// `year`, less one: 365 for each year and one more for each leap year.
pub open spec fn days_before_year(year: int) -> int {
    365 * year + (year - 1) / 4 - (year - 1) / 100 + (year - 1) / 400
}

/// What the `time` crate reads from `text` under the format `description`:
/// the date, or nothing where the text does not match or names no day of the
/// calendar.
pub uninterp spec fn parsed_date(description: Seq<char>, text: Seq<char>) -> Option<CalendarDate>;

/// The number `n` in `width` decimal digits, with zeros in front where it has
/// fewer.
pub open spec fn padded(n: nat, width: nat) -> Seq<char>
    decreases width,
{
    if width == 0 {
        Seq::empty()
    } else {
        padded(n / 10, (width - 1) as nat).push(digit_char((n % 10) as int))
    }
}

/// A year as it is written: four digits, after a minus sign where it is
/// negative.
pub open spec fn year_text(year: int) -> Seq<char> {
    if year < 0 {
        "-"@ + padded((-year) as nat, 4)
    } else {
        padded(year as nat, 4)
    }
}

impl CalendarDate {
    /// Whether this is a day of the calendar within the years that can be
    /// represented.
    pub open spec fn is_valid(self) -> bool {
        &&& MIN_YEAR <= self.year <= MAX_YEAR
        &&& 1 <= self.month <= 12
        &&& 1 <= self.day <= days_in_month(self.year as int, self.month as int)
    }

    /// A number that orders dates as year, month and day do.
    pub open spec fn rank(self) -> int {
        self.year * 65536 + self.month * 256 + self.day
    }

    /// The number of the day in a count of all days of the calendar.
    pub open spec fn day_number(self) -> int {
        days_before_year(self.year as int) + days_before_month(
            self.year as int,
            self.month as int,
        ) + self.day
    }

    /// The last day of the month before this date's month.
    pub open spec fn previous_month_end(self) -> CalendarDate {
        if self.month == 1 {
            CalendarDate { year: (self.year - 1) as i32, month: 12, day: 31 }
        } else {
            CalendarDate {
                year: self.year,
                month: (self.month - 1) as u8,
                day: days_in_month(self.year as int, self.month - 1) as u8,
            }
        }
    }

    /// The last day of this date's month.
    pub open spec fn month_end(self) -> CalendarDate {
        CalendarDate {
            year: self.year,
            month: self.month,
            day: days_in_month(self.year as int, self.month as int) as u8,
        }
    }

    /// The day after this one.
    pub open spec fn next_day(self) -> CalendarDate {
        if self.day < days_in_month(self.year as int, self.month as int) {
            CalendarDate { year: self.year, month: self.month, day: (self.day + 1) as u8 }
        } else if self.month < 12 {
            CalendarDate { year: self.year, month: (self.month + 1) as u8, day: 1 }
        } else {
            CalendarDate { year: (self.year + 1) as i32, month: 1, day: 1 }
        }
    }

    /// Whether this is a day of the calendar.
    pub fn validate(&self) -> (b: bool)
        ensures
            b == self.is_valid(),
    {
        if self.year < MIN_YEAR || self.year > MAX_YEAR {
            return false;
        }
        match month_length(self.year, self.month) {
            Some(length) => 1 <= self.day && self.day <= length,
            None => false,
        }
    }

    /// The date as it is shown: year, month and day with hyphens between
    /// them, the month and the day in two digits.
    pub open spec fn text(self) -> Seq<char> {
        year_text(self.year as int) + "-"@ + padded(self.month as nat, 2) + "-"@ + padded(
            self.day as nat,
            2,
        )
    }

    /// The date as it is shown, or nothing where it is no day of the calendar.
    pub fn to_string(&self) -> (r: Option<String>)
        ensures
            self.is_valid() ==> r is Some && r->Some_0@ == self.text(),
            !self.is_valid() ==> r is None,
    {
        show_date(*self)
    }

    /// Whether this date is earlier than `other`.
    pub fn is_before(&self, other: &CalendarDate) -> (b: bool)
        ensures
            b == (self.rank() < other.rank()),
    {
        self.year < other.year || (self.year == other.year && (self.month < other.month || (
        self.month == other.month && self.day < other.day)))
    }
}

impl Moment {
    /// Whether the date is a day of the calendar and the time a time of day.
    pub open spec fn is_valid(self) -> bool {
        &&& self.date.is_valid()
        &&& self.hour < 24
        &&& self.minute < 60
        &&& self.second < 60
    }

    /// The moment as a timestamp: the date, `T`, the time of day in two
    /// digits each for hour, minute and second with colons between them, and
    /// `Z`.
    pub open spec fn timestamp(self) -> Seq<char> {
        self.date.text() + "T"@ + padded(self.hour as nat, 2) + ":"@ + padded(
            self.minute as nat,
            2,
        ) + ":"@ + padded(self.second as nat, 2) + "Z"@
    }

    /// The moment as it is written in a query, or nothing where it is no
    /// moment.
    pub open spec fn text(self) -> Option<Seq<char>> {
        if self.is_valid() {
            Some(self.timestamp())
        } else {
            None
        }
    }

    /// Whether the date is a day of the calendar and the time a time of day.
    pub fn validate(&self) -> (b: bool)
        ensures
            b == self.is_valid(),
    {
        self.date.validate() && self.hour < 24 && self.minute < 60 && self.second < 60
    }

    /// The moment as it is written in a query.
    pub fn to_string(&self) -> (r: Result<String, DateError>)
        ensures
            match self.text() {
                Some(t) => r is Ok && r->Ok_0@ == t,
                None => r == Err::<String, DateError>(DateError::Unprintable),
            },
    {
        match format_with(self, TIMESTAMP_FORMAT) {
            Some(t) => Ok(t),
            None => Err(DateError::Unprintable),
        }
    }
}

/// `Date::parse` of the `time` crate, under the format that
/// `format_description::parse_borrowed` makes of `description`. The date that
/// comes back is a day of the calendar; which one, and for which texts there
/// is none, is what [`parsed_date`] names.
#[verifier::external_body]
fn parse_with(text: &str, description: &str) -> (r: Option<CalendarDate>)
    ensures
        r == parsed_date(description@, text@),
        r matches Some(d) ==> d.is_valid(),
{
    let format = time::format_description::parse_borrowed::<1>(description).ok()?;
    let date = time::Date::parse(text, &format).ok()?;
    Some(CalendarDate { year: date.year(), month: u8::from(date.month()), day: date.day() })
}

/// `OffsetDateTime::format` of the `time` crate, on the moment taken as UTC and
/// under the format that `format_description::parse_borrowed` makes of
/// `description`. Values that are no moment give nothing. Under
/// [`TIMESTAMP_FORMAT`] a moment gives its timestamp: the crate writes the year
/// in four digits after the sign of a negative one, and month, day, hour,
/// minute and second in two digits each.
#[verifier::external_body]
fn format_with(moment: &Moment, description: &str) -> (r: Option<String>)
    ensures
        !moment.is_valid() ==> r is None,
        moment.is_valid() && description@ == TIMESTAMP_FORMAT@ ==> r is Some && r->Some_0@
            == moment.timestamp(),
{
    let format = time::format_description::parse_borrowed::<1>(description).ok()?;
    let month = time::Month::try_from(moment.date.month).ok()?;
    let date = time::Date::from_calendar_date(moment.date.year, month, moment.date.day).ok()?;
    let time = time::Time::from_hms(moment.hour, moment.minute, moment.second).ok()?;
    date.with_time(time).assume_utc().format(&format).ok()
}

/// `Display` of the `time` crate's `Date`, through `to_string`, on the date
/// that `Date::from_calendar_date` makes of the values. There is a date for
/// the days of the calendar and for no other values. It is shown as the year
/// in four digits after the sign of a negative one, and month and day in two
/// digits each, with hyphens between them.
#[verifier::external_body]
fn show_date(date: CalendarDate) -> (r: Option<String>)
    ensures
        r is Some <==> date.is_valid(),
        r matches Some(text) ==> text@ == date.text(),
{
    let month = time::Month::try_from(date.month).ok()?;
    let date = time::Date::from_calendar_date(date.year, month, date.day).ok()?;
    Some(date.to_string())
}

/// `OffsetDateTime::now_utc` of the `time` crate: the clock's date and time of
/// day. Nothing is claimed of which moment it is, only that it is one. The
/// crate gives up on a clock that shows a year beyond those it can represent.
#[verifier::external_body]
fn utc_now() -> (now: Moment)
    ensures
        now.is_valid(),
{
    let now = time::OffsetDateTime::now_utc();
    Moment {
        date: CalendarDate { year: now.year(), month: u8::from(now.month()), day: now.day() },
        hour: now.hour(),
        minute: now.minute(),
        second: now.second(),
    }
}

/// `Date::checked_sub` of the `time` crate with a duration of `days` whole
/// days: the date that many days earlier, or nothing where that day lies
/// before the first of January of [`MIN_YEAR`].
#[verifier::external_body]
fn days_before(date: CalendarDate, days: u8) -> (r: Option<CalendarDate>)
    requires
        date.is_valid(),
    ensures
        match r {
            Some(p) => p.is_valid() && p.day_number() == date.day_number() - days,
            None => date.day_number() - days < first_day().day_number(),
        },
{
    let month = time::Month::try_from(date.month).ok()?;
    let date = time::Date::from_calendar_date(date.year, month, date.day).ok()?;
    let past = date.checked_sub(time::Duration::days(i64::from(days)))?;
    Some(CalendarDate { year: past.year(), month: u8::from(past.month()), day: past.day() })
}

/// `util::days_in_month` of the `time` crate, on the month that
/// `Month::try_from` makes of the number: the number of days of the month, or
/// nothing where the number is not from 1 to 12.
#[verifier::external_body]
fn month_length(year: i32, month: u8) -> (r: Option<u8>)
    ensures
        r is Some <==> 1 <= month <= 12,
        r matches Some(n) ==> n == days_in_month(year as int, month as int),
{
    let month = time::Month::try_from(month).ok()?;
    Some(time::util::days_in_month(month, year))
}

/// The first day that can be represented.
pub open spec fn first_day() -> CalendarDate {
    CalendarDate { year: MIN_YEAR, month: 1, day: 1 }
}

/// What an event's date text means: a day of the calendar, or no date.
pub open spec fn date_of(text: Seq<char>) -> Result<CalendarDate, DateError> {
    match parsed_date(DATE_FORMAT@, text) {
        Some(d) => Ok(d),
        None => Err(DateError::Unparsable),
    }
}

/// The date that `text` holds in the form year, month, day.
pub fn parse_date(text: &str) -> (r: Result<CalendarDate, DateError>)
    ensures
        r == date_of(text@),
        r matches Ok(d) ==> d.is_valid(),
{
    match parse_with(text, DATE_FORMAT) {
        Some(d) => Ok(d),
        None => Err(DateError::Unparsable),
    }
}

/// The moment that the clock shows, in UTC.
pub fn now() -> (moment: Moment)
    ensures
        moment.is_valid(),
{
    utc_now()
}

/// The date that the clock shows, in UTC.
pub fn today() -> (d: CalendarDate)
    ensures
        d.is_valid(),
{
    utc_now().date
}

/// The window of a schedule query made at the moment `now`.
///
/// It starts at 14:00:00 on the day that lies as many days before `now` as the
/// day of the month counts, which is the last day of the month before, and
/// ends on the last day of the month of `now`, at the time of day of `now`.
pub open spec fn window_of(now: Moment) -> Result<ScheduleWindow, DateError> {
    if !now.is_valid() {
        Err(DateError::Invalid)
    } else if now.date.year == MIN_YEAR && now.date.month == 1 {
        Err(DateError::OutOfRange)
    } else {
        Ok(
            ScheduleWindow {
                start: Moment {
                    date: now.date.previous_month_end(),
                    hour: 14,
                    minute: 0,
                    second: 0,
                },
                end: Moment {
                    date: now.date.month_end(),
                    hour: now.hour,
                    minute: now.minute,
                    second: now.second,
                },
            },
        )
    }
}

/// The window of a schedule query made at the moment `now`.
pub fn schedule_window(now: &Moment) -> (r: Result<ScheduleWindow, DateError>)
    ensures
        r == window_of(*now),
{
    if !now.validate() {
        return Err(DateError::Invalid);
    }
    let date = now.date;
    proof {
        lemma_previous_month_end(date);
    }
    match days_before(date, date.day) {
        None => {
            proof {
                if !(date.year == MIN_YEAR && date.month == 1) {
                    lemma_day_number_orders(first_day(), date.previous_month_end());
                }
            }
            Err(DateError::OutOfRange)
        },
        Some(start) => {
            proof {
                lemma_month_offsets(date.year as int);
                if date.year == MIN_YEAR && date.month == 1 {
                    lemma_day_number_orders(first_day(), start);
                }
                lemma_day_number_is_unique(start, date.previous_month_end());
            }
            match month_length(date.year, date.month) {
                Some(last) => Ok(
                    ScheduleWindow {
                        start: Moment { date: start, hour: 14, minute: 0, second: 0 },
                        end: Moment {
                            date: CalendarDate { year: date.year, month: date.month, day: last },
                            hour: now.hour,
                            minute: now.minute,
                            second: now.second,
                        },
                    },
                ),
                None => Err(DateError::Invalid),
            }
        },
    }
}

/// The window of a schedule query made now, by the clock.
pub fn current_window() -> (r: Result<ScheduleWindow, DateError>)
    ensures
        r is Ok ==> exists|now: Moment| now.is_valid() && r == #[trigger] window_of(now),
        r is Err ==> r == Err::<ScheduleWindow, DateError>(DateError::OutOfRange),
{
    let now = utc_now();
    schedule_window(&now)
}

/// A year is 365 days long, and 366 where it is a leap year.
pub proof fn lemma_year_length(year: int)
    ensures
        days_before_year(year + 1) - days_before_year(year) == days_in_year(year),
{
    let by_four = year / 4 - (year - 1) / 4;
    let by_hundred = year / 100 - (year - 1) / 100;
    let by_four_hundred = year / 400 - (year - 1) / 400;
    assert(by_four == if year % 4 == 0 {
        1int
    } else {
        0int
    });
    assert(by_hundred == if year % 100 == 0 {
        1int
    } else {
        0int
    });
    assert(by_four_hundred == if year % 400 == 0 {
        1int
    } else {
        0int
    });
    assert(year % 100 == 0 ==> year % 4 == 0);
    assert(year % 400 == 0 ==> year % 100 == 0);
}

/// The days of a year that lie before each of its months.
pub proof fn lemma_month_offsets(year: int)
    ensures
        days_before_month(year, 1) == 0,
        days_before_month(year, 2) == 31,
        days_before_month(year, 3) == 31 + days_in_month(year, 2),
        days_before_month(year, 4) == 62 + days_in_month(year, 2),
        days_before_month(year, 5) == 92 + days_in_month(year, 2),
        days_before_month(year, 6) == 123 + days_in_month(year, 2),
        days_before_month(year, 7) == 153 + days_in_month(year, 2),
        days_before_month(year, 8) == 184 + days_in_month(year, 2),
        days_before_month(year, 9) == 215 + days_in_month(year, 2),
        days_before_month(year, 10) == 245 + days_in_month(year, 2),
        days_before_month(year, 11) == 276 + days_in_month(year, 2),
        days_before_month(year, 12) == 306 + days_in_month(year, 2),
        days_before_month(year, 13) == 337 + days_in_month(year, 2),
{
    reveal_with_fuel(days_before_month, 14);
}

/// The day after a day of the calendar has the next number.
pub proof fn lemma_next_day_is_next(d: CalendarDate)
    requires
        d.is_valid(),
        d.year < MAX_YEAR || d.month < 12 || d.day < 31,
    ensures
        d.next_day().is_valid(),
        d.next_day().day_number() == d.day_number() + 1,
{
    lemma_month_offsets(d.year as int);
    lemma_year_length(d.year as int);
}

/// An earlier day of the calendar has a smaller number.
pub proof fn lemma_day_number_orders(a: CalendarDate, b: CalendarDate)
    requires
        a.is_valid(),
        b.is_valid(),
        a.rank() < b.rank(),
    ensures
        a.day_number() < b.day_number(),
{
    lemma_month_offsets(a.year as int);
    lemma_month_offsets(b.year as int);
    if a.year < b.year {
        lemma_year_length(a.year as int);
        assert(a.day_number() <= days_before_year(a.year + 1));
        assert(days_before_year(a.year + 1) <= days_before_year(b.year as int));
    }
}

/// Two days of the calendar with one number are one day.
pub proof fn lemma_day_number_is_unique(a: CalendarDate, b: CalendarDate)
    requires
        a.is_valid(),
        b.is_valid(),
        a.day_number() == b.day_number(),
    ensures
        a == b,
{
    if a.rank() < b.rank() {
        lemma_day_number_orders(a, b);
    } else if b.rank() < a.rank() {
        lemma_day_number_orders(b, a);
    }
}

/// The last day of the month before lies as many days back as the day of the
/// month counts.
pub proof fn lemma_previous_month_end(d: CalendarDate)
    requires
        d.is_valid(),
    ensures
        d.previous_month_end().day_number() == d.day_number() - d.day,
        !(d.year == MIN_YEAR && d.month == 1) ==> d.previous_month_end().is_valid(),
        d.year == MIN_YEAR && d.month == 1 ==> d.day_number() - d.day < first_day().day_number(),
{
    lemma_month_offsets(d.year as int);
    lemma_month_offsets(d.year - 1);
    lemma_year_length(d.year - 1);
}

/// The window of a query ends on the last day of the month in which it is
/// made, the day before the first of a month, and starts on the day before
/// the first of the month in which it is made.
pub proof fn lemma_window_ends_month(now: Moment)
    requires
        window_of(now) is Ok,
    ensures
        window_of(now)->Ok_0.end.date.year == now.date.year,
        window_of(now)->Ok_0.end.date.month == now.date.month,
        window_of(now)->Ok_0.end.date.day == days_in_month(
            now.date.year as int,
            now.date.month as int,
        ),
        window_of(now)->Ok_0.end.date.is_valid(),
        window_of(now)->Ok_0.end.date.next_day().day == 1,
        window_of(now)->Ok_0.start.date.is_valid(),
        window_of(now)->Ok_0.start.date.next_day() == (CalendarDate {
            year: now.date.year,
            month: now.date.month,
            day: 1,
        }),
{
    lemma_previous_month_end(now.date);
}

} // verus!
