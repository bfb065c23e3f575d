//! Calendar dates, moments of a day and the texts they are written as.
//!
//! The calendar is the proleptic Gregorian one; the arithmetic on it comes from
//! `chrono`, whose results are stated here over the running number of a day.

use chrono::Datelike;
use chrono::Timelike;
use vstd::prelude::*;

use crate::text;

verus! {

/// The first year that `chrono` can hold.
pub const MIN_YEAR: i32 = -262143;

/// The last year that `chrono` can hold.
pub const MAX_YEAR: i32 = 262142;

/// A day of the calendar.
#[derive(Clone, Copy, PartialEq, Eq, Structural, Debug)]
pub struct Date {
    pub year: i32,
    pub month: u32,
    pub day: u32,
}

/// Whether `year` has a 29th of February.
pub open spec fn is_leap_year(year: int) -> bool {
    year % 4 == 0 && (year % 100 != 0 || year % 400 == 0)
}

/// How many days the month has.
pub open spec fn days_in_month(year: int, month: int) -> int {
    if month == 2 {
        if is_leap_year(year) {
            29
        } else {
            28
        }
    } else if month == 4 || month == 6 || month == 9 || month == 11 {
        30
    } else {
        31
    }
}

/// How many days of the year stand before the month.
pub open spec fn days_before_month(year: int, month: int) -> int
    decreases month,
{
    if month <= 1 {
        0
    } else {
        days_before_month(year, month - 1) + days_in_month(year, month - 1)
    }
}

/// How many days stand before the year, counted from the start of year one.
pub open spec fn days_before_year(year: int) -> int {
    let y = year - 1;
    365 * y + y / 4 - y / 100 + y / 400
}

impl Date {
    /// Whether this day exists and lies in the years that can be held.
    pub open spec fn valid(self) -> bool {
        &&& MIN_YEAR <= self.year <= MAX_YEAR
        &&& 1 <= self.month <= 12
        &&& 1 <= self.day <= days_in_month(self.year as int, self.month as int)
    }

    /// The running number of the day; the first of January of year one has number one.
    pub open spec fn number(self) -> int {
        days_before_year(self.year as int) + days_before_month(self.year as int, self.month as int)
            + self.day
    }

    /// The day of the week, from zero for Monday to six for Sunday.
    pub open spec fn weekday(self) -> int {
        (self.number() - 1) % 7
    }

    /// Whether this day stands before `other` in the calendar.
    pub open spec fn before(self, other: Date) -> bool {
        ||| self.year < other.year
        ||| self.year == other.year && self.month < other.month
        ||| self.year == other.year && self.month == other.month && self.day < other.day
    }
}

/// The first day that can be held.
pub open spec fn first_day() -> Date {
    Date { year: MIN_YEAR, month: 1, day: 1 }
}

/// The last day that can be held.
pub open spec fn last_day() -> Date {
    Date { year: MAX_YEAR, month: 12, day: 31 }
}

/// Whether the day with this number can be held.
pub open spec fn holdable(number: int) -> bool {
    first_day().number() <= number <= last_day().number()
}

/// `chrono::NaiveDate::from_ymd_opt` and `Datelike::weekday` with
/// `Weekday::num_days_from_monday`: `None` for a day that does not exist or
/// lies outside the years that `chrono` holds, else the day of the week
/// counted from Monday. The first of January of year one was a Monday.
#[verifier::external_body]
fn chrono_weekday(date: Date) -> (weekday: Option<u32>)
    ensures
        weekday is Some <==> date.valid(),
        weekday matches Some(w) ==> w == date.weekday(),
{
    chrono::NaiveDate::from_ymd_opt(date.year, date.month, date.day)
        .map(|d| d.weekday().num_days_from_monday())
}

/// `chrono::NaiveDate::checked_sub_signed` with a whole number of days: the
/// day that lies `days` days earlier, later for a negative number. `None` where
/// the given day does not exist or the result lies outside the years that
/// `chrono` holds. The bound on `days` keeps `TimeDelta::days` from panicking.
#[verifier::external_body]
fn chrono_days_earlier(date: Date, days: i64) -> (earlier: Option<Date>)
    requires
        -1_000_000_000 <= days <= 1_000_000_000,
    ensures
        earlier is Some <==> (date.valid() && holdable(date.number() - days)),
        earlier matches Some(r) ==> r.valid(),
        earlier matches Some(r) ==> r.number() == date.number() - days,
{
    chrono::NaiveDate::from_ymd_opt(date.year, date.month, date.day)
        .and_then(|d| d.checked_sub_signed(chrono::Duration::days(days)))
        .map(|d| Date { year: d.year(), month: d.month(), day: d.day() })
}

impl Date {
    /// The day of the week, from zero for Monday to six for Sunday.
    pub fn weekday_from_monday(&self) -> (weekday: u32)
        requires
            self.valid(),
        ensures
            weekday == self.weekday(),
            weekday < 7,
    {
        match chrono_weekday(*self) {
            Some(weekday) => weekday,
            None => 0,
        }
    }

    /// Whether this day exists and lies in the years that can be held.
    pub fn is_valid(&self) -> (yes: bool)
        ensures
            yes == self.valid(),
    {
        chrono_weekday(*self).is_some()
    }

    /// The day `days` days before this one, `None` where it cannot be held.
    pub fn days_earlier(&self, days: i64) -> (result: Option<Date>)
        requires
            self.valid(),
            -1_000_000_000 <= days <= 1_000_000_000,
        ensures
            result is Some <==> holdable(self.number() - days),
            result matches Some(date) ==> date.valid() && date.number() == self.number() - days,
    {
        chrono_days_earlier(*self, days)
    }
}

proof fn lemma_months(year: int)
    ensures
        days_before_month(year, 1) == 0,
        days_before_month(year, 2) == 31,
        days_before_month(year, 3) == 59 + (if is_leap_year(year) { 1int } else { 0 }),
        days_before_month(year, 4) == 90 + (if is_leap_year(year) { 1int } else { 0 }),
        days_before_month(year, 5) == 120 + (if is_leap_year(year) { 1int } else { 0 }),
        days_before_month(year, 6) == 151 + (if is_leap_year(year) { 1int } else { 0 }),
        days_before_month(year, 7) == 181 + (if is_leap_year(year) { 1int } else { 0 }),
        days_before_month(year, 8) == 212 + (if is_leap_year(year) { 1int } else { 0 }),
        days_before_month(year, 9) == 243 + (if is_leap_year(year) { 1int } else { 0 }),
        days_before_month(year, 10) == 273 + (if is_leap_year(year) { 1int } else { 0 }),
        days_before_month(year, 11) == 304 + (if is_leap_year(year) { 1int } else { 0 }),
        days_before_month(year, 12) == 334 + (if is_leap_year(year) { 1int } else { 0 }),
        days_before_month(year, 13) == 365 + (if is_leap_year(year) { 1int } else { 0 }),
{
    reveal_with_fuel(days_before_month, 14);
}

proof fn lemma_quotient_step(y: int)
    ensures
        (y + 1) / 4 == y / 4 + (if (y + 1) % 4 == 0 { 1int } else { 0 }),
        (y + 1) / 100 == y / 100 + (if (y + 1) % 100 == 0 { 1int } else { 0 }),
        (y + 1) / 400 == y / 400 + (if (y + 1) % 400 == 0 { 1int } else { 0 }),
{
}

proof fn lemma_leap_rule(year: int)
    ensures
        year % 100 == 0 ==> year % 4 == 0,
        year % 400 == 0 ==> year % 100 == 0,
{
}

proof fn lemma_year_step(year: int)
    ensures
        days_before_year(year + 1) == days_before_year(year) + 365 + (if is_leap_year(year) {
            1int
        } else {
            0
        }),
{
    lemma_quotient_step(year - 1);
    lemma_leap_rule(year);
}

proof fn lemma_years_grow(a: int, b: int)
    requires
        a < b,
    ensures
        days_before_year(a) + 365 + (if is_leap_year(a) { 1int } else { 0 }) <= days_before_year(b),
    decreases b - a,
{
    lemma_year_step(b - 1);
    if a < b - 1 {
        lemma_years_grow(a, b - 1);
    } else {
        lemma_year_step(a);
    }
}

/// Days are numbered in the order of the calendar.
pub proof fn day_numbers_follow_the_calendar(a: Date, b: Date)
    requires
        a.valid(),
        b.valid(),
        a.before(b),
    ensures
        a.number() < b.number(),
{
    lemma_months(a.year as int);
    lemma_months(b.year as int);
    if a.year < b.year {
        lemma_years_grow(a.year as int, b.year as int);
    }
}

/// A day is known by its number.
pub proof fn day_number_is_unique(a: Date, b: Date)
    requires
        a.valid(),
        b.valid(),
        a.number() == b.number(),
    ensures
        a == b,
{
    if a.before(b) {
        day_numbers_follow_the_calendar(a, b);
    } else if b.before(a) {
        day_numbers_follow_the_calendar(b, a);
    }
}

/// The same month of a later year is more than three hundred days away.
pub proof fn years_are_far_apart(a: Date, b: Date)
    requires
        a.valid(),
        b.valid(),
        a.month == b.month,
        a.year < b.year,
    ensures
        b.number() - a.number() > 300,
{
    lemma_months(a.year as int);
    lemma_months(b.year as int);
    lemma_years_grow(a.year as int, b.year as int);
}

// ---------------------------------------------------------------------------
// Keys

/// The key under which a day is stored: year, month and day with hyphens between.
pub open spec fn key_text(date: Date) -> Seq<char> {
    text::signed_padded(date.year as int, 4) + seq!['-'] + text::padded(date.month as nat, 2)
        + seq!['-'] + text::padded(date.day as nat, 2)
}

/// The key under which `date` is stored.
pub fn date_key(date: Date) -> (key: String)
    ensures
        key@ == key_text(date),
{
    let mut key = String::new();
    text::push_signed_padded(&mut key, date.year as i64, 4);
    key.push('-');
    text::push_padded(&mut key, date.month as u64, 2);
    key.push('-');
    text::push_padded(&mut key, date.day as u64, 2);
    proof {
        assert(key@ =~= key_text(date));
    }
    key
}

/// A number below one hundred takes two characters when filled up to two.
pub proof fn lemma_two_digits(n: nat)
    requires
        n < 100,
    ensures
        text::padded(n, 2).len() == 2,
{
    reveal_with_fuel(text::decimal, 3);
}

proof fn lemma_signed_padded_is_injective(a: int, b: int, width: nat)
    requires
        text::signed_padded(a, width) == text::signed_padded(b, width),
    ensures
        a == b,
{
    let shorter: nat = if width == 0 { 0 } else { (width - 1) as nat };
    if a < 0 {
        text::lemma_padded_digits((-a) as nat, shorter);
        assert(text::signed_padded(a, width)[0] == '-');
        assert(text::signed_padded(a, width).skip(1) =~= text::padded((-a) as nat, shorter));
    } else {
        text::lemma_padded_digits(a as nat, width);
        assert(text::is_digit(text::signed_padded(a, width)[0]));
    }
    if b < 0 {
        text::lemma_padded_digits((-b) as nat, shorter);
        assert(text::signed_padded(b, width)[0] == '-');
        assert(text::signed_padded(b, width).skip(1) =~= text::padded((-b) as nat, shorter));
    } else {
        text::lemma_padded_digits(b as nat, width);
        assert(text::is_digit(text::signed_padded(b, width)[0]));
    }
    if a < 0 && b < 0 {
        text::padded_is_injective((-a) as nat, (-b) as nat, shorter);
    } else if a >= 0 && b >= 0 {
        text::padded_is_injective(a as nat, b as nat, width);
    }
}

/// Different days have different keys, so no day reads or changes the list of another.
pub proof fn date_keys_are_unique(a: Date, b: Date)
    requires
        a.valid(),
        b.valid(),
        key_text(a) == key_text(b),
    ensures
        a == b,
{
    lemma_two_digits(a.month as nat);
    lemma_two_digits(a.day as nat);
    lemma_two_digits(b.month as nat);
    lemma_two_digits(b.day as nat);
    let ya = text::signed_padded(a.year as int, 4);
    let yb = text::signed_padded(b.year as int, 4);
    let key = key_text(a);
    let n = key.len() as int;
    assert(ya.len() == n - 6 && yb.len() == n - 6);
    assert(key_text(a).take(n - 6) =~= ya);
    assert(key_text(b).take(n - 6) =~= yb);
    assert(key_text(a).subrange(n - 5, n - 3) =~= text::padded(a.month as nat, 2));
    assert(key_text(b).subrange(n - 5, n - 3) =~= text::padded(b.month as nat, 2));
    assert(key_text(a).subrange(n - 2, n) =~= text::padded(a.day as nat, 2));
    assert(key_text(b).subrange(n - 2, n) =~= text::padded(b.day as nat, 2));
    lemma_signed_padded_is_injective(a.year as int, b.year as int, 4);
    text::padded_is_injective(a.month as nat, b.month as nat, 2);
    text::padded_is_injective(a.day as nat, b.day as nat, 2);
}

// ---------------------------------------------------------------------------
// Moments

/// A moment of local time.
#[derive(Clone, Copy, PartialEq, Eq, Structural, Debug)]
pub struct Moment {
    pub date: Date,
    pub hour: u32,
    pub minute: u32,
    pub second: u32,
    pub milli: u32,
}

impl Moment {
    pub open spec fn valid(self) -> bool {
        &&& self.date.valid()
        &&& self.hour < 24
        &&& self.minute < 60
        &&& self.second < 60
        &&& self.milli < 1000
    }

    /// The seconds that have gone by since midnight.
    pub open spec fn seconds(self) -> int {
        self.hour * 3600 + self.minute * 60 + self.second
    }
}

/// `chrono::Timelike::num_seconds_from_midnight` on `NaiveTime::from_hms_opt`:
/// `None` for a time that does not exist, else the seconds since midnight.
#[verifier::external_body]
fn chrono_seconds(hour: u32, minute: u32, second: u32) -> (seconds: Option<u32>)
    ensures
        seconds is Some <==> (hour < 24 && minute < 60 && second < 60),
        seconds matches Some(n) ==> n == hour * 3600 + minute * 60 + second,
{
    chrono::NaiveTime::from_hms_opt(hour, minute, second).map(|t| t.num_seconds_from_midnight())
}

impl Moment {
    /// The seconds that have gone by since midnight.
    pub fn seconds_from_midnight(&self) -> (seconds: u32)
        requires
            self.valid(),
        ensures
            seconds == self.seconds(),
            seconds < 86400,
    {
        match chrono_seconds(self.hour, self.minute, self.second) {
            Some(seconds) => seconds,
            None => 0,
        }
    }
}

/// The year as it stands in a time stamp: four digits, with a sign before them
/// outside the years 0 to 9999.
pub open spec fn stamp_year(year: int) -> Seq<char> {
    if 0 <= year <= 9999 {
        text::padded(year as nat, 4)
    } else if year < 0 {
        seq!['-'] + text::padded((-year) as nat, 4)
    } else {
        seq!['+'] + text::padded(year as nat, 4)
    }
}

/// Date and time to the second.
pub open spec fn stamp_text(moment: Moment) -> Seq<char> {
    stamp_year(moment.date.year as int) + seq!['-'] + text::padded(moment.date.month as nat, 2)
        + seq!['-'] + text::padded(moment.date.day as nat, 2) + seq![' '] + text::padded(
        moment.hour as nat,
        2,
    ) + seq![':'] + text::padded(moment.minute as nat, 2) + seq![':'] + text::padded(
        moment.second as nat,
        2,
    )
}

/// Date and time to the millisecond.
pub open spec fn fine_stamp_text(moment: Moment) -> Seq<char> {
    stamp_text(moment) + seq!['.'] + text::padded(moment.milli as nat, 3)
}

/// `chrono::NaiveDateTime::format` with one of two patterns: year, month, day,
/// hour, minute and second, and with `%.3f` the milliseconds behind a point.
/// `%Y` writes at least four digits, and a sign for a year below 0 or above 9999.
#[verifier::external_body]
fn chrono_format(moment: Moment, pattern: &str) -> (text: String)
    requires
        moment.valid(),
        pattern@ == "%Y-%m-%d %H:%M:%S"@ || pattern@ == "%Y-%m-%d %H:%M:%S%.3f"@,
    ensures
        pattern@ == "%Y-%m-%d %H:%M:%S"@ ==> text@ == stamp_text(moment),
        pattern@ == "%Y-%m-%d %H:%M:%S%.3f"@ ==> text@ == fine_stamp_text(moment),
{
    chrono::NaiveDate::from_ymd_opt(moment.date.year, moment.date.month, moment.date.day)
        .and_then(|d| d.and_hms_milli_opt(moment.hour, moment.minute, moment.second, moment.milli))
        .map(|t| t.format(pattern).to_string())
        .unwrap_or_default()
}

impl Moment {
    /// Date and time to the second.
    pub fn stamp(&self) -> (text: String)
        requires
            self.valid(),
        ensures
            text@ == stamp_text(*self),
    {
        chrono_format(*self, "%Y-%m-%d %H:%M:%S")
    }

    /// Date and time to the millisecond.
    pub fn fine_stamp(&self) -> (text: String)
        requires
            self.valid(),
        ensures
            text@ == fine_stamp_text(*self),
    {
        chrono_format(*self, "%Y-%m-%d %H:%M:%S%.3f")
    }
}

// ---------------------------------------------------------------------------
// What holds of the calendar

/// The months have their days, and February has one more in every fourth year,
/// but of the full centuries only in every fourth.
pub proof fn months_have_their_days(year: int, month: int)
    requires
        1 <= month <= 12,
    ensures
        month == 1 || month == 3 || month == 5 || month == 7 || month == 8 || month == 10 || month
            == 12 ==> days_in_month(year, month) == 31,
        month == 4 || month == 6 || month == 9 || month == 11 ==> days_in_month(year, month) == 30,
        month == 2 && (year % 400 == 0 || (year % 4 == 0 && year % 100 != 0)) ==> days_in_month(
            year,
            month,
        ) == 29,
        month == 2 && !(year % 400 == 0 || (year % 4 == 0 && year % 100 != 0)) ==> days_in_month(
            year,
            month,
        ) == 28,
{
}

/// The day that follows a day has the next number and the next day of the week,
/// within a month, from month to month and from year to year.
pub proof fn a_day_follows_a_day(a: Date, b: Date)
    requires
        a.valid(),
        b.valid(),
        (b.year == a.year && b.month == a.month && b.day == a.day + 1) || (b.year == a.year
            && b.month == a.month + 1 && b.day == 1 && a.day == days_in_month(
            a.year as int,
            a.month as int,
        )) || (b.year == a.year + 1 && b.month == 1 && b.day == 1 && a.month == 12 && a.day == 31),
    ensures
        b.number() == a.number() + 1,
        b.weekday() == (a.weekday() + 1) % 7,
        0 <= a.weekday() < 7,
{
    assert(b.number() == a.number() + 1) by {
        lemma_months(a.year as int);
        lemma_year_step(a.year as int);
    }
    lemma_next_weekday(a.number());
}

proof fn lemma_next_weekday(n: int)
    ensures
        n % 7 == ((n - 1) % 7 + 1) % 7,
{
}

/// The first of January 1970 was a Thursday.
pub proof fn days_of_the_week_are_anchored(date: Date)
    requires
        date.year == 1970,
        date.month == 1,
        date.day == 1,
    ensures
        date.weekday() == 3,
{
    lemma_months(1970);
}

/// The key of a day in the years from 0 to 9999: four digits of the year, two
/// of the month and two of the day, with hyphens between.
pub proof fn keys_are_written_in_digits(date: Date)
    requires
        0 <= date.year <= 9999,
        date.month < 100,
        date.day < 100,
    ensures
        key_text(date) == seq![
            (48 + date.year / 1000) as char,
            (48 + date.year / 100 % 10) as char,
            (48 + date.year / 10 % 10) as char,
            (48 + date.year % 10) as char,
            '-',
            (48 + date.month / 10) as char,
            (48 + date.month % 10) as char,
            '-',
            (48 + date.day / 10) as char,
            (48 + date.day % 10) as char,
        ],
{
    text::four_digits_are_written(date.year as nat);
    text::two_digits_are_tens_and_ones(date.month as nat);
    text::two_digits_are_tens_and_ones(date.day as nat);
    assert(key_text(date) =~= seq![
        (48 + date.year / 1000) as char,
        (48 + date.year / 100 % 10) as char,
        (48 + date.year / 10 % 10) as char,
        (48 + date.year % 10) as char,
        '-',
        (48 + date.month / 10) as char,
        (48 + date.month % 10) as char,
        '-',
        (48 + date.day / 10) as char,
        (48 + date.day % 10) as char,
    ]);
}

/// The seconds since midnight: sixty of them to a minute, sixty minutes to an hour.
pub proof fn seconds_are_counted_from_midnight(now: Moment)
    ensures
        now.seconds() == (now.hour * 60 + now.minute) * 60 + now.second,
{
}

} // verus!
