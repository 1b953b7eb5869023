//! Clock readings and calendar computations on Unix timestamps (UTC).

use vstd::prelude::*;

use crate::text::{decimal, digit_char};

verus! {

/// The earliest timestamp that `chrono` represents (year -262143, January 1, 00:00:00 UTC).
pub open spec fn min_timestamp() -> int {
    -8334601228800
}

/// The latest timestamp that `chrono` represents (year 262142, December 31, 23:59:59 UTC).
pub open spec fn max_timestamp() -> int {
    8210266876799
}

/// `chrono` represents the instant `ts`.
pub open spec fn timestamp_in_range(ts: int) -> bool {
    min_timestamp() <= ts <= max_timestamp()
}

/// The day of `ts`, counted from 1970-01-01 (day 0), rounding down.
pub open spec fn day_number(ts: int) -> int {
    ts / 86400
}

/// The weekday of `ts`, Monday being 0 (1970-01-01 was a Thursday).
pub open spec fn weekday_of(ts: int) -> int {
    (day_number(ts) + 3) % 7
}

/// Seconds of `ts` since its midnight.
pub open spec fn second_of_day(ts: int) -> int {
    ts % 86400
}

/// Two decimal digits of `n`, `0 <= n < 100`.
pub open spec fn two_digits(n: int) -> Seq<char> {
    seq![digit_char((n / 10) as nat), digit_char((n % 10) as nat)]
}

/// `HH:MM:SS` of the time of day of `ts`.
pub open spec fn clock_text(ts: int) -> Seq<char> {
    let s = second_of_day(ts);
    two_digits(s / 3600) + ":"@ + two_digits((s % 3600) / 60) + ":"@ + two_digits(s % 60)
}

/// The system clock's time, `std::time::SystemTime`.
#[verifier::external_type_specification]
#[verifier::external_body]
pub struct ExSystemTime(std::time::SystemTime);

/// `SystemTime::now`: the system clock's current reading. Nothing is stated
/// of it: it is the time of the call.
#[verifier::external_body]
fn system_time_now() -> (t: std::time::SystemTime) {
    std::time::SystemTime::now()
}

/// `t.duration_since(UNIX_EPOCH)`: the time from the epoch to `t`, `None`
/// where `t` lies before the epoch. Nothing is stated of which, nor of the
/// duration: both depend on a clock reading that nothing here describes.
#[verifier::external_body]
fn time_since_epoch(t: std::time::SystemTime) -> (d: Option<std::time::Duration>) {
    t.duration_since(std::time::UNIX_EPOCH).ok()
}

/// `Duration::as_secs`: the whole seconds of `d`. Nothing is stated of
/// them, since nothing here describes what a `Duration` holds.
#[verifier::external_body]
fn whole_seconds(d: std::time::Duration) -> (secs: u64) {
    d.as_secs()
}

/// Seconds since the Unix epoch by the system clock: 0 when the clock reads
/// earlier than the epoch, else the whole seconds since then.
pub(crate) fn system_clock_secs() -> (secs: u64) {
    match time_since_epoch(system_time_now()) {
        Some(d) => whole_seconds(d),
        None => 0,
    }
}

/// The instant the widget takes a clock reading for: the seconds since
/// the epoch taken as an `i64`.
pub open spec fn reading_instant(reading: u64) -> int {
    (reading as i64) as int
}

/// The weekday (Monday 0) of the instant `ts`, by
/// `DateTime::from_timestamp(ts, 0)` and `weekday().num_days_from_monday()`:
/// `None` exactly when `chrono` does not represent the instant, else the
/// weekday of its day.
#[verifier::external_body]
fn utc_weekday_from_monday(ts: i64) -> (w: Option<u32>)
    ensures
        w is Some <==> timestamp_in_range(ts as int),
        w matches Some(d) ==> d == weekday_of(ts as int),
{
    match chrono::DateTime::from_timestamp(ts, 0) {
        Some(dt) => Some(chrono::Datelike::weekday(&dt).num_days_from_monday()),
        None => None,
    }
}

/// The time of day of the instant `ts` formatted by `chrono` as `%H:%M:%S`:
/// `None` exactly when `chrono` does not represent the instant, else the
/// zero-padded hours, minutes and seconds since its midnight.
#[verifier::external_body]
fn utc_clock_text(ts: i64) -> (text: Option<String>)
    ensures
        text is Some <==> timestamp_in_range(ts as int),
        text matches Some(s) ==> s@ == clock_text(ts as int),
{
    match chrono::DateTime::from_timestamp(ts, 0) {
        Some(dt) => Some(dt.format("%H:%M:%S").to_string()),
        None => None,
    }
}

/// Midnight (UTC) of the day `days` days after the day of `ts`, as
/// `(DateTime::from_timestamp(ts, 0).unwrap().date_naive() + Duration::days(days))
/// .and_hms_opt(0, 0, 0).unwrap().and_utc().timestamp()` computes it. The
/// `requires` leaves out the instants and day counts on which a step panics.
#[verifier::external_body]
fn utc_midnight_after_days(ts: i64, days: i64) -> (midnight: i64)
    requires
        timestamp_in_range(ts as int),
        0 <= days <= 7,
        timestamp_in_range((day_number(ts as int) + days) * 86400),
    ensures
        midnight == (day_number(ts as int) + days) * 86400,
{
    let date = chrono::DateTime::from_timestamp(ts, 0).unwrap().date_naive();
    (date + chrono::Duration::days(days)).and_hms_opt(0, 0, 0).unwrap().and_utc().timestamp()
}

/// Midnight (UTC) of the day of the instant `now`.
pub fn midnight_of(now: i64) -> (midnight: i64)
    requires
        timestamp_in_range(now as int),
    ensures
        midnight == day_number(now as int) * 86400,
        timestamp_in_range(midnight as int),
{
    utc_midnight_after_days(now, 0)
}

/// Days from a day of weekday `w` (Monday 0) to the next Monday: a full
/// week from a Monday.
pub open spec fn days_to_monday(w: int) -> int {
    if w == 0 { 7 } else { 7 - w }
}

/// The instant whose calendar the widget reads: `now`, or the epoch where
/// `chrono` does not represent `now` (`unwrap_or_default`).
pub open spec fn calendar_base(now: int) -> int {
    if timestamp_in_range(now) { now } else { 0 }
}

/// Midnight UTC of the next Monday after the day of `now`.
pub open spec fn next_monday(now: int) -> int {
    let base = calendar_base(now);
    (day_number(base) + days_to_monday(weekday_of(base))) * 86400
}

/// The next Monday is a day that `chrono` represents.
pub open spec fn next_monday_in_range(now: int) -> bool {
    timestamp_in_range(next_monday(now))
}

/// Timestamp of the next Monday 00:00 UTC after `now` (a week after `now`
/// when `now` falls on a Monday).
pub fn next_monday_ts(now: i64) -> (ts: i64)
    requires
        next_monday_in_range(now as int),
    ensures
        ts == next_monday(now as int),
{
    let base: i64 = match utc_weekday_from_monday(now) {
        Some(_) => now,
        None => 0,
    };
    let weekday = match utc_weekday_from_monday(base) {
        Some(w) => w,
        None => 0,
    };
    let days: i64 = if weekday == 0 { 7 } else { 7 - weekday as i64 };
    utc_midnight_after_days(base, days)
}

/// The next Monday 00:00 UTC after `now`, where `chrono` represents that
/// Monday; `None` where it lies beyond the last day `chrono` represents (the
/// date arithmetic of `next_monday_ts` cannot be carried out there).
pub fn next_monday_ts_checked(now: i64) -> (ts: Option<i64>)
    ensures
        ts is Some <==> next_monday_in_range(now as int),
        ts matches Some(t) ==> t == next_monday(now as int),
{
    let base: i64 = match utc_weekday_from_monday(now) {
        Some(_) => now,
        None => 0,
    };
    let weekday = match utc_weekday_from_monday(base) {
        Some(w) => w,
        None => 0,
    };
    let days: i64 = if weekday == 0 { 7 } else { 7 - weekday as i64 };
    assert(base == calendar_base(now as int));
    assert(days == days_to_monday(weekday_of(base as int)));
    let ghost d = day_number(base as int);
    assert(d * 86400 <= base < d * 86400 + 86400);
    if base >= 0 {
        let day: i64 = base / 86400;
        assert(day == d);
        if day + days > 95026236 {
            assert((d + days) * 86400 > max_timestamp()) by (nonlinear_arith)
                requires
                    d + days >= 95026237,
            ;
            return None;
        }
        assert((d + days) * 86400 <= max_timestamp()) by (nonlinear_arith)
            requires
                d + days <= 95026236,
        ;
    } else {
        assert(d <= -1);
        assert((d + days) * 86400 <= 6 * 86400) by (nonlinear_arith)
            requires
                d + days <= 6,
        ;
    }
    assert(timestamp_in_range((d + days) * 86400));
    Some(utc_midnight_after_days(base, days))
}

/// The time of the last update as shown: `HH:MM:SS` UTC, a placeholder
/// before the first update, and another where the time cannot be shown.
pub open spec fn timestamp_text(ts: int) -> Seq<char> {
    if ts == 0 {
        "未取得"@
    } else if timestamp_in_range(ts) {
        clock_text(ts)
    } else {
        "不明"@
    }
}

/// Formats the time of the last update.
pub fn format_timestamp(ts: i64) -> (text: String)
    ensures
        text@ == timestamp_text(ts as int),
{
    if ts == 0 {
        return String::from_str("未取得");
    }
    match utc_clock_text(ts) {
        Some(s) => s,
        None => String::from_str("不明"),
    }
}

/// The weekly reset falls on a Monday at midnight UTC, after `now` and at
/// most a week after it, for every `now` that `chrono` represents.
pub proof fn lemma_next_monday_is_monday_midnight(now: int)
    requires
        timestamp_in_range(now),
    ensures
        second_of_day(next_monday(now)) == 0,
        weekday_of(next_monday(now)) == 0,
        now < next_monday(now) <= now + 7 * 86400,
{
    let d = day_number(now);
    let k = days_to_monday(weekday_of(now));
    assert(calendar_base(now) == now);
    assert(d * 86400 <= now < d * 86400 + 86400);
    assert(1 <= k <= 7);
    let r = (d + k) * 86400;
    assert(next_monday(now) == r);
    assert(r / 86400 == d + k);
    assert(r % 86400 == 0);
    assert((d + k + 3) % 7 == 0);
}

/// A leap year of the Gregorian calendar.
pub open spec fn is_leap_year(y: int) -> bool {
    y % 4 == 0 && (y % 100 != 0 || y % 400 == 0)
}

/// The number of days of month `m` (1 to 12) of year `y`.
pub open spec fn month_length(y: int, m: int) -> int {
    if m == 2 {
        if is_leap_year(y) { 29 } else { 28 }
    } else if m == 4 || m == 6 || m == 9 || m == 11 {
        30
    } else {
        31
    }
}

/// The years that `chrono`'s dates cover.
pub open spec fn year_in_range(y: int) -> bool {
    -262143 <= y <= 262142
}

/// The month that follows month `m` of year `y`.
pub open spec fn next_month(y: int, m: int) -> (int, int) {
    if m == 12 { (y + 1, 1) } else { (y, m + 1) }
}

/// The proleptic Gregorian date of day `z` (days from 1970-01-01): the
/// year, the month (1 to 12) and the day of the month.
pub open spec fn civil_from_days(z: int) -> (int, int, int) {
    let zz = z + 719468;
    let era = zz / 146097;
    let doe = zz - era * 146097;
    let yoe = (doe - doe / 1460 + doe / 36524 - doe / 146096) / 365;
    let y = yoe + era * 400;
    let doy = doe - (365 * yoe + yoe / 4 - yoe / 100);
    let mp = (5 * doy + 2) / 153;
    let d = doy - (153 * mp + 2) / 5 + 1;
    let m = if mp < 10 { mp + 3 } else { mp - 9 };
    (if m <= 2 { y + 1 } else { y }, m, d)
}

/// The year and the month (1 to 12) of the instant `ts` in UTC.
pub open spec fn utc_calendar_month(ts: int) -> (int, int) {
    (civil_from_days(day_number(ts)).0, civil_from_days(day_number(ts)).1)
}

/// The decimal digits of `n`, with leading zeros up to four digits.
pub open spec fn four_digits_at_least(n: nat) -> Seq<char> {
    if n < 10 {
        "000"@ + decimal(n)
    } else if n < 100 {
        "00"@ + decimal(n)
    } else if n < 1000 {
        "0"@ + decimal(n)
    } else {
        decimal(n)
    }
}

/// A year as `%Y` writes it: four digits for the years 0 to 9999, and for
/// any other year its sign before at least four digits.
pub open spec fn year_text(y: int) -> Seq<char> {
    if 0 <= y < 10000 {
        four_digits_at_least(y as nat)
    } else if y < 0 {
        "-"@ + four_digits_at_least((-y) as nat)
    } else {
        "+"@ + four_digits_at_least(y as nat)
    }
}

/// `YYYY-MM-DD` of the day of `ts` (UTC), the year as `year_text` writes it.
pub open spec fn date_text(ts: int) -> Seq<char> {
    let (y, m, d) = civil_from_days(day_number(ts));
    year_text(y) + "-"@ + two_digits(m) + "-"@ + two_digits(d)
}

/// The day of the instant `ts` formatted by `chrono` as `%Y-%m-%d`: `None`
/// exactly when `chrono` does not represent the instant, else the year
/// (zero-padded to four digits, signed outside 0 to 9999), the month and
/// the day of its Gregorian date.
#[verifier::external_body]
pub(crate) fn utc_date_text(ts: i64) -> (text: Option<String>)
    ensures
        text is Some <==> timestamp_in_range(ts as int),
        text matches Some(s) ==> s@ == date_text(ts as int),
{
    match chrono::DateTime::from_timestamp(ts, 0) {
        Some(dt) => Some(dt.format("%Y-%m-%d").to_string()),
        None => None,
    }
}

/// The year and month of the instant `ts` in UTC, as
/// `DateTime::from_timestamp(ts, 0)` with `year()` and `month()` give them:
/// those of the Gregorian date of its day, a year in the range that
/// `chrono` covers and a month from 1 to 12.
#[verifier::external_body]
fn utc_year_month(ts: i64) -> (ym: (i32, u32))
    requires
        timestamp_in_range(ts as int),
    ensures
        (ym.0 as int, ym.1 as int) == utc_calendar_month(ts as int),
        year_in_range(ym.0 as int),
        1 <= ym.1 <= 12,
{
    let dt = chrono::DateTime::from_timestamp(ts, 0).unwrap();
    (chrono::Datelike::year(&dt), chrono::Datelike::month(&dt))
}

/// `(NaiveDate::from_ymd_opt(next_year, next_month, 1) - NaiveDate::from_ymd_opt(year, month, 1)).num_days()`
/// where both dates exist, for the month that follows: the length of the
/// month. `None` where `chrono` has no such date (a year out of its range).
#[verifier::external_body]
fn days_between_month_starts(year: i32, month: u32, next_year: i32, next_month_no: u32) -> (length: Option<i64>)
    requires
        1 <= month <= 12,
        next_year == next_month(year as int, month as int).0,
        next_month_no == next_month(year as int, month as int).1,
    ensures
        length is Some <==> (year_in_range(year as int) && year_in_range(next_year as int)),
        length matches Some(d) ==> d == month_length(year as int, month as int),
{
    match (
        chrono::NaiveDate::from_ymd_opt(next_year, next_month_no, 1),
        chrono::NaiveDate::from_ymd_opt(year, month, 1),
    ) {
        (Some(n), Some(t)) => Some((n - t).num_days()),
        _ => None,
    }
}

/// The length of month `m` of year `y` as the widget reckons it: 30 where
/// `chrono` has no date for the first of the following month.
pub open spec fn reckoned_month_length(y: int, m: int) -> int {
    if year_in_range(next_month(y, m).0) { month_length(y, m) } else { 30 }
}

/// The length of the current month of `now`.
pub open spec fn current_month_length(now: int) -> int {
    reckoned_month_length(utc_calendar_month(now).0, utc_calendar_month(now).1)
}

/// The number of days of month `month` (1 to 12) of `year`, from the first
/// of that month to the first of the next; 30 where `chrono` has no date
/// for either.
pub fn month_length_of(year: i32, month: u32) -> (days: u32)
    requires
        year_in_range(year as int),
        1 <= month <= 12,
    ensures
        days == reckoned_month_length(year as int, month as int),
        year_in_range(next_month(year as int, month as int).0) ==> days == month_length(year as int, month as int),
{
    let (ny, nm): (i32, u32) = if month == 12 { (year + 1, 1) } else { (year, month + 1) };
    match days_between_month_starts(year, month, ny, nm) {
        Some(d) => d as u32,
        None => 30,
    }
}

/// The number of days in the month of the instant `now` (UTC).
pub fn days_in_current_month(now: i64) -> (days: u32)
    requires
        timestamp_in_range(now as int),
    ensures
        days == current_month_length(now as int),
        year_in_range(next_month(utc_calendar_month(now as int).0, utc_calendar_month(now as int).1).0) ==> days
            == month_length(utc_calendar_month(now as int).0, utc_calendar_month(now as int).1),
{
    let (year, month) = utc_year_month(now);
    month_length_of(year, month)
}

/// The month lengths of the Gregorian calendar, wherever `chrono` has the
/// first of the following month: 31 days for January, March, May, July,
/// August, October and December, 30 for April, June, September and
/// November, and 29 for February of a leap year, 28 otherwise.
pub proof fn lemma_month_lengths_are_gregorian(y: int, m: int)
    requires
        1 <= m <= 12,
        year_in_range(next_month(y, m).0),
    ensures
        (m == 1 || m == 3 || m == 5 || m == 7 || m == 8 || m == 10 || m == 12) ==> reckoned_month_length(y, m) == 31,
        (m == 4 || m == 6 || m == 9 || m == 11) ==> reckoned_month_length(y, m) == 30,
        m == 2 ==> reckoned_month_length(y, m) == if y % 4 == 0 && (y % 100 != 0 || y % 400 == 0) { 29int } else { 28int },
{
}

/// The twelve months of a year that `chrono` has, with the year after it,
/// add up to the days of that year: 366 in a leap year, 365 otherwise.
pub proof fn lemma_months_fill_the_year(y: int)
    requires
        year_in_range(y),
        year_in_range(y + 1),
    ensures
        reckoned_month_length(y, 1) + reckoned_month_length(y, 2) + reckoned_month_length(y, 3)
            + reckoned_month_length(y, 4) + reckoned_month_length(y, 5) + reckoned_month_length(y, 6)
            + reckoned_month_length(y, 7) + reckoned_month_length(y, 8) + reckoned_month_length(y, 9)
            + reckoned_month_length(y, 10) + reckoned_month_length(y, 11) + reckoned_month_length(y, 12)
            == if y % 4 == 0 && (y % 100 != 0 || y % 400 == 0) { 366int } else { 365int },
{
}

} // verus!
