//! Time keeping: the tick counter, sleeping decisions and calendar dates.

use vstd::prelude::*;

use crate::string::String;

verus! {

/// A time since boot.
pub struct Time {
    pub second: usize,
    pub millisecond: usize,
}

/// The time of `total_ms` milliseconds since boot: the whole seconds, and
/// in `millisecond` the milliseconds less the number of seconds, as the
/// kernel's timestamp computes it (not the milliseconds past the second).
pub fn time_from_ms(total_ms: usize) -> (res: Time)
    ensures
        res.second == total_ms / 1000,
        res.millisecond == total_ms - total_ms / 1000,
{
    Time { second: total_ms / 1000, millisecond: total_ms - (total_ms / 1000) }
}

/// Counts one more tick; the counter wraps around.
pub fn jiffies_inc(counter: &mut usize)
    ensures
        *final(counter) == if *old(counter) == usize::MAX {
            0
        } else {
            *old(counter) + 1
        },
{
    if *counter == usize::MAX {
        *counter = 0;
    } else {
        *counter = *counter + 1;
    }
}

/// The ticks counted.
pub fn jiffies(counter: &usize) -> (res: usize)
    ensures
        res == *counter,
{
    *counter
}

/// How to sleep: by halting until enough ticks went by, or by a number of
/// microsecond delays.
#[derive(Debug, Clone, Copy, PartialEq, Eq, Structural)]
pub enum SleepPlan {
    UntilElapsed(usize),
    Delay(usize),
}

/// How to sleep `ms` milliseconds: waiting for ticks above a second, else
/// by `ms * 1000` microsecond delays.
pub fn sleep(ms: usize) -> (res: SleepPlan)
    ensures
        ms > 1000 ==> res == SleepPlan::UntilElapsed(ms),
        ms <= 1000 ==> res == SleepPlan::Delay((ms * 1000) as usize),
{
    if ms > 1000 {
        SleepPlan::UntilElapsed(ms)
    } else {
        SleepPlan::Delay(raw_delay_ms(ms))
    }
}

/// The number of microsecond delays in `ms` milliseconds.
fn raw_delay_ms(ms: usize) -> (res: usize)
    requires
        ms * 1000 <= usize::MAX,
    ensures
        res == ms * 1000,
{
    ms * 1000
}

/// Whether a sleep of `ms` milliseconds begun at `saved` milliseconds is
/// over at `now`.
pub fn sleep_done(saved: usize, ms: usize, now: usize) -> (res: bool)
    requires
        saved + ms <= usize::MAX,
    ensures
        res == (saved + ms <= now),
{
    !(saved + ms > now)
}

/// Whether `y` is a leap year.
pub open spec fn is_leap(y: int) -> bool {
    (y % 4 == 0 && y % 100 != 0) || y % 400 == 0
}

/// The number of days of year `y`.
pub open spec fn year_len(y: int) -> int {
    if is_leap(y) {
        366
    } else {
        365
    }
}

/// Counting whole years off `days` from `year` on, while a whole year is
/// left: the days left and the year reached.
pub open spec fn year_walk(days: int, year: int) -> (int, int)
    decreases days + 1,
{
    if days >= year_len(year) {
        year_walk(days - year_len(year), year + 1)
    } else {
        (days, year)
    }
}

/// The days of month `m` (0 to 11), February having 29 in a leap year.
pub open spec fn month_len(m: int, leap: bool) -> int {
    if m == 1 {
        if leap {
            29
        } else {
            28
        }
    } else if m == 3 || m == 5 || m == 8 || m == 10 {
        30
    } else {
        31
    }
}

/// The days of a year before month `m` (0 to 12).
pub open spec fn days_before(m: int, leap: bool) -> int
    decreases m,
{
    if m <= 0 {
        0
    } else {
        days_before(m - 1, leap) + month_len(m - 1, leap)
    }
}

/// Counting whole months off day `d` (1-based) from month `m` on: the day
/// left and the month reached.
pub open spec fn month_walk(d: int, m: int, leap: bool) -> (int, int)
    decreases 12 - m,
{
    if 0 <= m < 12 && d > month_len(m, leap) {
        month_walk(d - month_len(m, leap), m + 1, leap)
    } else {
        (d, m)
    }
}

/// The fields of the date of `t` seconds since 1970-01-01 in the Gregorian
/// calendar: week day (0 is Sunday), month (0 to 11), day of the month,
/// hours, minutes, seconds, year.
pub open spec fn date_of(t: u32) -> (int, int, int, int, int, int, int) {
    let days = t / 86400;
    let (left, year) = year_walk(days as int, 1970);
    let (day, month) = month_walk(left + 1, 0, is_leap(year));
    ((4 + days) % 7, month, day, ((t / 3600) % 24) as int, ((t / 60) % 60) as int, (t % 60) as int, year)
}

/// The ASCII code of digit `d`.
pub open spec fn digit(d: int) -> u8 {
    (48 + d) as u8
}

/// `n` (below 100) on two digits.
pub open spec fn two_digits(n: int) -> Seq<u8> {
    seq![digit(n / 10), digit(n % 10)]
}

/// `n` (below 100) right-aligned on three places.
pub open spec fn three_places(n: int) -> Seq<u8> {
    if n < 10 {
        seq![32u8, 32u8, digit(n)]
    } else {
        seq![32u8, digit(n / 10), digit(n % 10)]
    }
}

/// `n` (1000 to 9999) on four digits.
pub open spec fn four_digits(n: int) -> Seq<u8> {
    seq![digit(n / 1000), digit((n / 100) % 10), digit((n / 10) % 10), digit(n % 10)]
}

/// The abbreviated name of week day `w` (0 is Sunday).
pub open spec fn wday_name(w: int) -> Seq<u8> {
    if w == 0 {
        seq![83u8, 117u8, 110u8]
    } else if w == 1 {
        seq![77u8, 111u8, 110u8]
    } else if w == 2 {
        seq![84u8, 117u8, 101u8]
    } else if w == 3 {
        seq![87u8, 101u8, 100u8]
    } else if w == 4 {
        seq![84u8, 104u8, 117u8]
    } else if w == 5 {
        seq![70u8, 114u8, 105u8]
    } else {
        seq![83u8, 97u8, 116u8]
    }
}

/// The abbreviated name of month `m` (0 is January).
pub open spec fn month_name(m: int) -> Seq<u8> {
    if m == 0 {
        seq![74u8, 97u8, 110u8]
    } else if m == 1 {
        seq![70u8, 101u8, 98u8]
    } else if m == 2 {
        seq![77u8, 97u8, 114u8]
    } else if m == 3 {
        seq![65u8, 112u8, 114u8]
    } else if m == 4 {
        seq![77u8, 97u8, 121u8]
    } else if m == 5 {
        seq![74u8, 117u8, 110u8]
    } else if m == 6 {
        seq![74u8, 117u8, 108u8]
    } else if m == 7 {
        seq![65u8, 117u8, 103u8]
    } else if m == 8 {
        seq![83u8, 101u8, 112u8]
    } else if m == 9 {
        seq![79u8, 99u8, 116u8]
    } else if m == 10 {
        seq![78u8, 111u8, 118u8]
    } else {
        seq![68u8, 101u8, 99u8]
    }
}

/// The text of the date of `t`, as `Thu Jan  1 00:00:00 1970`.
pub open spec fn ctime_text(t: u32) -> Seq<u8> {
    let (w, m, d, hh, mm, ss, y) = date_of(t);
    wday_name(w) + seq![32u8] + month_name(m) + three_places(d) + seq![32u8] + two_digits(hh) + seq![58u8]
        + two_digits(mm) + seq![58u8] + two_digits(ss) + seq![32u8] + four_digits(y)
}

/// The date text is always 24 bytes long.
pub proof fn lemma_ctime_length(t: u32)
    ensures
        ctime_text(t).len() == 24,
{
}

/// The abbreviations of the twelve months, January to December, one after
/// the other: `JanFebMarAprMayJunJulAugSepOctNovDec`.
pub open spec fn month_table() -> Seq<u8> {
    seq![74u8, 97u8, 110u8, 70u8, 101u8, 98u8, 77u8, 97u8, 114u8, 65u8, 112u8, 114u8, 77u8, 97u8, 121u8, 74u8, 117u8, 110u8, 74u8, 117u8, 108u8, 65u8, 117u8, 103u8, 83u8, 101u8, 112u8, 79u8, 99u8, 116u8, 78u8, 111u8, 118u8, 68u8, 101u8, 99u8]
}

proof fn lemma_month_name_in_table(m: int)
    requires
        0 <= m < 12,
    ensures
        month_name(m) == month_table().subrange(3 * m, 3 * m + 3),
{
    if m == 0 {
        assert(month_table().subrange(0, 3) =~= month_name(m));
    } else if m == 1 {
        assert(month_table().subrange(3, 6) =~= month_name(m));
    } else if m == 2 {
        assert(month_table().subrange(6, 9) =~= month_name(m));
    } else if m == 3 {
        assert(month_table().subrange(9, 12) =~= month_name(m));
    } else if m == 4 {
        assert(month_table().subrange(12, 15) =~= month_name(m));
    } else if m == 5 {
        assert(month_table().subrange(15, 18) =~= month_name(m));
    } else if m == 6 {
        assert(month_table().subrange(18, 21) =~= month_name(m));
    } else if m == 7 {
        assert(month_table().subrange(21, 24) =~= month_name(m));
    } else if m == 8 {
        assert(month_table().subrange(24, 27) =~= month_name(m));
    } else if m == 9 {
        assert(month_table().subrange(27, 30) =~= month_name(m));
    } else if m == 10 {
        assert(month_table().subrange(30, 33) =~= month_name(m));
    } else if m == 11 {
        assert(month_table().subrange(33, 36) =~= month_name(m));
    }
}

/// Counting whole years leaves fewer days than the year reached has.
proof fn lemma_year_walk_left(days: int, year: int)
    requires
        days >= 0,
    ensures
        0 <= year_walk(days, year).0 < year_len(year_walk(days, year).1),
    decreases days + 1,
{
    if days >= year_len(year) {
        lemma_year_walk_left(days - year_len(year), year + 1);
    }
}

/// Counting whole months off a day of the year stops on a month of it.
proof fn lemma_month_walk_in_year(d: int, m: int, leap: bool)
    requires
        0 <= m <= 12,
        1 <= d <= days_before(12, leap) - days_before(m, leap),
    ensures
        0 <= month_walk(d, m, leap).1 < 12,
    decreases 12 - m,
{
    if m < 12 && d > month_len(m, leap) {
        assert(days_before(m + 1, leap) == days_before(m, leap) + month_len(m, leap));
        lemma_month_walk_in_year(d - month_len(m, leap), m + 1, leap);
    } else if m == 12 {
        assert(false);
    }
}

/// The month of every date is one of the twelve, and the date text names
/// it by its abbreviation, taken in calendar order from `month_table`: the
/// text's bytes 4 to 6 are the `3 * m`-th to `3 * m + 2`-th bytes of the
/// table, `m` being the month (0 is January).
pub proof fn lemma_ctime_month_name(t: u32)
    ensures
        0 <= date_of(t).1 < 12,
        ctime_text(t).subrange(4, 7) == month_table().subrange(3 * date_of(t).1, 3 * date_of(t).1 + 3),
{
    let days = t / 86400;
    lemma_year_walk_left(days as int, 1970);
    let (left, year) = year_walk(days as int, 1970);
    let leap = is_leap(year);
    lemma_days_before(12, leap);
    lemma_days_before(0, leap);
    lemma_month_walk_in_year(left + 1, 0, leap);
    let (w, m, d, hh, mm, ss, y) = date_of(t);
    lemma_month_name_in_table(m);
    let text = ctime_text(t);
    assert(text.subrange(4, 7) =~= month_name(m));
}

/// Dates in different months are written with different month names, and
/// dates in the same month with the same one.
pub proof fn lemma_ctime_months_distinct(t1: u32, t2: u32)
    ensures
        (date_of(t1).1 == date_of(t2).1) <==> (ctime_text(t1).subrange(4, 7) == ctime_text(t2).subrange(4, 7)),
{
    lemma_ctime_month_name(t1);
    lemma_ctime_month_name(t2);
    let m1 = date_of(t1).1;
    let m2 = date_of(t2).1;
    if m1 != m2 {
        let a = month_table().subrange(3 * m1, 3 * m1 + 3);
        let b = month_table().subrange(3 * m2, 3 * m2 + 3);
        assert(a != b) by {
            lemma_month_names_differ(m1, m2);
        }
    }
}

/// Two different months have different abbreviations in `month_table`.
proof fn lemma_month_names_differ(m1: int, m2: int)
    requires
        0 <= m1 < 12,
        0 <= m2 < 12,
        m1 != m2,
    ensures
        month_table().subrange(3 * m1, 3 * m1 + 3) != month_table().subrange(3 * m2, 3 * m2 + 3),
{
    let t = month_table();
    assert(t.subrange(3 * m1, 3 * m1 + 3)[0] == t[3 * m1]);
    assert(t.subrange(3 * m2, 3 * m2 + 3)[0] == t[3 * m2]);
    assert(t.subrange(3 * m1, 3 * m1 + 3)[1] == t[3 * m1 + 1]);
    assert(t.subrange(3 * m2, 3 * m2 + 3)[1] == t[3 * m2 + 1]);
    assert(t.subrange(3 * m1, 3 * m1 + 3)[2] == t[3 * m1 + 2]);
    assert(t.subrange(3 * m2, 3 * m2 + 3)[2] == t[3 * m2 + 2]);
}

/// The abbreviations of the seven week days, Sunday to Saturday, one after
/// the other: `SunMonTueWedThuFriSat`.
pub open spec fn day_table() -> Seq<u8> {
    seq![83u8, 117u8, 110u8, 77u8, 111u8, 110u8, 84u8, 117u8, 101u8, 87u8, 101u8, 100u8, 84u8, 104u8, 117u8, 70u8, 114u8, 105u8, 83u8, 97u8, 116u8]
}

proof fn lemma_wday_name_in_table(w: int)
    requires
        0 <= w < 7,
    ensures
        wday_name(w) == day_table().subrange(3 * w, 3 * w + 3),
{
    if w == 0 {
        assert(day_table().subrange(0, 3) =~= wday_name(w));
    } else if w == 1 {
        assert(day_table().subrange(3, 6) =~= wday_name(w));
    } else if w == 2 {
        assert(day_table().subrange(6, 9) =~= wday_name(w));
    } else if w == 3 {
        assert(day_table().subrange(9, 12) =~= wday_name(w));
    } else if w == 4 {
        assert(day_table().subrange(12, 15) =~= wday_name(w));
    } else if w == 5 {
        assert(day_table().subrange(15, 18) =~= wday_name(w));
    } else if w == 6 {
        assert(day_table().subrange(18, 21) =~= wday_name(w));
    }
}

/// The date text starts with the week day: 1970-01-01 was a Thursday and
/// every day moves it on by one, so day `t / 86400` is week day
/// `(t / 86400 + 4) % 7` of `day_table` (0 is Sunday).
pub proof fn lemma_ctime_weekday(t: u32)
    ensures
        ctime_text(t).subrange(0, 3) == day_table().subrange(3 * ((t / 86400 + 4) % 7), 3 * ((t / 86400 + 4) % 7) + 3),
{
    let w = (4 + t / 86400) % 7;
    lemma_wday_name_in_table(w as int);
    let text = ctime_text(t);
    assert(text.subrange(0, 3) =~= wday_name(w as int));
}

/// The clock of the date text: the hours, minutes and seconds of `t` past
/// midnight, on two digits each and separated by colons, at bytes 11 to
/// 18, with a blank before and after.
pub proof fn lemma_ctime_clock(t: u32)
    ensures
        ({
            let text = ctime_text(t);
            let h = (t % 86400) / 3600;
            let m = (t % 3600) / 60;
            let s = t % 60;
            &&& text[10] == 32u8 && text[19] == 32u8
            &&& text[11] == 48 + h / 10 && text[12] == 48 + h % 10
            &&& text[13] == 58u8
            &&& text[14] == 48 + m / 10 && text[15] == 48 + m % 10
            &&& text[16] == 58u8
            &&& text[17] == 48 + s / 10 && text[18] == 48 + s % 10
        }),
{
    let (w0, mo, d, hh, mm, ss, y) = date_of(t);
    assert((t / 3600) % 24 == (t % 86400) / 3600) by {
        vstd::arithmetic::div_mod::lemma_fundamental_div_mod(t as int, 86400);
        vstd::arithmetic::div_mod::lemma_fundamental_div_mod(t as int, 3600);
    }
    assert((t / 60) % 60 == (t % 3600) / 60) by {
        vstd::arithmetic::div_mod::lemma_fundamental_div_mod(t as int, 3600);
        vstd::arithmetic::div_mod::lemma_fundamental_div_mod(t as int, 60);
    }
    lemma_name_lengths(w0, mo, d);
    lemma_clock_at(wday_name(w0), month_name(mo), three_places(d), hh, mm, ss, four_digits(y));
}

/// The day and the year of the date text: bytes 8 and 9 are the day of
/// the month, right-aligned (a blank for a day below 10), and bytes 20 to
/// 23 the year on four digits, `d` and `y` being the day and year that
/// `lemma_date_counts_days` describes.
pub proof fn lemma_ctime_day_and_year(t: u32)
    ensures
        ({
            let (w, m, d, hh, mm, ss, y) = date_of(t);
            let text = ctime_text(t);
            &&& text.len() == 24
            &&& text[7] == 32u8
            &&& text[8] == (if d < 10 { 32u8 } else { (48 + d / 10) as u8 })
            &&& text[9] == (48 + d % 10) as u8
            &&& 1970 <= y < 10000
            &&& text[20] == (48 + y / 1000) as u8
            &&& text[21] == (48 + (y / 100) % 10) as u8
            &&& text[22] == (48 + (y / 10) % 10) as u8
            &&& text[23] == (48 + y % 10) as u8
        }),
{
    let (w0, mo, d, hh, mm, ss, y) = date_of(t);
    lemma_date_counts_days(t);
    lemma_year_walk_bound((t / 86400) as int, 1970);
    lemma_name_lengths(w0, mo, d);
    lemma_clock_at(wday_name(w0), month_name(mo), three_places(d), hh, mm, ss, four_digits(y));
    let text = ctime_text(t);
    assert(text[8] == text.subrange(7, 10)[1]);
    assert(text[9] == text.subrange(7, 10)[2]);
    assert(text[7] == text.subrange(7, 10)[0]);
    assert(text[20] == text.subrange(20, 24)[0]);
    assert(text[21] == text.subrange(20, 24)[1]);
    assert(text[22] == text.subrange(20, 24)[2]);
    assert(text[23] == text.subrange(20, 24)[3]);
}

proof fn lemma_name_lengths(w: int, m: int, d: int)
    ensures
        wday_name(w).len() == 3,
        month_name(m).len() == 3,
        three_places(d).len() == 3,
{
}

/// Where the clock stands in a date text made of a week day `a`, a month
/// `b` and a day `c` of three bytes each.
proof fn lemma_clock_at(a: Seq<u8>, b: Seq<u8>, c: Seq<u8>, hh: int, mm: int, ss: int, y: Seq<u8>)
    requires
        a.len() == 3,
        b.len() == 3,
        c.len() == 3,
        y.len() == 4,
    ensures
        ({
            let text = a + seq![32u8] + b + c + seq![32u8] + two_digits(hh) + seq![58u8] + two_digits(mm) + seq![58u8]
                + two_digits(ss) + seq![32u8] + y;
            &&& text.len() == 24
            &&& text.subrange(7, 10) == c
            &&& text.subrange(20, 24) == y
        }),
        ({
            let text = a + seq![32u8] + b + c + seq![32u8] + two_digits(hh) + seq![58u8] + two_digits(mm) + seq![58u8]
                + two_digits(ss) + seq![32u8] + y;
            &&& text[10] == 32u8 && text[19] == 32u8
            &&& text[11] == digit(hh / 10) && text[12] == digit(hh % 10)
            &&& text[13] == 58u8
            &&& text[14] == digit(mm / 10) && text[15] == digit(mm % 10)
            &&& text[16] == 58u8
            &&& text[17] == digit(ss / 10) && text[18] == digit(ss % 10)
        }),
{
    let pre = a + seq![32u8] + b + c;
    let clock = seq![32u8] + two_digits(hh) + seq![58u8] + two_digits(mm) + seq![58u8] + two_digits(ss) + seq![32u8];
    let text = a + seq![32u8] + b + c + seq![32u8] + two_digits(hh) + seq![58u8] + two_digits(mm) + seq![58u8]
        + two_digits(ss) + seq![32u8] + y;
    assert(text =~= pre + clock + y);
    assert(text.subrange(7, 10) =~= c);
    assert(text.subrange(20, 24) =~= y);
    assert(clock =~= seq![32u8, digit(hh / 10), digit(hh % 10), 58u8, digit(mm / 10), digit(mm % 10), 58u8, digit(ss / 10), digit(ss % 10), 32u8]);
}

/// The days from 1970-01-01 to the first day of year `y` (from 1970 on).
pub open spec fn days_to_year(y: int) -> int
    decreases y - 1970,
{
    if y <= 1970 {
        0
    } else {
        days_to_year(y - 1) + year_len(y - 1)
    }
}

proof fn lemma_year_walk_sum(days: int, year: int)
    requires
        days >= 0,
        year >= 1970,
    ensures
        year_walk(days, year).1 >= year,
        days_to_year(year) + days == days_to_year(year_walk(days, year).1) + year_walk(days, year).0,
    decreases days + 1,
{
    if days >= year_len(year) {
        lemma_year_walk_sum(days - year_len(year), year + 1);
    }
}

proof fn lemma_month_walk_sum(d: int, m: int, leap: bool)
    requires
        0 <= m <= 12,
        1 <= d <= days_before(12, leap) - days_before(m, leap),
    ensures
        m <= month_walk(d, m, leap).1 < 12,
        d + days_before(m, leap) == month_walk(d, m, leap).0 + days_before(month_walk(d, m, leap).1, leap),
        1 <= month_walk(d, m, leap).0 <= month_len(month_walk(d, m, leap).1, leap),
    decreases 12 - m,
{
    if m < 12 && d > month_len(m, leap) {
        assert(days_before(m + 1, leap) == days_before(m, leap) + month_len(m, leap));
        lemma_month_walk_sum(d - month_len(m, leap), m + 1, leap);
    } else if m == 12 {
        assert(false);
    }
}

/// The date names the day it falls on: with `y`, `m` (0 is January) and
/// `d` the year, month and day of the date of `t`, day `d` is a day of
/// month `m` of year `y`, and the days from 1970-01-01 to it, counting
/// each year with its length and each month of `y` with its length (29
/// days for February of a leap year), are `t / 86400`.
pub proof fn lemma_date_counts_days(t: u32)
    ensures
        ({
            let (w, m, d, hh, mm, ss, y) = date_of(t);
            &&& y >= 1970
            &&& 0 <= m < 12
            &&& 1 <= d <= month_len(m, is_leap(y))
            &&& t / 86400 == days_to_year(y) + days_before(m, is_leap(y)) + d - 1
        }),
{
    let days = t / 86400;
    lemma_year_walk_sum(days as int, 1970);
    lemma_year_walk_left(days as int, 1970);
    let (left, year) = year_walk(days as int, 1970);
    let leap = is_leap(year);
    lemma_days_before(12, leap);
    lemma_days_before(0, leap);
    lemma_month_walk_sum(left + 1, 0, leap);
}

proof fn lemma_days_before(m: int, leap: bool)
    requires
        0 <= m <= 12,
    ensures
        days_before(m, leap) == (if m == 0 { 0int } else if m == 1 { 31 } else if m == 2 { 59 } else if m == 3 { 90 }
            else if m == 4 { 120 } else if m == 5 { 151 } else if m == 6 { 181 } else if m == 7 { 212 }
            else if m == 8 { 243 } else if m == 9 { 273 } else if m == 10 { 304 } else if m == 11 { 334 }
            else { 365 }) + if leap && m >= 2 { 1int } else { 0int },
    decreases m,
{
    if m > 0 {
        lemma_days_before(m - 1, leap);
    }
}

proof fn lemma_year_walk_bound(days: int, year: int)
    requires
        days >= 0,
    ensures
        0 <= year_walk(days, year).0 < year_len(year_walk(days, year).1),
        year_walk(days, year).1 >= year,
        (year_walk(days, year).1 - year) * 365 <= days,
    decreases days + 1,
{
    if days >= year_len(year) {
        lemma_year_walk_bound(days - year_len(year), year + 1);
    }
}

fn is_leap_year(y: u32) -> (res: bool)
    ensures
        res == is_leap(y as int),
{
    (y % 4 == 0 && y % 100 != 0) || y % 400 == 0
}

fn month_days(m: usize, leap: bool) -> (res: u32)
    requires
        m < 12,
    ensures
        res == month_len(m as int, leap),
{
    if m == 1 {
        if leap {
            29
        } else {
            28
        }
    } else if m == 3 || m == 5 || m == 8 || m == 10 {
        30
    } else {
        31
    }
}

fn push_digit(out: &mut std::vec::Vec<u8>, d: u32)
    requires
        d < 10,
    ensures
        final(out)@ == old(out)@.push(digit(d as int)),
{
    out.push((48 + d) as u8);
}

fn push_name(out: &mut std::vec::Vec<u8>, name: Ghost<Seq<u8>>, a: u8, b: u8, c: u8)
    requires
        name@ == seq![a, b, c],
    ensures
        final(out)@ == old(out)@ + name@,
{
    out.push(a);
    out.push(b);
    out.push(c);
    assert(out@ =~= old(out)@ + name@);
}

fn push_wday(out: &mut std::vec::Vec<u8>, w: u32)
    ensures
        final(out)@ == old(out)@ + wday_name(w as int),
{
    let ghost n = wday_name(w as int);
    if w == 0 {
        push_name(out, Ghost(n), 83, 117, 110);
    } else if w == 1 {
        push_name(out, Ghost(n), 77, 111, 110);
    } else if w == 2 {
        push_name(out, Ghost(n), 84, 117, 101);
    } else if w == 3 {
        push_name(out, Ghost(n), 87, 101, 100);
    } else if w == 4 {
        push_name(out, Ghost(n), 84, 104, 117);
    } else if w == 5 {
        push_name(out, Ghost(n), 70, 114, 105);
    } else {
        push_name(out, Ghost(n), 83, 97, 116);
    }
}

fn push_month(out: &mut std::vec::Vec<u8>, m: usize)
    ensures
        final(out)@ == old(out)@ + month_name(m as int),
{
    let ghost n = month_name(m as int);
    if m == 0 {
        push_name(out, Ghost(n), 74, 97, 110);
    } else if m == 1 {
        push_name(out, Ghost(n), 70, 101, 98);
    } else if m == 2 {
        push_name(out, Ghost(n), 77, 97, 114);
    } else if m == 3 {
        push_name(out, Ghost(n), 65, 112, 114);
    } else if m == 4 {
        push_name(out, Ghost(n), 77, 97, 121);
    } else if m == 5 {
        push_name(out, Ghost(n), 74, 117, 110);
    } else if m == 6 {
        push_name(out, Ghost(n), 74, 117, 108);
    } else if m == 7 {
        push_name(out, Ghost(n), 65, 117, 103);
    } else if m == 8 {
        push_name(out, Ghost(n), 83, 101, 112);
    } else if m == 9 {
        push_name(out, Ghost(n), 79, 99, 116);
    } else if m == 10 {
        push_name(out, Ghost(n), 78, 111, 118);
    } else {
        push_name(out, Ghost(n), 68, 101, 99);
    }
}

/// The kernel string of the bytes `bytes`.
fn string_of_bytes(bytes: &std::vec::Vec<u8>) -> (res: String)
    requires
        bytes@.len() <= 4096,
    ensures
        res.wf(),
        res@ == bytes@,
{
    let mut res = String::new();
    let mut i: usize = 0;
    while i < bytes.len()
        invariant
            res.wf(),
            i <= bytes@.len(),
            bytes@.len() <= 4096,
            res.cap() <= 8 * i,
            res@ == bytes@.take(i as int),
        decreases bytes@.len() - i,
    {
        let b = bytes[i];
        res.push(b as char);
        assert(crate::string::char_byte(b as char) == b);
        assert(bytes@.take(i + 1) =~= bytes@.take(i as int).push(b));
        i += 1;
    }
    assert(bytes@.take(bytes@.len() as int) =~= bytes@);
    res
}

/// The days left and the year reached counting whole years off `days`.
fn walk_years(days: u32) -> (res: (u32, u32))
    requires
        days <= u32::MAX / 86400,
    ensures
        (res.0 as int, res.1 as int) == year_walk(days as int, 1970),
        res.0 < year_len(res.1 as int),
        1970 <= res.1 <= 1970 + days / 365,
{
    proof {
        lemma_year_walk_bound(days as int, 1970);
    }
    let mut timestamp = days;
    let mut year: u32 = 1970;
    loop
        invariant
            0 <= timestamp <= days,
            days <= u32::MAX / 86400,
            1970 <= year,
            (year - 1970) * 365 <= days - timestamp,
            year_walk(timestamp as int, year as int) == year_walk(days as int, 1970),
        ensures
            timestamp < year_len(year as int),
        decreases timestamp,
    {
        let len: u32 = if is_leap_year(year) {
            366
        } else {
            365
        };
        if timestamp < len {
            break;
        }
        timestamp = timestamp - len;
        year = year + 1;
    }
    (timestamp, year)
}

/// The day left and the month reached counting whole months off day `d`
/// of a year, leap when `leap`.
fn walk_months(d: u32, leap: bool) -> (res: (u32, usize))
    requires
        1 <= d <= 365 + if leap { 1int } else { 0int },
    ensures
        (res.0 as int, res.1 as int) == month_walk(d as int, 0, leap),
        res.1 < 12,
        1 <= res.0 <= 31,
{
    proof {
        lemma_days_before(12, leap);
        lemma_days_before(0, leap);
    }
    let mut timestamp = d;
    let mut month: usize = 0;
    while timestamp > month_days(month, leap)
        invariant
            month < 12,
            1 <= timestamp,
            timestamp + days_before(month as int, leap) <= 365 + if leap { 1int } else { 0int },
            month_walk(timestamp as int, month as int, leap) == month_walk(d as int, 0, leap),
        decreases 12 - month,
    {
        proof {
            lemma_days_before(month as int, leap);
            lemma_days_before(month + 1, leap);
        }
        timestamp = timestamp - month_days(month, leap);
        month = month + 1;
    }
    (timestamp, month)
}

/// The text of a date from its fields.
#[verifier::spinoff_prover]
#[verifier::rlimit(40)]
fn date_text(w: u32, m: usize, d: u32, hh: u32, mm: u32, ss: u32, y: u32) -> (res: std::vec::Vec<u8>)
    requires
        d < 100,
        hh < 100,
        mm < 100,
        ss < 100,
        1000 <= y < 10000,
    ensures
        res@ == wday_name(w as int) + seq![32u8] + month_name(m as int) + three_places(d as int) + seq![32u8]
            + two_digits(hh as int) + seq![58u8] + two_digits(mm as int) + seq![58u8] + two_digits(ss as int)
            + seq![32u8] + four_digits(y as int),
{
    let mut out: std::vec::Vec<u8> = std::vec::Vec::new();
    push_wday(&mut out, w);
    out.push(32);
    push_month(&mut out, m);
    let ghost a = out@;
    if d < 10 {
        out.push(32);
        out.push(32);
        push_digit(&mut out, d);
    } else {
        out.push(32);
        push_digit(&mut out, d / 10);
        push_digit(&mut out, d % 10);
    }
    assert(out@ =~= a + three_places(d as int));
    out.push(32);
    let ghost b = out@;
    push_digit(&mut out, hh / 10);
    push_digit(&mut out, hh % 10);
    out.push(58);
    push_digit(&mut out, mm / 10);
    push_digit(&mut out, mm % 10);
    out.push(58);
    push_digit(&mut out, ss / 10);
    push_digit(&mut out, ss % 10);
    out.push(32);
    assert(out@ =~= b + two_digits(hh as int) + seq![58u8] + two_digits(mm as int) + seq![58u8] + two_digits(
        ss as int,
    ) + seq![32u8]);
    let ghost c = out@;
    push_digit(&mut out, y / 1000);
    push_digit(&mut out, (y / 100) % 10);
    push_digit(&mut out, (y / 10) % 10);
    push_digit(&mut out, y % 10);
    assert(out@ =~= c + four_digits(y as int));
    out
}

/// The date of `timestamp` seconds since 1970-01-01 in the Gregorian
/// calendar, as `Thu Jan  1 00:00:00 1970` (the layout of C's `ctime`,
/// without its newline).
pub fn ctime(timestamp: u32) -> (res: String)
    ensures
        res.wf(),
        res@ == ctime_text(timestamp),
{
    let ss = timestamp % 60;
    let mm = (timestamp / 60) % 60;
    let hh = (timestamp / 3600) % 24;
    let days = timestamp / 86400;
    let wday = (4 + days) % 7;
    let (left, year) = walk_years(days);
    let leap = is_leap_year(year);
    let (day, month) = walk_months(left + 1, leap);
    let out = date_text(wday, month, day, hh, mm, ss, year);
    string_of_bytes(&out)
}

} // verus!
