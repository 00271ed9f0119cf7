//! Calendar dates: Unix times as `YYYY-MM-DD` in UTC.

use vstd::prelude::*;

use crate::text::{decimal, decimal_text};

verus! {

// ---------------------------------------------------------------------------
// The proleptic Gregorian calendar
// ---------------------------------------------------------------------------

/// Whether a year has 366 days.
pub open spec fn is_leap(y: int) -> bool {
    y % 4 == 0 && (y % 100 != 0 || y % 400 == 0)
}

/// How many days a month has.
pub open spec fn days_in_month(y: int, m: int) -> int {
    if m == 2 {
        if is_leap(y) {
            29
        } else {
            28
        }
    } else if m == 4 || m == 6 || m == 9 || m == 11 {
        30
    } else {
        31
    }
}

/// How many days of year `y` come before month `m`.
pub open spec fn days_before_month(y: int, m: int) -> int
    decreases m,
{
    if m <= 1 {
        0
    } else {
        days_before_month(y, m - 1) + days_in_month(y, m - 1)
    }
}

/// How many days come before year `y`, counted from the first day of year 1.
pub open spec fn days_before_year(y: int) -> int {
    365 * (y - 1) + (y - 1) / 4 - (y - 1) / 100 + (y - 1) / 400
}

/// Whether there is such a date.
pub open spec fn is_date(y: int, m: int, d: int) -> bool {
    1 <= m <= 12 && 1 <= d <= days_in_month(y, m)
}

/// The number of a date: days since 1970-01-01.
pub open spec fn day_number(y: int, m: int, d: int) -> int {
    days_before_year(y) + days_before_month(y, m) + (d - 1) - 719_162
}

/// A number in decimal, with zeros in front up to a width that counts the sign.
pub open spec fn padded(n: int, width: nat) -> Seq<char> {
    if n < 0 {
        seq!['-'] + zero_filled(decimal_text((-n) as nat), (width - 1) as nat)
    } else {
        zero_filled(decimal_text(n as nat), width)
    }
}

/// A text with zeros in front up to a width.
pub open spec fn zero_filled(s: Seq<char>, width: nat) -> Seq<char> {
    if s.len() >= width {
        s
    } else {
        Seq::new((width - s.len()) as nat, |i: int| '0') + s
    }
}

/// A date as `YYYY-MM-DD`.
pub open spec fn date_text(y: int, m: int, d: int) -> Seq<char> {
    padded(y, 4) + seq!['-'] + padded(m, 2) + seq!['-'] + padded(d, 2)
}

// ---------------------------------------------------------------------------
// From day numbers to dates
// ---------------------------------------------------------------------------

/// Days before March of year `y`, counted from March of year 0.
spec fn march_days(y: int) -> int {
    365 * y + y / 4 - y / 100 + y / 400
}

/// The year of the era, and the day of that year counted from March, within range.
proof fn lemma_year_of_era(doe: int, yoe: int)
    requires
        0 <= doe < 146_097,
        yoe == (doe - doe / 1460 + doe / 36524 - doe / 146096) / 365,
    ensures
        0 <= yoe < 400,
        365 * yoe + yoe / 4 - yoe / 100 <= doe,
        doe < 365 * (yoe + 1) + (yoe + 1) / 4 - (yoe + 1) / 100 + (yoe + 1) / 400,
{
}

proof fn lemma_march_step(y: int)
    ensures
        march_days(y + 1) == march_days(y) + 365 + (if is_leap(y + 1) {
            1int
        } else {
            0
        }),
        days_before_year(y + 1) == march_days(y),
{
}

proof fn lemma_months(y: int)
    ensures
        days_before_month(y, 1) == 0,
        days_before_month(y, 2) == 31,
        days_before_month(y, 3) == 59 + (if is_leap(y) { 1int } else { 0 }),
        days_before_month(y, 4) == days_before_month(y, 3) + 31,
        days_before_month(y, 5) == days_before_month(y, 3) + 61,
        days_before_month(y, 6) == days_before_month(y, 3) + 92,
        days_before_month(y, 7) == days_before_month(y, 3) + 122,
        days_before_month(y, 8) == days_before_month(y, 3) + 153,
        days_before_month(y, 9) == days_before_month(y, 3) + 184,
        days_before_month(y, 10) == days_before_month(y, 3) + 214,
        days_before_month(y, 11) == days_before_month(y, 3) + 245,
        days_before_month(y, 12) == days_before_month(y, 3) + 275,
{
    reveal_with_fuel(days_before_month, 13);
}

/// Where day `z`, counted from March of year 0, lies in its March-based year.
proof fn lemma_march_year(z: int, era: int, yoe: int, doy: int)
    requires
        era == z / 146_097,
        yoe == (z % 146_097 - (z % 146_097) / 1460 + (z % 146_097) / 36524 - (z % 146_097) / 146096)
            / 365,
        doy == z % 146_097 - (365 * yoe + yoe / 4 - yoe / 100),
    ensures
        0 <= yoe < 400,
        march_days(yoe + 400 * era) + doy == z,
        0 <= doy < 365 + (if is_leap(yoe + 400 * era + 1) {
            1int
        } else {
            0
        }),
{
    let doe = z % 146_097;
    lemma_year_of_era(doe, yoe);
    let y = yoe + 400 * era;
    assert(z == era * 146_097 + doe);
    lemma_shift(yoe, era);
    lemma_shift(yoe + 1, era);
    lemma_march_step(y);
    assert(yoe / 400 == 0);
}

proof fn lemma_shift(yoe: int, era: int)
    ensures
        march_days(yoe + 400 * era) == march_days(yoe) + 146_097 * era,
{
    assert((yoe + 400 * era) / 4 == yoe / 4 + 100 * era);
    assert((yoe + 400 * era) / 100 == yoe / 100 + 4 * era);
    assert((yoe + 400 * era) / 400 == yoe / 400 + era);
}

/// The month and day of day `doy` of the year counted from March of year `y`.
proof fn lemma_month_day(y: int, doy: int, mp: int, d: int, m: int, year: int)
    requires
        0 <= doy < 365 + (if is_leap(y + 1) {
            1int
        } else {
            0
        }),
        mp == (5 * doy + 2) / 153,
        d == doy - (153 * mp + 2) / 5 + 1,
        m == (if mp < 10 {
            mp + 3
        } else {
            mp - 9
        }),
        year == (if m <= 2 {
            y + 1
        } else {
            y
        }),
    ensures
        is_date(year, m, d),
        day_number(year, m, d) == march_days(y) + doy - 719_468,
{
    lemma_months(year);
    lemma_march_step(y);
    lemma_march_step(y - 1);
    assert(0 <= mp <= 11);
    if mp >= 10 {
        assert(days_before_year(year) == march_days(y));
        if mp == 10 {
            assert((153 * mp + 2) / 5 == 306);
        } else {
            assert(mp == 11);
            assert((153 * mp + 2) / 5 == 337);
        }
    } else {
        assert(days_before_year(year) == march_days(y - 1));
        assert(days_before_month(year, m) == 59 + (if is_leap(year) {
            1int
        } else {
            0
        }) + (153 * mp + 2) / 5) by {
            if mp == 0 {
            } else if mp == 1 {
            } else if mp == 2 {
            } else if mp == 3 {
            } else if mp == 4 {
            } else if mp == 5 {
            } else if mp == 6 {
            } else if mp == 7 {
            } else if mp == 8 {
            } else {
                assert(mp == 9);
            }
        }
    }
}

/// The date with a given day number.
pub fn civil_from_days(days: i64) -> (r: (i64, i64, i64))
    requires
        -200_000_000_000_000 <= days <= 200_000_000_000_000,
    ensures
        is_date(r.0 as int, r.1 as int, r.2 as int),
        day_number(r.0 as int, r.1 as int, r.2 as int) == days,
        -600_000_000_000 <= r.0 <= 600_000_000_000,
{
    let z: i64 = days + 719_468;
    let era: i64 = if z >= 0 { z / 146_097 } else { -((-(z + 1)) / 146_097) - 1 };
    let doe: i64 = z - era * 146_097;
    assert(era == (z as int) / 146_097 && doe == (z as int) % 146_097);
    let yoe: i64 = (doe - doe / 1460 + doe / 36524 - doe / 146096) / 365;
    proof {
        lemma_year_of_era(doe as int, yoe as int);
    }
    let y: i64 = yoe + era * 400;
    let doy: i64 = doe - (365 * yoe + yoe / 4 - yoe / 100);
    proof {
        lemma_march_year(z as int, era as int, yoe as int, doy as int);
    }
    let mp: i64 = (5 * doy + 2) / 153;
    let d: i64 = doy - (153 * mp + 2) / 5 + 1;
    let m: i64 = if mp < 10 { mp + 3 } else { mp - 9 };
    let year: i64 = if m <= 2 { y + 1 } else { y };
    proof {
        lemma_month_day(y as int, doy as int, mp as int, d as int, m as int, year as int);
    }
    (year, m, d)
}

/// `s` with zeros in front up to a width.
fn zero_fill(s: &str, width: usize) -> (r: String)
    ensures
        r@ == zero_filled(s@, width as nat),
{
    let n: usize = s.unicode_len();
    let mut out = String::new();
    let mut i: usize = n;
    while i < width
        invariant
            n == s@.len(),
            n <= i,
            n <= width ==> i <= width,
            n >= width ==> i == n,
            out@ == Seq::new((i - n) as nat, |k: int| '0'),
        decreases width - i,
    {
        out.push('0');
        assert(out@ =~= Seq::new((i + 1 - n) as nat, |k: int| '0'));
        i += 1;
    }
    out.append(s);
    if n >= width {
        assert(out@ =~= s@);
    }
    out
}

/// A number in decimal, with zeros in front up to a width that counts the sign.
fn pad(n: i64, width: usize) -> (r: String)
    requires
        n > i64::MIN,
        width >= 1,
    ensures
        r@ == padded(n as int, width as nat),
{
    if n < 0 {
        let mut out = String::new();
        out.push('-');
        out.append(&zero_fill(&decimal((-n) as u64), width - 1));
        assert(out@ =~= padded(n as int, width as nat));
        out
    } else {
        zero_fill(&decimal(n as u64), width)
    }
}

/// Formats a Unix timestamp (seconds) as a UTC `YYYY-MM-DD` date.
pub fn fmt_date(unix: i64) -> (r: String)
    ensures
        exists|y: int, m: int, d: int|
            is_date(y, m, d) && #[trigger] day_number(y, m, d) == (unix as int) / 86_400 && r@
                == date_text(y, m, d),
{
    // Rounded towards the earlier day, also before the epoch.
    let days: i64 = if unix >= 0 { unix / 86_400 } else { -((-(unix + 1)) / 86_400) - 1 };
    let (y, m, d) = civil_from_days(days);
    let mut out = pad(y, 4);
    out.push('-');
    out.append(&pad(m, 2));
    out.push('-');
    out.append(&pad(d, 2));
    assert(out@ =~= date_text(y as int, m as int, d as int));
    assert(day_number(y as int, m as int, d as int) == (unix as int) / 86_400);
    out
}

// ---------------------------------------------------------------------------
// Laws
// ---------------------------------------------------------------------------

/// The years follow on each other: each is 365 days long, or 366 if it is a leap
/// year.
pub proof fn law_years_are_contiguous(y: int)
    ensures
        days_before_year(y + 1) == days_before_year(y) + (if is_leap(y) {
            366int
        } else {
            365
        }),
        days_before_month(y, 13) == (if is_leap(y) {
            366int
        } else {
            365
        }),
{
    lemma_months(y);
    lemma_leap_days(y);
}

/// The leap days before a year and before the next one.
proof fn lemma_leap_days(y: int)
    ensures
        y / 4 == (y - 1) / 4 + (if y % 4 == 0 { 1int } else { 0 }),
        y / 100 == (y - 1) / 100 + (if y % 100 == 0 { 1int } else { 0 }),
        y / 400 == (y - 1) / 400 + (if y % 400 == 0 { 1int } else { 0 }),
        y % 100 == 0 ==> y % 4 == 0,
        y % 400 == 0 ==> y % 100 == 0,
{
}

/// A day number belongs to one date only.
pub proof fn law_dates_are_unique(y: int, m: int, d: int, y2: int, m2: int, d2: int)
    requires
        is_date(y, m, d),
        is_date(y2, m2, d2),
        day_number(y, m, d) == day_number(y2, m2, d2),
    ensures
        (y, m, d) == (y2, m2, d2),
{
    lemma_months(y);
    lemma_months(y2);
    if y < y2 {
        lemma_years_apart(y, y2);
    } else if y2 < y {
        lemma_years_apart(y2, y);
    }
}

proof fn lemma_years_apart(y: int, y2: int)
    requires
        y < y2,
    ensures
        days_before_year(y2) >= days_before_year(y) + days_before_month(y, 12) + 31,
    decreases y2 - y,
{
    lemma_months(y);
    if y2 > y + 1 {
        lemma_years_apart(y, y2 - 1);
    }
}

/// The epoch is the first of January 1970.
pub proof fn law_epoch_is_day_zero()
    ensures
        is_date(1970, 1, 1),
        day_number(1970, 1, 1) == 0,
{
    lemma_months(1970);
}

/// The day after a date is the next one in the calendar: the next day of the month, the first
/// of the next month after its last day, or the first of January after the last of December.
/// February has twenty-nine days in leap years: every fourth year, but for full centuries
/// that are no multiple of four hundred.
pub proof fn law_the_next_day_follows_in_the_calendar(
    days: i64,
    a: (i64, i64, i64),
    b: (i64, i64, i64),
)
    requires
        -200_000_000_000_000 <= days < 200_000_000_000_000,
        call_ensures(civil_from_days, (days,), a),
        call_ensures(civil_from_days, ((days + 1) as i64,), b),
    ensures
        1 <= a.1 <= 12 && 1 <= a.2 <= 31,
        ({
            let leap = a.0 % 4 == 0 && (a.0 % 100 != 0 || a.0 % 400 == 0);
            let last: int = if a.1 == 2 {
                if leap {
                    29
                } else {
                    28
                }
            } else if a.1 == 4 || a.1 == 6 || a.1 == 9 || a.1 == 11 {
                30
            } else {
                31
            };
            &&& a.2 <= last
            &&& a.2 < last ==> b.0 == a.0 && b.1 == a.1 && b.2 == a.2 + 1
            &&& a.2 == last && a.1 < 12 ==> b.0 == a.0 && b.1 == a.1 + 1 && b.2 == 1
            &&& a.2 == last && a.1 == 12 ==> b.0 == a.0 + 1 && b.1 == 1 && b.2 == 1
        }),
        days == 0 ==> a == (1970i64, 1i64, 1i64),
{
    let (y, m, d) = (a.0 as int, a.1 as int, a.2 as int);
    lemma_months(y);
    lemma_months(y + 1);
    law_years_are_contiguous(y);
    let (y2, m2, d2) = if d < days_in_month(y, m) {
        (y, m, d + 1)
    } else if m < 12 {
        (y, m + 1, 1int)
    } else {
        (y + 1, 1int, 1int)
    };
    assert(is_date(y2, m2, d2));
    assert(day_number(y2, m2, d2) == days + 1) by {
        if d == days_in_month(y, m) && m < 12 {
            assert(days_before_month(y, m + 1) == days_before_month(y, m) + days_in_month(y, m));
        }
        if d == days_in_month(y, m) && m == 12 {
            assert(days_before_month(y, 13) == days_before_month(y, 12) + days_in_month(y, 12));
        }
    }
    law_dates_are_unique(y2, m2, d2, b.0 as int, b.1 as int, b.2 as int);
    if days == 0 {
        law_epoch_is_day_zero();
        law_dates_are_unique(1970, 1, 1, y, m, d);
    }
}

/// A date is written with four digits for the year, two for the month and two for the day,
/// with dashes between them; all seconds of a day have the same date.
pub proof fn law_a_date_is_written_year_month_day(
    unix: i64,
    r: String,
    days: i64,
    c: (i64, i64, i64),
)
    requires
        call_ensures(fmt_date, (unix,), r),
        days == (unix as int) / 86_400,
        call_ensures(civil_from_days, (days,), c),
        1000 <= c.0 <= 9999,
    ensures
        r@.len() == 10,
        r@[0] as int == 48 + c.0 / 1000 && r@[1] as int == 48 + c.0 / 100 % 10,
        r@[2] as int == 48 + c.0 / 10 % 10 && r@[3] as int == 48 + c.0 % 10,
        r@[4] == '-' && r@[7] == '-',
        r@[5] as int == 48 + c.1 / 10 && r@[6] as int == 48 + c.1 % 10,
        r@[8] as int == 48 + c.2 / 10 && r@[9] as int == 48 + c.2 % 10,
{
    let (y, m, d) = choose|y: int, m: int, d: int|
        is_date(y, m, d) && #[trigger] day_number(y, m, d) == (unix as int) / 86_400 && r@
            == date_text(y, m, d);
    law_dates_are_unique(y, m, d, c.0 as int, c.1 as int, c.2 as int);
    reveal_with_fuel(decimal_text, 5);
    lemma_two_digits(m);
    lemma_two_digits(d);
    let yt = padded(y, 4);
    assert(decimal_text(y as nat).len() == 4);
    assert(yt == decimal_text(y as nat));
    assert(yt[0] as int == 48 + y / 1000 && yt[1] as int == 48 + y / 100 % 10 && yt[2] as int == 48
        + y / 10 % 10 && yt[3] as int == 48 + y % 10);
}

proof fn lemma_two_digits(n: int)
    requires
        1 <= n <= 31,
    ensures
        padded(n, 2).len() == 2,
        padded(n, 2)[0] as int == 48 + n / 10,
        padded(n, 2)[1] as int == 48 + n % 10,
{
    reveal_with_fuel(decimal_text, 3);
}

} // verus!
