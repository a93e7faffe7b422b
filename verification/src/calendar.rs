//! The Gregorian calendar: which date a day since 1970-01-01 is.

use vstd::prelude::*;

verus! {

/// Whether a year has a 29th of February.
pub open spec fn is_leap(year: int) -> bool {
    year % 4 == 0 && (year % 100 != 0 || year % 400 == 0)
}

/// The days of a month, counted from 1 for January.
pub open spec fn days_in_month(year: int, month: int) -> int {
    if month == 2 {
        if is_leap(year) {
            29
        } else {
            28
        }
    } else if month == 4 || month == 6 || month == 9 || month == 11 {
        30
    } else {
        31
    }
}

/// The days of a year.
pub open spec fn days_in_year(year: int) -> int {
    if is_leap(year) {
        366
    } else {
        365
    }
}

/// The days from 1970-01-01 to the first day of a year.
pub open spec fn days_before_year(year: int) -> int
    decreases year - 1970,
{
    if year <= 1970 {
        0
    } else {
        days_before_year(year - 1) + days_in_year(year - 1)
    }
}

/// The days of a year before the first day of a month.
pub open spec fn days_before_month(year: int, month: int) -> int
    decreases month,
{
    if month <= 1 {
        0
    } else {
        days_before_month(year, month - 1) + days_in_month(year, month - 1)
    }
}

/// A date from 1970 on.
pub struct Date {
    pub year: int,
    pub month: int,
    pub day: int,
}

impl Date {
    /// Whether the calendar has this date.
    pub open spec fn valid(self) -> bool {
        &&& 1970 <= self.year
        &&& 1 <= self.month <= 12
        &&& 1 <= self.day <= days_in_month(self.year, self.month)
    }

    /// The days from 1970-01-01 to this date.
    pub open spec fn number(self) -> int {
        days_before_year(self.year) + days_before_month(self.year, self.month) + self.day - 1
    }
}

/// The date that lies `days` days behind 1970-01-01.
pub open spec fn date_of(days: nat) -> Date {
    choose|d: Date| d.valid() && d.number() == days
}

proof fn lemma_month_order(year: int, m: int, n: int)
    requires
        1 <= m < n <= 13,
    ensures
        days_before_month(year, m) + days_in_month(year, m) <= days_before_month(year, n),
    decreases n,
{
    if m < n - 1 {
        lemma_month_order(year, m, n - 1);
    }
}

proof fn lemma_year_order(y: int, z: int)
    requires
        1970 <= y < z,
    ensures
        days_before_year(y) + days_in_year(y) <= days_before_year(z),
    decreases z,
{
    if y < z - 1 {
        lemma_year_order(y, z - 1);
    }
}

proof fn lemma_year_length(year: int)
    ensures
        days_before_month(year, 13) == days_in_year(year),
        days_before_month(year, 1) == 0,
        days_before_month(year, 2) == 31,
        days_before_month(year, 3) == days_in_year(year) - 306,
        days_before_month(year, 4) == days_in_year(year) - 275,
        days_before_month(year, 5) == days_in_year(year) - 245,
        days_before_month(year, 6) == days_in_year(year) - 214,
        days_before_month(year, 7) == days_in_year(year) - 184,
        days_before_month(year, 8) == days_in_year(year) - 153,
        days_before_month(year, 9) == days_in_year(year) - 122,
        days_before_month(year, 10) == days_in_year(year) - 92,
        days_before_month(year, 11) == days_in_year(year) - 61,
        days_before_month(year, 12) == days_in_year(year) - 31,
{
    reveal_with_fuel(days_before_month, 14);
}

/// An earlier date has a smaller number: days are numbered in calendar order.
pub proof fn date_order(a: Date, b: Date)
    requires
        a.valid(),
        b.valid(),
        a.year < b.year || (a.year == b.year && (a.month < b.month || (a.month == b.month && a.day
            < b.day))),
    ensures
        a.number() < b.number(),
{
    if a.year < b.year {
        lemma_year_order(a.year, b.year);
        lemma_year_length(a.year);
        lemma_year_length(b.year);
        lemma_month_order(a.year, a.month, 13);
        if b.month > 1 {
            lemma_month_order(b.year, 1, b.month);
        }
    } else if a.month < b.month {
        lemma_month_order(a.year, a.month, b.month);
    }
}

/// A day has one date only.
pub proof fn date_unique(a: Date, b: Date)
    requires
        a.valid(),
        b.valid(),
        a.number() == b.number(),
    ensures
        a == b,
{
    if a.year < b.year || (a.year == b.year && (a.month < b.month || (a.month == b.month && a.day
        < b.day))) {
        date_order(a, b);
    }
    if b.year < a.year || (a.year == b.year && (b.month < a.month || (a.month == b.month && b.day
        < a.day))) {
        date_order(b, a);
    }
}

/// The days from the first of March of the year 0 to the first of March of a
/// year.
spec fn march(year: int) -> int {
    365 * year + year / 4 - year / 100 + year / 400
}

proof fn lemma_march_step(year: int)
    ensures
        march(year) == march(year - 1) + days_in_year(year),
{
}

proof fn lemma_march(year: int)
    requires
        1970 <= year,
    ensures
        days_before_year(year) == march(year - 1) + 306 - 719_468,
    decreases year,
{
    if year > 1970 {
        lemma_march(year - 1);
        lemma_march_step(year - 1);
    }
}

/// The year of an era of four hundred years that a day of the era falls in,
/// with years that begin in March.
#[verifier::spinoff_prover]
#[verifier::rlimit(40)]
proof fn lemma_year_of_era(doe: int, yoe: int)
    requires
        0 <= doe <= 146_096,
        yoe == (doe - doe / 1460 + doe / 36524 - doe / 146_096) / 365,
    ensures
        0 <= yoe <= 399,
        365 * yoe + yoe / 4 - yoe / 100 <= doe,
        doe < 365 * (yoe + 1) + (yoe + 1) / 4 - (yoe + 1) / 100 + (yoe + 1) / 400,
{
}

/// Eras do not matter for the leap days within one.
proof fn lemma_whole_eras(era: int, yoe: int)
    requires
        0 <= era,
        0 <= yoe <= 399,
    ensures
        march(yoe + era * 400) == era * 146_097 + 365 * yoe + yoe / 4 - yoe / 100,
{
    let year = yoe + era * 400;
    assert(year / 4 == yoe / 4 + era * 100);
    assert(year / 100 == yoe / 100 + era * 4);
    assert(year / 400 == era);
}

proof fn lemma_same_leap(era: int, y: int)
    ensures
        is_leap(y + era * 400) == is_leap(y),
{
    let year = y + era * 400;
    assert(year % 4 == y % 4);
    assert(year % 100 == y % 100);
    assert(year % 400 == y % 400);
}

/// The leap days before a year and before the next one.
proof fn lemma_leap_days(yoe: int)
    requires
        0 <= yoe <= 399,
    ensures
        365 * (yoe + 1) + (yoe + 1) / 4 - (yoe + 1) / 100 + (yoe + 1) / 400 == 365 * yoe + yoe / 4
            - yoe / 100 + days_in_year(yoe + 1),
{
    lemma_march_step(yoe + 1);
}

/// A year that begins in March ends with the leap day it may have.
#[verifier::spinoff_prover]
#[verifier::rlimit(40)]
proof fn lemma_day_of_year(era: int, doe: int, yoe: int, doy: int)
    requires
        0 <= era,
        0 <= doe <= 146_096,
        yoe == (doe - doe / 1460 + doe / 36524 - doe / 146_096) / 365,
        doy == doe - (365 * yoe + yoe / 4 - yoe / 100),
    ensures
        march(yoe + era * 400) + doy == era * 146_097 + doe,
        0 <= doy < days_in_year(yoe + era * 400 + 1),
{
    lemma_year_of_era(doe, yoe);
    lemma_whole_eras(era, yoe);
    lemma_same_leap(era, yoe + 1);
    lemma_leap_days(yoe);
    assert(yoe + era * 400 + 1 == yoe + 1 + era * 400);
}

/// Months counted from March: which one a day falls in, and its day there.
#[verifier::spinoff_prover]
#[verifier::rlimit(40)]
proof fn lemma_month_of_year(doy: int, mp: int)
    requires
        0 <= doy <= 365,
        mp == (5 * doy + 2) / 153,
    ensures
        0 <= mp <= 11,
        mp == 0 ==> 0 <= doy <= 30,
        mp == 1 ==> 31 <= doy <= 60,
        mp == 2 ==> 61 <= doy <= 91,
        mp == 3 ==> 92 <= doy <= 121,
        mp == 4 ==> 122 <= doy <= 152,
        mp == 5 ==> 153 <= doy <= 183,
        mp == 6 ==> 184 <= doy <= 213,
        mp == 7 ==> 214 <= doy <= 244,
        mp == 8 ==> 245 <= doy <= 274,
        mp == 9 ==> 275 <= doy <= 305,
        mp == 10 ==> 306 <= doy <= 336,
        mp == 11 ==> 337 <= doy <= 365,
{
}

#[verifier::spinoff_prover]
#[verifier::rlimit(40)]
proof fn lemma_date(year: int, doy: int, mp: int, d: Date)
    requires
        0 <= doy < days_in_year(year + 1),
        mp == (5 * doy + 2) / 153,
        d.day == doy - (153 * mp + 2) / 5 + 1,
        d.month == (if mp < 10 {
            mp + 3
        } else {
            mp - 9
        }),
        d.year == (if d.month <= 2 {
            year + 1
        } else {
            year
        }),
        march(year) + doy >= 719_468,
    ensures
        d.valid(),
        d.number() == march(year) + doy - 719_468,
{
    lemma_month_of_year(doy, mp);
    assert(d.year < 1970 ==> march(year) <= march(1969));
    lemma_march(d.year);
    lemma_march_step(d.year);
    lemma_year_length(d.year);
}

/// Every day from 1970-01-01 on has a date in the calendar.
pub proof fn every_day_has_a_date(days: nat)
    ensures
        date_of(days).valid(),
        date_of(days).number() == days,
{
    let z = days + 719_468;
    let era = z as int / 146_097;
    let doe = z as int % 146_097;
    let yoe = (doe - doe / 1460 + doe / 36524 - doe / 146_096) / 365;
    let doy = doe - (365 * yoe + yoe / 4 - yoe / 100);
    lemma_day_of_year(era, doe, yoe, doy);
    let year = yoe + era * 400;
    let mp = (5 * doy + 2) / 153;
    let month = if mp < 10 {
        mp + 3
    } else {
        mp - 9
    };
    let d = Date {
        year: if month <= 2 {
            year + 1
        } else {
            year
        },
        month,
        day: doy - (153 * mp + 2) / 5 + 1,
    };
    lemma_date(year, doy, mp, d);
}

/// A day before the first day of a year falls in an earlier year.
pub proof fn date_before_year(d: Date, year: int)
    requires
        d.valid(),
        1970 <= year,
        d.number() < days_before_year(year),
    ensures
        d.year < year,
{
    let first = Date { year, month: 1, day: 1 };
    if year < d.year {
        date_order(first, d);
    } else if year == d.year && d.month > 1 {
        lemma_month_order(year, 1, d.month);
    }
}

/// The days from 1970-01-01 to the first day of a year, in closed form.
pub proof fn days_before_year_closed(year: int)
    requires
        1970 <= year,
    ensures
        days_before_year(year) == 365 * (year - 1970) + (year - 1) / 4 - (year - 1) / 100 + (year
            - 1) / 400 - 477,
{
    lemma_march(year);
}

/// Which date lies `days` days behind 1970-01-01, as year, month and day.
pub fn civil_from_days(days: u64) -> (r: (u64, u64, u64))
    requires
        days <= u64::MAX / 86_400,
    ensures
        (Date { year: r.0 as int, month: r.1 as int, day: r.2 as int }) == date_of(days as nat),
{
    let z: u64 = days + 719_468;
    let era: u64 = z / 146_097;
    let doe: u64 = z % 146_097;
    let yoe: u64 = (doe - doe / 1460 + doe / 36524 - doe / 146_096) / 365;
    proof {
        lemma_year_of_era(doe as int, yoe as int);
        lemma_day_of_year(
            era as int,
            doe as int,
            yoe as int,
            doe - (365 * yoe + yoe / 4 - yoe / 100),
        );
    }
    let march_year: u64 = yoe + era * 400;
    let doy: u64 = doe - (365 * yoe + yoe / 4 - yoe / 100);
    let mp: u64 = (5 * doy + 2) / 153;
    proof {
        lemma_month_of_year(doy as int, mp as int);
    }
    let day: u64 = doy - (153 * mp + 2) / 5 + 1;
    let month: u64 = if mp < 10 {
        mp + 3
    } else {
        mp - 9
    };
    let year: u64 = if month <= 2 {
        march_year + 1
    } else {
        march_year
    };
    proof {
        let d = Date { year: year as int, month: month as int, day: day as int };
        lemma_date(march_year as int, doy as int, mp as int, d);
        every_day_has_a_date(days as nat);
        date_unique(d, date_of(days as nat));
    }
    (year, month, day)
}

/// The days are numbered one after the other from 1970-01-01 on, without a gap:
/// behind the last day of a month comes the first of the next, and behind that of
/// December the first of January. February has 29 days in a leap year, else 28.
pub proof fn days_follow_each_other(d: Date)
    requires
        d.valid(),
    ensures
        (Date { year: 1970, month: 1, day: 1 }).number() == 0,
        d.day < days_in_month(d.year, d.month) ==> (Date { day: d.day + 1, ..d }).number()
            == d.number() + 1,
        d.day == days_in_month(d.year, d.month) && d.month < 12 ==> (Date {
            month: d.month + 1,
            day: 1,
            ..d
        }).number() == d.number() + 1,
        d.day == days_in_month(d.year, d.month) && d.month == 12 ==> (Date {
            year: d.year + 1,
            month: 1,
            day: 1,
        }).number() == d.number() + 1,
        days_in_month(d.year, 2) == 28 + (if d.year % 400 == 0 || (d.year % 4 == 0 && d.year % 100
            != 0) {
            1int
        } else {
            0int
        }),
        days_before_month(d.year, 13) == 337 + days_in_month(d.year, 2),
{
    lemma_year_length(d.year);
    lemma_year_length(d.year + 1);
}

} // verus!
