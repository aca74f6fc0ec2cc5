//! Unix timestamps as RFC 3339 dates in the proleptic Gregorian calendar.

use vstd::prelude::*;
use crate::text::{int_padded, i64_padded, push_chars, push_all};

verus! {

/// Whether `y` is a leap year of the Gregorian calendar.
pub open spec fn is_leap_year(y: int) -> bool {
    y % 4 == 0 && (y % 100 != 0 || y % 400 == 0)
}

/// The number of days of month `m` (1 to 12) of year `y`.
pub open spec fn days_in_month(y: int, m: int) -> int {
    if m == 2 {
        if is_leap_year(y) {
            29
        } else {
            28
        }
    } else if m == 4 || m == 6 || m == 9 || m == 11 {
        30
    } else {
        31
    }
}

/// Whether `y-m-d` names a day of the calendar.
pub open spec fn is_valid_date(y: int, m: int, d: int) -> bool {
    1 <= m <= 12 && 1 <= d <= days_in_month(y, m)
}

/// The number of leap years before year `y`, counted from year 1.
pub open spec fn leap_years_before(y: int) -> int {
    (y - 1) / 4 - (y - 1) / 100 + (y - 1) / 400
}

/// The number of days from 1970-01-01 to the first of January of year `y`.
pub open spec fn days_before_year(y: int) -> int {
    365 * (y - 1970) + leap_years_before(y) - leap_years_before(1970)
}

/// The number of days of year `y` before the first of month `m`.
pub open spec fn days_before_month(y: int, m: int) -> int {
    let common: int = if m == 1 {
        0
    } else if m == 2 {
        31
    } else if m == 3 {
        59
    } else if m == 4 {
        90
    } else if m == 5 {
        120
    } else if m == 6 {
        151
    } else if m == 7 {
        181
    } else if m == 8 {
        212
    } else if m == 9 {
        243
    } else if m == 10 {
        273
    } else if m == 11 {
        304
    } else {
        334
    };
    common + if m > 2 && is_leap_year(y) {
        1int
    } else {
        0int
    }
}

/// The number of days from 1970-01-01 to `y-m-d`.
pub open spec fn days_from_civil(y: int, m: int, d: int) -> int {
    days_before_year(y) + days_before_month(y, m) + d - 1
}

proof fn lemma_div_step_4(y: int)
    ensures
        y / 4 - (y - 1) / 4 == if y % 4 == 0 {
            1int
        } else {
            0int
        },
{
}

proof fn lemma_div_step_100(y: int)
    ensures
        y / 100 - (y - 1) / 100 == if y % 100 == 0 {
            1int
        } else {
            0int
        },
{
}

proof fn lemma_div_step_400(y: int)
    ensures
        y / 400 - (y - 1) / 400 == if y % 400 == 0 {
            1int
        } else {
            0int
        },
{
}

/// Law: a year is 365 days long, 366 when it is a leap year.
pub proof fn year_lengths(y: int)
    ensures
        days_before_year(y + 1) - days_before_year(y) == if is_leap_year(y) {
            366int
        } else {
            365int
        },
        days_before_year(1970) == 0,
{
    lemma_div_step_4(y);
    lemma_div_step_100(y);
    lemma_div_step_400(y);
    assert(leap_years_before(y + 1) - leap_years_before(y) == if is_leap_year(y) {
        1int
    } else {
        0int
    });
}

/// The March-based day offsets of the months of a year that starts on the first of March.
spec fn march_month_start(mp: int) -> int {
    (153 * mp + 2) / 5
}

/// The days from the start of a 400-year era (a first of March) to the start
/// of its year `yoe`.
spec fn era_year_start(yoe: int) -> int {
    365 * yoe + yoe / 4 - yoe / 100
}

proof fn lemma_year_of_era(doe: int)
    requires
        0 <= doe <= 146096,
    ensures
        ({
            let yoe = (doe - doe / 1460 + doe / 36524 - doe / 146096) / 365;
            &&& 0 <= yoe <= 399
            &&& era_year_start(yoe) <= doe
            &&& yoe < 399 ==> doe < era_year_start(yoe + 1)
        }),
{
}

proof fn lemma_month_of_year(doy: int)
    requires
        0 <= doy <= 365,
    ensures
        ({
            let mp = (5 * doy + 2) / 153;
            &&& 0 <= mp <= 11
            &&& march_month_start(mp) <= doy
            &&& mp < 11 ==> doy < march_month_start(mp + 1)
        }),
{
}

/// The days from 1970-01-01 to the first of March of year `y`.
proof fn lemma_march_first(era: int, yoe: int)
    requires
        0 <= yoe <= 399,
    ensures
        days_before_year(400 * era + yoe) + 59 + (if is_leap_year(400 * era + yoe) {
            1int
        } else {
            0int
        }) == 146097 * era + era_year_start(yoe) - 719468,
        days_before_year(400 * era + yoe + 1) == days_before_year(400 * era + yoe) + 365 + (
        if is_leap_year(400 * era + yoe) {
            1int
        } else {
            0int
        }),
{
    let y = 400 * era + yoe;
    assert((y - 1) / 4 == 100 * era + (yoe - 1) / 4);
    assert((y - 1) / 100 == 4 * era + (yoe - 1) / 100);
    assert((y - 1) / 400 == era + (yoe - 1) / 400);
    assert(y / 4 == 100 * era + yoe / 4);
    assert(y / 100 == 4 * era + yoe / 100);
    assert(y / 400 == era + yoe / 400);
    assert(y % 4 == yoe % 4);
    assert(y % 100 == yoe % 100);
    assert(y % 400 == yoe % 400);
}

/// The date that the era decomposition gives for the day number `days`.
spec fn civil_parts(days: int) -> (int, int, int) {
    let z = days + 719468;
    let era = z / 146097;
    let doe = z - era * 146097;
    let yoe = (doe - doe / 1460 + doe / 36524 - doe / 146096) / 365;
    let doy = doe - era_year_start(yoe);
    let mp = (5 * doy + 2) / 153;
    let d = doy - march_month_start(mp) + 1;
    let m = if mp < 10 {
        mp + 3
    } else {
        mp - 9
    };
    let y = yoe + era * 400 + if m <= 2 {
        1int
    } else {
        0int
    };
    (y, m, d)
}

proof fn lemma_civil_parts(days: int)
    ensures
        is_valid_date(civil_parts(days).0, civil_parts(days).1, civil_parts(days).2),
        days_from_civil(civil_parts(days).0, civil_parts(days).1, civil_parts(days).2) == days,
{
    let z = days + 719468;
    let era = z / 146097;
    let doe = z - era * 146097;
    assert(0 <= doe <= 146096);
    let yoe = (doe - doe / 1460 + doe / 36524 - doe / 146096) / 365;
    lemma_year_of_era(doe);
    let doy = doe - era_year_start(yoe);
    let ym = 400 * era + yoe;
    let leap_next = if is_leap_year(ym + 1) {
        1int
    } else {
        0int
    };
    lemma_march_first(era, yoe);
    year_lengths(ym);
    // The March-based year `ym` is 365 days long, plus the leap day of `ym + 1`.
    if yoe < 399 {
        lemma_march_first(era, yoe + 1);
        assert(400 * era + (yoe + 1) == ym + 1);
        assert(era_year_start(yoe + 1) - era_year_start(yoe) == 365 + leap_next);
        assert(doy < 365 + leap_next);
    } else {
        lemma_march_first(era + 1, 0);
        assert(400 * (era + 1) + 0 == ym + 1);
        assert(doy <= 365);
        assert(leap_next == 1);
    }
    assert(0 <= doy < 365 + leap_next);
    lemma_month_of_year(doy);
    let mp = (5 * doy + 2) / 153;
    let d = doy - march_month_start(mp) + 1;
    let m = if mp < 10 {
        mp + 3
    } else {
        mp - 9
    };
    assert(civil_parts(days) == (ym + if m <= 2 {
        1int
    } else {
        0int
    }, m, d));
    if mp < 10 {
        assert(days_before_month(ym, m) == 59 + march_month_start(mp) + if is_leap_year(ym) {
            1int
        } else {
            0int
        });
    } else {
        year_lengths(ym);
        assert(days_before_month(ym + 1, m) == march_month_start(mp) - 306);
    }
}


proof fn lemma_day_within_year(y: int, m: int, d: int)
    requires
        is_valid_date(y, m, d),
    ensures
        days_before_year(y) <= days_from_civil(y, m, d) < days_before_year(y + 1),
{
    year_lengths(y);
}

proof fn lemma_years_increase(a: int, b: int)
    requires
        a < b,
    ensures
        days_before_year(a + 1) <= days_before_year(b),
    decreases b - a,
{
    if a + 1 < b {
        lemma_years_increase(a + 1, b);
        year_lengths(a + 1);
    }
}

/// Law: a day number names at most one date.
pub proof fn civil_dates_are_unique(y1: int, m1: int, d1: int, y2: int, m2: int, d2: int)
    requires
        is_valid_date(y1, m1, d1),
        is_valid_date(y2, m2, d2),
        days_from_civil(y1, m1, d1) == days_from_civil(y2, m2, d2),
    ensures
        y1 == y2 && m1 == m2 && d1 == d2,
{
    lemma_day_within_year(y1, m1, d1);
    lemma_day_within_year(y2, m2, d2);
    if y1 < y2 {
        lemma_years_increase(y1, y2);
    } else if y2 < y1 {
        lemma_years_increase(y2, y1);
    }
    assert(y1 == y2);
}

/// The calendar date of the day `days` days after 1970-01-01.
pub open spec fn civil_date_of(days: int) -> (int, int, int) {
    choose|t: (int, int, int)| is_valid_date(t.0, t.1, t.2) && days_from_civil(t.0, t.1, t.2) == days
}

/// Law: every day number names a date.
pub proof fn civil_date_of_is_the_date(days: int)
    ensures
        is_valid_date(civil_date_of(days).0, civil_date_of(days).1, civil_date_of(days).2),
        days_from_civil(civil_date_of(days).0, civil_date_of(days).1, civil_date_of(days).2) == days,
{
    lemma_civil_date_of_parts(days);
}

proof fn lemma_civil_date_of_parts(days: int)
    ensures
        is_valid_date(civil_date_of(days).0, civil_date_of(days).1, civil_date_of(days).2),
        days_from_civil(civil_date_of(days).0, civil_date_of(days).1, civil_date_of(days).2) == days,
        civil_date_of(days) == civil_parts(days),
{
    lemma_civil_parts(days);
    let t = civil_parts(days);
    assert(is_valid_date(t.0, t.1, t.2) && days_from_civil(t.0, t.1, t.2) == days);
    let c = civil_date_of(days);
    civil_dates_are_unique(c.0, c.1, c.2, t.0, t.1, t.2);
}

/// The calendar date `days` days after 1970-01-01, by the era decomposition
/// of days since 0000-03-01.
pub fn civil_from_days(days: i64) -> (r: (i64, i64, i64))
    requires
        days <= i64::MAX - 719468,
    ensures
        is_valid_date(r.0 as int, r.1 as int, r.2 as int),
        days_from_civil(r.0 as int, r.1 as int, r.2 as int) == days,
        (r.0 as int, r.1 as int, r.2 as int) == civil_date_of(days as int),
{
    let z: i64 = days + 719468;
    let era: i64 = if z >= 0 {
        z / 146097
    } else {
        -((-(z + 1)) / 146097) - 1
    };
    proof {
        assert(era == z / 146097);
    }
    let doe: i64 = z - era * 146097;
    let yoe: i64 = (doe - doe / 1460 + doe / 36524 - doe / 146096) / 365;
    proof {
        lemma_year_of_era(doe as int);
    }
    let doy: i64 = doe - (365 * yoe + yoe / 4 - yoe / 100);
    proof {
        lemma_civil_parts(days as int);
        assert(0 <= doy <= 365) by {
            lemma_year_of_era(doe as int);
        };
    }
    let mp: i64 = (5 * doy + 2) / 153;
    let day: i64 = doy - (153 * mp + 2) / 5 + 1;
    let month: i64 = if mp < 10 {
        mp + 3
    } else {
        mp - 9
    };
    let year: i64 = yoe + era * 400 + if month <= 2 {
        1
    } else {
        0
    };
    proof {
        assert((year as int, month as int, day as int) == civil_parts(days as int));
        lemma_civil_date_of_parts(days as int);
    }
    (year, month, day)
}

/// `seconds` after the Unix epoch as `YYYY-MM-DDTHH:MM:SSZ` (the year padded
/// to four places, with a sign before years before year zero).
pub open spec fn timestamp_text(seconds: int) -> Seq<char> {
    let days = seconds / 86400;
    let sod = seconds % 86400;
    let date = civil_date_of(days);
    int_padded(date.0, 4) + "-"@ + int_padded(date.1, 2) + "-"@ + int_padded(date.2, 2) + "T"@
        + int_padded(sod / 3600, 2) + ":"@ + int_padded((sod % 3600) / 60, 2) + ":"@ + int_padded(
        sod % 60,
        2,
    ) + "Z"@
}

/// Formats a Unix timestamp in seconds as an RFC 3339 UTC date and time.
pub fn format_unix_timestamp(seconds: i64) -> (out: String)
    ensures
        out@ == timestamp_text(seconds as int),
{
    let days: i64 = if seconds >= 0 {
        seconds / 86400
    } else {
        -((-(seconds + 1)) / 86400) - 1
    };
    let sod: i64 = if seconds >= 0 {
        seconds % 86400
    } else {
        86399 - (-(seconds + 1)) % 86400
    };
    proof {
        assert(days == seconds / 86400);
        assert(sod == seconds % 86400);
    }
    let (year, month, day) = civil_from_days(days);
    let hour: i64 = sod / 3600;
    let minute: i64 = (sod % 3600) / 60;
    let second: i64 = sod % 60;
    let mut out = String::new();
    push_chars(&mut out, &i64_padded(year, 4));
    push_all(&mut out, "-");
    push_chars(&mut out, &i64_padded(month, 2));
    push_all(&mut out, "-");
    push_chars(&mut out, &i64_padded(day, 2));
    push_all(&mut out, "T");
    push_chars(&mut out, &i64_padded(hour, 2));
    push_all(&mut out, ":");
    push_chars(&mut out, &i64_padded(minute, 2));
    push_all(&mut out, ":");
    push_chars(&mut out, &i64_padded(second, 2));
    push_all(&mut out, "Z");
    out
}

} // verus!
