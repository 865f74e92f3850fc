//! The Gregorian calendar, and the time stamps of log lines.
use crate::text::{decimal, to_decimal};
use vstd::prelude::*;

verus! {

/// Whether a year is a leap year.
pub open spec fn leap(y: int) -> bool {
    y % 4 == 0 && (y % 100 != 0 || y % 400 == 0)
}

/// Days from the start of 1970 to the start of a year.
pub open spec fn days_before_year(y: int) -> int {
    365 * (y - 1970) + (y - 1) / 4 - (y - 1) / 100 + (y - 1) / 400 - 477
}

/// Days from the start of a year to the start of a month.
pub open spec fn days_before_month(y: int, m: int) -> int {
    let common = if m == 1 {
        0int
    } else if m == 2 {
        31
    } else if m == 3 {
        59
    } else if m == 4 {
        90
    } else if m == 5 {
        120
    } else if m == 6 {
        151
    } else if m == 7 {
        181
    } else if m == 8 {
        212
    } else if m == 9 {
        243
    } else if m == 10 {
        273
    } else if m == 11 {
        304
    } else {
        334
    };
    if leap(y) && m > 2 {
        common + 1
    } else {
        common
    }
}

/// The days of a month.
pub open spec fn days_in_month(y: int, m: int) -> int {
    if m == 2 {
        if leap(y) {
            29
        } else {
            28
        }
    } else if m == 4 || m == 6 || m == 9 || m == 11 {
        30
    } else {
        31
    }
}

/// Whether there is such a date.
pub open spec fn valid_date(y: int, m: int, d: int) -> bool {
    1 <= m <= 12 && 1 <= d <= days_in_month(y, m)
}

/// Days from 1970-01-01 to a date.
pub open spec fn day_number(y: int, m: int, d: int) -> int {
    days_before_year(y) + days_before_month(y, m) + d - 1
}

/// The date with a day number; its year as far as an `i32` can tell.
pub fn civil_from_days(days_since_epoch: i64) -> (r: (i32, u32, u32))
    requires
        days_since_epoch <= i64::MAX - 719_468,
    ensures
        exists|y: i64|
            day_number(y as int, r.1 as int, r.2 as int) == days_since_epoch && valid_date(
                y as int,
                r.1 as int,
                r.2 as int,
            ) && r.0 == #[trigger] (y as i32),
{
    let z: i64 = days_since_epoch + 719_468;
    let era: i64 = if z >= 0 {
        z / 146_097
    } else {
        (z - 146_096) / 146_097
    };
    proof {
        era_of(z as int, era as int);
    }
    let doe: i64 = z - era * 146_097;
    let yoe: i64 = (doe - doe / 1_460 + doe / 36_524 - doe / 146_096) / 365;
    proof {
        year_of_era(doe as int, yoe as int);
    }
    let y: i64 = yoe + era * 400;
    let doy: i64 = doe - (365 * yoe + yoe / 4 - yoe / 100);
    let mp: i64 = (5 * doy + 2) / 153;
    let day: i64 = doy - (153 * mp + 2) / 5 + 1;
    let month: i64 = if mp < 10 {
        mp + 3
    } else {
        mp - 9
    };
    let year: i64 = if month <= 2 {
        y + 1
    } else {
        y
    };
    proof {
        date_of(
            era as int,
            yoe as int,
            doy as int,
            mp as int,
            month as int,
            year as int,
            day as int,
        );
        assert(day_number(year as int, month as int, day as int) == days_since_epoch);
    }
    (year as i32, month as u32, day as u32)
}

/// Which era of 400 years a day falls in.
proof fn era_of(z: int, era: int)
    requires
        i64::MIN + 146_097 <= z <= i64::MAX,
        era == (if z >= 0 {
            z / 146_097
        } else {
            -((-(z - 146_096)) / 146_097)
        }),
    ensures
        0 <= z - era * 146_097 <= 146_096,
        -64_000_000_000_000 <= era <= 64_000_000_000_000,
{
}

/// The date of a day of a March-based year.
proof fn date_of(era: int, yoe: int, doy: int, mp: int, month: int, year: int, day: int)
    requires
        0 <= yoe <= 399,
        0 <= doy <= 365,
        doy == 365 ==> leap(yoe + 1),
        mp == (5 * doy + 2) / 153,
        month == (if mp < 10 {
            mp + 3
        } else {
            mp - 9
        }),
        year == yoe + era * 400 + (if month <= 2 {
            1int
        } else {
            0
        }),
        day == doy - (153 * mp + 2) / 5 + 1,
    ensures
        valid_date(year, month, day),
        day_number(year, month, day) == era * 146_097 + 365 * yoe + yoe / 4 - yoe / 100 + doy
            - 719_468,
{
    year_start(era, yoe);
    month_of_year(year, yoe, era, doy, mp, month);
    leap_days(yoe);
}

proof fn leap_days(yoe: int)
    requires
        0 <= yoe <= 399,
    ensures
        (yoe - 1) / 4 - (yoe - 1) / 100 + (yoe - 1) / 400 + (if leap(yoe) {
            1int
        } else {
            0
        }) == yoe / 4 - yoe / 100 + yoe / 400,
        yoe / 400 == 0,
{
}

/// Which year of its era a day falls in, where years begin in March.
#[verifier::rlimit(60)]
proof fn year_of_era(doe: int, yoe: int)
    requires
        0 <= doe <= 146_096,
        yoe == (doe - doe / 1_460 + doe / 36_524 - doe / 146_096) / 365,
    ensures
        0 <= yoe <= 399,
        0 <= doe - (365 * yoe + yoe / 4 - yoe / 100),
        doe - (365 * yoe + yoe / 4 - yoe / 100) <= 365,
        doe - (365 * yoe + yoe / 4 - yoe / 100) == 365 ==> leap(yoe + 1),
{
    let n = doe / 36_524;
    let t = doe - 36_524 * n;
    assert(0 <= n <= 4 && 0 <= t < 36_524);
    if n == 4 {
        assert(doe == 146_096);
        assert(yoe == 399);
    } else {
        assert(doe / 146_096 == 0);
        let y = yoe - 100 * n;
        century(n, t, doe / 1_460, yoe);
        assert(yoe / 100 == n);
        assert(yoe / 4 == 25 * n + y / 4);
        quarter(t, y, n);
    }
}

/// A day within the `n`-th century of an era falls in one of its years.
proof fn century(n: int, t: int, q: int, yoe: int)
    requires
        0 <= n <= 3,
        0 <= t < 36_524,
        q == (36_524 * n + t) / 1_460,
        yoe == (36_524 * n + t - q + n) / 365,
    ensures
        0 <= yoe - 100 * n <= 99,
        365 * (yoe - 100 * n) <= 24 * n + t - q + n < 365 * (yoe - 100 * n) + 365,
{
}

/// The day of the year of a day within a century.
proof fn quarter(t: int, y: int, n: int)
    requires
        0 <= n <= 3,
        0 <= t < 36_524,
        0 <= y <= 99,
        365 * y <= 24 * n + t - (36_524 * n + t) / 1_460 + n < 365 * y + 365,
    ensures
        0 <= t - (365 * y + y / 4) <= 365,
        t - (365 * y + y / 4) == 365 ==> y % 4 == 3 && y != 99,
{
}

/// Days before a March-based year, in terms of its era.
proof fn year_start(era: int, yoe: int)
    requires
        0 <= yoe <= 399,
    ensures
        days_before_year(yoe + era * 400) == era * 146_097 + 365 * yoe + (yoe - 1) / 4 - (yoe - 1)
            / 100 + (yoe - 1) / 400 - 719_527,
        days_before_year(yoe + era * 400 + 1) == era * 146_097 + 365 * yoe + 365 + yoe / 4 - yoe
            / 100 + yoe / 400 - 719_527,
        leap(yoe + era * 400) == leap(yoe),
        leap(yoe + era * 400 + 1) == leap(yoe + 1),
{
    shift(yoe - 1, era);
    shift(yoe, era);
    shift(yoe + 1, era);
}

proof fn shift(x: int, era: int)
    ensures
        (x + era * 400) / 4 == x / 4 + era * 100,
        (x + era * 400) / 100 == x / 100 + era * 4,
        (x + era * 400) / 400 == x / 400 + era,
        (x + era * 400) % 4 == x % 4,
        (x + era * 400) % 100 == x % 100,
        (x + era * 400) % 400 == x % 400,
{
    vstd::arithmetic::div_mod::lemma_hoist_over_denominator(x, era * 100, 4);
    vstd::arithmetic::div_mod::lemma_hoist_over_denominator(x, era * 4, 100);
    vstd::arithmetic::div_mod::lemma_hoist_over_denominator(x, era, 400);
    vstd::arithmetic::div_mod::lemma_mod_multiples_vanish(era * 100, x, 4);
    vstd::arithmetic::div_mod::lemma_mod_multiples_vanish(era * 4, x, 100);
    vstd::arithmetic::div_mod::lemma_mod_multiples_vanish(era, x, 400);
}

proof fn month_of_year(year: int, yoe: int, era: int, doy: int, mp: int, month: int)
    requires
        0 <= yoe <= 399,
        0 <= doy <= 365,
        doy == 365 ==> leap(yoe + 1),
        mp == (5 * doy + 2) / 153,
        month == (if mp < 10 {
            mp + 3
        } else {
            mp - 9
        }),
        year == yoe + era * 400 + (if month <= 2 {
            1int
        } else {
            0
        }),
        leap(yoe + era * 400) == leap(yoe),
        leap(yoe + era * 400 + 1) == leap(yoe + 1),
    ensures
        0 <= mp <= 11,
        1 <= month <= 12,
        1 <= doy - (153 * mp + 2) / 5 + 1 <= days_in_month(year, month),
        month > 2 ==> days_before_month(year, month) + (doy - (153 * mp + 2) / 5) == doy + 59 + (
        if leap(yoe) {
            1int
        } else {
            0
        }),
        month <= 2 ==> days_before_month(year, month) + (doy - (153 * mp + 2) / 5) == doy - 306,
{
}

/// A quotient grows where the divisor divides.
proof fn quotient_grows(y: int)
    ensures
        y / 4 - (y - 1) / 4 == (if y % 4 == 0 {
            1int
        } else {
            0
        }),
        y / 100 - (y - 1) / 100 == (if y % 100 == 0 {
            1int
        } else {
            0
        }),
        y / 400 - (y - 1) / 400 == (if y % 400 == 0 {
            1int
        } else {
            0
        }),
{
}

/// What a larger number divides, its divisors divide.
proof fn divisors_divide(y: int)
    ensures
        y % 400 == 0 ==> y % 100 == 0,
        y % 100 == 0 ==> y % 4 == 0,
{
}

/// Every year has its days.
pub proof fn year_length(y: int)
    ensures
        days_before_year(y + 1) == days_before_year(y) + 365 + (if leap(y) {
            1int
        } else {
            0
        }),
{
    quotient_grows(y);
    divisors_divide(y);
    let (a, b, c) = (y / 4, y / 100, y / 400);
    assert(days_before_year(y + 1) == 365 * (y - 1969) + a - b + c - 477);
}

/// Later years begin later.
proof fn years_follow(y: int, z: int)
    requires
        y <= z,
    ensures
        days_before_year(y) <= days_before_year(z),
    decreases z - y,
{
    if y < z {
        years_follow(y, z - 1);
        year_length(z - 1);
    }
}

/// A date lies in its year.
proof fn within_year(y: int, m: int, d: int)
    requires
        valid_date(y, m, d),
    ensures
        days_before_year(y) <= day_number(y, m, d) < days_before_year(y + 1),
{
    year_length(y);
}

/// No two dates are the same day.
pub proof fn dates_are_unique(a: (int, int, int), b: (int, int, int))
    requires
        valid_date(a.0, a.1, a.2),
        valid_date(b.0, b.1, b.2),
        day_number(a.0, a.1, a.2) == day_number(b.0, b.1, b.2),
    ensures
        a == b,
{
    within_year(a.0, a.1, a.2);
    within_year(b.0, b.1, b.2);
    if a.0 < b.0 {
        years_follow(a.0 + 1, b.0);
    }
    if b.0 < a.0 {
        years_follow(b.0 + 1, a.0);
    }
}

// ───────────────────────── time stamps ─────────────────────────

/// `s` with zeros in front up to `width` characters.
pub open spec fn padded(s: Seq<char>, width: nat) -> Seq<char>
    decreases width - s.len(),
{
    if s.len() >= width {
        s
    } else {
        padded(seq!['0'] + s, width)
    }
}

/// Writes a number with zeros in front up to `width` digits.
pub fn zero_padded(n: u64, width: usize) -> (r: String)
    ensures
        r@ == padded(decimal(n as nat), width as nat),
{
    let digits = to_decimal(n);
    let mut chars = crate::text::chars_of(digits.as_str());
    let ghost d = decimal(n as nat);
    while chars.len() < width
        invariant
            padded(chars@, width as nat) == padded(d, width as nat),
        decreases width - chars.len(),
    {
        let ghost before = chars@;
        chars.insert(0, '0');
        assert(chars@ =~= seq!['0'] + before);
    }
    crate::text::string_of(chars.as_slice())
}

/// The text of a time of day: hours, minutes, seconds and milliseconds.
pub open spec fn clock_text(second_of_day: nat, millis: nat) -> Seq<char> {
    padded(decimal(second_of_day / 3600), 2) + ":"@ + padded(
        decimal(second_of_day % 3600 / 60),
        2,
    ) + ":"@ + padded(decimal(second_of_day % 60), 2) + "."@ + padded(decimal(millis), 3)
}

/// The text of a date.
pub open spec fn date_text(y: nat, m: nat, d: nat) -> Seq<char> {
    padded(decimal(y), 4) + "-"@ + padded(decimal(m), 2) + "-"@ + padded(decimal(d), 2)
}

/// The text of a point in time, in seconds and milliseconds since 1970. Its
/// year has to fit an `i32`.
pub fn format_timestamp(secs: u64, millis: u32) -> (r: String)
    requires
        secs / 86_400 < days_before_year(0x8000_0000),
    ensures
        exists|y: nat, m: nat, d: nat|
            valid_date(y as int, m as int, d as int) && day_number(y as int, m as int, d as int)
                == secs / 86_400 && r@ == #[trigger] date_text(y, m, d) + " "@ + clock_text(
                (secs % 86_400) as nat,
                millis as nat,
            ),
{
    let days: i64 = (secs / 86_400) as i64;
    let rest: u64 = secs % 86_400;
    let (year, month, day) = civil_from_days(days);
    let ghost y = choose|y: i64|
        day_number(y as int, month as int, day as int) == days && valid_date(
            y as int,
            month as int,
            day as int,
        ) && year == #[trigger] (y as i32);
    proof {
        within_year(y as int, month as int, day as int);
        assert(days_before_year(1970) == 0);
        if y < 1970 {
            years_follow(y + 1, 1970);
        }
        if y >= 0x8000_0000 {
            years_follow(0x8000_0000, y as int);
        }
    }
    let a = zero_padded(year as u64, 4);
    let b = zero_padded(month as u64, 2);
    let c = zero_padded(day as u64, 2);
    let date = crate::text::join3(a.as_str(), "-", b.as_str());
    let date = crate::text::join3(date.as_str(), "-", c.as_str());
    let hh = zero_padded(rest / 3600, 2);
    let mm = zero_padded(rest % 3600 / 60, 2);
    let ss = zero_padded(rest % 60, 2);
    let ms = zero_padded(millis as u64, 3);
    let clock = crate::text::join3(hh.as_str(), ":", mm.as_str());
    let clock = crate::text::join3(clock.as_str(), ":", ss.as_str());
    let clock = crate::text::join3(clock.as_str(), ".", ms.as_str());
    let stamp = crate::text::join3(date.as_str(), " ", clock.as_str());
    assert(date@ == date_text(y as nat, month as nat, day as nat));
    assert(clock@ == clock_text(rest as nat, millis as nat));
    stamp
}

} // verus!
