use vstd::prelude::*;

verus! {

// ── The proleptic Gregorian calendar ────────────────────────────

/// Gregorian leap-year rule.
pub open spec fn is_leap_year(y: int) -> bool {
    (y % 4 == 0 && y % 100 != 0) || y % 400 == 0
}

pub open spec fn year_length(y: int) -> int {
    if is_leap_year(y) { 366 } else { 365 }
}

/// Number of days in month `m` (1 = January) of year `y`.
pub open spec fn days_in_month(y: int, m: int) -> int {
    if m == 2 {
        if is_leap_year(y) { 29 } else { 28 }
    } else if m == 4 || m == 6 || m == 9 || m == 11 {
        30
    } else {
        31
    }
}

/// `d`.`m`.`y` names a day that exists in the calendar.
pub open spec fn is_valid_date(y: int, m: int, d: int) -> bool {
    1 <= m <= 12 && 1 <= d <= days_in_month(y, m)
}

/// Days from 1 January of year 0 to 1 January of year `y`.
pub open spec fn days_before_year(y: nat) -> int
    decreases y,
{
    if y == 0 {
        0
    } else {
        days_before_year((y - 1) as nat) + year_length(y - 1)
    }
}

/// Days from 1 January of year `y` to the first day of month `m`.
pub open spec fn days_before_month(y: int, m: int) -> int
    decreases m,
{
    if m <= 1 {
        0
    } else {
        days_before_month(y, m - 1) + days_in_month(y, m - 1)
    }
}

/// Days from 1 January of year 0 to the given date.
pub open spec fn day_number(y: nat, m: int, d: int) -> int {
    days_before_year(y) + days_before_month(y as int, m) + d - 1
}

/// Days from 1 January 1970 (the Unix epoch) to the given date.
pub open spec fn days_since_epoch(y: nat, m: int, d: int) -> int {
    day_number(y, m, d) - day_number(1970, 1, 1)
}

/// `d`.`m`.`y` is the calendar date of the day `days` days after the epoch.
pub open spec fn is_date_of_day(days: int, y: int, m: int, d: int) -> bool {
    y >= 0 && is_valid_date(y, m, d) && days_since_epoch(y as nat, m, d) == days
}

/// The calendar date `(year, month, day)` of the day `days` days after the epoch.
pub open spec fn civil_from_days(days: int) -> (int, int, int) {
    choose|y: int, m: int, d: int| is_date_of_day(days, y, m, d)
}

// ── Lemmas ───────────────────────────────────────────────────────

proof fn lemma_days_before_year_closed(y: nat)
    ensures
        days_before_year(y) == 365 * y + (y + 3) / 4 - (y + 99) / 100 + (y + 399) / 400,
    decreases y,
{
    if y > 0 {
        lemma_days_before_year_closed((y - 1) as nat);
    }
}

proof fn lemma_days_before_month_table(y: int, m: int)
    requires
        1 <= m <= 12,
    ensures
        days_before_month(y, m) == (if m == 1 { 0 } else if m == 2 { 31 } else {
            (153 * (m - 3) + 2) / 5 + 59 + (if is_leap_year(y) { 1int } else { 0int })
        }),
{
    reveal_with_fuel(days_before_month, 12);
}

proof fn lemma_year_of_era(doe: int)
    requires
        0 <= doe < 146097,
    ensures
        ({
            let yoe = (doe - doe / 1460 + doe / 36524 - doe / 146096) / 365;
            let doy = doe - (365 * yoe + yoe / 4 - yoe / 100);
            &&& 0 <= yoe <= 399
            &&& 0 <= doy <= 365
            &&& doy == 365 ==> is_leap_year(yoe + 1)
        }),
{
}

/// Day number of 1 March of year `400 * era + yoe`, measured from 1 March of year 0.
proof fn lemma_march_first(era: int, yoe: int)
    requires
        era >= 0,
        0 <= yoe <= 399,
    ensures
        days_before_year((400 * era + yoe) as nat) + 59 + (if is_leap_year(400 * era + yoe) {
            1int
        } else {
            0int
        }) - 60 == 146097 * era + 365 * yoe + yoe / 4 - yoe / 100,
{
    let y = 400 * era + yoe;
    lemma_days_before_year_closed(y as nat);
    assert((y + 3) / 4 == 100 * era + (yoe + 3) / 4);
    assert((y + 99) / 100 == 4 * era + (yoe + 99) / 100);
    assert((y + 399) / 400 == era + (yoe + 399) / 400);
    assert(is_leap_year(y) == is_leap_year(yoe));
}

/// Splitting a March-based day-of-year into month and day lands on the right date.
proof fn lemma_month_of_year(yy: int, doy: int)
    requires
        yy >= 0,
        0 <= doy <= 365,
        doy == 365 ==> is_leap_year(yy + 1),
    ensures
        ({
            let mp = (5 * doy + 2) / 153;
            let d = doy - (153 * mp + 2) / 5 + 1;
            let m = if mp < 10 { mp + 3 } else { mp - 9 };
            let y = if m <= 2 { yy + 1 } else { yy };
            &&& is_valid_date(y, m, d)
            &&& day_number(y as nat, m, d) == days_before_year(yy as nat) + 59 + (if is_leap_year(
                yy,
            ) {
                1int
            } else {
                0int
            }) + doy
        }),
{
    let mp = (5 * doy + 2) / 153;
    let d = doy - (153 * mp + 2) / 5 + 1;
    let m = if mp < 10 { mp + 3 } else { mp - 9 };
    let y = if m <= 2 { yy + 1 } else { yy };
    assert(0 <= mp <= 11);
    lemma_days_before_month_table(y, m);
    if m <= 2 {
        assert(days_before_year((yy + 1) as nat) == days_before_year(yy as nat) + year_length(yy));
    }
}

/// The era-based conversion from a day count to a date lands on the right date.
pub proof fn lemma_civil_algorithm(days: int)
    requires
        days >= 0,
    ensures
        ({
            let z = days + 719468;
            let era = z / 146097;
            let doe = z - era * 146097;
            let yoe = (doe - doe / 1460 + doe / 36524 - doe / 146096) / 365;
            let yy = yoe + era * 400;
            let doy = doe - (365 * yoe + yoe / 4 - yoe / 100);
            let mp = (5 * doy + 2) / 153;
            let d = doy - (153 * mp + 2) / 5 + 1;
            let m = if mp < 10 { mp + 3 } else { mp - 9 };
            let y = if m <= 2 { yy + 1 } else { yy };
            is_date_of_day(days, y, m, d)
        }),
{
    let z = days + 719468;
    let era = z / 146097;
    let doe = z - era * 146097;
    let yoe = (doe - doe / 1460 + doe / 36524 - doe / 146096) / 365;
    let yy = yoe + era * 400;
    let doy = doe - (365 * yoe + yoe / 4 - yoe / 100);
    lemma_year_of_era(doe);
    lemma_march_first(era, yoe);
    assert(is_leap_year(yy + 1) == is_leap_year(yoe + 1)) by {
        assert((yy + 1) % 4 == (yoe + 1) % 4);
        assert((yy + 1) % 100 == (yoe + 1) % 100);
        assert((yy + 1) % 400 == (yoe + 1) % 400);
    }
    lemma_month_of_year(yy, doy);
    lemma_days_before_year_closed(1970);
    assert(day_number(1970, 1, 1) == 719528) by {
        reveal_with_fuel(days_before_month, 1);
    }
}

proof fn lemma_days_before_year_monotone(a: nat, b: nat)
    requires
        a <= b,
    ensures
        days_before_year(a) <= days_before_year(b),
    decreases b,
{
    if a < b {
        lemma_days_before_year_monotone(a, (b - 1) as nat);
    }
}

/// A valid date lies within its own year.
proof fn lemma_day_number_in_year(y: nat, m: int, d: int)
    requires
        is_valid_date(y as int, m, d),
    ensures
        days_before_year(y) <= day_number(y, m, d) < days_before_year(y + 1),
{
    lemma_days_before_month_table(y as int, m);
}

/// Two valid dates with the same day number are the same date.
pub proof fn lemma_day_number_injective(y1: nat, m1: int, d1: int, y2: nat, m2: int, d2: int)
    requires
        is_valid_date(y1 as int, m1, d1),
        is_valid_date(y2 as int, m2, d2),
        day_number(y1, m1, d1) == day_number(y2, m2, d2),
    ensures
        y1 == y2 && m1 == m2 && d1 == d2,
{
    lemma_day_number_in_year(y1, m1, d1);
    lemma_day_number_in_year(y2, m2, d2);
    if y1 < y2 {
        lemma_days_before_year_monotone(y1 + 1, y2);
    } else if y2 < y1 {
        lemma_days_before_year_monotone(y2 + 1, y1);
    }
    assert(y1 == y2);
    lemma_days_before_month_table(y1 as int, m1);
    lemma_days_before_month_table(y1 as int, m2);
}

/// Every day on or after the epoch has exactly one calendar date, and
/// `civil_from_days` names it.
pub proof fn lemma_civil_from_days(days: int)
    requires
        days >= 0,
    ensures
        ({
            let (y, m, d) = civil_from_days(days);
            &&& is_date_of_day(days, y, m, d)
            &&& forall|y2: int, m2: int, d2: int|
                is_date_of_day(days, y2, m2, d2) ==> y2 == y && m2 == m && d2 == d
        }),
{
    lemma_civil_algorithm(days);
    let (y, m, d) = civil_from_days(days);
    assert(is_date_of_day(days, y, m, d));
    assert forall|y2: int, m2: int, d2: int| is_date_of_day(days, y2, m2, d2) implies y2 == y
        && m2 == m && d2 == d by {
        lemma_day_number_injective(y as nat, m, d, y2 as nat, m2, d2);
    }
}

/// The date that follows the valid date `d`.`m`.`y`.
pub open spec fn next_date(y: int, m: int, d: int) -> (int, int, int) {
    if d < days_in_month(y, m) {
        (y, m, d + 1)
    } else if m < 12 {
        (y, m + 1, 1)
    } else {
        (y + 1, 1, 1)
    }
}

/// The calendar advances one day at a time: the date of the day after
/// `days` is the date that follows the date of `days`.
pub proof fn lemma_next_day(days: int)
    requires
        days >= 0,
    ensures
        ({
            let (y, m, d) = civil_from_days(days);
            civil_from_days(days + 1) == next_date(y, m, d)
        }),
{
    lemma_civil_from_days(days);
    lemma_civil_from_days(days + 1);
    let (y, m, d) = civil_from_days(days);
    let (y2, m2, d2) = next_date(y, m, d);
    lemma_days_before_month_table(y, m);
    if d < days_in_month(y, m) {
    } else if m < 12 {
        lemma_days_before_month_table(y, m + 1);
    } else {
        assert(days_before_year((y + 1) as nat) == days_before_year(y as nat) + year_length(y));
        reveal_with_fuel(days_before_month, 1);
    }
    assert(is_date_of_day(days + 1, y2, m2, d2));
}

/// Day 0 of Unix time is 1 January 1970.
pub proof fn lemma_epoch_date()
    ensures
        civil_from_days(0) == (1970int, 1int, 1int),
{
    lemma_civil_from_days(0);
    assert(is_valid_date(1970, 1, 1));
    assert(is_date_of_day(0, 1970, 1, 1));
}

} // verus!
