//! Calendar dates and timestamps.

use vstd::prelude::*;

use crate::text;

verus! {

/// Whether a year of the Gregorian calendar has a leap day.
pub open spec fn leap_year(year: int) -> bool {
    year % 4 == 0 && (year % 100 != 0 || year % 400 == 0)
}

/// The number of days of a month.
pub open spec fn days_in_month(year: int, month: int) -> int {
    if month == 2 {
        if leap_year(year) {
            29
        } else {
            28
        }
    } else if month == 4 || month == 6 || month == 9 || month == 11 {
        30
    } else {
        31
    }
}

/// Whether a year, a month and a day name a date.
pub open spec fn valid_date(year: int, month: int, day: int) -> bool {
    1 <= month <= 12 && 1 <= day <= days_in_month(year, month)
}

/// The number of days from the first of January of the year 0 to that of a year.
pub open spec fn days_before_year(year: int) -> int {
    365 * year + (year + 3) / 4 - (year + 99) / 100 + (year + 399) / 400
}

/// The number of days of a year before the first of a month.
pub open spec fn days_before_month(year: int, month: int) -> int
    decreases month,
{
    if month <= 1 {
        0
    } else {
        days_before_month(year, month - 1) + days_in_month(year, month - 1)
    }
}

/// The number of days from the first of January 1970 to a date.
pub open spec fn day_number(year: int, month: int, day: int) -> int {
    days_before_year(year) - days_before_year(1970) + days_before_month(year, month) + day - 1
}

/// The days of the year before a month are as the table of cumulative days has
/// them.
proof fn lemma_days_before_month(year: int, month: int)
    requires
        1 <= month <= 12,
    ensures
        ({
            let leap: int = if leap_year(year) {
                1
            } else {
                0
            };
            days_before_month(year, month) == if month == 1 {
                0
            } else if month == 2 {
                31
            } else if month == 3 {
                59 + leap
            } else if month == 4 {
                90 + leap
            } else if month == 5 {
                120 + leap
            } else if month == 6 {
                151 + leap
            } else if month == 7 {
                181 + leap
            } else if month == 8 {
                212 + leap
            } else if month == 9 {
                243 + leap
            } else if month == 10 {
                273 + leap
            } else if month == 11 {
                304 + leap
            } else {
                334 + leap
            }
        }),
{
    reveal_with_fuel(days_before_month, 13);
}

/// Rounding up to a multiple steps on from a number that is one.
proof fn lemma_rounded_up(year: int, step: int)
    requires
        step > 1,
    ensures
        (year + step) / step - (year + (step - 1)) / step == (if year % step == 0 {
            1int
        } else {
            0int
        }),
{
    let q = year / step;
    let r = year % step;
    vstd::arithmetic::div_mod::lemma_fundamental_div_mod(year, step);
    vstd::arithmetic::div_mod::lemma_mod_bound(year, step);
    assert(step * (q + 1) == step * q + step) by (nonlinear_arith);
    vstd::arithmetic::div_mod::lemma_fundamental_div_mod_converse(year + step, step, q + 1, r);
    if r == 0 {
        vstd::arithmetic::div_mod::lemma_fundamental_div_mod_converse(
            year + (step - 1),
            step,
            q,
            step - 1,
        );
    } else {
        vstd::arithmetic::div_mod::lemma_fundamental_div_mod_converse(
            year + (step - 1),
            step,
            q + 1,
            r - 1,
        );
    }
}

#[verifier::spinoff_prover]
proof fn lemma_century(year: int)
    ensures
        year % 400 == 0 ==> year % 100 == 0,
        year % 100 == 0 ==> year % 4 == 0,
{
}

/// A year is as long as the distance to the next says: 366 days in a leap year
/// and 365 in any other.
#[verifier::spinoff_prover]
pub proof fn law_year_length(year: int)
    ensures
        days_before_year(year + 1) - days_before_year(year) == (if leap_year(year) {
            366int
        } else {
            365int
        }),
        days_before_year(year + 1) - days_before_year(year) == days_before_month(year, 12)
            + days_in_month(year, 12),
{
    lemma_days_before_month(year, 12);
    lemma_rounded_up(year, 4);
    lemma_rounded_up(year, 100);
    lemma_rounded_up(year, 400);
    lemma_century(year);
}

/// The year of an era that a day of it falls in, counted from March: the only
/// one whose days reach around it.
proof fn lemma_year_of_era(doe: int, yoe: int)
    requires
        0 <= doe < 146_097,
        yoe == (doe - doe / 1_460 + doe / 36_524 - doe / 146_096) / 365,
    ensures
        0 <= yoe <= 399,
        0 <= doe - (365 * yoe + yoe / 4 - yoe / 100) <= 365,
        doe - (365 * yoe + yoe / 4 - yoe / 100) == 365 ==> (yoe + 1) % 4 == 0 && ((yoe + 1) % 100
            != 0 || yoe == 399),
{
    let d = doe as u32;
    let y = yoe as u32;
    assert(d < 146_097 ==> {
        let q = (d - d / 1_460 + d / 36_524 - d / 146_096) / 365;
        &&& q <= 399
        &&& 365 * q + q / 4 - q / 100 <= d
        &&& d <= 365 + (365 * q + q / 4 - q / 100)
    }) by (bit_vector);
}

/// The number of days from the first of March of the year 0 to that of a year.
spec fn days_before_march(year: int) -> int {
    365 * year + year / 4 - year / 100 + year / 400
}

proof fn lemma_march(year: int)
    ensures
        days_before_year(year) == days_before_march(year) + 1 - (if leap_year(year) {
            1int
        } else {
            0int
        }),
        days_before_march(year + 1) == days_before_march(year) + 365 + (if leap_year(year + 1) {
            1int
        } else {
            0int
        }),
{
    assert((year + 3) / 4 - year / 4 == (if year % 4 == 0 {
        0int
    } else {
        1int
    }));
    assert((year + 99) / 100 - year / 100 == (if year % 100 == 0 {
        0int
    } else {
        1int
    }));
    assert((year + 399) / 400 - year / 400 == (if year % 400 == 0 {
        0int
    } else {
        1int
    }));
    assert((year + 1) / 4 - year / 4 == (if (year + 1) % 4 == 0 {
        1int
    } else {
        0int
    }));
    assert((year + 1) / 100 - year / 100 == (if (year + 1) % 100 == 0 {
        1int
    } else {
        0int
    }));
    assert((year + 1) / 400 - year / 400 == (if (year + 1) % 400 == 0 {
        1int
    } else {
        0int
    }));
}

#[verifier::spinoff_prover]
proof fn lemma_march_of_era(era: int, yoe: int)
    requires
        0 <= yoe <= 399,
    ensures
        days_before_march(era * 400 + yoe) == 146_097 * era + 365 * yoe + yoe / 4 - yoe / 100,
        leap_year(era * 400 + yoe + 1) <==> (yoe + 1) % 4 == 0 && ((yoe + 1) % 100 != 0 || yoe
            == 399),
{
    let year = era * 400 + yoe;
    assert(year / 400 == era);
    assert(year / 100 == era * 4 + yoe / 100);
    assert(year / 4 == era * 100 + yoe / 4);
    assert((year + 1) % 4 == (yoe + 1) % 4);
    assert((year + 1) % 100 == (yoe + 1) % 100);
    assert((year + 1) % 400 == (yoe + 1) % 400);
}

/// A day of a year counted from March, cut into its month and its day.
proof fn lemma_month_and_day(doy: int, mp: int)
    requires
        0 <= doy <= 365,
        mp == (5 * doy + 2) / 153,
    ensures
        0 <= mp <= 11,
        (153 * mp + 2) / 5 <= doy,
        doy < (153 * (mp + 1) + 2) / 5,
        (153 * mp + 2) / 5 == (if mp == 0 {
            0int
        } else if mp == 1 {
            31int
        } else if mp == 2 {
            61int
        } else if mp == 3 {
            92int
        } else if mp == 4 {
            122int
        } else if mp == 5 {
            153int
        } else if mp == 6 {
            184int
        } else if mp == 7 {
            214int
        } else if mp == 8 {
            245int
        } else if mp == 9 {
            275int
        } else if mp == 10 {
            306int
        } else {
            337int
        }),
{
}

/// The date of a day, counted from the first of January 1970.
pub fn civil_from_days(days_since_epoch: i64) -> (date: (i64, u32, u32))
    requires
        i64::MIN + 146_096 <= days_since_epoch + 719_468 <= i64::MAX,
    ensures
        valid_date(date.0 as int, date.1 as int, date.2 as int),
        day_number(date.0 as int, date.1 as int, date.2 as int) == days_since_epoch,
{
    let z: i64 = days_since_epoch + 719_468;
    let era: i64 = if z >= 0 {
        z / 146_097
    } else {
        -((146_096 - z) / 146_097)
    };
    assert(era == z as int / 146_097);
    let doe: i64 = z - era * 146_097;
    let yoe: i64 = (doe - doe / 1_460 + doe / 36_524 - doe / 146_096) / 365;
    proof {
        lemma_year_of_era(doe as int, yoe as int);
        lemma_march_of_era(era as int, yoe as int);
    }
    let march_year: i64 = yoe + era * 400;
    let doy: i64 = doe - (365 * yoe + yoe / 4 - yoe / 100);
    let mp: i64 = (5 * doy + 2) / 153;
    proof {
        lemma_month_and_day(doy as int, mp as int);
        lemma_march(march_year as int);
        lemma_march(march_year + 1);
    }
    let day: i64 = doy - (153 * mp + 2) / 5 + 1;
    let month: i64 = if mp < 10 {
        mp + 3
    } else {
        mp - 9
    };
    let year: i64 = if month <= 2 {
        march_year + 1
    } else {
        march_year
    };
    proof {
        lemma_days_before_month(year as int, month as int);
        assert(days_before_year(1970) == 719_528);
    }
    (year, month as u32, day as u32)
}

/// Two dates with the same day number are the same date.
pub proof fn law_day_numbers_name_one_date(
    year: int,
    month: int,
    day: int,
    other_year: int,
    other_month: int,
    other_day: int,
)
    requires
        valid_date(year, month, day),
        valid_date(other_year, other_month, other_day),
        day_number(year, month, day) == day_number(other_year, other_month, other_day),
    ensures
        year == other_year,
        month == other_month,
        day == other_day,
{
    lemma_days_before_month(year, month);
    lemma_days_before_month(other_year, other_month);
    lemma_days_before_month(year, 12);
    lemma_days_before_month(other_year, 12);
    if year < other_year {
        lemma_years_ascend(year + 1, other_year);
        law_year_length(year);
    } else if other_year < year {
        lemma_years_ascend(other_year + 1, year);
        law_year_length(other_year);
    }
}

proof fn lemma_years_ascend(from: int, to: int)
    requires
        from <= to,
    ensures
        days_before_year(from) <= days_before_year(to),
    decreases to - from,
{
    if from < to {
        lemma_years_ascend(from, to - 1);
        law_year_length(to - 1);
    }
}

/// The decimal form of a number, filled with zeros to a width.
pub open spec fn padded(value: nat, width: nat) -> Seq<char> {
    let digits = text::decimal(value);
    if digits.len() >= width {
        digits
    } else {
        Seq::new((width - digits.len()) as nat, |i: int| '0') + digits
    }
}

/// Renders a number in decimal, filled with zeros to a width.
pub fn padded_text(value: u64, width: usize) -> (out: String)
    ensures
        out@ == padded(value as nat, width as nat),
{
    let digits = text::chars_of(text::decimal_text(value).as_str());
    let mut out = String::new();
    let mut count: usize = digits.len();
    while count < width
        invariant
            digits@.len() <= count,
            count <= width || count == digits@.len(),
            out@ == Seq::new((count - digits@.len()) as nat, |i: int| '0'),
        decreases width - count,
    {
        text::push_char(&mut out, '0');
        count += 1;
        assert(out@ =~= Seq::new((count - digits@.len()) as nat, |i: int| '0'));
    }
    let tail = text::text_of(digits.as_slice());
    out.append(tail.as_str());
    assert(out@ =~= padded(value as nat, width as nat));
    out
}

/// The timestamp of a moment: the date of its day and the time of day, in UTC.
pub open spec fn timestamp_text(
    year: nat,
    month: nat,
    day: nat,
    seconds_of_day: nat,
    millis: nat,
) -> Seq<char> {
    padded(year, 4) + "-"@ + padded(month, 2) + "-"@ + padded(day, 2) + "T"@ + padded(
        seconds_of_day / 3_600,
        2,
    ) + ":"@ + padded((seconds_of_day % 3_600) / 60, 2) + ":"@ + padded(seconds_of_day % 60, 2)
        + "."@ + padded(millis, 3) + "Z"@
}

/// Whether a text is the timestamp of a moment, counted in seconds and
/// milliseconds from the first of January 1970.
pub open spec fn is_timestamp(out: Seq<char>, seconds: nat, millis: nat) -> bool {
    exists|year: int, month: int, day: int| #[trigger]
        valid_date(year, month, day) && year >= 0 && day_number(year, month, day) == seconds
            / 86_400 && out == timestamp_text(
            year as nat,
            month as nat,
            day as nat,
            seconds % 86_400,
            millis,
        )
}

/// The timestamp of a moment, counted in seconds and milliseconds from the first
/// of January 1970.
pub fn format_unix_millis(seconds: u64, millis: u32) -> (out: String)
    ensures
        is_timestamp(out@, seconds as nat, millis as nat),
{
    let days: i64 = (seconds / 86_400) as i64;
    let seconds_of_day: u64 = seconds % 86_400;
    let (year, month, day) = civil_from_days(days);
    proof {
        if year < 1970 {
            lemma_days_before_month(year as int, month as int);
            lemma_years_ascend(year + 1, 1970);
            law_year_length(year as int);
            lemma_days_before_month(year as int, 12);
        }
    }
    let mut out = padded_text(year as u64, 4);
    out.append("-");
    out.append(padded_text(month as u64, 2).as_str());
    out.append("-");
    out.append(padded_text(day as u64, 2).as_str());
    out.append("T");
    out.append(padded_text(seconds_of_day / 3_600, 2).as_str());
    out.append(":");
    out.append(padded_text((seconds_of_day % 3_600) / 60, 2).as_str());
    out.append(":");
    out.append(padded_text(seconds_of_day % 60, 2).as_str());
    out.append(".");
    out.append(padded_text(millis as u64, 3).as_str());
    out.append("Z");
    assert(valid_date(year as int, month as int, day as int));
    out
}

/// The timestamp of the present, given as the time since the first of January
/// 1970; a clock before it shows that day.
pub fn timestamp_now(since_epoch: Option<(u64, u32)>) -> (out: String)
    ensures
        match since_epoch {
            Some(time) => is_timestamp(out@, time.0 as nat, time.1 as nat),
            None => out@ == "1970-01-01T00:00:00.000Z"@,
        },
{
    match since_epoch {
        Some(time) => format_unix_millis(time.0, time.1),
        None => "1970-01-01T00:00:00.000Z".to_owned(),
    }
}

/// A moment has one timestamp.
pub proof fn law_timestamp_is_unique(left: Seq<char>, right: Seq<char>, seconds: nat, millis: nat)
    requires
        is_timestamp(left, seconds, millis),
        is_timestamp(right, seconds, millis),
    ensures
        left == right,
{
    let (y1, m1, d1): (int, int, int) = choose|year: int, month: int, day: int| #[trigger]
        valid_date(year, month, day) && year >= 0 && day_number(year, month, day) == seconds
            / 86_400 && left == timestamp_text(
            year as nat,
            month as nat,
            day as nat,
            seconds % 86_400,
            millis,
        );
    let (y2, m2, d2): (int, int, int) = choose|year: int, month: int, day: int| #[trigger]
        valid_date(year, month, day) && year >= 0 && day_number(year, month, day) == seconds
            / 86_400 && right == timestamp_text(
            year as nat,
            month as nat,
            day as nat,
            seconds % 86_400,
            millis,
        );
    law_day_numbers_name_one_date(y1, m1, d1, y2, m2, d2);
}

/// Whether two texts differ at a place, the first of the two having the lesser
/// character there, and are alike before it.
spec fn apart_at(left: Seq<char>, right: Seq<char>, at: int) -> bool {
    &&& 0 <= at < left.len()
    &&& at < right.len()
    &&& left.take(at) == right.take(at)
    &&& left[at] < right[at]
}

/// Whether a text stands before another for a character that both have.
spec fn apart(left: Seq<char>, right: Seq<char>) -> bool {
    exists|at: int| apart_at(left, right, at)
}

proof fn lemma_apart_at_is_order(left: Seq<char>, right: Seq<char>, at: int)
    requires
        apart_at(left, right, at),
    ensures
        text::stands_before(left, right),
    decreases at,
{
    if at > 0 {
        assert(left.take(at)[0] == right.take(at)[0]);
        let left_rest = left.drop_first();
        let right_rest = right.drop_first();
        assert(left_rest.take(at - 1) =~= left.take(at).drop_first());
        assert(right_rest.take(at - 1) =~= right.take(at).drop_first());
        lemma_apart_at_is_order(left_rest, right_rest, at - 1);
    }
}

/// Texts that grow at their ends stay apart; texts that are alike come apart where
/// what is added does.
proof fn lemma_apart_grows(left: Seq<char>, right: Seq<char>, more: Seq<char>, other: Seq<char>)
    ensures
        apart(left, right) ==> apart(left + more, right + other),
        left == right && apart(more, other) ==> apart(left + more, right + other),
{
    if apart(left, right) {
        let at = choose|at: int| apart_at(left, right, at);
        assert((left + more).take(at) =~= left.take(at));
        assert((right + other).take(at) =~= right.take(at));
        assert(apart_at(left + more, right + other, at));
    } else if left == right && apart(more, other) {
        let at = choose|at: int| apart_at(more, other, at);
        let place = left.len() + at;
        assert((left + more).take(place) =~= left + more.take(at));
        assert((right + other).take(place) =~= right + other.take(at));
        assert(apart_at(left + more, right + other, place));
    }
}

/// Whether a number has at most so many digits.
spec fn fits(value: nat, width: nat) -> bool
    decreases width,
{
    if width == 0 {
        value == 0
    } else {
        fits(value / 10, (width - 1) as nat)
    }
}

/// The last digits of a number.
spec fn digits_of(value: nat, width: nat) -> Seq<char>
    decreases width,
{
    if width == 0 {
        seq![]
    } else {
        digits_of(value / 10, (width - 1) as nat).push(text::digit(value % 10))
    }
}

proof fn lemma_zeros(width: nat)
    ensures
        digits_of(0, width) == Seq::new(width, |i: int| '0'),
    decreases width,
{
    if width > 0 {
        lemma_zeros((width - 1) as nat);
    }
    assert(digits_of(0, width) =~= Seq::new(width, |i: int| '0'));
}

/// A number that fits a width is written with exactly that many digits.
proof fn lemma_padded(value: nat, width: nat)
    requires
        width > 0,
        fits(value, width),
    ensures
        padded(value, width) == digits_of(value, width),
        padded(value, width).len() == width,
        text::decimal(value).len() <= width,
    decreases width,
{
    let less = (width - 1) as nat;
    if value < 10 {
        lemma_zeros(less);
        assert(value / 10 == 0);
        assert(padded(value, width) =~= digits_of(value, width));
    } else {
        assert(fits(value / 10, less));
        assert(value / 10 > 0);
        assert(less > 0);
        lemma_padded(value / 10, less);
        let digits = text::decimal(value / 10);
        assert(text::decimal(value) == digits.push(text::digit(value % 10)));
        assert(padded(value, width) =~= padded(value / 10, less).push(text::digit(value % 10)));
    }
}

proof fn lemma_digits_in_order(left: nat, right: nat)
    requires
        left < right < 10,
    ensures
        text::digit(left) < text::digit(right),
{
}

/// Numbers of one width are in the order of their digits.
proof fn lemma_numbers_apart(left: nat, right: nat, width: nat)
    requires
        left < right,
        fits(right, width),
    ensures
        apart(digits_of(left, width), digits_of(right, width)),
    decreases width,
{
    if width > 0 {
        let less = (width - 1) as nat;
        let first = digits_of(left / 10, less);
        let second = digits_of(right / 10, less);
        let end = seq![text::digit(left % 10)];
        let other = seq![text::digit(right % 10)];
        assert(digits_of(left, width) =~= first + end);
        assert(digits_of(right, width) =~= second + other);
        if left / 10 < right / 10 {
            lemma_numbers_apart(left / 10, right / 10, less);
        } else {
            lemma_digits_in_order(left % 10, right % 10);
            assert(end.take(0) =~= other.take(0));
            assert(apart_at(end, other, 0));
        }
        lemma_apart_grows(first, second, end, other);
    }
}

/// A field of a timestamp: as wide as it is to be, and in the order of its values.
proof fn lemma_field(left: nat, right: nat, width: nat)
    requires
        width > 0,
        fits(left, width),
        fits(right, width),
    ensures
        padded(left, width).len() == width,
        left < right ==> apart(padded(left, width), padded(right, width)),
{
    lemma_padded(left, width);
    lemma_padded(right, width);
    if left < right {
        lemma_numbers_apart(left, right, width);
    }
}

proof fn lemma_fits(value: nat)
    ensures
        value < 100 ==> fits(value, 2),
        value < 1_000 ==> fits(value, 3),
        value < 10_000 ==> fits(value, 4),
{
    reveal_with_fuel(fits, 5);
}

/// The year of a moment before the year 10000 has four digits.
proof fn lemma_year_has_four_digits(year: int, month: int, day: int)
    requires
        valid_date(year, month, day),
        day_number(year, month, day) <= 2_932_896,
    ensures
        year < 10_000,
{
    if year >= 10_000 {
        lemma_years_ascend(10_000, year);
        lemma_days_before_month(year, month);
        assert(days_before_year(10_000) - days_before_year(1970) == 2_932_897);
    }
}

/// Days are in the order of their dates.
proof fn lemma_dates_in_order(y1: int, m1: int, d1: int, y2: int, m2: int, d2: int)
    requires
        valid_date(y1, m1, d1),
        valid_date(y2, m2, d2),
        day_number(y1, m1, d1) < day_number(y2, m2, d2),
    ensures
        y1 < y2 || (y1 == y2 && (m1 < m2 || (m1 == m2 && d1 < d2))),
{
    lemma_days_before_month(y1, m1);
    lemma_days_before_month(y2, m2);
    lemma_days_before_month(y2, 12);
    if y2 < y1 {
        lemma_years_ascend(y2 + 1, y1);
        law_year_length(y2);
    }
}

/// Whether every character is one byte long.
pub open spec fn single_bytes(out: Seq<char>) -> bool {
    forall|i: int| 0 <= i < out.len() ==> #[trigger] out[i] <= '\u{7f}'
}

proof fn lemma_digits_are_bytes(value: nat, width: nat)
    ensures
        single_bytes(digits_of(value, width)),
    decreases width,
{
    if width > 0 {
        lemma_digits_are_bytes(value / 10, (width - 1) as nat);
        assert(text::digit(value % 10) <= '\u{7f}');
    }
}

/// A text that grows by bytes remains one of bytes.
proof fn lemma_bytes_grow(out: Seq<char>, more: Seq<char>)
    requires
        single_bytes(out),
        single_bytes(more),
    ensures
        single_bytes(out + more),
{
}

/// What a timestamp holds: the year, the month, the day, the hour, the minute, the
/// second and the milliseconds.
type Moment = (nat, nat, nat, nat, nat, nat, nat);

/// Whether each part of a moment fits its place in a timestamp.
spec fn is_writable(moment: Moment) -> bool {
    moment.0 < 10_000 && moment.1 < 100 && moment.2 < 100 && moment.3 < 100 && moment.4 < 100
        && moment.5 < 100 && moment.6 < 1_000
}

/// The timestamp of a moment.
spec fn moment_text(moment: Moment) -> Seq<char> {
    padded(moment.0, 4) + "-"@ + padded(moment.1, 2) + "-"@ + padded(moment.2, 2) + "T"@ + padded(
        moment.3,
        2,
    ) + ":"@ + padded(moment.4, 2) + ":"@ + padded(moment.5, 2) + "."@ + padded(moment.6, 3) + "Z"@
}

/// Whether a moment is before another, the greater parts deciding first.
spec fn is_earlier(a: Moment, b: Moment) -> bool {
    a.0 < b.0 || (a.0 == b.0 && (a.1 < b.1 || (a.1 == b.1 && (a.2 < b.2 || (a.2 == b.2 && (a.3 < b.3
        || (a.3 == b.3 && (a.4 < b.4 || (a.4 == b.4 && (a.5 < b.5 || (a.5 == b.5 && a.6
        < b.6)))))))))))
}

proof fn lemma_moments_in_order(a: Moment, b: Moment)
    requires
        is_writable(a),
        is_writable(b),
        is_earlier(a, b),
    ensures
        apart(moment_text(a), moment_text(b)),
{
    lemma_fits(a.0);
    lemma_fits(b.0);
    lemma_fits(a.1);
    lemma_fits(b.1);
    lemma_fits(a.2);
    lemma_fits(b.2);
    lemma_fits(a.3);
    lemma_fits(b.3);
    lemma_fits(a.4);
    lemma_fits(b.4);
    lemma_fits(a.5);
    lemma_fits(b.5);
    lemma_fits(a.6);
    lemma_fits(b.6);
    lemma_field(a.0, b.0, 4);
    lemma_field(a.1, b.1, 2);
    lemma_field(a.2, b.2, 2);
    lemma_field(a.3, b.3, 2);
    lemma_field(a.4, b.4, 2);
    lemma_field(a.5, b.5, 2);
    lemma_field(a.6, b.6, 3);
    let (p, q) = (padded(a.0, 4), padded(b.0, 4));
    lemma_apart_grows(p, q, "-"@, "-"@);
    let (p, q) = (p + "-"@, q + "-"@);
    lemma_apart_grows(p, q, padded(a.1, 2), padded(b.1, 2));
    let (p, q) = (p + padded(a.1, 2), q + padded(b.1, 2));
    lemma_apart_grows(p, q, "-"@, "-"@);
    let (p, q) = (p + "-"@, q + "-"@);
    lemma_apart_grows(p, q, padded(a.2, 2), padded(b.2, 2));
    let (p, q) = (p + padded(a.2, 2), q + padded(b.2, 2));
    lemma_apart_grows(p, q, "T"@, "T"@);
    let (p, q) = (p + "T"@, q + "T"@);
    lemma_apart_grows(p, q, padded(a.3, 2), padded(b.3, 2));
    let (p, q) = (p + padded(a.3, 2), q + padded(b.3, 2));
    lemma_apart_grows(p, q, ":"@, ":"@);
    let (p, q) = (p + ":"@, q + ":"@);
    lemma_apart_grows(p, q, padded(a.4, 2), padded(b.4, 2));
    let (p, q) = (p + padded(a.4, 2), q + padded(b.4, 2));
    lemma_apart_grows(p, q, ":"@, ":"@);
    let (p, q) = (p + ":"@, q + ":"@);
    lemma_apart_grows(p, q, padded(a.5, 2), padded(b.5, 2));
    let (p, q) = (p + padded(a.5, 2), q + padded(b.5, 2));
    lemma_apart_grows(p, q, "."@, "."@);
    let (p, q) = (p + "."@, q + "."@);
    lemma_apart_grows(p, q, padded(a.6, 3), padded(b.6, 3));
    let (p, q) = (p + padded(a.6, 3), q + padded(b.6, 3));
    lemma_apart_grows(p, q, "Z"@, "Z"@);
}

/// A field of a timestamp adds its width in bytes.
proof fn lemma_field_is_bytes(before: Seq<char>, value: nat, width: nat)
    requires
        single_bytes(before),
        width > 0,
        fits(value, width),
    ensures
        single_bytes(before + padded(value, width)),
        (before + padded(value, width)).len() == before.len() + width,
{
    lemma_padded(value, width);
    lemma_digits_are_bytes(value, width);
    lemma_bytes_grow(before, padded(value, width));
}

proof fn lemma_moment_is_bytes(a: Moment)
    requires
        is_writable(a),
    ensures
        single_bytes(moment_text(a)),
        moment_text(a).len() == 24,
{
    reveal_strlit("-");
    reveal_strlit("T");
    reveal_strlit(":");
    reveal_strlit(".");
    reveal_strlit("Z");
    lemma_fits(a.0);
    lemma_fits(a.1);
    lemma_fits(a.2);
    lemma_fits(a.3);
    lemma_fits(a.4);
    lemma_fits(a.5);
    lemma_fits(a.6);
    lemma_padded(a.0, 4);
    lemma_digits_are_bytes(a.0, 4);
    let p = padded(a.0, 4);
    lemma_bytes_grow(p, "-"@);
    let p = p + "-"@;
    lemma_field_is_bytes(p, a.1, 2);
    let p = p + padded(a.1, 2);
    lemma_bytes_grow(p, "-"@);
    let p = p + "-"@;
    lemma_field_is_bytes(p, a.2, 2);
    let p = p + padded(a.2, 2);
    lemma_bytes_grow(p, "T"@);
    let p = p + "T"@;
    lemma_field_is_bytes(p, a.3, 2);
    let p = p + padded(a.3, 2);
    lemma_bytes_grow(p, ":"@);
    let p = p + ":"@;
    lemma_field_is_bytes(p, a.4, 2);
    let p = p + padded(a.4, 2);
    lemma_bytes_grow(p, ":"@);
    let p = p + ":"@;
    lemma_field_is_bytes(p, a.5, 2);
    let p = p + padded(a.5, 2);
    lemma_bytes_grow(p, "."@);
    let p = p + "."@;
    lemma_field_is_bytes(p, a.6, 3);
    let p = p + padded(a.6, 3);
    lemma_bytes_grow(p, "Z"@);
}

/// The moment that a timestamp before the year 10000 shows.
proof fn lemma_moment_of(out: Seq<char>, seconds: nat, millis: nat) -> (moment: Moment)
    requires
        is_timestamp(out, seconds, millis),
        seconds <= 253_402_300_799,
        millis < 1_000,
    ensures
        is_writable(moment),
        out == moment_text(moment),
        valid_date(moment.0 as int, moment.1 as int, moment.2 as int),
        day_number(moment.0 as int, moment.1 as int, moment.2 as int) == seconds / 86_400,
        moment.3 == seconds % 86_400 / 3_600,
        moment.4 == (seconds % 86_400) % 3_600 / 60,
        moment.5 == (seconds % 86_400) % 60,
        moment.6 == millis,
{
    let (year, month, day): (int, int, int) = choose|year: int, month: int, day: int| #[trigger]
        valid_date(year, month, day) && year >= 0 && day_number(year, month, day) == seconds
            / 86_400 && out == timestamp_text(
            year as nat,
            month as nat,
            day as nat,
            seconds % 86_400,
            millis,
        );
    lemma_year_has_four_digits(year, month, day);
    let rest = seconds % 86_400;
    (year as nat, month as nat, day as nat, rest / 3_600, rest % 3_600 / 60, rest % 60, millis)
}

/// Times of a day are in the order of their hours, minutes and seconds.
proof fn lemma_times_in_order(left: nat, right: nat)
    requires
        left <= right,
    ensures
        left / 3_600 < right / 3_600 || (left / 3_600 == right / 3_600 && (left % 3_600 / 60
            < right % 3_600 / 60 || (left % 3_600 / 60 == right % 3_600 / 60 && if left < right {
            left % 60 < right % 60
        } else {
            left % 60 == right % 60
        }))),
{
}

/// Before the year 10000 a timestamp is 24 bytes long, and of two moments the
/// earlier has the timestamp that stands first: the order of the texts is the order
/// of the times.
pub proof fn law_timestamps_are_in_order(
    left: Seq<char>,
    left_seconds: nat,
    left_millis: nat,
    right: Seq<char>,
    right_seconds: nat,
    right_millis: nat,
)
    requires
        is_timestamp(left, left_seconds, left_millis),
        is_timestamp(right, right_seconds, right_millis),
        left_seconds <= 253_402_300_799,
        right_seconds <= 253_402_300_799,
        left_millis < 1_000,
        right_millis < 1_000,
        left_seconds < right_seconds || (left_seconds == right_seconds && left_millis
            < right_millis),
    ensures
        left.len() == 24 && single_bytes(left),
        right.len() == 24 && single_bytes(right),
        text::stands_before(left, right),
{
    let a = lemma_moment_of(left, left_seconds, left_millis);
    let b = lemma_moment_of(right, right_seconds, right_millis);
    lemma_moment_is_bytes(a);
    lemma_moment_is_bytes(b);
    let (y1, m1, d1) = (a.0 as int, a.1 as int, a.2 as int);
    let (y2, m2, d2) = (b.0 as int, b.1 as int, b.2 as int);
    if left_seconds / 86_400 < right_seconds / 86_400 {
        lemma_dates_in_order(y1, m1, d1, y2, m2, d2);
    } else {
        law_day_numbers_name_one_date(y1, m1, d1, y2, m2, d2);
        lemma_times_in_order(left_seconds % 86_400, right_seconds % 86_400);
    }
    lemma_moments_in_order(a, b);
    lemma_apart_at_is_order(left, right, choose|at: int| apart_at(left, right, at));
}

/// A year has a leap day if it can be divided by four, but not if it can be divided by a
/// hundred, unless by four hundred; and the months have these days.
pub proof fn law_months_have_these_days(year: int, month: int)
    requires
        1 <= month <= 12,
    ensures
        leap_year(year) <==> (year % 4 == 0 && year % 100 != 0) || year % 400 == 0,
        days_in_month(year, month) == seq![
            31int,
            if leap_year(year) {
                29
            } else {
                28
            },
            31,
            30,
            31,
            30,
            31,
            31,
            30,
            31,
            30,
            31,
        ][month - 1],
{
}

/// The days are counted from the first of January 1970, one for each: the day after a
/// date has the next number, be it in the same month, the next month or the next year.
pub proof fn law_days_are_counted_one_by_one(year: int, month: int, day: int)
    requires
        valid_date(year, month, day),
    ensures
        day_number(1970, 1, 1) == 0,
        day_number(year, month, day + 1) == day_number(year, month, day) + 1,
        month < 12 && day == days_in_month(year, month) ==> day_number(year, month + 1, 1)
            == day_number(year, month, day) + 1,
        month == 12 && day == 31 ==> day_number(year + 1, 1, 1) == day_number(year, month, day) + 1,
{
    law_year_length(year);
    reveal_with_fuel(days_before_month, 2);
    lemma_days_before_month(year, month);
}

proof fn lemma_digits_stand_for(value: nat, width: nat)
    requires
        fits(value, width),
    ensures
        text::number_of(digits_of(value, width)) == value,
    decreases width,
{
    if width > 0 {
        let less = (width - 1) as nat;
        lemma_digits_stand_for(value / 10, less);
        assert(digits_of(value, width).drop_last() =~= digits_of(value / 10, less));
        let last = text::digit(value % 10);
        assert(last as u32 - '0' as u32 == value % 10);
    }
}

/// A number that has at most so many digits is written with that many, zeros first, and
/// they stand for it; a longer one is written in full.
pub proof fn law_padding_keeps_the_number(value: nat)
    ensures
        value < 100 ==> padded(value, 2).len() == 2 && text::number_of(padded(value, 2)) == value,
        value < 1_000 ==> padded(value, 3).len() == 3 && text::number_of(padded(value, 3))
            == value,
        value < 10_000 ==> padded(value, 4).len() == 4 && text::number_of(padded(value, 4))
            == value,
        forall|width: nat|
            text::decimal(value).len() >= width ==> #[trigger] padded(value, width)
                == text::decimal(value),
{
    lemma_fits(value);
    if value < 100 {
        lemma_padded(value, 2);
        lemma_digits_stand_for(value, 2);
    }
    if value < 1_000 {
        lemma_padded(value, 3);
        lemma_digits_stand_for(value, 3);
    }
    if value < 10_000 {
        lemma_padded(value, 4);
        lemma_digits_stand_for(value, 4);
    }
}

/// Before the year 10000 a timestamp shows the moment it is of: the date of its day, its
/// hours, minutes and seconds, and its milliseconds, each at its place.
#[verifier::spinoff_prover]
pub proof fn law_timestamp_shows_its_moment(out: Seq<char>, seconds: nat, millis: nat)
    requires
        is_timestamp(out, seconds, millis),
        seconds <= 253_402_300_799,
        millis < 1_000,
    ensures
        out.len() == 24,
        out[4] == '-' && out[7] == '-' && out[10] == 'T' && out[13] == ':' && out[16] == ':'
            && out[19] == '.' && out[23] == 'Z',
        valid_date(
            text::number_of(out.subrange(0, 4)) as int,
            text::number_of(out.subrange(5, 7)) as int,
            text::number_of(out.subrange(8, 10)) as int,
        ),
        day_number(
            text::number_of(out.subrange(0, 4)) as int,
            text::number_of(out.subrange(5, 7)) as int,
            text::number_of(out.subrange(8, 10)) as int,
        ) == seconds / 86_400,
        text::number_of(out.subrange(11, 13)) < 24,
        text::number_of(out.subrange(14, 16)) < 60,
        text::number_of(out.subrange(17, 19)) < 60,
        3_600 * text::number_of(out.subrange(11, 13)) + 60 * text::number_of(
            out.subrange(14, 16),
        ) + text::number_of(out.subrange(17, 19)) == seconds % 86_400,
        text::number_of(out.subrange(20, 23)) == millis,
{
    let m = lemma_moment_of(out, seconds, millis);
    law_padding_keeps_the_number(m.0);
    law_padding_keeps_the_number(m.1);
    law_padding_keeps_the_number(m.2);
    law_padding_keeps_the_number(m.3);
    law_padding_keeps_the_number(m.4);
    law_padding_keeps_the_number(m.5);
    law_padding_keeps_the_number(m.6);
    reveal_strlit("-");
    reveal_strlit("T");
    reveal_strlit(":");
    reveal_strlit(".");
    reveal_strlit("Z");
    let a = padded(m.0, 4);
    let b = padded(m.1, 2);
    let c = padded(m.2, 2);
    let d = padded(m.3, 2);
    let e = padded(m.4, 2);
    let f = padded(m.5, 2);
    let g = padded(m.6, 3);
    lemma_places(a, b, c, d, e, f, g);
    let whole = a + "-"@ + b + "-"@ + c + "T"@ + d + ":"@ + e + ":"@ + f + "."@ + g + "Z"@;
    assert(out == whole);
    let rest = (seconds % 86_400) as int;
    assert(rest % 3_600 % 60 == rest % 60);
}

proof fn lemma_places(
    a: Seq<char>,
    b: Seq<char>,
    c: Seq<char>,
    d: Seq<char>,
    e: Seq<char>,
    f: Seq<char>,
    g: Seq<char>,
)
    requires
        a.len() == 4,
        b.len() == 2,
        c.len() == 2,
        d.len() == 2,
        e.len() == 2,
        f.len() == 2,
        g.len() == 3,
    ensures
        ({
            let out = a + "-"@ + b + "-"@ + c + "T"@ + d + ":"@ + e + ":"@ + f + "."@ + g + "Z"@;
            &&& out.len() == 24
            &&& out.subrange(0, 4) == a && out.subrange(5, 7) == b && out.subrange(8, 10) == c
            &&& out.subrange(11, 13) == d && out.subrange(14, 16) == e && out.subrange(17, 19) == f
            &&& out.subrange(20, 23) == g
            &&& out[4] == '-' && out[7] == '-' && out[10] == 'T' && out[13] == ':'
            &&& out[16] == ':' && out[19] == '.' && out[23] == 'Z'
        }),
{
    reveal_strlit("-");
    reveal_strlit("T");
    reveal_strlit(":");
    reveal_strlit(".");
    reveal_strlit("Z");
    let out = a + "-"@ + b + "-"@ + c + "T"@ + d + ":"@ + e + ":"@ + f + "."@ + g + "Z"@;
    assert(out.subrange(0, 4) =~= a);
    assert(out.subrange(5, 7) =~= b);
    assert(out.subrange(8, 10) =~= c);
    assert(out.subrange(11, 13) =~= d);
    assert(out.subrange(14, 16) =~= e);
    assert(out.subrange(17, 19) =~= f);
    assert(out.subrange(20, 23) =~= g);
}

} // verus!
