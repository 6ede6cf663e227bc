//! The local date and time at which a probe was sent, to the second.

use crate::text::{is_digit, lemma_zero_padded, zero_padded};
use vstd::prelude::*;

verus! {

/// The earliest year a `Timestamp` can hold.
pub const MIN_YEAR: i32 = -262_143;

/// The latest year a `Timestamp` can hold.
pub const MAX_YEAR: i32 = 262_142;

/// A date and a time of day in the proleptic Gregorian calendar, as six
/// numbers. Year 0 is 1 BCE.
pub struct Civil {
    pub year: int,
    pub month: int,
    pub day: int,
    pub hour: int,
    pub minute: int,
    pub second: int,
}

/// Whether `year` has a 29th of February.
pub open spec fn is_leap_year(year: int) -> bool {
    year % 4 == 0 && (year % 100 != 0 || year % 400 == 0)
}

/// The number of days of `month` in `year`.
pub open spec fn days_in_month(year: int, month: int) -> int {
    if month == 2 {
        if is_leap_year(year) {
            29
        } else {
            28
        }
    } else if month == 4 || month == 6 || month == 9 || month == 11 {
        30
    } else {
        31
    }
}

/// Whether the six numbers name a day that exists and a time on it.
pub open spec fn valid_civil(c: Civil) -> bool {
    &&& MIN_YEAR <= c.year <= MAX_YEAR
    &&& 1 <= c.month <= 12
    &&& 1 <= c.day <= days_in_month(c.year, c.month)
    &&& 0 <= c.hour < 24
    &&& 0 <= c.minute < 60
    &&& 0 <= c.second < 60
}

/// The year in at least four digits; a year before 0 or after 9999 carries
/// its sign.
pub open spec fn year_text(year: int) -> Seq<char> {
    if 0 <= year <= 9999 {
        zero_padded(year as nat, 4)
    } else if year < 0 {
        seq!['-'] + zero_padded((-year) as nat, 4)
    } else {
        seq!['+'] + zero_padded(year as nat, 4)
    }
}

/// `YYYY-MM-DD HH:MM:SS`.
pub open spec fn civil_text(c: Civil) -> Seq<char> {
    year_text(c.year) + seq!['-'] + zero_padded(c.month as nat, 2) + seq!['-'] + zero_padded(
        c.day as nat,
        2,
    ) + seq![' '] + zero_padded(c.hour as nat, 2) + seq![':'] + zero_padded(c.minute as nat, 2)
        + seq![':'] + zero_padded(c.second as nat, 2)
}

/// A valid local date and time, to the second.
#[derive(Clone, Copy, Debug, PartialEq, Eq, Structural)]
pub struct Timestamp {
    year: i32,
    month: u32,
    day: u32,
    hour: u32,
    minute: u32,
    second: u32,
}

impl View for Timestamp {
    type V = Civil;

    closed spec fn view(&self) -> Civil {
        Civil {
            year: self.year as int,
            month: self.month as int,
            day: self.day as int,
            hour: self.hour as int,
            minute: self.minute as int,
            second: self.second as int,
        }
    }
}

/// `chrono::NaiveDate::from_ymd_opt`, `NaiveDate::and_hms_opt` and
/// `NaiveDateTime::format` with the pattern `%Y-%m-%d %H:%M:%S`, turned into
/// a `String`. For a day that exists, in a year that chrono can hold, and a
/// time of day without a leap second, both constructors succeed, and the
/// pattern writes the six numbers zero-padded, the year with a sign where it
/// lies outside 0 to 9999.
#[verifier::external_body]
fn chrono_format(year: i32, month: u32, day: u32, hour: u32, minute: u32, second: u32) -> (r:
    String)
    requires
        valid_civil(
            Civil {
                year: year as int,
                month: month as int,
                day: day as int,
                hour: hour as int,
                minute: minute as int,
                second: second as int,
            },
        ),
    ensures
        r@ == civil_text(
            Civil {
                year: year as int,
                month: month as int,
                day: day as int,
                hour: hour as int,
                minute: minute as int,
                second: second as int,
            },
        ),
{
    let date = chrono::NaiveDate::from_ymd_opt(year, month, day).unwrap();
    let at = date.and_hms_opt(hour, minute, second).unwrap();
    at.format("%Y-%m-%d %H:%M:%S").to_string()
}

/// Whether `year` has a 29th of February.
fn leap_year(year: i32) -> (r: bool)
    requires
        MIN_YEAR <= year <= MAX_YEAR,
    ensures
        r == is_leap_year(year as int),
{
    // 262_400 is a multiple of 400, so the shifted year has the same
    // remainders and is not negative.
    let y: i32 = year + 262_400;
    y % 4 == 0 && (y % 100 != 0 || y % 400 == 0)
}

/// The number of days of `month` in `year`.
fn month_length(year: i32, month: u32) -> (r: u32)
    requires
        MIN_YEAR <= year <= MAX_YEAR,
    ensures
        r == days_in_month(year as int, month as int),
{
    if month == 2 {
        if leap_year(year) {
            29
        } else {
            28
        }
    } else if month == 4 || month == 6 || month == 9 || month == 11 {
        30
    } else {
        31
    }
}

impl Timestamp {
    /// Every `Timestamp` names a day that exists and a time on it.
    #[verifier::type_invariant]
    pub open spec fn wf(self) -> bool {
        valid_civil(self@)
    }

    /// The timestamp of the given date and time; `None` where the day does
    /// not exist, a number is out of its range, or the year is outside
    /// `MIN_YEAR` to `MAX_YEAR`.
    pub fn new(year: i32, month: u32, day: u32, hour: u32, minute: u32, second: u32) -> (r: Option<
        Timestamp,
    >)
        ensures
            r is Some <==> valid_civil(
                Civil {
                    year: year as int,
                    month: month as int,
                    day: day as int,
                    hour: hour as int,
                    minute: minute as int,
                    second: second as int,
                },
            ),
            r matches Some(t) ==> t.wf() && t@ == (Civil {
                year: year as int,
                month: month as int,
                day: day as int,
                hour: hour as int,
                minute: minute as int,
                second: second as int,
            }),
    {
        if year < MIN_YEAR || year > MAX_YEAR || month < 1 || month > 12 || day < 1 || hour >= 24
            || minute >= 60 || second >= 60 {
            return None;
        }
        if day > month_length(year, month) {
            return None;
        }
        Some(Timestamp { year, month, day, hour, minute, second })
    }

    /// The timestamp as `YYYY-MM-DD HH:MM:SS`.
    pub fn format(&self) -> (r: String)
        ensures
            r@ == civil_text(self@),
    {
        proof {
            use_type_invariant(self);
        }
        chrono_format(self.year, self.month, self.day, self.hour, self.minute, self.second)
    }
}

/// Whether `x` is a character that a rendered date and time can hold: a
/// digit, a hyphen, a colon, a space or a plus sign.
pub open spec fn is_stamp_char(x: char) -> bool {
    is_digit(x) || x == '-' || x == '+' || x == ' ' || x == ':'
}

/// Whether `s` holds no other characters than those of a rendered date and
/// time.
pub open spec fn is_stamp_text(s: Seq<char>) -> bool {
    forall|i: int| 0 <= i < s.len() ==> is_stamp_char(#[trigger] s[i])
}

/// Two such texts, one after the other, are such a text.
proof fn lemma_stamp_text_concat(a: Seq<char>, b: Seq<char>)
    requires
        is_stamp_text(a),
        is_stamp_text(b),
    ensures
        is_stamp_text(a + b),
{
    assert forall|i: int| 0 <= i < (a + b).len() implies is_stamp_char(#[trigger] (a + b)[i]) by {
        if i < a.len() {
            assert((a + b)[i] == a[i]);
        } else {
            assert((a + b)[i] == b[i - a.len()]);
        }
    }
}

/// A zero-padded numeral is such a text.
proof fn lemma_stamp_number(n: nat, width: nat)
    ensures
        is_stamp_text(zero_padded(n, width)),
{
    lemma_zero_padded(n, width);
}

/// A rendered year is such a text.
proof fn lemma_stamp_year(year: int)
    ensures
        is_stamp_text(year_text(year)),
{
    if 0 <= year <= 9999 {
        lemma_stamp_number(year as nat, 4);
    } else if year < 0 {
        lemma_stamp_number((-year) as nat, 4);
        lemma_stamp_text_concat(seq!['-'], zero_padded((-year) as nat, 4));
    } else {
        lemma_stamp_number(year as nat, 4);
        lemma_stamp_text_concat(seq!['+'], zero_padded(year as nat, 4));
    }
}

/// A rendered date and time holds digits, hyphens, colons, one space and,
/// for a year outside 0 to 9999, a plus sign: no other character.
pub proof fn lemma_civil_text_chars(c: Civil)
    ensures
        is_stamp_text(civil_text(c)),
{
    let t0 = year_text(c.year);
    let t1 = t0 + seq!['-'];
    let t2 = t1 + zero_padded(c.month as nat, 2);
    let t3 = t2 + seq!['-'];
    let t4 = t3 + zero_padded(c.day as nat, 2);
    let t5 = t4 + seq![' '];
    let t6 = t5 + zero_padded(c.hour as nat, 2);
    let t7 = t6 + seq![':'];
    let t8 = t7 + zero_padded(c.minute as nat, 2);
    let t9 = t8 + seq![':'];
    lemma_stamp_year(c.year);
    lemma_stamp_number(c.month as nat, 2);
    lemma_stamp_number(c.day as nat, 2);
    lemma_stamp_number(c.hour as nat, 2);
    lemma_stamp_number(c.minute as nat, 2);
    lemma_stamp_number(c.second as nat, 2);
    lemma_stamp_text_concat(t0, seq!['-']);
    lemma_stamp_text_concat(t1, zero_padded(c.month as nat, 2));
    lemma_stamp_text_concat(t2, seq!['-']);
    lemma_stamp_text_concat(t3, zero_padded(c.day as nat, 2));
    lemma_stamp_text_concat(t4, seq![' ']);
    lemma_stamp_text_concat(t5, zero_padded(c.hour as nat, 2));
    lemma_stamp_text_concat(t6, seq![':']);
    lemma_stamp_text_concat(t7, zero_padded(c.minute as nat, 2));
    lemma_stamp_text_concat(t8, seq![':']);
    lemma_stamp_text_concat(t9, zero_padded(c.second as nat, 2));
}

} // verus!
