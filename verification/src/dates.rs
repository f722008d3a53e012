//! Calendar dates as plain values.  The catalog stores dates in ISO-8601
//! `YYYY-MM-DD` form; this module holds the date type, its validity
//! invariant, ordering, and the codec for that form.

use vstd::prelude::*;

use crate::text::{digit_char, digit_val, spec_digit_val};

verus! {

/// A calendar date.
#[derive(Clone, Copy, PartialEq, Eq, Structural, Debug, Hash)]
pub struct Date {
    pub year: u32,
    pub month: u32,
    pub day: u32,
}

/// Whether `year` is a leap year in the proleptic Gregorian calendar.
pub open spec fn spec_is_leap_year(year: u32) -> bool {
    (year % 4 == 0 && year % 100 != 0) || year % 400 == 0
}

/// The number of days of a month, honouring leap years.
pub open spec fn spec_days_in_month(year: u32, month: u32) -> u32 {
    if month == 2 {
        if spec_is_leap_year(year) {
            29
        } else {
            28
        }
    } else if month == 4 || month == 6 || month == 9 || month == 11 {
        30
    } else {
        31
    }
}

impl Date {
    /// A real calendar date whose ISO form has four year digits.
    pub open spec fn valid(self) -> bool {
        1 <= self.year <= 9999 && 1 <= self.month <= 12 && 1 <= self.day
            <= spec_days_in_month(self.year, self.month)
    }

    /// `self` is on or before `other` in time.
    pub open spec fn spec_le(self, other: Date) -> bool {
        if self.year != other.year {
            self.year < other.year
        } else if self.month != other.month {
            self.month < other.month
        } else {
            self.day <= other.day
        }
    }

    /// Whether `self` is on or before `other` in time.
    pub fn le(&self, other: &Date) -> (r: bool)
        ensures
            r == self.spec_le(*other),
    {
        if self.year != other.year {
            self.year < other.year
        } else if self.month != other.month {
            self.month < other.month
        } else {
            self.day <= other.day
        }
    }
}

/// The earlier of two optional dates, treating absence as no opinion.
pub open spec fn spec_earlier(a: Option<Date>, b: Option<Date>) -> Option<Date> {
    match (a, b) {
        (Some(x), Some(y)) => if y.spec_le(x) {
            Some(y)
        } else {
            Some(x)
        },
        (Some(x), None) => Some(x),
        (None, Some(y)) => Some(y),
        (None, None) => None,
    }
}

/// The earlier of two optional dates.
pub fn earlier_date(a: &Option<Date>, b: &Option<Date>) -> (r: Option<Date>)
    ensures
        r == spec_earlier(*a, *b),
{
    match (a, b) {
        (Some(x), Some(y)) => if y.le(x) {
            Some(*y)
        } else {
            Some(*x)
        },
        (Some(x), None) => Some(*x),
        (None, Some(y)) => Some(*y),
        (None, None) => None,
    }
}

/// Whether `year` is a leap year.
pub fn is_leap_year(year: u32) -> (r: bool)
    ensures
        r == spec_is_leap_year(year),
{
    (year % 4 == 0 && year % 100 != 0) || year % 400 == 0
}

/// The number of days of a month.
pub fn days_in_month(year: u32, month: u32) -> (r: u32)
    ensures
        r == spec_days_in_month(year, month),
{
    if month == 2 {
        if is_leap_year(year) {
            29
        } else {
            28
        }
    } else if month == 4 || month == 6 || month == 9 || month == 11 {
        30
    } else {
        31
    }
}

/// Two decimal digits, the rendering of `n % 100`.
pub open spec fn spec_pad2(n: nat) -> Seq<char> {
    seq![digit_char(n / 10 % 10), digit_char(n % 10)]
}

/// Four decimal digits, the rendering of `n % 10000`.
pub open spec fn spec_pad4(n: nat) -> Seq<char> {
    seq![
        digit_char(n / 1000 % 10),
        digit_char(n / 100 % 10),
        digit_char(n / 10 % 10),
        digit_char(n % 10),
    ]
}

/// The ISO-8601 `YYYY-MM-DD` rendering of a date.
pub open spec fn spec_date_iso(d: Date) -> Seq<char> {
    spec_pad4(d.year as nat) + seq!['-'] + spec_pad2(d.month as nat) + seq!['-'] + spec_pad2(
        d.day as nat,
    )
}

/// A one-character string for a digit value.
fn digit_piece(d: u32) -> (r: &'static str)
    requires
        d < 10,
    ensures
        r@ == seq![digit_char(d as nat)],
{
    let r = match d {
        0 => "0",
        1 => "1",
        2 => "2",
        3 => "3",
        4 => "4",
        5 => "5",
        6 => "6",
        7 => "7",
        8 => "8",
        _ => "9",
    };
    proof {
        reveal_strlit("0");
        reveal_strlit("1");
        reveal_strlit("2");
        reveal_strlit("3");
        reveal_strlit("4");
        reveal_strlit("5");
        reveal_strlit("6");
        reveal_strlit("7");
        reveal_strlit("8");
        reveal_strlit("9");
        assert(r@ =~= seq![digit_char(d as nat)]);
    }
    r
}

/// Renders a date in ISO-8601 `YYYY-MM-DD` form.
pub fn date_to_iso(d: &Date) -> (r: String)
    ensures
        r@ == spec_date_iso(*d),
{
    let mut s = digit_piece(d.year / 1000 % 10).to_owned();
    s.append(digit_piece(d.year / 100 % 10));
    s.append(digit_piece(d.year / 10 % 10));
    s.append(digit_piece(d.year % 10));
    s.append("-");
    s.append(digit_piece(d.month / 10 % 10));
    s.append(digit_piece(d.month % 10));
    s.append("-");
    s.append(digit_piece(d.day / 10 % 10));
    s.append(digit_piece(d.day % 10));
    proof {
        reveal_strlit("-");
        assert(s@ =~= spec_date_iso(*d));
    }
    s
}

/// The date an ISO-8601 `YYYY-MM-DD` text denotes, if it is well-formed and
/// names a real calendar date.
pub open spec fn spec_parse_iso_date(s: Seq<char>) -> Option<Date> {
    if s.len() == 10 && s[4] == '-' && s[7] == '-' && spec_digit_val(s[0]) is Some
        && spec_digit_val(s[1]) is Some && spec_digit_val(s[2]) is Some && spec_digit_val(s[3])
        is Some && spec_digit_val(s[5]) is Some && spec_digit_val(s[6]) is Some && spec_digit_val(
        s[8],
    ) is Some && spec_digit_val(s[9]) is Some {
        let d = Date {
            year: (spec_digit_val(s[0]).unwrap() * 1000 + spec_digit_val(s[1]).unwrap() * 100
                + spec_digit_val(s[2]).unwrap() * 10 + spec_digit_val(s[3]).unwrap()) as u32,
            month: (spec_digit_val(s[5]).unwrap() * 10 + spec_digit_val(s[6]).unwrap()) as u32,
            day: (spec_digit_val(s[8]).unwrap() * 10 + spec_digit_val(s[9]).unwrap()) as u32,
        };
        if d.valid() {
            Some(d)
        } else {
            None
        }
    } else {
        None
    }
}

/// Parses an ISO-8601 `YYYY-MM-DD` text into a date, rejecting malformed
/// text and values that name no real calendar date.
pub fn parse_iso_date(s: &str) -> (r: Option<Date>)
    ensures
        r == spec_parse_iso_date(s@),
{
    if s.unicode_len() != 10 {
        return None;
    }
    if s.get_char(4) != '-' || s.get_char(7) != '-' {
        return None;
    }
    let d0 = digit_val(s.get_char(0));
    let d1 = digit_val(s.get_char(1));
    let d2 = digit_val(s.get_char(2));
    let d3 = digit_val(s.get_char(3));
    let m0 = digit_val(s.get_char(5));
    let m1 = digit_val(s.get_char(6));
    let a0 = digit_val(s.get_char(8));
    let a1 = digit_val(s.get_char(9));
    match (d0, d1, d2, d3, m0, m1, a0, a1) {
        (Some(d0), Some(d1), Some(d2), Some(d3), Some(m0), Some(m1), Some(a0), Some(a1)) => {
            let d = Date {
                year: d0 as u32 * 1000 + d1 as u32 * 100 + d2 as u32 * 10 + d3 as u32,
                month: m0 as u32 * 10 + m1 as u32,
                day: a0 as u32 * 10 + a1 as u32,
            };
            let valid = 1 <= d.year && 1 <= d.month && d.month <= 12 && 1 <= d.day && d.day
                <= days_in_month(d.year, d.month);
            if valid {
                Some(d)
            } else {
                None
            }
        },
        _ => None,
    }
}

} // verus!

verus! {

/// The codec coheres: parsing the ISO rendering of any real calendar date
/// gives that date back.
#[verifier::rlimit(100)]
pub proof fn lemma_date_iso_round_trip(d: Date)
    requires
        d.valid(),
    ensures
        spec_parse_iso_date(spec_date_iso(d)) == Some(d),
{
    let s = spec_date_iso(d);
    assert(s.len() == 10);
    assert(s[0] == digit_char(d.year as nat / 1000 % 10));
    assert(s[1] == digit_char(d.year as nat / 100 % 10));
    assert(s[2] == digit_char(d.year as nat / 10 % 10));
    assert(s[3] == digit_char(d.year as nat % 10));
    assert(s[4] == '-');
    assert(s[5] == digit_char(d.month as nat / 10 % 10));
    assert(s[6] == digit_char(d.month as nat % 10));
    assert(s[7] == '-');
    assert(s[8] == digit_char(d.day as nat / 10 % 10));
    assert(s[9] == digit_char(d.day as nat % 10));
    lemma_digit_char_val(d.year as nat / 1000 % 10);
    lemma_digit_char_val(d.year as nat / 100 % 10);
    lemma_digit_char_val(d.year as nat / 10 % 10);
    lemma_digit_char_val(d.year as nat % 10);
    lemma_digit_char_val(d.month as nat / 10 % 10);
    lemma_digit_char_val(d.month as nat % 10);
    lemma_digit_char_val(d.day as nat / 10 % 10);
    lemma_digit_char_val(d.day as nat % 10);
    lemma_decompose4(d.year as nat);
    lemma_decompose2(d.month as nat);
    lemma_decompose2(d.day as nat);
}

/// A two-digit value is rebuilt from its digits.
proof fn lemma_decompose2(n: nat)
    requires
        n < 100,
    ensures
        n / 10 % 10 * 10 + n % 10 == n,
{
    assert(n / 10 % 10 * 10 + n % 10 == n) by (nonlinear_arith)
        requires
            n < 100,
    ;
}

/// A four-digit value is rebuilt from its digits.
proof fn lemma_decompose4(n: nat)
    requires
        n < 10000,
    ensures
        n / 1000 % 10 * 1000 + n / 100 % 10 * 100 + n / 10 % 10 * 10 + n % 10 == n,
{
    assert(n / 1000 % 10 * 1000 + n / 100 % 10 * 100 + n / 10 % 10 * 10 + n % 10 == n)
        by (nonlinear_arith)
        requires
            n < 10000,
    ;
}

/// Reading a digit character back gives the digit.
proof fn lemma_digit_char_val(n: nat)
    requires
        n < 10,
    ensures
        spec_digit_val(digit_char(n)) == Some(n as u8),
{
}

} // verus!
