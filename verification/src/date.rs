//! Calendar dates and the fixed-width `YYYY-MM-DD` token of the grammar.

use vstd::prelude::*;

verus! {

/// A calendar date with a four-digit year, checked for real existence on
/// the proleptic Gregorian calendar (no 30th of February).
///
/// The fields are public for ease of specification; every `Date` this
/// crate hands out satisfies [`Date::wf`].
#[derive(Clone, Copy, Debug, PartialEq, Eq, Hash, Structural)]
pub struct Date {
    pub year: u32,
    pub month: u32,
    pub day: u32,
}

/// The Gregorian leap-year rule.
pub open spec fn is_leap_year(y: int) -> bool {
    (y % 4 == 0 && y % 100 != 0) || y % 400 == 0
}

/// The number of days of month `m` in year `y`.
pub open spec fn days_in_month(y: int, m: int) -> int {
    if m == 2 {
        if is_leap_year(y) {
            29
        } else {
            28
        }
    } else if m == 4 || m == 6 || m == 9 || m == 11 {
        30
    } else {
        31
    }
}

/// Whether `y-m-d` names a real calendar date that this crate can
/// represent: a proleptic Gregorian date with a four-digit year.
pub open spec fn valid_date(y: int, m: int, d: int) -> bool {
    0 <= y <= 9999 && 1 <= m <= 12 && 1 <= d <= days_in_month(y, m)
}

/// Relies on `chrono::NaiveDate::from_ymd_opt`: for a year of at most four
/// digits (well inside chrono's supported range) it returns `Some` exactly
/// when year, month and day name a real date of the proleptic Gregorian
/// calendar.
#[verifier::external_body]
fn date_exists(year: u32, month: u32, day: u32) -> (r: bool)
    requires
        year <= 9999,
    ensures
        r == valid_date(year as int, month as int, day as int),
{
    chrono::NaiveDate::from_ymd_opt(year as i32, month, day).is_some()
}

impl Date {
    /// The date names a real calendar day.
    pub open spec fn wf(self) -> bool {
        valid_date(self.year as int, self.month as int, self.day as int)
    }

    /// Builds the date `year-month-day`, or `None` when no such calendar
    /// date exists (or the year has more than four digits).
    pub fn from_ymd(year: u32, month: u32, day: u32) -> (r: Option<Date>)
        ensures
            r matches Some(d) ==> d == (Date { year, month, day }) && d.wf(),
            r is Some <==> valid_date(year as int, month as int, day as int),
    {
        if year <= 9999 && date_exists(year, month, day) {
            Some(Date { year, month, day })
        } else {
            None
        }
    }

    /// The canonical ten-character rendering `YYYY-MM-DD` of this date.
    pub fn render(&self) -> (r: String)
        requires
            self.wf(),
        ensures
            r@ == date_chars(*self),
    {
        let y = self.year;
        let m = self.month;
        let d = self.day;
        assert(y / 1000 <= 9 && y / 100 <= 99 && y / 10 <= 999) by (nonlinear_arith)
            requires
                y <= 9999,
        ;
        assert(y / 100 % 10 <= 9 && y / 10 % 10 <= 9 && y % 10 <= 9 && m / 10 <= 9 && m % 10 <= 9
            && d / 10 <= 9 && d % 10 <= 9) by (nonlinear_arith)
            requires
                m <= 12 && d <= 31,
        ;
        let mut out = String::new();
        out.append(digit_str(y / 1000));
        out.append(digit_str(y / 100 % 10));
        out.append(digit_str(y / 10 % 10));
        out.append(digit_str(y % 10));
        out.append(dash_str());
        out.append(digit_str(m / 10));
        out.append(digit_str(m % 10));
        out.append(dash_str());
        out.append(digit_str(d / 10));
        out.append(digit_str(d % 10));
        proof {
            assert(out@ =~= date_chars(*self));
        }
        out
    }
}

/// The value of an ASCII decimal digit, or `-1` for any other character.
pub open spec fn digit_val(c: char) -> int {
    if c == '0' {
        0
    } else if c == '1' {
        1
    } else if c == '2' {
        2
    } else if c == '3' {
        3
    } else if c == '4' {
        4
    } else if c == '5' {
        5
    } else if c == '6' {
        6
    } else if c == '7' {
        7
    } else if c == '8' {
        8
    } else if c == '9' {
        9
    } else {
        -1
    }
}

/// Whether `c` is an ASCII decimal digit.
pub open spec fn is_digit(c: char) -> bool {
    digit_val(c) >= 0
}

/// The ASCII character of the decimal digit `n`.
pub open spec fn digit_char(n: int) -> char {
    if n == 0 {
        '0'
    } else if n == 1 {
        '1'
    } else if n == 2 {
        '2'
    } else if n == 3 {
        '3'
    } else if n == 4 {
        '4'
    } else if n == 5 {
        '5'
    } else if n == 6 {
        '6'
    } else if n == 7 {
        '7'
    } else if n == 8 {
        '8'
    } else {
        '9'
    }
}

/// The digit value of `c`, or `None` when `c` is not a digit.
fn to_digit(c: char) -> (r: Option<u32>)
    ensures
        r matches Some(v) ==> is_digit(c) && v == digit_val(c),
        r is Some <==> is_digit(c),
{
    match c {
        '0' => Some(0),
        '1' => Some(1),
        '2' => Some(2),
        '3' => Some(3),
        '4' => Some(4),
        '5' => Some(5),
        '6' => Some(6),
        '7' => Some(7),
        '8' => Some(8),
        '9' => Some(9),
        _ => None,
    }
}

/// The one-character string of the decimal digit `n`.
fn digit_str(n: u32) -> (r: &'static str)
    requires
        n <= 9,
    ensures
        r@ =~= seq![digit_char(n as int)],
{
    if n == 0 {
        proof {
            reveal_strlit("0");
        }
        "0"
    } else if n == 1 {
        proof {
            reveal_strlit("1");
        }
        "1"
    } else if n == 2 {
        proof {
            reveal_strlit("2");
        }
        "2"
    } else if n == 3 {
        proof {
            reveal_strlit("3");
        }
        "3"
    } else if n == 4 {
        proof {
            reveal_strlit("4");
        }
        "4"
    } else if n == 5 {
        proof {
            reveal_strlit("5");
        }
        "5"
    } else if n == 6 {
        proof {
            reveal_strlit("6");
        }
        "6"
    } else if n == 7 {
        proof {
            reveal_strlit("7");
        }
        "7"
    } else if n == 8 {
        proof {
            reveal_strlit("8");
        }
        "8"
    } else {
        proof {
            reveal_strlit("9");
        }
        "9"
    }
}

/// The one-character string of the date separator.
fn dash_str() -> (r: &'static str)
    ensures
        r@ =~= seq!['-'],
{
    proof {
        reveal_strlit("-");
    }
    "-"
}

/// The canonical ten characters `YYYY-MM-DD` of a date.
pub open spec fn date_chars(d: Date) -> Seq<char> {
    seq![
        digit_char(d.year as int / 1000),
        digit_char(d.year as int / 100 % 10),
        digit_char(d.year as int / 10 % 10),
        digit_char(d.year as int % 10),
        '-',
        digit_char(d.month as int / 10),
        digit_char(d.month as int % 10),
        '-',
        digit_char(d.day as int / 10),
        digit_char(d.day as int % 10),
    ]
}

/// The result of reading a `YYYY-MM-DD` token at position `i` of `s`: the
/// date and the position just past it, or `None` when ten characters are
/// not there, are not digit-and-dash shaped, or name no real calendar
/// date.
pub open spec fn parse_date_at(s: Seq<char>, i: int) -> Option<(Date, int)> {
    if 0 <= i && i + 10 <= s.len() && is_digit(s[i]) && is_digit(s[i + 1]) && is_digit(s[i + 2])
        && is_digit(s[i + 3]) && s[i + 4] == '-' && is_digit(s[i + 5]) && is_digit(s[i + 6]) && s[i
        + 7] == '-' && is_digit(s[i + 8]) && is_digit(s[i + 9]) {
        let y = 1000 * digit_val(s[i]) + 100 * digit_val(s[i + 1]) + 10 * digit_val(s[i + 2])
            + digit_val(s[i + 3]);
        let m = 10 * digit_val(s[i + 5]) + digit_val(s[i + 6]);
        let d = 10 * digit_val(s[i + 8]) + digit_val(s[i + 9]);
        if valid_date(y, m, d) {
            Some((Date { year: y as u32, month: m as u32, day: d as u32 }, i + 10))
        } else {
            None
        }
    } else {
        None
    }
}

/// Reads the `YYYY-MM-DD` token at position `i` of `s`, per
/// [`parse_date_at`]. A token that is not there or names no real date is
/// a grammar non-match, answered with `None`.
pub fn parse_date(s: &str, i: usize) -> (r: Option<(Date, usize)>)
    requires
        i <= s@.len(),
    ensures
        match r {
            Some((d, j)) => {
                &&& parse_date_at(s@, i as int) == Some((d, j as int))
                &&& d.wf()
                &&& j == i + 10 && j <= s@.len()
            },
            None => parse_date_at(s@, i as int) is None,
        },
{
    let n = s.unicode_len();
    if n - i < 10 {
        return None;
    }
    let c0 = to_digit(s.get_char(i));
    let c1 = to_digit(s.get_char(i + 1));
    let c2 = to_digit(s.get_char(i + 2));
    let c3 = to_digit(s.get_char(i + 3));
    let c5 = to_digit(s.get_char(i + 5));
    let c6 = to_digit(s.get_char(i + 6));
    let c8 = to_digit(s.get_char(i + 8));
    let c9 = to_digit(s.get_char(i + 9));
    if s.get_char(i + 4) != '-' || s.get_char(i + 7) != '-' {
        return None;
    }
    match (c0, c1, c2, c3, c5, c6, c8, c9) {
        (
            Some(y0),
            Some(y1),
            Some(y2),
            Some(y3),
            Some(m0),
            Some(m1),
            Some(d0),
            Some(d1),
        ) => {
            let y = 1000 * y0 + 100 * y1 + 10 * y2 + y3;
            let m = 10 * m0 + m1;
            let d = 10 * d0 + d1;
            if date_exists(y, m, d) {
                Some((Date { year: y, month: m, day: d }, i + 10))
            } else {
                None
            }
        },
        _ => None,
    }
}

/// A decimal digit's character reads back as that digit.
pub proof fn lemma_digit_char_val(n: int)
    requires
        0 <= n <= 9,
    ensures
        is_digit(digit_char(n)),
        digit_val(digit_char(n)) == n,
{
}

/// Rendering a date and reading the ten characters back yields the same
/// date: the canonical form round-trips.
pub proof fn lemma_date_round_trip(d: Date)
    requires
        d.wf(),
    ensures
        parse_date_at(date_chars(d), 0) == Some((d, 10int)),
        date_chars(parse_date_at(date_chars(d), 0).unwrap().0) == date_chars(d),
{
    let s = date_chars(d);
    let y = d.year as int;
    let m = d.month as int;
    let dd = d.day as int;
    assert(y / 1000 <= 9 && y / 100 % 10 <= 9 && y / 10 % 10 <= 9 && y % 10 <= 9 && m / 10 <= 9
        && m % 10 <= 9 && dd / 10 <= 9 && dd % 10 <= 9 && y / 1000 >= 0 && y / 100 % 10 >= 0 && y
        / 10 % 10 >= 0 && y % 10 >= 0 && m / 10 >= 0 && m % 10 >= 0 && dd / 10 >= 0 && dd % 10
        >= 0) by (nonlinear_arith)
        requires
            0 <= y <= 9999 && 0 <= m <= 12 && 0 <= dd <= 31,
    ;
    lemma_digit_char_val(y / 1000);
    lemma_digit_char_val(y / 100 % 10);
    lemma_digit_char_val(y / 10 % 10);
    lemma_digit_char_val(y % 10);
    lemma_digit_char_val(m / 10);
    lemma_digit_char_val(m % 10);
    lemma_digit_char_val(dd / 10);
    lemma_digit_char_val(dd % 10);
    assert(1000 * (y / 1000) + 100 * (y / 100 % 10) + 10 * (y / 10 % 10) + y % 10 == y)
        by (nonlinear_arith)
        requires
            0 <= y <= 9999,
    ;
    assert(10 * (m / 10) + m % 10 == m) by (nonlinear_arith)
        requires
            0 <= m <= 12,
    ;
    assert(10 * (dd / 10) + dd % 10 == dd) by (nonlinear_arith)
        requires
            0 <= dd <= 31,
    ;
    assert(1000 * digit_val(s[0]) + 100 * digit_val(s[1]) + 10 * digit_val(s[2]) + digit_val(s[3])
        == y);
    assert(10 * digit_val(s[5]) + digit_val(s[6]) == m);
    assert(10 * digit_val(s[8]) + digit_val(s[9]) == dd);
    assert(parse_date_at(s, 0) == Some((d, 10int)));
}

} // verus!
