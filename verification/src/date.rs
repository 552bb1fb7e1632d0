//! Calendar dates.
//!
//! The metadata pipeline only ever reads a date as its year, month and day,
//! so the library holds dates in a plain record of those three numbers with
//! a validity invariant. The current date comes from the clock through a
//! trusted wrapper; everything else — the strict `YYYY-MM-DD` input grammar
//! and both output formats — is verified here.

use vstd::prelude::*;

use crate::strutil::{dec_str, digit_char, push_char, u32_dec_string};
use chrono::Datelike;

verus! {

pub open spec fn is_leap_year(y: int) -> bool {
    y % 4 == 0 && (y % 100 != 0 || y % 400 == 0)
}

pub open spec fn days_in_month(y: int, m: int) -> int {
    if m == 2 {
        if is_leap_year(y) {
            29
        } else {
            28
        }
    } else if m == 4 || m == 6 || m == 9 || m == 11 {
        30
    } else {
        31
    }
}

/// A real calendar date within the years this library can format.
pub open spec fn valid_date(y: int, m: int, d: int) -> bool {
    &&& 0 <= y <= 9999
    &&& 1 <= m <= 12
    &&& 1 <= d <= days_in_month(y, m)
}

#[derive(Clone, Copy, PartialEq, Eq, Structural, Debug)]
pub struct Date {
    pub year: u16,
    pub month: u8,
    pub day: u8,
}

impl Date {
    pub open spec fn wf(self) -> bool {
        valid_date(self.year as int, self.month as int, self.day as int)
    }

    /// Whether the fields name a real calendar date.
    pub fn is_valid(&self) -> (r: bool)
        ensures
            r == self.wf(),
    {
        self.year <= 9999 && 1 <= self.month && self.month <= 12 && 1 <= self.day
            && self.day as u16 <= days_in_month_exec(self.year, self.month)
    }

    /// Today's date in UTC, clamped to the representable years.
    pub fn today() -> (r: Date)
        ensures
            r.wf(),
    {
        let (y, m, d) = today_utc_raw();
        if 0 <= y && y <= 9999 {
            Date { year: y as u16, month: m, day: d }
        } else if y < 0 {
            Date { year: 0, month: 1, day: 1 }
        } else {
            Date { year: 9999, month: 12, day: 31 }
        }
    }

    /// `YYYY-MM-DD`.
    pub fn format_iso(&self) -> (r: String)
        requires
            self.wf(),
        ensures
            r@ == iso_of(*self),
    {
        let mut out = pad4(self.year);
        push_char(&mut out, '-');
        let mm = pad2(self.month);
        out.append(mm.as_str());
        push_char(&mut out, '-');
        let dd = pad2(self.day);
        out.append(dd.as_str());
        assert(out@ =~= iso_of(*self));
        out
    }

    /// `D Month YYYY`, with the day unpadded.
    pub fn format_human(&self) -> (r: String)
        requires
            self.wf(),
        ensures
            r@ == human_of(*self),
    {
        let mut out = u32_dec_string(self.day as u32);
        push_char(&mut out, ' ');
        out.append(month_name(self.month));
        push_char(&mut out, ' ');
        let yy = pad4(self.year);
        out.append(yy.as_str());
        assert(out@ =~= human_of(*self));
        out
    }
}

/// Relies on chrono's `Utc::now` and `NaiveDate` (with its `Datelike`
/// accessors): the result is the current date in UTC, and a `NaiveDate`
/// can only hold a real calendar date, so the month is 1..=12 and the day
/// is valid for that month and year.
#[verifier::external_body]
fn today_utc_raw() -> (r: (i32, u8, u8))
    ensures
        1 <= r.1 <= 12,
        1 <= r.2,
        r.2 as int <= days_in_month(r.0 as int, r.1 as int),
{
    let date = chrono::offset::Utc::now().naive_utc().date();
    (date.year(), date.month() as u8, date.day() as u8)
}

pub open spec fn is_digit_c(c: char) -> bool {
    48 <= c as u32 && c as u32 <= 57
}

pub open spec fn digit_val(c: char) -> int {
    c as u32 - 48
}

/// Exactly four digits, a dash, two digits, a dash, two digits.
pub open spec fn date_format_ok(s: Seq<char>) -> bool {
    &&& s.len() == 10
    &&& is_digit_c(s[0]) && is_digit_c(s[1]) && is_digit_c(s[2]) && is_digit_c(s[3])
    &&& s[4] == '-'
    &&& is_digit_c(s[5]) && is_digit_c(s[6])
    &&& s[7] == '-'
    &&& is_digit_c(s[8]) && is_digit_c(s[9])
}

pub open spec fn year_num(s: Seq<char>) -> int {
    digit_val(s[0]) * 1000 + digit_val(s[1]) * 100 + digit_val(s[2]) * 10 + digit_val(s[3])
}

pub open spec fn month_num(s: Seq<char>) -> int {
    digit_val(s[5]) * 10 + digit_val(s[6])
}

pub open spec fn day_num(s: Seq<char>) -> int {
    digit_val(s[8]) * 10 + digit_val(s[9])
}

/// What the date value parser accepts: the sentinel `now`, or a strict
/// `YYYY-MM-DD` naming a real calendar date.
pub open spec fn spec_parse_date(s: Seq<char>, today: Date) -> Option<Date> {
    if s == "now"@ {
        Some(today)
    } else if date_format_ok(s) && valid_date(year_num(s), month_num(s), day_num(s)) {
        Some(Date { year: year_num(s) as u16, month: month_num(s) as u8, day: day_num(s) as u8 })
    } else {
        None
    }
}

fn digit_of(s: &str, i: usize) -> (r: Option<u16>)
    requires
        i < s@.len(),
    ensures
        match r {
            Some(d) => is_digit_c(s@[i as int]) && d == digit_val(s@[i as int]) && d < 10,
            None => !is_digit_c(s@[i as int]),
        },
{
    let u = s.get_char(i) as u32;
    if 48 <= u && u <= 57 {
        Some((u - 48) as u16)
    } else {
        None
    }
}

/// Parses a date value, resolving the sentinel `now` to the given date.
pub fn parse_date_with_today(val: &str, today: Date) -> (r: Option<Date>)
    requires
        today.wf(),
    ensures
        r == spec_parse_date(val@, today),
        r matches Some(d) ==> d.wf(),
{
    if crate::strutil::str_eq(val, "now") {
        return Some(today);
    }
    if val.unicode_len() != 10 {
        return None;
    }
    if val.get_char(4) != '-' || val.get_char(7) != '-' {
        return None;
    }
    let d0 = digit_of(val, 0);
    let d1 = digit_of(val, 1);
    let d2 = digit_of(val, 2);
    let d3 = digit_of(val, 3);
    let d5 = digit_of(val, 5);
    let d6 = digit_of(val, 6);
    let d8 = digit_of(val, 8);
    let d9 = digit_of(val, 9);
    match (d0, d1, d2, d3, d5, d6, d8, d9) {
        (
            Some(d0),
            Some(d1),
            Some(d2),
            Some(d3),
            Some(d5),
            Some(d6),
            Some(d8),
            Some(d9),
        ) => {
            let y: u16 = d0 * 1000 + d1 * 100 + d2 * 10 + d3;
            let m: u8 = (d5 * 10 + d6) as u8;
            let d: u8 = (d8 * 10 + d9) as u8;
            if 1 <= m && m <= 12 && 1 <= d && d as u16 <= days_in_month_exec(y, m) {
                Some(Date { year: y, month: m, day: d })
            } else {
                None
            }
        },
        _ => None,
    }
}

/// The date parser, with the sentinel `now` resolved against the clock.
pub fn parse_date(val: &str) -> (r: Option<Date>)
    ensures
        exists|t: Date| #[trigger] t.wf() && r == spec_parse_date(val@, t),
        r matches Some(d) ==> d.wf(),
{
    let today = Date::today();
    let r = parse_date_with_today(val, today);
    proof {
        assert(today.wf() && r == spec_parse_date(val@, today));
    }
    r
}

fn days_in_month_exec(y: u16, m: u8) -> (r: u16)
    ensures
        r as int == days_in_month(y as int, m as int),
{
    if m == 2 {
        if (y % 4 == 0) && (y % 100 != 0 || y % 400 == 0) {
            29
        } else {
            28
        }
    } else if m == 4 || m == 6 || m == 9 || m == 11 {
        30
    } else {
        31
    }
}

pub open spec fn pad2_spec(n: nat) -> Seq<char> {
    seq![digit_char(n / 10 % 10), digit_char(n % 10)]
}

pub open spec fn pad4_spec(n: nat) -> Seq<char> {
    seq![
        digit_char(n / 1000 % 10),
        digit_char(n / 100 % 10),
        digit_char(n / 10 % 10),
        digit_char(n % 10),
    ]
}

pub open spec fn iso_of(d: Date) -> Seq<char> {
    pad4_spec(d.year as nat) + seq!['-'] + pad2_spec(d.month as nat) + seq!['-'] + pad2_spec(
        d.day as nat,
    )
}

pub open spec fn human_of(d: Date) -> Seq<char> {
    dec_str(d.day as nat) + seq![' '] + month_name_spec(d.month as nat) + seq![' '] + pad4_spec(
        d.year as nat,
    )
}

fn digit_char_exec(d: u16) -> (r: char)
    requires
        d < 10,
    ensures
        r == digit_char(d as nat),
{
    (48 + (d as u8)) as char
}

fn pad2(n: u8) -> (r: String)
    ensures
        r@ == pad2_spec(n as nat),
{
    let mut out = String::new();
    push_char(&mut out, digit_char_exec((n as u16 / 10) % 10));
    push_char(&mut out, digit_char_exec(n as u16 % 10));
    assert(out@ =~= pad2_spec(n as nat));
    out
}

fn pad4(n: u16) -> (r: String)
    ensures
        r@ == pad4_spec(n as nat),
{
    let mut out = String::new();
    push_char(&mut out, digit_char_exec((n / 1000) % 10));
    push_char(&mut out, digit_char_exec((n / 100) % 10));
    push_char(&mut out, digit_char_exec((n / 10) % 10));
    push_char(&mut out, digit_char_exec(n % 10));
    assert(out@ =~= pad4_spec(n as nat));
    out
}

pub open spec fn month_name_spec(m: nat) -> Seq<char> {
    if m == 1 {
        "January"@
    } else if m == 2 {
        "February"@
    } else if m == 3 {
        "March"@
    } else if m == 4 {
        "April"@
    } else if m == 5 {
        "May"@
    } else if m == 6 {
        "June"@
    } else if m == 7 {
        "July"@
    } else if m == 8 {
        "August"@
    } else if m == 9 {
        "September"@
    } else if m == 10 {
        "October"@
    } else if m == 11 {
        "November"@
    } else {
        "December"@
    }
}

pub fn month_name(m: u8) -> (r: &'static str)
    requires
        1 <= m <= 12,
    ensures
        r@ == month_name_spec(m as nat),
{
    if m == 1 {
        "January"
    } else if m == 2 {
        "February"
    } else if m == 3 {
        "March"
    } else if m == 4 {
        "April"
    } else if m == 5 {
        "May"
    } else if m == 6 {
        "June"
    } else if m == 7 {
        "July"
    } else if m == 8 {
        "August"
    } else if m == 9 {
        "September"
    } else if m == 10 {
        "October"
    } else if m == 11 {
        "November"
    } else {
        "December"
    }
}

} // verus!
