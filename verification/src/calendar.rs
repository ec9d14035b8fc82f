//! UTC calendar dates of Unix timestamps (proleptic Gregorian calendar,
//! years 1970 to 9999), and their "YYYY-MM-DD HH:MM:SS" text.

use vstd::prelude::*;
use crate::text::{collect_chars, digit_char};

verus! {

/// Whether `y` is a leap year of the Gregorian calendar.
pub open spec fn is_leap(y: int) -> bool {
    y % 4 == 0 && (y % 100 != 0 || y % 400 == 0)
}

/// Days in year `y`.
pub open spec fn year_days(y: int) -> int {
    if is_leap(y) {
        366
    } else {
        365
    }
}

/// Days in month `m` (1 to 12) of year `y`.
pub open spec fn month_days(y: int, m: int) -> int {
    if m == 2 {
        if is_leap(y) {
            29
        } else {
            28
        }
    } else if m == 4 || m == 6 || m == 9 || m == 11 {
        30
    } else {
        31
    }
}

/// Days from 1970-01-01 to the first day of year `y` (for `y` >= 1970).
pub open spec fn days_before_year(y: int) -> int
    decreases y - 1970,
{
    if y <= 1970 {
        0
    } else {
        days_before_year(y - 1) + year_days(y - 1)
    }
}

/// Days from the first day of year `y` to the first day of month `m`.
pub open spec fn days_before_month(y: int, m: int) -> int
    decreases m,
{
    if m <= 1 {
        0
    } else {
        days_before_month(y, m - 1) + month_days(y, m - 1)
    }
}

/// Days before year `y` are at most 366 for each year since 1970.
pub proof fn lemma_days_before_year_bound(y: int)
    requires
        y >= 1970,
    ensures
        0 <= days_before_year(y) <= (y - 1970) * 366,
    decreases y - 1970,
{
    if y > 1970 {
        lemma_days_before_year_bound(y - 1);
    }
}

/// The first second of year 10000: the timestamps from there on have no
/// four-digit year.
pub open spec fn end_of_year_9999() -> int {
    days_before_year(10000) * 86400
}

proof fn lemma_days_before_year_grows(a: int, b: int)
    requires
        1970 <= a <= b,
    ensures
        days_before_year(a) <= days_before_year(b),
    decreases b - a,
{
    if a < b {
        lemma_days_before_year_grows(a, b - 1);
    }
}

/// Timestamps from the year 10000 on are far below the largest `u64`.
pub proof fn lemma_end_of_year_9999_bound()
    ensures
        end_of_year_9999() <= 8030 * 366 * 86400,
{
    lemma_days_before_year_bound(10000);
}

/// A UTC date and time of day.
#[derive(Clone, Copy, Debug, PartialEq, Eq)]
pub struct UtcDateTime {
    pub year: u64,
    pub month: u64,
    pub day: u64,
    pub hour: u64,
    pub minute: u64,
    pub second: u64,
}

impl UtcDateTime {
    /// A real date of the years 1970 to 9999 and a real time of day.
    pub open spec fn valid(self) -> bool {
        &&& 1970 <= self.year <= 9999
        &&& 1 <= self.month <= 12
        &&& 1 <= self.day <= month_days(self.year as int, self.month as int)
        &&& self.hour < 24
        &&& self.minute < 60
        &&& self.second < 60
    }

    /// Seconds from 1970-01-01 00:00:00 UTC to this moment.
    pub open spec fn epoch_seconds(self) -> int {
        (days_before_year(self.year as int) + days_before_month(self.year as int, self.month as int)
            + self.day - 1) * 86400 + self.hour * 3600 + self.minute * 60 + self.second
    }
}

/// Two decimal digits of `n` (below 100).
pub open spec fn two_digits(n: int) -> Seq<char> {
    seq![digit_char(n / 10), digit_char(n % 10)]
}

/// Four decimal digits of `n` (below 10000).
pub open spec fn four_digits(n: int) -> Seq<char> {
    two_digits(n / 100) + two_digits(n % 100)
}

/// "YYYY-MM-DD HH:MM:SS".
pub open spec fn datetime_text(t: UtcDateTime) -> Seq<char> {
    four_digits(t.year as int) + seq!['-'] + two_digits(t.month as int) + seq!['-'] + two_digits(
        t.day as int,
    ) + seq![' '] + two_digits(t.hour as int) + seq![':'] + two_digits(t.minute as int) + seq![':']
        + two_digits(t.second as int)
}

fn is_leap_year(y: u64) -> (r: bool)
    ensures
        r == is_leap(y as int),
{
    y % 4 == 0 && (y % 100 != 0 || y % 400 == 0)
}

fn days_in_year(y: u64) -> (r: u64)
    ensures
        r == year_days(y as int),
{
    if is_leap_year(y) {
        366
    } else {
        365
    }
}

fn days_in_month(y: u64, m: u64) -> (r: u64)
    ensures
        r == month_days(y as int, m as int),
{
    if m == 2 {
        if is_leap_year(y) {
            29
        } else {
            28
        }
    } else if m == 4 || m == 6 || m == 9 || m == 11 {
        30
    } else {
        31
    }
}

proof fn lemma_year_is_its_months(y: int)
    ensures
        days_before_month(y, 12) + month_days(y, 12) == year_days(y),
{
    reveal_with_fuel(days_before_month, 13);
}

/// The UTC date and time of the Unix timestamp `t`; `None` from the year
/// 10000 on.
pub fn utc_datetime(t: u64) -> (r: Option<UtcDateTime>)
    ensures
        match r {
            Some(d) => d.valid() && d.epoch_seconds() == t && t < end_of_year_9999(),
            None => t >= end_of_year_9999(),
        },
{
    let all_days = t / 86400;
    let secs = t % 86400;
    let mut days = all_days;
    let mut y: u64 = 1970;
    while y < 10000 && days >= days_in_year(y)
        invariant
            1970 <= y <= 10000,
            days <= all_days,
            days_before_year(y as int) + days == all_days,
        decreases days,
    {
        days = days - days_in_year(y);
        y = y + 1;
    }
    if y == 10000 {
        assert(all_days >= days_before_year(10000));
        assert(t >= end_of_year_9999()) by (nonlinear_arith)
            requires
                all_days == t / 86400,
                all_days >= days_before_year(10000),
                end_of_year_9999() == days_before_year(10000) * 86400,
        ;
        return None;
    }
    proof {
        lemma_days_before_year_grows(y as int + 1, 10000);
        assert(all_days < days_before_year(10000));
        assert(t < end_of_year_9999()) by (nonlinear_arith)
            requires
                all_days == t / 86400,
                all_days < days_before_year(10000),
                end_of_year_9999() == days_before_year(10000) * 86400,
        ;
    }
    let ghost in_year = days;
    let mut m: u64 = 1;
    while m < 12 && days >= days_in_month(y, m)
        invariant
            1 <= m <= 12,
            days <= in_year,
            days_before_month(y as int, m as int) + days == in_year,
            in_year < year_days(y as int),
        decreases days,
    {
        days = days - days_in_month(y, m);
        m = m + 1;
    }
    proof {
        if m == 12 {
            lemma_year_is_its_months(y as int);
        }
    }
    let d = UtcDateTime {
        year: y,
        month: m,
        day: days + 1,
        hour: secs / 3600,
        minute: secs % 3600 / 60,
        second: secs % 60,
    };
    assert(t == all_days * 86400 + secs) by (nonlinear_arith)
        requires
            all_days == t / 86400,
            secs == t % 86400,
    ;
    assert(secs == (secs / 3600) * 3600 + (secs % 3600 / 60) * 60 + secs % 60) by (nonlinear_arith)
        requires
            secs < 86400,
    ;
    assert(secs / 3600 < 24) by (nonlinear_arith)
        requires
            secs < 86400,
    ;
    Some(d)
}

fn push_two_digits(s: &mut String, n: u64)
    requires
        n < 100,
    ensures
        final(s)@ == old(s)@ + two_digits(n as int),
{
    let hi: u8 = (n / 10) as u8;
    let lo: u8 = (n % 10) as u8;
    s.push((hi + 48) as char);
    s.push((lo + 48) as char);
    assert(final(s)@ =~= old(s)@ + two_digits(n as int));
}

/// Appends "YYYY-MM-DD HH:MM:SS" of `t` to `s`.
pub fn push_datetime(s: &mut String, t: &UtcDateTime)
    requires
        t.valid(),
    ensures
        final(s)@ == old(s)@ + datetime_text(*t),
{
    let ghost start = s@;
    push_two_digits(s, t.year / 100);
    push_two_digits(s, t.year % 100);
    s.push('-');
    push_two_digits(s, t.month);
    s.push('-');
    push_two_digits(s, t.day);
    s.push(' ');
    push_two_digits(s, t.hour);
    s.push(':');
    push_two_digits(s, t.minute);
    s.push(':');
    push_two_digits(s, t.second);
    assert(s@ =~= start + datetime_text(*t));
}

/// Whether `c` is an ASCII decimal digit.
pub open spec fn is_dec_digit(c: char) -> bool {
    '0' <= c <= '9'
}

/// The value of a decimal digit character.
pub open spec fn digit_value(c: char) -> int {
    (c as int) - 48
}

/// Whether `s` has the shape "DDDD-DD-DD DD:DD:DD".
pub open spec fn datetime_shape(s: Seq<char>) -> bool {
    &&& s.len() == 19
    &&& s[4] == '-' && s[7] == '-' && s[10] == ' ' && s[13] == ':' && s[16] == ':'
    &&& forall|i: int|
        0 <= i < 19 && i != 4 && i != 7 && i != 10 && i != 13 && i != 16 ==> is_dec_digit(
            #[trigger] s[i],
        )
}

/// The value of the two digits of `s` at `i`.
pub open spec fn two_at(s: Seq<char>, i: int) -> int {
    digit_value(s[i]) * 10 + digit_value(s[i + 1])
}

/// The date and time fields written in a text of that shape.
pub open spec fn fields_of(s: Seq<char>) -> UtcDateTime {
    UtcDateTime {
        year: (two_at(s, 0) * 100 + two_at(s, 2)) as u64,
        month: two_at(s, 5) as u64,
        day: two_at(s, 8) as u64,
        hour: two_at(s, 11) as u64,
        minute: two_at(s, 14) as u64,
        second: two_at(s, 17) as u64,
    }
}

/// `text` is "YYYY-MM-DD HH:MM:SS" of the valid date and time `d`.
pub open spec fn denotes(text: Seq<char>, d: UtcDateTime) -> bool {
    d.valid() && datetime_text(d) == text
}

proof fn lemma_digit_char_value(k: int)
    requires
        0 <= k < 10,
    ensures
        is_dec_digit(digit_char(k)),
        digit_value(digit_char(k)) == k,
{
}

proof fn lemma_value_digit_char(c: char)
    requires
        is_dec_digit(c),
    ensures
        0 <= digit_value(c) < 10,
        digit_char(digit_value(c)) == c,
{
}

proof fn lemma_two_digits_back(s: Seq<char>, i: int, n: int)
    requires
        0 <= n < 100,
        0 <= i,
        i + 2 <= s.len(),
        s.subrange(i, i + 2) == two_digits(n),
    ensures
        is_dec_digit(s[i]) && is_dec_digit(s[i + 1]),
        two_at(s, i) == n,
{
    assert(s[i] == s.subrange(i, i + 2)[0]);
    assert(s[i + 1] == s.subrange(i, i + 2)[1]);
    lemma_digit_char_value(n / 10);
    lemma_digit_char_value(n % 10);
}

/// A text that denotes a date and time has the shape, and the fields it
/// writes are that date and time.
proof fn lemma_denotes_fields(text: Seq<char>, d: UtcDateTime)
    requires
        denotes(text, d),
    ensures
        datetime_shape(text),
        fields_of(text) == d,
{
    let y = d.year as int;
    let t = datetime_text(d);
    assert(t.len() == 19);
    assert(t.subrange(0, 2) =~= two_digits(y / 100));
    assert(t.subrange(2, 4) =~= two_digits(y % 100));
    assert(t.subrange(5, 7) =~= two_digits(d.month as int));
    assert(t.subrange(8, 10) =~= two_digits(d.day as int));
    assert(t.subrange(11, 13) =~= two_digits(d.hour as int));
    assert(t.subrange(14, 16) =~= two_digits(d.minute as int));
    assert(t.subrange(17, 19) =~= two_digits(d.second as int));
    lemma_two_digits_back(t, 0, y / 100);
    lemma_two_digits_back(t, 2, y % 100);
    lemma_two_digits_back(t, 5, d.month as int);
    lemma_two_digits_back(t, 8, d.day as int);
    lemma_two_digits_back(t, 11, d.hour as int);
    lemma_two_digits_back(t, 14, d.minute as int);
    lemma_two_digits_back(t, 17, d.second as int);
    assert(t[4] == '-' && t[7] == '-' && t[10] == ' ' && t[13] == ':' && t[16] == ':');
    assert((y / 100) * 100 + y % 100 == y);
}

/// A text denotes at most one date and time.
pub proof fn lemma_denotes_unique(text: Seq<char>, d: UtcDateTime, e: UtcDateTime)
    requires
        denotes(text, d),
        denotes(text, e),
    ensures
        d == e,
{
    lemma_denotes_fields(text, d);
    lemma_denotes_fields(text, e);
}

/// A text of the shape whose fields make a valid date and time denotes it.
proof fn lemma_fields_denote(text: Seq<char>)
    requires
        datetime_shape(text),
        fields_of(text).valid(),
    ensures
        denotes(text, fields_of(text)),
{
    let d = fields_of(text);
    let y = d.year as int;
    assert forall|i: int|
        0 <= i < 19 && i != 4 && i != 7 && i != 10 && i != 13 && i != 16 implies 0 <= digit_value(
        #[trigger] text[i],
    ) < 10 && digit_char(digit_value(text[i])) == text[i] by {
        lemma_value_digit_char(text[i]);
    }
    assert(y / 100 == two_at(text, 0));
    assert(y % 100 == two_at(text, 2));
    assert(datetime_text(d) =~= text);
}

/// The value of the digit at `i`, if it is a digit.
fn digit_at(cs: &Vec<char>, i: usize) -> (r: Option<u64>)
    requires
        i < cs@.len(),
    ensures
        match r {
            Some(v) => is_dec_digit(cs@[i as int]) && v == digit_value(cs@[i as int]) && v < 10,
            None => !is_dec_digit(cs@[i as int]),
        },
{
    let c = cs[i];
    if '0' <= c && c <= '9' {
        Some((c as u32 - 48) as u64)
    } else {
        None
    }
}

/// Reads "YYYY-MM-DD HH:MM:SS" (UTC): the date and time it writes, when it
/// is a real date of the years 1970 to 9999 and a real time of day.
pub fn parse_datetime_text(text: &str) -> (r: Option<UtcDateTime>)
    ensures
        match r {
            Some(d) => denotes(text@, d) && d.valid(),
            None => forall|d: UtcDateTime| !#[trigger] denotes(text@, d),
        },
{
    let cs = collect_chars(text);
    let ghost s = text@;
    if cs.len() != 19 || cs[4] != '-' || cs[7] != '-' || cs[10] != ' ' || cs[13] != ':' || cs[16]
        != ':' {
        proof {
            assert forall|d: UtcDateTime| !#[trigger] denotes(s, d) by {
                if denotes(s, d) {
                    lemma_denotes_fields(s, d);
                }
            }
        }
        return None;
    }
    let mut v: Vec<u64> = Vec::new();
    let mut i: usize = 0;
    while i < 19
        invariant
            cs@ == s,
            s == text@,
            s.len() == 19,
            i <= 19,
            v@.len() == i,
            forall|k: int| 0 <= k < i ==> #[trigger] v@[k] < 10,
            forall|k: int|
                0 <= k < i && k != 4 && k != 7 && k != 10 && k != 13 && k != 16 ==> is_dec_digit(
                    #[trigger] s[k],
                ) && v@[k] == digit_value(s[k]),
        decreases 19 - i,
    {
        if i == 4 || i == 7 || i == 10 || i == 13 || i == 16 {
            v.push(0);
        } else {
            match digit_at(&cs, i) {
                Some(x) => {
                    v.push(x);
                },
                None => {
                    proof {
                        let j = i as int;
                        assert(!is_dec_digit(s[j]));
                        assert forall|d: UtcDateTime| !#[trigger] denotes(s, d) by {
                            if denotes(s, d) {
                                lemma_denotes_fields(s, d);
                                assert(j != 4 && j != 7 && j != 10 && j != 13 && j != 16);
                                assert(is_dec_digit(s[j]));
                            }
                        }
                    }
                    return None;
                },
            }
        }
        i = i + 1;
    }
    assert(datetime_shape(s));
    let d = UtcDateTime {
        year: (v[0] * 10 + v[1]) * 100 + v[2] * 10 + v[3],
        month: v[5] * 10 + v[6],
        day: v[8] * 10 + v[9],
        hour: v[11] * 10 + v[12],
        minute: v[14] * 10 + v[15],
        second: v[17] * 10 + v[18],
    };
    assert(d == fields_of(s));
    let ok = 1970 <= d.year && d.year <= 9999 && 1 <= d.month && d.month <= 12 && 1 <= d.day
        && d.day <= days_in_month(d.year, d.month) && d.hour < 24 && d.minute < 60 && d.second
        < 60;
    if ok {
        proof {
            lemma_fields_denote(s);
        }
        Some(d)
    } else {
        proof {
            assert forall|e: UtcDateTime| !#[trigger] denotes(s, e) by {
                if denotes(s, e) {
                    lemma_denotes_fields(s, e);
                }
            }
        }
        None
    }
}

/// Seconds from 1970-01-01 00:00:00 UTC to the valid date and time `d`.
pub fn epoch_secs(d: &UtcDateTime) -> (r: u64)
    requires
        d.valid(),
    ensures
        r == d.epoch_seconds(),
{
    let mut days: u64 = 0;
    let mut y: u64 = 1970;
    while y < d.year
        invariant
            1970 <= y <= d.year <= 9999,
            days == days_before_year(y as int),
            days <= (y - 1970) * 366,
        decreases d.year - y,
    {
        days = days + days_in_year(y);
        y = y + 1;
    }
    let mut m: u64 = 1;
    let mut in_year: u64 = 0;
    while m < d.month
        invariant
            1 <= m <= d.month <= 12,
            in_year == days_before_month(d.year as int, m as int),
            in_year <= (m - 1) * 31,
        decreases d.month - m,
    {
        in_year = in_year + days_in_month(d.year, m);
        m = m + 1;
    }
    let total_days = days + in_year + d.day - 1;
    assert(total_days <= 8030 * 366 + 11 * 31 + 31);
    total_days * 86400 + d.hour * 3600 + d.minute * 60 + d.second
}

} // verus!
