//! Interpretation of raw tag values: faceted labels with separators, and
//! release dates written as year tags.

use vstd::prelude::*;

use chrono::{Datelike as _, Offset as _, Timelike as _};

use crate::media_util::{
    digits_len, pushed_actor, push_next_actor_role_name, skip_digits, skip_spaces, spaces_len,
    Actor, ActorKind, ActorRole,
};
use crate::text::{
    collect_chars, decimal_value, parse_u16, parse_u16_in, parse_unsigned, parse_unsigned_in,
    split_on, split_str, trim, trim_str,
};

verus! {

/// The non-empty pieces, trimmed, in order.
pub open spec fn trimmed_labels(pieces: Seq<Seq<char>>) -> Seq<Seq<char>>
    decreases pieces.len(),
{
    if pieces.len() == 0 {
        Seq::empty()
    } else {
        let rest = trimmed_labels(pieces.drop_last());
        let label = trim(pieces.last());
        if label.len() > 0 {
            rest.push(label)
        } else {
            rest
        }
    }
}

/// The labels of one tag value: its pieces between the occurrences of a
/// non-empty separator, trimmed, leaving out empty ones; where that gives
/// none, the whole value, trimmed, unless it is empty.
pub open spec fn value_labels(value: Seq<char>, separator: Option<Seq<char>>) -> Seq<Seq<char>> {
    let pieces = match separator {
        Some(sep) => if sep.len() > 0 {
            trimmed_labels(split_on(value, sep))
        } else {
            Seq::empty()
        },
        None => Seq::empty(),
    };
    if pieces.len() > 0 {
        pieces
    } else if trim(value).len() > 0 {
        seq![trim(value)]
    } else {
        Seq::empty()
    }
}

/// The labels of all values of a tag field, value by value.
pub open spec fn split_labels(values: Seq<Seq<char>>, separator: Option<Seq<char>>) -> Seq<Seq<char>>
    decreases values.len(),
{
    if values.len() == 0 {
        Seq::empty()
    } else {
        split_labels(values.drop_last(), separator) + value_labels(values.last(), separator)
    }
}

pub open spec fn opt_str_view(s: Option<&str>) -> Option<Seq<char>> {
    match s {
        Some(s) => Some(s@),
        None => None,
    }
}

/// The labels of one tag value.
pub fn import_faceted_tags(value: &str, separator: Option<&str>) -> (labels: Vec<String>)
    ensures
        labels.deep_view() == value_labels(value@, opt_str_view(separator)),
{
    let mut labels: Vec<String> = Vec::new();
    if let Some(sep) = separator {
        if sep.unicode_len() > 0 {
            let pieces = split_str(value, sep);
            let mut i: usize = 0;
            while i < pieces.len()
                invariant
                    i <= pieces.len(),
                    pieces.deep_view() == split_on(value@, sep@),
                    labels.deep_view() == trimmed_labels(pieces.deep_view().take(i as int)),
                decreases pieces.len() - i,
            {
                let label = trim_str(pieces[i].as_str());
                let ghost before = labels.deep_view();
                assert(pieces.deep_view().take(i + 1).drop_last() =~= pieces.deep_view().take(i as int));
                if label.unicode_len() > 0 {
                    labels.push(label);
                    assert(labels.deep_view() =~= before.push(label@));
                }
                i = i + 1;
            }
            assert(pieces.deep_view().take(i as int) =~= pieces.deep_view());
        }
    }
    if labels.len() > 0 {
        return labels;
    }
    let whole = trim_str(value);
    if whole.unicode_len() > 0 {
        labels.push(whole);
        assert(labels.deep_view() =~= seq![whole@]);
    }
    labels
}

/// The labels of all values of a tag field, each value split at an
/// optional separator, so that one field can hold several labels.
pub fn split_tag_labels(values: &Vec<String>, separator: Option<&str>) -> (labels: Vec<String>)
    ensures
        labels.deep_view() == split_labels(values.deep_view(), opt_str_view(separator)),
{
    let mut labels: Vec<String> = Vec::new();
    let mut i: usize = 0;
    while i < values.len()
        invariant
            i <= values.len(),
            labels.deep_view() == split_labels(values.deep_view().take(i as int), opt_str_view(separator)),
        decreases values.len() - i,
    {
        let mut more = import_faceted_tags(values[i].as_str(), separator);
        let ghost before = labels.deep_view();
        let ghost added = more.deep_view();
        labels.append(&mut more);
        proof {
            assert(labels.deep_view() =~= before + added);
            assert(values.deep_view().take(i + 1).drop_last() =~= values.deep_view().take(i as int));
        }
        i = i + 1;
    }
    assert(values.deep_view().take(i as int) =~= values.deep_view());
    labels
}


pub open spec fn is_leap_year(year: int) -> bool {
    year % 4 == 0 && (year % 100 != 0 || year % 400 == 0)
}

pub open spec fn days_in_month(year: int, month: int) -> int {
    if month == 2 {
        if is_leap_year(year) {
            29
        } else {
            28
        }
    } else if month == 4 || month == 6 || month == 9 || month == 11 {
        30
    } else {
        31
    }
}

/// A calendar date in the form `YYYYMMDD`, where a month of 0 leaves month
/// and day unknown and a day of 0 leaves the day unknown.
pub open spec fn is_valid_date(yyyymmdd: int) -> bool {
    let year = yyyymmdd / 10000;
    let month = (yyyymmdd / 100) % 100;
    let day = yyyymmdd % 100;
    &&& 1 <= year <= 9999
    &&& month <= 12
    &&& (month == 0 ==> day == 0)
    &&& (day > 0 ==> day <= days_in_month(year, month))
}

pub fn valid_date(yyyymmdd: u32) -> (valid: bool)
    ensures
        valid == is_valid_date(yyyymmdd as int),
{
    let year = yyyymmdd / 10000;
    let month = (yyyymmdd / 100) % 100;
    let day = yyyymmdd % 100;
    if year < 1 || year > 9999 || month > 12 || (month == 0 && day != 0) {
        return false;
    }
    if day == 0 {
        return true;
    }
    let leap = year % 4 == 0 && (year % 100 != 0 || year % 400 == 0);
    let days: u32 = if month == 2 {
        if leap {
            29
        } else {
            28
        }
    } else if month == 4 || month == 6 || month == 9 || month == 11 {
        30
    } else {
        31
    };
    day <= days
}

/// A date of 4, 6 or 8 digits, `YYYY`, `YYYYMM` or `YYYYMMDD`, as
/// `YYYYMMDD` with the unknown parts 0.
pub open spec fn scaled_date(value: int, digits: int) -> int {
    if digits == 4 {
        value * 10000
    } else if digits == 6 {
        value * 100
    } else {
        value
    }
}

/// The date of 4, 6 or 8 digits with the value `value`, if valid.
pub open spec fn plain_date(value: int, digits: int) -> Option<u32> {
    if (digits == 4 || digits == 6 || digits == 8) && is_valid_date(scaled_date(value, digits)) {
        Some(scaled_date(value, digits) as u32)
    } else {
        None
    }
}

fn plain_date_of(value: u32, digits: usize) -> (date: Option<u32>)
    requires
        value < pow10(digits as nat),
        digits <= 8,
    ensures
        date == plain_date(value as int, digits as int),
{
    assert(pow10(8) == 100000000 && pow10(4) == 10000 && pow10(6) == 1000000) by {
        reveal_with_fuel(pow10, 9);
    }
    if digits == 4 || digits == 6 || digits == 8 {
        let date = if digits == 4 {
            value * 10000
        } else if digits == 6 {
            value * 100
        } else {
            value
        };
        if valid_date(date) {
            return Some(date);
        }
    }
    None
}

/// The date given by the day part of a year tag, `-D[D]` with spaces and
/// tabs around the number, that starts at `g` after year and month.
pub open spec fn day_part_date(s: Seq<char>, year_month: int, g: int) -> Option<u32> {
    let h = g + 1 + spaces_len(s.skip(g + 1)) as int;
    let k = h + digits_len(s.skip(h)) as int;
    let l = k + spaces_len(s.skip(k)) as int;
    let day = decimal_value(s.subrange(h, k)) as int;
    if g < s.len() && s[g] == '-' && k > h && l == s.len() && day <= 31 && is_valid_date(year_month + day) {
        Some((year_month + day) as u32)
    } else {
        None
    }
}

/// The date given by the month and day parts of a year tag,
/// `-M[M]` with an optional `-D[D]`, that start at `c` after the year.
pub open spec fn month_part_date(s: Seq<char>, year: int, c: int) -> Option<u32> {
    let e = c + 1 + spaces_len(s.skip(c + 1)) as int;
    let f = e + digits_len(s.skip(e)) as int;
    let g = f + spaces_len(s.skip(f)) as int;
    let year_month = year * 10000 + decimal_value(s.subrange(e, f)) as int * 100;
    if f == e || f - e > 2 {
        None
    } else if g == s.len() && is_valid_date(year_month) {
        Some(year_month as u32)
    } else {
        day_part_date(s, year_month, g)
    }
}

/// The date that a year tag denotes: `YYYY`, `YYYYMM` or `YYYYMMDD`
/// between spaces and tabs, or `YYYY-M[M]` with an optional `-D[D]`, with
/// spaces and tabs around each number; in each form only a valid date.
pub open spec fn year_tag_date(s: Seq<char>) -> Option<u32> {
    let a = spaces_len(s) as int;
    let b = a + digits_len(s.skip(a)) as int;
    let c = b + spaces_len(s.skip(b)) as int;
    let d = b - a;
    let value = decimal_value(s.subrange(a, b)) as int;
    if d > 0 && c == s.len() && plain_date(value, d) is Some {
        plain_date(value, d)
    } else if d == 4 && c < s.len() && s[c] == '-' {
        month_part_date(s, value, c)
    } else {
        None
    }
}

proof fn lemma_valid_date_range(x: int)
    requires
        is_valid_date(x),
    ensures
        10000 <= x < 100000000,
{
}

/// A year tag denotes a valid date, so one of at most eight digits.
pub proof fn lemma_year_tag_date_bound(s: Seq<char>)
    ensures
        year_tag_date(s) matches Some(v) ==> v <= 99999999,
{
    let a = spaces_len(s) as int;
    let b = a + digits_len(s.skip(a)) as int;
    let c = b + spaces_len(s.skip(b)) as int;
    let value = decimal_value(s.subrange(a, b)) as int;
    if b - a > 0 && c == s.len() && plain_date(value, b - a) is Some {
        lemma_valid_date_range(scaled_date(value, b - a));
    } else if b - a == 4 && c < s.len() && s[c] == '-' {
        let e = c + 1 + spaces_len(s.skip(c + 1)) as int;
        let f = e + digits_len(s.skip(e)) as int;
        let g = f + spaces_len(s.skip(f)) as int;
        let year_month = value * 10000 + decimal_value(s.subrange(e, f)) as int * 100;
        if g == s.len() && is_valid_date(year_month) {
            lemma_valid_date_range(year_month);
        } else {
            let h = g + 1 + spaces_len(s.skip(g + 1)) as int;
            let k = h + digits_len(s.skip(h)) as int;
            let day = decimal_value(s.subrange(h, k)) as int;
            if is_valid_date(year_month + day) {
                lemma_valid_date_range(year_month + day);
            }
        }
    }
}

proof fn lemma_date_parts(year: int, month: int, day: int)
    requires
        0 <= year,
        0 <= month < 100,
        0 <= day < 100,
    ensures
        (year * 10000 + month * 100 + day) / 10000 == year,
        ((year * 10000 + month * 100 + day) / 100) % 100 == month,
        (year * 10000 + month * 100 + day) % 100 == day,
{
    let x = year * 10000 + month * 100 + day;
    vstd::arithmetic::div_mod::lemma_fundamental_div_mod_converse(x, 10000, year, month * 100 + day);
    vstd::arithmetic::div_mod::lemma_fundamental_div_mod_converse(x, 100, year * 100 + month, day);
    vstd::arithmetic::div_mod::lemma_fundamental_div_mod_converse(year * 100 + month, 100, year, month);
}

/// Every day of the Gregorian calendar in the years 1 to 9999 is a valid
/// date, and so are its year alone and its year and month: months run from
/// 1 to 12; January, March, May, July, August, October and December have
/// 31 days, April, June, September and November 30, and February 29 in
/// leap years (divisible by 4, but not by 100 unless by 400) and 28
/// otherwise.
pub proof fn law_calendar_dates_are_valid(year: int, month: int, day: int)
    requires
        1 <= year <= 9999,
        1 <= month <= 12,
        1 <= day,
        day <= (if month == 2 {
            if year % 4 == 0 && (year % 100 != 0 || year % 400 == 0) {
                29int
            } else {
                28int
            }
        } else if month == 4 || month == 6 || month == 9 || month == 11 {
            30int
        } else {
            31int
        }),
    ensures
        is_valid_date(year * 10000 + month * 100 + day),
        is_valid_date(year * 10000 + month * 100),
        is_valid_date(year * 10000),
{
    lemma_date_parts(year, month, day);
    lemma_date_parts(year, month, 0);
    lemma_date_parts(year, 0, 0);
}

/// A year tag of exactly four, six or eight digits, `YYYY`, `YYYYMM` or
/// `YYYYMMDD`, denotes that year, month or day where it is a valid date,
/// with the parts that it leaves out 0.
pub proof fn law_digit_year_tag(s: Seq<char>)
    requires
        s.len() == 4 || s.len() == 6 || s.len() == 8,
        forall|i: int| 0 <= i < s.len() ==> '0' <= #[trigger] s[i] <= '9',
        is_valid_date(
            decimal_value(s) * (if s.len() == 4 {
                10000int
            } else if s.len() == 6 {
                100int
            } else {
                1int
            }),
        ),
    ensures
        year_tag_date(s) == Some(
            (decimal_value(s) * (if s.len() == 4 {
                10000int
            } else if s.len() == 6 {
                100int
            } else {
                1int
            })) as u32,
        ),
{
    let n = s.len() as int;
    assert(!crate::media_util::is_space(s[0]));
    crate::media_util::lemma_spaces_len(s, 0);
    assert(s.skip(0) =~= s);
    crate::media_util::lemma_digits_len(s, n);
    assert(s.skip(n) =~= Seq::<char>::empty());
    crate::media_util::lemma_spaces_len(s.skip(n), 0);
    assert(s.subrange(0, n) =~= s);
}

proof fn lemma_two_digits_below_100(x: Seq<char>)
    requires
        x.len() == 2,
        '0' <= x[0] <= '9',
        '0' <= x[1] <= '9',
    ensures
        decimal_value(x) < 100,
{
    let first = x.drop_last();
    assert(first.drop_last() =~= Seq::<char>::empty());
    assert(decimal_value(Seq::<char>::empty()) == 0);
    assert(first.last() == x[0]);
    assert(decimal_value(first) == (x[0] as nat - '0' as nat) as nat);
    assert(decimal_value(x) == decimal_value(first) * 10 + (x[1] as nat - '0' as nat) as nat);
}

/// A year tag `YYYY-MM-DD` of a valid date denotes that date, and it is
/// the release date that the tag gives, whatever the other readings are.
pub proof fn law_dashed_year_tag(s: Seq<char>)
    requires
        s.len() == 10,
        s[4] == '-',
        s[7] == '-',
        forall|i: int| (0 <= i < 4 || 5 <= i < 7 || 8 <= i < 10) ==> '0' <= #[trigger] s[i] <= '9',
        is_valid_date(
            (decimal_value(s.subrange(0, 4)) * 10000 + decimal_value(s.subrange(5, 7)) * 100 + decimal_value(
                s.subrange(8, 10),
            )) as int,
        ),
    ensures
        year_tag_date(s) == Some(
            (decimal_value(s.subrange(0, 4)) * 10000 + decimal_value(s.subrange(5, 7)) * 100 + decimal_value(
                s.subrange(8, 10),
            )) as u32,
        ),
        year_tag_release(year_tag_date(s), rfc3339_date_time(s), naive_date_time(s)) == Some(
            DateOrDateTime::Date(
                CalendarDate {
                    year: decimal_value(s.subrange(0, 4)) as i32,
                    month: decimal_value(s.subrange(5, 7)) as u8,
                    day: decimal_value(s.subrange(8, 10)) as u8,
                },
            ),
        ),
{
    let year = decimal_value(s.subrange(0, 4)) as int;
    let month = decimal_value(s.subrange(5, 7)) as int;
    let day = decimal_value(s.subrange(8, 10)) as int;
    assert(!crate::media_util::is_space(s[0]));
    crate::media_util::lemma_spaces_len(s, 0);
    assert(s.skip(0) =~= s);
    crate::media_util::lemma_digits_len(s, 4);
    let t4 = s.skip(4);
    assert(t4[0] == '-');
    crate::media_util::lemma_spaces_len(t4, 0);
    let t5 = s.skip(5);
    assert(t5[0] == s[5] && t5[1] == s[6] && t5[2] == '-');
    crate::media_util::lemma_spaces_len(t5, 0);
    crate::media_util::lemma_digits_len(t5, 2);
    let t7 = s.skip(7);
    assert(t7[0] == '-');
    crate::media_util::lemma_spaces_len(t7, 0);
    let t8 = s.skip(8);
    assert(t8[0] == s[8] && t8[1] == s[9]);
    crate::media_util::lemma_spaces_len(t8, 0);
    crate::media_util::lemma_digits_len(t8, 2);
    let t10 = s.skip(10);
    assert(t10 =~= Seq::<char>::empty());
    crate::media_util::lemma_spaces_len(t10, 0);
    lemma_two_digits_below_100(s.subrange(5, 7));
    lemma_two_digits_below_100(s.subrange(8, 10));
    lemma_date_parts(year, month, day);
    assert(!(8 == s.len()));
    let x = year * 10000 + month * 100 + day;
    assert(10000 <= x < 100000000);
    assert((x as u32) as int == x);
}

pub open spec fn pow10(n: nat) -> nat
    decreases n,
{
    if n == 0 {
        1
    } else {
        10 * pow10((n - 1) as nat)
    }
}

/// The value of the digits `chars[start..end]`, at most eight of them.
fn small_decimal_in(chars: &Vec<char>, start: usize, end: usize) -> (value: u32)
    requires
        start <= end <= chars.len(),
        end - start <= 8,
        forall|m: int| start <= m < end ==> '0' <= #[trigger] chars@[m] <= '9',
    ensures
        value == decimal_value(chars@.subrange(start as int, end as int)),
        value < pow10((end - start) as nat),
{
    let ghost digits = chars@.subrange(start as int, end as int);
    let mut value: u32 = 0;
    let mut j = start;
    while j < end
        invariant
            start <= j <= end <= chars.len(),
            end - start <= 8,
            digits == chars@.subrange(start as int, end as int),
            forall|m: int| start <= m < end ==> '0' <= #[trigger] chars@[m] <= '9',
            value == decimal_value(digits.take(j - start)),
            value < pow10((j - start) as nat),
            pow10((j - start) as nat) <= 100000000,
        decreases end - j,
    {
        let c = chars[j];
        assert(digits.take(j - start + 1).drop_last() =~= digits.take(j - start));
        assert(digits[j - start] == c);
        assert(pow10((j - start + 1) as nat) == 10 * pow10((j - start) as nat));
        assert(pow10((j - start + 1) as nat) <= 100000000) by {
            reveal_with_fuel(pow10, 9);
            assert(j - start + 1 <= 8);
            if j - start + 1 < 8 {
                assert(pow10((j - start + 1) as nat) <= 10000000) by {
                    lemma_pow10_mono((j - start + 1) as nat, 7);
                }
            }
        }
        value = value * 10 + ((c as u32) - ('0' as u32));
        j = j + 1;
    }
    assert(digits.take(j - start) =~= digits);
    value
}

proof fn lemma_pow10_mono(i: nat, j: nat)
    requires
        i <= j,
    ensures
        pow10(i) <= pow10(j),
    decreases j,
{
    if i < j {
        lemma_pow10_mono(i, (j - 1) as nat);
    }
}

proof fn lemma_digits_parse(s: Seq<char>, max: nat)
    requires
        s.len() > 0,
        forall|m: int| 0 <= m < s.len() ==> '0' <= #[trigger] s[m] <= '9',
    ensures
        parse_unsigned(s, max) == (if decimal_value(s) <= max {
            Some(decimal_value(s))
        } else {
            None
        }),
{
}

fn parse_day_part(chars: &Vec<char>, year_month: u32, g: usize) -> (date: Option<u32>)
    requires
        g <= chars.len(),
        year_month <= 99999900,
    ensures
        date == day_part_date(chars@, year_month as int, g as int),
{
    let n = chars.len();
    if !(g < n && chars[g] == '-') {
        return None;
    }
    let h = skip_spaces(chars, g + 1);
    let k = skip_digits(chars, h);
    let l = skip_spaces(chars, k);
    if k == h || l != n {
        return None;
    }
    proof {
        lemma_digits_parse(chars@.subrange(h as int, k as int), 31);
    }
    match parse_unsigned_in(chars, h, k, 31) {
        Some(day) => {
            let date = year_month + day;
            if valid_date(date) {
                Some(date)
            } else {
                None
            }
        },
        None => None,
    }
}

fn parse_month_part(chars: &Vec<char>, year: u32, c: usize) -> (date: Option<u32>)
    requires
        c < chars.len(),
        year <= 9999,
    ensures
        date == month_part_date(chars@, year as int, c as int),
{
    let e = skip_spaces(chars, c + 1);
    let f = skip_digits(chars, e);
    let g = skip_spaces(chars, f);
    if f == e || f - e > 2 {
        return None;
    }
    let month = small_decimal_in(chars, e, f);
    assert(pow10(2) == 100) by {
        reveal_with_fuel(pow10, 3);
    }
    proof {
        lemma_pow10_mono((f - e) as nat, 2);
    }
    let year_month = year * 10000 + month * 100;
    if g == chars.len() && valid_date(year_month) {
        return Some(year_month);
    }
    parse_day_part(chars, year_month, g)
}

/// The date that a year tag denotes, as `YYYYMMDD`: see `year_tag_date`.
#[verifier::spinoff_prover]
#[verifier::rlimit(40)]
pub fn parse_year_digits(input: &str) -> (date: Option<u32>)
    ensures
        date == year_tag_date(input@),
{
    let chars = collect_chars(input);
    let n = chars.len();
    let a = skip_spaces(&chars, 0);
    let b = skip_digits(&chars, a);
    let c = skip_spaces(&chars, b);
    assert(chars@.skip(0) =~= input@);
    let d = b - a;
    if d == 0 || d > 8 {
        return None;
    }
    let value = small_decimal_in(&chars, a, b);
    if c == n {
        if let Some(date) = plain_date_of(value, d) {
            return Some(date);
        }
    }
    assert(pow10(4) == 10000) by {
        reveal_with_fuel(pow10, 5);
    }
    if d == 4 && c < n && chars[c] == '-' {
        parse_month_part(&chars, value, c)
    } else {
        None
    }
}


/// The position of the first `/` in `s`, if there is one.
pub open spec fn first_slash(s: Seq<char>) -> Option<int> {
    if exists|i: int| 0 <= i < s.len() && s[i] == '/' {
        Some(choose|i: int| 0 <= i < s.len() && s[i] == '/' && forall|j: int| 0 <= j < i ==> s[j] != '/')
    } else {
        None
    }
}

/// A position in a sequence of tracks, discs or movements, and their
/// number.
#[derive(Debug, Clone, Copy, PartialEq, Eq, Structural)]
pub struct Index {
    pub number: Option<u16>,
    pub total: Option<u16>,
}

/// `u16::from_str` on the trimmed text.
pub open spec fn trimmed_u16(s: Seq<char>) -> Option<u16> {
    parse_u16(trim(s))
}

/// An index written as `N` or `N/M`, each number with optional whitespace
/// around it; `None` if neither number can be read.
pub open spec fn index_numbers(s: Seq<char>) -> Option<Index> {
    let (number, total) = match first_slash(s) {
        Some(i) => (trimmed_u16(s.subrange(0, i)), trimmed_u16(s.subrange(i + 1, s.len() as int))),
        None => (trimmed_u16(s), None),
    };
    if number is Some || total is Some {
        Some(Index { number, total })
    } else {
        None
    }
}

proof fn lemma_trim_digits(x: Seq<char>)
    requires
        x.len() > 0,
        forall|i: int| 0 <= i < x.len() ==> '0' <= #[trigger] x[i] <= '9',
    ensures
        trim(x) == x,
{
    assert(!crate::text::is_whitespace(x[0]));
    assert(!crate::text::is_whitespace(x[x.len() - 1]));
    assert(x.subrange(0, x.len() as int) =~= x);
}

/// An index written as the digits of a number alone is that number, with
/// no total; `None` where the digits are no `u16`.
pub proof fn law_index_number_alone(n: Seq<char>)
    requires
        n.len() > 0,
        forall|i: int| 0 <= i < n.len() ==> '0' <= #[trigger] n[i] <= '9',
    ensures
        index_numbers(n) == match parse_u16(n) {
            Some(v) => Some(Index { number: Some(v), total: None }),
            None => None,
        },
{
    lemma_trim_digits(n);
    assert(!(exists|i: int| 0 <= i < n.len() && n[i] == '/'));
}

/// An index written as `N/M`, with the digits of both numbers, has the
/// number `N` and the total `M`, each where its digits are a `u16`.
pub proof fn law_index_number_and_total(n: Seq<char>, t: Seq<char>)
    requires
        n.len() > 0,
        t.len() > 0,
        forall|i: int| 0 <= i < n.len() ==> '0' <= #[trigger] n[i] <= '9',
        forall|i: int| 0 <= i < t.len() ==> '0' <= #[trigger] t[i] <= '9',
    ensures
        index_numbers(n + seq!['/'] + t) == (if parse_u16(n) is Some || parse_u16(t) is Some {
            Some(Index { number: parse_u16(n), total: parse_u16(t) })
        } else {
            None
        }),
{
    let s = n + seq!['/'] + t;
    let k = n.len() as int;
    assert(s[k] == '/');
    assert(exists|i: int| 0 <= i < s.len() && s[i] == '/');
    let c = choose|i: int| 0 <= i < s.len() && s[i] == '/' && forall|j: int| 0 <= j < i ==> s[j] != '/';
    assert(forall|j: int| 0 <= j < k ==> s[j] != '/') by {
        assert forall|j: int| 0 <= j < k implies s[j] != '/' by {
            assert(s[j] == n[j]);
        }
    }
    assert(0 <= k < s.len() && s[k] == '/' && forall|j: int| 0 <= j < k ==> s[j] != '/');
    assert(c == k) by {
        if c < k {
            assert(s[c] == n[c]);
        }
    }
    assert(s.subrange(0, k) =~= n);
    assert(s.subrange(k + 1, s.len() as int) =~= t);
    lemma_trim_digits(n);
    lemma_trim_digits(t);
}

fn str_to_u16(s: &str) -> (value: Option<u16>)
    ensures
        value == parse_u16(s@),
{
    let chars = collect_chars(s);
    assert(chars@.subrange(0, chars.len() as int) =~= s@);
    parse_u16_in(&chars, 0, chars.len())
}

/// Reads an index written as `N` or `N/M`.
pub fn parse_index_numbers(input: &str) -> (index: Option<Index>)
    ensures
        index == index_numbers(input@),
{
    let chars = collect_chars(input);
    let n = chars.len();
    let mut i: usize = 0;
    while i < n && chars[i] != '/'
        invariant
            i <= n == chars.len(),
            chars@ == input@,
            forall|j: int| 0 <= j < i ==> chars@[j] != '/',
        decreases n - i,
    {
        i = i + 1;
    }
    let (number, total) = if i < n {
        assert(first_slash(input@) == Some(i as int)) by {
            let k = choose|k: int| 0 <= k < input@.len() && input@[k] == '/' && forall|j: int| 0 <= j < k ==> input@[j] != '/';
            assert(0 <= k < input@.len() && input@[k] == '/' && forall|j: int| 0 <= j < k ==> input@[j] != '/');
            assert(k == i);
        }
        let head = trim_str(input.substring_char(0, i));
        let tail = trim_str(input.substring_char(i + 1, n));
        (str_to_u16(head.as_str()), str_to_u16(tail.as_str()))
    } else {
        assert(first_slash(input@) is None);
        assert(input@.subrange(0, n as int) =~= input@);
        let whole = trim_str(input);
        (str_to_u16(whole.as_str()), None)
    };
    if number.is_some() || total.is_some() {
        Some(Index { number, total })
    } else {
        None
    }
}

/// The kind of a title of a track or an album.
#[derive(Debug, Clone, Copy, PartialEq, Eq, Structural)]
pub enum TitleKind {
    Main,
    Sub,
    Work,
    Movement,
}

#[derive(Debug, Clone)]
pub struct Title {
    pub name: String,
    pub kind: TitleKind,
}

pub open spec fn titles_view(titles: Seq<Title>) -> Seq<(Seq<char>, TitleKind)> {
    titles.map_values(|t: Title| (t.name@, t.kind))
}

/// A title of `kind` named by `name`, if there is a name.
pub open spec fn optional_title(name: Option<Seq<char>>, kind: TitleKind) -> Seq<(Seq<char>, TitleKind)> {
    match name {
        Some(name) => seq![(name, kind)],
        None => Seq::empty(),
    }
}

/// Appends a title of `kind` named by `name`, if there is a name.
pub fn push_optional_title(titles: &mut Vec<Title>, name: Option<&str>, kind: TitleKind)
    ensures
        titles_view(final(titles)@) == titles_view(old(titles)@) + optional_title(opt_str_view(name), kind),
{
    if let Some(name) = name {
        titles.push(Title { name: name.to_owned(), kind });
        assert(titles_view(titles@) =~= titles_view(old(titles)@) + optional_title(opt_str_view(Some(name)), kind));
    } else {
        assert(titles_view(titles@) =~= titles_view(old(titles)@) + optional_title(opt_str_view(name), kind));
    }
}

/// An actor as name, kind and role.
pub type ActorView = (Seq<char>, ActorKind, ActorRole);

pub open spec fn actors_view(actors: Seq<Actor>) -> Seq<ActorView> {
    actors.map_values(|a: Actor| (a.name@, a.kind, a.role))
}

/// Appends an actor of `role`: a summary that starts a new run of actors,
/// or, if the last actor has the same role, a primary one that makes the
/// last actor primary too.
pub open spec fn push_actor_view(actors: Seq<ActorView>, role: ActorRole, name: Seq<char>) -> Seq<ActorView> {
    if actors.len() > 0 && actors.last().2 == role {
        actors.update(actors.len() - 1, (actors.last().0, ActorKind::Primary, role)).push(
            (name, ActorKind::Primary, role),
        )
    } else {
        actors.push((name, ActorKind::Summary, role))
    }
}

/// Appends actors of `role` with the given names, in order.
pub open spec fn push_actor_views(actors: Seq<ActorView>, role: ActorRole, names: Seq<Seq<char>>) -> Seq<ActorView>
    decreases names.len(),
{
    if names.len() == 0 {
        actors
    } else {
        push_actor_view(push_actor_views(actors, role, names.drop_last()), role, names.last())
    }
}

proof fn lemma_pushed_actor_view(actors: Seq<Actor>, role: ActorRole, name: String)
    ensures
        actors_view(pushed_actor(actors, role, name)) == push_actor_view(actors_view(actors), role, name@),
{
    assert(actors_view(pushed_actor(actors, role, name)) =~= push_actor_view(actors_view(actors), role, name@));
}

/// The actors of each role stand together, in a single run.
pub open spec fn view_roles_in_runs(actors: Seq<ActorView>) -> bool {
    forall|i: int, j: int, k: int|
        0 <= i < j < k < actors.len() && #[trigger] actors[i].2 == #[trigger] actors[k].2 ==> #[trigger] actors[j].2
            == actors[i].2
}

pub open spec fn view_has_role_neighbor(actors: Seq<ActorView>, i: int) -> bool {
    ||| (i > 0 && actors[i - 1].2 == actors[i].2)
    ||| (i + 1 < actors.len() && actors[i + 1].2 == actors[i].2)
}

/// An actor is a summary exactly when it is alone in its run.
pub open spec fn view_kinds_match_runs(actors: Seq<ActorView>) -> bool {
    forall|i: int|
        0 <= i < actors.len() ==> (#[trigger] actors[i]).1 == (if view_has_role_neighbor(actors, i) {
            ActorKind::Primary
        } else {
            ActorKind::Summary
        })
}

/// One run per role, each actor a summary exactly when alone in its run.
pub open spec fn actor_runs(actors: Seq<ActorView>) -> bool {
    view_roles_in_runs(actors) && view_kinds_match_runs(actors)
}

pub open spec fn has_role(actors: Seq<ActorView>, role: ActorRole) -> bool {
    exists|i: int| 0 <= i < actors.len() && #[trigger] actors[i].2 == role
}

proof fn lemma_push_view_runs(actors: Seq<ActorView>, role: ActorRole, name: Seq<char>)
    requires
        actor_runs(actors),
        (actors.len() > 0 && actors.last().2 == role) || !has_role(actors, role),
    ensures
        actor_runs(push_actor_view(actors, role, name)),
        push_actor_view(actors, role, name).len() == actors.len() + 1,
        push_actor_view(actors, role, name).last().2 == role,
        forall|r: ActorRole| r != role ==> (#[trigger] has_role(push_actor_view(actors, role, name), r) == has_role(actors, r)),
{
    let pushed = push_actor_view(actors, role, name);
    let n = actors.len() as int;
    assert forall|i: int| 0 <= i < n implies (#[trigger] pushed[i]).2 == actors[i].2 by {}
    assert forall|i: int| 0 <= i < n - 1 implies #[trigger] pushed[i] == actors[i] by {}
    assert forall|i: int, j: int, k: int|
        0 <= i < j < k < pushed.len() && #[trigger] pushed[i].2 == #[trigger] pushed[k].2 implies #[trigger] pushed[j].2
            == pushed[i].2 by {
        assert(pushed[i].2 == actors[i].2);
        assert(pushed[j].2 == actors[j].2);
        if k == n {
            if actors.len() > 0 && actors.last().2 == role {
                if j < n - 1 {
                    assert(actors[i].2 == actors[n - 1].2);
                }
            } else {
                assert(actors[i].2 != role);
            }
        } else {
            assert(pushed[k].2 == actors[k].2);
        }
    }
    assert forall|i: int| 0 <= i < pushed.len() implies (#[trigger] pushed[i]).1 == (if view_has_role_neighbor(pushed, i) {
        ActorKind::Primary
    } else {
        ActorKind::Summary
    }) by {
        if i < n - 1 {
            assert(pushed[i] == actors[i]);
            assert(pushed[i + 1].2 == actors[i + 1].2);
            if i > 0 {
                assert(pushed[i - 1].2 == actors[i - 1].2);
            }
            assert(view_has_role_neighbor(pushed, i) == view_has_role_neighbor(actors, i));
            assert(actors[i].1 == (if view_has_role_neighbor(actors, i) {
                ActorKind::Primary
            } else {
                ActorKind::Summary
            }));
        } else if i == n - 1 {
            if n > 1 {
                assert(pushed[i - 1].2 == actors[i - 1].2);
            }
            assert(actors[i].1 == (if view_has_role_neighbor(actors, i) {
                ActorKind::Primary
            } else {
                ActorKind::Summary
            }));
        } else if n > 0 {
            assert(pushed[i - 1].2 == actors[n - 1].2);
        }
    }
    assert forall|r: ActorRole| r != role implies (has_role(pushed, r) == has_role(actors, r)) by {
        if has_role(actors, r) {
            let i = choose|i: int| 0 <= i < actors.len() && #[trigger] actors[i].2 == r;
            assert(pushed[i].2 == r);
        }
        if has_role(pushed, r) {
            let i = choose|i: int| 0 <= i < pushed.len() && #[trigger] pushed[i].2 == r;
            assert(actors[i].2 == r);
        }
    }
}

/// Appending the actors of a role that has not occurred yet keeps one run
/// per role, each actor a summary exactly when alone in its run.
pub proof fn law_push_actor_views_keeps_runs(actors: Seq<ActorView>, role: ActorRole, names: Seq<Seq<char>>)
    requires
        actor_runs(actors),
        !has_role(actors, role),
    ensures
        actor_runs(push_actor_views(actors, role, names)),
        forall|r: ActorRole| r != role ==> (#[trigger] has_role(push_actor_views(actors, role, names), r) == has_role(actors, r)),
        names.len() > 0 ==> push_actor_views(actors, role, names).last().2 == role,
        names.len() == 0 ==> push_actor_views(actors, role, names) == actors,
    decreases names.len(),
{
    if names.len() > 0 {
        law_push_actor_views_keeps_runs(actors, role, names.drop_last());
        lemma_push_view_runs(push_actor_views(actors, role, names.drop_last()), role, names.last());
    }
}

/// No actor has role notes.
pub open spec fn no_role_notes(actors: Seq<Actor>) -> bool {
    forall|i: int| 0 <= i < actors.len() ==> (#[trigger] actors[i]).role_notes is None
}

/// The actors of a single role with the given names, in order: a summary
/// where there is one, and all primary where there are more.
pub open spec fn actors_of_role(role: ActorRole, names: Seq<Seq<char>>) -> Seq<ActorView> {
    Seq::new(
        names.len(),
        |i: int|
            (names[i], if names.len() == 1 {
                ActorKind::Summary
            } else {
                ActorKind::Primary
            }, role),
    )
}

/// Appending the actors of one role to no actors gives these names in
/// order as actors of that role, a summary where there is one and all
/// primary where there are more.
pub proof fn law_actors_of_one_role(role: ActorRole, names: Seq<Seq<char>>)
    ensures
        push_actor_views(Seq::empty(), role, names) == actors_of_role(role, names),
    decreases names.len(),
{
    if names.len() > 0 {
        let rest = names.drop_last();
        law_actors_of_one_role(role, rest);
        let prev = push_actor_views(Seq::empty(), role, rest);
        let next = push_actor_view(prev, role, names.last());
        assert(next =~= actors_of_role(role, names));
    } else {
        assert(actors_of_role(role, names) =~= Seq::<ActorView>::empty());
    }
}

/// The names and roles of actors, in order.
pub open spec fn names_and_roles(actors: Seq<ActorView>) -> Seq<(Seq<char>, ActorRole)> {
    actors.map_values(|a: ActorView| (a.0, a.2))
}

/// The names, each with the role `role`.
pub open spec fn with_role(names: Seq<Seq<char>>, role: ActorRole) -> Seq<(Seq<char>, ActorRole)> {
    names.map_values(|n: Seq<char>| (n, role))
}

/// Appending actors of a role keeps the names and roles of the actors
/// before them and adds the names, in order, with that role.
pub proof fn law_push_actor_views_names(actors: Seq<ActorView>, role: ActorRole, names: Seq<Seq<char>>)
    ensures
        names_and_roles(push_actor_views(actors, role, names)) == names_and_roles(actors) + with_role(names, role),
    decreases names.len(),
{
    if names.len() > 0 {
        let rest = names.drop_last();
        law_push_actor_views_names(actors, role, rest);
        let prev = push_actor_views(actors, role, rest);
        assert(names_and_roles(push_actor_view(prev, role, names.last())) =~= names_and_roles(prev).push(
            (names.last(), role),
        ));
        assert(with_role(names, role) =~= with_role(rest, role).push((names.last(), role)));
    } else {
        assert(with_role(names, role) =~= Seq::empty());
        assert(names_and_roles(actors) + with_role(names, role) =~= names_and_roles(actors));
    }
}

/// Appends an actor of `role` for each name, in order, without role notes.
pub fn push_actor_names(actors: &mut Vec<Actor>, role: ActorRole, names: &Vec<String>)
    ensures
        actors_view(final(actors)@) == push_actor_views(actors_view(old(actors)@), role, names.deep_view()),
        no_role_notes(old(actors)@) ==> no_role_notes(final(actors)@),
{
    let mut i: usize = 0;
    while i < names.len()
        invariant
            i <= names.len(),
            actors_view(actors@) == push_actor_views(actors_view(old(actors)@), role, names.deep_view().take(i as int)),
            no_role_notes(old(actors)@) ==> no_role_notes(actors@),
        decreases names.len() - i,
    {
        let ghost before = actors@;
        push_next_actor_role_name(actors, role, names[i].clone());
        proof {
            lemma_pushed_actor_view(before, role, names@[i as int]);
            assert(names.deep_view().take(i + 1).drop_last() =~= names.deep_view().take(i as int));
            assert(names.deep_view()[i as int] == names@[i as int]@);
        }
        i = i + 1;
    }
    assert(names.deep_view().take(i as int) =~= names.deep_view());
}


/// The kind of album that a track belongs to, as far as its tags tell it.
#[derive(Debug, Clone, Copy, PartialEq, Eq, Structural)]
pub enum AlbumKind {
    Compilation,
}

/// The labels that fields of several values are split into, per facet:
/// the separator between labels within one value, if any.
pub struct FacetedTagMappingConfig {
    pub comment_separator: Option<String>,
    pub genre_separator: Option<String>,
    pub mood_separator: Option<String>,
    pub grouping_separator: Option<String>,
}

pub struct FacetedTagMappingConfigView {
    pub comment_separator: Option<Seq<char>>,
    pub genre_separator: Option<Seq<char>>,
    pub mood_separator: Option<Seq<char>>,
    pub grouping_separator: Option<Seq<char>>,
}

pub open spec fn opt_string_view(s: Option<String>) -> Option<Seq<char>> {
    match s {
        Some(s) => Some(s@),
        None => None,
    }
}

impl View for FacetedTagMappingConfig {
    type V = FacetedTagMappingConfigView;

    open spec fn view(&self) -> FacetedTagMappingConfigView {
        FacetedTagMappingConfigView {
            comment_separator: opt_string_view(self.comment_separator),
            genre_separator: opt_string_view(self.genre_separator),
            mood_separator: opt_string_view(self.mood_separator),
            grouping_separator: opt_string_view(self.grouping_separator),
        }
    }
}

/// The separator as a string slice.
pub fn separator_str(separator: &Option<String>) -> (s: Option<&str>)
    ensures
        opt_str_view(s) == opt_string_view(*separator),
{
    match separator {
        Some(sep) => Some(sep.as_str()),
        None => None,
    }
}

/// A date of the proleptic Gregorian calendar; a month of 0 leaves month
/// and day unknown, a day of 0 leaves the day unknown.
#[derive(Debug, Clone, Copy, PartialEq, Eq, Structural)]
pub struct CalendarDate {
    pub year: i32,
    pub month: u8,
    pub day: u8,
}

/// A release date, with a time of day where the tag gives one: local time
/// at an offset from UTC in seconds, with a second of 60 or more
/// nanoseconds than a second holds in a leap second.
#[derive(Debug, Clone, Copy, PartialEq, Eq, Structural)]
pub enum DateOrDateTime {
    Date(CalendarDate),
    DateTime {
        date: CalendarDate,
        hour: u8,
        minute: u8,
        second: u8,
        nanosecond: u32,
        offset_seconds: i32,
    },
}

/// The date written as `YYYYMMDD`.
pub open spec fn date_of_yyyymmdd(yyyymmdd: u32) -> CalendarDate {
    CalendarDate {
        year: (yyyymmdd / 10000) as i32,
        month: ((yyyymmdd / 100) % 100) as u8,
        day: (yyyymmdd % 100) as u8,
    }
}

pub fn calendar_date(yyyymmdd: u32) -> (date: CalendarDate)
    requires
        yyyymmdd <= 99999999,
    ensures
        date == date_of_yyyymmdd(yyyymmdd),
{
    CalendarDate {
        year: (yyyymmdd / 10000) as i32,
        month: ((yyyymmdd / 100) % 100) as u8,
        day: (yyyymmdd % 100) as u8,
    }
}

/// What the tags of a media file say of a track.
pub struct ImportedTrack {
    pub titles: Vec<Title>,
    pub actors: Vec<Actor>,
    pub album_titles: Vec<Title>,
    pub album_actors: Vec<Actor>,
    pub album_kind: Option<AlbumKind>,
    pub released_at: Option<DateOrDateTime>,
    pub released_by: Option<String>,
    pub copyright: Option<String>,
    pub key_signature: Option<crate::media_util::KeySignature>,
    pub track_index: Option<Index>,
    pub disc_index: Option<Index>,
    pub movement_index: Option<Index>,
    pub comments: Vec<String>,
    pub genres: Vec<String>,
    pub moods: Vec<String>,
    pub groupings: Vec<String>,
}

pub struct ImportedTrackView {
    pub titles: Seq<(Seq<char>, TitleKind)>,
    pub actors: Seq<ActorView>,
    pub album_titles: Seq<(Seq<char>, TitleKind)>,
    pub album_actors: Seq<ActorView>,
    pub album_kind: Option<AlbumKind>,
    pub released_at: Option<DateOrDateTime>,
    pub released_by: Option<Seq<char>>,
    pub copyright: Option<Seq<char>>,
    pub key_signature: Option<crate::media_util::KeySignature>,
    pub track_index: Option<Index>,
    pub disc_index: Option<Index>,
    pub movement_index: Option<Index>,
    pub comments: Seq<Seq<char>>,
    pub genres: Seq<Seq<char>>,
    pub moods: Seq<Seq<char>>,
    pub groupings: Seq<Seq<char>>,
}

impl View for ImportedTrack {
    type V = ImportedTrackView;

    open spec fn view(&self) -> ImportedTrackView {
        ImportedTrackView {
            titles: titles_view(self.titles@),
            actors: actors_view(self.actors@),
            album_titles: titles_view(self.album_titles@),
            album_actors: actors_view(self.album_actors@),
            album_kind: self.album_kind,
            released_at: self.released_at,
            released_by: opt_string_view(self.released_by),
            copyright: opt_string_view(self.copyright),
            key_signature: self.key_signature,
            track_index: self.track_index,
            disc_index: self.disc_index,
            movement_index: self.movement_index,
            comments: self.comments.deep_view(),
            genres: self.genres.deep_view(),
            moods: self.moods.deep_view(),
            groupings: self.groupings.deep_view(),
        }
    }
}


/// The date and time that `chrono` reads from text in a relaxed form of
/// RFC 3339, such as `2020-07-31T12:00:00+02:00`.
pub uninterp spec fn rfc3339_date_time(input: Seq<char>) -> Option<DateOrDateTime>;

/// The date and time without offset that `chrono` reads from text in the
/// form `%Y-%m-%dT%H:%M:%S%.f`, taken as UTC.
pub uninterp spec fn naive_date_time(input: Seq<char>) -> Option<DateOrDateTime>;

/// `str::parse::<chrono::DateTime<chrono::FixedOffset>>`, with the local
/// date and time and the offset taken apart.
#[verifier::external_body]
fn parse_rfc3339_date_time(input: &str) -> (date_time: Option<DateOrDateTime>)
    ensures
        date_time == rfc3339_date_time(input@),
{
    let dt = input.parse::<chrono::DateTime<chrono::FixedOffset>>().ok()?;
    let t = dt.naive_local();
    let date = CalendarDate { year: t.year(), month: t.month() as u8, day: t.day() as u8 };
    let offset_seconds = dt.offset().fix().local_minus_utc();
    Some(DateOrDateTime::DateTime {
        date,
        hour: t.hour() as u8,
        minute: t.minute() as u8,
        second: t.second() as u8,
        nanosecond: t.nanosecond(),
        offset_seconds,
    })
}

/// `str::parse::<chrono::NaiveDateTime>`, taken apart, at offset 0.
#[verifier::external_body]
fn parse_naive_date_time(input: &str) -> (date_time: Option<DateOrDateTime>)
    ensures
        date_time == naive_date_time(input@),
{
    let t = input.parse::<chrono::NaiveDateTime>().ok()?;
    let date = CalendarDate { year: t.year(), month: t.month() as u8, day: t.day() as u8 };
    Some(DateOrDateTime::DateTime {
        date,
        hour: t.hour() as u8,
        minute: t.minute() as u8,
        second: t.second() as u8,
        nanosecond: t.nanosecond(),
        offset_seconds: 0,
    })
}

/// The release date of a year tag: the date of its digits, or else the
/// date and time that it gives in RFC 3339, or else without offset.
pub open spec fn year_tag_release(
    digits_date: Option<u32>,
    rfc3339: Option<DateOrDateTime>,
    naive: Option<DateOrDateTime>,
) -> Option<DateOrDateTime> {
    match digits_date {
        Some(yyyymmdd) => Some(DateOrDateTime::Date(date_of_yyyymmdd(yyyymmdd))),
        None => if rfc3339 is Some {
            rfc3339
        } else {
            naive
        },
    }
}

/// The release date of a year tag, from what its three readings gave.
pub fn release_from_readings(
    digits_date: Option<u32>,
    rfc3339: Option<DateOrDateTime>,
    naive: Option<DateOrDateTime>,
) -> (released_at: Option<DateOrDateTime>)
    requires
        digits_date matches Some(v) ==> v <= 99999999,
    ensures
        released_at == year_tag_release(digits_date, rfc3339, naive),
{
    match digits_date {
        Some(yyyymmdd) => Some(DateOrDateTime::Date(calendar_date(yyyymmdd))),
        None => if rfc3339.is_some() {
            rfc3339
        } else {
            naive
        },
    }
}

/// The release date that a year tag denotes.
pub fn parse_year_tag(input: &str) -> (released_at: Option<DateOrDateTime>)
    ensures
        released_at == year_tag_release(
            year_tag_date(input@),
            rfc3339_date_time(input@),
            naive_date_time(input@),
        ),
{
    let digits_date = parse_year_digits(input);
    proof {
        lemma_year_tag_date_bound(input@);
    }
    release_from_readings(digits_date, parse_rfc3339_date_time(input), parse_naive_date_time(input))
}

} // verus!
