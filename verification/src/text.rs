//! Character-level helpers: whitespace, terms, and decimal numbers as the
//! standard library parses them.

use vstd::prelude::*;

verus! {

/// Characters with the Unicode `White_Space` property, which separate the
/// terms of a search input.
pub open spec fn is_whitespace(c: char) -> bool {
    ||| '\u{9}' <= c <= '\u{d}'
    ||| c == ' '
    ||| c == '\u{85}'
    ||| c == '\u{a0}'
    ||| c == '\u{1680}'
    ||| '\u{2000}' <= c <= '\u{200a}'
    ||| c == '\u{2028}'
    ||| c == '\u{2029}'
    ||| c == '\u{202f}'
    ||| c == '\u{205f}'
    ||| c == '\u{3000}'
}

pub fn char_is_whitespace(c: char) -> (ws: bool)
    ensures
        ws == is_whitespace(c),
{
    ('\u{9}' <= c && c <= '\u{d}') || c == ' ' || c == '\u{85}' || c == '\u{a0}' || c == '\u{1680}' || (
    '\u{2000}' <= c && c <= '\u{200a}') || c == '\u{2028}' || c == '\u{2029}' || c == '\u{202f}' || c
        == '\u{205f}' || c == '\u{3000}'
}

/// The number of leading characters of `s` up to the first whitespace.
pub open spec fn word_len(s: Seq<char>) -> nat
    decreases s.len(),
{
    if s.len() == 0 || is_whitespace(s[0]) {
        0
    } else {
        1 + word_len(s.drop_first())
    }
}

pub proof fn lemma_word_len_bound(s: Seq<char>)
    ensures
        word_len(s) <= s.len(),
        s.len() > 0 && !is_whitespace(s[0]) ==> word_len(s) >= 1,
    decreases s.len(),
{
    if s.len() > 0 && !is_whitespace(s[0]) {
        lemma_word_len_bound(s.drop_first());
    }
}

/// The maximal runs of non-whitespace characters, in order.
pub open spec fn split_whitespace(s: Seq<char>) -> Seq<Seq<char>>
    decreases s.len(),
{
    if s.len() == 0 {
        Seq::empty()
    } else if is_whitespace(s[0]) {
        split_whitespace(s.drop_first())
    } else {
        proof {
            lemma_word_len_bound(s);
        }
        seq![s.take(word_len(s) as int)] + split_whitespace(s.skip(word_len(s) as int))
    }
}

/// Neither leading nor trailing whitespace.
pub open spec fn is_trimmed(s: Seq<char>) -> bool {
    s.len() > 0 ==> !is_whitespace(s[0]) && !is_whitespace(s.last())
}

pub open spec fn is_ascii_digit(c: char) -> bool {
    '0' <= c <= '9'
}

/// The value of a sequence of decimal digits.
pub open spec fn decimal_value(digits: Seq<char>) -> nat
    decreases digits.len(),
{
    if digits.len() == 0 {
        0
    } else {
        decimal_value(digits.drop_last()) * 10 + (digits.last() as nat - '0' as nat) as nat
    }
}

/// The digits of an unsigned integer literal: what follows an optional
/// `+` sign.
pub open spec fn unsigned_digits(s: Seq<char>) -> Seq<char> {
    if s.len() > 0 && s[0] == '+' {
        s.drop_first()
    } else {
        s
    }
}

pub open spec fn all_ascii_digits(digits: Seq<char>) -> bool {
    forall|i: int| 0 <= i < digits.len() ==> is_ascii_digit(#[trigger] digits[i])
}

/// Parsing of an unsigned integer of at most `max` as the `from_str` of
/// Rust's unsigned integer types does it: an optional `+` sign, then one or
/// more ASCII digits.
pub open spec fn parse_unsigned(s: Seq<char>, max: nat) -> Option<nat> {
    let digits = unsigned_digits(s);
    if digits.len() > 0 && all_ascii_digits(digits) && decimal_value(digits) <= max {
        Some(decimal_value(digits))
    } else {
        None
    }
}

/// `u16::from_str`.
pub open spec fn parse_u16(s: Seq<char>) -> Option<u16> {
    match parse_unsigned(s, u16::MAX as nat) {
        Some(v) => Some(v as u16),
        None => None,
    }
}

/// `u8::from_str`.
pub open spec fn parse_u8(s: Seq<char>) -> Option<u8> {
    match parse_unsigned(s, u8::MAX as nat) {
        Some(v) => Some(v as u8),
        None => None,
    }
}

proof fn lemma_decimal_value_prefix(digits: Seq<char>, i: int)
    requires
        0 <= i <= digits.len(),
        all_ascii_digits(digits),
    ensures
        decimal_value(digits.take(i)) <= decimal_value(digits),
    decreases digits.len() - i,
{
    if i < digits.len() {
        lemma_decimal_value_prefix(digits, i + 1);
        assert(digits.take(i + 1).drop_last() =~= digits.take(i));
    } else {
        assert(digits.take(i) =~= digits);
    }
}

/// Parses `chars[start..end]` as an unsigned integer of at most `max`.
pub fn parse_unsigned_in(chars: &Vec<char>, start: usize, end: usize, max: u32) -> (parsed: Option<u32>)
    requires
        start <= end <= chars.len(),
        max <= u16::MAX,
    ensures
        match parse_unsigned(chars@.subrange(start as int, end as int), max as nat) {
            Some(v) => parsed == Some(v as u32),
            None => parsed is None,
        },
{
    let ghost s = chars@.subrange(start as int, end as int);
    let mut i = start;
    if i < end && chars[i] == '+' {
        i = i + 1;
    }
    let ghost digits = chars@.subrange(i as int, end as int);
    assert(digits =~= unsigned_digits(s));
    if i == end {
        return None;
    }
    let mut value: u32 = 0;
    let mut j = i;
    while j < end
        invariant
            i <= j <= end <= chars.len(),
            max <= u16::MAX,
            digits == chars@.subrange(i as int, end as int),
            s == chars@.subrange(start as int, end as int),
            digits == unsigned_digits(s),
            forall|k: int| 0 <= k < j - i ==> is_ascii_digit(#[trigger] digits[k]),
            value == decimal_value(digits.take(j - i)),
            value <= max,
        decreases end - j,
    {
        let c = chars[j];
        if !('0' <= c && c <= '9') {
            assert(!is_ascii_digit(digits[j - i]));
            assert(!all_ascii_digits(digits));
            return None;
        }
        assert(digits.take(j - i + 1).drop_last() =~= digits.take(j - i));
        let next = value * 10 + ((c as u32) - ('0' as u32));
        assert(digits[j - i] == c);
        assert(decimal_value(digits.take(j - i + 1)) == next);
        if next > max {
            proof {
                if all_ascii_digits(digits) {
                    lemma_decimal_value_prefix(digits, j - i + 1);
                }
            }
            return None;
        }
        value = next;
        j = j + 1;
    }
    assert(digits.take(j - i) =~= digits);
    Some(value)
}

/// `u16::from_str` on `chars[start..end]`.
pub fn parse_u16_in(chars: &Vec<char>, start: usize, end: usize) -> (parsed: Option<u16>)
    requires
        start <= end <= chars.len(),
    ensures
        parsed == parse_u16(chars@.subrange(start as int, end as int)),
{
    match parse_unsigned_in(chars, start, end, 65535) {
        Some(v) => Some(v as u16),
        None => None,
    }
}

/// `u8::from_str` on `chars[start..end]`.
pub fn parse_u8_in(chars: &Vec<char>, start: usize, end: usize) -> (parsed: Option<u8>)
    requires
        start <= end <= chars.len(),
    ensures
        parsed == parse_u8(chars@.subrange(start as int, end as int)),
{
    match parse_unsigned_in(chars, start, end, 255) {
        Some(v) => Some(v as u8),
        None => None,
    }
}

/// The characters of a string, in order.
pub fn collect_chars(s: &str) -> (chars: Vec<char>)
    ensures
        chars@ == s@,
{
    let mut chars: Vec<char> = Vec::new();
    for c in it: s.chars()
        invariant
            chars@ == it.seq().take(it.index() as int),
            it.seq() == s@,
    {
        chars.push(c);
    }
    chars
}

/// Compares two strings character by character.
pub fn str_eq(a: &str, b: &str) -> (eq: bool)
    ensures
        eq == (a@ == b@),
{
    let a_chars = collect_chars(a);
    let b_chars = collect_chars(b);
    if a_chars.len() != b_chars.len() {
        return false;
    }
    let mut i: usize = 0;
    while i < a_chars.len()
        invariant
            i <= a_chars.len() == b_chars.len(),
            a_chars@ == a@,
            b_chars@ == b@,
            forall|j: int| 0 <= j < i ==> a@[j] == b@[j],
        decreases a_chars.len() - i,
    {
        if a_chars[i] != b_chars[i] {
            return false;
        }
        i += 1;
    }
    assert(a@ =~= b@);
    true
}

/// `s` starts with `prefix`.
pub open spec fn has_prefix(s: Seq<char>, prefix: Seq<char>) -> bool {
    prefix.len() <= s.len() && s.subrange(0, prefix.len() as int) == prefix
}

/// Whether `s` starts with `prefix`, character by character.
pub fn str_starts_with(s: &str, prefix: &str) -> (starts_with: bool)
    ensures
        starts_with == has_prefix(s@, prefix@),
{
    let s_chars = collect_chars(s);
    let prefix_chars = collect_chars(prefix);
    if prefix_chars.len() > s_chars.len() {
        return false;
    }
    let mut i: usize = 0;
    while i < prefix_chars.len()
        invariant
            i <= prefix_chars.len() <= s_chars.len(),
            s_chars@ == s@,
            prefix_chars@ == prefix@,
            forall|j: int| 0 <= j < i ==> s@[j] == prefix@[j],
        decreases prefix_chars.len() - i,
    {
        if s_chars[i] != prefix_chars[i] {
            assert(s@.subrange(0, prefix@.len() as int)[i as int] != prefix@[i as int]);
            return false;
        }
        i += 1;
    }
    assert(s@.subrange(0, prefix@.len() as int) =~= prefix@);
    true
}

pub proof fn lemma_word_len(s: Seq<char>, k: int)
    requires
        0 <= k <= s.len(),
        forall|m: int| 0 <= m < k ==> !is_whitespace(#[trigger] s[m]),
        k == s.len() || is_whitespace(s[k]),
    ensures
        word_len(s) == k,
    decreases k,
{
    if k > 0 {
        let t = s.drop_first();
        assert forall|m: int| 0 <= m < k - 1 implies !is_whitespace(#[trigger] t[m]) by {
            assert(t[m] == s[m + 1]);
        }
        if k < s.len() {
            assert(t[k - 1] == s[k]);
        }
        assert(!is_whitespace(s[0]));
        lemma_word_len(t, k - 1);
    }
}


/// The index of the first character at or after `i` that is not whitespace,
/// or the length of `s` if there is none.
pub open spec fn first_non_ws(s: Seq<char>, i: int) -> int
    decreases s.len() - i,
{
    if i >= s.len() {
        s.len() as int
    } else if is_whitespace(s[i]) {
        first_non_ws(s, i + 1)
    } else {
        i
    }
}

/// The end of `s[..j]` without its trailing whitespace.
pub open spec fn end_non_ws(s: Seq<char>, j: int) -> int
    decreases j,
{
    if j <= 0 {
        0
    } else if is_whitespace(s[j - 1]) {
        end_non_ws(s, j - 1)
    } else {
        j
    }
}

/// `s` without leading and trailing whitespace.
pub open spec fn trim(s: Seq<char>) -> Seq<char> {
    let start = first_non_ws(s, 0);
    if start >= s.len() {
        Seq::empty()
    } else {
        s.subrange(start, end_non_ws(s, s.len() as int))
    }
}

proof fn lemma_first_non_ws(s: Seq<char>, i: int)
    requires
        0 <= i <= s.len(),
    ensures
        i <= first_non_ws(s, i) <= s.len(),
        first_non_ws(s, i) < s.len() ==> !is_whitespace(s[first_non_ws(s, i)]),
    decreases s.len() - i,
{
    if i < s.len() && is_whitespace(s[i]) {
        lemma_first_non_ws(s, i + 1);
    }
}

proof fn lemma_end_non_ws(s: Seq<char>, j: int, start: int)
    requires
        0 <= start < j <= s.len(),
        !is_whitespace(s[start]),
    ensures
        start < end_non_ws(s, j) <= j,
    decreases j,
{
    if is_whitespace(s[j - 1]) {
        lemma_end_non_ws(s, j - 1, start);
    }
}

/// `s` without leading and trailing whitespace.
pub fn trim_str(s: &str) -> (trimmed: String)
    ensures
        trimmed@ == trim(s@),
{
    let chars = collect_chars(s);
    let n = chars.len();
    let mut start: usize = 0;
    while start < n && char_is_whitespace(chars[start])
        invariant
            start <= n == chars.len(),
            chars@ == s@,
            first_non_ws(s@, start as int) == first_non_ws(s@, 0),
        decreases n - start,
    {
        start = start + 1;
    }
    if start >= n {
        return String::new();
    }
    let mut end: usize = n;
    while end > 0 && char_is_whitespace(chars[end - 1])
        invariant
            end <= n == chars.len(),
            chars@ == s@,
            end_non_ws(s@, end as int) == end_non_ws(s@, n as int),
        decreases end,
    {
        end = end - 1;
    }
    proof {
        lemma_end_non_ws(s@, n as int, start as int);
    }
    s.substring_char(start, end).to_owned()
}

/// `sep` occurs in `s` at position `i`.
pub open spec fn occurs_at(s: Seq<char>, sep: Seq<char>, i: int) -> bool {
    0 <= i && i + sep.len() <= s.len() && s.subrange(i, i + sep.len()) == sep
}

/// The pieces of `s[start..]` between the leftmost non-overlapping
/// occurrences of a non-empty `sep`, scanning from position `i` on, where
/// the current piece began at `start`.
pub open spec fn split_from(s: Seq<char>, sep: Seq<char>, start: int, i: int) -> Seq<Seq<char>>
    recommends
        sep.len() > 0,
        0 <= start <= i,
    decreases s.len() + 1 - i,
{
    if sep.len() == 0 || i + sep.len() > s.len() || i < 0 {
        seq![s.subrange(start, s.len() as int)]
    } else if occurs_at(s, sep, i) {
        seq![s.subrange(start, i)] + split_from(s, sep, i + sep.len(), i + sep.len())
    } else {
        split_from(s, sep, start, i + 1)
    }
}

/// The pieces of `s` between the leftmost non-overlapping occurrences of a
/// non-empty separator, as `str::split` gives them.
pub open spec fn split_on(s: Seq<char>, sep: Seq<char>) -> Seq<Seq<char>> {
    split_from(s, sep, 0, 0)
}

/// The pieces, in order, with `sep` between each two of them.
pub open spec fn join_with(pieces: Seq<Seq<char>>, sep: Seq<char>) -> Seq<char>
    decreases pieces.len(),
{
    if pieces.len() == 0 {
        Seq::empty()
    } else if pieces.len() == 1 {
        pieces[0]
    } else {
        pieces[0] + sep + join_with(pieces.drop_first(), sep)
    }
}

proof fn lemma_split_from_joins(s: Seq<char>, sep: Seq<char>, start: int, i: int)
    requires
        sep.len() > 0,
        0 <= start <= i,
        start <= s.len(),
    ensures
        split_from(s, sep, start, i).len() > 0,
        join_with(split_from(s, sep, start, i), sep) == s.subrange(start, s.len() as int),
    decreases s.len() + 1 - i,
{
    if i + sep.len() > s.len() {
    } else if occurs_at(s, sep, i) {
        let next = i + sep.len();
        lemma_split_from_joins(s, sep, next, next);
        let rest = split_from(s, sep, next, next);
        let pieces = seq![s.subrange(start, i)] + rest;
        assert(pieces.drop_first() =~= rest);
        assert(pieces[0] == s.subrange(start, i));
        assert(s.subrange(start, s.len() as int) =~= s.subrange(start, i) + s.subrange(i, next) + s.subrange(
            next,
            s.len() as int,
        ));
    } else {
        lemma_split_from_joins(s, sep, start, i + 1);
    }
}

/// Splitting at a non-empty separator loses nothing: the pieces joined
/// with the separator give back the text, and there is at least one piece.
pub proof fn law_split_then_join(s: Seq<char>, sep: Seq<char>)
    requires
        sep.len() > 0,
    ensures
        split_on(s, sep).len() > 0,
        join_with(split_on(s, sep), sep) == s,
{
    lemma_split_from_joins(s, sep, 0, 0);
    assert(s.subrange(0, s.len() as int) =~= s);
}

/// Whether `sep` occurs in `chars` at position `i`.
fn occurs_at_in(chars: &Vec<char>, sep: &Vec<char>, i: usize) -> (occurs: bool)
    requires
        i <= chars.len(),
    ensures
        occurs == occurs_at(chars@, sep@, i as int),
{
    if sep.len() > chars.len() - i {
        return false;
    }
    let mut k: usize = 0;
    while k < sep.len()
        invariant
            k <= sep.len(),
            i + sep.len() <= chars.len(),
            forall|m: int| 0 <= m < k ==> chars@[i + m] == sep@[m],
        decreases sep.len() - k,
    {
        if chars[i + k] != sep[k] {
            assert(chars@.subrange(i as int, i + sep.len())[k as int] != sep@[k as int]);
            return false;
        }
        k = k + 1;
    }
    assert(chars@.subrange(i as int, i + sep.len()) =~= sep@);
    true
}

/// The pieces of `s` between the occurrences of the non-empty `sep`.
pub fn split_str(s: &str, sep: &str) -> (pieces: Vec<String>)
    requires
        sep@.len() > 0,
    ensures
        pieces.deep_view() == split_on(s@, sep@),
{
    let chars = collect_chars(s);
    let sep_chars = collect_chars(sep);
    let n = chars.len();
    let m = sep_chars.len();
    let mut pieces: Vec<String> = Vec::new();
    let mut start: usize = 0;
    let mut i: usize = 0;
    while m <= n - i
        invariant
            chars@ == s@,
            sep_chars@ == sep@,
            n == chars.len(),
            m == sep_chars.len(),
            m > 0,
            start <= i <= n,
            pieces.deep_view() + split_from(s@, sep@, start as int, i as int) == split_on(s@, sep@),
        decreases n - i,
    {
        if occurs_at_in(&chars, &sep_chars, i) {
            let piece = s.substring_char(start, i).to_owned();
            let ghost before = pieces.deep_view();
            pieces.push(piece);
            proof {
                assert(pieces.deep_view() =~= before.push(s@.subrange(start as int, i as int)));
                assert(pieces.deep_view() + split_from(s@, sep@, (i + m) as int, (i + m) as int) =~= before
                    + split_from(s@, sep@, start as int, i as int));
            }
            i = i + m;
            start = i;
        } else {
            i = i + 1;
        }
    }
    let last = s.substring_char(start, n).to_owned();
    let ghost before = pieces.deep_view();
    pieces.push(last);
    assert(pieces.deep_view() =~= before + split_from(s@, sep@, start as int, i as int));
    pieces
}

} // verus!
