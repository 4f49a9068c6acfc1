//! Coordinates typed at a console: a line such as `3, 5` names a row and a
//! column.

use vstd::prelude::*;

use crate::model::game::Coord;

verus! {

/// `c` is white space: a character with the Unicode property `White_Space`.
pub open spec fn is_whitespace(c: char) -> bool {
    ||| '\u{9}' <= c <= '\u{d}'
    ||| c == ' '
    ||| c == '\u{85}'
    ||| c == '\u{a0}'
    ||| c == '\u{1680}'
    ||| '\u{2000}' <= c <= '\u{200a}'
    ||| c == '\u{2028}'
    ||| c == '\u{2029}'
    ||| c == '\u{202f}'
    ||| c == '\u{205f}'
    ||| c == '\u{3000}'
}

/// `s` without the white space at its start.
pub open spec fn trim_start(s: Seq<char>) -> Seq<char>
    decreases s.len(),
{
    if s.len() > 0 && is_whitespace(s[0]) {
        trim_start(s.drop_first())
    } else {
        s
    }
}

/// `s` without the white space at its end.
pub open spec fn trim_end(s: Seq<char>) -> Seq<char>
    decreases s.len(),
{
    if s.len() > 0 && is_whitespace(s.last()) {
        trim_end(s.drop_last())
    } else {
        s
    }
}

/// `s` without the white space at its start and at its end.
pub open spec fn trimmed(s: Seq<char>) -> Seq<char> {
    trim_end(trim_start(s))
}

/// `c` is one of the digits `0` to `9`.
pub open spec fn is_digit(c: char) -> bool {
    '0' <= c <= '9'
}

/// The number that the digit `c` stands for.
pub open spec fn digit_value(c: char) -> nat {
    (c as u32 - '0' as u32) as nat
}

/// Every character of `s` is a digit.
pub open spec fn is_digits(s: Seq<char>) -> bool {
    forall|i: int| 0 <= i < s.len() ==> is_digit(#[trigger] s[i])
}

/// The number that the digits of `s` write in decimal.
pub open spec fn digits_value(s: Seq<char>) -> nat
    decreases s.len(),
{
    if s.len() == 0 {
        0
    } else {
        10 * digits_value(s.drop_last()) + digit_value(s.last())
    }
}

/// `s` without a plus sign at its start.
pub open spec fn unsigned_part(s: Seq<char>) -> Seq<char> {
    if s.len() > 0 && s[0] == '+' {
        s.drop_first()
    } else {
        s
    }
}

/// The number that `s` writes: one or more digits, possibly after a plus
/// sign, whose value fits a `usize`. Anything else writes no number.
pub open spec fn parsed_number(s: Seq<char>) -> Option<usize> {
    let body = unsigned_part(s);
    if body.len() > 0 && is_digits(body) && digits_value(body) <= usize::MAX {
        Some(digits_value(body) as usize)
    } else {
        None
    }
}

/// Whether `s`, white space at its ends set aside, writes a number between
/// `lower` and `upper`, and that number; zero where it writes none.
pub open spec fn checked_number(s: Seq<char>, lower: usize, upper: usize) -> (bool, usize) {
    match parsed_number(trimmed(s)) {
        Some(val) => (lower <= val <= upper, val),
        None => (false, 0),
    }
}

/// Where the first comma of `s` stands; the length of `s` if it has none.
pub open spec fn first_comma(s: Seq<char>) -> int
    decreases s.len(),
{
    if s.len() == 0 || s[0] == ',' {
        0
    } else {
        1 + first_comma(s.drop_first())
    }
}

/// Why a line names no coordinate.
#[derive(Clone, Copy, PartialEq, Eq, Debug, Structural)]
pub enum CoordInputError {
    /// The line is not two parts with one comma between them.
    NotTwoParts,
    /// One of the parts is no number from zero to the upper bound.
    NotInRange,
}

/// The coordinate that `line` names: a row and a column from zero to
/// `upper`, with one comma between them.
pub open spec fn parsed_coord(line: Seq<char>, upper: usize) -> Result<Coord, CoordInputError> {
    let comma = first_comma(line);
    let rest = line.skip(comma + 1);
    if comma == line.len() || first_comma(rest) != rest.len() {
        Err(CoordInputError::NotTwoParts)
    } else {
        let row = checked_number(line.take(comma), 0, upper);
        let col = checked_number(rest, 0, upper);
        if row.0 && col.0 {
            Ok(Coord(row.1, col.1))
        } else {
            Err(CoordInputError::NotInRange)
        }
    }
}

/// Past the white space at its start, `s` goes on from the first character
/// that is none.
pub proof fn lemma_trim_start(s: Seq<char>, i: int)
    requires
        0 <= i <= s.len(),
        forall|j: int| 0 <= j < i ==> is_whitespace(#[trigger] s[j]),
        i == s.len() || !is_whitespace(s[i]),
    ensures
        trim_start(s) == s.skip(i),
    decreases i,
{
    if i == 0 {
        assert(s.skip(0) =~= s);
    } else {
        assert(is_whitespace(s[0]));
        let rest = s.drop_first();
        assert forall|j: int| 0 <= j < i - 1 implies is_whitespace(#[trigger] rest[j]) by {
            assert(rest[j] == s[j + 1]);
        }
        lemma_trim_start(rest, i - 1);
        assert(rest.skip(i - 1) =~= s.skip(i));
    }
}

/// Before the white space at its end, `s` stops after the last character
/// that is none.
pub proof fn lemma_trim_end(s: Seq<char>, k: int)
    requires
        0 <= k <= s.len(),
        forall|j: int| k <= j < s.len() ==> is_whitespace(#[trigger] s[j]),
        k == 0 || !is_whitespace(s[k - 1]),
    ensures
        trim_end(s) == s.take(k),
    decreases s.len() - k,
{
    if k == s.len() {
        assert(s.take(k) =~= s);
    } else {
        assert(is_whitespace(s.last()));
        let front = s.drop_last();
        assert forall|j: int| k <= j < front.len() implies is_whitespace(#[trigger] front[j]) by {
            assert(front[j] == s[j]);
        }
        lemma_trim_end(front, k);
        assert(front.take(k) =~= s.take(k));
    }
}

/// A start of a digit sequence writes no greater number than the whole.
pub proof fn lemma_value_grows(s: Seq<char>, k: int)
    requires
        0 <= k <= s.len(),
    ensures
        digits_value(s.take(k)) <= digits_value(s),
    decreases s.len(),
{
    if k == s.len() {
        assert(s.take(k) =~= s);
    } else {
        lemma_value_grows(s.drop_last(), k);
        assert(s.drop_last().take(k) =~= s.take(k));
    }
}

/// The first comma of `s` stands at `i` if none stands before it and one
/// stands there, or `s` ends there.
pub proof fn lemma_first_comma(s: Seq<char>, i: int)
    requires
        0 <= i <= s.len(),
        forall|j: int| 0 <= j < i ==> #[trigger] s[j] != ',',
        i == s.len() || s[i] == ',',
    ensures
        first_comma(s) == i,
    decreases i,
{
    if i > 0 {
        let rest = s.drop_first();
        assert forall|j: int| 0 <= j < i - 1 implies #[trigger] rest[j] != ',' by {
            assert(rest[j] == s[j + 1]);
        }
        lemma_first_comma(rest, i - 1);
    }
}

/// The characters of `s`, one by one.
pub fn chars_of(s: &str) -> (chars: Vec<char>)
    ensures
        chars@ == s@,
{
    let mut chars: Vec<char> = Vec::new();
    for c in it: s.chars()
        invariant
            it.seq() == s@,
            chars@ == s@.take(it.index() as int),
    {
        chars.push(c);
        assert(s@.take(it.index() + 1) =~= s@.take(it.index() as int).push(c));
    }
    assert(s@.take(s@.len() as int) =~= s@);
    chars
}

fn char_is_whitespace(c: char) -> (white: bool)
    ensures
        white == is_whitespace(c),
{
    ('\u{9}' <= c && c <= '\u{d}') || c == ' ' || c == '\u{85}' || c == '\u{a0}' || c == '\u{1680}'
        || ('\u{2000}' <= c && c <= '\u{200a}') || c == '\u{2028}' || c == '\u{2029}' || c
        == '\u{202f}' || c == '\u{205f}' || c == '\u{3000}'
}

/// The number that the characters from `from` up to `to` write, white space
/// at their ends set aside.
fn parse_number_in(chars: &Vec<char>, from: usize, to: usize) -> (number: Option<usize>)
    requires
        from <= to <= chars@.len(),
    ensures
        number == parsed_number(trimmed(chars@.subrange(from as int, to as int))),
{
    let ghost part = chars@.subrange(from as int, to as int);
    let mut start: usize = from;
    while start < to && char_is_whitespace(chars[start])
        invariant
            from <= start <= to <= chars@.len(),
            forall|j: int| from <= j < start ==> is_whitespace(#[trigger] chars@[j]),
        decreases to - start,
    {
        start += 1;
    }
    let mut end: usize = to;
    while end > start && char_is_whitespace(chars[end - 1])
        invariant
            start <= end <= to <= chars@.len(),
            forall|j: int| end <= j < to ==> is_whitespace(#[trigger] chars@[j]),
        decreases end - start,
    {
        end -= 1;
    }
    let ghost text = chars@.subrange(start as int, end as int);
    proof {
        lemma_trim_start(part, start - from);
        assert(part.skip(start - from) =~= chars@.subrange(start as int, to as int));
        lemma_trim_end(chars@.subrange(start as int, to as int), end - start);
        assert(chars@.subrange(start as int, to as int).take(end - start) =~= text);
        assert(trimmed(part) == text);
    }
    let first: usize = if start < end && chars[start] == '+' {
        start + 1
    } else {
        start
    };
    let ghost body = chars@.subrange(first as int, end as int);
    assert(unsigned_part(text) =~= body);
    if first == end {
        return None;
    }
    let mut value: usize = 0;
    let mut i: usize = first;
    while i < end
        invariant
            from <= to <= chars@.len(),
            first <= i <= end <= chars@.len(),
            first < end,
            part == chars@.subrange(from as int, to as int),
            trimmed(part) == text,
            unsigned_part(text) == body,
            body == chars@.subrange(first as int, end as int),
            is_digits(body.take(i - first)),
            value == digits_value(body.take(i - first)),
        decreases end - i,
    {
        let c = chars[i];
        if !('0' <= c && c <= '9') {
            assert(!is_digit(body[i - first]));
            return None;
        }
        let d: usize = ((c as u32) - ('0' as u32)) as usize;
        proof {
            let longer = body.take(i - first + 1);
            assert(longer.drop_last() =~= body.take(i - first));
            assert(longer.last() == c);
            assert(digits_value(longer) == 10 * value + d);
            assert forall|j: int| 0 <= j < longer.len() implies is_digit(#[trigger] longer[j]) by {
                if j < i - first {
                    assert(body.take(i - first)[j] == longer[j]);
                }
            }
            lemma_value_grows(body, i - first + 1);
        }
        if value > (usize::MAX - d) / 10 {
            return None;
        }
        value = 10 * value + d;
        i += 1;
    }
    assert(body.take(end - first) =~= body);
    Some(value)
}

/// Whether the characters from `from` up to `to` write a number between
/// `lower` and `upper`, and that number; zero where they write none.
fn check_number_in(chars: &Vec<char>, from: usize, to: usize, lower: usize, upper: usize) -> (checked:
    (bool, usize))
    requires
        from <= to <= chars@.len(),
    ensures
        checked == checked_number(chars@.subrange(from as int, to as int), lower, upper),
{
    match parse_number_in(chars, from, to) {
        Some(val) => (val >= lower && val <= upper, val),
        None => (false, 0),
    }
}

/// Whether `s`, white space at its ends set aside, writes a number between
/// `lower` and `upper`, and that number; zero where it writes none.
pub fn parse_and_check_bounds(s: &str, lower: usize, upper: usize) -> (checked: (bool, usize))
    ensures
        checked == checked_number(s@, lower, upper),
{
    let chars = chars_of(s);
    assert(chars@.subrange(0, chars@.len() as int) =~= s@);
    check_number_in(&chars, 0, chars.len(), lower, upper)
}

/// Where the first comma from `from` on stands; the length if none does.
fn find_comma(chars: &Vec<char>, from: usize) -> (at: usize)
    requires
        from <= chars@.len(),
    ensures
        from <= at <= chars@.len(),
        at - from == first_comma(chars@.skip(from as int)),
{
    let mut at: usize = from;
    while at < chars.len() && chars[at] != ','
        invariant
            from <= at <= chars@.len(),
            forall|j: int| from <= j < at ==> #[trigger] chars@[j] != ',',
        decreases chars@.len() - at,
    {
        at += 1;
    }
    proof {
        lemma_first_comma(chars@.skip(from as int), at - from);
    }
    at
}

/// The coordinate that `line` names: a row and a column from zero to
/// `upper`, with one comma between them.
pub fn parse_coord(line: &str, upper: usize) -> (coord: Result<Coord, CoordInputError>)
    ensures
        coord == parsed_coord(line@, upper),
{
    let chars = chars_of(line);
    let len = chars.len();
    assert(chars@.skip(0) =~= line@);
    let comma = find_comma(&chars, 0);
    if comma == len {
        return Err(CoordInputError::NotTwoParts);
    }
    let ghost rest = line@.skip(comma + 1);
    let second = find_comma(&chars, comma + 1);
    if second != len {
        return Err(CoordInputError::NotTwoParts);
    }
    assert(chars@.subrange(0, comma as int) =~= line@.take(comma as int));
    assert(chars@.subrange(comma + 1, len as int) =~= rest);
    let row = check_number_in(&chars, 0, comma, 0, upper);
    let col = check_number_in(&chars, comma + 1, len, 0, upper);
    if row.0 && col.0 {
        Ok(Coord(row.1, col.1))
    } else {
        Err(CoordInputError::NotInRange)
    }
}

} // verus!
