//! Words, numbers and dates as text. Words and numbers are read and written
//! here; the clock and the calendar are `chrono`'s, taken on trust.

use std::fmt::Write;
use vstd::prelude::*;
use vstd::string::{StrSliceExecFns, StringExecFns};
use crate::models::Timestamp;

verus! {

/// The views of a list of strings, in order.
pub open spec fn words_view(words: Seq<String>) -> Seq<Seq<char>> {
    words.map_values(|w: String| w@)
}

/// Whether `c` is white space: a character with Unicode's White_Space
/// property.
pub open spec fn is_space(c: char) -> bool {
    let code = c as u32;
    ||| 0x09 <= code <= 0x0D
    ||| code == 0x20
    ||| code == 0x85
    ||| code == 0xA0
    ||| code == 0x1680
    ||| 0x2000 <= code <= 0x200A
    ||| code == 0x2028
    ||| code == 0x2029
    ||| code == 0x202F
    ||| code == 0x205F
    ||| code == 0x3000
}

/// The words of a line: its maximal runs of characters that are not white
/// space, in order. A character that is no white space lengthens the word
/// that the character before it belongs to, or begins a new word.
pub open spec fn whitespace_words(line: Seq<char>) -> Seq<Seq<char>>
    decreases line.len(),
{
    if line.len() == 0 {
        Seq::empty()
    } else {
        let front = line.drop_last();
        let before = whitespace_words(front);
        if is_space(line.last()) {
            before
        } else if front.len() > 0 && !is_space(front.last()) && before.len() > 0 {
            before.drop_last().push(before.last().push(line.last()))
        } else {
            before.push(seq![line.last()])
        }
    }
}

/// Tells whether a character is white space.
pub fn is_space_char(c: char) -> (space: bool)
    ensures
        space == is_space(c),
{
    let code: u32 = c as u32;
    (0x09 <= code && code <= 0x0D) || code == 0x20 || code == 0x85 || code == 0xA0 || code
        == 0x1680 || (0x2000 <= code && code <= 0x200A) || code == 0x2028 || code == 0x2029
        || code == 0x202F || code == 0x205F || code == 0x3000
}

/// Splits a line into its words.
pub fn split_words(line: &str) -> (words: Vec<String>)
    ensures
        words_view(words@) == whitespace_words(line@),
{
    let n = line.unicode_len();
    let mut words: Vec<String> = Vec::new();
    let mut start: usize = 0;
    let mut in_word = false;
    let mut i: usize = 0;
    while i < n
        invariant
            i <= n,
            n == line@.len(),
            in_word ==> start < i && !is_space(line@[i - 1]),
            !in_word ==> i == 0 || is_space(line@[i - 1]),
            in_word ==> whitespace_words(line@.take(i as int)) == words_view(words@).push(
                line@.subrange(start as int, i as int),
            ),
            !in_word ==> whitespace_words(line@.take(i as int)) == words_view(words@),
        decreases n - i,
    {
        let ghost seen = words_view(words@);
        proof {
            assert(line@.take(i + 1).drop_last() =~= line@.take(i as int));
            assert(line@.take(i + 1).last() == line@[i as int]);
            if i > 0 {
                assert(line@.take(i as int).last() == line@[i - 1]);
            }
        }
        if is_space_char(line.get_char(i)) {
            if in_word {
                words.push(String::from_str(line.substring_char(start, i)));
                in_word = false;
                proof {
                    assert(words_view(words@) =~= seen.push(line@.subrange(start as int, i as int)));
                }
            }
        } else {
            if in_word {
                proof {
                    let word = line@.subrange(start as int, i as int);
                    assert(seen.push(word).drop_last() =~= seen);
                    assert(word.push(line@[i as int]) =~= line@.subrange(start as int, i + 1));
                }
            } else {
                start = i;
                in_word = true;
                proof {
                    assert(seq![line@[i as int]] =~= line@.subrange(i as int, i + 1));
                }
            }
        }
        i += 1;
    }
    proof {
        assert(line@.take(i as int) =~= line@);
    }
    if in_word {
        let ghost seen = words_view(words@);
        words.push(String::from_str(line.substring_char(start, n)));
        proof {
            assert(words_view(words@) =~= seen.push(line@.subrange(start as int, n as int)));
        }
    }
    words
}

/// Whether `c` is one of the ten ASCII digits.
pub open spec fn is_digit(c: char) -> bool {
    '0' <= c <= '9'
}

/// The number that a run of decimal digits writes.
pub open spec fn digits_value(digits: Seq<char>) -> nat
    decreases digits.len(),
{
    if digits.len() == 0 {
        0
    } else {
        digits_value(digits.drop_last()) * 10 + (digits.last() as nat - '0' as nat) as nat
    }
}

/// A word without the `+` that may stand at its head.
pub open spec fn id_digits(word: Seq<char>) -> Seq<char> {
    if word.len() > 0 && word[0] == '+' {
        word.subrange(1, word.len() as int)
    } else {
        word
    }
}

/// The id that a word writes: decimal digits, at least one, after an optional
/// `+`, with a value that an id can hold. Any other word writes none.
pub open spec fn id_of_text(word: Seq<char>) -> Option<u32> {
    let digits = id_digits(word);
    if digits.len() > 0 && (forall|i: int| 0 <= i < digits.len() ==> is_digit(#[trigger] digits[i]))
        && digits_value(digits) <= u32::MAX {
        Some(digits_value(digits) as u32)
    } else {
        None
    }
}

/// A run of digits is worth at least as much as any of its beginnings.
proof fn lemma_digits_value_grows(digits: Seq<char>, k: int)
    requires
        0 <= k <= digits.len(),
    ensures
        digits_value(digits.take(k)) <= digits_value(digits),
    decreases digits.len(),
{
    if k == digits.len() {
        assert(digits.take(k) =~= digits);
    } else {
        let front = digits.drop_last();
        assert(front.take(k) =~= digits.take(k));
        lemma_digits_value_grows(front, k);
        assert(digits_value(front) <= digits_value(front) * 10) by (nonlinear_arith);
    }
}

/// Reads an id from a word: decimal digits after an optional `+`.
pub fn parse_id(word: &str) -> (id: Option<u32>)
    ensures
        id == id_of_text(word@),
{
    let n = word.unicode_len();
    let start: usize = if n > 0 && word.get_char(0) == '+' {
        1
    } else {
        0
    };
    let ghost digits = word@.subrange(start as int, n as int);
    proof {
        assert(digits =~= id_digits(word@));
    }
    if start == n {
        return None;
    }
    let mut value: u32 = 0;
    let mut i: usize = start;
    while i < n
        invariant
            start <= i <= n,
            n == word@.len(),
            digits == word@.subrange(start as int, n as int),
            digits == id_digits(word@),
            forall|k: int| 0 <= k < i - start ==> is_digit(#[trigger] digits[k]),
            value as nat == digits_value(digits.take(i - start)),
        decreases n - i,
    {
        let code: u32 = word.get_char(i) as u32;
        proof {
            assert(digits[i - start] == word@[i as int]);
            assert(digits.take(i - start + 1).drop_last() =~= digits.take(i - start));
            assert(digits.take(i - start + 1).last() == digits[i - start]);
            lemma_digits_value_grows(digits, i - start + 1);
        }
        if code < 48 || code > 57 {
            proof {
                assert(!is_digit(digits[i - start]));
            }
            return None;
        }
        let digit: u32 = code - 48;
        proof {
            assert(is_digit(digits[i - start]));
            assert(digits_value(digits.take(i - start + 1)) == value * 10 + digit);
        }
        if value > (u32::MAX - digit) / 10 {
            return None;
        }
        value = value * 10 + digit;
        i += 1;
    }
    proof {
        assert(digits.take(i - start) =~= digits);
    }
    Some(value)
}

/// The digit character for a value below ten.
pub open spec fn digit_char(d: nat) -> char
    recommends
        d < 10,
{
    (d + '0' as nat) as char
}

/// A number in decimal, without leading zeros; zero is `0`.
pub open spec fn decimal_digits(n: nat) -> Seq<char>
    decreases n,
{
    if n < 10 {
        seq![digit_char(n)]
    } else {
        decimal_digits(n / 10).push(digit_char(n % 10))
    }
}

fn digit_text(d: u32) -> (text: &'static str)
    requires
        d < 10,
    ensures
        text@ == seq![digit_char(d as nat)],
{
    proof {
        reveal_strlit("0");
        reveal_strlit("1");
        reveal_strlit("2");
        reveal_strlit("3");
        reveal_strlit("4");
        reveal_strlit("5");
        reveal_strlit("6");
        reveal_strlit("7");
        reveal_strlit("8");
        reveal_strlit("9");
    }
    let text = match d {
        0 => "0",
        1 => "1",
        2 => "2",
        3 => "3",
        4 => "4",
        5 => "5",
        6 => "6",
        7 => "7",
        8 => "8",
        _ => "9",
    };
    assert(text@ =~= seq![digit_char(d as nat)]);
    text
}

/// Writes an id in decimal, without sign or leading zeros.
pub fn id_text(id: u32) -> (text: String)
    ensures
        text@ == decimal_digits(id as nat),
    decreases id,
{
    if id < 10 {
        String::from_str(digit_text(id))
    } else {
        let mut text = id_text(id / 10);
        text.append(digit_text(id % 10));
        assert(text@ =~= decimal_digits(id as nat / 10).push(digit_char(id as nat % 10)));
        text
    }
}

/// The present moment.
///
/// Trusted: calls `chrono::Local::now`, then `DateTime::timestamp` and
/// `DateTime::timestamp_subsec_nanos` on what it returns. Nothing is claimed
/// of the result.
#[verifier::external_body]
pub(crate) fn current_time() -> (now: Timestamp) {
    let now = chrono::Local::now();
    Timestamp { seconds: now.timestamp(), nanos: now.timestamp_subsec_nanos() }
}

/// An instant as `YYYY-MM-DD HH:MM:SS` in the machine's time zone, or nothing
/// where the calendar cannot hold it.
///
/// Trusted: calls `chrono::TimeZone::timestamp_opt` on `chrono::Local` and
/// `DateTime::format`. The text depends on the time zone, so nothing is
/// claimed of it.
#[verifier::external_body]
pub(crate) fn local_date_text(date: Timestamp) -> (text: Option<String>) {
    let moment = chrono::TimeZone::timestamp_opt(&chrono::Local, date.seconds, date.nanos).single()?;
    let mut text = String::new();
    write!(text, "{}", moment.format("%Y-%m-%d %H:%M:%S")).ok()?;
    Some(text)
}

} // verus!
