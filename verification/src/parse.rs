//! Parsing free text into coordinates. The accepted shape is one
//! alphabetic character followed by one or more digits, tolerating
//! whitespace and punctuation at the beginning, at the end, and between
//! the letter and the digits — but never inside the digits. The letter is
//! normalized to upper case. A successfully parsed coordinate is not
//! inherently in bounds and must be validated against the live board.

use vstd::prelude::*;
use vstd::arithmetic::div_mod::lemma_fundamental_div_mod;
use vstd::arithmetic::div_mod::lemma_mod_bound;
use vstd::string::StrSliceExecFns;

use crate::coords::Coordinates;

verus! {

/// ASCII whitespace tolerated around the parts of an address.
pub open spec fn is_space_char(c: char) -> bool {
    c == ' ' || c == '\t' || c == '\n' || c == '\r' || c == '\u{b}' || c == '\u{c}'
}

/// ASCII punctuation tolerated around the parts of an address.
pub open spec fn is_punct_char(c: char) -> bool {
    ||| 0x21 <= c as u32 && c as u32 <= 0x2f
    ||| 0x3a <= c as u32 && c as u32 <= 0x40
    ||| 0x5b <= c as u32 && c as u32 <= 0x60
    ||| 0x7b <= c as u32 && c as u32 <= 0x7e
}

/// Filler that may surround the letter and the digits.
pub open spec fn is_filler_char(c: char) -> bool {
    is_space_char(c) || is_punct_char(c)
}

/// An ASCII letter, either case.
pub open spec fn is_letter_char(c: char) -> bool {
    ||| ('A' as u32) <= c as u32 && c as u32 <= ('Z' as u32)
    ||| ('a' as u32) <= c as u32 && c as u32 <= ('z' as u32)
}

/// An ASCII decimal digit.
pub open spec fn is_digit_char(c: char) -> bool {
    ('0' as u32) <= c as u32 && c as u32 <= ('9' as u32)
}

/// The numeric value of one digit.
pub open spec fn digit_value(c: char) -> nat {
    (c as u32 - '0' as u32) as nat
}

/// An ASCII lower-case letter mapped to upper case; anything else kept.
pub open spec fn to_upper_char(c: char) -> char {
    if ('a' as u32) <= c as u32 && c as u32 <= ('z' as u32) {
        ((c as u32 - 32) as u8) as char
    } else {
        c
    }
}

/// The first position at or after `i` holding no filler.
pub open spec fn skip_filler(s: Seq<char>, i: int) -> int
    decreases s.len() - i,
{
    if 0 <= i && i < s.len() && is_filler_char(s[i]) {
        skip_filler(s, i + 1)
    } else {
        i
    }
}

/// The first position at or after `i` holding no whitespace.
pub open spec fn skip_spaces(s: Seq<char>, i: int) -> int
    decreases s.len() - i,
{
    if 0 <= i && i < s.len() && is_space_char(s[i]) {
        skip_spaces(s, i + 1)
    } else {
        i
    }
}

/// The end of the digit run starting at `i`.
pub open spec fn scan_digits(s: Seq<char>, i: int) -> int
    decreases s.len() - i,
{
    if 0 <= i && i < s.len() && is_digit_char(s[i]) {
        scan_digits(s, i + 1)
    } else {
        i
    }
}

/// The start of the whitespace run ending just before `i`.
pub open spec fn space_suffix_start(s: Seq<char>, i: int) -> int
    decreases i,
{
    if 0 < i && i <= s.len() && is_space_char(s[i - 1]) {
        space_suffix_start(s, i - 1)
    } else {
        i
    }
}

/// The numeric value of a digit sequence, most significant first.
pub open spec fn digits_value(s: Seq<char>) -> nat
    decreases s.len(),
{
    if s.len() == 0 {
        0
    } else {
        digits_value(s.drop_last()) * 10 + digit_value(s.last())
    }
}

/// The text trimmed of leading and trailing whitespace.
pub open spec fn trimmed_text(s: Seq<char>) -> Seq<char> {
    let a = skip_spaces(s, 0);
    if a == s.len() {
        Seq::empty()
    } else {
        s.subrange(a, space_suffix_start(s, s.len() as int))
    }
}

/// What the text denotes: the letter, normalized to upper case, and the
/// numeric value of the digit run — or nothing where the text does not
/// match the accepted shape.
pub open spec fn text_coordinates(s: Seq<char>) -> Option<(char, nat)> {
    let a = skip_filler(s, 0);
    if a < s.len() && is_letter_char(s[a]) {
        let b = skip_filler(s, a + 1);
        let e = scan_digits(s, b);
        if b < e && skip_filler(s, e) == s.len() {
            Some((to_upper_char(s[a]), digits_value(s.subrange(b, e))))
        } else {
            None
        }
    } else {
        None
    }
}

/// Unparseable coordinate text; carries the trimmed original input.
#[derive(Debug, PartialEq, Eq)]
pub struct ParseError {
    pub input: String,
}

/// A digit run's end lies between its start and the end of the text.
pub proof fn lemma_scan_digits_bounds(s: Seq<char>, i: int)
    requires
        0 <= i <= s.len(),
    ensures
        i <= scan_digits(s, i) <= s.len(),
    decreases s.len() - i,
{
    if i < s.len() && is_digit_char(s[i]) {
        lemma_scan_digits_bounds(s, i + 1);
    }
}

/// A digit sequence is worth at least any of its prefixes.
pub proof fn lemma_digits_value_prefix(s: Seq<char>, m: int)
    requires
        0 <= m <= s.len(),
    ensures
        digits_value(s) >= digits_value(s.subrange(0, m)),
    decreases s.len() - m,
{
    if m == s.len() {
        assert(s.subrange(0, m) =~= s);
    } else {
        assert(s.subrange(0, m + 1).drop_last() =~= s.subrange(0, m));
        assert(digits_value(s.subrange(0, m + 1)) == digits_value(s.subrange(0, m)) * 10
            + digit_value(s[m]));
        lemma_digits_value_prefix(s, m + 1);
    }
}

fn char_is_space(c: char) -> (r: bool)
    ensures
        r == is_space_char(c),
{
    c == ' ' || c == '\t' || c == '\n' || c == '\r' || c == '\u{b}' || c == '\u{c}'
}

fn char_is_filler(c: char) -> (r: bool)
    ensures
        r == is_filler_char(c),
{
    let u = c as u32;
    char_is_space(c) || (0x21 <= u && u <= 0x2f) || (0x3a <= u && u <= 0x40) || (0x5b <= u && u
        <= 0x60) || (0x7b <= u && u <= 0x7e)
}

fn char_is_letter(c: char) -> (r: bool)
    ensures
        r == is_letter_char(c),
{
    let u = c as u32;
    (65 <= u && u <= 90) || (97 <= u && u <= 122)
}

fn char_is_digit(c: char) -> (r: bool)
    ensures
        r == is_digit_char(c),
{
    let u = c as u32;
    48 <= u && u <= 57
}

fn char_to_upper(c: char) -> (r: char)
    ensures
        r == to_upper_char(c),
{
    let u = c as u32;
    if 97 <= u && u <= 122 {
        ((u - 32) as u8) as char
    } else {
        c
    }
}

/// The input with leading and trailing whitespace removed.
#[verifier::loop_isolation(false)]
fn trimmed_string(input: &str) -> (r: String)
    ensures
        r@ == trimmed_text(input@),
{
    let ghost s = input@;
    let n = input.unicode_len();
    let mut a: usize = 0;
    while a < n && char_is_space(input.get_char(a))
        invariant
            s == input@,
            n == s.len(),
            a <= n,
            skip_spaces(s, 0) == skip_spaces(s, a as int),
        decreases n - a,
    {
        a = a + 1;
    }
    if a == n {
        return input.substring_char(0, 0).to_owned();
    }
    let mut b: usize = n;
    while b > a && char_is_space(input.get_char(b - 1))
        invariant
            s == input@,
            n == s.len(),
            a < n,
            !is_space_char(s[a as int]),
            a < b <= n,
            space_suffix_start(s, n as int) == space_suffix_start(s, b as int),
        decreases b,
    {
        b = b - 1;
    }
    input.substring_char(a, b).to_owned()
}

impl Coordinates {
    /// Parses free text into coordinates: the letter, normalized to upper
    /// case, becomes the column and the digit run the one-indexed row.
    /// Fails, reporting the trimmed input, where the text does not match
    /// the accepted shape or the number does not fit the machine word.
    #[verifier::loop_isolation(false)]
    pub fn from_user_input(input: &str) -> (r: Result<Coordinates, ParseError>)
        ensures
            match r {
                Ok(c) => text_coordinates(input@) matches Some((letter, value)) && c.column
                    == letter && c.row == value,
                Err(e) => {
                    &&& match text_coordinates(input@) {
                        Some(pair) => pair.1 > usize::MAX,
                        None => true,
                    }
                    &&& e.input@ == trimmed_text(input@)
                },
            },
    {
        let ghost s = input@;
        let n = input.unicode_len();
        let mut i: usize = 0;
        while i < n && char_is_filler(input.get_char(i))
            invariant
                s == input@,
                n == s.len(),
                i <= n,
                skip_filler(s, 0) == skip_filler(s, i as int),
            decreases n - i,
        {
            i = i + 1;
        }
        let ghost a = i as int;
        if i == n {
            return Err(ParseError { input: trimmed_string(input) });
        }
        let letter = input.get_char(i);
        if !char_is_letter(letter) {
            return Err(ParseError { input: trimmed_string(input) });
        }
        let column = char_to_upper(letter);
        i = i + 1;
        while i < n && char_is_filler(input.get_char(i))
            invariant
                s == input@,
                n == s.len(),
                i <= n,
                a + 1 <= i as int,
                skip_filler(s, a + 1) == skip_filler(s, i as int),
            decreases n - i,
        {
            i = i + 1;
        }
        let ghost b = i as int;
        let digits_start = i;
        let mut row: usize = 0;
        while i < n && char_is_digit(input.get_char(i))
            invariant
                s == input@,
                n == s.len(),
                0 <= a < n,
                a == skip_filler(s, 0),
                is_letter_char(s[a]),
                b == skip_filler(s, a + 1),
                b <= i as int <= n,
                scan_digits(s, b) == scan_digits(s, i as int),
                row == digits_value(s.subrange(b, i as int)),
            decreases n - i,
        {
            let c = input.get_char(i);
            let u = c as u32;
            let d = (u - 48) as usize;
            let threshold = (usize::MAX - d) / 10;
            proof {
                lemma_fundamental_div_mod((usize::MAX - d) as int, 10);
                lemma_mod_bound((usize::MAX - d) as int, 10);
                assert(s.subrange(b, i as int + 1).drop_last() =~= s.subrange(b, i as int));
                assert(s.subrange(b, i as int + 1).last() == s[i as int]);
            }
            if row > threshold {
                proof {
                    let e2 = scan_digits(s, b);
                    lemma_scan_digits_bounds(s, i as int + 1);
                    assert(e2 == scan_digits(s, i as int + 1));
                    if text_coordinates(s) is Some {
                        assert(s.subrange(b, e2).subrange(0, i as int + 1 - b) =~= s.subrange(
                            b,
                            i as int + 1,
                        ));
                        lemma_digits_value_prefix(s.subrange(b, e2), i as int + 1 - b);
                        assert(digit_value(s[i as int]) == d);
                        assert(digits_value(s.subrange(b, i as int + 1)) == row * 10 + digit_value(
                            s[i as int],
                        ));
                        assert(10 * threshold + d + 9 >= usize::MAX);
                        assert(row * 10 + d > usize::MAX);
                        assert(digits_value(s.subrange(b, e2)) > usize::MAX);
                    }
                }
                return Err(ParseError { input: trimmed_string(input) });
            }
            row = row * 10 + d;
            i = i + 1;
        }
        if i == digits_start {
            return Err(ParseError { input: trimmed_string(input) });
        }
        let ghost e = i as int;
        while i < n && char_is_filler(input.get_char(i))
            invariant
                s == input@,
                n == s.len(),
                i <= n,
                e <= i as int,
                skip_filler(s, e) == skip_filler(s, i as int),
            decreases n - i,
        {
            i = i + 1;
        }
        if i < n {
            return Err(ParseError { input: trimmed_string(input) });
        }
        Ok(Coordinates { column, row })
    }
}

} // verus!
