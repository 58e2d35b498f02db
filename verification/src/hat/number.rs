//! Which words of a formula are numeric literals.
//!
//! A literal is an optional sign followed by `inf`, `infinity`, `nan`, or a
//! decimal number: digits with at most one point among them, at least one
//! digit in all, and optionally an exponent (`e`, an optional sign, digits).
//! Letters count in either case.

use vstd::prelude::*;

verus! {

pub open spec fn is_digit(c: char) -> bool {
    '0' <= c <= '9'
}

pub open spec fn is_sign(c: char) -> bool {
    c == '+' || c == '-'
}

/// Whether `c` is the lower-case letter `lower` or its capital.
pub open spec fn is_letter(c: char, lower: char, upper: char) -> bool {
    c == lower || c == upper
}

/// The end of the run of digits that starts at `i`: the first position from
/// `i` on that holds no digit.
pub open spec fn digits_end(s: Seq<char>, i: int) -> int
    decreases s.len() - i,
{
    if 0 <= i < s.len() && is_digit(s[i]) {
        digits_end(s, i + 1)
    } else {
        i
    }
}

/// `inf`, `infinity` or `nan`.
pub open spec fn is_special(s: Seq<char>) -> bool {
    ||| {
        &&& s.len() == 3
        &&& is_letter(s[0], 'i', 'I')
        &&& is_letter(s[1], 'n', 'N')
        &&& is_letter(s[2], 'f', 'F')
    }
    ||| {
        &&& s.len() == 3
        &&& is_letter(s[0], 'n', 'N')
        &&& is_letter(s[1], 'a', 'A')
        &&& is_letter(s[2], 'n', 'N')
    }
    ||| {
        &&& s.len() == 8
        &&& is_letter(s[0], 'i', 'I')
        &&& is_letter(s[1], 'n', 'N')
        &&& is_letter(s[2], 'f', 'F')
        &&& is_letter(s[3], 'i', 'I')
        &&& is_letter(s[4], 'n', 'N')
        &&& is_letter(s[5], 'i', 'I')
        &&& is_letter(s[6], 't', 'T')
        &&& is_letter(s[7], 'y', 'Y')
    }
}

/// Whether an exponent starts at `i` and runs to the end of `s`.
pub open spec fn is_exponent(s: Seq<char>, i: int) -> bool {
    let digits = if i + 1 < s.len() && is_sign(s[i + 1]) {
        i + 2
    } else {
        i + 1
    };
    &&& 0 <= i < s.len()
    &&& is_letter(s[i], 'e', 'E')
    &&& digits < s.len()
    &&& digits_end(s, digits) == s.len()
}

/// Where the mantissa that starts at `i` ends: after the digits, and after
/// the point and the digits behind it if there is a point.
pub open spec fn mantissa_end(s: Seq<char>, i: int) -> int {
    let whole = digits_end(s, i);
    if whole < s.len() && s[whole] == '.' {
        digits_end(s, whole + 1)
    } else {
        whole
    }
}

/// How many digits the mantissa that starts at `i` holds.
pub open spec fn mantissa_digits(s: Seq<char>, i: int) -> int {
    let whole = digits_end(s, i);
    if whole < s.len() && s[whole] == '.' {
        mantissa_end(s, i) - i - 1
    } else {
        whole - i
    }
}

/// Whether a decimal number starts at `i` and runs to the end of `s`.
pub open spec fn is_decimal(s: Seq<char>, i: int) -> bool {
    let end = mantissa_end(s, i);
    &&& mantissa_digits(s, i) > 0
    &&& (end == s.len() || is_exponent(s, end))
}

/// Whether `s` is a numeric literal.
pub open spec fn is_number(s: Seq<char>) -> bool {
    if s.len() > 0 && is_sign(s[0]) {
        is_special(s.skip(1)) || is_decimal(s, 1)
    } else {
        is_special(s) || is_decimal(s, 0)
    }
}

fn digit(c: char) -> (b: bool)
    ensures
        b == is_digit(c),
{
    '0' <= c && c <= '9'
}

fn sign(c: char) -> (b: bool)
    ensures
        b == is_sign(c),
{
    c == '+' || c == '-'
}

fn letter(c: char, lower: char, upper: char) -> (b: bool)
    ensures
        b == is_letter(c, lower, upper),
{
    c == lower || c == upper
}

/// Scans the digits of `word` from `i` on.
fn scan_digits(word: &Vec<char>, i: usize) -> (end: usize)
    requires
        i <= word.len(),
    ensures
        end == digits_end(word@, i as int),
        i <= end <= word.len(),
{
    let mut k: usize = i;
    while k < word.len() && digit(word[k])
        invariant
            i <= k <= word.len(),
            digits_end(word@, i as int) == digits_end(word@, k as int),
        decreases word.len() - k,
    {
        k = k + 1;
    }
    k
}

fn special(word: &Vec<char>, from: usize) -> (b: bool)
    requires
        from <= word.len(),
    ensures
        b == is_special(word@.skip(from as int)),
{
    let n: usize = word.len() - from;
    if n == 3 {
        let inf = letter(word[from], 'i', 'I') && letter(word[from + 1], 'n', 'N') && letter(
            word[from + 2],
            'f',
            'F',
        );
        let nan = letter(word[from], 'n', 'N') && letter(word[from + 1], 'a', 'A') && letter(
            word[from + 2],
            'n',
            'N',
        );
        inf || nan
    } else if n == 8 {
        letter(word[from], 'i', 'I') && letter(word[from + 1], 'n', 'N') && letter(
            word[from + 2],
            'f',
            'F',
        ) && letter(word[from + 3], 'i', 'I') && letter(word[from + 4], 'n', 'N') && letter(
            word[from + 5],
            'i',
            'I',
        ) && letter(word[from + 6], 't', 'T') && letter(word[from + 7], 'y', 'Y')
    } else {
        false
    }
}

fn exponent(word: &Vec<char>, i: usize) -> (b: bool)
    requires
        i < word.len(),
    ensures
        b == is_exponent(word@, i as int),
{
    if !letter(word[i], 'e', 'E') {
        return false;
    }
    let digits: usize = if i + 1 < word.len() && sign(word[i + 1]) {
        i + 2
    } else {
        i + 1
    };
    digits < word.len() && scan_digits(word, digits) == word.len()
}

fn decimal(word: &Vec<char>, i: usize) -> (b: bool)
    requires
        i <= word.len(),
    ensures
        b == is_decimal(word@, i as int),
{
    let whole = scan_digits(word, i);
    let mut end: usize = whole;
    let mut digits: usize = whole - i;
    if whole < word.len() && word[whole] == '.' {
        end = scan_digits(word, whole + 1);
        digits = end - i - 1;
    }
    digits > 0 && (end == word.len() || exponent(word, end))
}

/// Whether `word` is a numeric literal.
pub(crate) fn number(word: &Vec<char>) -> (b: bool)
    ensures
        b == is_number(word@),
{
    if word.len() > 0 && sign(word[0]) {
        special(word, 1) || decimal(word, 1)
    } else {
        assert(word@.skip(0) =~= word@);
        special(word, 0) || decimal(word, 0)
    }
}

} // verus!
