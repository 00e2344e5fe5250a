//! Text as sequences of characters: decimal notation of fixed-point numbers,
//! and the conversions between strings and characters.

use vstd::prelude::*;
use vstd::string::StrSliceExecFns;
use crate::fixed::{saturate, SCALE};

verus! {

/// Whether a character is alphabetic, as `char::is_alphabetic` tells.
pub uninterp spec fn alphabetic(c: char) -> bool;

/// Calls `char::is_alphabetic`, which tells from the Unicode tables whether
/// a character is alphabetic. The result depends on the character alone and
/// is given the name `alphabetic`.
#[verifier::external_body]
pub(crate) fn is_alphabetic(c: char) -> (r: bool)
    ensures
        r == alphabetic(c),
{
    c.is_alphabetic()
}

/// Whether a character is white space, as `char::is_whitespace` tells.
pub uninterp spec fn whitespace(c: char) -> bool;

/// Calls `char::is_whitespace`, which tells whether a character has the
/// Unicode property of white space. The result depends on the character
/// alone and is given the name `whitespace`.
#[verifier::external_body]
pub(crate) fn is_whitespace(c: char) -> (r: bool)
    ensures
        r == whitespace(c),
{
    c.is_whitespace()
}

/// Calls `String::push`, which appends one character to the end of the
/// string.
#[verifier::external_body]
fn push_char(text: &mut String, c: char)
    ensures
        final(text)@ == old(text)@.push(c),
{
    text.push(c)
}

/// The string of the characters, in order.
pub fn string_of(chars: &Vec<char>) -> (s: String)
    ensures
        s@ == chars@,
{
    let mut s: String = String::new();
    let mut i: usize = 0;
    assert(s@ =~= chars@.take(0));
    while i < chars.len()
        invariant
            0 <= i <= chars@.len(),
            s@ == chars@.take(i as int),
        decreases chars@.len() - i,
    {
        push_char(&mut s, chars[i]);
        assert(s@ =~= chars@.take(i + 1));
        i = i + 1;
    }
    assert(chars@.take(i as int) =~= chars@);
    s
}

/// The characters of a string, in order.
pub fn chars_of(s: &str) -> (chars: Vec<char>)
    ensures
        chars@ == s@,
{
    let n: usize = s.unicode_len();
    let mut chars: Vec<char> = Vec::new();
    let mut i: usize = 0;
    while i < n
        invariant
            0 <= i <= n,
            n == s@.len(),
            chars@ == s@.take(i as int),
        decreases n - i,
    {
        chars.push(s.get_char(i));
        assert(chars@ =~= s@.take(i + 1));
        i = i + 1;
    }
    assert(s@.take(n as int) =~= s@);
    chars
}

/// Whether a character is a decimal digit.
pub open spec fn is_digit(c: char) -> bool {
    '0' <= c <= '9'
}

/// The value of a decimal digit.
pub open spec fn digit_value(c: char) -> int {
    c as int - '0' as int
}

/// The digit of a value from zero to nine.
pub open spec fn digit_char(d: int) -> char {
    (d + '0' as int) as u8 as char
}

/// The number that a run of decimal digits denotes.
pub open spec fn digits_value(digits: Seq<char>) -> nat
    decreases digits.len(),
{
    if digits.len() == 0 {
        0
    } else {
        (digits_value(digits.drop_last()) * 10 + digit_value(digits.last())) as nat
    }
}

/// The first six of the digits after a decimal point, filled up with zeros
/// where there are fewer.
pub open spec fn six_places(digits: Seq<char>) -> Seq<char> {
    Seq::new(
        6,
        |i: int|
            if i < digits.len() {
                digits[i]
            } else {
                '0'
            },
    )
}

/// The fixed-point number that the digits before and after a decimal point
/// denote. Digits beyond the sixth place are cut off, and a number too
/// large is the greatest number.
pub open spec fn number_value(whole_digits: Seq<char>, fraction_digits: Seq<char>) -> i64 {
    saturate(digits_value(whole_digits) * SCALE + digits_value(six_places(fraction_digits)))
}

/// The decimal digits of a natural number, without leading zeros; zero is
/// `0`.
pub open spec fn natural_text(n: nat) -> Seq<char>
    decreases n,
{
    if n < 10 {
        seq![digit_char(n as int)]
    } else {
        natural_text(n / 10).push(digit_char((n % 10) as int))
    }
}

/// The six digits of a number of millionths below one, without the zeros at
/// the end.
pub open spec fn fraction_text(micro: nat, places: nat) -> Seq<char>
    decreases places,
{
    if places == 0 || micro == 0 {
        Seq::empty()
    } else {
        seq![digit_char((micro / pow10((places - 1) as nat)) as int)] + fraction_text(
            micro % pow10((places - 1) as nat),
            (places - 1) as nat,
        )
    }
}

/// Ten to the power of `n`.
pub open spec fn pow10(n: nat) -> nat
    decreases n,
{
    if n == 0 {
        1
    } else {
        10 * pow10((n - 1) as nat)
    }
}

/// The decimal notation of a fixed-point number: a minus sign if it is
/// negative, the whole part, and, unless the fraction is zero, a point and
/// the fraction without zeros at its end.
pub open spec fn number_text(n: i64) -> Seq<char> {
    let magnitude: nat = if n < 0 {
        (-n) as nat
    } else {
        n as nat
    };
    let sign: Seq<char> = if n < 0 {
        seq!['-']
    } else {
        Seq::empty()
    };
    let whole_part = natural_text(magnitude / (SCALE as nat));
    let micro = magnitude % (SCALE as nat);
    if micro == 0 {
        sign + whole_part
    } else {
        sign + whole_part + seq!['.'] + fraction_text(micro, 6)
    }
}

fn digit_of(d: u64) -> (c: char)
    requires
        d < 10,
    ensures
        c == digit_char(d as int),
        is_digit(c),
        digit_value(c) == d,
{
    (d as u8 + 48u8) as char
}

fn natural_chars(n: u64) -> (chars: Vec<char>)
    ensures
        chars@ == natural_text(n as nat),
    decreases n,
{
    if n < 10 {
        let mut chars: Vec<char> = Vec::new();
        chars.push(digit_of(n));
        assert(chars@ =~= natural_text(n as nat));
        chars
    } else {
        let mut chars: Vec<char> = natural_chars(n / 10);
        chars.push(digit_of(n % 10));
        chars
    }
}

fn power_of_ten(n: u32) -> (p: u64)
    requires
        n <= 6,
    ensures
        p == pow10(n as nat),
        1 <= p <= 1_000_000,
{
    proof {
        reveal_with_fuel(pow10, 7);
    }
    if n == 0 {
        1
    } else if n == 1 {
        10
    } else if n == 2 {
        100
    } else if n == 3 {
        1_000
    } else if n == 4 {
        10_000
    } else if n == 5 {
        100_000
    } else {
        1_000_000
    }
}

fn fraction_chars(micro: u64, places: u32) -> (chars: Vec<char>)
    requires
        places <= 6,
        micro < pow10(places as nat),
    ensures
        chars@ == fraction_text(micro as nat, places as nat),
    decreases places,
{
    if places == 0 || micro == 0 {
        Vec::new()
    } else {
        let unit: u64 = power_of_ten(places - 1);
        let digit: u64 = micro / unit;
        assert(digit < 10) by (nonlinear_arith)
            requires
                digit == micro / unit,
                micro < 10 * unit,
                unit > 0,
        ;
        assert(micro % unit < unit) by (nonlinear_arith)
            requires
                unit > 0,
        ;
        let mut chars: Vec<char> = Vec::new();
        chars.push(digit_of(digit));
        let mut rest: Vec<char> = fraction_chars(micro % unit, places - 1);
        let ghost head = chars@;
        chars.append(&mut rest);
        assert(chars@ =~= seq![digit_char(digit as int)] + fraction_text(
            (micro % unit) as nat,
            (places - 1) as nat,
        ));
        chars
    }
}

/// The decimal notation of a fixed-point number.
pub fn number_chars(n: i64) -> (chars: Vec<char>)
    ensures
        chars@ == number_text(n),
{
    let wide: i128 = n as i128;
    let magnitude: u64 = if n < 0 {
        (-wide) as u64
    } else {
        n as u64
    };
    let mut chars: Vec<char> = Vec::new();
    if n < 0 {
        chars.push('-');
    }
    let mut whole_part: Vec<char> = natural_chars(magnitude / 1_000_000);
    let ghost sign = chars@;
    chars.append(&mut whole_part);
    let micro: u64 = magnitude % 1_000_000;
    if micro != 0 {
        chars.push('.');
        assert(pow10(6) == 1_000_000) by {
            reveal_with_fuel(pow10, 7);
        }
        let mut fraction: Vec<char> = fraction_chars(micro, 6);
        let ghost front = chars@;
        chars.append(&mut fraction);
        assert(chars@ =~= number_text(n));
    } else {
        assert(chars@ =~= number_text(n));
    }
    chars
}

/// Adds the characters of `more` to the end of `text`.
pub fn push_all(text: &mut Vec<char>, more: &Vec<char>)
    ensures
        final(text)@ == old(text)@ + more@,
{
    let mut i: usize = 0;
    while i < more.len()
        invariant
            0 <= i <= more@.len(),
            text@ == old(text)@ + more@.take(i as int),
        decreases more@.len() - i,
    {
        text.push(more[i]);
        assert(text@ =~= old(text)@ + more@.take(i + 1));
        i = i + 1;
    }
    assert(more@.take(i as int) =~= more@);
}

} // verus!
