//! # Text
//!
//! Building text: decimal numbers and single characters appended to strings.

use vstd::prelude::*;

verus! {

/// The character of a decimal digit.
pub open spec fn spec_digit(d: nat) -> char {
    if d == 0 {
        '0'
    } else if d == 1 {
        '1'
    } else if d == 2 {
        '2'
    } else if d == 3 {
        '3'
    } else if d == 4 {
        '4'
    } else if d == 5 {
        '5'
    } else if d == 6 {
        '6'
    } else if d == 7 {
        '7'
    } else if d == 8 {
        '8'
    } else {
        '9'
    }
}

/// The decimal representation of a natural number, without leading zeros.
pub open spec fn spec_decimal(n: nat) -> Seq<char>
    decreases n,
{
    if n < 10 {
        seq![spec_digit(n)]
    } else {
        spec_decimal(n / 10).push(spec_digit(n % 10))
    }
}

/// The decimal representation of an integer, with a leading minus for negative ones.
pub open spec fn spec_signed_decimal(i: int) -> Seq<char> {
    if i < 0 {
        seq!['-'] + spec_decimal((-i) as nat)
    } else {
        spec_decimal(i as nat)
    }
}

/// The character of a decimal digit (below 10).
fn digit_char(d: usize) -> (c: char)
    requires
        d < 10,
    ensures
        c == spec_digit(d as nat),
{
    if d == 0 {
        '0'
    } else if d == 1 {
        '1'
    } else if d == 2 {
        '2'
    } else if d == 3 {
        '3'
    } else if d == 4 {
        '4'
    } else if d == 5 {
        '5'
    } else if d == 6 {
        '6'
    } else if d == 7 {
        '7'
    } else if d == 8 {
        '8'
    } else {
        '9'
    }
}

/// The decimal digits of an unsigned number, without leading zeros.
pub(crate) fn format_usize(n: usize) -> (text: String)
    ensures
        text@ == spec_decimal(n as nat),
    decreases n,
{
    let mut text = if n < 10 {
        String::new()
    } else {
        format_usize(n / 10)
    };
    string_push(&mut text, digit_char(n % 10));
    proof {
        if n < 10 {
            assert(text@ =~= seq![spec_digit(n as nat)]);
        }
    }
    text
}

/// The decimal digits of a signed number, without leading zeros, preceded by '-' when
/// negative.
pub(crate) fn format_i32(n: i32) -> (text: String)
    ensures
        text@ == spec_signed_decimal(n as int),
{
    if n < 0 {
        let magnitude: i64 = -(n as i64);
        let mut text = String::new();
        string_push(&mut text, '-');
        let digits = format_usize(magnitude as usize);
        text.append(digits.as_str());
        proof {
            assert(text@ =~= seq!['-'] + spec_decimal((-n) as nat));
        }
        text
    } else {
        format_usize(n as usize)
    }
}

/// `String::push` of std: the character is appended to the string.
#[verifier::external_body]
pub(crate) fn string_push(text: &mut String, c: char)
    ensures
        final(text)@ == old(text)@.push(c),
{
    text.push(c)
}

/// What `format!("{:?}", text)` of std gives for a text: the text in double quotes,
/// with its special characters escaped.
pub uninterp spec fn spec_debug_str(text: Seq<char>) -> Seq<char>;

/// `format!("{:?}", text)` of std: the debug form of a text, in quotes and escaped.
#[verifier::external_body]
pub(crate) fn format_debug_str(text: &str) -> (debug: String)
    ensures
        debug@ == spec_debug_str(text@),
{
    format!("{:?}", text)
}

/// Compare two strings character by character.
pub fn str_equal(a: &str, b: &str) -> (equal: bool)
    ensures
        equal == (a@ == b@),
{
    let length = a.unicode_len();
    if length != b.unicode_len() {
        return false;
    }
    let mut i: usize = 0;
    while i < length
        invariant
            length == a@.len(),
            length == b@.len(),
            i <= length,
            forall|j: int| 0 <= j < i ==> a@[j] == b@[j],
        decreases length - i,
    {
        if a.get_char(i) != b.get_char(i) {
            return false;
        }
        i += 1;
    }
    assert(a@ =~= b@);
    true
}

} // verus!
