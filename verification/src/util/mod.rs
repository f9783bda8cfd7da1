//! # Utilities
//!
//! Functions with some more common use cases: names for wusels.

use vstd::prelude::*;

pub mod more_strings;

use crate::random;
use crate::text;

verus! {

pub const VOCALS: [char; 12] = ['a', 'e', 'i', 'o', 'u', 'y', 'A', 'E', 'I', 'O', 'U', 'Y'];

// higher chance for consonants
pub const ALPHA_AFTER_VOCAL: [char; 66] = [
    'a', 'e', 'i', 'o', 'u', 'y', 'b', 'c', 'd', 'f', 'g', 'h', 'j', 'k', 'l', 'm', 'n', 'p', 'q',
    'r', 's', 't', 'v', 'w', 'x', 'z', 'b', 'c', 'd', 'f', 'g', 'h', 'j', 'k', 'l', 'm', 'n', 'p',
    'q', 'r', 's', 't', 'v', 'w', 'x', 'z', 'b', 'c', 'd', 'f', 'g', 'h', 'j', 'k', 'l', 'm', 'n',
    'p', 'q', 'r', 's', 't', 'v', 'w', 'x', 'z',
];

// higher chance for vocals
pub const ALPHA_AFTER_CONSONANT: [char; 100] = [
    'a', 'e', 'a', 'e', 'i', 'o', 'u', 'y', 'a', 'e', 'i', 'o', 'u', 'y', 'a', 'e', 'i', 'o', 'u',
    'y', 'a', 'e', 'i', 'o', 'u', 'y', 'a', 'e', 'i', 'o', 'u', 'y', 'a', 'e', 'i', 'o', 'u', 'y',
    'a', 'e', 'i', 'o', 'u', 'y', 'a', 'e', 'i', 'o', 'u', 'y', 'a', 'e', 'i', 'o', 'u', 'y', 'a',
    'e', 'i', 'o', 'u', 'y', 'a', 'e', 'i', 'o', 'u', 'y', 'a', 'e', 'i', 'o', 'u', 'y', 'a', 'e',
    'i', 'o', 'u', 'y', 'b', 'c', 'd', 'f', 'g', 'h', 'j', 'k', 'l', 'm', 'n', 'p', 'q', 'r', 's',
    't', 'v', 'w', 'x', 'z',
];

/// The number of characters of a generated name: the given length, but at least one.
pub open spec fn spec_name_length(length: usize) -> nat {
    if length == 0 {
        1
    } else {
        length as nat
    }
}

/// A capital letter.
pub open spec fn spec_is_capital(c: char) -> bool {
    'A' <= c <= 'Z'
}

/// Check if the list holds the character.
pub fn contains_char(list: &[char], c: char) -> (found: bool)
    ensures
        found == list@.contains(c),
{
    let mut i: usize = 0;
    while i < list.len()
        invariant
            i <= list@.len(),
            forall|j: int| 0 <= j < i ==> list@[j] != c,
        decreases list@.len() - i,
    {
        if list[i] == c {
            assert(list@[i as int] == c);
            return true;
        }
        i += 1;
    }
    false
}

/// A random capital letter.
pub fn random_capital() -> (letter: char)
    ensures
        spec_is_capital(letter),
{
    let offset: u8 = random::random_u8() % 26;
    let code: u8 = offset + 65u8;  // after b'A'
    assert(65 <= code <= 90);
    let letter = code as char;
    assert(letter as u8 == code);
    letter
}

/// Generate a name: a capital letter first, then letters drawn from two tables
/// (one after a vocal, one after a consonant) up to the given length.
pub fn name_gen(length: usize) -> (name: String)
    ensures
        name@.len() == spec_name_length(length),
        spec_is_capital(name@[0]),
        forall|i: int|
            1 <= i < name@.len() ==> if VOCALS@.contains(name@[i - 1]) {
                ALPHA_AFTER_VOCAL@.contains(#[trigger] name@[i])
            } else {
                ALPHA_AFTER_CONSONANT@.contains(name@[i])
            },
{
    let mut name = String::new();
    let mut last: char = random_capital();  // first letter.
    text::string_push(&mut name, last);

    let mut i: usize = 1;
    while i < length
        invariant
            1 <= i,
            length > 0 ==> i <= length,
            length == 0 ==> i == 1,
            name@.len() == i,
            last == name@[i - 1],
            spec_is_capital(name@[0]),
            forall|k: int|
                1 <= k < name@.len() ==> if VOCALS@.contains(name@[k - 1]) {
                    ALPHA_AFTER_VOCAL@.contains(#[trigger] name@[k])
                } else {
                    ALPHA_AFTER_CONSONANT@.contains(name@[k])
                },
        decreases length - i,
    {
        let next = if contains_char(&VOCALS, last) {
            let random_index = random::random_usize() % ALPHA_AFTER_VOCAL.len();
            ALPHA_AFTER_VOCAL[random_index]
        } else {
            let random_index = random::random_usize() % ALPHA_AFTER_CONSONANT.len();
            ALPHA_AFTER_CONSONANT[random_index]
        };
        let ghost before = name@;
        text::string_push(&mut name, next);
        proof {
            assert(name@[i as int] == next);
            assert forall|k: int| 1 <= k < name@.len() implies if VOCALS@.contains(name@[k - 1]) {
                ALPHA_AFTER_VOCAL@.contains(#[trigger] name@[k])
            } else {
                ALPHA_AFTER_CONSONANT@.contains(name@[k])
            } by {
                if k < i {
                    assert(name@[k] == before[k]);
                    assert(name@[k - 1] == before[k - 1]);
                } else {
                    assert(name@[k - 1] == last);
                }
            }
        }
        last = next;
        i += 1;
    }
    name
}

} // verus!
