//! # More strings
//!
//! Names for wusels, with vocals and consonants weighted.

use vstd::prelude::*;

use crate::random;
use crate::text;
use crate::util::{contains_char, random_capital, spec_is_capital, spec_name_length};

verus! {

/// Just vocals.
pub const VOCALS: [char; 6] = ['a', 'e', 'i', 'o', 'u', 'y'];

/// Just consonants.
pub const CONSONANTS: [char; 20] = [
    'b', 'c', 'd', 'f', 'g', 'h', 'j', 'k', 'l', 'm', 'n', 'p', 'q', 'r', 's', 't', 'v', 'w', 'x',
    'z',
];

/// The chance (in percent) that a vocal follows the letter: after a vocal a consonant is
/// more likely (a vocal comes with 34 %), after a consonant a vocal (70 %).
pub open spec fn spec_vocal_chance(last: char) -> usize {
    if VOCALS@.contains(last) {
        34
    } else {
        70
    }
}

/// The letter two draws give: a vocal when the first draw (taken in percent) falls below
/// the chance of a vocal, else a consonant; the second draw picks which one.
pub open spec fn spec_drawn_letter(probability_of_vocal: usize, vocal_draw: usize, letter_draw: usize) -> char {
    if vocal_draw % 100 < probability_of_vocal {
        VOCALS@[(letter_draw % 6) as int]
    } else {
        CONSONANTS@[(letter_draw % 20) as int]
    }
}

/// The chance (in percent) that a vocal follows the letter.
pub fn vocal_chance(last: char) -> (chance: usize)
    ensures
        chance == spec_vocal_chance(last),
{
    if contains_char(&VOCALS, last) {
        // last char is a vocal => higher percentage of consonants (66%)
        34
    } else {
        // last char is a consonant => higher percentage of vocals (70%)
        70
    }
}

/// The letter two draws give (see `spec_drawn_letter`).
pub fn drawn_letter(probability_of_vocal: usize, vocal_draw: usize, letter_draw: usize) -> (c: char)
    ensures
        c == spec_drawn_letter(probability_of_vocal, vocal_draw, letter_draw),
        VOCALS@.contains(c) || CONSONANTS@.contains(c),
{
    if vocal_draw % 100 < probability_of_vocal {
        // pick vocal
        let c = VOCALS[letter_draw % VOCALS.len()];
        assert(VOCALS@.contains(c));
        c
    } else {
        // pick consonant
        let c = CONSONANTS[letter_draw % CONSONANTS.len()];
        assert(CONSONANTS@.contains(c));
        c
    }
}

/// A random vocal (with the given probability in percent) or else a random consonant.
fn random_vocal_or_constant(probability_of_vocal: usize) -> (c: char)
    ensures
        VOCALS@.contains(c) || CONSONANTS@.contains(c),
        probability_of_vocal >= 100 ==> VOCALS@.contains(c),
        probability_of_vocal == 0 ==> CONSONANTS@.contains(c),
{
    let vocal_draw = random::random_usize();
    let letter_draw = random::random_usize();
    drawn_letter(probability_of_vocal, vocal_draw, letter_draw)
}

/// Generate a name by using a capital alphabetic char
/// and adding up to the given _length_ more chars.
/// Vocals after Consonants should be more common than another Consonants.
pub fn name_gen(length: usize) -> (name: String)
    ensures
        name@.len() == spec_name_length(length),
        spec_is_capital(name@[0]),
        forall|i: int|
            1 <= i < name@.len() ==> VOCALS@.contains(#[trigger] name@[i]) || CONSONANTS@.contains(name@[i]),
{
    let mut name = String::new();
    let mut last: char = random_capital();  // first letter.
    text::string_push(&mut name, last);

    let mut i: usize = 1;
    while i < length
        invariant
            1 <= i,
            length > 0 ==> i <= length,
            length == 0 ==> i == 1,
            name@.len() == i,
            last == name@[i - 1],
            spec_is_capital(name@[0]),
            forall|k: int|
                1 <= k < name@.len() ==> VOCALS@.contains(#[trigger] name@[k]) || CONSONANTS@.contains(name@[k]),
        decreases length - i,
    {
        let next = random_vocal_or_constant(vocal_chance(last));
        let ghost before = name@;
        text::string_push(&mut name, next);
        proof {
            assert forall|k: int| 1 <= k < name@.len() implies VOCALS@.contains(#[trigger] name@[k])
                || CONSONANTS@.contains(name@[k]) by {
                if k < i {
                    assert(name@[k] == before[k]);
                }
            }
        }
        last = next;
        i += 1;
    }
    name
}

} // verus!
