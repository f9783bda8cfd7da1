//! # Progress bars
//!
//! What each cell of a progress bar shows: filled or rest, and maybe a digit of the
//! percentage.

use vstd::prelude::*;

use crate::tui::base::{darken_rgb, spec_darker, Rgb};

verus! {

/// The digit character of a number below ten.
pub open spec fn spec_digit_char(d: int) -> char {
    (48 + d) as char
}

/// The percentage written with three places and a percent sign: a leading `1` only
/// for a hundred, then the tens and the ones.
pub open spec fn spec_percentage_word(percentage: u8) -> Seq<char> {
    seq![
        if percentage / 100 == 1 { '1' } else { ' ' },
        spec_digit_char(((percentage / 10) % 10) as int),
        spec_digit_char((percentage % 10) as int),
        '%',
    ]
}

/// A colour darkened by fifty on each part.
pub open spec fn spec_darkened(colour: Rgb) -> Rgb {
    Rgb(spec_darker(colour.0, 50), spec_darker(colour.1, 50), spec_darker(colour.2, 50))
}

/// The cell `i` (from 1) of a bar of `bar_max` cells with `bar_now` filled: its character and
/// colour. Drawn horizontally, filled cells are `#`, the rest `-`, and the cells 2 to 5 show the
/// percentage (darkened, or black without colours) where its word has no blank. Drawn
/// vertically (down to up), the cells from the `bar_max - bar_now`-th on are `#`, the others `:`.
pub open spec fn spec_bar_cell(
    i: int,
    bar_max: u16,
    bar_now: u16,
    percentage: u8,
    show_percentage: bool,
    colours: Option<(Rgb, Rgb)>,
    draw_horizontal: bool,
) -> (char, Option<Rgb>) {
    if draw_horizontal {
        let filled = i <= bar_now;
        let character = if filled { '#' } else { '-' };
        let colour = match colours {
            Some((full, rest)) => Some(if filled { full } else { rest }),
            None => None,
        };
        if show_percentage && 1 < i < 6 && spec_percentage_word(percentage)[i - 2] != ' ' {
            (
                spec_percentage_word(percentage)[i - 2],
                match colour {
                    Some(c) => Some(spec_darkened(c)),
                    None => Some(Rgb(0, 0, 0)),
                },
            )
        } else {
            (character, colour)
        }
    } else {
        let filled = bar_max - i <= bar_now;
        (
            if filled { '#' } else { ':' },
            match colours {
                Some((full, rest)) => Some(if filled { full } else { rest }),
                None => None,
            },
        )
    }
}

/// The cells of a progress bar, one after the other (without its borders).
pub fn progres_bar_cells(
    bar_max: u16,
    bar_now: u16,
    percentage_discrete: u8,
    show_percentage: bool,
    optional_colours: Option<(Rgb, Rgb)>,
    draw_horizontal: bool,
) -> (cells: Vec<(char, Option<Rgb>)>)
    requires
        bar_max < u16::MAX,
    ensures
        cells@.len() == bar_max,
        forall|k: int|
            0 <= k < bar_max ==> #[trigger] cells@[k] == spec_bar_cell(
                k + 1,
                bar_max,
                bar_now,
                percentage_discrete,
                show_percentage,
                optional_colours,
                draw_horizontal,
            ),
{
    let percentage_word: [char; 4] = [
        if percentage_discrete / 100 == 1 {
            '1'
        } else {
            ' '
        },
        (48u8 + (percentage_discrete / 10) % 10) as char,
        (48u8 + (percentage_discrete % 10)) as char,
        '%',
    ];
    assert(percentage_word@ =~= spec_percentage_word(percentage_discrete));

    let mut cells: Vec<(char, Option<Rgb>)> = Vec::new();
    let mut i: u16 = 1;
    while i < bar_max + 1
        invariant
            bar_max < u16::MAX,
            1 <= i <= bar_max + 1,
            percentage_word@ == spec_percentage_word(percentage_discrete),
            cells@.len() == i - 1,
            forall|k: int|
                0 <= k < i - 1 ==> #[trigger] cells@[k] == spec_bar_cell(
                    k + 1,
                    bar_max,
                    bar_now,
                    percentage_discrete,
                    show_percentage,
                    optional_colours,
                    draw_horizontal,
                ),
        decreases bar_max + 1 - i,
    {
        let cell = if draw_horizontal {
            // Draw something like: [#######----]
            let filled = i <= bar_now;
            let mut bar_character = if filled { '#' } else { '-' };
            let mut bar_colour = match optional_colours {
                Some((full_color, rest_color)) => Some(if filled { full_color } else { rest_color }),
                None => None,
            };
            if show_percentage && i > 1 && i < 6 {
                // render percentage if not empty.
                let word_index = i as usize - 2;
                if percentage_word[word_index] != ' ' {
                    bar_colour = match bar_colour {
                        Some(colour) => Some(darken_rgb(colour, 50u8)),
                        None => Some(Rgb(0, 0, 0)),
                    };
                    bar_character = percentage_word[word_index];
                }
            }
            (bar_character, bar_colour)
        } else {
            // Draw vertical bar (down to up).
            let filled = bar_max - i <= bar_now;
            (
                if filled { '#' } else { ':' },
                match optional_colours {
                    Some((full_color, rest_color)) => Some(if filled { full_color } else { rest_color }),
                    None => None,
                },
            )
        };
        cells.push(cell);
        i += 1;
    }
    cells
}

} // verus!
