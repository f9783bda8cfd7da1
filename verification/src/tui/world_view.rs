//! # TUI: World Rendering
//!
//! What each position of the world looks like on the screen.

use vstd::prelude::*;

use crate::life::objects::ObjectType;
use crate::life::world::items::ConstructionType;
use crate::life::world::{spec_grid_models, PlaceTaker, PlaceTakerModel};
use crate::tui::base::{hash_color_to_rgb, Rgb, TextStyle};

verus! {

/// How a position looks: a character, optional fore- and background colours and styles.
pub type SpotLook = (char, Option<Rgb>, Option<Rgb>, Option<Vec<TextStyle>>);

/// A spot to draw: where (column, row) and how it looks.
pub type Spot = (u16, u16, SpotLook);

/// The character a place taker is shown with (a space for an empty position).
pub open spec fn spec_look_char(placetaker: Option<PlaceTakerModel>) -> char {
    match placetaker {
        Some(PlaceTakerModel::Wusel(_)) => 'O',
        Some(PlaceTakerModel::Construction(ConstructionType::Wall(_, _), _)) => '#',
        Some(PlaceTakerModel::Construction(ConstructionType::Door(true), _)) => '-',
        Some(PlaceTakerModel::Construction(ConstructionType::Door(false), _)) => '+',
        Some(PlaceTakerModel::Object(_, crate::life::objects::ObjectKind::Furniture(_))) => 'm',
        Some(PlaceTakerModel::Object(_, crate::life::objects::ObjectKind::Miscellaneous(_))) => '*',
        Some(PlaceTakerModel::Object(_, crate::life::objects::ObjectKind::Food(_))) => 'ó',
        _ => ' ',
    }
}

/// The wall colour (`#a04c1f`).
pub open spec fn spec_wall_colour() -> Rgb {
    Rgb(((0xa04c1fu32 >> 16u32) % 256) as u8, ((0xa04c1fu32 >> 8u32) % 256) as u8, (0xa04c1fu32 % 256) as u8)
}

/// The foreground colour a place taker is shown with.
pub open spec fn spec_look_fg(placetaker: Option<PlaceTakerModel>) -> Option<Rgb> {
    match placetaker {
        Some(PlaceTakerModel::Wusel(_)) => Some(Rgb(0, 0, 0)),
        Some(PlaceTakerModel::Construction(ConstructionType::Wall(_, _), _)) => None,
        Some(PlaceTakerModel::Construction(ConstructionType::Door(_), _)) => None,
        Some(PlaceTakerModel::Object(_, crate::life::objects::ObjectKind::Furniture(_))) => Some(Rgb(99, 67, 14)),
        Some(PlaceTakerModel::Object(_, crate::life::objects::ObjectKind::Miscellaneous(_))) => Some(Rgb(0, 0, 100)),
        Some(PlaceTakerModel::Object(_, crate::life::objects::ObjectKind::Food(_))) => Some(Rgb(200, 0, 0)),
        _ => Some(Rgb(0, 100, 0)),
    }
}

/// The background colour a place taker is shown with.
pub open spec fn spec_look_bg(placetaker: Option<PlaceTakerModel>) -> Option<Rgb> {
    match placetaker {
        Some(PlaceTakerModel::Construction(ConstructionType::Wall(_, _), _)) => Some(spec_wall_colour()),
        Some(PlaceTakerModel::Wusel(_)) | Some(PlaceTakerModel::Object(_, _)) | Some(
            PlaceTakerModel::Construction(ConstructionType::Door(_), _),
        ) => None,
        _ => Some(Rgb(222, 255, 222)),
    }
}

/// A place taker shown in bold (a wusel); all others have no style.
pub open spec fn spec_look_bold(placetaker: Option<PlaceTakerModel>) -> bool {
    placetaker matches Some(PlaceTakerModel::Wusel(_))
}

/// Get a styled char for a placeholder in the world.
fn get_render_for_position(c: Option<&PlaceTaker>) -> (look: SpotLook)
    ensures
        ({
            let shown = match c {
                Some(p) => Some(p@),
                None => None,
            };
            &&& look.0 == spec_look_char(shown)
            &&& look.1 == spec_look_fg(shown)
            &&& look.2 == spec_look_bg(shown)
            &&& if spec_look_bold(shown) {
                look.3 matches Some(styles) && styles@ == seq![TextStyle::Bold]
            } else {
                look.3 is None
            }
        }),
{
    match c {
        Some(PlaceTaker::Wusel(_)) => ('O', Some(Rgb(0, 0, 0)), None, Some(vec![TextStyle::Bold])),
        Some(PlaceTaker::Construction(ConstructionType::Wall(false, _), _)) => (
            '#',
            None,
            Some(hash_color_to_rgb(0xa04c1f)),
            None,
        ),
        Some(PlaceTaker::Construction(ConstructionType::Wall(true, _), _)) => (
            '#',
            None,
            Some(hash_color_to_rgb(0xa04c1f)),
            None,
        ),
        Some(PlaceTaker::Construction(ConstructionType::Door(true), _)) => ('-', None, None, None),
        Some(PlaceTaker::Construction(ConstructionType::Door(false), _)) => ('+', None, None, None),  // construction, eg. wall
        Some(PlaceTaker::Object(_, ObjectType::Furniture(_))) => ('m', Some(Rgb(99, 67, 14)), None, None),
        Some(PlaceTaker::Object(_, ObjectType::Miscellaneous(_))) => ('*', Some(Rgb(0, 0, 100)), None, None),
        Some(PlaceTaker::Object(_, ObjectType::Food(_))) => ('ó', Some(Rgb(200, 0, 0)), None, None),
        _ => (' ', Some(Rgb(0, 100, 0)), Some(Rgb(222, 255, 222)), None),
    }
}

/// The place taker is a door.
pub open spec fn spec_is_door(placetaker: PlaceTakerModel) -> bool {
    placetaker matches PlaceTakerModel::Construction(ConstructionType::Door(_), _)
}

/// The place taker shown for a position: the first door, else the first place taker.
pub open spec fn spec_most_important(on_pos: Seq<PlaceTakerModel>) -> Option<PlaceTakerModel> {
    if exists|i: int| 0 <= i < on_pos.len() && #[trigger] spec_is_door(on_pos[i]) {
        Some(
            on_pos[choose|i: int|
                0 <= i < on_pos.len() && #[trigger] spec_is_door(on_pos[i]) && forall|j: int|
                    0 <= j < i ==> !spec_is_door(on_pos[j])],
        )
    } else if on_pos.len() > 0 {
        Some(on_pos[0])
    } else {
        None
    }
}

/// The column and row a position index of a world of the width is drawn at.
pub open spec fn spec_screen_at(w: usize, p: int) -> (u16, u16) {
    (((p % (w as int)) as u16 + 2) as u16, ((p / (w as int)) as u16 + 2) as u16)
}

/// The position index of a world of the width fits onto the screen.
pub open spec fn spec_screen_fits(w: usize, p: int) -> bool {
    (p % (w as int)) as u16 + 2 <= u16::MAX && (p / (w as int)) as u16 + 2 <= u16::MAX
}

/// Find the place taker to show among the place takers on a position.
fn most_important(on_pos: &Vec<PlaceTaker>) -> (shown: Option<&PlaceTaker>)
    ensures
        match shown {
            Some(p) => spec_most_important(on_pos@.map_values(|t: PlaceTaker| t@)) == Some(p@),
            None => spec_most_important(on_pos@.map_values(|t: PlaceTaker| t@)) is None,
        },
{
    let ghost models = on_pos@.map_values(|t: PlaceTaker| t@);
    let mut i: usize = 0;
    while i < on_pos.len()
        invariant
            i <= on_pos@.len(),
            models == on_pos@.map_values(|t: PlaceTaker| t@),
            forall|j: int| 0 <= j < i ==> !spec_is_door(#[trigger] models[j]),
        decreases on_pos@.len() - i,
    {
        if let PlaceTaker::Construction(ConstructionType::Door(_), _) = on_pos[i] {
            proof {
                assert(models[i as int] == on_pos@[i as int]@);
                assert(spec_is_door(models[i as int]));
                let k = choose|k: int|
                    0 <= k < models.len() && #[trigger] spec_is_door(models[k]) && forall|j: int|
                        0 <= j < k ==> !spec_is_door(models[j]);
                assert(k == i) by {
                    if k < i {
                    } else if i < k {
                        assert(!spec_is_door(models[i as int]));
                    }
                }
            }
            return Some(&on_pos[i]);
        }
        assert(models[i as int] == on_pos@[i as int]@);
        assert(!spec_is_door(models[i as int]));
        i += 1;
    }
    if on_pos.len() > 0 {
        assert(models[0] == on_pos@[0]@);
        Some(&on_pos[0])
    } else {
        None
    }
}

/// The spots to draw the field: each position of a world of the given width, at its column
/// and row (two off the screen's corner), with the look of its most important place taker.
pub fn render_field(w: usize, positions: Vec<Vec<PlaceTaker>>) -> (spots: Vec<Spot>)
    requires
        w > 0,
        forall|p: int| 0 <= p < positions@.len() ==> #[trigger] spec_screen_fits(w, p),
    ensures
        spots@.len() == positions@.len(),
        forall|p: int|
            0 <= p < spots@.len() ==> {
                &&& (#[trigger] spots@[p]).0 == spec_screen_at(w, p).0
                &&& spots@[p].1 == spec_screen_at(w, p).1
                &&& spots@[p].2.0 == spec_look_char(spec_most_important(spec_grid_models(positions@)[p]))
                &&& spots@[p].2.1 == spec_look_fg(spec_most_important(spec_grid_models(positions@)[p]))
                &&& spots@[p].2.2 == spec_look_bg(spec_most_important(spec_grid_models(positions@)[p]))
                &&& if spec_look_bold(spec_most_important(spec_grid_models(positions@)[p])) {
                    spots@[p].2.3 matches Some(styles) && styles@ == seq![TextStyle::Bold]
                } else {
                    spots@[p].2.3 is None
                }
            },
{
    let mut spots: Vec<Spot> = Vec::new();
    let mut p: usize = 0;
    while p < positions.len()
        invariant
            w > 0,
            p <= positions@.len(),
            spots@.len() == p,
            forall|q: int| 0 <= q < positions@.len() ==> #[trigger] spec_screen_fits(w, q),
            forall|q: int|
                0 <= q < p ==> {
                    &&& (#[trigger] spots@[q]).0 == spec_screen_at(w, q).0
                    &&& spots@[q].1 == spec_screen_at(w, q).1
                    &&& spots@[q].2.0 == spec_look_char(spec_most_important(spec_grid_models(positions@)[q]))
                    &&& spots@[q].2.1 == spec_look_fg(spec_most_important(spec_grid_models(positions@)[q]))
                    &&& spots@[q].2.2 == spec_look_bg(spec_most_important(spec_grid_models(positions@)[q]))
                    &&& if spec_look_bold(spec_most_important(spec_grid_models(positions@)[q])) {
                        spots@[q].2.3 matches Some(styles) && styles@ == seq![TextStyle::Bold]
                    } else {
                        spots@[q].2.3 is None
                    }
                },
        decreases positions@.len() - p,
    {
        // All things on this position.
        assert(spec_screen_fits(w, p as int));
        #[verifier::truncate]
        let x: u16 = (p % w) as u16 + 2;
        #[verifier::truncate]
        let y: u16 = (p / w) as u16 + 2;
        let render_data = get_render_for_position(most_important(&positions[p]));
        spots.push((x, y, render_data));
        p += 1;
    }
    spots
}

/// A position with a door is drawn as its first door: '-' when that door is open, '+' when
/// it is closed, whatever else stands there.
pub proof fn lemma_doors_drawn(on_pos: Seq<PlaceTakerModel>, k: int)
    requires
        0 <= k < on_pos.len(),
        spec_is_door(on_pos[k]),
        forall|j: int| 0 <= j < k ==> !spec_is_door(#[trigger] on_pos[j]),
    ensures
        spec_look_char(spec_most_important(on_pos)) == if on_pos[k] matches PlaceTakerModel::Construction(
            ConstructionType::Door(true),
            _,
        ) {
            '-'
        } else {
            '+'
        },
{
    let first = choose|i: int|
        0 <= i < on_pos.len() && #[trigger] spec_is_door(on_pos[i]) && forall|j: int|
            0 <= j < i ==> !spec_is_door(on_pos[j]);
    assert(first == k) by {
        if first < k {
            assert(!spec_is_door(on_pos[first]));
        } else if k < first {
            assert(!spec_is_door(on_pos[k]));
        }
    }
}

} // verus!
