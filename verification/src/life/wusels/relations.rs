//! # Relations
//!
//! How two wusels relate to each other: as friends and romantically.

use vstd::prelude::*;

use crate::text;

verus! {

/// Relation Direction
///
/// Any Relation can be romantically, non-romantically, etc.
#[derive(Debug, Clone, Copy, PartialEq, Eq, Structural)]
pub enum RelationType {
    Romance,
    Friendship,
}

/// The smiley shown for friendship.
pub const FRIENDSHIP_CHAR: char = '\u{2639}';

/// The heart shown for romance.
pub const ROMANCE_CHAR: char = '\u{2661}';

impl RelationType {
    pub fn from_romantically(try_romance: bool) -> (relation_type: Self)
        ensures
            relation_type == (if try_romance {
                RelationType::Romance
            } else {
                RelationType::Friendship
            }),
    {
        if try_romance {
            Self::Romance
        } else {
            Self::Friendship
        }
    }

    /// The symbol of the relation type.
    pub open spec fn spec_char(self) -> char {
        match self {
            RelationType::Friendship => FRIENDSHIP_CHAR,
            RelationType::Romance => ROMANCE_CHAR,
        }
    }

    pub fn to_char(&self) -> (symbol: char)
        ensures
            symbol == self.spec_char(),
    {
        match self {
            Self::Friendship => FRIENDSHIP_CHAR,  // smiley
            Self::Romance => ROMANCE_CHAR,  // heart
        }
    }
}

/// Pair of Wusels which may have a relation.
#[derive(Debug, PartialEq, Eq)]
pub struct Relation {
    officially: String,  // officially known state (Friends, Spouse, etc..)
    friendship: i32,  // shared friendship between both.
    romance: i32,  // shared romance between both
    kindred_distance: i32,  // blood relation (distance)
}

/// The mathematical model of a relation.
pub struct RelationModel {
    pub officially: Seq<char>,
    pub friendship: i32,
    pub romance: i32,
    pub kindred_distance: i32,
}

impl View for Relation {
    type V = RelationModel;

    closed spec fn view(&self) -> RelationModel {
        RelationModel {
            officially: self.officially@,
            friendship: self.friendship,
            romance: self.romance,
            kindred_distance: self.kindred_distance,
        }
    }
}

impl RelationModel {
    /// The relation of two wusels who just met.
    pub open spec fn strangers() -> RelationModel {
        RelationModel { officially: "Strangers"@, friendship: 0, romance: 0, kindred_distance: -1i32 }
    }

    /// The relation after a change of the given type.
    pub open spec fn spec_update(self, relationtype: RelationType, change: i32) -> RelationModel {
        match relationtype {
            RelationType::Friendship => RelationModel {
                friendship: (self.friendship + change) as i32,
                ..self
            },
            RelationType::Romance => RelationModel { romance: (self.romance + change) as i32, ..self },
        }
    }

    /// The change of the given type stays within the bounds of an `i32`.
    pub open spec fn can_update(self, relationtype: RelationType, change: i32) -> bool {
        match relationtype {
            RelationType::Friendship => i32::MIN <= self.friendship + change <= i32::MAX,
            RelationType::Romance => i32::MIN <= self.romance + change <= i32::MAX,
        }
    }

    /// The text of the kinship.
    pub open spec fn spec_kinship(self) -> Seq<char> {
        if self.kindred_distance == -1 {
            ""@
        } else if self.kindred_distance == 0 {
            " Self?"@
        } else if self.kindred_distance == 1 {
            " Siblings|Parents|Kids"@
        } else {
            "Related"@
        }
    }

    /// The relation as text: `'official' ☹friendship ♡romance` and the kinship.
    pub open spec fn spec_show(self) -> Seq<char> {
        "'"@ + self.officially + "' "@ + seq![FRIENDSHIP_CHAR] + text::spec_signed_decimal(
            self.friendship as int,
        ) + " "@ + seq![ROMANCE_CHAR] + text::spec_signed_decimal(self.romance as int)
            + self.spec_kinship()
    }
}

impl Clone for Relation {
    fn clone(&self) -> (relation: Self)
        ensures
            relation@ == self@,
    {
        Relation {
            officially: self.officially.clone(),
            friendship: self.friendship,
            romance: self.romance,
            kindred_distance: self.kindred_distance,
        }
    }
}

impl Default for Relation {
    fn default() -> (relation: Self)
        ensures
            relation@ == RelationModel::strangers(),
    {
        Self::new()
    }
}

impl Relation {
    pub fn new() -> (relation: Self)
        ensures
            relation@ == RelationModel::strangers(),
    {
        Self {
            officially: String::from_str("Strangers"),
            friendship: 0,
            romance: 0,
            kindred_distance: -1,
        }
    }

    pub fn update(&mut self, relationtype: RelationType, change: i32)
        requires
            old(self)@.can_update(relationtype, change),
        ensures
            final(self)@ == old(self)@.spec_update(relationtype, change),
    {
        match relationtype {
            RelationType::Friendship => self.update_friendship(change),
            RelationType::Romance => self.update_romance(change),
        }
    }

    pub fn update_romance(&mut self, change: i32)
        requires
            i32::MIN <= old(self)@.romance + change <= i32::MAX,
        ensures
            final(self)@ == (RelationModel {
                romance: (old(self)@.romance + change) as i32,
                ..old(self)@
            }),
    {
        self.romance += change;
    }

    pub fn update_friendship(&mut self, change: i32)
        requires
            i32::MIN <= old(self)@.friendship + change <= i32::MAX,
        ensures
            final(self)@ == (RelationModel {
                friendship: (old(self)@.friendship + change) as i32,
                ..old(self)@
            }),
    {
        self.friendship += change;
    }

    /// Print this relation to a String.
    pub fn show(&self) -> (shown: String)
        ensures
            shown@ == self@.spec_show(),
    {
        let mut shown = String::from_str("'");
        shown.append(self.officially.as_str());
        shown.append("' ");
        text::string_push(&mut shown, RelationType::Friendship.to_char());
        shown.append(text::format_i32(self.friendship).as_str());
        shown.append(" ");
        text::string_push(&mut shown, RelationType::Romance.to_char());
        shown.append(text::format_i32(self.romance).as_str());
        let kinship = if self.kindred_distance == -1 {
            ""
        } else if self.kindred_distance == 0 {
            " Self?"
        } else if self.kindred_distance == 1 {
            " Siblings|Parents|Kids"
        } else {
            "Related"
        };
        shown.append(kinship);
        shown
    }
}

} // verus!
