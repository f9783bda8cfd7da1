//! An ability, the Wusel can learn to improve their lifestyle.

use vstd::prelude::*;

verus! {

/// An ability, the Wusel can learn to improve their lifestyle.
#[derive(Debug, Copy, Clone, PartialEq, Eq, Hash, Structural)]
pub enum Ability {
    COOKING,
    COMMUNICATION,
    FITNESS,
    FINESSE,
}

/// Number of abilities.
pub const ABILITY_COUNT: usize = 4;

impl Ability {
    pub const VALUES: [Self; 4] = [Self::COOKING, Self::COMMUNICATION, Self::FITNESS, Self::FINESSE];

    /// The position of the ability in `Ability::VALUES`.
    pub open spec fn spec_index(self) -> int {
        match self {
            Ability::COOKING => 0,
            Ability::COMMUNICATION => 1,
            Ability::FITNESS => 2,
            Ability::FINESSE => 3,
        }
    }

    /// The position of the ability in `Ability::VALUES`.
    pub fn index(&self) -> (index: usize)
        ensures
            index == self.spec_index(),
            index < ABILITY_COUNT,
    {
        match self {
            Self::COOKING => 0,
            Self::COMMUNICATION => 1,
            Self::FITNESS => 2,
            Self::FINESSE => 3,
        }
    }

    /// The name of the ability.
    pub open spec fn spec_name(self) -> Seq<char> {
        match self {
            Ability::COOKING => "cooking"@,
            Ability::COMMUNICATION => "communication"@,
            Ability::FITNESS => "fitness"@,
            Ability::FINESSE => "finesse"@,
        }
    }

    pub fn get_name(&self) -> (name: &'static str)
        ensures
            name@ == self.spec_name(),
    {
        match self {
            Self::COOKING => "cooking",
            Self::COMMUNICATION => "communication",
            Self::FITNESS => "fitness",
            Self::FINESSE => "finesse",
        }
    }
}

} // verus!
