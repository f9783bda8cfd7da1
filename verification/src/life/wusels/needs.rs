//! A need, the Wusel needs to satisfy to survive.

use vstd::prelude::*;

use crate::life;

verus! {

/// A need, the Wusel needs to satisfy to survive.
#[derive(Debug, Copy, Clone, PartialEq, Eq, Hash, PartialOrd, Structural)]
pub enum Need {
    WATER,
    FOOD,
    SLEEP,
    LOVE,
    FUN,
    WARMTH,
    HEALTH,
}

/// Number of needs.
pub const NEED_COUNT: usize = 7;

/// The need at a position of `Need::VALUES`.
pub open spec fn spec_need_at(index: int) -> Need {
    if index == 0 {
        Need::WATER
    } else if index == 1 {
        Need::FOOD
    } else if index == 2 {
        Need::SLEEP
    } else if index == 3 {
        Need::LOVE
    } else if index == 4 {
        Need::FUN
    } else if index == 5 {
        Need::WARMTH
    } else {
        Need::HEALTH
    }
}

impl Need {
    pub const VALUES: [Self; 7] = [
        Self::WATER,
        Self::FOOD,
        Self::SLEEP,
        Self::LOVE,
        Self::FUN,
        Self::WARMTH,
        Self::HEALTH,
    ];

    /// The position of the need in `Need::VALUES`.
    pub open spec fn spec_index(self) -> int {
        match self {
            Need::WATER => 0,
            Need::FOOD => 1,
            Need::SLEEP => 2,
            Need::LOVE => 3,
            Need::FUN => 4,
            Need::WARMTH => 5,
            Need::HEALTH => 6,
        }
    }

    /// The need at a position of `Need::VALUES`.
    pub fn at(index: usize) -> (need: Self)
        requires
            index < NEED_COUNT,
        ensures
            need == spec_need_at(index as int),
            need.spec_index() == index,
    {
        match index {
            0 => Self::WATER,
            1 => Self::FOOD,
            2 => Self::SLEEP,
            3 => Self::LOVE,
            4 => Self::FUN,
            5 => Self::WARMTH,
            _ => Self::HEALTH,
        }
    }

    /// The position of the need in `Need::VALUES`.
    pub fn index(&self) -> (index: usize)
        ensures
            index == self.spec_index(),
            index < NEED_COUNT,
            spec_need_at(index as int) == *self,
    {
        match self {
            Self::WATER => 0,
            Self::FOOD => 1,
            Self::SLEEP => 2,
            Self::LOVE => 3,
            Self::FUN => 4,
            Self::WARMTH => 5,
            Self::HEALTH => 6,
        }
    }

    /// The name of the need.
    pub open spec fn spec_name(self) -> Seq<char> {
        match self {
            Need::WATER => "water"@,
            Need::FOOD => "food"@,
            Need::WARMTH => "warmth"@,
            Need::SLEEP => "sleep"@,
            Need::HEALTH => "health"@,
            Need::LOVE => "love"@,
            Need::FUN => "fun"@,
        }
    }

    pub fn get_name(&self) -> (name: &'static str)
        ensures
            name@ == self.spec_name(),
    {
        match self {
            Self::WATER => "water",
            Self::FOOD => "food",
            Self::WARMTH => "warmth",
            Self::SLEEP => "sleep",
            Self::HEALTH => "health",
            Self::LOVE => "love",
            Self::FUN => "fun",
        }
    }

    /// How much the need decreases every tick by itself.
    pub open spec fn spec_default_decay(self) -> u32 {
        match self {
            Need::WATER | Need::FOOD | Need::SLEEP | Need::LOVE | Need::FUN => 1,
            Need::WARMTH => 0,
            Need::HEALTH => 0,
        }
    }

    pub fn get_default_decay(&self) -> (decay: u32)
        ensures
            decay == self.spec_default_decay(),
    {
        match self {
            Self::WATER | Self::FOOD | Self::SLEEP | Self::LOVE | Self::FUN => 1,
            Self::WARMTH => 0,  // by external sources
            Self::HEALTH => 0,  // by external sources
        }
    }

    /// From full to 0: how many ticks the need lasts, when it's only normally decreasing.
    pub open spec fn spec_full(self) -> u32 {
        match self {
            Need::WARMTH => (life::HOUR * 8) as u32,
            Need::WATER => (life::DAY * 3) as u32,
            Need::FOOD => life::WEEK,
            Need::SLEEP => life::WEEK,
            Need::LOVE => (life::WEEK * 2) as u32,
            Need::FUN => (life::WEEK * 2) as u32,
            Need::HEALTH => (life::WEEK * 2) as u32,
        }
    }

    /// From full to 0:
    /// How many ticks does it need, when it's only normally decreasing.
    /// This is adapted to normal human life.
    pub fn get_full(&self) -> (full: u32)
        ensures
            full == self.spec_full(),
    {
        match self {
            Need::WARMTH => life::HOUR * 8,  // 8 hours until freeze to death.
            Need::WATER => life::DAY * 3,  // 3 days until dehydrate.
            Need::FOOD => life::WEEK,  // a week until starve.
            Need::SLEEP => life::WEEK,  // a week until suffer from sleep loss.
            Need::LOVE => life::WEEK * 2,  // 2 weeks until become lonely.
            Need::FUN => life::WEEK * 2,  // 2 weeks until unmotivated and depressive.
            Need::HEALTH => life::WEEK * 2,  // 2 weeks until die of illness.
        }
    }

    /// Whether running out of the need is deadly.
    pub open spec fn spec_fatal(self) -> bool {
        match self {
            Need::WATER | Need::FOOD | Need::WARMTH | Need::HEALTH => true,
            Need::SLEEP | Need::LOVE | Need::FUN => false,
        }
    }

    /// Whether running out of the need is deadly.
    pub fn is_fatal(&self) -> (fatal: bool)
        ensures
            fatal == self.spec_fatal(),
    {
        match self {
            Self::WATER | Self::FOOD | Self::WARMTH | Self::HEALTH => true,
            Self::SLEEP | Self::LOVE | Self::FUN => false,
        }
    }
}

} // verus!
