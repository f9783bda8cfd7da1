//! # Creature
//!
//! The wusel of a save: an identifier, a position, an age and its needs.

use vstd::prelude::*;

use crate::model::world::Position;
use crate::random;

verus! {

/// Simple Id to have a unique Wusel.
#[derive(Debug, PartialEq, Clone, Copy, Eq, Hash, Structural)]
pub struct WuselId {
    value: usize,
}

impl View for WuselId {
    type V = usize;

    closed spec fn view(&self) -> usize {
        self.value
    }
}

/// Two identifiers are the same exactly when their values are.
pub proof fn lemma_wusel_id_view(a: WuselId, b: WuselId)
    ensures
        (a == b) == (a@ == b@),
{
}

impl WuselId {
    /// Generate a new wusel id: a random number.
    pub fn generate() -> (id: Self) {
        Self { value: random::random_usize() }
    }

    pub fn from(value: usize) -> (id: Self)
        ensures
            id@ == value,
    {
        Self { value }
    }
}

/// Wusel.
/// A living object, "that discovers the world."
/// A bundle of needs position in the world.
/// For Living it has an own drive to survive, explore and socialize.
#[derive(Debug, PartialEq, Clone, Copy, Eq, Hash, Structural)]
pub struct Wusel {
    /// Identifier of one Wusel, should be unique.
    id: WuselId,
    /// Position of the Wusel.
    position: Position,
    /// Age of a Wusel.
    age: u64,
    /// Life Need for Sleep; if too low, the Wusel falls asleep and must rest.
    wakefulness: u64,
    /// Life Need for Food and Water; if too low, the Wusel starves and dies.
    nourishment: u64,
    /// After taking Food and Water, the digestion starts (progress).
    digestion: u64,
    /// Level of Tidiness.
    tidiness: u64,
}

/// The mathematical model of a wusel of a save.
pub struct WuselModel {
    pub id: usize,
    pub position: (u64, u64, u64),
    pub age: u64,
    pub wakefulness: u64,
    pub nourishment: u64,
    pub digestion: u64,
    pub tidiness: u64,
}

impl View for Wusel {
    type V = WuselModel;

    closed spec fn view(&self) -> WuselModel {
        WuselModel {
            id: self.id@,
            position: self.position@,
            age: self.age,
            wakefulness: self.wakefulness,
            nourishment: self.nourishment,
            digestion: self.digestion,
            tidiness: self.tidiness,
        }
    }
}

impl WuselModel {
    /// A new wusel: at the root position, just born, awake, fed, with nothing to digest, tidy.
    pub open spec fn spec_new(id: usize) -> WuselModel {
        WuselModel {
            id,
            position: (0, 0, 0),
            age: 0,
            wakefulness: 10,
            nourishment: 10,
            digestion: 0,
            tidiness: 10,
        }
    }
}

impl Wusel {
    pub fn new(id: WuselId) -> (wusel: Self)
        ensures
            wusel@ == WuselModel::spec_new(id@),
    {
        Self {
            // with given wusel id.
            id,
            // root position for new Wusel.
            position: Position::from(0, 0, 0),
            // just born.
            age: 0,
            // not about to fall asleep.
            wakefulness: 10,
            // not about to starve to dead.
            nourishment: 10,
            // digesting nothing.
            digestion: 0,
            // not that dirty.
            tidiness: 10,
        }
    }

    pub fn id(&self) -> (id: WuselId)
        ensures
            id@ == self@.id,
    {
        self.id
    }

    pub fn position(&self) -> (position: Position)
        ensures
            position@ == self@.position,
    {
        self.position
    }

    pub fn set_position(&mut self, position: Position)
        ensures
            final(self)@ == (WuselModel { position: position@, ..old(self)@ }),
    {
        self.position = position;
    }

    pub fn age(&self) -> (age: u64)
        ensures
            age == self@.age,
    {
        self.age
    }

    pub fn set_age(&mut self, age: u64)
        ensures
            final(self)@ == (WuselModel { age, ..old(self)@ }),
    {
        self.age = age;
    }

    pub fn wakefulness(&self) -> (wakefulness: u64)
        ensures
            wakefulness == self@.wakefulness,
    {
        self.wakefulness
    }

    pub fn set_wakefulness(&mut self, wakefulness: u64)
        ensures
            final(self)@ == (WuselModel { wakefulness, ..old(self)@ }),
    {
        self.wakefulness = wakefulness;
    }

    pub fn nourishment(&self) -> (nourishment: u64)
        ensures
            nourishment == self@.nourishment,
    {
        self.nourishment
    }

    pub fn set_nourishment(&mut self, nourishment: u64)
        ensures
            final(self)@ == (WuselModel { nourishment, ..old(self)@ }),
    {
        self.nourishment = nourishment;
    }

    pub fn digestion(&self) -> (digestion: u64)
        ensures
            digestion == self@.digestion,
    {
        self.digestion
    }

    pub fn set_digestion(&mut self, digestion: u64)
        ensures
            final(self)@ == (WuselModel { digestion, ..old(self)@ }),
    {
        self.digestion = digestion;
    }

    pub fn tidiness(&self) -> (tidiness: u64)
        ensures
            tidiness == self@.tidiness,
    {
        self.tidiness
    }

    pub fn set_tidiness(&mut self, tidiness: u64)
        ensures
            final(self)@ == (WuselModel { tidiness, ..old(self)@ }),
    {
        self.tidiness = tidiness;
    }
}

} // verus!
