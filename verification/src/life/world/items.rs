//! # Items in the World
//!
//! Constructions: walls, doors, windows, stairs and floors.

use vstd::prelude::*;

verus! {

/// Identifier for a Construction
pub type ConstructionId = usize;

/// Type and type attributes of a Construction.
#[derive(Debug, Clone, Copy, PartialEq, Eq, Hash, Structural)]
pub enum ConstructionType {
    /// is_horizontal (grows left->right, otherwise up->down), length
    Wall(bool, usize),
    /// is_open
    Door(bool),
    Window,
    /// is_leading_up
    Stairs(bool),
    Floor,
}

/// A wall growing left to right.
pub const WALL_LR: bool = true;

/// A wall growing up to down.
pub const WALL_UD: bool = false;

/// An open door.
pub const DOOR_OPEN: bool = true;

/// A closed door.
pub const DOOR_CLOSED: bool = false;

/// A Construction is an environmental part of the world.
///
/// They offer only just few options to interact with.
/// Mostly they block ways and are there to build and present place for the world.
#[derive(Debug, Clone, Copy, PartialEq, Eq, Hash, Structural)]
pub struct Construction {
    id: ConstructionId,
    construction_type: ConstructionType,
}

impl Construction {
    /// The identifier of the construction.
    pub closed spec fn spec_id(self) -> ConstructionId {
        self.id
    }

    /// The type of the construction.
    pub closed spec fn spec_construction_type(self) -> ConstructionType {
        self.construction_type
    }

    pub fn new(id: ConstructionId, construction_type: ConstructionType) -> (construction: Self)
        ensures
            construction.spec_id() == id,
            construction.spec_construction_type() == construction_type,
    {
        Self { id, construction_type }
    }

    pub fn id(&self) -> (id: ConstructionId)
        ensures
            id == self.spec_id(),
    {
        self.id
    }

    pub fn construction_type(&self) -> (construction_type: ConstructionType)
        ensures
            construction_type == self.spec_construction_type(),
    {
        self.construction_type
    }
}

} // verus!
