//! # Save
//!
//! A save is the world of the simulation: its time and its wusels.

use vstd::prelude::*;

use crate::model::creature::{Wusel, WuselId, WuselModel};
use crate::model::world::World;

verus! {

/// The error of reading and writing a save (`std::io::Error`).
#[verifier::external_type_specification]
#[verifier::external_body]
pub struct ExIoError(std::io::Error);

/// A save is a world.
pub type Save = World;

/// A new save: the time at its start and one newborn wusel (with a random identifier).
pub fn new_save() -> (save: Save)
    ensures
        save@.time == 0,
        save@.wusels.len() == 1,
        save@.wusels[0] == WuselModel::spec_new(save@.wusels[0].id),
{
    let time = 0u64;
    let wusels = vec![Wusel::new(WuselId::generate())];
    World::from(time, wusels)
}

/// The save read from an existing save file: the time 42 and one newborn wusel (with a
/// random identifier); nothing more is read from the file yet.
pub fn loaded_save() -> (save: Save)
    ensures
        save@.time == 42,
        save@.wusels.len() == 1,
        save@.wusels[0] == WuselModel::spec_new(save@.wusels[0].id),
{
    let time = 42u64;
    let wusels = vec![Wusel::new(WuselId::generate())];
    World::from(time, wusels)
}

/// Store the save.
///
/// (Nothing is written yet: storing always succeeds.)
pub fn store_save(_to_be_saved: Save) -> (stored: Result<(), std::io::Error>)
    ensures
        stored is Ok,
{
    Ok(())
}

} // verus!
