//! # World of a save
//!
//! The time of the world and its wusels.

use vstd::prelude::*;

use crate::model::creature::{Wusel, WuselId, WuselModel};

verus! {

/// Position.
/// A point in the world with three coordinates.
#[derive(Debug, PartialEq, Clone, Copy, Eq, Hash, Structural)]
pub struct Position {
    /// width (bird's eye: horizontal axis)
    x: u64,
    /// depth (bird's eye: vertical axis)
    y: u64,
    /// height (bird's eye: upper may cover below, up to certain level)
    z: u64,
}

impl View for Position {
    type V = (u64, u64, u64);

    closed spec fn view(&self) -> (u64, u64, u64) {
        (self.x, self.y, self.z)
    }
}

impl Position {
    pub fn from(x: u64, y: u64, z: u64) -> (position: Self)
        ensures
            position@ == (x, y, z),
    {
        Self { x, y, z }
    }
}

/// World.
/// View of the World and life.
#[derive(Debug, PartialEq, Clone, Eq, Hash)]
pub struct World {
    /// the simulated time.
    time: u64,
    wusels: Vec<Wusel>,
}

/// The mathematical model of the world of a save.
pub struct WorldModel {
    pub time: u64,
    pub wusels: Seq<WuselModel>,
}

impl View for World {
    type V = WorldModel;

    closed spec fn view(&self) -> WorldModel {
        WorldModel { time: self.time, wusels: self.wusels@.map_values(|w: Wusel| w@) }
    }
}

/// The index of the first wusel with the identifier, if any.
pub open spec fn spec_first_with_id(wusels: Seq<WuselModel>, id: usize) -> Option<int> {
    if exists|i: int| 0 <= i < wusels.len() && wusels[i].id == id {
        Some(
            choose|i: int|
                0 <= i < wusels.len() && wusels[i].id == id && forall|j: int|
                    0 <= j < i ==> wusels[j].id != id,
        )
    } else {
        None
    }
}

impl World {
    pub fn new() -> (world: Self)
        ensures
            world@ == (WorldModel { time: 0, wusels: Seq::empty() }),
    {
        let world = Self { time: 0, wusels: Vec::new() };
        assert(world@.wusels =~= Seq::<WuselModel>::empty());
        world
    }

    pub fn from(time: u64, wusels: Vec<Wusel>) -> (world: Self)
        ensures
            world@ == (WorldModel { time, wusels: wusels@.map_values(|w: Wusel| w@) }),
    {
        Self { time, wusels }
    }

    /// A world at the given time, without wusels.
    pub fn with_time(&self, time: u64) -> (world: Self)
        ensures
            world@ == (WorldModel { time, wusels: Seq::empty() }),
    {
        let wusels = Vec::new();
        let world = Self { time, wusels };
        assert(world@.wusels =~= Seq::<WuselModel>::empty());
        world
    }

    pub fn time(&self) -> (time: u64)
        ensures
            time == self@.time,
    {
        self.time
    }

    /// The wusels of the world, one after the other.
    pub fn wusels_iter(&self) -> (iter: std::slice::Iter<'_, Wusel>)
        ensures
            vstd::std_specs::slice::into_iter_elts(iter).map_values(|w: Wusel| w@) == self@.wusels,
            vstd::std_specs::iter::IteratorSpec::decrease(&iter) is Some,
            vstd::std_specs::iter::IteratorSpec::initial_value_relation(&iter, &iter),
    {
        let iter = self.wusels.as_slice().iter();
        proof {
            broadcast use vstd::std_specs::slice::axiom_spec_slice_iter;
            assert(vstd::std_specs::slice::into_iter_elts(iter) =~= self.wusels@);
        }
        iter
    }

    /// The first wusel with the identifier, if any.
    pub fn wusel_by_id(&self, wusel_id: WuselId) -> (wusel: Option<Wusel>)
        ensures
            match spec_first_with_id(self@.wusels, wusel_id@) {
                Some(i) => wusel matches Some(w) && w@ == self@.wusels[i],
                None => wusel is None,
            },
    {
        let mut i: usize = 0;
        while i < self.wusels.len()
            invariant
                i <= self.wusels@.len(),
                forall|j: int| 0 <= j < i ==> self@.wusels[j].id != wusel_id@,
            decreases self.wusels@.len() - i,
        {
            let wusel = self.wusels[i];
            assert(self@.wusels[i as int] == wusel@);
            let id = wusel.id();
            proof {
                crate::model::creature::lemma_wusel_id_view(id, wusel_id);
            }
            if id == wusel_id {
                proof {
                    let k = choose|k: int|
                        0 <= k < self@.wusels.len() && self@.wusels[k].id == wusel_id@ && forall|j: int|
                            0 <= j < k ==> self@.wusels[j].id != wusel_id@;
                    assert(self@.wusels[i as int].id == wusel_id@);
                    assert(k == i) by {
                        if k < i {
                        } else if i < k {
                            assert(self@.wusels[i as int].id != wusel_id@);
                        }
                    }
                }
                return Some(wusel);
            }
            i += 1;
        }
        None
    }
}

} // verus!
