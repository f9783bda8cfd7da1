//! # World (with copies)
//!
//! The world as an all containing data tuple: tasks, actors and other items,
//! the time and the positional bounds. Read from outside, it only hands out copies.

use vstd::prelude::*;

use crate::life::areas;
use crate::life::wusels;
use crate::random;

verus! {

/// Identifier type of a world.
pub type WorldId = usize;

/// The world is a all containing data tuple.
/// It contains ongoing tasks, the actors and other items.
/// It also has the time, and positional bounds.
///
/// The world is then maintained by an external engine, updating time,
/// positions and objects.
pub struct World2 {
    id: WorldId,
    clock: u64,
    /// dimensions and bounds of the map.
    area: areas::Area,
    /// living creatures in the world (wrapped with a position index).
    wusels: Vec<(wusels::Wusel, usize)>,
    /// task of all undone tasks of every wusel.
    /// this is like a global task list.
    tasks: Vec<wusels::tasks::Task>,
    /// Wusel to Wusel Connection
    relations: Vec<wusels::relations::Relation>,
    /// Objects a wusel can interact with: (item, is pass through, is movable, position index).
    items: Vec<(char, bool, bool, usize)>,
    /// Fixed Objects, a wusel cannot interact with, such as walls or trees:
    /// (environment, position index).
    environment: Vec<(char, usize)>,
}

/// The mathematical model of a world.
pub struct World2Model {
    pub id: WorldId,
    pub clock: u64,
    pub area: areas::AreaModel,
    pub wusels: Seq<(wusels::WuselModel, usize)>,
    pub tasks: Seq<wusels::tasks::TaskModel>,
    pub relations: Seq<wusels::relations::RelationModel>,
    pub items: Seq<(char, bool, bool, usize)>,
    pub environment: Seq<(char, usize)>,
}

impl View for World2 {
    type V = World2Model;

    closed spec fn view(&self) -> World2Model {
        World2Model {
            id: self.id,
            clock: self.clock,
            area: self.area@,
            wusels: self.wusels@.map_values(|w: (wusels::Wusel, usize)| (w.0@, w.1)),
            tasks: self.tasks@.map_values(|t: wusels::tasks::Task| t@),
            relations: self.relations@.map_values(|r: wusels::relations::Relation| r@),
            items: self.items@,
            environment: self.environment@,
        }
    }
}

impl World2Model {
    /// An empty world at its start, in the area of the dimensions at the origin.
    pub open spec fn spec_new(id: WorldId, width: u32, depth: u32, height: u32) -> World2Model {
        World2Model {
            id,
            clock: 0,
            area: areas::AreaModel::spec_new(areas::Position { x: 0, y: 0, z: 0 }, width, depth, height),
            wusels: Seq::empty(),
            tasks: Seq::empty(),
            relations: Seq::empty(),
            items: Seq::empty(),
            environment: Seq::empty(),
        }
    }
}

impl World2 {
    /// Create a new empty world (with random id)
    pub fn new_with_random_id(width: u32, depth: u32, height: u32) -> (world: Self)
        requires
            width * depth <= usize::MAX,
            width * depth * height <= usize::MAX,
        ensures
            world@ == World2Model::spec_new(world@.id, width, depth, height),
    {
        Self::new(random::random_usize(), width, depth, height)
    }

    /// Create a new empty world
    pub fn new(id: usize, width: u32, depth: u32, height: u32) -> (world: Self)
        requires
            width * depth <= usize::MAX,
            width * depth * height <= usize::MAX,
        ensures
            world@ == World2Model::spec_new(id, width, depth, height),
    {
        let world = Self {
            id,
            clock: 0,
            area: areas::Area::new(areas::Position::new(0, 0, 0), width, depth, height),
            wusels: Vec::new(),
            tasks: Vec::new(),
            relations: Vec::new(),
            items: Vec::new(),
            environment: Vec::new(),
        };
        assert(world@.wusels =~= Seq::<(wusels::WuselModel, usize)>::empty());
        assert(world@.tasks =~= Seq::<wusels::tasks::TaskModel>::empty());
        assert(world@.relations =~= Seq::<wusels::relations::RelationModel>::empty());
        world
    }

    /// Get immutable world id
    pub fn id(&self) -> (id: WorldId)
        ensures
            id == self@.id,
    {
        self.id
    }

    /// Get immutable world clock
    pub fn clock(&self) -> (clock: u64)
        ensures
            clock == self@.clock,
    {
        self.clock
    }

    /// Get immutable dimensions and bounds of the map.
    pub fn area(&self) -> (area: areas::Area)
        ensures
            area@ == self@.area,
    {
        self.area
    }

    /// Get immutable copy of current wusels' data
    pub fn wusels(&self) -> (wusels: Vec<(wusels::Wusel, usize)>)
        ensures
            wusels@.map_values(|w: (wusels::Wusel, usize)| (w.0@, w.1)) == self@.wusels,
    {
        let mut copies: Vec<(wusels::Wusel, usize)> = Vec::new();
        let mut i: usize = 0;
        while i < self.wusels.len()
            invariant
                i <= self.wusels@.len(),
                copies@.len() == i,
                forall|k: int| 0 <= k < i ==> (#[trigger] copies@[k]).0@ == self.wusels@[k].0@ && copies@[k].1
                    == self.wusels@[k].1,
            decreases self.wusels@.len() - i,
        {
            copies.push((self.wusels[i].0.clone(), self.wusels[i].1));
            i += 1;
        }
        assert(copies@.map_values(|w: (wusels::Wusel, usize)| (w.0@, w.1)) =~= self@.wusels);
        copies
    }

    /// Get immutable copy of current tasks' data
    pub fn tasks(&self) -> (tasks: Vec<wusels::tasks::Task>)
        ensures
            tasks@.map_values(|t: wusels::tasks::Task| t@) == self@.tasks,
    {
        let mut copies: Vec<wusels::tasks::Task> = Vec::new();
        let mut i: usize = 0;
        while i < self.tasks.len()
            invariant
                i <= self.tasks@.len(),
                copies@.len() == i,
                forall|k: int| 0 <= k < i ==> (#[trigger] copies@[k])@ == self.tasks@[k]@,
            decreases self.tasks@.len() - i,
        {
            copies.push(self.tasks[i].clone());
            i += 1;
        }
        assert(copies@.map_values(|t: wusels::tasks::Task| t@) =~= self@.tasks);
        copies
    }

    /// Get immutable copy of current Wusel-to-Wusel Connections
    pub fn relations(&self) -> (relations: Vec<wusels::relations::Relation>)
        ensures
            relations@.map_values(|r: wusels::relations::Relation| r@) == self@.relations,
    {
        let mut copies: Vec<wusels::relations::Relation> = Vec::new();
        let mut i: usize = 0;
        while i < self.relations.len()
            invariant
                i <= self.relations@.len(),
                copies@.len() == i,
                forall|k: int| 0 <= k < i ==> (#[trigger] copies@[k])@ == self.relations@[k]@,
            decreases self.relations@.len() - i,
        {
            copies.push(self.relations[i].clone());
            i += 1;
        }
        assert(copies@.map_values(|r: wusels::relations::Relation| r@) =~= self@.relations);
        copies
    }

    /// Get immutable copy of current items
    pub fn items(&self) -> (items: Vec<(char, bool, bool, usize)>)
        ensures
            items@ == self@.items,
    {
        let mut copies: Vec<(char, bool, bool, usize)> = Vec::new();
        let mut i: usize = 0;
        while i < self.items.len()
            invariant
                i <= self.items@.len(),
                copies@ == self.items@.subrange(0, i as int),
            decreases self.items@.len() - i,
        {
            copies.push(self.items[i]);
            i += 1;
            assert(copies@ =~= self.items@.subrange(0, i as int));
        }
        assert(copies@ =~= self.items@);
        copies
    }

    /// Get immutable copy of current environmental objects
    pub fn environment(&self) -> (environment: Vec<(char, usize)>)
        ensures
            environment@ == self@.environment,
    {
        let mut copies: Vec<(char, usize)> = Vec::new();
        let mut i: usize = 0;
        while i < self.environment.len()
            invariant
                i <= self.environment@.len(),
                copies@ == self.environment@.subrange(0, i as int),
            decreases self.environment@.len() - i,
        {
            copies.push(self.environment[i]);
            i += 1;
            assert(copies@ =~= self.environment@.subrange(0, i as int));
        }
        assert(copies@ =~= self.environment@);
        copies
    }
}

} // verus!
