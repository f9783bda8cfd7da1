//! # World
//!
//! This module contains actual all game world and life logics and mechanics.

use vstd::prelude::*;

use std::collections::BTreeMap;
use vstd::std_specs::iter::IteratorSpec;

use crate::life::areas;
use crate::life::objects;
use crate::life::wusels;
use crate::life::wusels::tasks;
use crate::random;
use crate::text;

pub mod items;
pub mod task_manager;
pub mod world2;

verus! {

broadcast use vstd::laws_cmp::group_laws_cmp, vstd::std_specs::btree::group_btree_axioms;

/// State (in a sum type) with positional data for the world.
#[derive(Debug, Clone, Copy, PartialEq, Eq, Hash, Structural)]
pub enum InWorld {
    OnPositionIndex(usize),
    InStorageId(objects::ObjectId),
    HeldByWuselId(wusels::WuselId),
    Nowhere,
}

/// A type wrapped identifier that represents something in the world.
#[derive(Debug, Clone, Copy, PartialEq, Eq, Hash)]
pub enum PlaceTaker {
    Construction(items::ConstructionType, items::ConstructionId),
    Wusel(wusels::WuselId),
    Object(objects::ObjectId, objects::ObjectType),
}

/// The mathematical model of a place taker.
pub enum PlaceTakerModel {
    Construction(items::ConstructionType, items::ConstructionId),
    Wusel(wusels::WuselId),
    Object(objects::ObjectId, objects::ObjectKind),
}

impl View for PlaceTaker {
    type V = PlaceTakerModel;

    open spec fn view(&self) -> PlaceTakerModel {
        match self {
            PlaceTaker::Construction(t, id) => PlaceTakerModel::Construction(*t, *id),
            PlaceTaker::Wusel(id) => PlaceTakerModel::Wusel(*id),
            PlaceTaker::Object(id, t) => PlaceTakerModel::Object(*id, t@),
        }
    }
}

impl PlaceTaker {
    /// Check, if two place takers stand for the same thing.
    pub fn same_as(&self, other: &Self) -> (same: bool)
        ensures
            same == (self@ == other@),
    {
        match (self, other) {
            (PlaceTaker::Construction(t0, id0), PlaceTaker::Construction(t1, id1)) => *t0 == *t1 && *id0
                == *id1,
            (PlaceTaker::Wusel(id0), PlaceTaker::Wusel(id1)) => *id0 == *id1,
            (PlaceTaker::Object(id0, t0), PlaceTaker::Object(id1, t1)) => *id0 == *id1 && t0.same_as(t1),
            _ => false,
        }
    }
}

/// The models of the place takers of the positions.
pub open spec fn spec_grid_models(positions: Seq<Vec<PlaceTaker>>) -> Seq<Seq<PlaceTakerModel>> {
    positions.map_values(|p: Vec<PlaceTaker>| p@.map_values(|t: PlaceTaker| t@))
}

/// The first index in a list that holds the given place taker.
pub open spec fn spec_first_index_of(list: Seq<PlaceTakerModel>, placetaker: PlaceTakerModel) -> Option<
    int,
> {
    if exists|i: int| 0 <= i < list.len() && list[i] == placetaker {
        let i = choose|i: int|
            0 <= i < list.len() && list[i] == placetaker && forall|j: int|
                0 <= j < i ==> list[j] != placetaker;
        Some(i)
    } else {
        None
    }
}

/// The list without the first occurrence of the place taker (unchanged if it has none).
pub open spec fn spec_remove_first(list: Seq<PlaceTakerModel>, placetaker: PlaceTakerModel) -> Seq<
    PlaceTakerModel,
> {
    match spec_first_index_of(list, placetaker) {
        Some(i) => list.remove(i),
        None => list,
    }
}

/// The grid after moving a place taker: removed once from the old position (if that is one
/// of the world), put last onto the new position (if that is one of the world).
pub open spec fn spec_moved_on_grid(
    grid: Seq<Seq<PlaceTakerModel>>,
    placetaker: PlaceTakerModel,
    old_position_index: int,
    new_position_index: int,
) -> Seq<Seq<PlaceTakerModel>> {
    let removed = if 0 <= old_position_index < grid.len() {
        grid.update(old_position_index, spec_remove_first(grid[old_position_index], placetaker))
    } else {
        grid
    };
    if 0 <= new_position_index < removed.len() {
        removed.update(new_position_index, removed[new_position_index].push(placetaker))
    } else {
        removed
    }
}

/// The effect of using an object with an action: the object, the action, a name and the changes of needs.
pub struct ActionAffectModel {
    pub object_id: objects::ObjectId,
    pub action_id: usize,
    pub name: Seq<char>,
    pub effects: Seq<(wusels::Need, i16)>,
}

/// The place of existence, time and relations.
pub struct World {
    width: u32,
    depth: u32,
    height: u32,  // in levels.
    area: areas::Area,
    position_upper_bound: usize,
    positions: Vec<Vec<PlaceTaker>>,
    clock: usize,  // time of the world.
    sequential_wusel_id: wusels::WuselId,
    // all currently living wusel in map.
    wusels: Vec<wusels::Wusel>,
    wusels_index_with_id: Vec<wusels::WuselId>,
    wusels_index_on_position_index: Vec<usize>,
    sequential_object_id: objects::ObjectId,
    // all current object instances in world.
    objects: Vec<objects::Object>,
    objects_index_with_id: Vec<objects::ObjectId>,
    objects_index_with_type: Vec<objects::ObjectType>,
    objects_index_with_whereabouts: Vec<InWorld>,
    // all constructions
    constructions: Vec<items::Construction>,
    constructions_index_on_position_index: Vec<usize>,
    // actions in this world.
    actions: Vec<String>,
    actions_effects: Vec<tasks::ActionAffect>,
    // more world information ...
    dead_wusels: Vec<wusels::Wusel>,
    /// Relations of two wusels, keyed by the smaller and the greater id.
    relations: BTreeMap<(wusels::WuselId, wusels::WuselId), wusels::relations::Relation>,
}

/// The mathematical model of the world.
pub struct WorldModel {
    pub width: u32,
    pub depth: u32,
    pub height: u32,
    pub area: areas::AreaModel,
    pub position_upper_bound: usize,
    /// For each position index, the place takers on it.
    pub positions: Seq<Seq<PlaceTakerModel>>,
    pub clock: usize,
    pub sequential_wusel_id: wusels::WuselId,
    pub wusels: Seq<wusels::WuselModel>,
    pub wusel_ids: Seq<wusels::WuselId>,
    /// For each wusel (by index), the index of its position.
    pub wusel_positions: Seq<usize>,
    pub sequential_object_id: objects::ObjectId,
    pub objects: Seq<objects::ObjectModel>,
    pub object_ids: Seq<objects::ObjectId>,
    pub object_types: Seq<objects::ObjectType>,
    pub object_whereabouts: Seq<InWorld>,
    pub constructions: Seq<items::Construction>,
    /// For each construction (by index), the index of its (first) position.
    pub construction_positions: Seq<usize>,
    pub actions: Seq<Seq<char>>,
    pub actions_effects: Seq<ActionAffectModel>,
    pub dead_wusels: Seq<wusels::WuselModel>,
    pub relations: Map<(wusels::WuselId, wusels::WuselId), wusels::relations::RelationModel>,
}

/// The model of an action's effect.
pub open spec fn spec_action_affect_model(affect: tasks::ActionAffect) -> ActionAffectModel {
    ActionAffectModel { object_id: affect.0, action_id: affect.1, name: affect.2@, effects: affect.3@ }
}

impl View for World {
    type V = WorldModel;

    closed spec fn view(&self) -> WorldModel {
        WorldModel {
            width: self.width,
            depth: self.depth,
            height: self.height,
            area: self.area@,
            position_upper_bound: self.position_upper_bound,
            positions: spec_grid_models(self.positions@),
            clock: self.clock,
            sequential_wusel_id: self.sequential_wusel_id,
            wusels: self.wusels@.map_values(|w: wusels::Wusel| w@),
            wusel_ids: self.wusels_index_with_id@,
            wusel_positions: self.wusels_index_on_position_index@,
            sequential_object_id: self.sequential_object_id,
            objects: self.objects@.map_values(|o: objects::Object| o@),
            object_ids: self.objects_index_with_id@,
            object_types: self.objects_index_with_type@,
            object_whereabouts: self.objects_index_with_whereabouts@,
            constructions: self.constructions@,
            construction_positions: self.constructions_index_on_position_index@,
            actions: self.actions@.map_values(|a: String| a@),
            actions_effects: self.actions_effects@.map_values(
                |a: tasks::ActionAffect| spec_action_affect_model(a),
            ),
            dead_wusels: self.dead_wusels@.map_values(|w: wusels::Wusel| w@),
            relations: self.relations@.map_values(|r: wusels::relations::Relation| r@),
        }
    }
}

impl WorldModel {
    /// The index of a position (width first, then depth).
    pub open spec fn spec_position_to_index(self, position: areas::Position) -> int {
        position.x + self.width * position.y
    }

    /// The position at an index, if the index is one of the world.
    pub open spec fn spec_position_from_index(self, position_index: int) -> Option<areas::Position> {
        if 0 <= position_index < self.position_upper_bound {
            Some(
                areas::Position {
                    x: (position_index % (self.width as int)) as u32,
                    y: (position_index / (self.width as int)) as u32,
                    z: 0,
                },
            )
        } else {
            None
        }
    }

    /// The well-formedness of the world: the parallel lists agree, wusels are
    /// identified by their index, tasks belong to their wusel and did not start in the
    /// future, and the world knows no actions (none can be added).
    pub open spec fn wf(self) -> bool {
        &&& self.height == 1
        &&& self.width * self.depth * self.height <= u32::MAX
        &&& self.position_upper_bound == self.width * self.depth * self.height
        &&& self.positions.len() == self.position_upper_bound
        &&& self.area == areas::AreaModel::spec_new(
            areas::Position { x: 0, y: 0, z: 0 },
            self.width,
            self.depth,
            self.height,
        )
        &&& self.wusels.len() == self.sequential_wusel_id
        &&& self.wusel_ids.len() == self.wusels.len()
        &&& self.wusel_positions.len() == self.wusels.len()
        &&& forall|i: int| 0 <= i < self.wusels.len() ==> #[trigger] self.wusel_ids[i] == i
        &&& forall|i: int|
            0 <= i < self.wusels.len() ==> (#[trigger] self.wusels[i]).id == i && self.wusels[i].wf()
        &&& forall|i: int, j: int|
            0 <= i < self.wusels.len() && 0 <= j < self.wusels[i].tasklist.len() ==> {
                &&& (#[trigger] self.wusels[i].tasklist[j]).active_actor_id == i
                &&& self.wusels[i].tasklist[j].started ==> self.wusels[i].tasklist[j].start_time
                    <= self.clock
            }
        &&& self.objects.len() == self.object_ids.len()
        &&& self.objects.len() == self.object_whereabouts.len()
        &&& self.objects.len() <= self.object_types.len()
        &&& forall|i: int|
            0 <= i < self.object_whereabouts.len() ==> !(#[trigger] self.object_whereabouts[i] is InStorageId)
        &&& self.constructions.len() == self.construction_positions.len()
        &&& self.actions.len() == 0
    }

    /// The world right after its creation.
    pub open spec fn spec_new(width: u32, depth: u32) -> WorldModel {
        WorldModel {
            width,
            depth,
            height: 1,
            area: areas::AreaModel::spec_new(areas::Position { x: 0, y: 0, z: 0 }, width, depth, 1),
            position_upper_bound: (width * depth) as usize,
            positions: Seq::new((width * depth) as nat, |i: int| Seq::<PlaceTakerModel>::empty()),
            clock: 0,
            sequential_wusel_id: 0,
            wusels: Seq::empty(),
            wusel_ids: Seq::empty(),
            wusel_positions: Seq::empty(),
            sequential_object_id: 0,
            objects: Seq::empty(),
            object_ids: Seq::empty(),
            object_types: Seq::empty(),
            object_whereabouts: Seq::empty(),
            constructions: Seq::empty(),
            construction_positions: Seq::empty(),
            actions: Seq::empty(),
            actions_effects: Seq::empty(),
            dead_wusels: Seq::empty(),
            relations: Map::empty(),
        }
    }
}

impl World {
    /// Ticks of one day: 24 hours by 0.5 minutes.
    pub const TICKS_PER_DAY: usize = 2880;

    /// Create a new world.
    pub fn new(width: u32, depth: u32) -> (world: Self)
        requires
            width * depth <= u32::MAX,
        ensures
            world@ == WorldModel::spec_new(width, depth),
            world@.wf(),
    {
        let height: u32 = 1;
        let position_upper_bound: usize = (width * depth * height) as usize;
        let empty: Vec<PlaceTaker> = Vec::new();
        let positions = vec![empty; position_upper_bound];
        let world = Self {
            width,
            depth,
            height,
            area: areas::Area::new(areas::Position::new(0, 0, 0), width, depth, height),
            position_upper_bound,
            positions,
            clock: 0,
            sequential_wusel_id: 0,
            wusels: Vec::new(),
            wusels_index_with_id: Vec::new(),
            wusels_index_on_position_index: Vec::new(),
            sequential_object_id: 0,
            objects: Vec::new(),
            objects_index_with_id: Vec::new(),
            objects_index_with_type: Vec::new(),
            objects_index_with_whereabouts: Vec::new(),
            constructions: Vec::new(),
            constructions_index_on_position_index: Vec::new(),
            dead_wusels: Vec::new(),
            relations: BTreeMap::new(),
            actions: Vec::new(),
            actions_effects: Vec::new(),
        };
        proof {
            assert forall|i: int| 0 <= i < world.positions@.len() implies world.positions@[i]@.len()
                == 0 by {
                assert(cloned(empty, world.positions@[i]));
            }
            assert forall|i: int| 0 <= i < world.positions@.len() implies world@.positions[i]
                =~= Seq::<PlaceTakerModel>::empty() by {
                assert(world@.positions[i] == world.positions@[i]@.map_values(|t: PlaceTaker| t@));
            }
            assert(world@.positions =~= Seq::new(
                (width * depth) as nat,
                |i: int| Seq::<PlaceTakerModel>::empty(),
            ));
            assert(world@.wusels =~= Seq::<wusels::WuselModel>::empty());
            assert(world@.objects =~= Seq::<objects::ObjectModel>::empty());
            assert(world@.actions =~= Seq::<Seq<char>>::empty());
            assert(world@.actions_effects =~= Seq::<ActionAffectModel>::empty());
            assert(world@.dead_wusels =~= Seq::<wusels::WuselModel>::empty());
            assert(world@.relations =~= Map::<
                (wusels::WuselId, wusels::WuselId),
                wusels::relations::RelationModel,
            >::empty());
        }
        world
    }
}


impl World {
    /// Get the world's current time.
    pub fn get_time(&self) -> (time: usize)
        ensures
            time == self@.clock,
    {
        self.clock
    }

    /// Get width of the world.
    pub fn get_width(&self) -> (width: u32)
        ensures
            width == self@.width,
    {
        self.width
    }

    /// Get depth of the world.
    pub fn get_depth(&self) -> (depth: u32)
        ensures
            depth == self@.depth,
    {
        self.depth
    }

    /// Get height of the world.
    pub fn get_height(&self) -> (height: u32)
        ensures
            height == self@.height,
    {
        self.height
    }

    /// Get full dimension (width, depth, height|levels) of the world.
    pub fn get_dimensions(&self) -> (dimensions: (u32, u32, u32))
        ensures
            dimensions == (self@.width, self@.depth, self@.height),
    {
        (self.width, self.depth, self.height)
    }

    /// Get spanned area of the world.
    pub fn get_area(&self) -> (area: areas::Area)
        ensures
            area@ == self@.area,
    {
        self.area
    }

    /// Get the `positions` index for the requesting position (width, depth).
    /// If the position is not in world, this index is not in [0, positions.len()).
    fn position_to_index(&self, position: areas::Position) -> (position_index: usize)
        requires
            position.x + self@.width * position.y <= u32::MAX,
        ensures
            position_index == self@.spec_position_to_index(position),
    {
        (position.x + self.width * position.y) as usize
    }

    /// Get the position tuple from the given index in this world.
    fn position_from_index(&self, position_index: usize) -> (position: Option<areas::Position>)
        requires
            self@.wf(),
        ensures
            position == self@.spec_position_from_index(position_index as int),
    {
        if position_index < self.position_upper_bound {
            Some(
                areas::Position {
                    x: position_index as u32 % self.width,
                    y: position_index as u32 / self.width,
                    z: 0,
                },
            )
        } else {
            None
        }
    }

    /// Get a random position in this world.
    pub fn position_random(&self) -> (position: areas::Position)
        requires
            self@.wf(),
            self@.width > 0,
            self@.depth > 0,
        ensures
            position.x < self@.width,
            position.y < self@.depth,
            position.z == 0,
    {
        self.area.position_random()
    }

    /// Get the (valid) neighbours for a position.
    pub fn position_get_all_neighbours(&self, position: areas::Position) -> (neighbours: Vec<
        areas::Position,
    >)
        requires
            self@.wf(),
        ensures
            neighbours@ == self@.area.spec_neighbours_xy(position),
    {
        self.area.get_all_neighbours_xy(position)
    }

    /// Get the next optional neighbour to the given position in the given direction.
    pub fn position_get_neighbour_on(&self, position: areas::Position, direction: areas::Direction) -> (neighbour: Option<areas::Position>)
        requires
            self@.wf(),
        ensures
            neighbour == self@.area.spec_neighbour(position, direction),
    {
        self.area.get_directed_neighbour(position, direction)
    }

    /// Check if the position is inside the world bounds.
    pub fn has_position(&self, position: areas::Position) -> (inside: bool)
        requires
            self@.wf(),
        ensures
            inside == self@.area.spec_contains(position),
    {
        self.area.contains_position(&position)
    }

    /// Get all positions with a list/vector of the place takers on this position.
    /// Changing them will not influence the actual world state.
    pub fn positions_for_all_placetakers(&self) -> (grid: Vec<Vec<PlaceTaker>>)
        ensures
            spec_grid_models(grid@) == self@.positions,
    {
        let mut grid: Vec<Vec<PlaceTaker>> = Vec::new();
        let mut i: usize = 0;
        while i < self.positions.len()
            invariant
                i <= self.positions@.len(),
                grid@.len() == i,
                forall|k: int| 0 <= k < i ==> #[trigger] grid@[k]@ == self.positions@[k]@,
            decreases self.positions@.len() - i,
        {
            let mut copy: Vec<PlaceTaker> = Vec::new();
            let mut j: usize = 0;
            while j < self.positions[i].len()
                invariant
                    i < self.positions@.len(),
                    j <= self.positions@[i as int]@.len(),
                    copy@ == self.positions@[i as int]@.take(j as int),
                decreases self.positions@[i as int]@.len() - j,
            {
                copy.push(self.positions[i][j]);
                j += 1;
                assert(copy@ =~= self.positions@[i as int]@.take(j as int));
            }
            assert(copy@ =~= self.positions@[i as int]@);
            grid.push(copy);
            i += 1;
        }
        assert(spec_grid_models(grid@) =~= self@.positions) by {
            assert forall|k: int| 0 <= k < grid@.len() implies spec_grid_models(grid@)[k]
                == self@.positions[k] by {
                assert(grid@[k]@ == self.positions@[k]@);
            }
        }
        grid
    }

    /// Update the positions.
    ///
    /// Remove the given place taker from the old position and put them onto the new position.
    /// This can also be used for the first position or for removing from the world.
    /// (With no valid old or new position.)
    fn update_positions(&mut self, placetaker: PlaceTaker, old_position_index: usize, new_position_index: usize)
        requires
            old(self)@.wf(),
        ensures
            final(self)@ == (WorldModel {
                positions: spec_moved_on_grid(
                    old(self)@.positions,
                    placetaker@,
                    old_position_index as int,
                    new_position_index as int,
                ),
                ..old(self)@
            }),
            final(self)@.wf(),
    {
        let ghost grid0 = self@.positions;
        // remove from old position if given.
        if old_position_index < self.position_upper_bound {
            let mut opt_placetaker_index: Option<usize> = None;
            let mut k: usize = 0;
            while k < self.positions[old_position_index].len()
                invariant_except_break
                    opt_placetaker_index is None,
                invariant
                    old_position_index < self.positions@.len(),
                    self@ == old(self)@,
                    k <= self.positions@[old_position_index as int]@.len(),
                    forall|j: int|
                        0 <= j < k ==> self.positions@[old_position_index as int]@[j]@ != placetaker@,
                ensures
                    match opt_placetaker_index {
                        Some(j) => j < self.positions@[old_position_index as int]@.len()
                            && self.positions@[old_position_index as int]@[j as int]@ == placetaker@
                            && forall|i: int| 0 <= i < j ==> self.positions@[old_position_index as int]@[i]@ != placetaker@,
                        None => forall|i: int|
                            0 <= i < self.positions@[old_position_index as int]@.len()
                                ==> self.positions@[old_position_index as int]@[i]@ != placetaker@,
                    },
                decreases self.positions@[old_position_index as int]@.len() - k,
            {
                if self.positions[old_position_index][k].same_as(&placetaker) {
                    opt_placetaker_index = Some(k);
                    break;
                }
                k += 1;
            }
            let ghost list = grid0[old_position_index as int];
            proof {
                assert(list == self.positions@[old_position_index as int]@.map_values(|t: PlaceTaker| t@));
                match opt_placetaker_index {
                    Some(j) => {
                        assert(list[j as int] == placetaker@);
                        assert(forall|i: int| 0 <= i < j ==> list[i] != placetaker@);
                        assert(spec_first_index_of(list, placetaker@) == Some(j as int));
                    },
                    None => {
                        assert(forall|i: int| 0 <= i < list.len() ==> list[i] != placetaker@);
                        assert(spec_first_index_of(list, placetaker@) is None);
                    },
                }
            }
            let ghost before = self.positions@;
            if let Some(placetaker_index) = opt_placetaker_index {
                self.positions[old_position_index].remove(placetaker_index);
            }
            assert forall|i: int| 0 <= i < self.positions@.len() implies #[trigger] self@.positions[i] == (
            if i == old_position_index {
                spec_remove_first(list, placetaker@)
            } else {
                grid0[i]
            }) by {
                if i == old_position_index {
                    if let Some(j) = opt_placetaker_index {
                        assert(self.positions@[i]@ == before[i]@.remove(j as int));
                        assert(self@.positions[i] =~= list.remove(j as int));
                    } else {
                        assert(self@.positions[i] =~= list);
                    }
                }
            }
            assert(self@.positions =~= grid0.update(
                old_position_index as int,
                spec_remove_first(list, placetaker@),
            ));
        }
        let ghost grid1 = self@.positions;
        // put on new position if given.
        if new_position_index < self.position_upper_bound {
            let ghost before = self.positions@;
            self.positions[new_position_index].push(placetaker);
            assert forall|i: int| 0 <= i < self.positions@.len() implies #[trigger] self@.positions[i] == (
            if i == new_position_index {
                grid1[i].push(placetaker@)
            } else {
                grid1[i]
            }) by {
                if i == new_position_index {
                    assert(self.positions@[i]@ == before[i]@.push(placetaker));
                    assert(self@.positions[i] =~= grid1[i].push(placetaker@));
                }
            }
            assert(self@.positions =~= grid1.update(
                new_position_index as int,
                grid1[new_position_index as int].push(placetaker@),
            ));
        }
    }
}


/// How many positions a construction takes: a wall its length (at least one), others one.
pub open spec fn spec_cell_count(construction_type: items::ConstructionType) -> nat {
    match construction_type {
        items::ConstructionType::Wall(_, length) => if length > 1 {
            length as nat
        } else {
            1
        },
        _ => 1,
    }
}

/// The distance of the position indices of two neighbouring cells of a construction:
/// a horizontal wall grows by one, a vertical wall by one row (the width).
pub open spec fn spec_cell_step(width: u32, construction_type: items::ConstructionType) -> int {
    match construction_type {
        items::ConstructionType::Wall(horizontal, _) => if horizontal {
            1
        } else {
            width as int
        },
        _ => 0,
    }
}

/// The `n` cells from `position` on, `step` apart, are all positions of the grid.
pub open spec fn spec_cells_in_bound(position: int, step: int, n: nat, bound: int) -> bool
    decreases n,
{
    n == 0 || (0 <= position < bound && spec_cells_in_bound(position + step, step, (n - 1) as nat, bound))
}

/// The `n` cells from `position` on, `step` apart, stay within the numbers of a `usize`.
pub open spec fn spec_cells_representable(position: int, step: int, n: nat) -> bool
    decreases n,
{
    n == 0 || (position <= usize::MAX && spec_cells_representable(position + step, step, (n - 1) as nat))
}

/// Put a place taker onto `n` cells, `step` apart, starting at `position`.
pub open spec fn spec_push_cells(
    grid: Seq<Seq<PlaceTakerModel>>,
    placetaker: PlaceTakerModel,
    position: int,
    step: int,
    n: nat,
) -> Seq<Seq<PlaceTakerModel>>
    decreases n,
{
    if n == 0 {
        grid
    } else {
        spec_push_cells(
            grid.update(position, grid[position].push(placetaker)),
            placetaker,
            position + step,
            step,
            (n - 1) as nat,
        )
    }
}

/// Put a place taker onto `n` cells, `step` apart, starting at `position`; a cell that
/// is not one of the grid is left out.
pub open spec fn spec_put_cells(
    grid: Seq<Seq<PlaceTakerModel>>,
    placetaker: PlaceTakerModel,
    position: int,
    step: int,
    n: nat,
) -> Seq<Seq<PlaceTakerModel>>
    decreases n,
{
    if n == 0 {
        grid
    } else {
        spec_put_cells(
            if 0 <= position < grid.len() {
                grid.update(position, grid[position].push(placetaker))
            } else {
                grid
            },
            placetaker,
            position + step,
            step,
            (n - 1) as nat,
        )
    }
}

impl WorldModel {
    /// The place taker of a construction.
    pub open spec fn spec_construction_placetaker(self, index: int) -> PlaceTakerModel {
        PlaceTakerModel::Construction(
            self.constructions[index].spec_construction_type(),
            self.constructions[index].spec_id(),
        )
    }

    /// The grid with the first `k` constructions put onto it.
    pub open spec fn spec_place_constructions(self, grid: Seq<Seq<PlaceTakerModel>>, k: nat) -> Seq<
        Seq<PlaceTakerModel>,
    >
        decreases k,
    {
        if k == 0 {
            grid
        } else {
            let t = self.constructions[k - 1].spec_construction_type();
            spec_push_cells(
                self.spec_place_constructions(grid, (k - 1) as nat),
                self.spec_construction_placetaker(k - 1),
                self.construction_positions[k - 1] as int,
                spec_cell_step(self.width, t),
                spec_cell_count(t),
            )
        }
    }

    /// The grid with the first `k` wusels put onto it.
    pub open spec fn spec_place_wusels(self, grid: Seq<Seq<PlaceTakerModel>>, k: nat) -> Seq<
        Seq<PlaceTakerModel>,
    >
        decreases k,
    {
        if k == 0 {
            grid
        } else {
            let g = self.spec_place_wusels(grid, (k - 1) as nat);
            let p = self.wusel_positions[k - 1] as int;
            g.update(p, g[p].push(PlaceTakerModel::Wusel(self.wusel_ids[k - 1])))
        }
    }

    /// The grid with the first `k` objects put onto it (those placed on a position).
    pub open spec fn spec_place_objects(self, grid: Seq<Seq<PlaceTakerModel>>, k: nat) -> Seq<
        Seq<PlaceTakerModel>,
    >
        decreases k,
    {
        if k == 0 {
            grid
        } else {
            let g = self.spec_place_objects(grid, (k - 1) as nat);
            match self.object_whereabouts[k - 1] {
                InWorld::OnPositionIndex(p) => g.update(
                    p as int,
                    g[p as int].push(
                        PlaceTakerModel::Object(self.object_ids[k - 1], self.object_types[k - 1]@),
                    ),
                ),
                _ => g,
            }
        }
    }

    /// The grid computed from scratch: constructions, then wusels, then objects.
    pub open spec fn spec_recalculated_grid(self) -> Seq<Seq<PlaceTakerModel>> {
        let empty = Seq::new(self.positions.len(), |i: int| Seq::<PlaceTakerModel>::empty());
        self.spec_place_objects(
            self.spec_place_wusels(
                self.spec_place_constructions(empty, self.constructions.len()),
                self.wusels.len(),
            ),
            self.objects.len(),
        )
    }

    /// Every constructions', wusels' and placed objects' position is one of the world.
    pub open spec fn spec_everything_on_grid(self) -> bool {
        &&& forall|i: int|
            0 <= i < self.constructions.len() ==> spec_cells_in_bound(
                self.construction_positions[i] as int,
                spec_cell_step(self.width, self.constructions[i].spec_construction_type()),
                spec_cell_count(self.constructions[i].spec_construction_type()),
                self.position_upper_bound as int,
            )
        &&& forall|i: int| 0 <= i < self.wusel_positions.len() ==> self.wusel_positions[i] < self.position_upper_bound
        &&& forall|i: int|
            0 <= i < self.object_whereabouts.len() ==> (#[trigger] self.object_whereabouts[i] matches InWorld::OnPositionIndex(
                p,
            ) ==> p < self.position_upper_bound)
    }
}

/// Changing only the grid, keeping its length, keeps the world well-formed.
proof fn lemma_wf_new_grid(before: WorldModel, after: WorldModel)
    requires
        before.wf(),
        after == (WorldModel { positions: after.positions, ..before }),
        after.positions.len() == before.positions.len(),
    ensures
        after.wf(),
{
}

proof fn lemma_push_cells_len(grid: Seq<Seq<PlaceTakerModel>>, placetaker: PlaceTakerModel, position: int, step: int, n: nat)
    requires
        spec_cells_in_bound(position, step, n, grid.len() as int),
    ensures
        spec_push_cells(grid, placetaker, position, step, n).len() == grid.len(),
    decreases n,
{
    if n > 0 {
        lemma_push_cells_len(grid.update(position, grid[position].push(placetaker)), placetaker, position + step, step, (n - 1) as nat);
    }
}

proof fn lemma_place_constructions_len(world: WorldModel, grid: Seq<Seq<PlaceTakerModel>>, k: nat)
    requires
        k <= world.constructions.len(),
        world.constructions.len() == world.construction_positions.len(),
        forall|i: int|
            0 <= i < k ==> spec_cells_in_bound(
                world.construction_positions[i] as int,
                spec_cell_step(world.width, world.constructions[i].spec_construction_type()),
                spec_cell_count(world.constructions[i].spec_construction_type()),
                grid.len() as int,
            ),
    ensures
        world.spec_place_constructions(grid, k).len() == grid.len(),
    decreases k,
{
    if k > 0 {
        lemma_place_constructions_len(world, grid, (k - 1) as nat);
        let t = world.constructions[k - 1].spec_construction_type();
        lemma_push_cells_len(
            world.spec_place_constructions(grid, (k - 1) as nat),
            world.spec_construction_placetaker(k - 1),
            world.construction_positions[k - 1] as int,
            spec_cell_step(world.width, t),
            spec_cell_count(t),
        );
    }
}

proof fn lemma_place_wusels_len(world: WorldModel, grid: Seq<Seq<PlaceTakerModel>>, k: nat)
    requires
        k <= world.wusel_positions.len(),
        forall|i: int| 0 <= i < k ==> world.wusel_positions[i] < grid.len(),
    ensures
        world.spec_place_wusels(grid, k).len() == grid.len(),
    decreases k,
{
    if k > 0 {
        lemma_place_wusels_len(world, grid, (k - 1) as nat);
    }
}

impl WorldModel {
    /// One of the first `k` wusels is the place taker and stands on the cell.
    pub open spec fn spec_wusel_stands_upto(self, k: int, placetaker: PlaceTakerModel, cell: int) -> bool {
        exists|i: int|
            0 <= i < k && placetaker == PlaceTakerModel::Wusel(self.wusel_ids[i]) && #[trigger] self.wusel_positions[i]
                == cell
    }

    /// One of the first `k` objects is the place taker and lies on the cell.
    pub open spec fn spec_object_lies_upto(self, k: int, placetaker: PlaceTakerModel, cell: int) -> bool {
        exists|i: int|
            0 <= i < k && placetaker == PlaceTakerModel::Object(self.object_ids[i], self.object_types[i]@)
                && #[trigger] self.object_whereabouts[i] == InWorld::OnPositionIndex(cell as usize)
    }
}

/// How often the place taker stands in the list.
pub open spec fn spec_count(list: Seq<PlaceTakerModel>, placetaker: PlaceTakerModel) -> nat
    decreases list.len(),
{
    if list.len() == 0 {
        0
    } else {
        spec_count(list.drop_last(), placetaker) + if list.last() == placetaker {
            1nat
        } else {
            0nat
        }
    }
}

/// A list with one more place taker counts it once more.
proof fn lemma_count_push(list: Seq<PlaceTakerModel>, added: PlaceTakerModel, placetaker: PlaceTakerModel)
    ensures
        spec_count(list.push(added), placetaker) == spec_count(list, placetaker) + if added == placetaker {
            1nat
        } else {
            0nat
        },
{
    assert(list.push(added).drop_last() =~= list);
}

/// A list without one of its entries counts that entry once less.
proof fn lemma_count_remove(list: Seq<PlaceTakerModel>, i: int, placetaker: PlaceTakerModel)
    requires
        0 <= i < list.len(),
    ensures
        spec_count(list.remove(i), placetaker) + (if list[i] == placetaker {
            1nat
        } else {
            0nat
        }) == spec_count(list, placetaker),
    decreases list.len(),
{
    if i == list.len() - 1 {
        assert(list.remove(i) =~= list.drop_last());
    } else {
        lemma_count_remove(list.drop_last(), i, placetaker);
        assert(list.remove(i) =~= list.drop_last().remove(i).push(list.last()));
        lemma_count_push(list.drop_last().remove(i), list.last(), placetaker);
        assert(list.drop_last()[i] == list[i]);
    }
}

/// A place taker is counted in a list exactly when the list holds it.
proof fn lemma_count_contains(list: Seq<PlaceTakerModel>, placetaker: PlaceTakerModel)
    ensures
        (spec_count(list, placetaker) > 0) == list.contains(placetaker),
    decreases list.len(),
{
    if list.len() > 0 {
        lemma_count_contains(list.drop_last(), placetaker);
        assert(list =~= list.drop_last().push(list.last()));
        lemma_push_contains(list.drop_last(), list.last(), placetaker);
    }
}

/// Removing the first occurrence of a place taker counts it once less, if it was there.
proof fn lemma_count_remove_first(list: Seq<PlaceTakerModel>, placetaker: PlaceTakerModel)
    ensures
        spec_count(spec_remove_first(list, placetaker), placetaker) == if spec_count(list, placetaker) > 0 {
            (spec_count(list, placetaker) - 1) as nat
        } else {
            0nat
        },
        forall|other: PlaceTakerModel|
            other != placetaker ==> spec_count(spec_remove_first(list, placetaker), other) == spec_count(
                list,
                other,
            ),
{
    lemma_count_contains(list, placetaker);
    if list.contains(placetaker) {
        assert(exists|i: int|
            0 <= i < list.len() && list[i] == placetaker && forall|j: int| 0 <= j < i ==> list[j] != placetaker) by {
            lemma_first_occurrence(list, placetaker);
        }
        let i = choose|i: int|
            0 <= i < list.len() && list[i] == placetaker && forall|j: int| 0 <= j < i ==> list[j] != placetaker;
        lemma_count_remove(list, i, placetaker);
        assert forall|other: PlaceTakerModel| other != placetaker implies spec_count(
            spec_remove_first(list, placetaker),
            other,
        ) == spec_count(list, other) by {
            lemma_count_remove(list, i, other);
        }
    } else {
        assert(spec_count(list, placetaker) == 0);
    }
}

/// A list that holds the place taker has a first position of it.
proof fn lemma_first_occurrence(list: Seq<PlaceTakerModel>, placetaker: PlaceTakerModel)
    requires
        list.contains(placetaker),
    ensures
        exists|i: int|
            0 <= i < list.len() && list[i] == placetaker && forall|j: int| 0 <= j < i ==> list[j] != placetaker,
    decreases list.len(),
{
    if list.drop_last().contains(placetaker) {
        lemma_first_occurrence(list.drop_last(), placetaker);
        let i = choose|i: int|
            0 <= i < list.drop_last().len() && list.drop_last()[i] == placetaker && forall|j: int|
                0 <= j < i ==> list.drop_last()[j] != placetaker;
        assert(list[i] == placetaker);
        assert forall|j: int| 0 <= j < i implies list[j] != placetaker by {
            assert(list[j] == list.drop_last()[j]);
        }
    } else {
        let k = list.len() - 1;
        assert forall|j: int| 0 <= j < k implies list[j] != placetaker by {
            if list[j] == placetaker {
                assert(list.drop_last()[j] == placetaker);
            }
        }
        if list[k] != placetaker {
            let i = choose|i: int| 0 <= i < list.len() && list[i] == placetaker;
            assert(list.drop_last()[i] == placetaker);
        }
    }
}

/// A list with one more place taker holds what it held and the new one, nothing else.
proof fn lemma_push_contains(list: Seq<PlaceTakerModel>, added: PlaceTakerModel, placetaker: PlaceTakerModel)
    ensures
        list.push(added).contains(placetaker) == (list.contains(placetaker) || added == placetaker),
{
    let pushed = list.push(added);
    if list.contains(placetaker) {
        let i = choose|i: int| 0 <= i < list.len() && list[i] == placetaker;
        assert(pushed[i] == placetaker);
    }
    if added == placetaker {
        assert(pushed[list.len() as int] == placetaker);
    }
    if pushed.contains(placetaker) {
        let i = choose|i: int| 0 <= i < pushed.len() && pushed[i] == placetaker;
        if i < list.len() {
            assert(list[i] == placetaker);
        }
    }
}

/// One of the `n` cells from `position` on, `step` apart, is the cell.
pub open spec fn spec_cells_cover(position: int, step: int, n: nat, cell: int) -> bool
    decreases n,
{
    n > 0 && (position == cell || spec_cells_cover(position + step, step, (n - 1) as nat, cell))
}

/// Putting a place taker onto cells adds it to exactly those cells.
proof fn lemma_push_cells_contains(
    grid: Seq<Seq<PlaceTakerModel>>,
    placetaker: PlaceTakerModel,
    position: int,
    step: int,
    n: nat,
    cell: int,
)
    requires
        spec_cells_in_bound(position, step, n, grid.len() as int),
        0 <= cell < grid.len(),
    ensures
        spec_push_cells(grid, placetaker, position, step, n)[cell].contains(placetaker) == (
        grid[cell].contains(placetaker) || spec_cells_cover(position, step, n, cell)),
    decreases n,
{
    if n > 0 {
        let next = grid.update(position, grid[position].push(placetaker));
        lemma_push_cells_contains(next, placetaker, position + step, step, (n - 1) as nat, cell);
        lemma_push_contains(grid[position], placetaker, placetaker);
    }
}

/// Putting a place taker onto cells leaves what every cell holds of the others.
proof fn lemma_push_cells_keeps(
    grid: Seq<Seq<PlaceTakerModel>>,
    placetaker: PlaceTakerModel,
    position: int,
    step: int,
    n: nat,
    other: PlaceTakerModel,
    cell: int,
)
    requires
        spec_cells_in_bound(position, step, n, grid.len() as int),
        other != placetaker,
        0 <= cell < grid.len(),
    ensures
        spec_push_cells(grid, placetaker, position, step, n)[cell].contains(other) == grid[cell].contains(other),
    decreases n,
{
    if n > 0 {
        let next = grid.update(position, grid[position].push(placetaker));
        lemma_push_cells_keeps(next, placetaker, position + step, step, (n - 1) as nat, other, cell);
        lemma_push_contains(grid[position], placetaker, other);
    }
}

impl WorldModel {
    /// One of the first `k` constructions is the place taker and covers the cell.
    pub open spec fn spec_construction_covers_upto(self, k: int, placetaker: PlaceTakerModel, cell: int) -> bool {
        exists|i: int|
            0 <= i < k && placetaker == self.spec_construction_placetaker(i) && #[trigger] spec_cells_cover(
                self.construction_positions[i] as int,
                spec_cell_step(self.width, self.constructions[i].spec_construction_type()),
                spec_cell_count(self.constructions[i].spec_construction_type()),
                cell,
            )
    }
}

/// After putting the first `k` constructions onto the grid, a cell holds what it held and
/// the constructions covering it.
proof fn lemma_place_constructions_contains(
    world: WorldModel,
    grid: Seq<Seq<PlaceTakerModel>>,
    k: nat,
    placetaker: PlaceTakerModel,
    cell: int,
)
    requires
        k <= world.constructions.len(),
        world.constructions.len() == world.construction_positions.len(),
        forall|i: int|
            0 <= i < k ==> spec_cells_in_bound(
                world.construction_positions[i] as int,
                spec_cell_step(world.width, world.constructions[i].spec_construction_type()),
                spec_cell_count(world.constructions[i].spec_construction_type()),
                grid.len() as int,
            ),
        0 <= cell < grid.len(),
    ensures
        world.spec_place_constructions(grid, k)[cell].contains(placetaker) == (grid[cell].contains(placetaker)
            || world.spec_construction_covers_upto(k as int, placetaker, cell)),
    decreases k,
{
    if k > 0 {
        lemma_place_constructions_contains(world, grid, (k - 1) as nat, placetaker, cell);
        lemma_place_constructions_len(world, grid, (k - 1) as nat);
        let previous = world.spec_place_constructions(grid, (k - 1) as nat);
        let added = world.spec_construction_placetaker(k - 1);
        let t = world.constructions[k - 1].spec_construction_type();
        let position = world.construction_positions[k - 1] as int;
        let step = spec_cell_step(world.width, t);
        let n = spec_cell_count(t);
        if added == placetaker {
            lemma_push_cells_contains(previous, added, position, step, n, cell);
        } else {
            lemma_push_cells_keeps(previous, added, position, step, n, placetaker, cell);
        }
        if world.spec_construction_covers_upto(k as int, placetaker, cell) {
            let i = choose|i: int|
                0 <= i < k && placetaker == world.spec_construction_placetaker(i) && #[trigger] spec_cells_cover(
                    world.construction_positions[i] as int,
                    spec_cell_step(world.width, world.constructions[i].spec_construction_type()),
                    spec_cell_count(world.constructions[i].spec_construction_type()),
                    cell,
                );
            if i < k - 1 {
                assert(world.spec_construction_covers_upto(k - 1, placetaker, cell));
            }
        }
        if world.spec_construction_covers_upto(k - 1, placetaker, cell) {
            let i = choose|i: int|
                0 <= i < k - 1 && placetaker == world.spec_construction_placetaker(i) && #[trigger] spec_cells_cover(
                    world.construction_positions[i] as int,
                    spec_cell_step(world.width, world.constructions[i].spec_construction_type()),
                    spec_cell_count(world.constructions[i].spec_construction_type()),
                    cell,
                );
            assert(spec_cells_cover(
                world.construction_positions[i] as int,
                spec_cell_step(world.width, world.constructions[i].spec_construction_type()),
                spec_cell_count(world.constructions[i].spec_construction_type()),
                cell,
            ));
        }
        if added == placetaker && spec_cells_cover(position, step, n, cell) {
            assert(spec_cells_cover(
                world.construction_positions[k - 1] as int,
                spec_cell_step(world.width, world.constructions[k - 1].spec_construction_type()),
                spec_cell_count(world.constructions[k - 1].spec_construction_type()),
                cell,
            ));
        }
    }
}

/// After putting the first `k` wusels onto the grid, a cell holds what it held and the
/// wusels standing on it.
proof fn lemma_place_wusels_contains(
    world: WorldModel,
    grid: Seq<Seq<PlaceTakerModel>>,
    k: nat,
    placetaker: PlaceTakerModel,
    cell: int,
)
    requires
        k <= world.wusel_positions.len(),
        k <= world.wusel_ids.len(),
        forall|i: int| 0 <= i < k ==> world.wusel_positions[i] < grid.len(),
        0 <= cell < grid.len(),
    ensures
        world.spec_place_wusels(grid, k)[cell].contains(placetaker) == (grid[cell].contains(placetaker)
            || world.spec_wusel_stands_upto(k as int, placetaker, cell)),
    decreases k,
{
    if k > 0 {
        lemma_place_wusels_contains(world, grid, (k - 1) as nat, placetaker, cell);
        lemma_place_wusels_len(world, grid, (k - 1) as nat);
        let g = world.spec_place_wusels(grid, (k - 1) as nat);
        let p = world.wusel_positions[k - 1] as int;
        let added = PlaceTakerModel::Wusel(world.wusel_ids[k - 1]);
        lemma_push_contains(g[p], added, placetaker);
        if world.spec_wusel_stands_upto(k as int, placetaker, cell) {
            let i = choose|i: int|
                0 <= i < k && placetaker == PlaceTakerModel::Wusel(world.wusel_ids[i])
                    && #[trigger] world.wusel_positions[i] == cell;
            if i < k - 1 {
                assert(world.spec_wusel_stands_upto(k - 1, placetaker, cell));
            }
        }
        if world.spec_wusel_stands_upto(k - 1, placetaker, cell) {
            let i = choose|i: int|
                0 <= i < k - 1 && placetaker == PlaceTakerModel::Wusel(world.wusel_ids[i])
                    && #[trigger] world.wusel_positions[i] == cell;
            assert(world.wusel_positions[i] == cell);
        }
        if added == placetaker && p == cell {
            assert(world.wusel_positions[k - 1] == cell);
        }
    }
}

/// After putting the first `k` objects onto the grid, a cell holds what it held and the
/// objects lying on it.
proof fn lemma_place_objects_contains(
    world: WorldModel,
    grid: Seq<Seq<PlaceTakerModel>>,
    k: nat,
    placetaker: PlaceTakerModel,
    cell: int,
)
    requires
        k <= world.object_whereabouts.len(),
        k <= world.object_ids.len(),
        k <= world.object_types.len(),
        forall|i: int|
            0 <= i < k ==> (#[trigger] world.object_whereabouts[i] matches InWorld::OnPositionIndex(p) ==> p
                < grid.len()),
        0 <= cell < grid.len(),
        grid.len() <= usize::MAX,
    ensures
        world.spec_place_objects(grid, k).len() == grid.len(),
        world.spec_place_objects(grid, k)[cell].contains(placetaker) == (grid[cell].contains(placetaker)
            || world.spec_object_lies_upto(k as int, placetaker, cell)),
    decreases k,
{
    if k > 0 {
        lemma_place_objects_contains(world, grid, (k - 1) as nat, placetaker, cell);
        let g = world.spec_place_objects(grid, (k - 1) as nat);
        let added = PlaceTakerModel::Object(world.object_ids[k - 1], world.object_types[k - 1]@);
        assert((cell as usize) as int == cell);
        if world.spec_object_lies_upto(k as int, placetaker, cell) {
            let i = choose|i: int|
                0 <= i < k && placetaker == PlaceTakerModel::Object(world.object_ids[i], world.object_types[i]@)
                    && #[trigger] world.object_whereabouts[i] == InWorld::OnPositionIndex(cell as usize);
            if i < k - 1 {
                assert(world.spec_object_lies_upto(k - 1, placetaker, cell));
            }
        }
        if world.spec_object_lies_upto(k - 1, placetaker, cell) {
            let i = choose|i: int|
                0 <= i < k - 1 && placetaker == PlaceTakerModel::Object(world.object_ids[i], world.object_types[i]@)
                    && #[trigger] world.object_whereabouts[i] == InWorld::OnPositionIndex(cell as usize);
            assert(world.object_whereabouts[i] == InWorld::OnPositionIndex(cell as usize));
        }
        match world.object_whereabouts[k - 1] {
            InWorld::OnPositionIndex(p) => {
                lemma_push_contains(g[p as int], added, placetaker);
                if added == placetaker && p == cell {
                    assert(world.object_whereabouts[k - 1] == InWorld::OnPositionIndex(cell as usize));
                }
            },
            _ => {},
        }
    }
}

/// How many of the `n` cells from `position` on, `step` apart, are the cell.
pub open spec fn spec_cover_count(position: int, step: int, n: nat, cell: int) -> nat
    decreases n,
{
    if n == 0 {
        0
    } else {
        (if position == cell {
            1nat
        } else {
            0nat
        }) + spec_cover_count(position + step, step, (n - 1) as nat, cell)
    }
}

impl WorldModel {
    /// How often the first `k` constructions put the place taker onto the cell.
    pub open spec fn spec_constructions_count(self, k: nat, placetaker: PlaceTakerModel, cell: int) -> nat
        decreases k,
    {
        if k == 0 {
            0
        } else {
            self.spec_constructions_count((k - 1) as nat, placetaker, cell) + if placetaker
                == self.spec_construction_placetaker(k - 1) {
                spec_cover_count(
                    self.construction_positions[k - 1] as int,
                    spec_cell_step(self.width, self.constructions[k - 1].spec_construction_type()),
                    spec_cell_count(self.constructions[k - 1].spec_construction_type()),
                    cell,
                )
            } else {
                0nat
            }
        }
    }

    /// How many of the first `k` wusels are the place taker and stand on the cell.
    pub open spec fn spec_wusels_count(self, k: nat, placetaker: PlaceTakerModel, cell: int) -> nat
        decreases k,
    {
        if k == 0 {
            0
        } else {
            self.spec_wusels_count((k - 1) as nat, placetaker, cell) + if placetaker == PlaceTakerModel::Wusel(
                self.wusel_ids[k - 1],
            ) && self.wusel_positions[k - 1] == cell {
                1nat
            } else {
                0nat
            }
        }
    }

    /// How many of the first `k` objects are the place taker and lie on the cell.
    pub open spec fn spec_objects_count(self, k: nat, placetaker: PlaceTakerModel, cell: int) -> nat
        decreases k,
    {
        if k == 0 {
            0
        } else {
            self.spec_objects_count((k - 1) as nat, placetaker, cell) + if placetaker == PlaceTakerModel::Object(
                self.object_ids[k - 1],
                self.object_types[k - 1]@,
            ) && self.object_whereabouts[k - 1] == InWorld::OnPositionIndex(cell as usize) {
                1nat
            } else {
                0nat
            }
        }
    }
}

/// Putting a place taker onto cells counts it once more on each of them.
proof fn lemma_push_cells_count(
    grid: Seq<Seq<PlaceTakerModel>>,
    added: PlaceTakerModel,
    position: int,
    step: int,
    n: nat,
    placetaker: PlaceTakerModel,
    cell: int,
)
    requires
        spec_cells_in_bound(position, step, n, grid.len() as int),
        0 <= cell < grid.len(),
    ensures
        spec_count(spec_push_cells(grid, added, position, step, n)[cell], placetaker) == spec_count(
            grid[cell],
            placetaker,
        ) + if placetaker == added {
            spec_cover_count(position, step, n, cell)
        } else {
            0nat
        },
    decreases n,
{
    if n > 0 {
        let next = grid.update(position, grid[position].push(added));
        lemma_push_cells_count(next, added, position + step, step, (n - 1) as nat, placetaker, cell);
        lemma_count_push(grid[position], added, placetaker);
    }
}

/// After putting the first `k` constructions onto the grid, a cell counts each place taker
/// as often as before and as the constructions put it there.
proof fn lemma_place_constructions_count(
    world: WorldModel,
    grid: Seq<Seq<PlaceTakerModel>>,
    k: nat,
    placetaker: PlaceTakerModel,
    cell: int,
)
    requires
        k <= world.constructions.len(),
        world.constructions.len() == world.construction_positions.len(),
        forall|i: int|
            0 <= i < k ==> spec_cells_in_bound(
                world.construction_positions[i] as int,
                spec_cell_step(world.width, world.constructions[i].spec_construction_type()),
                spec_cell_count(world.constructions[i].spec_construction_type()),
                grid.len() as int,
            ),
        0 <= cell < grid.len(),
    ensures
        spec_count(world.spec_place_constructions(grid, k)[cell], placetaker) == spec_count(grid[cell], placetaker)
            + world.spec_constructions_count(k, placetaker, cell),
    decreases k,
{
    if k > 0 {
        lemma_place_constructions_count(world, grid, (k - 1) as nat, placetaker, cell);
        lemma_place_constructions_len(world, grid, (k - 1) as nat);
        let t = world.constructions[k - 1].spec_construction_type();
        lemma_push_cells_count(
            world.spec_place_constructions(grid, (k - 1) as nat),
            world.spec_construction_placetaker(k - 1),
            world.construction_positions[k - 1] as int,
            spec_cell_step(world.width, t),
            spec_cell_count(t),
            placetaker,
            cell,
        );
    }
}

/// After putting the first `k` wusels onto the grid, a cell counts each place taker as
/// often as before and as the wusels standing on it.
proof fn lemma_place_wusels_count(
    world: WorldModel,
    grid: Seq<Seq<PlaceTakerModel>>,
    k: nat,
    placetaker: PlaceTakerModel,
    cell: int,
)
    requires
        k <= world.wusel_positions.len(),
        k <= world.wusel_ids.len(),
        forall|i: int| 0 <= i < k ==> world.wusel_positions[i] < grid.len(),
        0 <= cell < grid.len(),
    ensures
        spec_count(world.spec_place_wusels(grid, k)[cell], placetaker) == spec_count(grid[cell], placetaker)
            + world.spec_wusels_count(k, placetaker, cell),
    decreases k,
{
    if k > 0 {
        lemma_place_wusels_count(world, grid, (k - 1) as nat, placetaker, cell);
        lemma_place_wusels_len(world, grid, (k - 1) as nat);
        let g = world.spec_place_wusels(grid, (k - 1) as nat);
        let p = world.wusel_positions[k - 1] as int;
        lemma_count_push(g[p], PlaceTakerModel::Wusel(world.wusel_ids[k - 1]), placetaker);
    }
}

/// After putting the first `k` objects onto the grid, a cell counts each place taker as
/// often as before and as the objects lying on it.
proof fn lemma_place_objects_count(
    world: WorldModel,
    grid: Seq<Seq<PlaceTakerModel>>,
    k: nat,
    placetaker: PlaceTakerModel,
    cell: int,
)
    requires
        k <= world.object_whereabouts.len(),
        k <= world.object_ids.len(),
        k <= world.object_types.len(),
        forall|i: int|
            0 <= i < k ==> (#[trigger] world.object_whereabouts[i] matches InWorld::OnPositionIndex(p) ==> p
                < grid.len()),
        0 <= cell < grid.len(),
        grid.len() <= usize::MAX,
    ensures
        spec_count(world.spec_place_objects(grid, k)[cell], placetaker) == spec_count(grid[cell], placetaker)
            + world.spec_objects_count(k, placetaker, cell),
    decreases k,
{
    if k > 0 {
        lemma_place_objects_count(world, grid, (k - 1) as nat, placetaker, cell);
        lemma_place_objects_contains(world, grid, (k - 1) as nat, placetaker, cell);
        let g = world.spec_place_objects(grid, (k - 1) as nat);
        let added = PlaceTakerModel::Object(world.object_ids[k - 1], world.object_types[k - 1]@);
        assert((cell as usize) as int == cell);
        match world.object_whereabouts[k - 1] {
            InWorld::OnPositionIndex(p) => {
                lemma_count_push(g[p as int], added, placetaker);
            },
            _ => {},
        }
    }
}

/// The grid built from scratch does not depend on the grid the world held before.
proof fn lemma_place_ignores_grid(world: WorldModel, other: WorldModel, grid: Seq<Seq<PlaceTakerModel>>, k: nat)
    requires
        other == (WorldModel { positions: other.positions, ..world }),
    ensures
        other.spec_place_constructions(grid, k) == world.spec_place_constructions(grid, k),
        other.spec_place_wusels(grid, k) == world.spec_place_wusels(grid, k),
        other.spec_place_objects(grid, k) == world.spec_place_objects(grid, k),
    decreases k,
{
    if k > 0 {
        lemma_place_ignores_grid(world, other, grid, (k - 1) as nat);
    }
}

/// After the recalculation, each cell of the world holds every place taker exactly as
/// often as the constructions cover the cell with it, the wusels stand on it as it and the
/// objects lie on it as it; a second recalculation gives the same grid.
pub proof fn lemma_recalculated_grid_counts(world: WorldModel, cell: int, placetaker: PlaceTakerModel)
    requires
        world.wf(),
        world.spec_everything_on_grid(),
        0 <= cell < world.positions.len(),
    ensures
        world.spec_recalculated_grid().len() == world.positions.len(),
        spec_count(world.spec_recalculated_grid()[cell], placetaker) == world.spec_constructions_count(
            world.constructions.len(),
            placetaker,
            cell,
        ) + world.spec_wusels_count(world.wusels.len(), placetaker, cell) + world.spec_objects_count(
            world.objects.len(),
            placetaker,
            cell,
        ),
        (WorldModel { positions: world.spec_recalculated_grid(), ..world }).spec_recalculated_grid()
            == world.spec_recalculated_grid(),
{
    let empty = Seq::new(world.positions.len(), |i: int| Seq::<PlaceTakerModel>::empty());
    let constructed = world.spec_place_constructions(empty, world.constructions.len());
    lemma_place_constructions_len(world, empty, world.constructions.len());
    let placed = world.spec_place_wusels(constructed, world.wusels.len());
    lemma_place_wusels_len(world, constructed, world.wusels.len());
    lemma_place_constructions_count(world, empty, world.constructions.len(), placetaker, cell);
    lemma_place_wusels_count(world, constructed, world.wusels.len(), placetaker, cell);
    lemma_place_objects_count(world, placed, world.objects.len(), placetaker, cell);
    lemma_place_objects_contains(world, placed, world.objects.len(), placetaker, cell);
    assert(spec_count(empty[cell], placetaker) == 0);
    let again = WorldModel { positions: world.spec_recalculated_grid(), ..world };
    assert(Seq::new(again.positions.len(), |i: int| Seq::<PlaceTakerModel>::empty()) == empty);
    lemma_place_ignores_grid(world, again, empty, world.constructions.len());
    lemma_place_ignores_grid(world, again, constructed, world.wusels.len());
    lemma_place_ignores_grid(world, again, placed, world.objects.len());
}

/// After the recalculation, a cell of the world holds a construction exactly when the
/// construction covers it, a wusel exactly when the wusel stands on it, and an object
/// exactly when the object lies on it.
pub proof fn lemma_recalculated_grid_exact(world: WorldModel, cell: int, placetaker: PlaceTakerModel)
    requires
        world.wf(),
        world.spec_everything_on_grid(),
        0 <= cell < world.positions.len(),
    ensures
        placetaker is Construction ==> (world.spec_recalculated_grid()[cell].contains(placetaker)
            <==> world.spec_construction_covers_upto(world.constructions.len() as int, placetaker, cell)),
        placetaker is Wusel ==> (world.spec_recalculated_grid()[cell].contains(placetaker)
            <==> world.spec_wusel_stands_upto(world.wusels.len() as int, placetaker, cell)),
        placetaker is Object ==> (world.spec_recalculated_grid()[cell].contains(placetaker)
            <==> world.spec_object_lies_upto(world.objects.len() as int, placetaker, cell)),
{
    let empty = Seq::new(world.positions.len(), |i: int| Seq::<PlaceTakerModel>::empty());
    let constructed = world.spec_place_constructions(empty, world.constructions.len());
    lemma_place_constructions_len(world, empty, world.constructions.len());
    let placed = world.spec_place_wusels(constructed, world.wusels.len());
    lemma_place_wusels_len(world, constructed, world.wusels.len());
    lemma_place_wusels_contains(world, constructed, world.wusels.len(), placetaker, cell);
    lemma_place_objects_contains(world, placed, world.objects.len(), placetaker, cell);
    lemma_place_constructions_contains(world, empty, world.constructions.len(), placetaker, cell);
    assert(!empty[cell].contains(placetaker));
    if !(placetaker is Construction) {
        assert(!world.spec_construction_covers_upto(world.constructions.len() as int, placetaker, cell));
    }
    if placetaker is Wusel {
        assert(!world.spec_object_lies_upto(world.objects.len() as int, placetaker, cell));
    }
    if placetaker is Object {
        assert(!world.spec_wusel_stands_upto(world.wusels.len() as int, placetaker, cell));
    }
    if placetaker is Construction {
        assert(!world.spec_wusel_stands_upto(world.wusels.len() as int, placetaker, cell));
        assert(!world.spec_object_lies_upto(world.objects.len() as int, placetaker, cell));
    }
}

impl World {
    /// Put a place taker onto `count` cells of the grid, `step` apart.
    fn push_cells(&mut self, placetaker: PlaceTaker, position: usize, step: usize, count: usize)
        requires
            old(self)@.wf(),
            spec_cells_in_bound(position as int, step as int, count as nat, old(self)@.position_upper_bound as int),
            spec_cells_representable(position as int, step as int, count as nat),
        ensures
            final(self)@ == (WorldModel {
                positions: spec_push_cells(old(self)@.positions, placetaker@, position as int, step as int, count as nat),
                ..old(self)@
            }),
            final(self)@.wf(),
    {
        let mut cell = position;
        let mut left = count;
        while left > 0
            invariant
                self@.wf(),
                old(self)@.wf(),
                spec_cells_in_bound(cell as int, step as int, left as nat, self@.position_upper_bound as int),
                spec_cells_representable(cell as int, step as int, left as nat),
                spec_push_cells(old(self)@.positions, placetaker@, position as int, step as int, count as nat)
                    == spec_push_cells(self@.positions, placetaker@, cell as int, step as int, left as nat),
                self@ == (WorldModel { positions: self@.positions, ..old(self)@ }),
                self@.positions.len() == old(self)@.positions.len(),
            decreases left,
        {
            let ghost grid = self@.positions;
            let ghost before = self.positions@;
            self.positions[cell].push(placetaker);
            assert forall|i: int| 0 <= i < self.positions@.len() implies #[trigger] self@.positions[i] == (
            if i == cell {
                grid[i].push(placetaker@)
            } else {
                grid[i]
            }) by {
                if i == cell {
                    assert(self.positions@[i]@ == before[i]@.push(placetaker));
                    assert(self@.positions[i] =~= grid[i].push(placetaker@));
                }
            }
            assert(self@.positions =~= grid.update(cell as int, grid[cell as int].push(placetaker@)));
            assert(spec_push_cells(grid, placetaker@, cell as int, step as int, left as nat)
                == spec_push_cells(self@.positions, placetaker@, cell + step, step as int, (left - 1) as nat));
            proof {
                lemma_wf_new_grid(old(self)@, self@);
                reveal_with_fuel(spec_cells_representable, 2);
                reveal_with_fuel(spec_cells_in_bound, 2);
            }
            left -= 1;
            if left > 0 {
                cell += step;
            }
        }
    }

    /// Recalculate all the positions.
    /// On each position (given by the index), make a list / vector of all PlaceTaker
    /// which are on them.
    pub fn recalculate_positions_for_all_placetakers(&mut self)
        requires
            old(self)@.wf(),
            old(self)@.spec_everything_on_grid(),
            forall|i: int|
                0 <= i < old(self)@.constructions.len() ==> spec_cells_representable(
                    old(self)@.construction_positions[i] as int,
                    spec_cell_step(old(self)@.width, old(self)@.constructions[i].spec_construction_type()),
                    spec_cell_count(old(self)@.constructions[i].spec_construction_type()),
                ),
        ensures
            final(self)@ == (WorldModel { positions: old(self)@.spec_recalculated_grid(), ..old(self)@ }),
            final(self)@.wf(),
    {
        // clear old positions.
        let mut i: usize = 0;
        while i < self.positions.len()
            invariant
                self@.wf(),
                old(self)@.wf(),
                i <= self@.positions.len(),
                forall|k: int| 0 <= k < i ==> #[trigger] self@.positions[k] == Seq::<PlaceTakerModel>::empty(),
                self@ == (WorldModel { positions: self@.positions, ..old(self)@ }),
                self@.positions.len() == old(self)@.positions.len(),
            decreases self@.positions.len() - i,
        {
            let ghost grid = self@.positions;
            self.positions[i].clear();
            assert forall|k: int| 0 <= k < self.positions@.len() implies #[trigger] self@.positions[k] == (
            if k == i {
                Seq::<PlaceTakerModel>::empty()
            } else {
                grid[k]
            }) by {
                if k == i {
                    assert(self@.positions[k] =~= Seq::<PlaceTakerModel>::empty());
                }
            }
            proof {
                lemma_wf_new_grid(old(self)@, self@);
            }
            i += 1;
        }
        let ghost empty = Seq::new(self@.positions.len(), |k: int| Seq::<PlaceTakerModel>::empty());
        assert(self@.positions =~= empty);
        let ghost w0 = old(self)@;

        // for constructions
        let mut c: usize = 0;
        while c < self.constructions.len()
            invariant
                self@.wf(),
                w0.wf(),
                w0.spec_everything_on_grid(),
                forall|i: int|
                    0 <= i < w0.constructions.len() ==> spec_cells_representable(
                        w0.construction_positions[i] as int,
                        spec_cell_step(w0.width, w0.constructions[i].spec_construction_type()),
                        spec_cell_count(w0.constructions[i].spec_construction_type()),
                    ),
                c <= w0.constructions.len(),
                empty.len() == w0.position_upper_bound,
                self@.positions == w0.spec_place_constructions(empty, c as nat),
                self@ == (WorldModel { positions: self@.positions, ..w0 }),
            decreases w0.constructions.len() - c,
        {
            let construction = self.constructions[c];
            let position_index = self.constructions_index_on_position_index[c];
            let construction_type = construction.construction_type();
            let placetaker = PlaceTaker::Construction(construction_type, construction.id());
            let (step, count): (usize, usize) = match construction_type {
                items::ConstructionType::Wall(horizontal, length) => (
                    if horizontal {
                        1
                    } else {
                        self.width as usize
                    },
                    if length > 1 {
                        length
                    } else {
                        1
                    },
                ),
                _ => (0, 1),
            };
            assert(placetaker@ == w0.spec_construction_placetaker(c as int));
            assert(w0.constructions[c as int] == construction);
            self.push_cells(placetaker, position_index, step, count);
            c += 1;
        }

        // for wusels
        let mut k: usize = 0;
        while k < self.wusels_index_on_position_index.len()
            invariant
                self@.wf(),
                w0.wf(),
                w0.spec_everything_on_grid(),
                k <= w0.wusel_positions.len(),
                self@.positions == w0.spec_place_wusels(
                    w0.spec_place_constructions(empty, w0.constructions.len()),
                    k as nat,
                ),
                self@ == (WorldModel { positions: self@.positions, ..w0 }),
            decreases w0.wusel_positions.len() - k,
        {
            let p = self.wusels_index_on_position_index[k];
            let placetaker = PlaceTaker::Wusel(self.wusels_index_with_id[k]);
            let ghost grid = self@.positions;
            let ghost before = self.positions@;
            self.positions[p].push(placetaker);
            assert forall|i: int| 0 <= i < self.positions@.len() implies #[trigger] self@.positions[i] == (
            if i == p {
                grid[i].push(placetaker@)
            } else {
                grid[i]
            }) by {
                if i == p {
                    assert(self.positions@[i]@ == before[i]@.push(placetaker));
                    assert(self@.positions[i] =~= grid[i].push(placetaker@));
                }
            }
            assert(self@.positions =~= grid.update(p as int, grid[p as int].push(placetaker@)));
            proof {
                lemma_wf_new_grid(w0, self@);
            }
            k += 1;
        }

        // for objects on a position
        let mut o: usize = 0;
        while o < self.objects_index_with_whereabouts.len()
            invariant
                self@.wf(),
                w0.wf(),
                w0.spec_everything_on_grid(),
                o <= w0.object_whereabouts.len(),
                self@.positions == w0.spec_place_objects(
                    w0.spec_place_wusels(
                        w0.spec_place_constructions(empty, w0.constructions.len()),
                        w0.wusels.len(),
                    ),
                    o as nat,
                ),
                self@ == (WorldModel { positions: self@.positions, ..w0 }),
            decreases w0.object_whereabouts.len() - o,
        {
            if let InWorld::OnPositionIndex(p) = self.objects_index_with_whereabouts[o] {
                let object_type = self.objects_index_with_type[o];
                let object_id = self.objects_index_with_id[o];
                let placetaker = PlaceTaker::Object(object_id, object_type);
                let ghost grid = self@.positions;
                let ghost before = self.positions@;
                self.positions[p].push(placetaker);
                assert forall|i: int| 0 <= i < self.positions@.len() implies #[trigger] self@.positions[i] == (
                if i == p {
                    grid[i].push(placetaker@)
                } else {
                    grid[i]
                }) by {
                    if i == p {
                        assert(self.positions@[i]@ == before[i]@.push(placetaker));
                        assert(self@.positions[i] =~= grid[i].push(placetaker@));
                    }
                }
                assert(self@.positions =~= grid.update(p as int, grid[p as int].push(placetaker@)));
                proof {
                    lemma_wf_new_grid(w0, self@);
                }
            }
            o += 1;
        }
    }
}


/// Cells from a start beyond the cell, stepping forward, never come back to it.
proof fn lemma_cells_cover_beyond(position: int, step: int, n: nat, cell: int)
    requires
        step > 0,
        position > cell,
    ensures
        !spec_cells_cover(position, step, n, cell),
    decreases n,
{
    if n > 0 {
        lemma_cells_cover_beyond(position + step, step, (n - 1) as nat, cell);
    }
}

/// Putting a construction onto its cells leaves every other cell as it was, and adds it
/// once, at the end, to each of its cells of the grid.
pub proof fn lemma_put_cells_exact(
    grid: Seq<Seq<PlaceTakerModel>>,
    placetaker: PlaceTakerModel,
    position: int,
    step: int,
    n: nat,
    cell: int,
)
    requires
        0 <= cell < grid.len(),
        step > 0 || n <= 1,
    ensures
        spec_put_cells(grid, placetaker, position, step, n).len() == grid.len(),
        spec_put_cells(grid, placetaker, position, step, n)[cell] == (if spec_cells_cover(
            position,
            step,
            n,
            cell,
        ) {
            grid[cell].push(placetaker)
        } else {
            grid[cell]
        }),
    decreases n,
{
    if n > 0 {
        let next = if 0 <= position < grid.len() {
            grid.update(position, grid[position].push(placetaker))
        } else {
            grid
        };
        lemma_put_cells_exact(next, placetaker, position + step, step, (n - 1) as nat, cell);
        if position == cell && n > 1 {
            lemma_cells_cover_beyond(position + step, step, (n - 1) as nat, cell);
        }
    }
}

impl World {
    /// Create a new Construction within the world.
    ///
    /// The construction (with the identifier 0) is put onto each of its cells that lies in
    /// the world; no other cell changes.
    pub fn construction_new(&mut self, construction_type: items::ConstructionType, position: areas::Position)
        requires
            old(self)@.wf(),
            position.x + old(self)@.width * position.y <= u32::MAX,
            spec_cells_representable(
                old(self)@.spec_position_to_index(position),
                spec_cell_step(old(self)@.width, construction_type),
                spec_cell_count(construction_type),
            ),
        ensures
            final(self)@.wf(),
            final(self)@.constructions.len() == old(self)@.constructions.len() + 1,
            final(self)@.constructions.last().spec_id() == 0,
            final(self)@.constructions.last().spec_construction_type() == construction_type,
            final(self)@ == (WorldModel {
                constructions: old(self)@.constructions.push(final(self)@.constructions.last()),
                construction_positions: old(self)@.construction_positions.push(
                    old(self)@.spec_position_to_index(position) as usize,
                ),
                positions: spec_put_cells(
                    old(self)@.positions,
                    PlaceTakerModel::Construction(construction_type, 0),
                    old(self)@.spec_position_to_index(position),
                    spec_cell_step(old(self)@.width, construction_type),
                    spec_cell_count(construction_type),
                ),
                ..old(self)@
            }),
    {
        let construction = items::Construction::new(0usize, construction_type);

        let position_index = self.position_to_index(position);

        let placetaker = PlaceTaker::Construction(construction_type, construction.id());

        self.constructions.push(construction);

        // start position.
        self.constructions_index_on_position_index.push(position_index);

        let ghost w1 = self@;
        let ghost step = spec_cell_step(self.width, construction_type);
        let ghost count = spec_cell_count(construction_type);

        // all positions it may take.
        // (no valid old position: it is put onto the grid for the first time.)
        self.update_positions(placetaker, self.position_upper_bound, position_index);
        proof {
            reveal_with_fuel(spec_put_cells, 2);
            reveal_with_fuel(spec_cells_representable, 2);
            assert(spec_put_cells(w1.positions, placetaker@, position_index as int, step, count)
                == spec_put_cells(self@.positions, placetaker@, position_index + step, step, (count - 1) as nat));
        }
        if let items::ConstructionType::Wall(horizontal, length) = construction_type {
            let mut more_position = position_index;
            // first position is already put.
            let mut i: usize = 1;
            while i < length
                invariant
                    self@.wf(),
                    1 <= i <= count,
                    length > 1 ==> count == length,
                    step == (if horizontal { 1 } else { self@.width as int }),
                    spec_cells_representable(more_position as int, step, (count - i + 1) as nat),
                    spec_put_cells(w1.positions, placetaker@, position_index as int, step, count)
                        == spec_put_cells(self@.positions, placetaker@, more_position + step, step, (count - i) as nat),
                    self@ == (WorldModel { positions: self@.positions, ..w1 }),
                decreases length - i,
            {
                proof {
                    reveal_with_fuel(spec_cells_representable, 2);
                }
                more_position += if horizontal {
                    1
                } else {
                    self.width as usize
                };
                let ghost grid = self@.positions;
                self.update_positions(placetaker, self.position_upper_bound, more_position);
                assert(spec_put_cells(grid, placetaker@, more_position as int, step, (count - i) as nat)
                    == spec_put_cells(self@.positions, placetaker@, more_position + step, step, (count - i - 1) as nat));
                i += 1;
            }
        }
    }

    /// Get all construction indices of a door.
    fn get_all_doors_indices(&self) -> (doors: Vec<usize>)
        ensures
            forall|i: int|
                0 <= i < doors@.len() ==> #[trigger] doors@[i] < self@.constructions.len()
                    && self@.constructions[doors@[i] as int].spec_construction_type() is Door,
            forall|i: int, j: int| 0 <= i < j < doors@.len() ==> doors@[i] < doors@[j],
            forall|k: int|
                0 <= k < self@.constructions.len() && (#[trigger] self@.constructions[k]).spec_construction_type() is Door
                    ==> exists|i: int| 0 <= i < doors@.len() && #[trigger] doors@[i] == k,
    {
        let mut doors: Vec<usize> = Vec::new();
        let mut index: usize = 0;
        while index < self.constructions.len()
            invariant
                index <= self@.constructions.len(),
                forall|i: int|
                    0 <= i < doors@.len() ==> #[trigger] doors@[i] < index
                        && self@.constructions[doors@[i] as int].spec_construction_type() is Door,
                forall|i: int, j: int| 0 <= i < j < doors@.len() ==> doors@[i] < doors@[j],
                forall|k: int|
                    0 <= k < index && (#[trigger] self@.constructions[k]).spec_construction_type() is Door
                        ==> exists|i: int| 0 <= i < doors@.len() && #[trigger] doors@[i] == k,
            decreases self@.constructions.len() - index,
        {
            let ghost before = doors@;
            if let items::ConstructionType::Door(_is_open) = self.constructions[index].construction_type() {
                doors.push(index);
                assert(doors@[doors@.len() - 1] == index);
            }
            assert forall|k: int|
                0 <= k < index + 1 && (#[trigger] self@.constructions[k]).spec_construction_type() is Door
                    implies exists|i: int| 0 <= i < doors@.len() && #[trigger] doors@[i] == k by {
                if k < index {
                    let i = choose|i: int| 0 <= i < before.len() && #[trigger] before[i] == k;
                    assert(doors@[i] == k);
                } else {
                    assert(doors@[doors@.len() - 1] == k);
                }
            }
            index += 1;
        }
        doors
    }
}


/// The first index of a list holding the value, if any.
pub open spec fn spec_first_index<A>(list: Seq<A>, value: A) -> Option<int> {
    if exists|i: int| 0 <= i < list.len() && list[i] == value {
        Some(
            choose|i: int|
                0 <= i < list.len() && list[i] == value && forall|j: int| 0 <= j < i ==> list[j] != value,
        )
    } else {
        None
    }
}

/// The first index of a list holding the value is found by looking at each entry in turn.
proof fn lemma_first_index<A>(list: Seq<A>, value: A, found: Option<int>)
    requires
        match found {
            Some(i) => 0 <= i < list.len() && list[i] == value && forall|j: int| 0 <= j < i ==> list[j] != value,
            None => forall|j: int| 0 <= j < list.len() ==> list[j] != value,
        },
    ensures
        spec_first_index(list, value) == found,
{
    if let Some(i) = found {
        let k = choose|k: int|
            0 <= k < list.len() && list[k] == value && forall|j: int| 0 <= j < k ==> list[j] != value;
        assert(k == i) by {
            if k < i {
                assert(list[k] != value);
            } else if i < k {
                assert(list[i] != value);
            }
        }
    }
}

/// A list holding the value has a first index holding it.
proof fn lemma_first_index_exists<A>(list: Seq<A>, value: A, i: int)
    requires
        0 <= i < list.len(),
        list[i] == value,
    ensures
        exists|k: int| 0 <= k < list.len() && list[k] == value && forall|j: int| 0 <= j < k ==> list[j] != value,
    decreases i,
{
    if exists|j: int| 0 <= j < i && list[j] == value {
        let j = choose|j: int| 0 <= j < i && list[j] == value;
        lemma_first_index_exists(list, value, j);
    } else {
        assert(forall|j: int| 0 <= j < i ==> list[j] != value);
    }
}

/// The first index holding a value holds it, and no index before it does.
pub proof fn lemma_first_index_found<A>(list: Seq<A>, value: A)
    ensures
        match spec_first_index(list, value) {
            Some(i) => 0 <= i < list.len() && list[i] == value && forall|j: int| 0 <= j < i ==> list[j] != value,
            None => forall|j: int| 0 <= j < list.len() ==> list[j] != value,
        },
{
    if exists|i: int| 0 <= i < list.len() && list[i] == value {
        let i = choose|i: int| 0 <= i < list.len() && list[i] == value;
        lemma_first_index_exists(list, value, i);
    }
}

impl WorldModel {
    /// The index of the object with the identifier, by the objects' own identifiers.
    pub open spec fn spec_object_id_to_index(self, object_id: objects::ObjectId) -> Option<int> {
        spec_first_index(self.object_ids, object_id)
    }

    /// The position of the object at an index: its position in the world, or the position
    /// of the wusel holding it.
    pub open spec fn spec_object_index_position(self, object_index: int) -> Option<areas::Position> {
        if 0 <= object_index < self.object_whereabouts.len() {
            match self.object_whereabouts[object_index] {
                InWorld::OnPositionIndex(p) => self.spec_position_from_index(p as int),
                InWorld::HeldByWuselId(w) => if w < self.wusels.len() {
                    self.spec_position_from_index(self.wusel_positions[w as int] as int)
                } else {
                    None
                },
                _ => None,
            }
        } else {
            None
        }
    }

    /// A held object's holder stands on a position of the world.
    pub open spec fn spec_object_index_position_defined(self, object_index: int) -> bool {
        0 <= object_index < self.object_whereabouts.len() ==> (self.object_whereabouts[object_index] matches InWorld::HeldByWuselId(w)
            ==> (w < self.wusels.len() ==> self.wusel_positions[w as int] < self.position_upper_bound))
    }

    /// The position of the object with the identifier.
    pub open spec fn spec_object_position(self, object_id: objects::ObjectId) -> Option<areas::Position> {
        match self.spec_object_id_to_index(object_id) {
            Some(i) => self.spec_object_index_position(i),
            None => None,
        }
    }

    /// The positions of the first `k` objects that are placed on a position of the world.
    pub open spec fn spec_object_positions_upto(self, k: nat) -> Seq<areas::Position>
        decreases k,
    {
        if k == 0 {
            Seq::empty()
        } else {
            let previous = self.spec_object_positions_upto((k - 1) as nat);
            match self.object_whereabouts[k - 1] {
                InWorld::OnPositionIndex(p) => match self.spec_position_from_index(p as int) {
                    Some(position) => previous.push(position),
                    None => previous,
                },
                _ => previous,
            }
        }
    }
}

impl World {
    /// Create a new object to exist in this world.
    ///
    /// Placed in a world inventory/storage first, can be placed in world.
    /// A passable object does not block the way; one that is not passable blocks it.
    /// Returns the new object's identifier.
    pub fn object_new(
        &mut self,
        object_type: objects::ObjectType,
        name: String,
        transportable: bool,
        passable: bool,
        consumable_parts: u16,
        storage_capacity: u16,
    ) -> (object_id: objects::ObjectId)
        requires
            old(self)@.wf(),
            old(self)@.sequential_object_id < usize::MAX,
        ensures
            final(self)@.wf(),
            object_id == old(self)@.sequential_object_id,
            final(self)@ == (WorldModel {
                objects: old(self)@.objects.push(
                    objects::ObjectModel {
                        name: name@,
                        id: 0,
                        object_type,
                        object_attributes: objects::spec_object_attributes(!passable, false, transportable),
                        consumable_bites: consumable_parts,
                        storage_capacity,
                        consumable_bites_left: consumable_parts,
                        storage_capacity_left: storage_capacity,
                    },
                ),
                object_whereabouts: old(self)@.object_whereabouts.push(InWorld::Nowhere),
                object_ids: old(self)@.object_ids.push(object_id),
                object_types: old(self)@.object_types.push(object_type),
                sequential_object_id: (old(self)@.sequential_object_id + 1) as usize,
                ..old(self)@
            }),
    {
        // Add the new object into the world active objects.
        self.objects.push(
            objects::Object::new(
                name,
                object_type,
                !passable,  // blocking
                false,  // stackable
                transportable,
                consumable_parts,
                storage_capacity,
            ),
        );

        let object_id: objects::ObjectId = self.sequential_object_id;

        self.objects_index_with_whereabouts.push(InWorld::Nowhere);
        self.objects_index_with_id.push(object_id);
        self.objects_index_with_type.push(object_type);

        self.sequential_object_id += 1;

        proof {
            assert(self@.objects =~= old(self)@.objects.push(self.objects@.last()@));
        }
        // Return new ID and appended index.
        object_id
    }

    /// Create a new food (an object) to exist in this world.
    ///
    /// Food is transportable and passable, without storage.
    /// Placed in a world inventory/storage first, can be placed in world.
    /// Returns the new object's identifier.
    pub fn food_new(&mut self, name: objects::ObjectSubtype, bites: u16) -> (object_id: objects::ObjectId)
        requires
            old(self)@.wf(),
            old(self)@.sequential_object_id < usize::MAX,
        ensures
            final(self)@.wf(),
            object_id == old(self)@.sequential_object_id,
            final(self)@ == (WorldModel {
                objects: old(self)@.objects.push(
                    objects::ObjectModel {
                        name: name@,
                        id: 0,
                        object_type: objects::ObjectType::Food(name),
                        object_attributes: objects::spec_object_attributes(false, false, true),
                        consumable_bites: bites,
                        storage_capacity: 0,
                        consumable_bites_left: bites,
                        storage_capacity_left: 0,
                    },
                ),
                object_whereabouts: old(self)@.object_whereabouts.push(InWorld::Nowhere),
                object_ids: old(self)@.object_ids.push(object_id),
                object_types: old(self)@.object_types.push(objects::ObjectType::Food(name)),
                sequential_object_id: (old(self)@.sequential_object_id + 1) as usize,
                ..old(self)@
            }),
    {
        let name_text = name.to_string();
        self.object_new(objects::ObjectType::Food(name), name_text, true, true, bites, 0)
    }

    /// Duplicate a world object: Use all attributes, but change the ID.
    ///
    /// This will create a new object, currently in world's storage.
    pub fn object_duplicate(&mut self, base_index: usize) -> (object_id: Option<objects::ObjectId>)
        requires
            old(self)@.wf(),
            base_index < old(self)@.objects.len() ==> old(self)@.sequential_object_id < usize::MAX,
        ensures
            final(self)@.wf(),
            base_index >= old(self)@.objects.len() ==> object_id is None && final(self)@ == old(self)@,
            base_index < old(self)@.objects.len() ==> {
                let base = old(self)@.objects[base_index as int];
                &&& object_id == Some(old(self)@.sequential_object_id)
                &&& final(self)@ == (WorldModel {
                    objects: old(self)@.objects.push(
                        objects::ObjectModel {
                            id: 0,
                            consumable_bites_left: base.consumable_bites,
                            storage_capacity_left: base.storage_capacity,
                            ..base
                        },
                    ),
                    object_whereabouts: old(self)@.object_whereabouts.push(InWorld::Nowhere),
                    object_ids: old(self)@.object_ids.push(old(self)@.sequential_object_id),
                    object_types: old(self)@.object_types.push(base.object_type),
                    sequential_object_id: (old(self)@.sequential_object_id + 1) as usize,
                    ..old(self)@
                })
            },
    {
        // Duplicate non existing?.
        if base_index >= self.objects.len() {
            return None;
        }

        let fresh_object = objects::Object::clone_as_new(&self.objects[base_index]);
        let fresh_object_id: objects::ObjectId = self.sequential_object_id;
        let fresh_object_type = fresh_object.get_object_type();

        self.objects.push(fresh_object);
        self.objects_index_with_whereabouts.push(InWorld::Nowhere);
        self.objects_index_with_id.push(fresh_object_id);
        self.objects_index_with_type.push(fresh_object_type);

        self.sequential_object_id += 1;

        proof {
            assert(self@.objects =~= old(self)@.objects.push(self.objects@.last()@));
        }
        Some(fresh_object_id)
    }

    /// The index of the object, by the list of object identifiers.
    fn get_objects_index_by_id(&self, object_id: objects::ObjectId) -> (object_index: Option<usize>)
        ensures
            match object_index {
                Some(i) => spec_first_index(self@.object_ids, object_id) == Some(i as int) && i
                    < self@.object_ids.len(),
                None => spec_first_index(self@.object_ids, object_id) is None,
            },
    {
        let mut i: usize = 0;
        while i < self.objects_index_with_id.len()
            invariant
                i <= self@.object_ids.len(),
                forall|j: int| 0 <= j < i ==> self@.object_ids[j] != object_id,
            decreases self@.object_ids.len() - i,
        {
            if self.objects_index_with_id[i] == object_id {
                proof {
                    lemma_first_index(self@.object_ids, object_id, Some(i as int));
                }
                return Some(i);
            }
            i += 1;
        }
        proof {
            lemma_first_index(self@.object_ids, object_id, None);
        }
        None
    }

    /// The whereabouts of the object, by the list of object identifiers.
    fn get_object_whereabouts_by_id(&self, object_id: objects::ObjectId) -> (whereabouts: Option<&InWorld>)
        requires
            self@.wf(),
        ensures
            match spec_first_index(self@.object_ids, object_id) {
                Some(i) => whereabouts == Some(&self@.object_whereabouts[i]),
                None => whereabouts is None,
            },
    {
        if let Some(object_index) = self.get_objects_index_by_id(object_id) {
            Some(&self.objects_index_with_whereabouts[object_index])
        } else {
            None
        }
    }

    /// The type of the object, by the list of object identifiers.
    fn get_object_type_by_id(&self, object_id: objects::ObjectId) -> (object_type: Option<objects::ObjectType>)
        requires
            self@.wf(),
        ensures
            match spec_first_index(self@.object_ids, object_id) {
                Some(i) => object_type == Some(self@.object_types[i]),
                None => object_type is None,
            },
    {
        if let Some(object_index) = self.get_objects_index_by_id(object_id) {
            Some(self.objects_index_with_type[object_index])
        } else {
            None
        }
    }

    /// Find the optional index of an object, given by the identifier the world gave it.
    fn object_id_to_index(&self, object_id: objects::ObjectId) -> (object_index: Option<usize>)
        requires
            self@.wf(),
        ensures
            match object_index {
                Some(i) => self@.spec_object_id_to_index(object_id) == Some(i as int) && i
                    < self@.objects.len(),
                None => self@.spec_object_id_to_index(object_id) is None,
            },
    {
        let ghost ids = self@.object_ids;
        let mut i: usize = 0;
        while i < self.objects_index_with_id.len()
            invariant
                self@.wf(),
                i <= ids.len(),
                ids == self@.object_ids,
                forall|j: int| 0 <= j < i ==> ids[j] != object_id,
            decreases ids.len() - i,
        {
            if self.objects_index_with_id[i] == object_id {
                proof {
                    lemma_first_index(ids, object_id, Some(i as int));
                }
                return Some(i);
            }
            i += 1;
        }
        proof {
            lemma_first_index(ids, object_id, None);
        }
        None
    }

    /// Get the optional position of an object, given by an index.
    /// If the position is held by a storage, get the position of the storage.
    fn objects_index_get_position(&self, object_index: usize) -> (position: Option<areas::Position>)
        requires
            self@.wf(),
            self@.spec_object_index_position_defined(object_index as int),
        ensures
            position == self@.spec_object_index_position(object_index as int),
    {
        if object_index >= self.objects_index_with_whereabouts.len() {
            return None;
        }
        match self.objects_index_with_whereabouts[object_index] {
            InWorld::OnPositionIndex(position_index) => self.position_from_index(position_index),
            InWorld::HeldByWuselId(wusel_id) => {
                // get nested position of holder.
                match self.get_wusels_index_by_id(wusel_id) {
                    Some(holder_index) => {
                        let wusel_position_index = self.wusels_index_on_position_index[holder_index];
                        Some(self.position_from_index(wusel_position_index).unwrap())
                    },
                    None => None,
                }
            },
            InWorld::InStorageId(_storage_object_id) => {
                // The position of a stored object is the one of its storage; but no object
                // of the world is ever stored in another, there is no such case.
                proof {
                    assert(self@.object_whereabouts[object_index as int] is InStorageId);
                }
                None
            },
            _ => None,
        }
    }

    /// Get the optional position of an object, given by an ID.
    /// If the object is held by a wusel, get the position of the wusel.
    pub fn object_get_position(&self, object_id: objects::ObjectId) -> (position: Option<areas::Position>)
        requires
            self@.wf(),
            self@.spec_object_id_to_index(object_id) matches Some(i)
                ==> self@.spec_object_index_position_defined(i),
        ensures
            position == self@.spec_object_position(object_id),
    {
        if let Some(object_index) = self.object_id_to_index(object_id) {
            self.objects_index_get_position(object_index)
        } else {
            None
        }
    }

    /// Get the positions of all objects that are placed on a position of the world.
    pub fn positions_for_objects(&self) -> (positions: Vec<areas::Position>)
        requires
            self@.wf(),
        ensures
            positions@ == self@.spec_object_positions_upto(self@.object_whereabouts.len()),
    {
        let mut positions: Vec<areas::Position> = Vec::new();
        let mut i: usize = 0;
        while i < self.objects_index_with_whereabouts.len()
            invariant
                self@.wf(),
                i <= self@.object_whereabouts.len(),
                positions@ == self@.spec_object_positions_upto(i as nat),
            decreases self@.object_whereabouts.len() - i,
        {
            if let InWorld::OnPositionIndex(position_index) = self.objects_index_with_whereabouts[i] {
                if let Some(position) = self.position_from_index(position_index) {
                    positions.push(position);
                }
            }
            i += 1;
        }
        positions
    }

    /// Place an object on a new position (in world).
    /// If the object was held or stored before, it is now not anymore.
    pub fn object_set_position(&mut self, object_id: objects::ObjectId, position: areas::Position)
        requires
            old(self)@.wf(),
            old(self)@.spec_object_id_to_index(object_id) is Some ==> position.x + old(self)@.width
                * position.y <= u32::MAX,
        ensures
            final(self)@.wf(),
            final(self)@ == old(self)@.spec_object_placed(object_id, position),
    {
        if let Some(object_index) = self.object_id_to_index(object_id) {
            let object_type = self.objects_index_with_type[object_index];

            let placetaker = PlaceTaker::Object(object_id, object_type);

            let old_position_index = match self.objects_index_with_whereabouts[object_index] {
                InWorld::OnPositionIndex(old_position_index) => old_position_index,
                _ => self.position_upper_bound,  // none (out of world).
            };
            let new_position_index = self.position_to_index(position);

            self.object_set_whereabouts(object_index, InWorld::OnPositionIndex(new_position_index));

            self.update_positions(placetaker, old_position_index, new_position_index);
        }
    }

    /// Place an object on a new position, or let it held by a wusel.
    /// The object is given by an (vector) index of all currently active objects.
    fn object_set_whereabouts(&mut self, object_index: usize, whereto: InWorld)
        requires
            old(self)@.wf(),
            !(whereto is InStorageId),
        ensures
            final(self)@.wf(),
            final(self)@ == (if object_index < old(self)@.objects.len() {
                WorldModel {
                    object_whereabouts: old(self)@.object_whereabouts.update(object_index as int, whereto),
                    ..old(self)@
                }
            } else {
                old(self)@
            }),
    {
        // Invalid index. => Abort.
        if object_index >= self.objects.len() {
            return;
        }
        // just update.
        self.objects_index_with_whereabouts.set(object_index, whereto);
    }

    /// Destroy an object given by a certain all-active-object's index.
    /// (The list of object types keeps its entry.)
    fn object_destroy(&mut self, object_index: usize)
        requires
            old(self)@.wf(),
        ensures
            final(self)@.wf(),
            final(self)@ == (if object_index < old(self)@.objects.len() {
                WorldModel {
                    objects: old(self)@.objects.remove(object_index as int),
                    object_whereabouts: old(self)@.object_whereabouts.remove(object_index as int),
                    object_ids: old(self)@.object_ids.remove(object_index as int),
                    ..old(self)@
                }
            } else {
                old(self)@
            }),
    {
        if object_index >= self.objects.len() {
            return;
        }

        self.objects.remove(object_index);
        self.objects_index_with_whereabouts.remove(object_index);
        self.objects_index_with_id.remove(object_index);
        proof {
            assert(self@.objects =~= old(self)@.objects.remove(object_index as int));
        }
    }

    /// Return the wusel index that holds the wusel with the requesting identifier.
    fn get_wusels_index_by_id(&self, wusel_id: wusels::WuselId) -> (wusel_index: Option<usize>)
        requires
            self@.wf(),
        ensures
            wusel_index == (if wusel_id < self@.wusels.len() {
                Some(wusel_id)
            } else {
                None::<usize>
            }),
    {
        let mut i: usize = 0;
        while i < self.wusels_index_with_id.len()
            invariant
                self@.wf(),
                i <= self@.wusel_ids.len(),
                i <= wusel_id,
            decreases self@.wusel_ids.len() - i,
        {
            if self.wusels_index_with_id[i] == wusel_id {
                return Some(i);
            }
            i += 1;
        }
        None
    }
}


/// A position of a world of the given width and depth has an index below width * depth.
proof fn lemma_position_index_bound(x: u32, y: u32, width: u32, depth: u32)
    requires
        x < width,
        y < depth,
    ensures
        x + width * y < width * depth,
{
    assert(x + width * y < width * depth) by (nonlinear_arith)
        requires
            x < width,
            y < depth,
    ;
}

impl WorldModel {
    /// The world with one wusel's model replaced.
    pub open spec fn spec_with_wusel(self, wusel_index: int, wusel: wusels::WuselModel) -> WorldModel {
        WorldModel { wusels: self.wusels.update(wusel_index, wusel), ..self }
    }

    /// The positions of the first `k` wusels (those standing in the world).
    pub open spec fn spec_wusel_positions_upto(self, k: nat) -> Seq<areas::Position>
        decreases k,
    {
        if k == 0 {
            Seq::empty()
        } else {
            let previous = self.spec_wusel_positions_upto((k - 1) as nat);
            match self.spec_position_from_index(self.wusel_positions[k - 1] as int) {
                Some(position) => previous.push(position),
                None => previous,
            }
        }
    }
}

impl World {
    /// A wusel's model, by index.
    proof fn lemma_wusel_view(&self, i: int)
        requires
            0 <= i < self.wusels@.len(),
        ensures
            self@.wusels[i] == self.wusels@[i]@,
    {
    }

    /// Add a wusel to the world.
    ///
    /// Its ID is the count of all wusels created so far.
    pub fn wusel_new(&mut self, name: String, gender: wusels::WuselGender, position: areas::Position)
        requires
            old(self)@.wf(),
            old(self)@.sequential_wusel_id < usize::MAX,
            position.x + old(self)@.width * position.y <= u32::MAX,
        ensures
            final(self)@.wf(),
            final(self)@ == (WorldModel {
                wusels: old(self)@.wusels.push(
                    wusels::WuselModel::spec_new(old(self)@.sequential_wusel_id, name@, gender),
                ),
                wusel_ids: old(self)@.wusel_ids.push(old(self)@.sequential_wusel_id),
                wusel_positions: old(self)@.wusel_positions.push(
                    old(self)@.spec_position_to_index(position) as usize,
                ),
                sequential_wusel_id: (old(self)@.sequential_wusel_id + 1) as usize,
                ..old(self)@
            }),
    {
        let new_wusel_id = self.sequential_wusel_id;  // almost id (for a long time unique)
        let new_wusel = wusels::Wusel::new(new_wusel_id, name, gender);  // new wusel at (position)

        // Add wusel to positions, start at (position).
        let position_index = self.position_to_index(position);

        self.wusels.push(new_wusel);
        self.wusels_index_with_id.push(new_wusel_id);  // fast access id.
        self.wusels_index_on_position_index.push(position_index);  // access position.

        self.sequential_wusel_id += 1;
        proof {
            assert(self@.wusels =~= old(self)@.wusels.push(
                wusels::WuselModel::spec_new(old(self)@.sequential_wusel_id, name@, gender),
            ));
            assert forall|i: int| 0 <= i < self@.wusels.len() implies (#[trigger] self@.wusels[i]).id == i
                && self@.wusels[i].wf() by {
                if i == self@.wusels.len() - 1 {
                    assert(wusels::spec_full_needs().len() == 7);
                }
            }
        }
    }

    /// Create a new random wusel, on a random position of the world.
    pub fn wusel_new_random(&mut self, wusel_name: String)
        requires
            old(self)@.wf(),
            old(self)@.sequential_wusel_id < usize::MAX,
            old(self)@.width > 0,
            old(self)@.depth > 0,
        ensures
            final(self)@.wf(),
            final(self)@.wusels.len() == old(self)@.wusels.len() + 1,
            final(self)@.wusels.last().name == wusel_name@,
            final(self)@.wusels.last().gender == wusels::WuselGender::Female || final(self)@.wusels.last().gender
                == wusels::WuselGender::Male,
            final(self)@.wusel_positions.last() < final(self)@.position_upper_bound,
            final(self)@ == (WorldModel {
                wusels: old(self)@.wusels.push(final(self)@.wusels.last()),
                wusel_ids: old(self)@.wusel_ids.push(old(self)@.sequential_wusel_id),
                wusel_positions: old(self)@.wusel_positions.push(final(self)@.wusel_positions.last()),
                sequential_wusel_id: (old(self)@.sequential_wusel_id + 1) as usize,
                ..old(self)@
            }),
    {
        let wusel_gender = wusels::WuselGender::random();
        let wusel_position = self.position_random();
        proof {
            lemma_position_index_bound(wusel_position.x, wusel_position.y, self.width, self.depth);
        }
        self.wusel_new(wusel_name, wusel_gender, wusel_position);
    }

    /// Count how many wusels are currently active.
    pub fn wusel_count(&self) -> (count: usize)
        ensures
            count == self@.wusels.len(),
    {
        self.wusels.len()
    }

    /// Check if a wusel index is actually given within the world::wusels.
    fn check_valid_wusel_index(&self, wusel_index: usize) -> (valid: bool)
        ensures
            valid == (wusel_index < self@.wusels.len()),
    {
        wusel_index < self.wusels.len()
    }

    /// Return an index for positions that is held by the wusel given by their identifier.
    fn get_wusel_position_index_by_id(&self, wusel_id: wusels::WuselId) -> (position_index: Option<&usize>)
        requires
            self@.wf(),
        ensures
            position_index == (if wusel_id < self@.wusels.len() {
                Some(&self@.wusel_positions[wusel_id as int])
            } else {
                None::<&usize>
            }),
    {
        if let Some(wusel_index) = self.get_wusels_index_by_id(wusel_id) {
            Some(&self.wusels_index_on_position_index[wusel_index])
        } else {
            None
        }
    }

    /// Get an optional Position for the wusel given by their identifier.
    pub fn wusel_get_position(&self, wusel_id: wusels::WuselId) -> (position: Option<areas::Position>)
        requires
            self@.wf(),
            wusel_id < self@.wusels.len() ==> self@.wusel_positions[wusel_id as int] < self@.position_upper_bound,
        ensures
            position == (if wusel_id < self@.wusels.len() {
                self@.spec_position_from_index(self@.wusel_positions[wusel_id as int] as int)
            } else {
                None
            }),
            wusel_id < self@.wusels.len() ==> position is Some,
    {
        match self.get_wusel_position_index_by_id(wusel_id) {
            Some(position_index) => Some(self.position_from_index(*position_index).unwrap()),
            None => None,
        }
    }

    /// Set the position of the wusel given by their identifier.
    ///
    /// A position beyond the world is put to the nearest border; in a world without
    /// positions (no width or no depth) nothing moves.
    pub fn wusel_set_position(&mut self, wusel_id: wusels::WuselId, position: areas::Position)
        requires
            old(self)@.wf(),
        ensures
            final(self)@ == old(self)@.spec_wusel_placed(wusel_id as int, position),
            final(self)@.wf(),
    {
        if let Some(wusel_index) = self.get_wusels_index_by_id(wusel_id) {
            self.wusel_set_position_by_index(wusel_index, position);
        }
    }

    /// Set the position of the indexed wusel to the nearest valid position:
    /// a position beyond the world is put to the nearest border.
    fn wusel_set_position_by_index(&mut self, wusel_index: usize, position: areas::Position)
        requires
            old(self)@.wf(),
        ensures
            final(self)@ == old(self)@.spec_wusel_placed(wusel_index as int, position),
            final(self)@.wf(),
    {
        if self.width == 0 || self.depth == 0 {
            return;  // no position to stand on.
        }
        let position = areas::Position {
            x: if position.x < self.width { position.x } else { self.width - 1 },
            y: if position.y < self.depth { position.y } else { self.depth - 1 },
            z: if position.z < self.height { position.z } else { self.height - 1 },
        };
        proof {
            lemma_position_index_bound(position.x, position.y, self.width, self.depth);
            assert(self.width * self.depth * self.height == self.width * self.depth * 1);
        }
        if self.check_valid_wusel_index(wusel_index) {
            let placetaker = PlaceTaker::Wusel(self.wusels_index_with_id[wusel_index]);
            let old_position_index = self.wusels_index_on_position_index[wusel_index];
            let new_position_index = self.position_to_index(position);

            self.wusels_index_on_position_index.set(wusel_index, new_position_index);
            assert(self@ == (WorldModel {
                wusel_positions: old(self)@.wusel_positions.update(wusel_index as int, new_position_index),
                ..old(self)@
            }));

            self.update_positions(placetaker, old_position_index, new_position_index);
        }
    }

    /// Get the positions of all active wusels (standing in the world).
    pub fn positions_for_wusels(&self) -> (positions: Vec<areas::Position>)
        requires
            self@.wf(),
        ensures
            positions@ == self@.spec_wusel_positions_upto(self@.wusel_positions.len()),
    {
        let mut positions: Vec<areas::Position> = Vec::new();
        let mut i: usize = 0;
        while i < self.wusels_index_on_position_index.len()
            invariant
                self@.wf(),
                i <= self@.wusel_positions.len(),
                positions@ == self@.spec_wusel_positions_upto(i as nat),
            decreases self@.wusel_positions.len() - i,
        {
            if let Some(position) = self.position_from_index(self.wusels_index_on_position_index[i]) {
                positions.push(position);
            }
            i += 1;
        }
        positions
    }

    /// Get the indices of all wusels, which are alive.
    pub fn wusel_get_all_alive(&self) -> (alive: Vec<usize>)
        ensures
            forall|i: int| 0 <= i < alive@.len() ==> #[trigger] alive@[i] < self@.wusels.len() && self@.wusels[alive@[i] as int].spec_is_alive(),
            forall|i: int, j: int| 0 <= i < j < alive@.len() ==> alive@[i] < alive@[j],
            forall|k: int| 0 <= k < self@.wusels.len() && (#[trigger] self@.wusels[k]).spec_is_alive()
                ==> exists|i: int| 0 <= i < alive@.len() && #[trigger] alive@[i] == k,
    {
        let mut alive: Vec<usize> = Vec::new();
        let mut index: usize = 0;
        while index < self.wusels.len()
            invariant
                index <= self@.wusels.len(),
                forall|i: int| 0 <= i < alive@.len() ==> #[trigger] alive@[i] < index && self@.wusels[alive@[i] as int].spec_is_alive(),
                forall|i: int, j: int| 0 <= i < j < alive@.len() ==> alive@[i] < alive@[j],
                forall|k: int| 0 <= k < index && (#[trigger] self@.wusels[k]).spec_is_alive()
                    ==> exists|i: int| 0 <= i < alive@.len() && #[trigger] alive@[i] == k,
            decreases self@.wusels.len() - index,
        {
            let ghost before = alive@;
            proof { self.lemma_wusel_view(index as int); }
            if self.wusels[index].is_alive() {
                alive.push(index);
                assert(alive@[alive@.len() - 1] == index);
            }
            assert forall|k: int| 0 <= k < index + 1 && (#[trigger] self@.wusels[k]).spec_is_alive()
                implies exists|i: int| 0 <= i < alive@.len() && #[trigger] alive@[i] == k by {
                if k < index {
                    let i = choose|i: int| 0 <= i < before.len() && #[trigger] before[i] == k;
                    assert(alive@[i] == k);
                } else {
                    assert(alive@[alive@.len() - 1] == k);
                }
            }
            index += 1;
        }
        alive
    }

    /// Get the indices of all wusels, which are currently having no tasks to do.
    pub fn wusel_get_all_unbusy(&self) -> (unbusy: Vec<usize>)
        ensures
            forall|i: int| 0 <= i < unbusy@.len() ==> #[trigger] unbusy@[i] < self@.wusels.len() && self@.wusels[unbusy@[i] as int].tasklist.len() == 0,
            forall|i: int, j: int| 0 <= i < j < unbusy@.len() ==> unbusy@[i] < unbusy@[j],
            forall|k: int| 0 <= k < self@.wusels.len() && (#[trigger] self@.wusels[k]).tasklist.len() == 0
                ==> exists|i: int| 0 <= i < unbusy@.len() && #[trigger] unbusy@[i] == k,
    {
        let mut unbusy: Vec<usize> = Vec::new();
        let mut index: usize = 0;
        while index < self.wusels.len()
            invariant
                index <= self@.wusels.len(),
                forall|i: int| 0 <= i < unbusy@.len() ==> #[trigger] unbusy@[i] < index && self@.wusels[unbusy@[i] as int].tasklist.len() == 0,
                forall|i: int, j: int| 0 <= i < j < unbusy@.len() ==> unbusy@[i] < unbusy@[j],
                forall|k: int| 0 <= k < index && (#[trigger] self@.wusels[k]).tasklist.len() == 0
                    ==> exists|i: int| 0 <= i < unbusy@.len() && #[trigger] unbusy@[i] == k,
            decreases self@.wusels.len() - index,
        {
            let ghost before = unbusy@;
            proof { self.lemma_wusel_view(index as int); }
            if self.wusels[index].has_tasklist_empty() {
                unbusy.push(index);
                assert(unbusy@[unbusy@.len() - 1] == index);
            }
            assert forall|k: int| 0 <= k < index + 1 && (#[trigger] self@.wusels[k]).tasklist.len() == 0
                implies exists|i: int| 0 <= i < unbusy@.len() && #[trigger] unbusy@[i] == k by {
                if k < index {
                    let i = choose|i: int| 0 <= i < before.len() && #[trigger] before[i] == k;
                    assert(unbusy@[i] == k);
                } else {
                    assert(unbusy@[unbusy@.len() - 1] == k);
                }
            }
            index += 1;
        }
        unbusy
    }
}

impl WorldModel {
    /// The position of the world nearest to the given one: each coordinate beyond the
    /// world's extent is put to its last value.
    pub open spec fn spec_nearest_inside(self, position: areas::Position) -> areas::Position {
        areas::Position {
            x: if position.x < self.width {
                position.x
            } else {
                (self.width - 1) as u32
            },
            y: if position.y < self.depth {
                position.y
            } else {
                (self.depth - 1) as u32
            },
            z: if position.z < self.height {
                position.z
            } else {
                (self.height - 1) as u32
            },
        }
    }

    /// The world after setting the wusel at an index onto the position of the world
    /// nearest to the given one; a world without positions stays as it is.
    pub open spec fn spec_wusel_placed(self, wusel_index: int, position: areas::Position) -> WorldModel {
        if self.width == 0 || self.depth == 0 {
            self
        } else {
            self.spec_wusel_moved(wusel_index, self.spec_nearest_inside(position))
        }
    }

    /// The world after moving the wusel at an index onto a position (given by its index):
    /// the grid is updated as well. An index beyond the wusels changes nothing.
    pub open spec fn spec_wusel_moved(self, wusel_index: int, position: areas::Position) -> WorldModel {
        if 0 <= wusel_index < self.wusels.len() {
            let new_position_index = self.spec_position_to_index(position);
            WorldModel {
                wusel_positions: self.wusel_positions.update(wusel_index, new_position_index as usize),
                positions: spec_moved_on_grid(
                    self.positions,
                    PlaceTakerModel::Wusel(self.wusel_ids[wusel_index]),
                    self.wusel_positions[wusel_index] as int,
                    new_position_index,
                ),
                ..self
            }
        } else {
            self
        }
    }
}


impl WorldModel {
    /// A wusel fits into the world at an index: identified by the index, well shaped,
    /// with its tasks acted by itself and not started in the future.
    pub open spec fn spec_wusel_fits(self, wusel_index: int, wusel: wusels::WuselModel) -> bool {
        &&& wusel.id == wusel_index
        &&& wusel.wf()
        &&& forall|j: int|
            0 <= j < wusel.tasklist.len() ==> {
                &&& (#[trigger] wusel.tasklist[j]).active_actor_id == wusel_index
                &&& wusel.tasklist[j].started ==> wusel.tasklist[j].start_time <= self.clock
            }
    }
}

/// Replacing a wusel by one that fits keeps the world well-formed.
proof fn lemma_wf_with_wusel(before: WorldModel, wusel_index: int, wusel: wusels::WuselModel)
    requires
        before.wf(),
        0 <= wusel_index < before.wusels.len(),
        before.spec_wusel_fits(wusel_index, wusel),
    ensures
        before.spec_with_wusel(wusel_index, wusel).wf(),
{
    let after = before.spec_with_wusel(wusel_index, wusel);
    assert forall|i: int, j: int|
        0 <= i < after.wusels.len() && 0 <= j < after.wusels[i].tasklist.len() implies {
            &&& (#[trigger] after.wusels[i].tasklist[j]).active_actor_id == i
            &&& after.wusels[i].tasklist[j].started ==> after.wusels[i].tasklist[j].start_time <= after.clock
        } by {
        if i != wusel_index {
            assert(after.wusels[i] == before.wusels[i]);
        }
    }
}

impl World {
    /// Check if the wusel of the world is alive.
    pub fn wusel_is_alive(&self, wusel_id: wusels::WuselId) -> (alive: Option<bool>)
        requires
            self@.wf(),
        ensures
            alive == (if wusel_id < self@.wusels.len() {
                Some(self@.wusels[wusel_id as int].spec_is_alive())
            } else {
                None
            }),
    {
        match self.get_wusels_index_by_id(wusel_id) {
            Some(index) => Some(self.wusels[index].is_alive()),
            None => None,
        }
    }

    /// Get the age of the wusel in days.
    pub fn wusel_get_lived_days(&self, wusel_id: wusels::WuselId) -> (days: Option<u32>)
        requires
            self@.wf(),
        ensures
            days == (if wusel_id < self@.wusels.len() {
                Some(self@.wusels[wusel_id as int].lived_days)
            } else {
                None
            }),
    {
        match self.get_wusels_index_by_id(wusel_id) {
            Some(index) => Some(self.wusels[index].get_lived_days()),
            None => None,
        }
    }

    /// Set the life state of the wusel.
    pub fn wusel_set_life_state(&mut self, wusel_id: wusels::WuselId, life_state: wusels::Life)
        requires
            old(self)@.wf(),
        ensures
            final(self)@.wf(),
            final(self)@ == (if wusel_id < old(self)@.wusels.len() {
                old(self)@.spec_with_wusel(
                    wusel_id as int,
                    wusels::WuselModel { life: life_state, ..old(self)@.wusels[wusel_id as int] },
                )
            } else {
                old(self)@
            }),
    {
        if let Some(index) = self.get_wusels_index_by_id(wusel_id) {
            self.wusels[index].set_life_state(life_state);
            proof {
                assert(self@.wusels =~= old(self)@.wusels.update(index as int, self.wusels@[index as int]@));
                lemma_wf_with_wusel(old(self)@, index as int, self.wusels@[index as int]@);
            }
        }
    }

    /// Get the name of the wusel.
    pub fn wusel_get_name(&self, wusel_id: wusels::WuselId) -> (name: Option<String>)
        requires
            self@.wf(),
        ensures
            match name {
                Some(n) => wusel_id < self@.wusels.len() && n@ == self@.wusels[wusel_id as int].name,
                None => wusel_id >= self@.wusels.len(),
            },
    {
        match self.get_wusels_index_by_id(wusel_id) {
            Some(index) => Some(self.wusels[index].get_name()),
            None => None,
        }
    }

    /// Set the name of a Wusel.
    pub fn wusel_set_name(&mut self, wusel_id: wusels::WuselId, new_name: String)
        requires
            old(self)@.wf(),
        ensures
            final(self)@.wf(),
            final(self)@ == (if wusel_id < old(self)@.wusels.len() {
                old(self)@.spec_with_wusel(
                    wusel_id as int,
                    wusels::WuselModel { name: new_name@, ..old(self)@.wusels[wusel_id as int] },
                )
            } else {
                old(self)@
            }),
    {
        if let Some(index) = self.get_wusels_index_by_id(wusel_id) {
            self.wusels[index].set_name(new_name);
            proof {
                assert(self@.wusels =~= old(self)@.wusels.update(index as int, self.wusels@[index as int]@));
                lemma_wf_with_wusel(old(self)@, index as int, self.wusels@[index as int]@);
            }
        }
    }

    /// Get the gender of the wusel.
    pub fn wusel_get_gender(&self, wusel_id: wusels::WuselId) -> (gender: Option<wusels::WuselGender>)
        requires
            self@.wf(),
        ensures
            gender == (if wusel_id < self@.wusels.len() {
                Some(self@.wusels[wusel_id as int].gender)
            } else {
                None
            }),
    {
        match self.get_wusels_index_by_id(wusel_id) {
            Some(index) => Some(self.wusels[index].get_gender()),
            None => None,
        }
    }

    /// Set the gender of a Wusel.
    pub fn wusel_set_gender(&mut self, wusel_id: wusels::WuselId, new_gender: wusels::WuselGender)
        requires
            old(self)@.wf(),
        ensures
            final(self)@.wf(),
            final(self)@ == (if wusel_id < old(self)@.wusels.len() {
                old(self)@.spec_with_wusel(
                    wusel_id as int,
                    wusels::WuselModel { gender: new_gender, ..old(self)@.wusels[wusel_id as int] },
                )
            } else {
                old(self)@
            }),
    {
        if let Some(index) = self.get_wusels_index_by_id(wusel_id) {
            self.wusels[index].set_gender(new_gender);
            proof {
                assert(self@.wusels =~= old(self)@.wusels.update(index as int, self.wusels@[index as int]@));
                lemma_wf_with_wusel(old(self)@, index as int, self.wusels@[index as int]@);
            }
        }
    }

    /// Get the requested need's level of the wusel (0 for an unknown wusel).
    pub fn wusel_get_need(&mut self, wusel_id: wusels::WuselId, need: wusels::needs::Need) -> (value: u32)
        requires
            old(self)@.wf(),
        ensures
            final(self)@ == old(self)@,
            value == (if wusel_id < old(self)@.wusels.len() {
                old(self)@.wusels[wusel_id as int].spec_need(need)
            } else {
                0
            }),
    {
        match self.get_wusels_index_by_id(wusel_id) {
            Some(index) => self.wusels[index].get_need(need),
            None => 0u32,
        }
    }

    /// Set the requesting need's level of the wusel.
    pub fn wusel_set_need(&mut self, wusel_id: wusels::WuselId, need: &wusels::needs::Need, new_value: u32)
        requires
            old(self)@.wf(),
        ensures
            final(self)@.wf(),
            final(self)@ == old(self)@.spec_need_set(wusel_id, *need, new_value),
    {
        if let Some(index) = self.get_wusels_index_by_id(wusel_id) {
            proof {
                self.lemma_wusel_view(index as int);
                assert(self@.wusels[index as int].wf());
            }
            self.wusels[index].set_need(*need, new_value);
            proof {
                assert(0 <= need.spec_index() < 7);
                assert(self@.wusels =~= old(self)@.wusels.update(index as int, self.wusels@[index as int]@));
                lemma_wf_with_wusel(old(self)@, index as int, self.wusels@[index as int]@);
            }
        }
    }

    /// Modify the requesting need's level of the wusel by a given value (not below 0).
    pub fn wusel_set_need_relative(&mut self, wusel_id: wusels::WuselId, need: &wusels::needs::Need, relative: i16)
        requires
            old(self)@.wf(),
        ensures
            final(self)@.wf(),
            final(self)@ == (if wusel_id < old(self)@.wusels.len() {
                let current = old(self)@.wusels[wusel_id as int].spec_need(*need);
                old(self)@.spec_with_wusel(
                    wusel_id as int,
                    wusels::WuselModel {
                        needs: old(self)@.wusels[wusel_id as int].needs.update(
                            need.spec_index(),
                            (if current + relative < 0 { 0 } else { current + relative }) as u32,
                        ),
                        ..old(self)@.wusels[wusel_id as int]
                    },
                )
            } else {
                old(self)@
            }),
    {
        if let Some(index) = self.get_wusels_index_by_id(wusel_id) {
            self.wusels[index].set_need_relative(*need, relative);
            proof {
                assert(self@.wusels =~= old(self)@.wusels.update(index as int, self.wusels@[index as int]@));
                lemma_wf_with_wusel(old(self)@, index as int, self.wusels@[index as int]@);
            }
        }
    }

    /// Get the requesting ability's value of the wusel.
    pub fn wusel_get_ability(&self, wusel_id: wusels::WuselId, ability: wusels::abilities::Ability) -> (value: Option<u32>)
        requires
            self@.wf(),
        ensures
            value == (if wusel_id < self@.wusels.len() {
                Some(self@.wusels[wusel_id as int].spec_ability(ability))
            } else {
                None
            }),
    {
        match self.get_wusels_index_by_id(wusel_id) {
            Some(index) => Some(self.wusels[index].get_ability(ability)),
            None => None,
        }
    }

    /// Set the requesting ability's value of the wusel.
    pub fn wusel_set_ability(&mut self, wusel_id: wusels::WuselId, ability: wusels::abilities::Ability, new_value: u32)
        requires
            old(self)@.wf(),
        ensures
            final(self)@.wf(),
            final(self)@ == (if wusel_id < old(self)@.wusels.len() {
                old(self)@.spec_with_wusel(
                    wusel_id as int,
                    wusels::WuselModel {
                        abilities: old(self)@.wusels[wusel_id as int].abilities.update(ability.spec_index(), new_value),
                        ..old(self)@.wusels[wusel_id as int]
                    },
                )
            } else {
                old(self)@
            }),
    {
        if let Some(index) = self.get_wusels_index_by_id(wusel_id) {
            self.wusels[index].set_ability(ability, new_value);
            proof {
                assert(self@.wusels =~= old(self)@.wusels.update(index as int, self.wusels@[index as int]@));
                lemma_wf_with_wusel(old(self)@, index as int, self.wusels@[index as int]@);
            }
        }
    }

    /// Increase the requesting ability's value of the wusel by one point.
    pub fn wusel_improve(&mut self, wusel_id: wusels::WuselId, ability: wusels::abilities::Ability)
        requires
            old(self)@.wf(),
        ensures
            final(self)@.wf(),
            final(self)@ == (if wusel_id < old(self)@.wusels.len() {
                let current = old(self)@.wusels[wusel_id as int].spec_ability(ability);
                old(self)@.spec_with_wusel(
                    wusel_id as int,
                    wusels::WuselModel {
                        abilities: old(self)@.wusels[wusel_id as int].abilities.update(
                            ability.spec_index(),
                            if current < u32::MAX { (current + 1) as u32 } else { u32::MAX },
                        ),
                        ..old(self)@.wusels[wusel_id as int]
                    },
                )
            } else {
                old(self)@
            }),
    {
        if let Some(index) = self.get_wusels_index_by_id(wusel_id) {
            self.wusels[index].improve(ability);
            proof {
                assert(self@.wusels =~= old(self)@.wusels.update(index as int, self.wusels@[index as int]@));
                lemma_wf_with_wusel(old(self)@, index as int, self.wusels@[index as int]@);
            }
        }
    }

    /// Check if the wusel's tasklist is empty.
    pub fn wusel_has_tasklist_empty(&self, wusel_id: wusels::WuselId) -> (empty: Option<bool>)
        requires
            self@.wf(),
        ensures
            empty == (if wusel_id < self@.wusels.len() {
                Some(self@.wusels[wusel_id as int].tasklist.len() == 0)
            } else {
                None
            }),
    {
        match self.get_wusels_index_by_id(wusel_id) {
            Some(index) => Some(self.wusels[index].has_tasklist_empty()),
            None => None,
        }
    }

    /// Get the count of the wusel's tasklist.
    pub fn wusel_get_tasklist_len(&self, wusel_id: wusels::WuselId) -> (length: Option<usize>)
        requires
            self@.wf(),
        ensures
            length == (if wusel_id < self@.wusels.len() {
                Some(self@.wusels[wusel_id as int].tasklist.len() as usize)
            } else {
                None
            }),
    {
        match self.get_wusels_index_by_id(wusel_id) {
            Some(index) => Some(self.wusels[index].get_tasklist_len()),
            None => None,
        }
    }

    /// Get the wusel's tasklist as name representation (empty for an unknown wusel).
    pub fn wusel_get_tasklist_names(&mut self, wusel_id: wusels::WuselId) -> (names: Vec<String>)
        requires
            old(self)@.wf(),
        ensures
            final(self)@ == old(self)@,
            wusel_id < old(self)@.wusels.len() ==> {
                &&& names@.len() == old(self)@.wusels[wusel_id as int].tasklist.len()
                &&& forall|i: int| 0 <= i < names@.len() ==> #[trigger] names@[i]@ == old(self)@.wusels[wusel_id as int].tasklist[i].name
            },
            wusel_id >= old(self)@.wusels.len() ==> names@.len() == 0,
    {
        if let Some(index) = self.get_wusels_index_by_id(wusel_id) {
            self.wusels[index].get_tasklist_names()
        } else {
            Vec::new()
        }
    }

    /// Give an available wusel (by index) a new task, assigned now.
    pub fn wusel_assign_to_task(&mut self, wusel_index: usize, taskb: tasks::TaskBuilder)
        requires
            old(self)@.wf(),
        ensures
            final(self)@.wf(),
            final(self)@ == old(self)@.spec_task_assigned(wusel_index as int, taskb@),
    {
        if wusel_index < self.wusels.len() {
            // Task apply wusel[index] as actor.
            let clock = self.clock;
            self.wusels[wusel_index].assign_to_task(clock, taskb);
            proof {
                assert(self@.wusels =~= old(self)@.wusels.update(wusel_index as int, self.wusels@[wusel_index as int]@));
                let w = self.wusels@[wusel_index as int]@;
                assert forall|j: int| 0 <= j < w.tasklist.len() implies {
                    &&& (#[trigger] w.tasklist[j]).active_actor_id == wusel_index
                    &&& w.tasklist[j].started ==> w.tasklist[j].start_time <= old(self)@.clock
                } by {
                    if j > 0 {
                        assert(w.tasklist[j] == old(self)@.wusels[wusel_index as int].tasklist[j - 1]);
                    }
                }
                lemma_wf_with_wusel(old(self)@, wusel_index as int, w);
            }
        }
    }

    /// Abort the wusel's task.
    pub fn wusel_abort_task(&mut self, wusel_id: wusels::WuselId, task_index: usize)
        requires
            old(self)@.wf(),
        ensures
            final(self)@.wf(),
            final(self)@ == (if wusel_id < old(self)@.wusels.len() && task_index < old(self)@.wusels[wusel_id as int].tasklist.len() {
                old(self)@.spec_with_wusel(
                    wusel_id as int,
                    wusels::WuselModel {
                        tasklist: old(self)@.wusels[wusel_id as int].tasklist.remove(task_index as int),
                        ..old(self)@.wusels[wusel_id as int]
                    },
                )
            } else {
                old(self)@
            }),
    {
        if let Some(index) = self.get_wusels_index_by_id(wusel_id) {
            self.wusels[index].abort_task(task_index);
            proof {
                assert(self@.wusels =~= old(self)@.wusels.update(index as int, self.wusels@[index as int]@));
                let w = self.wusels@[index as int]@;
                let tasks0 = old(self)@.wusels[index as int].tasklist;
                assert forall|j: int| 0 <= j < w.tasklist.len() implies {
                    &&& (#[trigger] w.tasklist[j]).active_actor_id == index
                    &&& w.tasklist[j].started ==> w.tasklist[j].start_time <= old(self)@.clock
                } by {
                    if task_index < tasks0.len() {
                        if j >= task_index {
                            assert(w.tasklist[j] == tasks0[j + 1]);
                        } else {
                            assert(w.tasklist[j] == tasks0[j]);
                        }
                    }
                }
                lemma_wf_with_wusel(old(self)@, index as int, w);
                if !(task_index < tasks0.len()) {
                    assert(self@.wusels =~= old(self)@.wusels);
                }
            }
        }
    }

    /// Get the task the wusel is currently doing.
    ///
    /// This can be none if the Wusel is doing nothing,
    /// or if that requesting wusel could not be found as well.
    pub fn wusel_peek_ongoing_task(&self, wusel_id: wusels::WuselId) -> (ongoing: Option<&tasks::Task>)
        requires
            self@.wf(),
        ensures
            match ongoing {
                Some(task) => wusel_id < self@.wusels.len() && self@.wusels[wusel_id as int].spec_ongoing() == Some(task@),
                None => wusel_id >= self@.wusels.len() || self@.wusels[wusel_id as int].spec_ongoing() is None,
            },
    {
        if let Some(index) = self.get_wusels_index_by_id(wusel_id) {
            self.wusels[index].peek_ongoing_task()
        } else {
            None
        }
    }

    /// Check if the wusel is pregnant.
    pub fn wusel_is_pregnant(&self, wusel_id: wusels::WuselId) -> (pregnant: Option<bool>)
        requires
            self@.wf(),
        ensures
            pregnant == (if wusel_id < self@.wusels.len() {
                Some(self@.wusels[wusel_id as int].pregnancy is Some)
            } else {
                None
            }),
    {
        match self.get_wusels_index_by_id(wusel_id) {
            Some(index) => Some(self.wusels[index].is_pregnant()),
            None => None,
        }
    }

    /// Set the wusel pregnant, with the optional other parent and optional remaining days.
    pub fn wusel_set_pregnancy(
        &mut self,
        wusel_id: wusels::WuselId,
        other_parent: Option<wusels::WuselId>,
        remaining_days: Option<u8>,
    )
        requires
            old(self)@.wf(),
        ensures
            final(self)@.wf(),
            final(self)@ == (if wusel_id < old(self)@.wusels.len() {
                old(self)@.spec_with_wusel(
                    wusel_id as int,
                    wusels::WuselModel {
                        pregnancy: match remaining_days {
                            Some(days) => Some((other_parent, days)),
                            None => None,
                        },
                        ..old(self)@.wusels[wusel_id as int]
                    },
                )
            } else {
                old(self)@
            }),
    {
        if let Some(index) = self.get_wusels_index_by_id(wusel_id) {
            self.wusels[index].set_pregnancy(other_parent, remaining_days);
            proof {
                assert(self@.wusels =~= old(self)@.wusels.update(index as int, self.wusels@[index as int]@));
                lemma_wf_with_wusel(old(self)@, index as int, self.wusels@[index as int]@);
            }
        }
    }

    /// Get the other parent of the wusel's unborn child.
    pub fn wusel_get_other_parent(&self, wusel_id: wusels::WuselId) -> (other_parent: Option<wusels::WuselId>)
        requires
            self@.wf(),
        ensures
            other_parent == (if wusel_id < self@.wusels.len() {
                match self@.wusels[wusel_id as int].pregnancy {
                    Some((other, _)) => other,
                    None => None,
                }
            } else {
                None
            }),
    {
        match self.get_wusels_index_by_id(wusel_id) {
            Some(index) => self.wusels[index].get_other_parent(),
            None => None,
        }
    }

    /// Get the remaining days of the wusel's pregnancy.
    pub fn wusel_get_remaining_pregnancy_days(&self, wusel_id: wusels::WuselId) -> (days: Option<u8>)
        requires
            self@.wf(),
        ensures
            days == (if wusel_id < self@.wusels.len() {
                match self@.wusels[wusel_id as int].pregnancy {
                    Some((_, days)) => Some(days),
                    None => None,
                }
            } else {
                None
            }),
    {
        match self.get_wusels_index_by_id(wusel_id) {
            Some(index) => self.wusels[index].get_remaining_pregnancy_days(),
            None => None,
        }
    }
}


/// A relation key: the smaller identifier first, the greater second.
pub open spec fn spec_relation_key(wusel0_id: wusels::WuselId, wusel1_id: wusels::WuselId) -> (
    wusels::WuselId,
    wusels::WuselId,
) {
    if wusel0_id <= wusel1_id {
        (wusel0_id, wusel1_id)
    } else {
        (wusel1_id, wusel0_id)
    }
}

/// The relation kept under a key, if any.
pub open spec fn spec_relation_in(
    relations: Map<(wusels::WuselId, wusels::WuselId), wusels::relations::RelationModel>,
    key: (wusels::WuselId, wusels::WuselId),
) -> Option<wusels::relations::RelationModel> {
    if relations.contains_key(key) {
        Some(relations[key])
    } else {
        None
    }
}

impl WorldModel {
    /// The relation of two wusels, in either order.
    pub open spec fn spec_relation(self, wusel0_id: wusels::WuselId, wusel1_id: wusels::WuselId) -> Option<
        wusels::relations::RelationModel,
    > {
        spec_relation_in(self.relations, spec_relation_key(wusel0_id, wusel1_id))
    }

    /// The relation of two wusels, or the one of strangers if they have none yet.
    pub open spec fn spec_relation_or_strangers(
        self,
        wusel0_id: wusels::WuselId,
        wusel1_id: wusels::WuselId,
    ) -> wusels::relations::RelationModel {
        match self.spec_relation(wusel0_id, wusel1_id) {
            Some(relation) => relation,
            None => wusels::relations::RelationModel::strangers(),
        }
    }
}

impl World {
    /// Update the relation of two wusels, given by their ID:
    /// a nice meeting adds one point of the kind, a mean one takes one.
    /// Two wusels without a relation meet as strangers first.
    pub fn wusel_update_relations(
        &mut self,
        wusel0_id: wusels::WuselId,
        wusel1_id: wusels::WuselId,
        nice: bool,
        relationtype: wusels::relations::RelationType,
    )
        requires
            old(self)@.wf(),
            old(self)@.spec_relation_or_strangers(wusel0_id, wusel1_id).can_update(
                relationtype,
                if nice { 1i32 } else { -1i32 },
            ),
        ensures
            final(self)@.wf(),
            final(self)@ == (WorldModel { relations: final(self)@.relations, ..old(self)@ }),
            final(self)@.spec_relation(wusel0_id, wusel1_id) == Some(
                old(self)@.spec_relation_or_strangers(wusel0_id, wusel1_id).spec_update(
                    relationtype,
                    if nice { 1i32 } else { -1i32 },
                ),
            ),
            forall|key: (wusels::WuselId, wusels::WuselId)|
                key != spec_relation_key(wusel0_id, wusel1_id) ==> spec_relation_in(
                    final(self)@.relations,
                    key,
                ) == spec_relation_in(old(self)@.relations, key),
    {
        // Decide for a relation key: (Smaller ID, Greater ID).
        let key = if wusel0_id <= wusel1_id {
            (wusel0_id, wusel1_id)
        } else {
            (wusel1_id, wusel0_id)
        };
        let change: i32 = if nice { 1 } else { -1 };

        // Get the relation if available, else the two meet as strangers.
        let mut relation = match self.relations.get(&key) {
            Some(relation) => relation.clone(),
            None => wusels::relations::Relation::new(),
        };
        relation.update(relationtype, change);
        self.relations.insert(key, relation);
        proof {
            assert(self@.relations =~= old(self)@.relations.insert(key, relation@));
        }
    }
}


/// The other wusel of a relation key, if the wusel is part of it.
pub open spec fn spec_relation_other(wusel_id: wusels::WuselId, key: (wusels::WuselId, wusels::WuselId)) -> Option<
    wusels::WuselId,
> {
    if wusel_id == key.0 {
        Some(key.1)
    } else if wusel_id == key.1 {
        Some(key.0)
    } else {
        None
    }
}

impl WorldModel {
    /// The entries list the relations, each under its key, in ascending order of the keys.
    pub open spec fn spec_relation_entries(
        self,
        entries: Seq<((wusels::WuselId, wusels::WuselId), wusels::relations::RelationModel)>,
    ) -> bool {
        &&& entries.len() == self.relations.dom().len()
        &&& forall|i: int|
            0 <= i < entries.len() ==> self.relations.contains_key(#[trigger] entries[i].0)
                && self.relations[entries[i].0] == entries[i].1
        &&& forall|key: (wusels::WuselId, wusels::WuselId)|
            #[trigger] self.relations.contains_key(key) ==> exists|i: int|
                0 <= i < entries.len() && entries[i].0 == key
        &&& vstd::std_specs::btree::increasing_seq(
            entries.map_values(
                |e: ((wusels::WuselId, wusels::WuselId), wusels::relations::RelationModel)| e.0,
            ),
        )
    }

    /// The first `k` entries that concern the wusel, each as `[name of the other: relation]`.
    pub open spec fn spec_relations_shown(
        self,
        entries: Seq<((wusels::WuselId, wusels::WuselId), wusels::relations::RelationModel)>,
        wusel_id: wusels::WuselId,
        k: nat,
    ) -> Seq<char>
        decreases k,
    {
        if k == 0 {
            Seq::empty()
        } else {
            let previous = self.spec_relations_shown(entries, wusel_id, (k - 1) as nat);
            match spec_relation_other(wusel_id, entries[k - 1].0) {
                Some(other_id) => previous + "["@ + text::spec_debug_str(self.wusels[other_id as int].name)
                    + ": "@ + entries[k - 1].1.spec_show() + "]"@,
                None => previous,
            }
        }
    }

    /// The wusel is part of a relation.
    pub open spec fn spec_has_relations(self, wusel_id: wusels::WuselId) -> bool {
        exists|key: (wusels::WuselId, wusels::WuselId)|
            #[trigger] self.relations.contains_key(key) && spec_relation_other(wusel_id, key) is Some
    }

    /// Every other wusel the wusel relates to is one of the world.
    pub open spec fn spec_relations_known(self, wusel_id: wusels::WuselId) -> bool {
        forall|key: (wusels::WuselId, wusels::WuselId)|
            #[trigger] self.relations.contains_key(key) ==> (spec_relation_other(wusel_id, key) matches Some(o)
                ==> o < self.wusels.len())
    }

    /// The line that shows all relations of the wusel at the index, in the order of the
    /// entries.
    pub open spec fn spec_relations_overview(
        self,
        wusel_index: int,
        entries: Seq<((wusels::WuselId, wusels::WuselId), wusels::relations::RelationModel)>,
    ) -> Seq<char> {
        if 0 <= wusel_index < self.wusels.len() {
            let wusel_id = self.wusels[wusel_index].id;
            "Relations with "@ + self.wusels[wusel_index].name + ": "@ + self.spec_relations_shown(
                entries,
                wusel_id,
                entries.len(),
            ) + if self.spec_has_relations(wusel_id) {
                Seq::empty()
            } else {
                "Has no relations."@
            }
        } else {
            "There is no wusel to show."@
        }
    }
}

/// One relation shown: `[other: relation]`, with the other wusel's name as given.
pub fn show_relation_entry(other_name: &str, relation: &wusels::relations::Relation) -> (entry: String)
    ensures
        entry@ == "["@ + other_name@ + ": "@ + relation@.spec_show() + "]"@,
{
    let mut entry = String::from_str("[");
    entry.append(other_name);
    entry.append(": ");
    entry.append(relation.show().as_str());
    entry.append("]");
    entry
}

impl World {
    /// Show all relations for the wusel, given by index: the line to print, the relations
    /// in the order of their keys.
    pub fn wusel_show_relations(&self, wusel_index: usize) -> (shown: String)
        requires
            self@.wf(),
            wusel_index < self@.wusels.len() ==> self@.spec_relations_known(wusel_index),
        ensures
            exists|entries: Seq<((wusels::WuselId, wusels::WuselId), wusels::relations::RelationModel)>|
                #[trigger] self@.spec_relation_entries(entries) && shown@ == self@.spec_relations_overview(
                    wusel_index as int,
                    entries,
                ),
    {
        let relations_iter = self.relations.iter();
        let ghost all = vstd::std_specs::btree::spec_btree_map_iter(&self.relations).remaining();
        let ghost entries = all.map_values(
            |kv: (&(wusels::WuselId, wusels::WuselId), &wusels::relations::Relation)| (*kv.0, kv.1@),
        );
        proof {
            let m = self.relations@;
            assert(self@.relations.dom() =~= m.dom());
            assert(all.len() == m.dom().len());
            assert forall|i: int| 0 <= i < entries.len() implies self@.relations.contains_key(
                #[trigger] entries[i].0,
            ) && self@.relations[entries[i].0] == entries[i].1 by {
                assert(m.contains_key(*all[i].0) && m[*all[i].0] == *all[i].1);
            }
            assert forall|key: (wusels::WuselId, wusels::WuselId)| #[trigger]
                self@.relations.contains_key(key) implies exists|i: int|
                0 <= i < entries.len() && entries[i].0 == key by {
                assert(m.contains_key(key));
                assert(all.contains((&key, &m[key])));
                let i = choose|i: int| 0 <= i < all.len() && all[i] == (&key, &m[key]);
                assert(entries[i].0 == key);
            }
            assert(entries.map_values(
                |e: ((wusels::WuselId, wusels::WuselId), wusels::relations::RelationModel)| e.0,
            ) =~= all.map_values(
                |kv: (&(wusels::WuselId, wusels::WuselId), &wusels::relations::Relation)| *kv.0,
            ));
            assert(self@.spec_relation_entries(entries));
        }
        if wusel_index >= self.wusels.len() {
            return String::from_str("There is no wusel to show.");
        }
        proof {
            self.lemma_wusel_view(wusel_index as int);
        }
        let wusel_id = self.wusels[wusel_index].get_id();
        let mut shown = String::from_str("Relations with ");
        shown.append(self.wusels[wusel_index].get_name().as_str());
        shown.append(": ");
        let ghost prefix = shown@;
        let mut has_relations: bool = false;
        for (who, relation) in it: relations_iter
            invariant
                self@.wf(),
                wusel_id == wusel_index,
                self@.spec_relations_known(wusel_id),
                self@.spec_relation_entries(entries),
                entries == all.map_values(
                    |kv: (&(wusels::WuselId, wusels::WuselId), &wusels::relations::Relation)| (*kv.0, kv.1@),
                ),
                it.seq() == all,
                shown@ == prefix + self@.spec_relations_shown(entries, wusel_id, it.index() as nat),
                has_relations == exists|j: int|
                    0 <= j < it.index() && spec_relation_other(wusel_id, #[trigger] entries[j].0) is Some,
        {
            let ghost i = it.index();
            proof {
                assert(entries[i] == (*who, relation@));
            }
            let other = if wusel_id == who.0 {
                Some(who.1)
            } else if wusel_id == who.1 {
                Some(who.0)
            } else {
                None
            };
            if let Some(other_id) = other {
                assert(other_id < self@.wusels.len()) by {
                    assert(self@.relations.contains_key(entries[i].0));
                    assert(spec_relation_other(wusel_id, entries[i].0) == Some(other_id));
                }
                proof {
                    self.lemma_wusel_view(other_id as int);
                }
                let other_name = self.wusels[other_id].get_name();
                let other_name_shown = text::format_debug_str(other_name.as_str());
                let entry = show_relation_entry(other_name_shown.as_str(), relation);
                shown.append(entry.as_str());
                has_relations = true;
            }
            proof {
                assert(shown@ =~= prefix + self@.spec_relations_shown(entries, wusel_id, (i + 1) as nat));
            }
        }
        let ghost i = entries.len() as int;
        if !has_relations {
            shown.append("Has no relations.");
        }
        proof {
            assert(has_relations == self@.spec_has_relations(wusel_id)) by {
                if has_relations {
                    let j = choose|j: int| 0 <= j < i && spec_relation_other(wusel_id, #[trigger] entries[j].0) is Some;
                    assert(self@.relations.contains_key(entries[j].0));
                }
                if self@.spec_has_relations(wusel_id) {
                    let key = choose|key: (wusels::WuselId, wusels::WuselId)|
                        #[trigger] self@.relations.contains_key(key) && spec_relation_other(wusel_id, key) is Some;
                    let j = choose|j: int| 0 <= j < entries.len() && entries[j].0 == key;
                    assert(spec_relation_other(wusel_id, entries[j].0) is Some);
                }
            }
            assert(shown@ =~= self@.spec_relations_overview(wusel_index as int, entries));
        }
        shown
    }
}


impl WorldModel {
    /// The world after the wusel at the index got a new task from the builder, assigned now.
    pub open spec fn spec_task_assigned(self, wusel_index: int, builder: tasks::TaskBuilderModel) -> WorldModel {
        if 0 <= wusel_index < self.wusels.len() {
            self.spec_with_wusel(wusel_index, self.wusels[wusel_index].spec_with_task(builder, self.clock))
        } else {
            self
        }
    }

    /// The world after the wusel at the index changed its ongoing task (started it,
    /// stepped it, dropped it) or moved one of its tasks to the end.
    pub open spec fn spec_wusel_started(self, wusel_index: int) -> WorldModel {
        self.spec_with_wusel(wusel_index, self.wusels[wusel_index].spec_started(self.clock))
    }

    pub open spec fn spec_wusel_stepped(self, wusel_index: int) -> WorldModel {
        self.spec_with_wusel(wusel_index, self.wusels[wusel_index].spec_stepped())
    }

    pub open spec fn spec_wusel_popped(self, wusel_index: int) -> WorldModel {
        self.spec_with_wusel(wusel_index, self.wusels[wusel_index].spec_popped())
    }

    pub open spec fn spec_wusel_prioritized(self, wusel_index: int, task_index: int) -> WorldModel {
        self.spec_with_wusel(wusel_index, self.wusels[wusel_index].spec_prioritized(task_index))
    }
}

impl World {
    /// The index of the position the wusel at the index stands on.
    fn wusel_position_index(&self, wusel_index: usize) -> (position_index: Option<usize>)
        requires
            self@.wf(),
        ensures
            position_index == (if wusel_index < self@.wusels.len() {
                Some(self@.wusel_positions[wusel_index as int])
            } else {
                None::<usize>
            }),
    {
        if wusel_index < self.wusels_index_on_position_index.len() {
            Some(self.wusels_index_on_position_index[wusel_index])
        } else {
            None
        }
    }

    /// Start the ongoing task of the wusel at the index, now.
    fn wusel_start_ongoing_task(&mut self, wusel_index: usize)
        requires
            old(self)@.wf(),
            wusel_index < old(self)@.wusels.len(),
        ensures
            final(self)@.wf(),
            final(self)@ == old(self)@.spec_wusel_started(wusel_index as int),
    {
        let clock = self.clock;
        self.wusels[wusel_index].start_ongoing_task(clock);
        proof {
            assert(self@.wusels =~= old(self)@.wusels.update(wusel_index as int, self.wusels@[wusel_index as int]@));
            let w = self.wusels@[wusel_index as int]@;
            let w0 = old(self)@.wusels[wusel_index as int];
            assert forall|j: int| 0 <= j < w.tasklist.len() implies {
                &&& (#[trigger] w.tasklist[j]).active_actor_id == wusel_index
                &&& w.tasklist[j].started ==> w.tasklist[j].start_time <= old(self)@.clock
            } by {
                if j < w0.tasklist.len() - 1 {
                    assert(w.tasklist[j] == w0.tasklist[j]);
                } else {
                    assert(w0.tasklist[j] == w0.tasklist.last());
                }
            }
            lemma_wf_with_wusel(old(self)@, wusel_index as int, w);
        }
    }

    /// Count one more step of the ongoing task of the wusel at the index.
    fn wusel_increase_ongoing_task_steps(&mut self, wusel_index: usize)
        requires
            old(self)@.wf(),
            wusel_index < old(self)@.wusels.len(),
            old(self)@.wusels[wusel_index as int].tasklist.len() > 0
                ==> old(self)@.wusels[wusel_index as int].tasklist.last().done_steps < usize::MAX,
        ensures
            final(self)@.wf(),
            final(self)@ == old(self)@.spec_wusel_stepped(wusel_index as int),
    {
        self.wusels[wusel_index].increase_ongoing_task_steps();
        proof {
            assert(self@.wusels =~= old(self)@.wusels.update(wusel_index as int, self.wusels@[wusel_index as int]@));
            let w = self.wusels@[wusel_index as int]@;
            let w0 = old(self)@.wusels[wusel_index as int];
            assert forall|j: int| 0 <= j < w.tasklist.len() implies {
                &&& (#[trigger] w.tasklist[j]).active_actor_id == wusel_index
                &&& w.tasklist[j].started ==> w.tasklist[j].start_time <= old(self)@.clock
            } by {
                if j < w0.tasklist.len() - 1 {
                    assert(w.tasklist[j] == w0.tasklist[j]);
                } else {
                    assert(w0.tasklist[j] == w0.tasklist.last());
                }
            }
            lemma_wf_with_wusel(old(self)@, wusel_index as int, w);
        }
    }

    /// Drop the ongoing task of the wusel at the index.
    fn wusel_pop_ongoing_task(&mut self, wusel_index: usize)
        requires
            old(self)@.wf(),
            wusel_index < old(self)@.wusels.len(),
        ensures
            final(self)@.wf(),
            final(self)@ == old(self)@.spec_wusel_popped(wusel_index as int),
    {
        self.wusels[wusel_index].pop_ongoing_task();
        proof {
            assert(self@.wusels =~= old(self)@.wusels.update(wusel_index as int, self.wusels@[wusel_index as int]@));
            let w = self.wusels@[wusel_index as int]@;
            let w0 = old(self)@.wusels[wusel_index as int];
            assert forall|j: int| 0 <= j < w.tasklist.len() implies {
                &&& (#[trigger] w.tasklist[j]).active_actor_id == wusel_index
                &&& w.tasklist[j].started ==> w.tasklist[j].start_time <= old(self)@.clock
            } by {
                assert(w.tasklist[j] == w0.tasklist[j]);
            }
            lemma_wf_with_wusel(old(self)@, wusel_index as int, w);
        }
    }

    /// Move the task at the index to the end of the list of the wusel at the index.
    fn wusel_prioritize_task(&mut self, wusel_index: usize, task_index: usize)
        requires
            old(self)@.wf(),
            wusel_index < old(self)@.wusels.len(),
        ensures
            final(self)@.wf(),
            final(self)@ == old(self)@.spec_wusel_prioritized(wusel_index as int, task_index as int),
    {
        self.wusels[wusel_index].prioritize_task(task_index);
        proof {
            assert(self@.wusels =~= old(self)@.wusels.update(wusel_index as int, self.wusels@[wusel_index as int]@));
            let w = self.wusels@[wusel_index as int]@;
            let w0 = old(self)@.wusels[wusel_index as int];
            assert forall|j: int| 0 <= j < w.tasklist.len() implies {
                &&& (#[trigger] w.tasklist[j]).active_actor_id == wusel_index
                &&& w.tasklist[j].started ==> w.tasklist[j].start_time <= old(self)@.clock
            } by {
                if task_index < w0.tasklist.len() {
                    if j == w.tasklist.len() - 1 {
                        assert(w.tasklist[j] == w0.tasklist[task_index as int]);
                    } else if j < task_index {
                        assert(w.tasklist[j] == w0.tasklist[j]);
                    } else {
                        assert(w.tasklist[j] == w0.tasklist[j + 1]);
                    }
                } else {
                    assert(w.tasklist[j] == w0.tasklist[j]);
                }
            }
            lemma_wf_with_wusel(old(self)@, wusel_index as int, w);
        }
    }

    /// The last index of a task with the given passive part of the wusel at the index.
    fn wusel_last_task_index_with(&self, wusel_index: usize, task_tag: &tasks::TaskTag) -> (index: Option<usize>)
        requires
            wusel_index < self@.wusels.len(),
        ensures
            match index {
                Some(i) => wusels::spec_last_task_index_with(self@.wusels[wusel_index as int].tasklist, *task_tag)
                    == Some(i as int),
                None => wusels::spec_last_task_index_with(self@.wusels[wusel_index as int].tasklist, *task_tag) is None,
            },
    {
        proof {
            self.lemma_wusel_view(wusel_index as int);
        }
        self.wusels[wusel_index].last_task_index_with(task_tag)
    }

    /// Check if the wusel at the index has a task with the given passive part.
    fn wusel_has_task_with(&self, wusel_index: usize, task_tag: &tasks::TaskTag) -> (found: bool)
        requires
            wusel_index < self@.wusels.len(),
        ensures
            found == wusels::spec_has_task_with(self@.wusels[wusel_index as int].tasklist, *task_tag),
    {
        proof {
            self.lemma_wusel_view(wusel_index as int);
        }
        self.wusels[wusel_index].has_task_with(task_tag)
    }

    /// The identifier of the wusel at the index.
    fn wusel_get_id(&self, wusel_index: usize) -> (wusel_id: wusels::WuselId)
        requires
            wusel_index < self@.wusels.len(),
        ensures
            wusel_id == self@.wusels[wusel_index as int].id,
    {
        proof {
            self.lemma_wusel_view(wusel_index as int);
        }
        self.wusels[wusel_index].get_id()
    }

    /// The number of objects in the world.
    fn object_count(&self) -> (count: usize)
        ensures
            count == self@.objects.len(),
    {
        self.objects.len()
    }

    /// The identifier the world gave an object (given by its index).
    fn object_index_get_id(&self, object_index: usize) -> (object_id: objects::ObjectId)
        requires
            self@.wf(),
            object_index < self@.objects.len(),
        ensures
            object_id == self@.object_ids[object_index as int],
    {
        self.objects_index_with_id[object_index]
    }

    /// Where an object (given by its index) is.
    fn object_index_get_whereabouts(&self, object_index: usize) -> (whereabouts: Option<InWorld>)
        ensures
            whereabouts == (if object_index < self@.object_whereabouts.len() {
                Some(self@.object_whereabouts[object_index as int])
            } else {
                None::<InWorld>
            }),
    {
        if object_index < self.objects_index_with_whereabouts.len() {
            Some(self.objects_index_with_whereabouts[object_index])
        } else {
            None
        }
    }

    /// The number of actions known to the world.
    fn action_count(&self) -> (count: usize)
        ensures
            count == self@.actions.len(),
    {
        self.actions.len()
    }

    /// The passive part of the ongoing task of the wusel at the index, if it has one.
    fn wusel_ongoing_task_tag(&self, wusel_index: usize) -> (tag: Option<tasks::TaskTag>)
        requires
            wusel_index < self@.wusels.len(),
        ensures
            tag == (match self@.wusels[wusel_index as int].spec_ongoing() {
                Some(t) => Some(t.passive_part),
                None => None,
            }),
    {
        proof {
            self.lemma_wusel_view(wusel_index as int);
        }
        match self.wusels[wusel_index].peek_ongoing_task() {
            Some(t) => Some(t.get_passive_part()),
            None => None,
        }
    }
}


/// The indices of the first `n` wusels that have tasks, ascending.
pub open spec fn spec_busy_upto(wusels: Seq<wusels::WuselModel>, n: nat) -> Seq<usize>
    decreases n,
{
    if n == 0 {
        Seq::empty()
    } else {
        let previous = spec_busy_upto(wusels, (n - 1) as nat);
        if wusels[n - 1].tasklist.len() > 0 {
            previous.push((n - 1) as usize)
        } else {
            previous
        }
    }
}

/// The busy wusels are listed in ascending order, each with tasks.
proof fn lemma_busy_upto(wusels: Seq<wusels::WuselModel>, n: nat)
    requires
        n <= wusels.len(),
        n <= usize::MAX,
    ensures
        spec_busy_upto(wusels, n).len() <= n,
        forall|k: int|
            0 <= k < spec_busy_upto(wusels, n).len() ==> #[trigger] spec_busy_upto(wusels, n)[k] < n
                && wusels[spec_busy_upto(wusels, n)[k] as int].tasklist.len() > 0,
        forall|k: int, l: int|
            0 <= k < l < spec_busy_upto(wusels, n).len() ==> #[trigger] spec_busy_upto(wusels, n)[k]
                < #[trigger] spec_busy_upto(wusels, n)[l],
    decreases n,
{
    if n > 0 {
        lemma_busy_upto(wusels, (n - 1) as nat);
        let previous = spec_busy_upto(wusels, (n - 1) as nat);
        let current = spec_busy_upto(wusels, n);
        if wusels[n - 1].tasklist.len() > 0 {
            assert(current == previous.push((n - 1) as usize));
            assert forall|k: int| 0 <= k < current.len() implies #[trigger] current[k] < n
                && wusels[current[k] as int].tasklist.len() > 0 by {
                if k < previous.len() {
                    assert(current[k] == previous[k]);
                }
            }
            assert forall|k: int, l: int| 0 <= k < l < current.len() implies #[trigger] current[k]
                < #[trigger] current[l] by {
                assert(current[k] == previous[k]);
                if l < previous.len() {
                    assert(current[l] == previous[l]);
                }
            }
        } else {
            assert(current == previous);
        }
    }
}

/// The busy wusels among the first `n` depend on the first `n` wusels' task lists only.
proof fn lemma_busy_upto_prefix(a: Seq<wusels::WuselModel>, b: Seq<wusels::WuselModel>, n: nat)
    requires
        n <= a.len(),
        n <= b.len(),
        forall|j: int| 0 <= j < n ==> #[trigger] a[j].tasklist.len() == b[j].tasklist.len(),
    ensures
        spec_busy_upto(a, n) == spec_busy_upto(b, n),
    decreases n,
{
    if n > 0 {
        lemma_busy_upto_prefix(a, b, (n - 1) as nat);
        assert(a[n - 1].tasklist.len() == b[n - 1].tasklist.len());
    }
}

/// A wusel after the first part of a tick: its finished tasks cleaned away, its pregnancy
/// over if it gave birth, its needs decayed and, on a new day, one day older.
pub open spec fn spec_wusel_aged(wusel: wusels::WuselModel, born: bool, new_day: bool) -> wusels::WuselModel {
    wusels::WuselModel {
        tasklist: wusels::spec_auto_cleaned(wusel.tasklist),
        pregnancy: if born {
            None
        } else {
            wusel.pregnancy
        },
        ..wusel
    }.spec_ticked(new_day)
}

/// The chance (in percent) that a pregnancy ends in a tick: the closer its end, the more
/// likely (90 % on its last day, 75 % the day before, else 10 %).
pub open spec fn spec_birth_chance(remaining_days: Option<u8>) -> u8 {
    match remaining_days {
        Some(0) => 90,
        Some(1) => 75,
        _ => 10,
    }
}

/// Whether the wusel gives birth with the number drawn for it: a pregnant wusel does when
/// the draw falls below the chance of a birth for its remaining days.
pub open spec fn spec_born(wusel: wusels::WuselModel, draw: Option<u8>) -> bool {
    match (wusel.pregnancy, draw) {
        (Some((_, days)), Some(d)) => d % 100 < spec_birth_chance(Some(days)),
        _ => false,
    }
}

/// Whether a pregnancy ends now, given a drawn number (taken in percent): it does when the
/// draw falls below the chance of a birth for the remaining days.
pub fn birth_now(draw: u8, remaining_days: Option<u8>) -> (born: bool)
    ensures
        born == (draw % 100 < spec_birth_chance(remaining_days)),
{
    let maybe_now: u8 = draw % 100;
    let possibility: u8 = match remaining_days {
        Some(0) => 90,
        Some(1) => 75,
        _ => 10,
    };
    maybe_now < possibility
}

impl WorldModel {
    /// The next tick starts a new day.
    pub open spec fn spec_next_is_new_day(self) -> bool {
        (self.clock + 1) % (World::TICKS_PER_DAY as int) == 0
    }

    /// The numbers a tick changes stay in their bounds, and every wusel with a task left
    /// that walks it stands on a position of the world.
    pub open spec fn spec_tick_safe(self) -> bool {
        &&& self.clock < usize::MAX
        &&& self.wusels.len() <= i32::MAX
        &&& task_manager::spec_relations_within(self.relations, self.wusels.len() as int)
        &&& forall|i: int|
            0 <= i < self.wusels.len() ==> {
                &&& wusels::spec_auto_clean_safe((#[trigger] self.wusels[i]).tasklist)
                &&& task_manager::spec_tasks_steppable(self.wusels[i])
                &&& (task_manager::spec_tasks_walk_free(wusels::spec_auto_cleaned(self.wusels[i].tasklist))
                    || self.spec_wusel_in_world(i))
                &&& (self.spec_next_is_new_day() && self.wusels[i].spec_ticked(false).spec_is_alive()
                    ==> self.wusels[i].lived_days < u32::MAX)
            }
    }

    /// The first part of a tick: the clock goes on, and each wusel cleans away its finished
    /// tasks, may give birth (if pregnant), and decays (on a new day, ages).
    pub open spec fn spec_tick_started(self, mid: WorldModel) -> bool {
        &&& mid == (WorldModel { clock: (self.clock + 1) as usize, wusels: mid.wusels, ..self })
        &&& mid.wusels.len() == self.wusels.len()
        &&& forall|i: int|
            0 <= i < self.wusels.len() ==> {
                ||| #[trigger] mid.wusels[i] == spec_wusel_aged(self.wusels[i], false, self.spec_next_is_new_day())
                ||| self.wusels[i].pregnancy is Some && mid.wusels[i] == spec_wusel_aged(
                    self.wusels[i],
                    true,
                    self.spec_next_is_new_day(),
                )
            }
    }

    /// The first part of a tick, with the numbers drawn for the pregnant wusels (one for each
    /// of them, none for the others): the clock goes on, and each wusel cleans away its
    /// finished tasks, gives birth when its draw says so, and decays (on a new day, ages).
    pub open spec fn spec_tick_started_by(self, mid: WorldModel, draws: Seq<Option<u8>>) -> bool {
        &&& mid == (WorldModel { clock: (self.clock + 1) as usize, wusels: mid.wusels, ..self })
        &&& mid.wusels.len() == self.wusels.len()
        &&& draws.len() == self.wusels.len()
        &&& forall|i: int|
            0 <= i < self.wusels.len() ==> {
                &&& (draws[i] is Some) == (self.wusels[i].pregnancy is Some)
                &&& #[trigger] mid.wusels[i] == spec_wusel_aged(
                    self.wusels[i],
                    spec_born(self.wusels[i], draws[i]),
                    self.spec_next_is_new_day(),
                )
            }
    }

    /// The second part of a tick: the ongoing task of each busy wusel proceeds, one wusel
    /// after the other, in the order of their indices.
    pub open spec fn spec_tasks_proceeded(self, after: WorldModel, states: Seq<WorldModel>) -> bool {
        let busy = spec_busy_upto(self.wusels, self.wusels.len());
        &&& states.len() == busy.len() + 1
        &&& states[0] == self
        &&& states.last() == after
        &&& forall|k: int|
            0 <= k < busy.len() ==> match states[k].wusels[#[trigger] busy[k] as int].spec_ongoing() {
                Some(task) => states[k].spec_proceeded(states[k + 1], task),
                None => states[k + 1] == states[k],
            }
    }
}

impl World {
    /// Increase clock and proceed decay of all things and relations.
    ///
    /// First every wusel cleans away its finished tasks, a pregnant wusel may give birth
    /// (by chance: the more likely the closer the end of the pregnancy), and its needs decay
    /// (on a new day it gets older). Then the ongoing task of each wusel that had tasks
    /// proceeds, in the order of the wusels. Which pregnancies end is left to chance: the
    /// numbers drawn for the pregnant wusels are returned (one per wusel, none for a wusel
    /// that is not pregnant).
    #[verifier::rlimit(40)]
    #[verifier::spinoff_prover]
    pub fn tick(&mut self) -> (draws: Vec<Option<u8>>)
        requires
            old(self)@.wf(),
            old(self)@.spec_tick_safe(),
        ensures
            final(self)@.wf(),
            final(self)@.clock == old(self)@.clock + 1,
            final(self)@.wusels.len() == old(self)@.wusels.len(),
            exists|mid: WorldModel, states: Seq<WorldModel>|
                #[trigger] old(self)@.spec_tick_started(mid) && #[trigger] mid.spec_tasks_proceeded(final(self)@, states),
            exists|mid: WorldModel, states: Seq<WorldModel>|
                #[trigger] old(self)@.spec_tick_started_by(mid, draws@) && #[trigger] mid.spec_tasks_proceeded(
                    final(self)@,
                    states,
                ),
    {
        let ghost start = old(self)@;
        self.clock += 1;

        // A new day is over: Forward the day structure to the world.
        let new_day: bool = self.clock % Self::TICKS_PER_DAY == 0;

        let mut some_busy_wusel: Vec<usize> = Vec::new();
        let mut draws: Vec<Option<u8>> = Vec::new();

        // Decay on every object and living.
        let mut i: usize = 0;
        while i < self.wusels.len()
            invariant
                start.wf(),
                start.spec_tick_safe(),
                new_day == start.spec_next_is_new_day(),
                i <= self@.wusels.len(),
                self@ == (WorldModel { clock: (start.clock + 1) as usize, wusels: self@.wusels, ..start }),
                self@.wusels.len() == start.wusels.len(),
                forall|j: int|
                    0 <= j < i ==> {
                        ||| #[trigger] self@.wusels[j] == spec_wusel_aged(start.wusels[j], false, new_day)
                        ||| start.wusels[j].pregnancy is Some && self@.wusels[j] == spec_wusel_aged(
                            start.wusels[j],
                            true,
                            new_day,
                        )
                    },
                forall|j: int| i <= j < self@.wusels.len() ==> #[trigger] self@.wusels[j] == start.wusels[j],
                some_busy_wusel@ == spec_busy_upto(self@.wusels, i as nat),
                draws@.len() == i,
                forall|j: int|
                    0 <= j < i ==> {
                        &&& (draws@[j] is Some) == (start.wusels[j].pregnancy is Some)
                        &&& #[trigger] self@.wusels[j] == spec_wusel_aged(
                            start.wusels[j],
                            spec_born(start.wusels[j], draws@[j]),
                            new_day,
                        )
                    },
            decreases start.wusels.len() - i,
        {
            let ghost before = self@;
            proof {
                self.lemma_wusel_view(i as int);
            }
            // Watch all tasks, remove tasks, which may be aborted or ran out.
            self.wusels[i].auto_clean_tasks();

            // Peek into the ongoing task, and maybe proceed them.
            if !self.wusels[i].has_tasklist_empty() {
                some_busy_wusel.push(i);
            }

            // If pregnant: Maybe push out the child => Failure, Early or too late.
            let ghost mut born: bool = false;
            let mut draw: Option<u8> = None;
            if self.wusels[i].is_pregnant() {
                let pregnancy_days: Option<u8> = self.wusels[i].get_remaining_pregnancy_days();
                let drawn: u8 = random::random_u8();
                draw = Some(drawn);
                if birth_now(drawn, pregnancy_days) {
                    // end pregnancy.
                    self.wusels[i].set_pregnancy(None, None);
                    proof {
                        born = true;
                    }
                }
            }
            draws.push(draw);

            self.wusels[i].wusel_tick(new_day);

            proof {
                assert(self@.wusels =~= before.wusels.update(i as int, self.wusels@[i as int]@));
                assert(self.wusels@[i as int]@ == spec_wusel_aged(start.wusels[i as int], born, new_day));
                assert(born == spec_born(start.wusels[i as int], draw));
                lemma_busy_upto_prefix(before.wusels, self@.wusels, i as nat);
            }
            i += 1;
        }

        // Execute ongoing tasks, one busy wusel after the other.
        let ghost mid = self@;
        let ghost n = mid.wusels.len();
        proof {
            assert(n == self.wusels@.len());
            lemma_busy_upto(mid.wusels, n);
            assert(start.spec_tick_started(mid));
            assert(start.spec_tick_started_by(mid, draws@));
            assert forall|j: int| 0 <= j < n implies (#[trigger] mid.wusels[j]).id == j && mid.wusels[j].wf()
                && task_manager::spec_tasks_steppable(mid.wusels[j]) && (task_manager::spec_tasks_walk_free(
                mid.wusels[j].tasklist) || mid.spec_wusel_in_world(j)) by {
                wusels::lemma_auto_cleaned_prefix(start.wusels[j].tasklist);
                assert forall|t: int| 0 <= t < mid.wusels[j].tasklist.len() implies (
                #[trigger] mid.wusels[j].tasklist[t]).done_steps < usize::MAX by {
                    assert(mid.wusels[j].tasklist[t] == start.wusels[j].tasklist[t]);
                }
            }
            assert forall|j: int, t: int| 0 <= j < n && 0 <= t < mid.wusels[j].tasklist.len() implies {
                &&& (#[trigger] mid.wusels[j].tasklist[t]).active_actor_id == j
                &&& mid.wusels[j].tasklist[t].started ==> mid.wusels[j].tasklist[t].start_time <= mid.clock
            } by {
                wusels::lemma_auto_cleaned_prefix(start.wusels[j].tasklist);
                assert(mid.wusels[j].tasklist[t] == start.wusels[j].tasklist[t]);
            }
            assert(mid.wf());
        }
        let ghost busy = some_busy_wusel@;
        let ghost mut states: Seq<WorldModel> = seq![mid];
        let mut k: usize = 0;
        while k < some_busy_wusel.len()
            invariant
                start.wf(),
                start.spec_tick_safe(),
                start.spec_tick_started(mid),
                n == mid.wusels.len(),
                n == start.wusels.len(),
                busy == some_busy_wusel@,
                busy == spec_busy_upto(mid.wusels, n),
                busy.len() <= n,
                forall|l: int| 0 <= l < busy.len() ==> #[trigger] busy[l] < n,
                forall|l: int, m: int| 0 <= l < m < busy.len() ==> #[trigger] busy[l] < #[trigger] busy[m],
                self@.wf(),
                k <= busy.len(),
                states.len() == k + 1,
                states[0] == mid,
                states[k as int] == self@,
                forall|l: int|
                    0 <= l < k ==> match states[l].wusels[#[trigger] busy[l] as int].spec_ongoing() {
                        Some(task) => states[l].spec_proceeded(states[l + 1], task),
                        None => states[l + 1] == states[l],
                    },
                self@.clock == mid.clock,
                self@.width == mid.width,
                self@.depth == mid.depth,
                self@.wusels.len() == n,
                forall|l: int|
                    k <= l < busy.len() ==> {
                        &&& self@.wusel_positions[#[trigger] busy[l] as int] == mid.wusel_positions[busy[l] as int]
                        &&& task_manager::spec_tasks_steppable(self@.wusels[busy[l] as int])
                        &&& (task_manager::spec_tasks_walk_free(self@.wusels[busy[l] as int].tasklist)
                            || mid.spec_wusel_in_world(busy[l] as int))
                    },
                self@.position_upper_bound == mid.position_upper_bound,
                task_manager::spec_relations_within(self@.relations, n - k),
            decreases busy.len() - k,
        {
            let w = some_busy_wusel[k];
            let ghost before = self@;
            proof {
                self.lemma_wusel_view(w as int);
                assert(self@.wusel_positions[busy[k as int] as int] == mid.wusel_positions[w as int]);
            }
            if let Some(t) = self.wusels[w].peek_ongoing_task() {
                // Decide how to progress the command.
                let u = t.clone();
                proof {
                    let last = before.wusels[w as int].tasklist.len() - 1;
                    assert(u@ == before.wusels[w as int].tasklist[last]);
                    if WorldModel::spec_task_walks(u@) {
                        assert(!task_manager::spec_tasks_walk_free(before.wusels[w as int].tasklist));
                    }
                    if let tasks::TaskTag::MeetWith(other, nice, romantically) = u@.passive_part {
                        task_manager::lemma_within_can_update(before, w as int, other as int, nice, romantically, n - k);
                    }
                }
                task_manager::proceed(self, u);
                proof {
                    task_manager::lemma_proceeded_keeps(before, self@, u@);
                    assert forall|l: int| k + 1 <= l < busy.len() implies {
                        &&& self@.wusel_positions[#[trigger] busy[l] as int] == mid.wusel_positions[busy[l] as int]
                        &&& task_manager::spec_tasks_steppable(self@.wusels[busy[l] as int])
                        &&& (task_manager::spec_tasks_walk_free(self@.wusels[busy[l] as int].tasklist)
                            || mid.spec_wusel_in_world(busy[l] as int))
                    } by {
                        assert(busy[k as int] < busy[l]);
                    }
                }
            } else {
                proof {
                    assert(task_manager::spec_relations_within(self@.relations, n - k - 1)) by {
                        assert forall|r: (wusels::WuselId, wusels::WuselId)| #[trigger] self@.relations.contains_key(
                            r,
                        ) implies {
                            &&& i32::MIN + (n - k - 1) <= self@.relations[r].friendship <= i32::MAX - (n - k - 1)
                            &&& i32::MIN + (n - k - 1) <= self@.relations[r].romance <= i32::MAX - (n - k - 1)
                        } by {}
                    }
                }
            }
            proof {
                states = states.push(self@);
            }
            k += 1;
        }
        proof {
            assert(mid.spec_tasks_proceeded(self@, states));
            assert(start.spec_tick_started_by(mid, draws@));
        }
        draws
    }
}


impl WorldModel {
    /// The world after placing the object with the identifier on the position: it lies on
    /// the position's index, and the grid knows it moved. An unknown object changes nothing.
    pub open spec fn spec_object_placed(self, object_id: objects::ObjectId, position: areas::Position) -> WorldModel {
        match self.spec_object_id_to_index(object_id) {
            Some(i) => {
                let new_position_index = self.spec_position_to_index(position);
                let old_position_index = match self.object_whereabouts[i] {
                    InWorld::OnPositionIndex(p) => p as int,
                    _ => self.position_upper_bound as int,
                };
                WorldModel {
                    object_whereabouts: self.object_whereabouts.update(
                        i,
                        InWorld::OnPositionIndex(new_position_index as usize),
                    ),
                    positions: spec_moved_on_grid(
                        self.positions,
                        PlaceTakerModel::Object(object_id, self.object_types[i]@),
                        old_position_index,
                        new_position_index,
                    ),
                    ..self
                }
            },
            None => self,
        }
    }

    /// The world after the level of a need of the wusel was set. An unknown wusel changes nothing.
    pub open spec fn spec_need_set(self, wusel_id: wusels::WuselId, need: wusels::Need, value: u32) -> WorldModel {
        if wusel_id < self.wusels.len() {
            self.spec_with_wusel(
                wusel_id as int,
                wusels::WuselModel {
                    needs: self.wusels[wusel_id as int].needs.update(need.spec_index(), value),
                    ..self.wusels[wusel_id as int]
                },
            )
        } else {
            self
        }
    }
}

/// A position of the world and its index lead to each other: the index of a position of the
/// world is below the number of positions, and the position at that index is the position.
pub proof fn lemma_position_index_round_trip(world: WorldModel, position: areas::Position)
    requires
        world.wf(),
        position.x < world.width,
        position.y < world.depth,
        position.z == 0,
    ensures
        0 <= world.spec_position_to_index(position) < world.position_upper_bound,
        world.spec_position_from_index(world.spec_position_to_index(position)) == Some(position),
{
    let w = world.width as int;
    let index = world.spec_position_to_index(position);
    lemma_position_index_bound(position.x, position.y, world.width, world.depth);
    assert(index % w == position.x && index / w == position.y) by (nonlinear_arith)
        requires
            index == position.x + w * position.y,
            0 <= position.x < w,
            0 <= position.y,
    ;
}

/// Every index of the world leads to a position of the world, whose index it is.
pub proof fn lemma_index_position_round_trip(world: WorldModel, position_index: int)
    requires
        world.wf(),
        0 <= position_index < world.position_upper_bound,
    ensures
        world.spec_position_from_index(position_index) matches Some(position) && position.x < world.width
            && position.y < world.depth && position.z == 0 && world.spec_position_to_index(position)
            == position_index,
{
    let w = world.width as int;
    assert(0 <= position_index % w < w && 0 <= position_index / w < world.depth && position_index % w + w * (
    position_index / w) == position_index) by (nonlinear_arith)
        requires
            0 <= position_index < w * world.depth,
    ;
}

/// An object that stands on the grid exactly where it lies (once on that cell, on no
/// other) still does so after it is placed on a position of the world: once on the cell of
/// that position, on no other.
pub proof fn lemma_object_placed_once(world: WorldModel, object_id: objects::ObjectId, position: areas::Position)
    requires
        world.wf(),
        world.spec_object_id_to_index(object_id) is Some,
        position.x < world.width,
        position.y < world.depth,
        position.z == 0,
        ({
            let i = world.spec_object_id_to_index(object_id).unwrap();
            let placetaker = PlaceTakerModel::Object(object_id, world.object_types[i]@);
            forall|c: int|
                0 <= c < world.positions.len() ==> spec_count(#[trigger] world.positions[c], placetaker) == if world.object_whereabouts[i]
                    == InWorld::OnPositionIndex(c as usize) {
                    1nat
                } else {
                    0nat
                }
        }),
    ensures
        ({
            let i = world.spec_object_id_to_index(object_id).unwrap();
            let placetaker = PlaceTakerModel::Object(object_id, world.object_types[i]@);
            let after = world.spec_object_placed(object_id, position);
            &&& after.positions.len() == world.positions.len()
            &&& after.spec_object_position(object_id) == Some(position)
            &&& forall|c: int|
                0 <= c < after.positions.len() ==> spec_count(#[trigger] after.positions[c], placetaker) == if c
                    == world.spec_position_to_index(position) {
                    1nat
                } else {
                    0nat
                }
        }),
{
    let i = world.spec_object_id_to_index(object_id).unwrap();
    lemma_first_index_found(world.object_ids, object_id);
    let placetaker = PlaceTakerModel::Object(object_id, world.object_types[i]@);
    let after = world.spec_object_placed(object_id, position);
    let grid = world.positions;
    lemma_position_index_round_trip(world, position);
    lemma_object_position_read_back(world, object_id, position);
    let new_index = world.spec_position_to_index(position);
    let old_index = match world.object_whereabouts[i] {
        InWorld::OnPositionIndex(p) => p as int,
        _ => world.position_upper_bound as int,
    };
    let removed = if 0 <= old_index < grid.len() {
        grid.update(old_index, spec_remove_first(grid[old_index], placetaker))
    } else {
        grid
    };
    assert(after.positions == removed.update(new_index, removed[new_index].push(placetaker)));
    assert forall|c: int| 0 <= c < after.positions.len() implies spec_count(
        #[trigger] after.positions[c],
        placetaker,
    ) == if c == new_index {
        1nat
    } else {
        0nat
    } by {
        lemma_count_remove_first(grid[c], placetaker);
        lemma_count_push(removed[c], placetaker, placetaker);
        assert(spec_count(grid[c], placetaker) == if world.object_whereabouts[i] == InWorld::OnPositionIndex(
            c as usize,
        ) {
            1nat
        } else {
            0nat
        });
        if c == old_index {
            assert(world.object_whereabouts[i] == InWorld::OnPositionIndex(c as usize));
        } else {
            assert(world.object_whereabouts[i] != InWorld::OnPositionIndex(c as usize));
        }
    }
}

/// An object placed on a position of the world is found there.
pub proof fn lemma_object_position_read_back(world: WorldModel, object_id: objects::ObjectId, position: areas::Position)
    requires
        world.wf(),
        world.spec_object_id_to_index(object_id) is Some,
        position.x < world.width,
        position.y < world.depth,
        position.z == 0,
    ensures
        world.spec_object_placed(object_id, position).spec_object_position(object_id) == Some(position),
{
    lemma_position_index_round_trip(world, position);
    let placed = world.spec_object_placed(object_id, position);
    let i = world.spec_object_id_to_index(object_id).unwrap();
    let index = world.spec_position_to_index(position);
    assert(placed.objects == world.objects);
    assert(placed.spec_object_id_to_index(object_id) == Some(i));
    assert(0 <= i < world.objects.len()) by {
        lemma_first_index_found(world.object_ids, object_id);
    }
    assert(placed.object_whereabouts[i] == InWorld::OnPositionIndex(index as usize));
    assert(index as usize as int == index);
}

/// The level of a need read back after setting it is the level set; the other needs and
/// wusels stay as they were.
pub proof fn lemma_need_read_back(world: WorldModel, wusel_id: wusels::WuselId, need: wusels::Need, value: u32)
    requires
        world.wf(),
        wusel_id < world.wusels.len(),
    ensures
        world.spec_need_set(wusel_id, need, value).wusels[wusel_id as int].spec_need(need) == value,
        forall|other: wusels::Need|
            other != need ==> world.spec_need_set(wusel_id, need, value).wusels[wusel_id as int].spec_need(other)
                == world.wusels[wusel_id as int].spec_need(other),
        forall|j: int|
            0 <= j < world.wusels.len() && j != wusel_id ==> world.spec_need_set(wusel_id, need, value).wusels[j]
                == world.wusels[j],
{
    assert forall|other: wusels::Need| other != need implies other.spec_index() != need.spec_index() by {}
}

/// The relation of two wusels does not depend on the order they are named in.
pub proof fn lemma_relation_symmetric(world: WorldModel, wusel0_id: wusels::WuselId, wusel1_id: wusels::WuselId)
    ensures
        world.spec_relation(wusel0_id, wusel1_id) == world.spec_relation(wusel1_id, wusel0_id),
        spec_relation_key(wusel0_id, wusel1_id) == spec_relation_key(wusel1_id, wusel0_id),
{
}

/// A wusel set onto a position stands on the position of the world nearest to it, which
/// is the position itself when it lies in the world; the other wusels stay where they were.
pub proof fn lemma_wusel_placed_read_back(world: WorldModel, wusel_index: int, position: areas::Position)
    requires
        world.wf(),
        0 <= wusel_index < world.wusels.len(),
        world.width > 0,
        world.depth > 0,
    ensures
        world.spec_position_from_index(
            world.spec_wusel_placed(wusel_index, position).wusel_positions[wusel_index] as int,
        ) == Some(world.spec_nearest_inside(position)),
        world.area.spec_contains(position) ==> world.spec_nearest_inside(position) == position,
        forall|j: int|
            0 <= j < world.wusels.len() && j != wusel_index ==> world.spec_wusel_placed(
                wusel_index,
                position,
            ).wusel_positions[j] == world.wusel_positions[j],
{
    lemma_position_index_round_trip(world, world.spec_nearest_inside(position));
}

/// In a tick, every wusel loses one point of water, food, sleep, love and fun (none below
/// zero) and keeps its warmth and health.
pub proof fn lemma_tick_decays_needs(start: WorldModel, mid: WorldModel, i: int, need: wusels::Need)
    requires
        start.wf(),
        start.spec_tick_started(mid),
        0 <= i < start.wusels.len(),
    ensures
        mid.wusels[i].spec_need(need) == if need == wusels::Need::WARMTH || need == wusels::Need::HEALTH {
            start.wusels[i].spec_need(need)
        } else if start.wusels[i].spec_need(need) >= 1 {
            (start.wusels[i].spec_need(need) - 1) as u32
        } else {
            0u32
        },
{
    let w = start.wusels[i];
    let new_day = start.spec_next_is_new_day();
    let cleaned = wusels::WuselModel { tasklist: wusels::spec_auto_cleaned(w.tasklist), ..w };
    let cleaned_born = wusels::WuselModel { tasklist: wusels::spec_auto_cleaned(w.tasklist), pregnancy: None, ..w };
    assert(spec_wusel_aged(w, false, new_day) == cleaned.spec_ticked(new_day));
    assert(spec_wusel_aged(w, true, new_day) == cleaned_born.spec_ticked(new_day));
    wusels::lemma_tick_takes_one_point(cleaned, new_day, need);
    wusels::lemma_tick_takes_one_point(cleaned_born, new_day, need);
}

/// In a tick, a pregnant wusel gives birth exactly when the number drawn for it falls below
/// the chance of its remaining days: 90 in 100 on its last day, 75 the day before, 10
/// earlier; a wusel that is not pregnant does not become so.
pub proof fn lemma_tick_births(start: WorldModel, mid: WorldModel, draws: Seq<Option<u8>>, i: int)
    requires
        start.spec_tick_started_by(mid, draws),
        0 <= i < start.wusels.len(),
    ensures
        start.wusels[i].pregnancy is None ==> mid.wusels[i].pregnancy is None,
        start.wusels[i].pregnancy matches Some((_, days)) ==> (draws[i] matches Some(d) && (
        mid.wusels[i].pregnancy is None <==> d % 100 < if days == 0 {
            90u8
        } else if days == 1 {
            75u8
        } else {
            10u8
        })),
{
    let w = start.wusels[i];
    let new_day = start.spec_next_is_new_day();
    let born = spec_born(w, draws[i]);
    let base = wusels::WuselModel {
        tasklist: wusels::spec_auto_cleaned(w.tasklist),
        pregnancy: if born {
            None
        } else {
            w.pregnancy
        },
        ..w
    };
    assert(mid.wusels[i] == base.spec_ticked(new_day));
    assert(base.spec_ticked(false).pregnancy == base.pregnancy);
    assert(base.spec_ticked(new_day).pregnancy is None <==> base.pregnancy is None);
}

} // verus!
