//! # Task Manager
//!
//! Let tasks progress and check their preconditions and their after-effects.

use vstd::prelude::*;

use crate::life::areas;
use crate::life::world::{spec_relation_in, spec_relation_key, InWorld, World, WorldModel};
use crate::life::wusels;
use crate::life::wusels::tasks;
use crate::text;

verus! {

/// The index of the first of the first `k` positions that is closest to the goal.
pub open spec fn spec_closest_upto(positions: Seq<areas::Position>, goal: areas::Position, k: nat) -> int
    decreases k,
{
    if k <= 1 {
        0
    } else {
        let closest = spec_closest_upto(positions, goal, (k - 1) as nat);
        if goal.spec_distance_squared(positions[k - 1]) < goal.spec_distance_squared(positions[closest]) {
            k - 1
        } else {
            closest
        }
    }
}

/// The closest position is one of them, and no other is closer; the first one wins a tie.
pub proof fn lemma_closest_upto(positions: Seq<areas::Position>, goal: areas::Position, k: nat)
    requires
        1 <= k <= positions.len(),
    ensures
        0 <= spec_closest_upto(positions, goal, k) < k,
        forall|j: int|
            0 <= j < k ==> goal.spec_distance_squared(positions[spec_closest_upto(positions, goal, k)])
                <= goal.spec_distance_squared(#[trigger] positions[j]),
        forall|j: int|
            0 <= j < spec_closest_upto(positions, goal, k) ==> goal.spec_distance_squared(
                positions[spec_closest_upto(positions, goal, k)],
            ) < goal.spec_distance_squared(#[trigger] positions[j]),
    decreases k,
{
    if k > 1 {
        lemma_closest_upto(positions, goal, (k - 1) as nat);
    }
}

impl WorldModel {
    /// The wusel at the index stands on a position of the world.
    pub open spec fn spec_wusel_in_world(self, wusel_index: int) -> bool {
        0 <= wusel_index < self.wusels.len() ==> self.wusel_positions[wusel_index] < self.position_upper_bound
    }

    /// One step of the wusel at the index towards the goal, and whether it stopped:
    /// a wusel on the goal (or without neighbours) stops, else it steps onto the
    /// neighbour closest to the goal.
    pub open spec fn spec_walked(self, wusel_index: int, goal: areas::Position) -> (WorldModel, bool) {
        if 0 <= wusel_index < self.wusels.len() {
            match self.spec_position_from_index(self.wusel_positions[wusel_index] as int) {
                Some(position) => if position.x == goal.x && position.y == goal.y {
                    (self, true)
                } else {
                    let neighbours = self.area.spec_neighbours_xy(position);
                    if neighbours.len() == 0 {
                        (self, true)
                    } else {
                        (
                            self.spec_wusel_moved(
                                wusel_index,
                                neighbours[spec_closest_upto(neighbours, goal, neighbours.len())],
                            ),
                            false,
                        )
                    }
                },
                None => (self, true),
            }
        } else {
            (self, true)
        }
    }

    /// One step of the wusel at the index towards the goal, if it is farther away than the
    /// (squared) distance allows; and whether it is close enough.
    pub open spec fn spec_walked_if_far(self, wusel_index: int, goal: areas::Position, max_distance_squared: int) -> (
        WorldModel,
        bool,
    ) {
        if 0 <= wusel_index < self.wusels.len() {
            match self.spec_position_from_index(self.wusel_positions[wusel_index] as int) {
                Some(position) => if position.spec_distance_squared(goal) > max_distance_squared {
                    (self.spec_walked(wusel_index, goal).0, false)
                } else {
                    (self, true)
                },
                None => (self, false),
            }
        } else {
            (self, false)
        }
    }
}

/// Let the wusel walk to a position, if they are not close.
/// Return true, if they are close enough.
fn let_wusel_walk_to_position_if_not_close(
    world: &mut World,
    wusel_index: usize,
    goal: areas::Position,
    max_distance_squared: u128,
) -> (close: bool)
    requires
        old(world)@.wf(),
        old(world)@.spec_wusel_in_world(wusel_index as int),
    ensures
        final(world)@.wf(),
        (final(world)@, close) == old(world)@.spec_walked_if_far(
            wusel_index as int,
            goal,
            max_distance_squared as int,
        ),
{
    let wusel_position = match world.wusel_position_index(wusel_index) {
        Some(position_index) => world.position_from_index(position_index),
        None => {
            return false;  // wusel itself has no position.
        },
    };
    let wusel_position = wusel_position.unwrap();

    if wusel_position.distance_squared_to(&goal) > max_distance_squared {
        let_wusel_walk_to_position(world, wusel_index, goal);
        false  // just walked
    } else {
        true  // reached goal.
    }
}

/// Let the wusel walk to a position.
/// (An easy way of walking: step onto the neighbour closest to the goal.)
///
/// #Return, if wusel has stopped walking / is on goal (true), otherwise false, if they are still walking.
fn let_wusel_walk_to_position(world: &mut World, wusel_index: usize, goal: areas::Position) -> (stopped:
    bool)
    requires
        old(world)@.wf(),
        old(world)@.spec_wusel_in_world(wusel_index as int),
    ensures
        final(world)@.wf(),
        (final(world)@, stopped) == old(world)@.spec_walked(wusel_index as int, goal),
{
    let position = match world.wusel_position_index(wusel_index) {
        Some(position_index) => world.position_from_index(position_index),
        None => {
            return true;  // couldn't move => stopped walking.
        },
    };
    let position = position.unwrap();

    // Check if the goal is already reached.
    if position.x == goal.x && position.y == goal.y {
        return true;  // stopped walking.
    }

    // Get the current positions neighbours.
    let neighbours = world.position_get_all_neighbours(position);

    if neighbours.len() == 0 {
        return true;  // enclosed, wait forever.
    }

    let mut closest: areas::Position = neighbours[0];
    let mut closest_index: usize = 0;
    let mut closest_distance: u128 = u128::MAX;

    // Find closest neighbour to goal.
    let mut i: usize = 0;
    while i < neighbours.len()
        invariant
            0 < neighbours@.len(),
            i <= neighbours@.len(),
            i == 0 ==> closest_distance == u128::MAX,
            i > 0 ==> closest_index == spec_closest_upto(neighbours@, goal, i as nat),
            i > 0 ==> closest_distance == goal.spec_distance_squared(neighbours@[closest_index as int]),
            closest_index < neighbours@.len(),
            closest == neighbours@[closest_index as int],
        decreases neighbours@.len() - i,
    {
        let distance = goal.distance_squared_to(&neighbours[i]);
        proof {
            if i > 0 {
                lemma_closest_upto(neighbours@, goal, i as nat);
            }
            assert(distance <= 2 * 0xffff_ffffu128 * 0xffff_ffffu128) by (nonlinear_arith)
                requires
                    distance == goal.spec_distance_squared(neighbours@[i as int]),
            ;
        }
        if distance < closest_distance {
            closest = neighbours[i];
            closest_index = i;
            closest_distance = distance;
        }
        i += 1;
    }

    proof {
        let w = old(world)@;
        areas::lemma_neighbours_adjacent(w.area, position, 8);
        assert(neighbours@[closest_index as int] == closest);
        assert(position.x < w.width && position.y < w.depth) by (nonlinear_arith)
            requires
                position.x == (w.wusel_positions[wusel_index as int] as int) % (w.width as int),
                position.y == (w.wusel_positions[wusel_index as int] as int) / (w.width as int),
                w.wusel_positions[wusel_index as int] < w.width * w.depth,
        ;
        assert(w.area.spec_contains(closest));
        assert(w.spec_nearest_inside(closest) == closest);
    }

    // move to closest position.
    world.wusel_set_position_by_index(wusel_index, closest);
    false  // still walking.
}


/// Walking towards a goal of the world takes a wusel of the world that is not on the goal
/// one step onto a neighbouring position of the world that is strictly closer to the goal.
pub proof fn lemma_walking_gets_closer(world: WorldModel, wusel_index: int, goal: areas::Position)
    requires
        world.wf(),
        0 <= wusel_index < world.wusels.len(),
        world.spec_wusel_in_world(wusel_index),
        world.area.spec_contains(goal),
        ({
            let p = world.spec_position_from_index(world.wusel_positions[wusel_index] as int).unwrap();
            !(p.x == goal.x && p.y == goal.y)
        }),
    ensures
        ({
            let p = world.spec_position_from_index(world.wusel_positions[wusel_index] as int).unwrap();
            let (after, stopped) = world.spec_walked(wusel_index, goal);
            &&& !stopped
            &&& after.spec_position_from_index(after.wusel_positions[wusel_index] as int) matches Some(q)
            &&& world.area.spec_contains(q)
            &&& q.x <= p.x + 1 && p.x <= q.x + 1 && q.y <= p.y + 1 && p.y <= q.y + 1
            &&& !(q.x == p.x && q.y == p.y)
            &&& goal.spec_distance_squared(q) < goal.spec_distance_squared(p)
        }),
{
    let p = world.spec_position_from_index(world.wusel_positions[wusel_index] as int).unwrap();
    lemma_position_inside(world, world.wusel_positions[wusel_index] as int);
    let area = world.area;
    // The step whose sign leads from p towards the goal on each axis.
    let kx: int = if goal.x < p.x {
        0
    } else if goal.x == p.x {
        1
    } else {
        2
    };
    let k: int = if goal.y < p.y {
        kx
    } else if goal.y == p.y {
        if kx == 0 {
            3
        } else {
            4
        }
    } else {
        5 + kx
    };
    let sx: int = if goal.x < p.x {
        -1
    } else if goal.x == p.x {
        0
    } else {
        1
    };
    let sy: int = if goal.y < p.y {
        -1
    } else if goal.y == p.y {
        0
    } else {
        1
    };
    let direction = areas::spec_direction_xy(k);
    assert(direction.x.spec_offset() == sx && direction.y.spec_offset() == sy && direction.z.spec_offset() == 0);
    let s = areas::Position { x: (p.x + sx) as u32, y: (p.y + sy) as u32, z: p.z };
    assert(area.spec_neighbour(p, direction) == Some(s));
    areas::lemma_neighbour_listed(area, p, 8, k);
    let neighbours = area.spec_neighbours_xy(p);
    let j = choose|j: int| 0 <= j < neighbours.len() && neighbours[j] == s;
    lemma_closest_upto(neighbours, goal, neighbours.len());
    areas::lemma_neighbours_adjacent(area, p, 8);
    let closest = neighbours[spec_closest_upto(neighbours, goal, neighbours.len())];
    assert(goal.spec_distance_squared(closest) <= goal.spec_distance_squared(neighbours[j]));
    let dx = goal.x - p.x;
    let dy = goal.y - p.y;
    assert((dx - sx) * (dx - sx) + (dy - sy) * (dy - sy) < dx * dx + dy * dy) by (nonlinear_arith)
        requires
            dx > 0 ==> sx == 1,
            dx == 0 ==> sx == 0,
            dx < 0 ==> sx == -1,
            dy > 0 ==> sy == 1,
            dy == 0 ==> sy == 0,
            dy < 0 ==> sy == -1,
            dx != 0 || dy != 0,
    ;
    assert(s.x == p.x + sx && s.y == p.y + sy);
    assert(goal.x - s.x == dx - sx && goal.y - s.y == dy - sy);
    assert(goal.spec_distance_squared(s) == (dx - sx) * (dx - sx) + (dy - sy) * (dy - sy));
    assert(goal.spec_distance_squared(p) == dx * dx + dy * dy);
    crate::life::world::lemma_position_index_round_trip(world, closest);
}

/// When the meeting went wrong (a wusel without position).
pub const MEET_RESULT_ERROR: i8 = -1;

/// When they met, like the C-ish "OK".
pub const MEET_RESULT_OK: i8 = 0;

/// When the actor walked, they might not have met yet.
pub const MEET_RESULT_FOLLOWED: i8 = 1;

/// When the actual knocking was just applied, they know both of the meeting, but that may come next.
pub const MEET_RESULT_KNOCKED: i8 = 2;

/// When the knocking was done, but the passive is still busy, they actually have not met like intended.
pub const MEET_RESULT_WAITED: i8 = 3;

/// The task to be met by the active wusel.
pub open spec fn spec_be_met_from(active: wusels::WuselId) -> tasks::TaskBuilderModel {
    tasks::TaskBuilderModel { name: "Being Met"@, duration: 1, passive_part: tasks::TaskTag::BeMetFrom(active) }
}

/// The relation type of a meeting.
pub open spec fn spec_relation_type(romantically: bool) -> wusels::RelationType {
    if romantically {
        wusels::RelationType::Romance
    } else {
        wusels::RelationType::Friendship
    }
}

/// The change of a meeting on the relation: nice meetings add a point, mean ones take one.
pub open spec fn spec_relation_change(nice: bool) -> i32 {
    if nice {
        1i32
    } else {
        -1i32
    }
}

impl WorldModel {
    /// The last task of the wusel at the index with the passive part, moved to the end of its list.
    pub open spec fn spec_prioritized_with(self, wusel_index: int, task_tag: tasks::TaskTag) -> WorldModel {
        match wusels::spec_last_task_index_with(self.wusels[wusel_index].tasklist, task_tag) {
            Some(task_index) => self.spec_wusel_prioritized(wusel_index, task_index),
            None => self,
        }
    }

    /// The relation of two wusels after a meeting: only the relation of the two changed,
    /// by the change of the meeting.
    pub open spec fn spec_relation_updated(
        self,
        after: WorldModel,
        wusel0_id: wusels::WuselId,
        wusel1_id: wusels::WuselId,
        nice: bool,
        relation_type: wusels::RelationType,
    ) -> bool {
        &&& after == (WorldModel { relations: after.relations, ..self })
        &&& after.spec_relation(wusel0_id, wusel1_id) == Some(
            self.spec_relation_or_strangers(wusel0_id, wusel1_id).spec_update(
                relation_type,
                spec_relation_change(nice),
            ),
        )
        &&& forall|key: (wusels::WuselId, wusels::WuselId)|
            key != spec_relation_key(wusel0_id, wusel1_id) ==> spec_relation_in(after.relations, key)
                == spec_relation_in(self.relations, key)
    }

    /// The world after one step of the active wusel's meeting with the passive one, and what
    /// the active did (`MEET_RESULT_*`).
    ///
    /// Not near the passive, the active walks towards them. Near, and the passive waits to be
    /// met by the active, they meet and their relation changes. Both wanting to meet the
    /// other actively, one of them is made to wait for the other (the one already waiting,
    /// else the less communicative, on a tie the later). Else the passive is told to wait
    /// for the active, if not yet done; if done, the active waits.
    pub open spec fn spec_meeting(
        self,
        after: WorldModel,
        active_index: int,
        passive_index: int,
        intention_good: bool,
        romantically: bool,
        result: i8,
    ) -> bool {
        if !(0 <= passive_index < self.wusels.len()) {
            after == self && result == MEET_RESULT_ERROR
        } else {
            match self.spec_position_from_index(self.wusel_positions[passive_index] as int) {
                None => after == self && result == MEET_RESULT_ERROR,
                Some(goal) => {
                    let walked = self.spec_walked_if_far(active_index, goal, 4).0;
                    if !self.spec_walked_if_far(active_index, goal, 4).1 {
                        after == walked && result == MEET_RESULT_FOLLOWED
                    } else {
                        let active_id = walked.wusels[active_index].id;
                        let passive_id = walked.wusels[passive_index].id;
                        let met = tasks::TaskTag::BeMetFrom(active_id);
                        let ongoing = walked.wusels[passive_index].spec_ongoing();
                        if ongoing matches Some(t) && t.passive_part == met {
                            result == MEET_RESULT_OK && walked.spec_relation_updated(
                                after,
                                active_id,
                                passive_id,
                                intention_good,
                                spec_relation_type(romantically),
                            )
                        } else {
                            let passive_is_waiting = wusels::spec_has_task_with(
                                walked.wusels[passive_index].tasklist,
                                met,
                            );
                            if ongoing matches Some(t) && t.passive_part matches tasks::TaskTag::MeetWith(
                                id,
                                _,
                                _,
                            ) && id == active_id {
                                result == MEET_RESULT_KNOCKED && after == (if passive_is_waiting {
                                    walked.spec_prioritized_with(passive_index, met)
                                } else if wusels::spec_has_task_with(
                                    walked.wusels[active_index].tasklist,
                                    tasks::TaskTag::BeMetFrom(passive_id),
                                ) {
                                    walked.spec_prioritized_with(active_index, met)
                                } else {
                                    let c0 = walked.wusels[active_index].spec_ability(
                                        wusels::Ability::COMMUNICATION,
                                    );
                                    let c1 = walked.wusels[passive_index].spec_ability(
                                        wusels::Ability::COMMUNICATION,
                                    );
                                    let more_active = if c0 > c1 || (c0 == c1 && active_index
                                        < passive_index) {
                                        active_index
                                    } else {
                                        passive_index
                                    };
                                    let more_passive = if more_active == active_index {
                                        passive_index
                                    } else {
                                        active_index
                                    };
                                    walked.spec_task_assigned(
                                        more_passive,
                                        tasks::TaskBuilderModel {
                                            name: "Be met by "@ + text::spec_decimal(more_active as nat),
                                            ..spec_be_met_from(more_active as usize)
                                        },
                                    )
                                })
                            } else if !passive_is_waiting {
                                result == MEET_RESULT_KNOCKED && after == walked.spec_task_assigned(
                                    passive_index,
                                    spec_be_met_from(active_id),
                                )
                            } else {
                                result == MEET_RESULT_WAITED && after == walked
                            }
                        }
                    }
                },
            }
        }
    }

    /// The relation two wusels meeting changes does not leave the bounds of an `i32`.
    pub open spec fn spec_meeting_safe(self, active_index: int, passive_index: int, nice: bool, romantically: bool) -> bool {
        self.spec_relation_or_strangers(active_index as usize, passive_index as usize).can_update(
            spec_relation_type(romantically),
            spec_relation_change(nice),
        )
    }
}

/// A meeting that succeeds changes the relation of the two wusels by one point: up for a
/// nice meeting, down for a mean one; the romance for a romantic meeting, else the
/// friendship; the other kind, the official state and the kinship stay as they were.
pub proof fn lemma_meeting_changes_relation(
    before: WorldModel,
    after: WorldModel,
    active_index: int,
    passive_index: int,
    nice: bool,
    romantically: bool,
)
    requires
        before.wf(),
        0 <= active_index < before.wusels.len(),
        0 <= passive_index < before.wusels.len(),
        ({
            let old_relation = before.spec_relation_or_strangers(active_index as usize, passive_index as usize);
            &&& i32::MIN < old_relation.friendship < i32::MAX
            &&& i32::MIN < old_relation.romance < i32::MAX
        }),
        before.spec_meeting(after, active_index, passive_index, nice, romantically, MEET_RESULT_OK),
    ensures
        ({
            let old_relation = before.spec_relation_or_strangers(active_index as usize, passive_index as usize);
            let change: int = if nice {
                1
            } else {
                -1
            };
            &&& after.spec_relation(active_index as usize, passive_index as usize) matches Some(r)
            &&& if romantically {
                r.romance == old_relation.romance + change && r.friendship == old_relation.friendship
            } else {
                r.friendship == old_relation.friendship + change && r.romance == old_relation.romance
            }
            &&& r.officially == old_relation.officially
            &&& r.kindred_distance == old_relation.kindred_distance
        }),
{
    let goal = before.spec_position_from_index(before.wusel_positions[passive_index] as int).unwrap();
    let walked = before.spec_walked_if_far(active_index, goal, 4).0;
    assert(walked.wusels == before.wusels);
    assert(walked.relations == before.relations);
    assert(walked.wusels[active_index].id == active_index);
    assert(walked.wusels[passive_index].id == passive_index);
}

/// Arrange the meeting of two wusels.
/// They must be close to each other (neighbour fields or shared desk/bench...).
/// If not, the active wusels walk to the passive wusel.
/// The passive wusel must be free or ready to receive the active wusel's approaches.
/// If not, let the active wait for longer and add the request to the passive wusel.
///
/// The output is a number, presenting what the active wusel has done (`MEET_RESULT_*`).
fn let_two_wusels_meet(
    world: &mut World,
    active_index: usize,
    passive_index: usize,
    intention_good: bool,
    romantically: bool,
) -> (result: i8)
    requires
        old(world)@.wf(),
        old(world)@.spec_wusel_in_world(active_index as int),
        old(world)@.spec_meeting_safe(active_index as int, passive_index as int, intention_good, romantically),
    ensures
        final(world)@.wf(),
        old(world)@.spec_meeting(
            final(world)@,
            active_index as int,
            passive_index as int,
            intention_good,
            romantically,
            result,
        ),
{
    // If not close to the other wusel, use this step to get closer,
    // return as not yet ready.
    let opt_passive_position_index = world.wusel_position_index(passive_index);
    if opt_passive_position_index.is_none() {
        return MEET_RESULT_ERROR;  // No position.
    }
    let passive_position_index = opt_passive_position_index.unwrap();

    let position_passive_wusel = world.position_from_index(passive_position_index);
    if position_passive_wusel.is_none() {
        return MEET_RESULT_ERROR;  // No position.
    }
    let position_passive_wusel = position_passive_wusel.unwrap();

    // If the actor is close enough, do the next steps.
    let following = let_wusel_walk_to_position_if_not_close(world, active_index, position_passive_wusel, 4);

    // Just followed.
    if !following {
        return MEET_RESULT_FOLLOWED;
    }
    let ghost walked = world@;

    let active_id = world.wusel_get_id(active_index);
    let passive_id = world.wusel_get_id(passive_index);

    // Get the passive wusel's current task.
    // If it is being met by the active, succeed a step with the meeting,
    // otherwise see below.
    let passives_ongoing_tasktag = world.wusel_ongoing_task_tag(passive_index);

    let active_is_met = tasks::TaskTag::BeMetFrom(active_id);

    let handshake_okay = match passives_ongoing_tasktag {
        Some(tag) => tag == active_is_met,
        None => false,
    };

    if handshake_okay {
        let performance: bool = true;  // how well is the communication

        // Update the relation between active and passive.
        world.wusel_update_relations(
            active_id,
            passive_id,
            intention_good && performance,
            wusels::RelationType::from_romantically(romantically),
        );
        return MEET_RESULT_OK;  // they actually met.
    }

    // Check, if the passive is already waiting (in tasklist).
    let passive_is_waiting = world.wusel_has_task_with(passive_index, &active_is_met);

    // Check if they both want an (actively) Meeting each other.
    let mutual_meeting_as_actives = match passives_ongoing_tasktag {
        Some(tasks::TaskTag::MeetWith(id, _, _)) => id == active_id,
        _ => false,
    };

    // They are blocking each other by waiting.
    if mutual_meeting_as_actives {
        // If one of them are already waiting for the other, it's settled.
        // Just get the waiting (to be met) to active task.
        let already_waiting_index = if passive_is_waiting {
            passive_index
        } else if world.wusel_has_task_with(active_index, &tasks::TaskTag::BeMetFrom(passive_id)) {
            active_index
        } else {
            world.wusel_count()
        };

        // Move already waiting task to active tasks.
        if already_waiting_index < world.wusel_count() {
            let waiting_task_index_opt = world.wusel_last_task_index_with(already_waiting_index, &active_is_met);
            if let Some(waiting_task_index) = waiting_task_index_opt {
                world.wusel_prioritize_task(already_waiting_index, waiting_task_index);
            }
            return MEET_RESULT_KNOCKED;  // even if it might be knocked before.
        }

        // Non of them requested anything before.
        // Decide it on communication skill.
        // On tie, let this active be the first one.
        let skill = wusels::Ability::COMMUNICATION;
        let c0 = world.wusel_get_ability(active_index, skill).unwrap();
        let c1 = world.wusel_get_ability(passive_index, skill).unwrap();

        let (more_active, more_passive) = if c0 > c1 {
            (active_index, passive_index)
        } else if c0 < c1 {
            (passive_index, active_index)
        } else if active_index < passive_index {
            (active_index, passive_index)
        } else {
            (passive_index, active_index)
        };

        let mut name = String::from_str("Be met by ");
        name.append(text::format_usize(more_active).as_str());
        world.wusel_assign_to_task(more_passive, tasks::TaskBuilder::be_met_from(more_active).set_name(name));

        return MEET_RESULT_KNOCKED;
    }

    // Else, just notify them, if not yet done,
    // I am there and wait for them to be ready.
    if !passive_is_waiting {
        // Tell passive to be ready for active.
        world.wusel_assign_to_task(passive_index, tasks::TaskBuilder::be_met_from(active_id));
        return MEET_RESULT_KNOCKED;
    }

    // If the passive target is not yet ready to talk, wait.
    MEET_RESULT_WAITED
}


/// The task can hold on.
const TASK_HOLD: bool = false;

/// The task is done, the next can come.
const TASK_PROCEED: bool = true;

/// A position given by an index of the world lies inside the world, and its index is below
/// the number of positions.
proof fn lemma_position_inside(world: WorldModel, position_index: int)
    requires
        world.wf(),
        world.spec_position_from_index(position_index) is Some,
    ensures
        world.spec_position_from_index(position_index).unwrap().x < world.width,
        world.spec_position_from_index(position_index).unwrap().y < world.depth,
        world.spec_position_from_index(position_index).unwrap().x + world.width
            * world.spec_position_from_index(position_index).unwrap().y < world.width * world.depth,
{
    let position = world.spec_position_from_index(position_index).unwrap();
    let w = world.width as int;
    assert(0 <= position_index % w < w && 0 <= position_index / w < world.depth) by (nonlinear_arith)
        requires
            0 <= position_index < w * world.depth,
            w > 0,
    ;
    assert(position.x == position_index % w);
    assert(position.y == position_index / w);
    assert(position.x + world.width * position.y < world.width * world.depth) by (nonlinear_arith)
        requires
            position.x < world.width,
            position.y < world.depth,
    ;
}

impl WorldModel {
    /// The position of the object a wusel is to use is defined: an object held by a wusel
    /// of the world is held by one standing on a position of the world.
    pub open spec fn spec_object_use_safe(self, wusel_index: int, object_index: int) -> bool {
        0 <= wusel_index < self.wusels.len() && 0 <= object_index < self.objects.len() ==> (
        self.spec_object_id_to_index(self.object_ids[object_index]) matches Some(i)
            ==> self.spec_object_index_position_defined(i))
    }

    /// The world after the wusel at the index tried to use the object at the index, and
    /// whether it interacted: an object lying nowhere cannot be used; else the wusel walks
    /// towards the object if not near it; near it, it finds no action to do, since the
    /// world knows no actions.
    pub open spec fn spec_object_used(self, wusel_index: int, object_index: int) -> (WorldModel, bool) {
        if 0 <= wusel_index < self.wusels.len() && 0 <= object_index < self.objects.len() {
            match self.spec_object_position(self.object_ids[object_index]) {
                Some(position) => (self.spec_walked_if_far(wusel_index, position, 1).0, false),
                None => (self, false),
            }
        } else {
            (self, false)
        }
    }
}

/// Let a wusel use an object.
///
/// If the object is held by the wusel themselves, use it directly.
/// If the object is placed in the world, go to the object.
/// If the object is held by another wusel, it cannot be done.
///
/// Using the object may change the needs of the wusel (given by an preset).
/// Using the object may also consume the object.
///
/// Returns if an interaction happened (true) or not (false).
fn let_wusel_use_object(world: &mut World, wusel_index: usize, object_index: usize, action_index: usize) -> (interacted:
    bool)
    requires
        old(world)@.wf(),
        object_index < old(world)@.objects.len() ==> old(world)@.spec_wusel_in_world(wusel_index as int),
        old(world)@.spec_object_use_safe(wusel_index as int, object_index as int),
    ensures
        final(world)@.wf(),
        (final(world)@, interacted) == old(world)@.spec_object_used(wusel_index as int, object_index as int),
{
    // Invalid wusel index.
    if !world.check_valid_wusel_index(wusel_index) {
        return false;
    }

    let wusel_id = world.wusel_get_id(wusel_index);

    // Invalid object index.
    if object_index >= world.object_count() {
        return false;
    }

    let object_id = world.object_index_get_id(object_index);

    // Check where the object is.
    let object_position = world.object_get_position(object_id);

    // An object lying nowhere cannot be used.
    if object_position.is_none() {
        return false;
    }
    let object_position = object_position.unwrap();
    proof {
        let w = old(world)@;
        let i = w.spec_object_id_to_index(object_id).unwrap();
        match w.object_whereabouts[i] {
            InWorld::OnPositionIndex(p) => lemma_position_inside(w, p as int),
            InWorld::HeldByWuselId(holder) => lemma_position_inside(w, w.wusel_positions[holder as int] as int),
            _ => {},
        }
    }
    let object_position_index = world.position_to_index(object_position);

    // If not close to object, go to it.
    let close_enough = let_wusel_walk_to_position_if_not_close(world, wusel_index, object_position, 1);

    if !close_enough {
        return false;
    }

    let object_whereabouts = match world.object_index_get_whereabouts(object_index) {
        Some(whereabouts) => whereabouts,
        None => InWorld::Nowhere,
    };

    // Invalid action index.
    if action_index >= world.action_count() {
        return false;
    }

    // Get the effect of interacting with the object.
    let mut k: usize = 0;
    while k < world.actions_effects.len()
        invariant
            k <= world.actions_effects@.len(),
        decreases world.actions_effects@.len() - k,
    {
        if world.actions_effects[k].0 == object_id && world.actions_effects[k].1 == action_index {
            break;
        }
        k += 1;
    }
    if k < world.actions_effects.len() {
        let mut j: usize = 0;
        while j < world.actions_effects[k].3.len()
            invariant
                k < world.actions_effects@.len(),
                wusel_index < world.wusels@.len(),
                j <= world.actions_effects@[k as int].3@.len(),
            decreases world.actions_effects@[k as int].3@.len() - j,
        {
            let (need, change) = world.actions_effects[k].3[j];
            world.wusels[wusel_index].set_need_relative(need, change);
            j += 1;
        }
    }

    // Do the actual action.
    let action = world.actions[action_index].as_str();
    if text::str_equal(action, "View") {
        TASK_PROCEED
    } else if text::str_equal(action, "Take") {
        // if close, or already holding. => update whereabouts and TASK_PROCEED
        if let InWorld::OnPositionIndex(_) | InWorld::InStorageId(_) = object_whereabouts {
            world.object_set_whereabouts(object_index, InWorld::HeldByWuselId(wusel_id));
        }
        TASK_PROCEED  // if already held, cannot be held, but just stop to do so.
    } else if text::str_equal(action, "Drop") {
        if let InWorld::HeldByWuselId(holder_id) = object_whereabouts {
            if holder_id == wusel_id {
                world.object_set_whereabouts(object_index, InWorld::OnPositionIndex(object_position_index));
            }
        }
        TASK_PROCEED  // if not held, it cannot be dropped, but the wusel will be done, to drop the object.
    } else if text::str_equal(action, "Consume") {
        if world.objects[object_index].get_consumable() != 0 {
            let left_over = world.objects[object_index].get_consumable_left();
            if left_over <= 1 {
                world.object_destroy(object_index);  // delete from world.
                return TASK_PROCEED;
            }
            world.objects[object_index].set_consumable_left(left_over - 1);
            return TASK_HOLD;
        }
        TASK_HOLD  // tried to consume something unconsumable.
    } else {
        TASK_HOLD  // undefined action.
    }
}


/// Every task of the wusel can count one more step.
pub open spec fn spec_tasks_steppable(wusel: wusels::WuselModel) -> bool {
    forall|k: int| 0 <= k < wusel.tasklist.len() ==> (#[trigger] wusel.tasklist[k]).done_steps < usize::MAX
}

/// No task of the list walks its actor.
pub open spec fn spec_tasks_walk_free(tasks: Seq<tasks::TaskModel>) -> bool {
    forall|k: int| 0 <= k < tasks.len() ==> !WorldModel::spec_task_walks(#[trigger] tasks[k])
}

/// Every relation is at least `margin` points away from the bounds of an `i32`.
pub open spec fn spec_relations_within(
    relations: Map<(wusels::WuselId, wusels::WuselId), wusels::relations::RelationModel>,
    margin: int,
) -> bool {
    forall|key: (wusels::WuselId, wusels::WuselId)|
        #[trigger] relations.contains_key(key) ==> {
            &&& i32::MIN + margin <= relations[key].friendship <= i32::MAX - margin
            &&& i32::MIN + margin <= relations[key].romance <= i32::MAX - margin
        }
}

impl WorldModel {
    /// The task walks its actor: moving to a position, or meeting another wusel.
    pub open spec fn spec_task_walks(task: tasks::TaskModel) -> bool {
        task.passive_part is MoveToPos || task.passive_part is MeetWith
    }

    /// The task can be proceeded without leaving the bounds of the numbers involved; an
    /// actor that walks stands on a position of the world.
    pub open spec fn spec_proceed_safe(self, task: tasks::TaskModel) -> bool {
        &&& task.started ==> task.start_time <= self.clock
        &&& WorldModel::spec_task_walks(task) ==> self.spec_wusel_in_world(task.active_actor_id as int)
        &&& (task.passive_part matches tasks::TaskTag::MeetWith(other, nice, romantically)
            ==> self.spec_meeting_safe(task.active_actor_id as int, other as int, nice, romantically))
        &&& (task.active_actor_id < self.wusels.len() ==> spec_tasks_steppable(
            self.wusels[task.active_actor_id as int],
        ))
    }

    /// The world with the task's actor's ongoing task started now, if the task was not started.
    pub open spec fn spec_task_started(self, task: tasks::TaskModel) -> WorldModel {
        if task.started {
            self
        } else {
            self.spec_wusel_started(task.active_actor_id as int)
        }
    }

    /// The world after the task of its actor proceeded one tick.
    ///
    /// A task that has not started yet starts (its actor's ongoing task starts now).
    /// Waiting is a step done; being met is a step done unless the other is meeting the
    /// actor right now; a meeting with a wusel that does not exist is dropped, else the
    /// meeting goes on, and a meeting that waited too long is dropped; walking is a step
    /// done when the actor stopped; using an object is a step done, since the world knows
    /// no actions. A task of a wusel that does not exist changes nothing.
    pub open spec fn spec_proceeded(self, after: WorldModel, task: tasks::TaskModel) -> bool {
        let actor = task.active_actor_id as int;
        if actor >= self.wusels.len() {
            after == self
        } else {
            let started = self.spec_task_started(task);
            let start_time = if task.started {
                task.start_time
            } else {
                self.clock
            };
            match task.passive_part {
                tasks::TaskTag::WaitLike => after == started.spec_wusel_stepped(actor),
                tasks::TaskTag::BeMetFrom(other) => {
                    let proceeding = if other < started.wusels.len() {
                        match started.wusels[other as int].spec_ongoing() {
                            Some(t) => !(t.passive_part matches tasks::TaskTag::MeetWith(id, _, _) && id
                                == actor),
                            None => true,
                        }
                    } else {
                        true
                    };
                    after == (if proceeding {
                        started.spec_wusel_stepped(actor)
                    } else {
                        started
                    })
                },
                tasks::TaskTag::MeetWith(other, nice, romantically) => if other >= started.wusels.len() {
                    after == started.spec_wusel_popped(actor)
                } else {
                    exists|met: WorldModel, result: i8|
                        #[trigger] started.spec_meeting(met, actor, other as int, nice, romantically, result)
                            && after == (if result == MEET_RESULT_WAITED {
                            if started.clock - start_time >= tasks::Task::PATIENCE_TO_MEET {
                                met.spec_wusel_popped(actor)
                            } else {
                                met
                            }
                        } else if result == MEET_RESULT_OK {
                            met.spec_wusel_stepped(actor)
                        } else {
                            met
                        })
                },
                tasks::TaskTag::MoveToPos(position) => {
                    let walked = started.spec_walked(actor, position);
                    after == (if walked.1 {
                        walked.0.spec_wusel_stepped(actor)
                    } else {
                        walked.0
                    })
                },
                tasks::TaskTag::UseObject(_, _) => after == started.spec_wusel_stepped(actor),
            }
        }
    }
}

/// What a meeting keeps: the clock, the wusels and the positions of all but the active,
/// tasks that can count one more step, and relations away from the bounds of an `i32`
/// (less one point).
#[verifier::rlimit(40)]
proof fn lemma_meeting_keeps(
    before: WorldModel,
    after: WorldModel,
    active_index: int,
    passive_index: int,
    nice: bool,
    romantically: bool,
    result: i8,
)
    requires
        before.wusel_positions.len() == before.wusels.len(),
        0 <= active_index < before.wusels.len(),
        before.spec_meeting(after, active_index, passive_index, nice, romantically, result),
    ensures
        after.clock == before.clock,
        after.wusels.len() == before.wusels.len(),
        after.wusel_positions.len() == before.wusel_positions.len(),
        forall|j: int|
            0 <= j < before.wusels.len() && j != active_index ==> after.wusel_positions[j]
                == before.wusel_positions[j],
        forall|j: int|
            0 <= j < before.wusels.len() && spec_tasks_steppable(before.wusels[j]) ==> spec_tasks_steppable(
                #[trigger] after.wusels[j],
            ),
        forall|j: int|
            0 <= j < before.wusels.len() && spec_tasks_walk_free(before.wusels[j].tasklist)
                ==> spec_tasks_walk_free(#[trigger] after.wusels[j].tasklist),
        forall|margin: int|
            1 <= margin <= i32::MAX && spec_relations_within(before.relations, margin) ==> spec_relations_within(
                after.relations,
                margin - 1,
            ),
{
    lemma_meeting_relations(before, after, active_index, passive_index, nice, romantically, result);
}

/// A meeting changes at most one relation, by one point.
proof fn lemma_meeting_relations(
    before: WorldModel,
    after: WorldModel,
    active_index: int,
    passive_index: int,
    nice: bool,
    romantically: bool,
    result: i8,
)
    requires
        0 <= active_index < before.wusels.len(),
        before.spec_meeting(after, active_index, passive_index, nice, romantically, result),
    ensures
        forall|margin: int|
            1 <= margin <= i32::MAX && spec_relations_within(before.relations, margin) ==> spec_relations_within(
                after.relations,
                margin - 1,
            ),
{
    assert forall|margin: int|
        1 <= margin <= i32::MAX && spec_relations_within(before.relations, margin) implies spec_relations_within(
            after.relations,
            margin - 1,
        ) by {
        if 0 <= passive_index < before.wusels.len() && before.spec_position_from_index(
            before.wusel_positions[passive_index] as int,
        ) is Some {
            let goal = before.spec_position_from_index(before.wusel_positions[passive_index] as int).unwrap();
            let walked = before.spec_walked_if_far(active_index, goal, 4).0;
            let active_id = walked.wusels[active_index].id;
            let passive_id = walked.wusels[passive_index].id;
            let ongoing = walked.wusels[passive_index].spec_ongoing();
            if before.spec_walked_if_far(active_index, goal, 4).1 && ongoing is Some && ongoing.unwrap().passive_part
                == tasks::TaskTag::BeMetFrom(active_id) {
                assert(walked.relations == before.relations);
                lemma_updated_within(
                    walked,
                    after,
                    active_id,
                    passive_id,
                    nice,
                    spec_relation_type(romantically),
                    margin,
                );
            } else {
                assert(after.relations == before.relations);
            }
        } else {
            assert(after.relations == before.relations);
        }
    }
}

/// A relation updated by one point keeps every relation one point less away from the bounds
/// of an `i32`.
proof fn lemma_updated_within(
    before: WorldModel,
    after: WorldModel,
    wusel0_id: wusels::WuselId,
    wusel1_id: wusels::WuselId,
    nice: bool,
    relation_type: wusels::RelationType,
    margin: int,
)
    requires
        before.spec_relation_updated(after, wusel0_id, wusel1_id, nice, relation_type),
        1 <= margin <= i32::MAX,
        spec_relations_within(before.relations, margin),
    ensures
        spec_relations_within(after.relations, margin - 1),
{
    let key = spec_relation_key(wusel0_id, wusel1_id);
    assert forall|k: (wusels::WuselId, wusels::WuselId)| #[trigger] after.relations.contains_key(k) implies {
        &&& i32::MIN + margin - 1 <= after.relations[k].friendship <= i32::MAX - (margin - 1)
        &&& i32::MIN + margin - 1 <= after.relations[k].romance <= i32::MAX - (margin - 1)
    } by {
        if k == key {
            assert(spec_relation_in(after.relations, key) == after.spec_relation(wusel0_id, wusel1_id));
            if before.relations.contains_key(key) {
                assert(before.relations.contains_key(key));
            }
        } else {
            assert(spec_relation_in(after.relations, k) == spec_relation_in(before.relations, k));
        }
    }
}

/// What proceeding a task keeps: the clock, the wusels and the positions of all but the
/// actor, tasks of the others that can count one more step, and relations away from the
/// bounds of an `i32` (less one point).
pub proof fn lemma_proceeded_keeps(before: WorldModel, after: WorldModel, task: tasks::TaskModel)
    requires
        before.wf(),
        before.spec_proceeded(after, task),
    ensures
        after.clock == before.clock,
        after.wusels.len() == before.wusels.len(),
        after.wusel_positions.len() == before.wusel_positions.len(),
        forall|j: int|
            0 <= j < before.wusels.len() && j != task.active_actor_id ==> after.wusel_positions[j]
                == before.wusel_positions[j],
        forall|j: int|
            0 <= j < before.wusels.len() && j != task.active_actor_id && spec_tasks_steppable(before.wusels[j])
                ==> spec_tasks_steppable(#[trigger] after.wusels[j]),
        forall|j: int|
            0 <= j < before.wusels.len() && j != task.active_actor_id && spec_tasks_walk_free(
                before.wusels[j].tasklist,
            ) ==> spec_tasks_walk_free(#[trigger] after.wusels[j].tasklist),
        forall|margin: int|
            1 <= margin <= i32::MAX && spec_relations_within(before.relations, margin) ==> spec_relations_within(
                after.relations,
                margin - 1,
            ),
{
    let actor = task.active_actor_id as int;
    if actor < before.wusels.len() {
        let started = before.spec_task_started(task);
        if let tasks::TaskTag::MeetWith(other, nice, romantically) = task.passive_part {
            if other < started.wusels.len() {
                let (met, result) = choose|met: WorldModel, result: i8|
                    #[trigger] started.spec_meeting(met, actor, other as int, nice, romantically, result)
                        && after == (if result == MEET_RESULT_WAITED {
                        if started.clock - (if task.started { task.start_time } else { before.clock })
                            >= tasks::Task::PATIENCE_TO_MEET {
                            met.spec_wusel_popped(actor)
                        } else {
                            met
                        }
                    } else if result == MEET_RESULT_OK {
                        met.spec_wusel_stepped(actor)
                    } else {
                        met
                    });
                lemma_meeting_keeps(started, met, actor, other as int, nice, romantically, result);
            }
        }
    }
    assert forall|margin: int|
        1 <= margin <= i32::MAX && spec_relations_within(before.relations, margin) implies spec_relations_within(
            after.relations,
            margin - 1,
        ) by {
        if after.relations == before.relations {
            assert forall|k: (wusels::WuselId, wusels::WuselId)| #[trigger] after.relations.contains_key(k) implies {
                &&& i32::MIN + margin - 1 <= after.relations[k].friendship <= i32::MAX - (margin - 1)
                &&& i32::MIN + margin - 1 <= after.relations[k].romance <= i32::MAX - (margin - 1)
            } by {
                assert(before.relations.contains_key(k));
            }
        }
    }
}

/// Relations away from the bounds of an `i32` can take a meeting.
pub proof fn lemma_within_can_update(
    world: WorldModel,
    active_index: int,
    passive_index: int,
    nice: bool,
    romantically: bool,
    margin: int,
)
    requires
        world.wf(),
        1 <= margin <= i32::MAX,
        spec_relations_within(world.relations, margin),
    ensures
        world.spec_meeting_safe(active_index, passive_index, nice, romantically),
{
    let key = spec_relation_key(active_index as usize, passive_index as usize);
    if world.relations.contains_key(key) {
        assert(world.relations.contains_key(key));
    }
}

/// Proceed the task in this world.
pub fn proceed(world: &mut World, task: tasks::Task)
    requires
        old(world)@.wf(),
        old(world)@.spec_proceed_safe(task@),
    ensures
        final(world)@.wf(),
        old(world)@.spec_proceeded(final(world)@, task@),
{
    let actor_id = task.get_active_actor_id();
    let actor_index = world.get_wusels_index_by_id(actor_id);

    if actor_index.is_none() {
        return;  // abort, because actor unavailable
    }

    let actor_index = actor_index.unwrap();

    let start_time = if task.has_started() {
        task.get_start_time()
    } else {
        // Notify the start of the task (for the wusel).
        world.wusel_start_ongoing_task(actor_id);
        world.get_time()  // starting now
    };
    let ghost started = world@;
    let ghost mut met: WorldModel = world@;
    let ghost mut met_result: i8 = 0;

    // Decide what to do, and if the task case done a step.
    let succeeded = match task.get_passive_part() {
        tasks::TaskTag::WaitLike => true,
        tasks::TaskTag::BeMetFrom(other_id) => {
            let other_index = world.get_wusels_index_by_id(other_id);

            // Other wusel needs also to exist or still wants to meet.
            if let Some(other_index) = other_index {
                match world.wusel_ongoing_task_tag(other_index) {
                    // => Proceed, since the other party is doing nothing, so no meeting.
                    None => true,
                    // Other party is busy.
                    Some(tasks::TaskTag::MeetWith(id, _nice, _love)) => id != actor_id,
                    Some(_) => true,
                }
            } else {
                // => proceed, since the other party was invalid.
                true
            }
        },
        tasks::TaskTag::MeetWith(other_id, nice, romantically) => {
            let other_index = world.get_wusels_index_by_id(other_id);

            // Other wusel needs also to exist.
            if other_index.is_none() {
                world.wusel_pop_ongoing_task(actor_index);
                return;  // task can not be done, without target.
            }
            let other_index = other_index.unwrap();

            let meeting_result = let_two_wusels_meet(world, actor_index, other_index, nice, romantically);
            proof {
                lemma_meeting_keeps(started, world@, actor_index as int, other_index as int, nice, romantically, meeting_result);
            }
            proof {
                met = world@;
                met_result = meeting_result;
            }

            // On Final Success with own step, also let the BeMetFrom() succeed.
            if meeting_result == MEET_RESULT_WAITED {
                // waiting, but don't wait too long.
                if world.get_time() - start_time >= tasks::Task::PATIENCE_TO_MEET {
                    world.wusel_pop_ongoing_task(actor_index);
                }
                false  // => do not notify succession
            } else if meeting_result == MEET_RESULT_OK {
                true  // They met and the task is over.
            } else {
                false  // => no process (FOLLOWED, KNOCKED or an unexpected)
            }
        },
        tasks::TaskTag::MoveToPos(position) => {
            // Let the wusel walk; check if they stopped.
            let_wusel_walk_to_position(world, actor_index, position)
        },
        tasks::TaskTag::UseObject(object_id, action_id) => {
            let object_index = world.object_id_to_index(object_id);
            let action_index = if action_id >= world.action_count() {
                None
            } else {
                Some(action_id)
            };
            if object_index.is_none() || action_index.is_none() {
                true  // proceed to next action.
            } else {
                let_wusel_use_object(world, actor_index, object_index.unwrap(), action_index.unwrap())
            }
        },
    };

    // Notify the task succeeded to do a step.
    if succeeded {
        world.wusel_increase_ongoing_task_steps(actor_index);
    }
    proof {
        if let tasks::TaskTag::MeetWith(other, nice, romantically) = task@.passive_part {
            if other < started.wusels.len() {
                assert(started.spec_meeting(met, actor_index as int, other as int, nice, romantically, met_result));
            }
        }
    }
}

} // verus!
