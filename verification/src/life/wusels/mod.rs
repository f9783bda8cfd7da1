//! # Wusels
//!
//! ... and gender, life states, needs, abilities, relations and tasks.

use vstd::prelude::*;

pub mod abilities;
pub mod needs;
pub mod relations;
pub mod tasks;

use crate::random;
pub use abilities::Ability;
pub use needs::Need;
pub use relations::{Relation, RelationType};

verus! {

pub type WuselId = usize;

/// Life state of a Wusel.
/// All but alive leads to a not living state, though a ghost may wander and interact.
#[derive(Copy, Clone, Debug, PartialEq, Eq, Structural)]
pub enum Life {
    ALIVE,
    DEAD,
    GHOST,
}

/// A non-binary gender type for a Wusel
#[derive(Debug, Copy, Clone, PartialEq, Eq, Structural)]
pub enum WuselGender {
    Female,
    Male,
    Undefined,
}

impl WuselGender {
    pub const VALUES: [Self; 2] = [Self::Female, Self::Male];

    /// A random gender of the two given by `VALUES`.
    pub fn random() -> (gender: Self)
        ensures
            gender == WuselGender::Female || gender == WuselGender::Male,
    {
        if random::random_usize() % 2 == 0 {
            Self::Female
        } else {
            Self::Male
        }
    }

    /// The letter of the gender.
    pub open spec fn spec_char(self) -> char {
        match self {
            WuselGender::Female => 'f',
            WuselGender::Male => 'm',
            WuselGender::Undefined => 'x',
        }
    }

    pub fn to_char(&self) -> (letter: char)
        ensures
            letter == self.spec_char(),
    {
        match self {
            Self::Female => 'f',
            Self::Male => 'm',
            Self::Undefined => 'x',
        }
    }

    /// The symbol of the gender.
    pub open spec fn spec_char_pretty(self) -> char {
        match self {
            WuselGender::Female => '\u{2640}',
            WuselGender::Male => '\u{2642}',
            WuselGender::Undefined => '\u{26b2}',
        }
    }

    pub fn to_char_pretty(&self) -> (symbol: char)
        ensures
            symbol == self.spec_char_pretty(),
    {
        match self {
            Self::Female => '\u{2640}',
            Self::Male => '\u{2642}',
            Self::Undefined => '\u{26b2}',
        }
    }
}

/// The needs of a new wusel: every need is full.
pub open spec fn spec_full_needs() -> Seq<u32> {
    Seq::new(7, |i: int| needs::spec_need_at(i).spec_full())
}

/// The needs after one tick: each need decreases by its default decay, but not below 0.
pub open spec fn spec_decayed_needs(values: Seq<u32>) -> Seq<u32> {
    Seq::new(
        values.len(),
        |i: int|
            if values[i] >= needs::spec_need_at(i).spec_default_decay() {
                (values[i] - needs::spec_need_at(i).spec_default_decay()) as u32
            } else {
                0u32
            },
    )
}

/// A deadly need has run out.
pub open spec fn spec_fatal_need_empty(values: Seq<u32>) -> bool {
    exists|i: int| 0 <= i < values.len() && values[i] < 1 && needs::spec_need_at(i).spec_fatal()
}

/// The tasks after removing the finished ongoing tasks (at the end of the list).
pub open spec fn spec_auto_cleaned(tasks: Seq<tasks::TaskModel>) -> Seq<tasks::TaskModel>
    decreases tasks.len(),
{
    if tasks.len() > 0 && tasks.last().spec_rest_time() < 1 {
        spec_auto_cleaned(tasks.drop_last())
    } else {
        tasks
    }
}

/// Every task that the cleaning looks at has not done more steps than it lasts.
pub open spec fn spec_auto_clean_safe(tasks: Seq<tasks::TaskModel>) -> bool
    decreases tasks.len(),
{
    tasks.len() > 0 ==> {
        &&& tasks.last().done_steps <= tasks.last().duration
        &&& (tasks.last().spec_rest_time() < 1 ==> spec_auto_clean_safe(tasks.drop_last()))
    }
}

/// Cleaning only drops tasks from the end of the list: what stays is a prefix.
pub proof fn lemma_auto_cleaned_prefix(tasks: Seq<tasks::TaskModel>)
    ensures
        spec_auto_cleaned(tasks).len() <= tasks.len(),
        forall|j: int| 0 <= j < spec_auto_cleaned(tasks).len() ==> #[trigger] spec_auto_cleaned(tasks)[j] == tasks[j],
    decreases tasks.len(),
{
    if tasks.len() > 0 && tasks.last().spec_rest_time() < 1 {
        lemma_auto_cleaned_prefix(tasks.drop_last());
    }
}

/// Cleaning drops exactly the finished tasks at the ongoing end of the list: what stays is
/// the list's beginning, its last task (if any) is unfinished, every task dropped is
/// finished, and cleaning again changes nothing.
pub proof fn lemma_auto_cleaned_exact(tasks: Seq<tasks::TaskModel>)
    ensures
        spec_auto_cleaned(tasks) == tasks.subrange(0, spec_auto_cleaned(tasks).len() as int),
        spec_auto_cleaned(tasks).len() > 0 ==> spec_auto_cleaned(tasks).last().spec_rest_time() >= 1,
        forall|j: int|
            spec_auto_cleaned(tasks).len() <= j < tasks.len() ==> (#[trigger] tasks[j]).spec_rest_time() < 1,
        spec_auto_cleaned(spec_auto_cleaned(tasks)) == spec_auto_cleaned(tasks),
    decreases tasks.len(),
{
    lemma_auto_cleaned_prefix(tasks);
    if tasks.len() > 0 && tasks.last().spec_rest_time() < 1 {
        lemma_auto_cleaned_exact(tasks.drop_last());
        assert forall|j: int| spec_auto_cleaned(tasks).len() <= j < tasks.len() implies (
        #[trigger] tasks[j]).spec_rest_time() < 1 by {
            if j < tasks.len() - 1 {
                assert(tasks.drop_last()[j] == tasks[j]);
            }
        }
    }
    assert(spec_auto_cleaned(tasks) =~= tasks.subrange(0, spec_auto_cleaned(tasks).len() as int));
}

/// A tick takes one point off each of water, food, sleep, love and fun (none below zero),
/// and leaves warmth and health as they are.
pub proof fn lemma_tick_takes_one_point(wusel: WuselModel, add_day: bool, need: Need)
    requires
        wusel.wf(),
    ensures
        wusel.spec_ticked(add_day).spec_need(need) == if need == Need::WARMTH || need == Need::HEALTH {
            wusel.spec_need(need)
        } else if wusel.spec_need(need) >= 1 {
            (wusel.spec_need(need) - 1) as u32
        } else {
            0u32
        },
{
    let i = need.spec_index();
    assert(needs::spec_need_at(i) == need);
}

/// A wusel left with the last point of water or of food dies in its next tick.
pub proof fn lemma_tick_starves(wusel: WuselModel, add_day: bool)
    requires
        wusel.wf(),
        wusel.spec_need(Need::FOOD) <= 1 || wusel.spec_need(Need::WATER) <= 1,
    ensures
        !wusel.spec_ticked(add_day).spec_is_alive(),
{
    let needs = spec_decayed_needs(wusel.needs);
    if wusel.spec_need(Need::FOOD) <= 1 {
        assert(needs::spec_need_at(1) == Need::FOOD);
        assert(needs[1] < 1 && needs::spec_need_at(1).spec_fatal());
    } else {
        assert(needs::spec_need_at(0) == Need::WATER);
        assert(needs[0] < 1 && needs::spec_need_at(0).spec_fatal());
    }
}

/// Wusel.
/// Bundle of information on a certain position and abilities.
pub struct Wusel {
    id: WuselId,
    name: String,
    gender: WuselGender,
    pregnancy: Option<(Option<WuselId>, u8)>,  // other partner optional
    life: Life,
    lived_days: u32,
    needs: [u32; 7],
    abilities: [u32; 4],
    tasklist: Vec<tasks::Task>,
}

/// The mathematical model of a wusel.
pub struct WuselModel {
    pub id: WuselId,
    pub name: Seq<char>,
    pub gender: WuselGender,
    pub pregnancy: Option<(Option<WuselId>, u8)>,
    pub life: Life,
    pub lived_days: u32,
    /// The level of each need, in the order of `Need::VALUES`.
    pub needs: Seq<u32>,
    /// The level of each ability, in the order of `Ability::VALUES`.
    pub abilities: Seq<u32>,
    /// The tasks; the last one is the ongoing task, new ones are put in front.
    pub tasklist: Seq<tasks::TaskModel>,
}

/// The models of a list of tasks.
pub open spec fn spec_task_models(tasks: Seq<tasks::Task>) -> Seq<tasks::TaskModel> {
    tasks.map_values(|t: tasks::Task| t@)
}

impl View for Wusel {
    type V = WuselModel;

    closed spec fn view(&self) -> WuselModel {
        WuselModel {
            id: self.id,
            name: self.name@,
            gender: self.gender,
            pregnancy: self.pregnancy,
            life: self.life,
            lived_days: self.lived_days,
            needs: self.needs@,
            abilities: self.abilities@,
            tasklist: spec_task_models(self.tasklist@),
        }
    }
}

impl WuselModel {
    /// A new wusel: alive, not pregnant, with full needs, no abilities and no tasks.
    pub open spec fn spec_new(id: WuselId, name: Seq<char>, gender: WuselGender) -> WuselModel {
        WuselModel {
            id,
            name,
            gender,
            pregnancy: None,
            life: Life::ALIVE,
            lived_days: 0,
            needs: spec_full_needs(),
            abilities: seq![0u32, 0u32, 0u32, 0u32],
            tasklist: Seq::empty(),
        }
    }

    /// The shape every wusel has: one level per need and per ability.
    pub open spec fn wf(self) -> bool {
        self.needs.len() == 7 && self.abilities.len() == 4
    }

    pub open spec fn spec_is_alive(self) -> bool {
        self.life == Life::ALIVE
    }

    pub open spec fn spec_need(self, need: Need) -> u32 {
        self.needs[need.spec_index()]
    }

    pub open spec fn spec_ability(self, ability: Ability) -> u32 {
        self.abilities[ability.spec_index()]
    }

    /// The ongoing task (the last one), if any.
    pub open spec fn spec_ongoing(self) -> Option<tasks::TaskModel> {
        if self.tasklist.len() > 0 {
            Some(self.tasklist.last())
        } else {
            None
        }
    }

    /// A new day for a living wusel: one day older, every ability decays by one point
    /// (not below 0), a pregnancy is one day closer (not below 0).
    pub open spec fn spec_new_day(self) -> WuselModel {
        if self.life == Life::ALIVE {
            WuselModel {
                lived_days: (self.lived_days + 1) as u32,
                abilities: Seq::new(
                    self.abilities.len(),
                    |i: int|
                        if self.abilities[i] >= 1 {
                            (self.abilities[i] - 1) as u32
                        } else {
                            0u32
                        },
                ),
                pregnancy: match self.pregnancy {
                    Some((other, days)) => Some(
                        (other, if days >= 1 { (days - 1) as u8 } else { 0u8 }),
                    ),
                    None => None,
                },
                ..self
            }
        } else {
            self
        }
    }

    /// The wusel after one tick: all needs decay, a wusel whose deadly need ran out dies,
    /// and on a new day the living wusel gets older.
    pub open spec fn spec_ticked(self, add_day: bool) -> WuselModel {
        let needs = spec_decayed_needs(self.needs);
        let decayed = WuselModel {
            needs,
            life: if spec_fatal_need_empty(needs) {
                Life::DEAD
            } else {
                self.life
            },
            ..self
        };
        if add_day {
            decayed.spec_new_day()
        } else {
            decayed
        }
    }
}

/// The last index of a task with the given passive part, if any.
pub open spec fn spec_last_task_index_with(tasks: Seq<tasks::TaskModel>, task_tag: tasks::TaskTag) -> Option<int> {
    if spec_has_task_with(tasks, task_tag) {
        Some(
            choose|i: int|
                0 <= i < tasks.len() && tasks[i].passive_part == task_tag && forall|j: int|
                    i < j < tasks.len() ==> tasks[j].passive_part != task_tag,
        )
    } else {
        None
    }
}

impl WuselModel {
    /// The ongoing task marked as started at the time, unless it was started before.
    pub open spec fn spec_started(self, start_time: usize) -> WuselModel {
        if self.tasklist.len() > 0 && !self.tasklist.last().started {
            WuselModel {
                tasklist: self.tasklist.drop_last().push(
                    tasks::TaskModel { started: true, start_time, ..self.tasklist.last() },
                ),
                ..self
            }
        } else {
            self
        }
    }

    /// The ongoing task one step further.
    pub open spec fn spec_stepped(self) -> WuselModel {
        if self.tasklist.len() > 0 {
            WuselModel {
                tasklist: self.tasklist.drop_last().push(
                    tasks::TaskModel {
                        done_steps: (self.tasklist.last().done_steps + 1) as usize,
                        ..self.tasklist.last()
                    },
                ),
                ..self
            }
        } else {
            self
        }
    }

    /// The ongoing task dropped.
    pub open spec fn spec_popped(self) -> WuselModel {
        if self.tasklist.len() > 0 {
            WuselModel { tasklist: self.tasklist.drop_last(), ..self }
        } else {
            self
        }
    }

    /// The task at the index moved to the end of the list, where it is the next one.
    pub open spec fn spec_prioritized(self, task_index: int) -> WuselModel {
        if 0 <= task_index < self.tasklist.len() {
            WuselModel {
                tasklist: self.tasklist.remove(task_index).push(self.tasklist[task_index]),
                ..self
            }
        } else {
            self
        }
    }

    /// A new task from the builder put in front of the list.
    pub open spec fn spec_with_task(self, builder: tasks::TaskBuilderModel, init_time: usize) -> WuselModel {
        WuselModel {
            tasklist: seq![tasks::TaskModel::spec_assigned(builder, init_time, self.id)] + self.tasklist,
            ..self
        }
    }
}

impl PartialEq for Wusel {
    fn eq(&self, other: &Self) -> (equal: bool) {
        other.id == self.id
    }
}

impl vstd::std_specs::cmp::PartialEqSpecImpl for Wusel {
    open spec fn obeys_eq_spec() -> bool {
        true
    }

    open spec fn eq_spec(&self, other: &Self) -> bool {
        other@.id == self@.id
    }
}

impl Eq for Wusel {

}

impl Clone for Wusel {
    fn clone(&self) -> (wusel: Self)
        ensures
            wusel@ == self@,
    {
        let mut tasklist: Vec<tasks::Task> = Vec::new();
        let mut i: usize = 0;
        while i < self.tasklist.len()
            invariant
                i <= self.tasklist@.len(),
                tasklist@.len() == i,
                forall|k: int| 0 <= k < i ==> tasklist@[k]@ == self.tasklist@[k]@,
            decreases self.tasklist@.len() - i,
        {
            tasklist.push(self.tasklist[i].clone());
            i += 1;
        }
        assert(spec_task_models(tasklist@) =~= spec_task_models(self.tasklist@));
        Wusel {
            id: self.id,
            name: self.name.clone(),
            gender: self.gender,
            pregnancy: self.pregnancy,
            life: self.life,
            lived_days: self.lived_days,
            needs: self.needs,
            abilities: self.abilities,
            tasklist,
        }
    }
}

impl Wusel {
    pub fn new(id: WuselId, name: String, gender: WuselGender) -> (wusel: Self)
        ensures
            wusel@ == WuselModel::spec_new(id, name@, gender),
    {
        let needs: [u32; 7] = [
            Need::WATER.get_full(),
            Need::FOOD.get_full(),
            Need::SLEEP.get_full(),
            Need::LOVE.get_full(),
            Need::FUN.get_full(),
            Need::WARMTH.get_full(),
            Need::HEALTH.get_full(),
        ];
        assert(needs@ =~= spec_full_needs()) by {
            assert(needs@[0] == needs[0]);
            assert(needs@[1] == needs[1]);
            assert(needs@[2] == needs[2]);
            assert(needs@[3] == needs[3]);
            assert(needs@[4] == needs[4]);
            assert(needs@[5] == needs[5]);
            assert(needs@[6] == needs[6]);
        }
        let wusel = Self {
            id,
            name,
            gender,
            pregnancy: None,
            life: Life::ALIVE,
            lived_days: 0,
            needs,
            abilities: [0u32, 0u32, 0u32, 0u32],
            tasklist: Vec::new(),
        };
        assert(wusel@.needs =~= spec_full_needs());
        assert(wusel@.abilities =~= seq![0u32, 0u32, 0u32, 0u32]);
        assert(wusel@.tasklist =~= Seq::<tasks::TaskModel>::empty());
        wusel
    }

    pub fn get_id(&self) -> (id: WuselId)
        ensures
            id == self@.id,
    {
        self.id
    }

    pub fn is_alive(&self) -> (alive: bool)
        ensures
            alive == self@.spec_is_alive(),
    {
        matches!(self.life, Life::ALIVE)
    }

    pub fn get_lived_days(&self) -> (days: u32)
        ensures
            days == self@.lived_days,
    {
        self.lived_days
    }

    /// Set the life state; returns whether the wusel is alive now.
    pub fn set_life_state(&mut self, life_state: Life) -> (alive: bool)
        ensures
            final(self)@ == (WuselModel { life: life_state, ..old(self)@ }),
            alive == (life_state == Life::ALIVE),
    {
        self.life = life_state;
        self.is_alive()
    }

    pub fn get_name(&self) -> (name: String)
        ensures
            name@ == self@.name,
    {
        self.name.clone()
    }

    pub fn set_name(&mut self, new_name: String)
        ensures
            final(self)@ == (WuselModel { name: new_name@, ..old(self)@ }),
    {
        self.name = new_name;
    }

    pub fn get_gender(&self) -> (gender: WuselGender)
        ensures
            gender == self@.gender,
    {
        self.gender
    }

    pub fn set_gender(&mut self, new_gender: WuselGender)
        ensures
            final(self)@ == (WuselModel { gender: new_gender, ..old(self)@ }),
    {
        self.gender = new_gender;
    }
}


impl Wusel {
    /// Tick one unit.
    /// Reduce the satisfaction of each needs by default values.
    /// Maybe let it age one day.
    /// @return if the wusel is still alive in the end.
    pub fn wusel_tick(&mut self, add_day: bool) -> (alive: bool)
        requires
            add_day && old(self)@.spec_ticked(false).spec_is_alive() ==> old(self)@.lived_days < u32::MAX,
        ensures
            final(self)@ == old(self)@.spec_ticked(add_day),
            alive == final(self)@.spec_is_alive(),
    {
        let is_ill = false;
        let in_cold_environment = false;

        let mut life_state = Life::ALIVE;

        let ghost old_needs = self.needs@;

        // Decrease every value by DEFAULT_NEED_DECAY_PER_MINUTE * minutes.
        let mut i: usize = 0;
        while i < needs::NEED_COUNT
            invariant
                i <= 7,
                !is_ill,
                !in_cold_environment,
                self.needs@.len() == 7,
                old_needs.len() == 7,
                forall|k: int| 0 <= k < i ==> self.needs@[k] == spec_decayed_needs(old_needs)[k],
                forall|k: int| i <= k < 7 ==> self.needs@[k] == old_needs[k],
                (life_state == Life::DEAD) == (exists|k: int|
                    0 <= k < i && self.needs@[k] < 1 && needs::spec_need_at(k).spec_fatal()),
                life_state == Life::ALIVE || life_state == Life::DEAD,
                self.id == old(self).id,
                self.name == old(self).name,
                self.gender == old(self).gender,
                self.pregnancy == old(self).pregnancy,
                self.life == old(self).life,
                self.lived_days == old(self).lived_days,
                self.abilities == old(self).abilities,
                self.tasklist == old(self).tasklist,
            decreases 7 - i,
        {
            let need = Need::at(i);
            let mut decay = need.get_default_decay();

            if is_ill {
                // when sick: decay health
                decay += 1;
            }
            if in_cold_environment {
                // when in cold: decay warmth
                decay += 1;
            }

            let value = self.needs[i].saturating_sub(decay);
            assert(value == spec_decayed_needs(old_needs)[i as int]);
            self.needs[i] = value;

            if value < 1 && need.is_fatal() {
                life_state = Life::DEAD;
            }
            i += 1;
        }
        assert(self.needs@ =~= spec_decayed_needs(old_needs));

        if life_state != Life::ALIVE {
            self.life = life_state;
        }

        if add_day {
            self.add_new_day()
        }

        self.is_alive()
    }

    /// Count a new day to the lived days.
    fn add_new_day(&mut self)
        requires
            old(self)@.spec_is_alive() ==> old(self)@.lived_days < u32::MAX,
        ensures
            final(self)@ == old(self)@.spec_new_day(),
    {
        if self.is_alive() {
            self.lived_days += 1;

            let ghost old_abilities = self.abilities@;
            let mut i: usize = 0;
            while i < abilities::ABILITY_COUNT
                invariant
                    i <= 4,
                    self.abilities@.len() == 4,
                    old_abilities.len() == 4,
                    forall|k: int|
                        0 <= k < i ==> self.abilities@[k] == (if old_abilities[k] >= 1 {
                            (old_abilities[k] - 1) as u32
                        } else {
                            0u32
                        }),
                    forall|k: int| i <= k < 4 ==> self.abilities@[k] == old_abilities[k],
                    self.id == old(self).id,
                    self.name == old(self).name,
                    self.gender == old(self).gender,
                    self.pregnancy == old(self).pregnancy,
                    self.life == old(self).life,
                    self.lived_days == old(self).lived_days + 1,
                    self.needs == old(self).needs,
                    self.tasklist == old(self).tasklist,
                decreases 4 - i,
            {
                self.abilities[i] = self.abilities[i].saturating_sub(1);
                i += 1;
            }

            if let Some((other_parent, days)) = self.pregnancy {
                self.pregnancy = Some((other_parent, days.saturating_sub(1)));
            }
            assert(self@.abilities =~= old(self)@.spec_new_day().abilities);
        }
    }

    pub fn get_need(&self, need: Need) -> (value: u32)
        ensures
            value == self@.spec_need(need),
    {
        self.needs[need.index()]
    }

    /// Set the value for a need; returns the value before.
    pub fn set_need(&mut self, need: Need, new_value: u32) -> (previous: u32)
        ensures
            final(self)@ == (WuselModel {
                needs: old(self)@.needs.update(need.spec_index(), new_value),
                ..old(self)@
            }),
            previous == old(self)@.spec_need(need),
    {
        let index = need.index();
        let previous = self.needs[index];
        self.needs[index] = new_value;
        previous
    }

    /// Change the value for a need relatively, not below 0.
    /// @return the new value.
    pub fn set_need_relative(&mut self, need: Need, change_value: i16) -> (value: u32)
        ensures
            value == (if old(self)@.spec_need(need) + change_value < 0 {
                0
            } else {
                old(self)@.spec_need(need) + change_value
            }) as u32,
            final(self)@ == (WuselModel {
                needs: old(self)@.needs.update(need.spec_index(), value),
                ..old(self)@
            }),
    {
        let current: i64 = self.get_need(need) as i64;  // get current value (or default)
        let sum: i64 = current + change_value as i64;
        let changed: i64 = if sum > 0 { sum } else { 0 };
        let value = changed as u32;
        self.set_need(need, value);
        value
    }

    pub fn get_ability(&self, ability: Ability) -> (value: u32)
        ensures
            value == self@.spec_ability(ability),
    {
        self.abilities[ability.index()]
    }

    /// Set the value of an ability; returns the value before.
    pub fn set_ability(&mut self, ability: Ability, new_value: u32) -> (previous: u32)
        ensures
            final(self)@ == (WuselModel {
                abilities: old(self)@.abilities.update(ability.spec_index(), new_value),
                ..old(self)@
            }),
            previous == old(self)@.spec_ability(ability),
    {
        let index = ability.index();
        let previous = self.abilities[index];
        self.abilities[index] = new_value;
        previous
    }

    /// Improve the given ability by one point (not beyond the largest value).
    pub fn improve(&mut self, ability: Ability)
        ensures
            final(self)@ == (WuselModel {
                abilities: old(self)@.abilities.update(
                    ability.spec_index(),
                    if old(self)@.spec_ability(ability) < u32::MAX {
                        (old(self)@.spec_ability(ability) + 1) as u32
                    } else {
                        u32::MAX
                    },
                ),
                ..old(self)@
            }),
    {
        let index = ability.index();
        self.abilities[index] = self.abilities[index].saturating_add(1);
    }
}


/// The list holds a task with the given passive part.
pub open spec fn spec_has_task_with(tasks: Seq<tasks::TaskModel>, task_tag: tasks::TaskTag) -> bool {
    exists|i: int| 0 <= i < tasks.len() && tasks[i].passive_part == task_tag
}

impl Wusel {
    /// The tasks of the wusel.
    pub closed spec fn spec_tasks(&self) -> Seq<tasks::Task> {
        self.tasklist@
    }

    pub fn has_tasklist_empty(&self) -> (empty: bool)
        ensures
            empty == (self@.tasklist.len() == 0),
    {
        self.tasklist.is_empty()
    }

    pub fn get_tasklist_len(&self) -> (length: usize)
        ensures
            length == self@.tasklist.len(),
    {
        self.tasklist.len()
    }

    /// The names of the tasks, in the order of the task list.
    pub fn get_tasklist_names(&self) -> (names: Vec<String>)
        ensures
            names@.len() == self@.tasklist.len(),
            forall|i: int| 0 <= i < names@.len() ==> #[trigger] names@[i]@ == self@.tasklist[i].name,
    {
        let mut names: Vec<String> = Vec::new();
        let mut i: usize = 0;
        while i < self.tasklist.len()
            invariant
                i <= self.tasklist@.len(),
                names@.len() == i,
                forall|k: int| 0 <= k < i ==> #[trigger] names@[k]@ == self.tasklist@[k]@.name,
            decreases self.tasklist@.len() - i,
        {
            names.push(self.tasklist[i].get_name());
            i += 1;
        }
        names
    }

    /// Assign a new task: it is put in front of the task list (the end of the queue).
    pub fn assign_to_task(&mut self, init_time: usize, task_builder: tasks::TaskBuilder)
        ensures
            final(self)@ == (WuselModel {
                tasklist: seq![tasks::TaskModel::spec_assigned(task_builder@, init_time, old(self)@.id)]
                    + old(self)@.tasklist,
                ..old(self)@
            }),
    {
        let task = task_builder.assign(init_time, self);
        self.tasklist.insert(0, task);  // revert queue
        assert(self@.tasklist =~= seq![
            tasks::TaskModel::spec_assigned(task_builder@, init_time, old(self)@.id),
        ] + old(self)@.tasklist);
    }

    /// Move a task to the end of the list, where it is the next one to be done.
    pub fn prioritize_task(&mut self, task_index: usize) -> (moved: bool)
        ensures
            moved == (task_index < old(self)@.tasklist.len()),
            final(self)@ == (if moved {
                WuselModel {
                    tasklist: old(self)@.tasklist.remove(task_index as int).push(
                        old(self)@.tasklist[task_index as int],
                    ),
                    ..old(self)@
                }
            } else {
                old(self)@
            }),
    {
        if task_index < self.tasklist.len() {
            let task = self.tasklist.remove(task_index);
            self.tasklist.push(task);  // push to end (which is next in row)
            assert(self@.tasklist =~= old(self)@.tasklist.remove(task_index as int).push(
                old(self)@.tasklist[task_index as int],
            ));
            true
        } else {
            false
        }
    }

    /// Remove a task from the task list, if there is one at the index.
    pub fn abort_task(&mut self, index: usize)
        ensures
            final(self)@ == (if index < old(self)@.tasklist.len() {
                WuselModel { tasklist: old(self)@.tasklist.remove(index as int), ..old(self)@ }
            } else {
                old(self)@
            }),
    {
        if index < self.tasklist.len() {
            self.tasklist.remove(index);
            assert(self@.tasklist =~= old(self)@.tasklist.remove(index as int));
        }
    }

    /// Check if the task list contains a task with a given passive part.
    pub fn has_task_with(&self, task_tag: &tasks::TaskTag) -> (found: bool)
        ensures
            found == spec_has_task_with(self@.tasklist, *task_tag),
    {
        self.last_task_index_with(task_tag).is_some()
    }

    /// The last index of a task with the given passive part, if any.
    pub fn last_task_index_with(&self, task_tag: &tasks::TaskTag) -> (index: Option<usize>)
        ensures
            match index {
                Some(i) => spec_last_task_index_with(self@.tasklist, *task_tag) == Some(i as int),
                None => spec_last_task_index_with(self@.tasklist, *task_tag) is None,
            },
    {
        let tag = *task_tag;
        let matcher = |task: &tasks::Task| -> (same: bool)
            ensures
                same == (task@.passive_part == tag),
            { task.get_passive_part() == tag };
        let index = self.get_next_task_index_with(&matcher);
        proof {
            let models = self@.tasklist;
            if index.is_none() {
                assert forall|i: int| 0 <= i < models.len() implies models[i].passive_part != tag by {
                    assert(models[i] == self.tasklist@[i]@);
                }
            } else {
                let i = index.unwrap() as int;
                assert(models[i] == self.tasklist@[i]@);
                assert forall|j: int| i < j < models.len() implies models[j].passive_part != tag by {
                    assert(models[j] == self.tasklist@[j]@);
                }
                assert(spec_has_task_with(models, tag));
                let k = choose|k: int|
                    0 <= k < models.len() && models[k].passive_part == tag && forall|j: int|
                        k < j < models.len() ==> models[j].passive_part != tag;
                assert(k == i) by {
                    if k < i {
                        assert(models[i].passive_part != tag);
                    } else if i < k {
                        assert(models[k].passive_part != tag);
                    }
                }
            }
        }
        index
    }

    /// The last index of a task the matcher accepts, if any.
    pub fn get_next_task_index_with<F: Fn(&tasks::Task) -> bool>(&self, task_matcher: &F) -> (index:
        Option<usize>)
        requires
            forall|i: int| 0 <= i < self.spec_tasks().len() ==> task_matcher.requires((&self.spec_tasks()[i],)),
        ensures
            self@.tasklist == spec_task_models(self.spec_tasks()),
            match index {
                Some(i) => {
                    &&& i < self.spec_tasks().len()
                    &&& task_matcher.ensures((&self.spec_tasks()[i as int],), true)
                    &&& forall|j: int|
                        i < j < self.spec_tasks().len() ==> task_matcher.ensures(
                            (&self.spec_tasks()[j],),
                            false,
                        )
                },
                None => forall|j: int|
                    0 <= j < self.spec_tasks().len() ==> task_matcher.ensures((&self.spec_tasks()[j],), false),
            },
    {
        let mut j: usize = self.tasklist.len();
        assert(self.spec_tasks() == self.tasklist@);
        while j > 0
            invariant
                j <= self.spec_tasks().len(),
                forall|i: int| 0 <= i < self.spec_tasks().len() ==> task_matcher.requires((&self.spec_tasks()[i],)),
                forall|k: int|
                    j <= k < self.spec_tasks().len() ==> task_matcher.ensures((&self.spec_tasks()[k],), false),
            decreases j,
        {
            j -= 1;
            if task_matcher(&self.tasklist[j]) {
                return Some(j);
            }
        }
        None
    }

    /// The ongoing task: the last one of the list.
    pub fn peek_ongoing_task(&self) -> (ongoing: Option<&tasks::Task>)
        ensures
            match ongoing {
                Some(task) => self@.tasklist.len() > 0 && task@ == self@.tasklist.last(),
                None => self@.tasklist.len() == 0,
            },
    {
        let length = self.tasklist.len();
        if length > 0 {
            Some(&self.tasklist[length - 1])
        } else {
            None
        }
    }

    /// Start the ongoing task.
    /// This may set the started flag to true, if not yet set and maybe
    /// updates the starting time.
    pub fn start_ongoing_task(&mut self, start_time: usize)
        ensures
            final(self)@ == (if old(self)@.tasklist.len() > 0 && !old(self)@.tasklist.last().started {
                WuselModel {
                    tasklist: old(self)@.tasklist.drop_last().push(
                        tasks::TaskModel {
                            started: true,
                            start_time,
                            ..old(self)@.tasklist.last()
                        },
                    ),
                    ..old(self)@
                }
            } else {
                old(self)@
            }),
    {
        if self.tasklist.len() > 0 {
            let mut task = self.tasklist.pop().unwrap();
            task.start_at(start_time);
            self.tasklist.push(task);
            proof {
                assert(self.tasklist@ =~= old(self).tasklist@.drop_last().push(task));
                if old(self)@.tasklist.last().started {
                    assert(self@.tasklist =~= old(self)@.tasklist);
                } else {
                    assert(self@.tasklist =~= old(self)@.tasklist.drop_last().push(
                        tasks::TaskModel { started: true, start_time, ..old(self)@.tasklist.last() },
                    ));
                }
            }
        }
    }

    /// Notify the ongoing task, that its done steps are increased.
    pub fn increase_ongoing_task_steps(&mut self)
        requires
            old(self)@.tasklist.len() > 0 ==> old(self)@.tasklist.last().done_steps < usize::MAX,
        ensures
            final(self)@ == (if old(self)@.tasklist.len() > 0 {
                WuselModel {
                    tasklist: old(self)@.tasklist.drop_last().push(
                        tasks::TaskModel {
                            done_steps: (old(self)@.tasklist.last().done_steps + 1) as usize,
                            ..old(self)@.tasklist.last()
                        },
                    ),
                    ..old(self)@
                }
            } else {
                old(self)@
            }),
    {
        if self.tasklist.len() > 0 {
            let mut task = self.tasklist.pop().unwrap();
            assert(task@ == old(self)@.tasklist.last());
            task.increase_done_steps();
            self.tasklist.push(task);
            assert(self@.tasklist =~= old(self)@.tasklist.drop_last().push(
                tasks::TaskModel {
                    done_steps: (old(self)@.tasklist.last().done_steps + 1) as usize,
                    ..old(self)@.tasklist.last()
                },
            ));
        }
    }

    /// Drop the ongoing (last) task.
    pub fn pop_ongoing_task(&mut self) -> (task: Option<tasks::Task>)
        ensures
            final(self)@ == (if old(self)@.tasklist.len() > 0 {
                WuselModel { tasklist: old(self)@.tasklist.drop_last(), ..old(self)@ }
            } else {
                old(self)@
            }),
            match task {
                Some(t) => old(self)@.tasklist.len() > 0 && t@ == old(self)@.tasklist.last(),
                None => old(self)@.tasklist.len() == 0,
            },
    {
        let task = self.tasklist.pop();
        assert(self@.tasklist =~= (if old(self)@.tasklist.len() > 0 {
            old(self)@.tasklist.drop_last()
        } else {
            old(self)@.tasklist
        }));
        task
    }

    /// Clean task list.
    /// Remove ongoing tasks if there are no steps left.
    pub fn auto_clean_tasks(&mut self)
        requires
            spec_auto_clean_safe(old(self)@.tasklist),
        ensures
            final(self)@ == (WuselModel {
                tasklist: spec_auto_cleaned(old(self)@.tasklist),
                ..old(self)@
            }),
    {
        loop
            invariant
                spec_auto_clean_safe(self@.tasklist),
                spec_auto_cleaned(self@.tasklist) == spec_auto_cleaned(old(self)@.tasklist),
                self@ == (WuselModel { tasklist: self@.tasklist, ..old(self)@ }),
            ensures
                spec_auto_cleaned(self@.tasklist) == self@.tasklist,
            decreases self.tasklist@.len(),
        {
            let length = self.tasklist.len();
            if length == 0 {
                break;
            }
            let ghost before = self@.tasklist;
            assert(self.tasklist@[length - 1]@ == before.last());
            if self.tasklist[length - 1].get_rest_time() < 1 {
                self.tasklist.pop();
                assert(self@.tasklist =~= before.drop_last());
            } else {
                break;
            }
        }
    }

    pub fn is_pregnant(&self) -> (pregnant: bool)
        ensures
            pregnant == (self@.pregnancy is Some),
    {
        self.pregnancy.is_some()
    }

    /// Set the pregnancy: with remaining days the wusel is pregnant (with an optional
    /// other parent), without remaining days the pregnancy is over.
    pub fn set_pregnancy(&mut self, other_parent_index: Option<WuselId>, remaining_days: Option<u8>)
        ensures
            final(self)@ == (WuselModel {
                pregnancy: match remaining_days {
                    Some(days) => Some((other_parent_index, days)),
                    None => None,
                },
                ..old(self)@
            }),
    {
        if let Some(remaining_days) = remaining_days {
            // other parent can be none, ... divine intervention.
            self.pregnancy = Some((other_parent_index, remaining_days));
        } else {
            // no remaining days unsets the pregnancy.
            self.pregnancy = None;
        }
    }

    pub fn get_other_parent(&self) -> (other_parent: Option<WuselId>)
        ensures
            other_parent == (match self@.pregnancy {
                Some((other, _)) => other,
                None => None,
            }),
    {
        if let Some((other_parent, _)) = self.pregnancy {
            other_parent  // can also be only one parent (self)
        } else {
            None
        }
    }

    pub fn get_remaining_pregnancy_days(&self) -> (days: Option<u8>)
        ensures
            days == (match self@.pregnancy {
                Some((_, days)) => Some(days),
                None => None,
            }),
    {
        if let Some((_, days)) = self.pregnancy {
            Some(days)
        } else {
            None
        }
    }
}


/// Tasks are done first in, first out: a new task goes to the front of the list and does
/// not change the ongoing task (the last one); only a wusel without tasks starts with it.
pub proof fn lemma_new_task_waits(wusel: WuselModel, builder: tasks::TaskBuilderModel, init_time: usize)
    ensures
        wusel.tasklist.len() > 0 ==> wusel.spec_with_task(builder, init_time).spec_ongoing() == wusel.spec_ongoing(),
        wusel.tasklist.len() == 0 ==> wusel.spec_with_task(builder, init_time).spec_ongoing() == Some(
            tasks::TaskModel::spec_assigned(builder, init_time, wusel.id),
        ),
        wusel.spec_with_task(builder, init_time).tasklist.len() == wusel.tasklist.len() + 1,
{
    let after = wusel.spec_with_task(builder, init_time);
    if wusel.tasklist.len() > 0 {
        assert(after.tasklist.last() == wusel.tasklist.last());
    }
}

/// A task moved to the end of the list is the next one to be done; no task is lost.
pub proof fn lemma_prioritized_is_next(wusel: WuselModel, task_index: int)
    requires
        0 <= task_index < wusel.tasklist.len(),
    ensures
        wusel.spec_prioritized(task_index).spec_ongoing() == Some(wusel.tasklist[task_index]),
        wusel.spec_prioritized(task_index).tasklist.len() == wusel.tasklist.len(),
        wusel.spec_prioritized(task_index).tasklist.to_multiset() == wusel.tasklist.to_multiset(),
{
    let before = wusel.tasklist;
    let after = wusel.spec_prioritized(task_index).tasklist;
    assert(after == before.remove(task_index).push(before[task_index]));
    before.to_multiset_ensures();
    before.remove(task_index).to_multiset_ensures();
    assert(after.to_multiset() =~= before.to_multiset().remove(before[task_index]).insert(before[task_index]));
}

/// Needs never rise by the passing of time.
pub proof fn lemma_needs_never_rise(wusel: WuselModel, add_day: bool)
    requires
        wusel.wf(),
    ensures
        wusel.spec_ticked(add_day).needs.len() == wusel.needs.len(),
        forall|i: int| 0 <= i < wusel.needs.len() ==> #[trigger] wusel.spec_ticked(add_day).needs[i] <= wusel.needs[i],
{
}

/// A wusel that does not live anymore does not come back to life by the passing of time.
pub proof fn lemma_dead_stay_dead(wusel: WuselModel, add_day: bool)
    ensures
        !wusel.spec_is_alive() ==> !wusel.spec_ticked(add_day).spec_is_alive(),
        wusel.life == Life::DEAD ==> wusel.spec_ticked(add_day).life == Life::DEAD,
{
}

/// A change of a relation is undone by the opposite change.
pub proof fn lemma_relation_update_undone(
    relation: relations::RelationModel,
    relation_type: RelationType,
    change: i32,
)
    requires
        relation.can_update(relation_type, change),
        -i32::MAX <= change,
    ensures
        relation.spec_update(relation_type, change).can_update(relation_type, (-change) as i32),
        relation.spec_update(relation_type, change).spec_update(relation_type, (-change) as i32) == relation,
{
}

} // verus!
