//! # Tasks
//!
//! Module to manage and create tasks.

use vstd::prelude::*;

use crate::life::areas;
use crate::life::objects;
use crate::life::wusels;
use crate::text;

verus! {

/// Id Type of an Action
pub type ActionId = usize;

/// Type for a Core Task
///
/// Such as social interactions, object interactions or walking situations.
/// Also for just very tasks such as waiting or reading.
#[derive(Debug, Clone, Copy, PartialEq, Eq, Structural)]
pub enum TaskTag {
    WaitLike,
    MoveToPos(areas::Position),
    /// object_id, and action_id
    UseObject(objects::ObjectId, ActionId),
    /// commute with another wusel (ID), friendly, romantically
    MeetWith(wusels::WuselId, bool, bool),
    /// be met by another wusel (ID)
    BeMetFrom(wusels::WuselId),
}

/// TaskBuilder, to create a Task for a Wusel.
/// Name, Target, duration and conditions are set with the builder.
#[derive(Debug, Clone)]
pub struct TaskBuilder {
    name: String,
    duration: usize,
    passive_part: TaskTag,
}

/// The mathematical model of a task builder.
pub struct TaskBuilderModel {
    pub name: Seq<char>,
    pub duration: usize,
    pub passive_part: TaskTag,
}

impl View for TaskBuilder {
    type V = TaskBuilderModel;

    closed spec fn view(&self) -> TaskBuilderModel {
        TaskBuilderModel { name: self.name@, duration: self.duration, passive_part: self.passive_part }
    }
}

/// The name of a task that uses an object: `Use[action] Object[object]`.
pub open spec fn spec_use_object_name(object_id: objects::ObjectId, action_id: ActionId) -> Seq<char> {
    "Use["@ + text::spec_decimal(action_id as nat) + "] Object["@ + text::spec_decimal(
        object_id as nat,
    ) + "]"@
}

impl TaskBuilder {
    /// Create a new Task Builder.
    pub fn new(name: String) -> (builder: Self)
        ensures
            builder@ == (TaskBuilderModel { name: name@, duration: 0, passive_part: TaskTag::WaitLike }),
    {
        Self { name, duration: 0, passive_part: TaskTag::WaitLike }
    }

    /// Create a new Task Builder, preset for moving.
    pub fn move_to(pos: areas::Position) -> (builder: Self)
        ensures
            builder@ == (TaskBuilderModel {
                name: "Moving"@,
                duration: 1,
                passive_part: TaskTag::MoveToPos(pos),
            }),
    {
        Self { name: String::from_str("Moving"), duration: 1, passive_part: TaskTag::MoveToPos(pos) }
    }

    /// Create a new Task Builder, preset for meeting.
    pub fn meet_with(passive: wusels::WuselId, friendly: bool, romantically: bool) -> (builder: Self)
        ensures
            builder@ == (TaskBuilderModel {
                name: "Meeting"@,
                duration: 1,
                passive_part: TaskTag::MeetWith(passive, friendly, romantically),
            }),
    {
        Self {
            name: String::from_str("Meeting"),
            duration: 1,
            passive_part: TaskTag::MeetWith(passive, friendly, romantically),
        }
    }

    /// Create a new Task Builder, preset for working on a workbench.
    pub fn use_object(object_id: objects::ObjectId, action_id: ActionId) -> (builder: Self)
        ensures
            builder@ == (TaskBuilderModel {
                name: spec_use_object_name(object_id, action_id),
                duration: 1,
                passive_part: TaskTag::UseObject(object_id, action_id),
            }),
    {
        let mut name = String::from_str("Use[");
        name.append(text::format_usize(action_id).as_str());
        name.append("] Object[");
        name.append(text::format_usize(object_id).as_str());
        name.append("]");
        Self { name, duration: 1, passive_part: TaskTag::UseObject(object_id, action_id) }
    }

    /// Create a new Task Builder, preset for being met.
    pub fn be_met_from(active: wusels::WuselId) -> (builder: Self)
        ensures
            builder@ == (TaskBuilderModel {
                name: "Being Met"@,
                duration: 1,
                passive_part: TaskTag::BeMetFrom(active),
            }),
    {
        Self { name: String::from_str("Being Met"), duration: 1, passive_part: TaskTag::BeMetFrom(active) }
    }

    /// Get the name of the future task or all then created tasks.
    pub fn get_name(&self) -> (name: String)
        ensures
            name@ == self@.name,
    {
        self.name.clone()
    }

    /// Get the duration of the future task or all then created tasks.
    pub fn get_duration(&self) -> (duration: usize)
        ensures
            duration == self@.duration,
    {
        self.duration
    }

    /// Rename the task builder in the Task Builder.
    pub fn set_name(self, name: String) -> (builder: Self)
        ensures
            builder@ == (TaskBuilderModel { name: name@, ..self@ }),
    {
        let mut builder = self;
        builder.name = name;
        builder
    }

    /// Set the duration in the Task Builder.
    pub fn set_duration(self, time: usize) -> (builder: Self)
        ensures
            builder@ == (TaskBuilderModel { duration: time, ..self@ }),
    {
        let mut builder = self;
        builder.duration = time;
        builder
    }

    /// Set the passive part in the Task Builder.
    pub fn set_passive_part(self, passive: TaskTag) -> (builder: Self)
        ensures
            builder@ == (TaskBuilderModel { passive_part: passive, ..self@ }),
    {
        let mut builder = self;
        builder.passive_part = passive;
        builder
    }

    /// Create a new Task from the builder for the requesting actor.
    pub fn assign(self, start_time: usize, actor: &wusels::Wusel) -> (task: Task)
        ensures
            task@ == TaskModel::spec_assigned(self@, start_time, actor@.id),
    {
        Task {
            name: self.name,
            started: false,
            start_time,
            duration: self.duration,
            done_steps: 0,
            active_actor_id: actor.get_id(),
            passive_part: self.passive_part,
        }
    }
}

/// Task, a Wusel can do.
///
/// A task can contain multiple steps. The struct also is stateful and
/// keeps track of its progress.
pub struct Task {
    name: String,
    started: bool,
    start_time: usize,
    duration: usize,
    done_steps: usize,
    active_actor_id: wusels::WuselId,
    passive_part: TaskTag,
}

/// The mathematical model of a task.
pub struct TaskModel {
    pub name: Seq<char>,
    pub started: bool,
    pub start_time: usize,
    pub duration: usize,
    pub done_steps: usize,
    pub active_actor_id: wusels::WuselId,
    pub passive_part: TaskTag,
}

impl View for Task {
    type V = TaskModel;

    closed spec fn view(&self) -> TaskModel {
        TaskModel {
            name: self.name@,
            started: self.started,
            start_time: self.start_time,
            duration: self.duration,
            done_steps: self.done_steps,
            active_actor_id: self.active_actor_id,
            passive_part: self.passive_part,
        }
    }
}

impl TaskModel {
    /// The task a builder creates for an actor at a time.
    pub open spec fn spec_assigned(builder: TaskBuilderModel, start_time: usize, actor: wusels::WuselId) -> TaskModel {
        TaskModel {
            name: builder.name,
            started: false,
            start_time,
            duration: builder.duration,
            done_steps: 0,
            active_actor_id: actor,
            passive_part: builder.passive_part,
        }
    }

    /// The steps the task still needs.
    pub open spec fn spec_rest_time(self) -> int {
        self.duration - self.done_steps
    }
}

impl Clone for Task {
    fn clone(&self) -> (task: Self)
        ensures
            task@ == self@,
    {
        Task {
            name: self.name.clone(),
            started: self.started,
            start_time: self.start_time,
            duration: self.duration,
            done_steps: self.done_steps,
            active_actor_id: self.active_actor_id,
            passive_part: self.passive_part,
        }
    }
}

impl Task {
    /// How long the actor waits for the other to be met.
    pub const PATIENCE_TO_MEET: usize = 20;

    /// Get the approximate rest time (in ticks) the task still needs.
    pub fn get_rest_time(&self) -> (rest: usize)
        requires
            self@.done_steps <= self@.duration,
        ensures
            rest == self@.spec_rest_time(),
    {
        self.duration - self.done_steps
    }

    pub fn get_name(&self) -> (name: String)
        ensures
            name@ == self@.name,
    {
        self.name.clone()
    }

    pub fn has_started(&self) -> (started: bool)
        ensures
            started == self@.started,
    {
        self.started
    }

    pub fn get_start_time(&self) -> (start_time: usize)
        ensures
            start_time == self@.start_time,
    {
        self.start_time
    }

    /// Start the task at the given time, unless it has been started before.
    pub fn start_at(&mut self, time: usize) -> (started_now: bool)
        ensures
            started_now == !old(self)@.started,
            final(self)@ == (if old(self)@.started {
                old(self)@
            } else {
                TaskModel { started: true, start_time: time, ..old(self)@ }
            }),
    {
        if self.started {
            false
        } else {
            self.start_time = time;
            self.started = true;
            true
        }
    }

    pub fn get_duration(&self) -> (duration: usize)
        ensures
            duration == self@.duration,
    {
        self.duration
    }

    pub fn get_done_steps(&self) -> (done_steps: usize)
        ensures
            done_steps == self@.done_steps,
    {
        self.done_steps
    }

    pub fn increase_done_steps(&mut self) -> (done_steps: usize)
        requires
            old(self)@.done_steps < usize::MAX,
        ensures
            final(self)@ == (TaskModel { done_steps: (old(self)@.done_steps + 1) as usize, ..old(self)@ }),
            done_steps == final(self)@.done_steps,
    {
        self.done_steps += 1;
        self.done_steps
    }

    pub fn get_active_actor_id(&self) -> (actor: usize)
        ensures
            actor == self@.active_actor_id,
    {
        self.active_actor_id
    }

    pub fn get_passive_part(&self) -> (passive_part: TaskTag)
        ensures
            passive_part == self@.passive_part,
    {
        self.passive_part
    }
}

/// Relation between the usage of an object and wusel needs:
/// the object, the action, a name and the changes of the needs.
pub type ActionAffect = (objects::ObjectId, usize, &'static str, Vec<(wusels::needs::Need, i16)>);

} // verus!
