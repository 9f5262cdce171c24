use super::status::Status;
use super::timestamp::{utc_now, Timestamp};
use vstd::prelude::*;

verus! {

/// Identifier of a task, unique within a store.
pub type TaskId = usize;

/// What a task is: its identity, text, status and the two instants of its
/// bookkeeping.
pub ghost struct TaskView {
    pub id: nat,
    pub description: Seq<char>,
    pub status: Status,
    pub created_at: Timestamp,
    pub updated_at: Timestamp,
}

impl TaskView {
    /// A task as it is at its creation.
    pub open spec fn created(id: nat, description: Seq<char>, at: Timestamp) -> TaskView {
        TaskView { id, description, status: Status::ToDo, created_at: at, updated_at: at }
    }

    /// The task after its description was replaced at instant `at`.
    pub open spec fn with_description(self, description: Seq<char>, at: Timestamp) -> TaskView {
        TaskView { description, updated_at: at, ..self }
    }

    /// The task after its status was replaced at instant `at`.
    pub open spec fn with_status(self, status: Status, at: Timestamp) -> TaskView {
        TaskView { status, updated_at: at, ..self }
    }

    /// The last change is not dated before the creation.
    pub open spec fn well_ordered(self) -> bool {
        !self.updated_at.before(self.created_at)
    }

    /// The task has not been changed since it was created.
    pub open spec fn untouched(self) -> bool {
        self.updated_at == self.created_at
    }
}

/// A task is created untouched, with its timestamps in order. A change dated
/// no earlier than the last one keeps them in order and leaves the creation
/// date alone; one dated after the creation leaves the task touched.
pub proof fn law_timestamps_stay_ordered(
    task: TaskView,
    description: Seq<char>,
    status: Status,
    at: Timestamp,
)
    ensures
        TaskView::created(task.id, description, at).well_ordered(),
        TaskView::created(task.id, description, at).untouched(),
        task.with_description(description, at).created_at == task.created_at,
        task.with_status(status, at).created_at == task.created_at,
        task.well_ordered() && !at.before(task.updated_at) ==> task.with_description(
            description,
            at,
        ).well_ordered() && task.with_status(status, at).well_ordered(),
        task.created_at.before(at) ==> !task.with_description(description, at).untouched()
            && !task.with_status(status, at).untouched(),
{
}

/// One tracked to-do item.
#[derive(Debug)]
pub struct Task {
    id: TaskId,
    description: String,
    status: Status,
    created_at: Timestamp,
    updated_at: Timestamp,
}

impl View for Task {
    type V = TaskView;

    closed spec fn view(&self) -> TaskView {
        TaskView {
            id: self.id as nat,
            description: self.description@,
            status: self.status,
            created_at: self.created_at,
            updated_at: self.updated_at,
        }
    }
}

impl Task {
    /// Creates a task dated by the wall clock. Whatever the clock reads, both
    /// timestamps of the new task are that one reading.
    pub fn new(id: TaskId, description: String) -> (task: Task)
        ensures
            task@ == TaskView::created(id as nat, description@, task@.created_at),
    {
        let at = utc_now();
        Task::new_at(id, description, at)
    }

    /// Creates a task dated `at`.
    pub fn new_at(id: TaskId, description: String, at: Timestamp) -> (task: Task)
        ensures
            task@ == TaskView::created(id as nat, description@, at),
    {
        Task { id, description, status: Status::ToDo, created_at: at, updated_at: at }
    }

    /// Rebuilds a task from its five fields, as they were recorded.
    pub fn from_parts(
        id: TaskId,
        description: String,
        status: Status,
        created_at: Timestamp,
        updated_at: Timestamp,
    ) -> (task: Task)
        ensures
            task@ == (TaskView {
                id: id as nat,
                description: description@,
                status,
                created_at,
                updated_at,
            }),
    {
        Task { id, description, status, created_at, updated_at }
    }

    pub fn id(&self) -> (id: TaskId)
        ensures
            id as nat == self@.id,
    {
        self.id
    }

    pub fn description(&self) -> (description: &String)
        ensures
            description@ == self@.description,
    {
        &self.description
    }

    pub fn status(&self) -> (status: &Status)
        ensures
            *status == self@.status,
    {
        &self.status
    }

    pub fn created_at(&self) -> (at: Timestamp)
        ensures
            at == self@.created_at,
    {
        self.created_at
    }

    pub fn updated_at(&self) -> (at: Timestamp)
        ensures
            at == self@.updated_at,
    {
        self.updated_at
    }

    /// Replaces the description and dates the change by the wall clock.
    pub fn set_description(&mut self, description: String)
        ensures
            final(self)@ == old(self)@.with_description(description@, final(self)@.updated_at),
    {
        let at = utc_now();
        self.set_description_at(description, at);
    }

    /// Replaces the description and dates the change `at`.
    pub fn set_description_at(&mut self, description: String, at: Timestamp)
        ensures
            final(self)@ == old(self)@.with_description(description@, at),
    {
        self.description = description;
        self.updated_at = at;
    }

    /// Replaces the status and dates the change by the wall clock.
    pub fn set_status(&mut self, status: Status)
        ensures
            final(self)@ == old(self)@.with_status(status, final(self)@.updated_at),
    {
        let at = utc_now();
        self.set_status_at(status, at);
    }

    /// Replaces the status and dates the change `at`.
    pub fn set_status_at(&mut self, status: Status, at: Timestamp)
        ensures
            final(self)@ == old(self)@.with_status(status, at),
    {
        self.status = status;
        self.updated_at = at;
    }
}

} // verus!
