use super::status::Status;
use super::task::TaskId;
use vstd::prelude::*;

verus! {

/// One request to the task tracker.
#[derive(Debug)]
pub enum Command {
    Add(String),
    Update(TaskId, String),
    Delete(TaskId),
    MarkInProgress(TaskId),
    MarkDone(TaskId),
    List(Option<Status>),
}

/// What a command asks for, with its texts as sequences of characters.
pub ghost enum CommandView {
    Add(Seq<char>),
    Update(nat, Seq<char>),
    Delete(nat),
    MarkInProgress(nat),
    MarkDone(nat),
    List(Option<Status>),
}

impl View for Command {
    type V = CommandView;

    open spec fn view(&self) -> CommandView {
        match self {
            Command::Add(description) => CommandView::Add(description@),
            Command::Update(id, description) => CommandView::Update(*id as nat, description@),
            Command::Delete(id) => CommandView::Delete(*id as nat),
            Command::MarkInProgress(id) => CommandView::MarkInProgress(*id as nat),
            Command::MarkDone(id) => CommandView::MarkDone(*id as nat),
            Command::List(status) => CommandView::List(*status),
        }
    }
}

impl CommandView {
    /// Whether the command is one that changes the store. Such a command
    /// ends with writing the whole store back, also where it found no task
    /// to work on; a listing never writes.
    pub open spec fn mutates(self) -> bool {
        !(self is List)
    }
}

impl Command {
    /// Whether the store has to be written back once the command is carried
    /// out: after every command but a listing, whether or not the task it
    /// names was found.
    pub fn mutates(&self) -> (writes: bool)
        ensures
            writes == self@.mutates(),
    {
        match self {
            Command::List(_) => false,
            _ => true,
        }
    }
}

} // verus!
