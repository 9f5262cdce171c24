use vstd::prelude::*;

verus! {

/// Lifecycle tag of a task. Every status is reachable from every other one.
#[derive(Debug, PartialEq, Eq, Clone, Copy, Structural)]
pub enum Status {
    Done,
    ToDo,
    InProgress,
}

impl Status {
    /// The human-readable label of a status.
    pub open spec fn spec_label(self) -> Seq<char> {
        match self {
            Status::Done => "Done"@,
            Status::ToDo => "ToDo"@,
            Status::InProgress => "In Progress"@,
        }
    }

    /// Renders the status as the label shown to the user.
    pub fn label(&self) -> (text: String)
        ensures
            text@ == self.spec_label(),
    {
        match self {
            Status::Done => "Done".to_owned(),
            Status::ToDo => "ToDo".to_owned(),
            Status::InProgress => "In Progress".to_owned(),
        }
    }
}

} // verus!
