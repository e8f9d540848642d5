//! Task lifecycle states and the transitions allowed between them.

use vstd::prelude::*;

verus! {

/// Where a task is in its lifecycle.
#[derive(Debug, Clone, Copy, PartialEq, Eq, Structural, Hash)]
pub enum TaskStatus {
    Submitted,
    Working,
    InputRequired,
    Completed,
    Canceled,
    Failed,
    Rejected,
    AuthRequired,
}

pub open spec fn valid_transition_spec(from: TaskStatus, to: TaskStatus) -> bool {
    ||| (from == TaskStatus::Submitted || from == TaskStatus::InputRequired) && to == TaskStatus::Working
    ||| from == TaskStatus::Submitted && (to == TaskStatus::Rejected || to == TaskStatus::Canceled)
    ||| from == TaskStatus::Working && (to == TaskStatus::Completed || to == TaskStatus::Failed || to
        == TaskStatus::Canceled || to == TaskStatus::InputRequired)
    ||| from == TaskStatus::InputRequired && (to == TaskStatus::Canceled || to == TaskStatus::Failed)
    ||| to == TaskStatus::AuthRequired
}

/// Whether a task may move from `from` to `to`.
pub fn is_valid_transition(from: TaskStatus, to: TaskStatus) -> (r: bool)
    ensures
        r == valid_transition_spec(from, to),
{
    match (from, to) {
        (TaskStatus::Submitted, TaskStatus::Working) => true,
        (TaskStatus::InputRequired, TaskStatus::Working) => true,
        (TaskStatus::Submitted, TaskStatus::Rejected) => true,
        (TaskStatus::Submitted, TaskStatus::Canceled) => true,
        (TaskStatus::Working, TaskStatus::Completed) => true,
        (TaskStatus::Working, TaskStatus::Failed) => true,
        (TaskStatus::Working, TaskStatus::Canceled) => true,
        (TaskStatus::Working, TaskStatus::InputRequired) => true,
        (TaskStatus::InputRequired, TaskStatus::Canceled) => true,
        (TaskStatus::InputRequired, TaskStatus::Failed) => true,
        (_, TaskStatus::AuthRequired) => true,
        _ => false,
    }
}

/// Whether a task in this state is finished: completed, failed or canceled.
pub open spec fn is_terminal(s: TaskStatus) -> bool {
    s == TaskStatus::Completed || s == TaskStatus::Failed || s == TaskStatus::Canceled
}

/// A finished task only ever leaves its state to ask for authentication.
pub proof fn lemma_terminal_states_stay(from: TaskStatus, to: TaskStatus)
    requires
        is_terminal(from),
        valid_transition_spec(from, to),
    ensures
        to == TaskStatus::AuthRequired,
{
}

} // verus!
