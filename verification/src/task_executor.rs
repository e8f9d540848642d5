//! Decisions of the task executor: which status changes are applied, how
//! many submitted tasks start, and when a working task has timed out.

use vstd::prelude::*;

use crate::strings::{concat3, decimal, owned, u64_to_decimal};
use crate::task_status::{is_terminal, is_valid_transition, valid_transition_spec, TaskStatus};

verus! {

/// Task executor configuration.
#[derive(Debug, Clone, PartialEq, Eq)]
pub struct TaskExecutorConfig {
    /// Maximum number of concurrent tasks.
    pub max_concurrent_tasks: usize,
    /// Task timeout in seconds.
    pub task_timeout_seconds: u64,
    /// Interval for checking pending tasks.
    pub poll_interval_ms: u64,
}

impl Default for TaskExecutorConfig {
    fn default() -> (c: Self)
        ensures
            c.max_concurrent_tasks == 10,
            c.task_timeout_seconds == 300,
            c.poll_interval_ms == 1000,
    {
        TaskExecutorConfig { max_concurrent_tasks: 10, task_timeout_seconds: 300, poll_interval_ms: 1000 }
    }
}

/// Why a task failed.
#[derive(Debug, Clone)]
pub struct TaskError {
    pub code: String,
    pub message: String,
    pub details: Option<serde_json::Value>,
}

/// What a status update does.
#[derive(Debug, Clone, Copy, PartialEq, Eq, Structural)]
pub enum StatusChange {
    /// The task is already in that status.
    Unchanged,
    /// The transition is not allowed.
    Invalid,
    /// The transition is applied; `finished` when the task is now
    /// completed, failed or canceled and its run time is recorded.
    Apply { finished: bool },
}

pub open spec fn status_change_spec(old: TaskStatus, new: TaskStatus) -> StatusChange {
    if old == new {
        StatusChange::Unchanged
    } else if !valid_transition_spec(old, new) {
        StatusChange::Invalid
    } else {
        StatusChange::Apply { finished: is_terminal(new) }
    }
}

/// Decide a status update of a task from `old` to `new`.
pub fn status_change(old: TaskStatus, new: TaskStatus) -> (r: StatusChange)
    ensures
        r == status_change_spec(old, new),
{
    if old == new {
        StatusChange::Unchanged
    } else if !is_valid_transition(old, new) {
        StatusChange::Invalid
    } else {
        StatusChange::Apply {
            finished: new == TaskStatus::Completed || new == TaskStatus::Failed || new == TaskStatus::Canceled,
        }
    }
}

/// The variant name of a status.
pub open spec fn status_name(s: TaskStatus) -> Seq<char> {
    match s {
        TaskStatus::Submitted => "Submitted"@,
        TaskStatus::Working => "Working"@,
        TaskStatus::InputRequired => "InputRequired"@,
        TaskStatus::Completed => "Completed"@,
        TaskStatus::Canceled => "Canceled"@,
        TaskStatus::Failed => "Failed"@,
        TaskStatus::Rejected => "Rejected"@,
        TaskStatus::AuthRequired => "AuthRequired"@,
    }
}

/// The metrics label of a status: its name in lower case.
pub open spec fn status_label_spec(s: TaskStatus) -> Seq<char> {
    match s {
        TaskStatus::Submitted => "submitted"@,
        TaskStatus::Working => "working"@,
        TaskStatus::InputRequired => "inputrequired"@,
        TaskStatus::Completed => "completed"@,
        TaskStatus::Canceled => "canceled"@,
        TaskStatus::Failed => "failed"@,
        TaskStatus::Rejected => "rejected"@,
        TaskStatus::AuthRequired => "authrequired"@,
    }
}

fn status_name_str(s: TaskStatus) -> (r: &'static str)
    ensures
        r@ == status_name(s),
{
    match s {
        TaskStatus::Submitted => "Submitted",
        TaskStatus::Working => "Working",
        TaskStatus::InputRequired => "InputRequired",
        TaskStatus::Completed => "Completed",
        TaskStatus::Canceled => "Canceled",
        TaskStatus::Failed => "Failed",
        TaskStatus::Rejected => "Rejected",
        TaskStatus::AuthRequired => "AuthRequired",
    }
}

/// The metrics label of a status.
pub fn status_label(s: TaskStatus) -> (r: &'static str)
    ensures
        r@ == status_label_spec(s),
{
    match s {
        TaskStatus::Submitted => "submitted",
        TaskStatus::Working => "working",
        TaskStatus::InputRequired => "inputrequired",
        TaskStatus::Completed => "completed",
        TaskStatus::Canceled => "canceled",
        TaskStatus::Failed => "failed",
        TaskStatus::Rejected => "rejected",
        TaskStatus::AuthRequired => "authrequired",
    }
}

/// The error text of a refused transition.
pub fn invalid_transition_message(old: TaskStatus, new: TaskStatus) -> (r: String)
    ensures
        r@ == "Invalid status transition from "@ + status_name(old) + " to "@ + status_name(new),
{
    let m = concat3("Invalid status transition from ", status_name_str(old), " to ");
    m.concat(status_name_str(new))
}

impl TaskExecutorConfig {
    /// How many submitted tasks start in one round while `working` run:
    /// the free slots, at most all of the submitted ones.
    pub fn tasks_to_start(&self, submitted: usize, working: usize) -> (n: usize)
        ensures
            n == if working >= self.max_concurrent_tasks {
                0
            } else if submitted < self.max_concurrent_tasks - working {
                submitted as int
            } else {
                self.max_concurrent_tasks - working
            },
    {
        let slots = self.max_concurrent_tasks.saturating_sub(working);
        if submitted < slots {
            submitted
        } else {
            slots
        }
    }

    /// Whether a working task untouched for `elapsed_seconds` has timed
    /// out. The elapsed time is read as unsigned, so a clock that went
    /// backwards reads as a very long wait.
    pub fn timed_out(&self, elapsed_seconds: i64) -> (r: bool)
        ensures
            r == (if elapsed_seconds >= 0 {
                elapsed_seconds as int
            } else {
                elapsed_seconds + 0x1_0000_0000_0000_0000
            } > self.task_timeout_seconds),
    {
        if elapsed_seconds >= 0 {
            (elapsed_seconds as u64) > self.task_timeout_seconds
        } else {
            let magnitude: u64 = ((-(elapsed_seconds + 1)) as u64) + 1;
            let wrapped: u64 = (0xffff_ffff_ffff_ffffu64 - magnitude) + 1;
            wrapped > self.task_timeout_seconds
        }
    }

    /// The error a timed-out task fails with.
    pub fn timeout_error(&self) -> (e: TaskError)
        ensures
            e.code@ == "TIMEOUT"@,
            e.message@ == "Task timed out after "@ + decimal(self.task_timeout_seconds as nat) + " seconds"@,
            e.details is None,
    {
        let secs = u64_to_decimal(self.task_timeout_seconds);
        TaskError { code: owned("TIMEOUT"), message: concat3("Task timed out after ", secs.as_str(), " seconds"), details: None }
    }
}

} // verus!
