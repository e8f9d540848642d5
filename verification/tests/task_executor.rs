use arkavo_protocol::task_executor::{
    invalid_transition_message, status_change, status_label, StatusChange, TaskExecutorConfig,
};
use arkavo_protocol::task_status::is_valid_transition;
use arkavo_protocol::task_status::TaskStatus::{
    AuthRequired, Canceled, Completed, Failed, InputRequired, Submitted, Working,
};
use arkavo_protocol::task_status::TaskStatus;

#[test]
fn test_valid_transitions() {
    assert!(is_valid_transition(Submitted, Working));
    assert!(is_valid_transition(Working, Completed));
    assert!(is_valid_transition(Working, Failed));
    assert!(is_valid_transition(InputRequired, Working));

    assert!(!is_valid_transition(Completed, Working));
    assert!(!is_valid_transition(Failed, Completed));
}

#[test]
fn executor_config_defaults() {
    let c = TaskExecutorConfig::default();
    assert_eq!(c.max_concurrent_tasks, 10);
    assert_eq!(c.task_timeout_seconds, 300);
    assert_eq!(c.poll_interval_ms, 1000);
}

#[test]
fn status_change_decisions() {
    assert_eq!(status_change(Working, Working), StatusChange::Unchanged);
    assert_eq!(status_change(Completed, Working), StatusChange::Invalid);
    assert_eq!(status_change(Submitted, Working), StatusChange::Apply { finished: false });
    assert_eq!(status_change(Working, Completed), StatusChange::Apply { finished: true });
    assert_eq!(status_change(Working, Canceled), StatusChange::Apply { finished: true });
    assert_eq!(status_change(Completed, AuthRequired), StatusChange::Apply { finished: false });
}

#[test]
fn invalid_transition_text() {
    let m = invalid_transition_message(TaskStatus::Completed, TaskStatus::Working);
    assert_eq!(m, "Invalid status transition from Completed to Working");
}

#[test]
fn status_labels_are_lower_case_names() {
    assert_eq!(status_label(TaskStatus::InputRequired), "inputrequired");
    assert_eq!(status_label(TaskStatus::AuthRequired), "authrequired");
    assert_eq!(status_label(TaskStatus::Submitted), "submitted");
}

#[test]
fn tasks_to_start_fills_free_slots() {
    let c = TaskExecutorConfig::default();
    assert_eq!(c.tasks_to_start(3, 0), 3);
    assert_eq!(c.tasks_to_start(20, 4), 6);
    assert_eq!(c.tasks_to_start(20, 10), 0);
    assert_eq!(c.tasks_to_start(20, 15), 0);
}

#[test]
fn timeout_decision_and_error() {
    let c = TaskExecutorConfig::default();
    assert!(!c.timed_out(300));
    assert!(c.timed_out(301));
    assert!(!c.timed_out(0));
    // A clock that went backwards reads as a huge elapsed time.
    assert!(c.timed_out(-1));
    let e = c.timeout_error();
    assert_eq!(e.code, "TIMEOUT");
    assert_eq!(e.message, "Task timed out after 300 seconds");
    assert!(e.details.is_none());
}
