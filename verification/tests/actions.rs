use resources_core::action::{
    count_successful, next_step, resolve_action, start_action, ActionError, ActionStep,
    AttemptKind, ProcessAction,
};

/// The closed action set maps exhaustively to the helper's argument names.
#[test]
fn action_names() {
    assert_eq!(ProcessAction::TERM.action_name(), "TERM");
    assert_eq!(ProcessAction::STOP.action_name(), "STOP");
    assert_eq!(ProcessAction::KILL.action_name(), "KILL");
    assert_eq!(ProcessAction::CONT.action_name(), "CONT");
}

/// A delivery begins with one unprivileged helper run.
#[test]
fn delivery_starts_unprivileged() {
    assert_eq!(start_action(), ActionStep::Run(AttemptKind::Unprivileged));
}

/// Exit code 0 is success.
#[test]
fn exit_zero_succeeds() {
    assert_eq!(
        next_step(AttemptKind::Unprivileged, Some(0)),
        ActionStep::Done(Ok(()))
    );
    assert_eq!(resolve_action(Some(0), None), Ok(()));
}

/// Terminating a pid that no longer exists (exit code 3) is idempotent
/// success, not an error.
#[test]
fn exit_three_is_idempotent_success() {
    assert_eq!(
        next_step(AttemptKind::Unprivileged, Some(3)),
        ActionStep::Done(Ok(()))
    );
    assert_eq!(
        next_step(AttemptKind::Escalated, Some(3)),
        ActionStep::Done(Ok(()))
    );
    assert_eq!(resolve_action(Some(3), None), Ok(()));
}

/// Exit code 1 triggers exactly one escalated retry: the unprivileged step
/// asks for the escalated run, and the escalated step never asks for a
/// third run whatever it reports.
#[test]
fn exit_one_escalates_exactly_once() {
    let first = next_step(AttemptKind::Unprivileged, Some(1));
    assert_eq!(first, ActionStep::Run(AttemptKind::Escalated));
    let outcomes: [Option<i32>; 5] = [Some(0), Some(1), Some(3), Some(7), None];
    let mut runs_requested = 0;
    for outcome in outcomes {
        match next_step(AttemptKind::Escalated, outcome) {
            ActionStep::Run(_) => runs_requested += 1,
            ActionStep::Done(_) => {}
        }
    }
    assert_eq!(runs_requested, 0);
}

/// When the escalated run still reports exit code 1, the final error is
/// surfaced as a permission failure; there is no further retry.
#[test]
fn escalation_failure_is_surfaced() {
    assert_eq!(
        next_step(AttemptKind::Escalated, Some(1)),
        ActionStep::Done(Err(ActionError::PermissionDenied))
    );
    assert_eq!(
        resolve_action(Some(1), Some(1)),
        Err(ActionError::PermissionDenied)
    );
    assert_eq!(resolve_action(Some(1), Some(7)), Err(ActionError::Unknown(7)));
    assert_eq!(resolve_action(Some(1), Some(0)), Ok(()));
    assert_eq!(resolve_action(Some(1), Some(3)), Ok(()));
}

/// Any exit code outside the documented set is an unknown failure.
#[test]
fn unknown_exit_code_is_an_error() {
    assert_eq!(
        next_step(AttemptKind::Unprivileged, Some(42)),
        ActionStep::Done(Err(ActionError::Unknown(42)))
    );
    assert_eq!(resolve_action(Some(42), None), Err(ActionError::Unknown(42)));
}

/// A helper that cannot be launched or reports no exit code fails the
/// delivery with a launch error.
#[test]
fn missing_exit_code_is_a_launch_error() {
    assert_eq!(resolve_action(None, None), Err(ActionError::Launch));
    assert_eq!(resolve_action(Some(1), None), Err(ActionError::Launch));
}

/// Callers derive success and failure counts from the per-pid outcomes.
#[test]
fn counting_outcomes() {
    let results: Vec<Result<(), ActionError>> = vec![
        Ok(()),
        Err(ActionError::PermissionDenied),
        Ok(()),
        Err(ActionError::Unknown(9)),
    ];
    assert_eq!(count_successful(&results), 2);
    assert_eq!(results.len() - count_successful(&results), 2);
    let empty: Vec<Result<(), ActionError>> = Vec::new();
    assert_eq!(count_successful(&empty), 0);
}
