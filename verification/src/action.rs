//! Lifecycle actions and the exit-code policy of the privileged helper.
//!
//! An action is delivered to one process by running a one-shot helper binary
//! with the action name and the pid as arguments. The helper's exit code is
//! interpreted as follows: 0 means success; 3 also means success (the process
//! was already gone, which is acceptable because it may have been reaped as a
//! side effect of terminating its parent); 1 means insufficient privilege and
//! triggers exactly one escalated retry of the same invocation through a
//! privilege-elevation wrapper; any other code is an unknown failure.
//!
//! Running binaries is not this crate's business, so the policy is a state
//! machine: the caller performs the step the machine asks for and feeds the
//! observed exit code back in.

use vstd::prelude::*;

verus! {

/// A lifecycle action that can be delivered to a single process.
#[derive(Clone, Copy, PartialEq, Eq, Structural, Debug)]
pub enum ProcessAction {
    TERM,
    STOP,
    KILL,
    CONT,
}

/// Why delivering an action to one process failed.
#[derive(Clone, Copy, PartialEq, Eq, Structural, Debug)]
pub enum ActionError {
    /// The escalated attempt still reported insufficient privilege.
    PermissionDenied,
    /// The helper exited with a code outside its documented set.
    Unknown(i32),
    /// The helper could not be launched or reported no exit code at all.
    Launch,
}

/// Whether a helper run is the plain attempt or the escalated retry.
#[derive(Clone, Copy, PartialEq, Eq, Structural, Debug)]
pub enum AttemptKind {
    Unprivileged,
    Escalated,
}

/// What the caller has to do next while delivering one action.
#[derive(Clone, Copy, PartialEq, Eq, Debug)]
pub enum ActionStep {
    /// Run the helper once, with or without the elevation prefix.
    Run(AttemptKind),
    /// The action is decided; nothing more may be run for it.
    Done(Result<(), ActionError>),
}

impl ProcessAction {
    /// The helper's command-line name for this action; the mapping is
    /// exhaustive over the closed set of actions.
    pub fn action_name(&self) -> (r: &'static str)
        ensures
            *self == ProcessAction::TERM ==> r@ == "TERM"@,
            *self == ProcessAction::STOP ==> r@ == "STOP"@,
            *self == ProcessAction::KILL ==> r@ == "KILL"@,
            *self == ProcessAction::CONT ==> r@ == "CONT"@,
    {
        match self {
            ProcessAction::TERM => "TERM",
            ProcessAction::STOP => "STOP",
            ProcessAction::KILL => "KILL",
            ProcessAction::CONT => "CONT",
        }
    }
}

/// The exit-code policy for one helper run. `outcome` is the exit code the
/// helper reported, or `None` when it could not be launched or exited
/// without a code.
pub open spec fn spec_next_step(kind: AttemptKind, outcome: Option<i32>) -> ActionStep {
    match outcome {
        None => ActionStep::Done(Err(ActionError::Launch)),
        Some(code) => if code == 0 || code == 3 {
            ActionStep::Done(Ok(()))
        } else if code == 1 {
            match kind {
                AttemptKind::Unprivileged => ActionStep::Run(AttemptKind::Escalated),
                AttemptKind::Escalated => ActionStep::Done(Err(ActionError::PermissionDenied)),
            }
        } else {
            ActionStep::Done(Err(ActionError::Unknown(code)))
        },
    }
}

/// Delivering an action starts with one unprivileged helper run.
pub fn start_action() -> (s: ActionStep)
    ensures
        s == ActionStep::Run(AttemptKind::Unprivileged),
{
    ActionStep::Run(AttemptKind::Unprivileged)
}

/// Advances the delivery of one action after a helper run of the given kind
/// reported `outcome`. Exit code 3 is success: terminating a pid that no
/// longer exists is idempotent, never an error.
pub fn next_step(kind: AttemptKind, outcome: Option<i32>) -> (s: ActionStep)
    ensures
        s == spec_next_step(kind, outcome),
        outcome == Some(0i32) || outcome == Some(3i32) ==> s == ActionStep::Done(
            Ok::<(), ActionError>(()),
        ),
        outcome == Some(1i32) && kind == AttemptKind::Unprivileged ==> s == ActionStep::Run(
            AttemptKind::Escalated,
        ),
{
    match outcome {
        None => ActionStep::Done(Err(ActionError::Launch)),
        Some(code) => {
            if code == 0 || code == 3 {
                ActionStep::Done(Ok(()))
            } else if code == 1 {
                match kind {
                    AttemptKind::Unprivileged => ActionStep::Run(AttemptKind::Escalated),
                    AttemptKind::Escalated => ActionStep::Done(
                        Err(ActionError::PermissionDenied),
                    ),
                }
            } else {
                ActionStep::Done(Err(ActionError::Unknown(code)))
            }
        },
    }
}

/// A helper run is asked for a second time only when the first, unprivileged
/// run reported exit code 1, and the escalated run never asks for a third:
/// every delivery performs at most one escalation and at most two runs.
pub proof fn lemma_single_escalation()
    ensures
        forall|outcome: Option<i32>|
            (#[trigger] spec_next_step(AttemptKind::Unprivileged, outcome)) is Run <==> outcome
                == Some(1i32),
        forall|outcome: Option<i32>| !((#[trigger] spec_next_step(
            AttemptKind::Escalated,
            outcome,
        )) is Run),
{
}

/// The decision for a whole delivery, given the outcome of the unprivileged
/// run and, where that run reported exit code 1, the outcome of the one
/// escalated retry.
pub open spec fn spec_resolve_action(first: Option<i32>, second: Option<i32>) -> Result<
    (),
    ActionError,
> {
    match spec_next_step(AttemptKind::Unprivileged, first) {
        ActionStep::Done(r) => r,
        ActionStep::Run(_) => match spec_next_step(AttemptKind::Escalated, second) {
            ActionStep::Done(r) => r,
            ActionStep::Run(_) => Err(ActionError::Launch),
        },
    }
}

/// Drives the state machine through one complete delivery. `second` is read
/// only when the first run's exit code demands the escalated retry.
pub fn resolve_action(first: Option<i32>, second: Option<i32>) -> (r: Result<(), ActionError>)
    ensures
        r == spec_resolve_action(first, second),
        first == Some(3i32) ==> r == Ok::<(), ActionError>(()),
        first == Some(1i32) && second == Some(1i32) ==> r == Err::<(), ActionError>(
            ActionError::PermissionDenied,
        ),
{
    match next_step(AttemptKind::Unprivileged, first) {
        ActionStep::Done(r) => r,
        ActionStep::Run(_) => match next_step(AttemptKind::Escalated, second) {
            ActionStep::Done(r) => r,
            ActionStep::Run(_) => Err(ActionError::Launch),
        },
    }
}

/// Counts the successful per-process outcomes of one fan-out.
pub open spec fn spec_count_ok(results: Seq<Result<(), ActionError>>) -> int
    decreases results.len(),
{
    if results.len() == 0 {
        0
    } else {
        spec_count_ok(results.drop_last()) + if results.last() is Ok {
            1int
        } else {
            0int
        }
    }
}

/// Counts how many per-process outcomes of a fan-out succeeded; callers
/// derive the failure count as `results.len() - count_successful(results)`.
pub fn count_successful(results: &Vec<Result<(), ActionError>>) -> (r: usize)
    ensures
        r == spec_count_ok(results@),
        r <= results@.len(),
{
    let mut n: usize = 0;
    let mut i: usize = 0;
    while i < results.len()
        invariant
            i <= results.len(),
            n <= i,
            n == spec_count_ok(results@.take(i as int)),
        decreases results.len() - i,
    {
        proof {
            assert(results@.take(i as int + 1).drop_last() =~= results@.take(i as int));
            assert(results@.take(i as int + 1).last() == results@[i as int]);
        }
        if results[i].is_ok() {
            n = n + 1;
        }
        i = i + 1;
    }
    proof {
        assert(results@.take(results@.len() as int) =~= results@);
    }
    n
}

} // verus!
