//! A run, one action at a time: the steps of the plan in their order, each
//! download tried again after a denied key until it succeeds or the penalty
//! delay passes its ceiling.

use crate::ident::ItemIdentifier;
use crate::loader::{FetchFailure, LoadError};
use crate::schedule::{
    decision_after, is_key_denied, penalty_after, step_views, ItemError, RetryDecision, Step,
    StepView, MAX_PENALTY_DELAY, PENALTY_STEP,
};
use vstd::prelude::*;

verus! {

/// Where a processor stands in its life.
#[derive(Clone, Copy, Debug, PartialEq, Eq, Structural)]
pub enum Phase {
    /// Nothing has been taken in yet.
    Idle,
    /// Lines are being taken in.
    Ingesting,
    /// The gathered items are being downloaded.
    Processing,
    /// The run has ended.
    Done,
}

/// Why a run was given up.
#[derive(Clone, Copy, Debug, PartialEq, Eq, Structural)]
pub enum RunError {
    /// The penalty delay passed its ceiling: the service will not be asked
    /// again.
    Fatal,
    /// The folder of a group could not be created.
    Io,
}

/// What happened to the action that was handed out last.
#[derive(Clone, Copy, Debug, PartialEq, Eq, Structural)]
pub enum RunEvent {
    /// The folder exists now.
    DirCreated,
    /// The folder could not be created.
    DirFailed,
    /// The item was loaded and saved.
    Saved,
    /// The item was not saved.
    NotSaved(ItemError),
    /// The time has passed.
    Slept,
}

/// What the driver of a run is to do next.
#[derive(Clone, Debug, PartialEq, Eq)]
pub enum RunAction {
    /// Create the folder of a group; a folder that exists is left as it is.
    CreateDir { group: String },
    /// Load one item and save it into the folder of its group.
    Download { group: String, item: ItemIdentifier },
    /// Wait for so many seconds.
    Sleep { seconds: u64 },
    /// Nothing is left to do.
    Finished,
    /// The run is given up.
    Failed(RunError),
}

/// An action with its texts as sequences of characters.
pub enum ActionView {
    CreateDir { group: Seq<char> },
    Download { group: Seq<char>, item: ItemIdentifier },
    Sleep { seconds: u64 },
    Finished,
    Failed(RunError),
}

impl View for RunAction {
    type V = ActionView;

    open spec fn view(&self) -> ActionView {
        match *self {
            RunAction::CreateDir { group } => ActionView::CreateDir { group: group@ },
            RunAction::Download { group, item } => ActionView::Download { group: group@, item },
            RunAction::Sleep { seconds } => ActionView::Sleep { seconds },
            RunAction::Finished => ActionView::Finished,
            RunAction::Failed(error) => ActionView::Failed(error),
        }
    }
}

/// The state of a run.
pub struct RunState {
    /// The steps of the plan.
    pub steps: Seq<StepView>,
    /// The step that is being taken.
    pub position: int,
    /// The penalty delay in seconds.
    pub penalty: u64,
    /// The download at `position` was denied its key and waits to be tried
    /// again.
    pub retrying: bool,
    /// The run has begun and not ended.
    pub running: bool,
}

/// The action that a step of the plan asks for; beyond the last step nothing
/// is left to do.
pub open spec fn action_at(steps: Seq<StepView>, position: int) -> ActionView {
    if 0 <= position < steps.len() {
        match steps[position] {
            StepView::CreateDir { group } => ActionView::CreateDir { group },
            StepView::Download { group, item } => ActionView::Download { group, item },
            StepView::Pause { seconds } => ActionView::Sleep { seconds },
        }
    } else {
        ActionView::Finished
    }
}

/// The action that is under way.
pub open spec fn pending(state: RunState) -> ActionView {
    if !state.running {
        ActionView::Finished
    } else if state.retrying {
        ActionView::Sleep { seconds: state.penalty }
    } else {
        action_at(state.steps, state.position)
    }
}

/// The event answers the action that is under way.
pub open spec fn expects(state: RunState, event: RunEvent) -> bool {
    match pending(state) {
        ActionView::CreateDir { .. } => event == RunEvent::DirCreated || event
            == RunEvent::DirFailed,
        ActionView::Download { .. } => event == RunEvent::Saved || event is NotSaved,
        ActionView::Sleep { .. } => event == RunEvent::Slept,
        _ => false,
    }
}

/// A running state stands at a step of its plan with a penalty delay within
/// the ceiling; only a download waits to be tried again.
pub open spec fn consistent(state: RunState) -> bool {
    &&& state.running ==> 0 <= state.position < state.steps.len() && state.penalty
        <= MAX_PENALTY_DELAY
    &&& state.retrying ==> state.running && state.steps[state.position] is Download
}

/// The run at its beginning: at the first step, without penalty. A plan
/// without steps is over at once.
pub open spec fn begun(steps: Seq<StepView>) -> (RunState, ActionView) {
    (
        RunState { steps, position: 0, penalty: 0, retrying: false, running: steps.len() > 0 },
        action_at(steps, 0),
    )
}

/// The run goes on to its next step, or ends after its last.
pub open spec fn move_on(state: RunState) -> (RunState, ActionView) {
    let next = state.position + 1;
    (
        RunState {
            steps: state.steps,
            position: next,
            penalty: state.penalty,
            retrying: false,
            running: next < state.steps.len(),
        },
        action_at(state.steps, next),
    )
}

/// One step of a run. A folder that cannot be created ends the run. A saved
/// item clears the penalty delay. An item that was denied its key is tried
/// again after the raised delay, unless that delay is over the ceiling, which
/// ends the run. An item that failed otherwise is given up. A pause between
/// items, once over, leads to the next item.
pub open spec fn run_step(state: RunState, event: RunEvent) -> (RunState, ActionView) {
    match event {
        RunEvent::DirCreated => move_on(state),
        RunEvent::DirFailed => (
            RunState {
                steps: state.steps,
                position: state.position,
                penalty: state.penalty,
                retrying: false,
                running: false,
            },
            ActionView::Failed(RunError::Io),
        ),
        RunEvent::Slept => if state.retrying {
            (
                RunState {
                    steps: state.steps,
                    position: state.position,
                    penalty: state.penalty,
                    retrying: false,
                    running: state.running,
                },
                action_at(state.steps, state.position),
            )
        } else {
            move_on(state)
        },
        RunEvent::Saved => move_on(
            RunState {
                steps: state.steps,
                position: state.position,
                penalty: 0,
                retrying: false,
                running: state.running,
            },
        ),
        RunEvent::NotSaved(error) => match decision_after(state.penalty, Err(error)) {
            RetryDecision::Proceed => move_on(state),
            RetryDecision::RetryAfter { seconds } => (
                RunState {
                    steps: state.steps,
                    position: state.position,
                    penalty: seconds,
                    retrying: true,
                    running: state.running,
                },
                ActionView::Sleep { seconds },
            ),
            RetryDecision::Abort => (
                RunState {
                    steps: state.steps,
                    position: state.position,
                    penalty: penalty_after(state.penalty, Err(error)) as u64,
                    retrying: false,
                    running: false,
                },
                ActionView::Failed(RunError::Fatal),
            ),
        },
    }
}

/// The action that a step of the plan asks for.
pub fn action_for(steps: &Vec<Step>, position: usize) -> (action: RunAction)
    ensures
        action@ == action_at(step_views(steps@), position as int),
{
    if position < steps.len() {
        match &steps[position] {
            Step::CreateDir { group } => RunAction::CreateDir { group: group.clone() },
            Step::Download { group, item } => RunAction::Download {
                group: group.clone(),
                item: *item,
            },
            Step::Pause { seconds } => RunAction::Sleep { seconds: *seconds },
        }
    } else {
        RunAction::Finished
    }
}

/// Every step of a run keeps its state consistent.
pub proof fn lemma_step_keeps_consistent(state: RunState, event: RunEvent)
    requires
        consistent(state),
        expects(state, event),
    ensures
        consistent(run_step(state, event).0),
        run_step(state, event).0.steps == state.steps,
{
}

/// A denied key does not lose the item: the run waits for the raised penalty
/// delay and then asks for the same download again.
pub proof fn lemma_denied_item_is_retried(state: RunState)
    requires
        consistent(state),
        state.running,
        !state.retrying,
        state.steps[state.position] is Download,
        state.penalty + PENALTY_STEP <= MAX_PENALTY_DELAY,
    ensures
        ({
            let denied = RunEvent::NotSaved(
                ItemError::Load(LoadError::Fetch(FetchFailure::KeyDenied)),
            );
            let (waiting, wait) = run_step(state, denied);
            let (again, retry) = run_step(waiting, RunEvent::Slept);
            &&& wait == (ActionView::Sleep {
                seconds: (state.penalty + PENALTY_STEP) as u64,
            })
            &&& expects(waiting, RunEvent::Slept)
            &&& retry == action_at(state.steps, state.position)
            &&& again.position == state.position
            &&& again.penalty == state.penalty + PENALTY_STEP
        }),
{
}

/// Only two things end a run before its last step: a folder that cannot be
/// created, and a denied key that raises the penalty delay over the ceiling.
pub proof fn lemma_what_ends_a_run(state: RunState, event: RunEvent)
    requires
        consistent(state),
        expects(state, event),
        run_step(state, event).1 is Failed,
    ensures
        event == RunEvent::DirFailed || (event matches RunEvent::NotSaved(error)
            && is_key_denied(error) && state.penalty
            + PENALTY_STEP > MAX_PENALTY_DELAY),
{
}

} // verus!
