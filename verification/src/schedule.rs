//! The order of work in a run: for each group its folder, then its items one
//! at a time with a pause between two of them; and what follows each attempt
//! to save an item.

use crate::ident::ItemIdentifier;
use crate::loader::{FetchFailure, LoadError};
use crate::store::Group;
use vstd::prelude::*;

verus! {

/// Seconds to wait between two items of a group.
pub const DELAY_BETWEEN_ITEMS: u64 = 10;

/// Seconds by which each denied key request raises the penalty delay.
pub const PENALTY_STEP: u64 = 60;

/// The penalty delay beyond which a run is given up.
pub const MAX_PENALTY_DELAY: u64 = 300;

/// One step of a run.
#[derive(Clone, Debug, PartialEq, Eq)]
pub enum Step {
    /// Create the folder of a group; a folder that exists is left as it is.
    CreateDir { group: String },
    /// Load one item and save it into the folder of its group.
    Download { group: String, item: ItemIdentifier },
    /// Wait for so many seconds.
    Pause { seconds: u64 },
}

/// A step with its texts as sequences of characters.
pub enum StepView {
    CreateDir { group: Seq<char> },
    Download { group: Seq<char>, item: ItemIdentifier },
    Pause { seconds: u64 },
}

impl View for Step {
    type V = StepView;

    open spec fn view(&self) -> StepView {
        match *self {
            Step::CreateDir { group } => StepView::CreateDir { group: group@ },
            Step::Download { group, item } => StepView::Download { group: group@, item },
            Step::Pause { seconds } => StepView::Pause { seconds },
        }
    }
}

/// The steps for one group. An empty group takes no step, not even its
/// folder. Otherwise the folder comes first; after it the items in their
/// order, each but the last followed by a pause.
pub open spec fn group_plan(key: Seq<char>, members: Seq<ItemIdentifier>) -> Seq<StepView> {
    if members.len() == 0 {
        Seq::empty()
    } else {
        Seq::new(
            (2 * members.len()) as nat,
            |i: int|
                if i == 0 {
                    StepView::CreateDir { group: key }
                } else if i % 2 == 1 {
                    StepView::Download { group: key, item: members[i / 2] }
                } else {
                    StepView::Pause { seconds: DELAY_BETWEEN_ITEMS }
                },
        )
    }
}

/// The steps for a list of groups: those of each group, in the list's order.
pub open spec fn plan_of(groups: Seq<Group>) -> Seq<StepView>
    decreases groups.len(),
{
    if groups.len() == 0 {
        Seq::empty()
    } else {
        plan_of(groups.drop_last()) + group_plan(groups.last().key@, groups.last().members@)
    }
}

/// The views of a list of steps.
pub open spec fn step_views(steps: Seq<Step>) -> Seq<StepView> {
    steps.map_values(|step: Step| step@)
}

/// How many of the steps are pauses.
pub open spec fn pauses(steps: Seq<StepView>) -> nat
    decreases steps.len(),
{
    if steps.len() == 0 {
        0
    } else {
        pauses(steps.drop_last()) + if steps.last() is Pause {
            1nat
        } else {
            0nat
        }
    }
}

/// How many of the steps are downloads.
pub open spec fn downloads(steps: Seq<StepView>) -> nat
    decreases steps.len(),
{
    if steps.len() == 0 {
        0
    } else {
        downloads(steps.drop_last()) + if steps.last() is Download {
            1nat
        } else {
            0nat
        }
    }
}

/// The step at each place of a group's plan.
proof fn lemma_plan_steps(key: Seq<char>, members: Seq<ItemIdentifier>, k: int)
    requires
        0 <= k < members.len(),
    ensures
        group_plan(key, members).len() == 2 * members.len(),
        group_plan(key, members)[0] == (StepView::CreateDir { group: key }),
        group_plan(key, members)[2 * k + 1] == (StepView::Download { group: key, item: members[k] }),
        k > 0 ==> group_plan(key, members)[2 * k] == (StepView::Pause {
            seconds: DELAY_BETWEEN_ITEMS,
        }),
{
    assert((2 * k + 1) % 2 == 1 && (2 * k + 1) / 2 == k && (2 * k) % 2 == 0) by (nonlinear_arith)
        requires
            0 <= k,
    ;
}

/// Counting in the first `2 * n` steps of a group's plan.
proof fn lemma_count_prefix(key: Seq<char>, members: Seq<ItemIdentifier>, n: int)
    requires
        1 <= n <= members.len(),
    ensures
        pauses(group_plan(key, members).take(2 * n)) == n - 1,
        downloads(group_plan(key, members).take(2 * n)) == n,
    decreases n,
{
    let plan = group_plan(key, members);
    let upto = plan.take(2 * n);
    let mid = plan.take(2 * n - 1);
    lemma_plan_steps(key, members, n - 1);
    assert(upto.drop_last() =~= mid);
    assert(upto.last() == plan[2 * (n - 1) + 1]);
    assert(pauses(upto) == pauses(mid));
    assert(downloads(upto) == downloads(mid) + 1);
    if n == 1 {
        assert(mid.drop_last() =~= Seq::<StepView>::empty());
        assert(mid.last() == plan[0]);
        assert(pauses(mid.drop_last()) == 0);
        assert(downloads(mid.drop_last()) == 0);
        assert(pauses(mid) == 0);
        assert(downloads(mid) == 0);
    } else {
        lemma_count_prefix(key, members, n - 1);
        assert(mid.drop_last() =~= plan.take(2 * (n - 1)));
        assert(mid.last() == plan[2 * (n - 1)]);
        assert(pauses(mid) == pauses(mid.drop_last()) + 1);
        assert(downloads(mid) == downloads(mid.drop_last()));
    }
}

/// Pacing within a group: a group of `n > 0` items takes `n` downloads and
/// `n - 1` pauses, begins with its folder and ends with a download.
pub proof fn lemma_group_pacing(key: Seq<char>, members: Seq<ItemIdentifier>)
    requires
        members.len() > 0,
    ensures
        downloads(group_plan(key, members)) == members.len(),
        pauses(group_plan(key, members)) == members.len() - 1,
        group_plan(key, members).first() == (StepView::CreateDir { group: key }),
        group_plan(key, members).last() is Download,
{
    let plan = group_plan(key, members);
    lemma_count_prefix(key, members, members.len() as int);
    lemma_plan_steps(key, members, members.len() - 1);
    assert(plan.take(2 * (members.len() as int)) =~= plan);
}

/// An empty group takes no step.
pub proof fn lemma_empty_group_is_skipped(key: Seq<char>)
    ensures
        group_plan(key, Seq::empty()).len() == 0,
{
}

/// The views of a list of steps with one more step at its end.
proof fn lemma_views_push(steps: Seq<Step>, step: Step)
    ensures
        step_views(steps.push(step)) == step_views(steps).push(step@),
{
    assert(step_views(steps.push(step)) =~= step_views(steps).push(step@));
}

/// The steps for one group, appended to `steps`.
fn push_group(steps: &mut Vec<Step>, group: &Group)
    ensures
        step_views(final(steps)@) == step_views(old(steps)@) + group_plan(
            group.key@,
            group.members@,
        ),
{
    let n = group.members.len();
    if n == 0 {
        assert(step_views(steps@) + Seq::<StepView>::empty() =~= step_views(steps@));
        return ;
    }
    let ghost plan = group_plan(group.key@, group.members@);
    let ghost start = step_views(steps@);
    proof {
        lemma_plan_steps(group.key@, group.members@, 0);
        lemma_views_push(steps@, Step::CreateDir { group: group.key });
    }
    steps.push(Step::CreateDir { group: group.key.clone() });
    assert(step_views(steps@) =~= start + plan.take(1));
    let mut i: usize = 0;
    while i < n
        invariant
            i <= n,
            n == group.members.len(),
            n > 0,
            plan == group_plan(group.key@, group.members@),
            step_views(steps@) == start + plan.take(
                if i == 0 {
                    1int
                } else {
                    2 * i
                },
            ),
        decreases n - i,
    {
        proof {
            lemma_plan_steps(group.key@, group.members@, i as int);
        }
        if i > 0 {
            proof {
                lemma_views_push(steps@, Step::Pause { seconds: DELAY_BETWEEN_ITEMS });
            }
            steps.push(Step::Pause { seconds: DELAY_BETWEEN_ITEMS });
            assert(step_views(steps@) =~= start + plan.take(2 * i + 1));
        }
        proof {
            lemma_views_push(steps@, Step::Download { group: group.key, item: group.members[i as int] });
        }
        steps.push(Step::Download { group: group.key.clone(), item: group.members[i] });
        assert(step_views(steps@) =~= start + plan.take(2 * i + 2));
        i += 1;
    }
    assert(plan.take(2 * n) =~= plan);
}

/// Lays out the steps of a run over the groups in their order.
pub fn plan(groups: &Vec<Group>) -> (steps: Vec<Step>)
    ensures
        step_views(steps@) == plan_of(groups@),
{
    let mut steps: Vec<Step> = Vec::new();
    let mut i: usize = 0;
    assert(step_views(steps@) =~= plan_of(groups@.take(0)));
    while i < groups.len()
        invariant
            i <= groups.len(),
            step_views(steps@) == plan_of(groups@.take(i as int)),
        decreases groups.len() - i,
    {
        proof {
            let upto = groups@.take(i + 1);
            assert(upto.drop_last() =~= groups@.take(i as int));
            assert(upto.last() == groups[i as int]);
        }
        push_group(&mut steps, &groups[i]);
        i += 1;
    }
    assert(groups@.take(i as int) =~= groups@);
    steps
}

/// Why an item was not saved.
#[derive(Clone, Copy, Debug, PartialEq, Eq, Structural)]
pub enum ItemError {
    /// The track could not be loaded.
    Load(LoadError),
    /// The item has no cover art.
    NoCover,
    /// The loaded audio is in an encoding that has no file extension.
    UnsupportedFormat,
    /// The file could not be written.
    Io,
}

/// What follows an attempt to save an item.
#[derive(Clone, Copy, Debug, PartialEq, Eq, Structural)]
pub enum RetryDecision {
    /// Go on with the next step; the item is saved or given up.
    Proceed,
    /// Wait for so many seconds, then try the same item again.
    RetryAfter { seconds: u64 },
    /// Give up the whole run.
    Abort,
}

/// The service refused the key: the one failure that waiting can mend.
pub open spec fn is_key_denied(error: ItemError) -> bool {
    error == ItemError::Load(LoadError::Fetch(FetchFailure::KeyDenied))
}

/// The penalty delay after an attempt: zero after a success, raised by one
/// step after a denied key, unchanged after any other failure.
pub open spec fn penalty_after(penalty: u64, outcome: Result<(), ItemError>) -> int {
    match outcome {
        Ok(_) => 0,
        Err(error) => if is_key_denied(error) {
            penalty + PENALTY_STEP
        } else {
            penalty as int
        },
    }
}

/// What follows an attempt: after a denied key the same item is tried again
/// once the raised penalty has passed, unless the penalty is then over the
/// ceiling, which ends the run; after a success or any other failure the run
/// goes on with the next step.
pub open spec fn decision_after(penalty: u64, outcome: Result<(), ItemError>) -> RetryDecision {
    match outcome {
        Ok(_) => RetryDecision::Proceed,
        Err(error) => if is_key_denied(error) {
            if penalty + PENALTY_STEP > MAX_PENALTY_DELAY {
                RetryDecision::Abort
            } else {
                RetryDecision::RetryAfter { seconds: (penalty + PENALTY_STEP) as u64 }
            }
        } else {
            RetryDecision::Proceed
        },
    }
}

/// Decides what follows an attempt to save an item, and the penalty delay from
/// then on.
pub fn next_attempt(penalty: u64, outcome: Result<(), ItemError>) -> (next: (u64, RetryDecision))
    requires
        penalty <= MAX_PENALTY_DELAY,
    ensures
        next.0 == penalty_after(penalty, outcome),
        next.1 == decision_after(penalty, outcome),
{
    match outcome {
        Ok(_) => (0, RetryDecision::Proceed),
        Err(ItemError::Load(LoadError::Fetch(FetchFailure::KeyDenied))) => {
            let raised = penalty + PENALTY_STEP;
            if raised > MAX_PENALTY_DELAY {
                (raised, RetryDecision::Abort)
            } else {
                (raised, RetryDecision::RetryAfter { seconds: raised })
            }
        },
        Err(_) => (penalty, RetryDecision::Proceed),
    }
}

/// Backoff: from a penalty of zero, each of the first five denied key requests
/// in a row raises the penalty by a step and has the item tried again after
/// that delay; the sixth ends the run.
pub proof fn lemma_backoff(n: nat)
    requires
        n <= 5,
    ensures
        ({
            let denied: Result<(), ItemError> = Err(
                ItemError::Load(LoadError::Fetch(FetchFailure::KeyDenied)),
            );
            let before = (n * PENALTY_STEP) as u64;
            &&& penalty_after(before, denied) == (n + 1) * PENALTY_STEP
            &&& n < 5 ==> decision_after(before, denied) == (RetryDecision::RetryAfter {
                seconds: ((n + 1) * PENALTY_STEP) as u64,
            })
            &&& n == 5 ==> decision_after(before, denied) == RetryDecision::Abort
        }),
{
}

/// A success resets the penalty, whatever it was, and the run goes on.
pub proof fn lemma_success_resets(penalty: u64)
    ensures
        penalty_after(penalty, Ok(())) == 0,
        decision_after(penalty, Ok(())) == RetryDecision::Proceed,
{
}

/// A failure other than a denied key leaves the penalty as it was and the item
/// is given up, not tried again.
pub proof fn lemma_other_failures_skip(penalty: u64, error: ItemError)
    requires
        !is_key_denied(error),
    ensures
        penalty_after(penalty, Err(error)) == penalty,
        decision_after(penalty, Err(error)) == RetryDecision::Proceed,
{
}

} // verus!
