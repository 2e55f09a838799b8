use catalog_fetch::ident::{ItemIdentifier, ItemKind};
use catalog_fetch::loader::{FetchFailure, LoadError};
use catalog_fetch::schedule::{
    next_attempt, plan, ItemError, RetryDecision, Step, DELAY_BETWEEN_ITEMS, MAX_PENALTY_DELAY,
    PENALTY_STEP,
};
use catalog_fetch::store::Group;

const DENIED: ItemError = ItemError::Load(LoadError::Fetch(FetchFailure::KeyDenied));

fn track(id: u128) -> ItemIdentifier {
    ItemIdentifier { kind: ItemKind::Track, id }
}

fn group(key: &str, ids: &[u128]) -> Group {
    Group { key: key.to_string(), members: ids.iter().map(|id| track(*id)).collect() }
}

fn dir(key: &str) -> Step {
    Step::CreateDir { group: key.to_string() }
}

fn get(key: &str, id: u128) -> Step {
    Step::Download { group: key.to_string(), item: track(id) }
}

fn pause() -> Step {
    Step::Pause { seconds: 10 }
}

#[test]
fn constants() {
    assert_eq!(DELAY_BETWEEN_ITEMS, 10);
    assert_eq!(PENALTY_STEP, 60);
    assert_eq!(MAX_PENALTY_DELAY, 300);
}

#[test]
fn nothing_to_do_without_groups() {
    assert_eq!(plan(&Vec::new()), Vec::<Step>::new());
}

#[test]
fn one_item_takes_no_pause() {
    assert_eq!(plan(&vec![group("tracks", &[1])]), vec![dir("tracks"), get("tracks", 1)]);
}

#[test]
fn three_items_take_two_pauses() {
    assert_eq!(
        plan(&vec![group("albums/A", &[1, 2, 3])]),
        vec![
            dir("albums/A"),
            get("albums/A", 1),
            pause(),
            get("albums/A", 2),
            pause(),
            get("albums/A", 3),
        ]
    );
}

#[test]
fn no_pause_between_groups() {
    assert_eq!(
        plan(&vec![group("tracks", &[1, 2]), group("episodes", &[3])]),
        vec![
            dir("tracks"),
            get("tracks", 1),
            pause(),
            get("tracks", 2),
            dir("episodes"),
            get("episodes", 3),
        ]
    );
}

#[test]
fn an_empty_group_gets_no_folder() {
    assert_eq!(
        plan(&vec![group("albums/Empty", &[]), group("tracks", &[1]), group("shows/None", &[])]),
        vec![dir("tracks"), get("tracks", 1)]
    );
}

#[test]
fn n_items_take_n_minus_one_pauses() {
    for n in 1..20u128 {
        let ids: Vec<u128> = (0..n).collect();
        let steps = plan(&vec![group("g", &ids)]);
        let pauses = steps.iter().filter(|s| matches!(s, Step::Pause { .. })).count();
        let gets = steps.iter().filter(|s| matches!(s, Step::Download { .. })).count();
        assert_eq!(gets as u128, n);
        assert_eq!(pauses as u128, n - 1);
        assert!(matches!(steps.last(), Some(Step::Download { .. })));
        assert!(matches!(steps.first(), Some(Step::CreateDir { .. })));
    }
}

#[test]
fn success_clears_the_penalty() {
    assert_eq!(next_attempt(0, Ok(())), (0, RetryDecision::Proceed));
    assert_eq!(next_attempt(180, Ok(())), (0, RetryDecision::Proceed));
    assert_eq!(next_attempt(300, Ok(())), (0, RetryDecision::Proceed));
}

#[test]
fn three_denials_raise_the_penalty_to_180_and_retry() {
    let mut penalty = 0;
    for expected in [60, 120, 180] {
        let (next, decision) = next_attempt(penalty, Err(DENIED));
        assert_eq!(next, expected);
        assert_eq!(decision, RetryDecision::RetryAfter { seconds: expected });
        penalty = next;
    }
    assert_eq!(penalty, 180);
}

#[test]
fn the_denial_that_passes_the_ceiling_aborts() {
    assert_eq!(next_attempt(180, Err(DENIED)), (240, RetryDecision::RetryAfter { seconds: 240 }));
    assert_eq!(next_attempt(240, Err(DENIED)), (300, RetryDecision::RetryAfter { seconds: 300 }));
    assert_eq!(next_attempt(300, Err(DENIED)), (360, RetryDecision::Abort));
    assert_eq!(next_attempt(241, Err(DENIED)), (301, RetryDecision::Abort));
}

#[test]
fn other_failures_give_the_item_up_and_keep_the_penalty() {
    let others = [
        ItemError::Load(LoadError::Unavailable),
        ItemError::Load(LoadError::UnsupportedFormat),
        ItemError::Load(LoadError::Fetch(FetchFailure::Remote)),
        ItemError::Load(LoadError::Fetch(FetchFailure::Io)),
        ItemError::NoCover,
        ItemError::UnsupportedFormat,
        ItemError::Io,
    ];
    for error in others {
        assert_eq!(next_attempt(0, Err(error)), (0, RetryDecision::Proceed));
        assert_eq!(next_attempt(120, Err(error)), (120, RetryDecision::Proceed));
    }
}

#[test]
fn success_after_denials_starts_over() {
    let (penalty, _) = next_attempt(0, Err(DENIED));
    let (penalty, _) = next_attempt(penalty, Err(DENIED));
    let (penalty, decision) = next_attempt(penalty, Ok(()));
    assert_eq!((penalty, decision), (0, RetryDecision::Proceed));
    assert_eq!(
        next_attempt(penalty, Err(DENIED)),
        (60, RetryDecision::RetryAfter { seconds: 60 })
    );
}
