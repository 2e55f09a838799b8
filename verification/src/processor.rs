//! The run as a whole: lines are taken in one by one and their items gathered
//! into groups; then the groups are laid out as a plan of steps, and the
//! processor hands out one action at a time, taking what happened to each as
//! its next event.

use crate::ident::{decoded, parse, parsed, IdError, ItemIdentifier, ItemKind};
use crate::names::{
    clean, direct_folder, direct_folder_for, folder_of, group_key, trim, trimmed,
};
use crate::run::{
    action_for, begun, consistent, expects, move_on, run_step, Phase, RunAction, RunError,
    RunEvent, RunState,
};
use crate::schedule::{next_attempt, plan, plan_of, step_views, RetryDecision, Step};
use crate::store::{
    groups_map, ingested, lemma_empty_mapping_has_no_groups, no_duplicates, Group, GroupingStore,
};
use vstd::prelude::*;

verus! {

/// A line of input, read.
#[derive(Clone, Debug, PartialEq, Eq)]
pub enum LineInput {
    /// The line that ends the input.
    Done,
    /// Any other line, without the white space around it.
    Text(String),
}

/// What became of a line.
#[derive(Clone, Copy, Debug, PartialEq, Eq, Structural)]
pub enum Ingestion {
    /// The line names no item.
    Skipped,
    /// The line names a track or an episode, which was put into its group.
    Stored(ItemIdentifier),
    /// The line names a collection. Its name and members have to be looked up
    /// and handed to `add_collection`.
    Lookup(ItemIdentifier),
    /// The line names an item of a kind that cannot be resolved.
    Unsupported,
}

/// Gathers items, then paces their download.
#[derive(Debug)]
pub struct ItemsProcessor {
    grouped_ids: GroupingStore,
    penalty_delay: u64,
    windows: bool,
    /// The groups of the run under way, as they were drained.
    groups: Vec<Group>,
    /// The plan of the run under way.
    steps: Vec<Step>,
    /// The step that is being taken.
    position: usize,
    /// The download at `position` waits to be tried again.
    retrying: bool,
    phase: Phase,
}

/// Whether items of the kind are members of a collection that has to be looked
/// up.
pub open spec fn is_collection(kind: ItemKind) -> bool {
    kind == ItemKind::Playlist || kind == ItemKind::Album || kind == ItemKind::Show
}

/// Whether an item of the kind is stored as it is, in the folder of its kind.
pub open spec fn is_direct(kind: ItemKind) -> bool {
    direct_folder(kind) is Some
}

/// What becomes of a line: nothing where it names no item; an error where the
/// id of its item does not decode; else according to the item's kind.
pub open spec fn line_outcome(line: Seq<char>) -> Result<Ingestion, IdError> {
    match parsed(line) {
        None => Ok(Ingestion::Skipped),
        Some((kind, text)) => match decoded(text) {
            None => Err(IdError::InvalidId),
            Some(id) => {
                let item = ItemIdentifier { kind, id };
                if is_direct(kind) {
                    Ok(Ingestion::Stored(item))
                } else if is_collection(kind) {
                    Ok(Ingestion::Lookup(item))
                } else {
                    Ok(Ingestion::Unsupported)
                }
            },
        },
    }
}

/// The store after a line was taken in: a track or an episode joins the group
/// of its kind; any other line leaves the store as it was.
pub open spec fn store_after_line(
    store: Map<Seq<char>, Set<ItemIdentifier>>,
    line: Seq<char>,
) -> Map<Seq<char>, Set<ItemIdentifier>> {
    match line_outcome(line) {
        Ok(Ingestion::Stored(item)) => ingested(store, direct_folder(item.kind)->0, set![item]),
        _ => store,
    }
}

/// The store after a collection was added: its members join the group named
/// after it; what is no collection leaves the store as it was.
pub open spec fn store_after_collection(
    store: Map<Seq<char>, Set<ItemIdentifier>>,
    kind: ItemKind,
    name: Seq<char>,
    members: Set<ItemIdentifier>,
    windows: bool,
) -> Map<Seq<char>, Set<ItemIdentifier>> {
    if is_collection(kind) {
        ingested(store, folder_of(kind, clean(name, windows))->0, members)
    } else {
        store
    }
}

/// A track and an episode, taken in one after the other by an empty store,
/// stand in two groups: the track alone under `tracks`, the episode alone
/// under `episodes`.
pub proof fn lemma_track_and_episode_groups(
    track_line: Seq<char>,
    episode_line: Seq<char>,
    track: ItemIdentifier,
    episode: ItemIdentifier,
)
    requires
        line_outcome(track_line) == Ok::<Ingestion, IdError>(Ingestion::Stored(track)),
        line_outcome(episode_line) == Ok::<Ingestion, IdError>(Ingestion::Stored(episode)),
        track.kind == ItemKind::Track,
        episode.kind == ItemKind::Episode,
    ensures
        ({
            let store = store_after_line(
                store_after_line(Map::empty(), track_line),
                episode_line,
            );
            &&& "tracks"@ != "episodes"@
            &&& store.dom() == set!["tracks"@, "episodes"@]
            &&& store["tracks"@] == set![track]
            &&& store["episodes"@] == set![episode]
        }),
{
    reveal_strlit("tracks");
    reveal_strlit("episodes");
    assert("tracks"@.len() != "episodes"@.len());
    let first = store_after_line(Map::empty(), track_line);
    let store = store_after_line(first, episode_line);
    assert(store.dom() =~= set!["tracks"@, "episodes"@]);
}

/// Reads a line of input: trimmed, the word `done` ends the input.
pub fn read_line(line: &str) -> (input: LineInput)
    ensures
        match input {
            LineInput::Done => trimmed(line@) == "done"@,
            LineInput::Text(text) => text@ == trimmed(line@) && text@ != "done"@,
        },
{
    let text = trim(line);
    if text == String::from_str("done") {
        LineInput::Done
    } else {
        LineInput::Text(text)
    }
}

/// The phase after a line or a collection was taken in: taking in begins with
/// the first of them; a run under way or over is not touched.
pub open spec fn phase_after_input(phase: Phase) -> Phase {
    if phase == Phase::Idle {
        Phase::Ingesting
    } else {
        phase
    }
}

impl ItemsProcessor {
    /// The groups gathered so far.
    pub closed spec fn store(&self) -> Map<Seq<char>, Set<ItemIdentifier>> {
        self.grouped_ids@
    }

    /// Whether names are cleaned by the rules of Windows.
    pub closed spec fn windows(&self) -> bool {
        self.windows
    }

    /// Where the processor stands in its life.
    pub closed spec fn phase(&self) -> Phase {
        self.phase
    }

    /// The groups of the run under way, as they were drained from the store.
    pub closed spec fn groups(&self) -> Seq<Group> {
        self.groups@
    }

    /// The state of the run.
    pub closed spec fn run(&self) -> RunState {
        RunState {
            steps: step_views(self.steps@),
            position: self.position as int,
            penalty: self.penalty_delay,
            retrying: self.retrying,
            running: self.phase == Phase::Processing,
        }
    }

    #[verifier::type_invariant]
    closed spec fn well_formed(&self) -> bool {
        consistent(self.run())
    }

    /// A processor with nothing gathered and no penalty. `windows` says
    /// whether names are cleaned by the stricter rules of that platform.
    pub fn new(windows: bool) -> (processor: ItemsProcessor)
        ensures
            processor.store() == Map::<Seq<char>, Set<ItemIdentifier>>::empty(),
            processor.phase() == Phase::Idle,
            processor.run().penalty == 0,
            !processor.run().running,
            processor.windows() == windows,
    {
        ItemsProcessor {
            grouped_ids: GroupingStore::new(),
            penalty_delay: 0,
            windows,
            groups: Vec::new(),
            steps: Vec::new(),
            position: 0,
            retrying: false,
            phase: Phase::Idle,
        }
    }

    /// Where the processor stands in its life.
    pub fn current_phase(&self) -> (phase: Phase)
        ensures
            phase == self.phase(),
            (phase == Phase::Processing) == self.run().running,
    {
        self.phase
    }

    /// The penalty delay in seconds.
    pub fn penalty_delay(&self) -> (seconds: u64)
        ensures
            seconds == self.run().penalty,
    {
        self.penalty_delay
    }

    /// The groups of the run under way, as they were drained from the store.
    pub fn drained_groups(&self) -> (groups: &Vec<Group>)
        ensures
            groups@ == self.groups(),
    {
        &self.groups
    }

    /// The plan of the run under way.
    pub fn planned_steps(&self) -> (steps: &Vec<Step>)
        ensures
            step_views(steps@) == self.run().steps,
    {
        &self.steps
    }

    /// Whether nothing has been gathered.
    pub fn is_empty(&self) -> (empty: bool)
        ensures
            empty == (self.store() == Map::<Seq<char>, Set<ItemIdentifier>>::empty()),
    {
        self.grouped_ids.is_empty()
    }

    /// Puts the members into the group under `key`.
    fn put(&mut self, key: String, members: &Vec<ItemIdentifier>)
        ensures
            final(self).store() == ingested(old(self).store(), key@, members@.to_set()),
            final(self).phase() == phase_after_input(old(self).phase()),
            final(self).run() == old(self).run(),
            final(self).groups() == old(self).groups(),
            final(self).windows() == old(self).windows(),
    {
        proof {
            use_type_invariant(&*self);
        }
        let mut store = GroupingStore::new();
        std::mem::swap(&mut self.grouped_ids, &mut store);
        store.ingest(key, members);
        self.grouped_ids = store;
        self.begin_input();
    }

    /// Notes that input was taken in.
    fn begin_input(&mut self)
        ensures
            final(self).store() == old(self).store(),
            final(self).phase() == phase_after_input(old(self).phase()),
            final(self).run() == old(self).run(),
            final(self).groups() == old(self).groups(),
            final(self).windows() == old(self).windows(),
    {
        proof {
            use_type_invariant(&*self);
        }
        if self.phase == Phase::Idle {
            self.phase = Phase::Ingesting;
        }
    }

    /// Takes in one line. The leftmost item in it is put into the group of its
    /// kind, or handed back for a lookup where it is a collection. A line
    /// without an item is skipped.
    pub fn load_item(&mut self, line: &str) -> (outcome: Result<Ingestion, IdError>)
        ensures
            outcome == line_outcome(line@),
            final(self).store() == store_after_line(old(self).store(), line@),
            final(self).phase() == phase_after_input(old(self).phase()),
            final(self).run() == old(self).run(),
            final(self).groups() == old(self).groups(),
            final(self).windows() == old(self).windows(),
    {
        self.begin_input();
        let found = match parse(line) {
            Some(found) => found,
            None => {
                return Ok(Ingestion::Skipped);
            },
        };
        let item = match ItemIdentifier::from_parsed(&found) {
            Ok(item) => item,
            Err(e) => {
                return Err(e);
            },
        };
        match item.kind {
            ItemKind::Track | ItemKind::Episode => {
                match direct_folder_for(item.kind) {
                    Some(key) => {
                        let members = vec![item];
                        assert(members@.to_set() =~= set![item]);
                        self.put(key, &members);
                    },
                    None => {},
                }
                Ok(Ingestion::Stored(item))
            },
            ItemKind::Playlist | ItemKind::Album | ItemKind::Show => Ok(Ingestion::Lookup(item)),
            ItemKind::Unknown => Ok(Ingestion::Unsupported),
        }
    }

    /// Adds the members of a collection that was looked up, under the folder
    /// made from the collection's kind and name. Says whether anything was
    /// added: only playlists, albums and shows are collections.
    pub fn add_collection(&mut self, kind: ItemKind, name: &str, members: &Vec<ItemIdentifier>) -> (added:
        bool)
        ensures
            added == is_collection(kind),
            final(self).store() == store_after_collection(
                old(self).store(),
                kind,
                name@,
                members@.to_set(),
                old(self).windows(),
            ),
            final(self).phase() == phase_after_input(old(self).phase()),
            final(self).run() == old(self).run(),
            final(self).groups() == old(self).groups(),
            final(self).windows() == old(self).windows(),
    {
        self.begin_input();
        match kind {
            ItemKind::Playlist | ItemKind::Album | ItemKind::Show => {
                match group_key(kind, name, self.windows) {
                    Some(key) => {
                        self.put(key, members);
                    },
                    None => {},
                }
                true
            },
            _ => false,
        }
    }

    /// Begins a run: empties the store, lays out the steps for what it held
    /// and hands out the first action. The penalty delay starts at zero. With
    /// nothing gathered the run is over at once.
    pub fn process_items(&mut self) -> (action: RunAction)
        ensures
            final(self).store() == Map::<Seq<char>, Set<ItemIdentifier>>::empty(),
            no_duplicates(final(self).groups()),
            groups_map(final(self).groups()) == old(self).store(),
            (final(self).run(), action@) == begun(plan_of(final(self).groups())),
            final(self).phase() == if final(self).run().running {
                Phase::Processing
            } else {
                Phase::Done
            },
            old(self).store() == Map::<Seq<char>, Set<ItemIdentifier>>::empty() ==> action
                == RunAction::Finished,
            final(self).windows() == old(self).windows(),
    {
        proof {
            use_type_invariant(&*self);
        }
        let mut store = GroupingStore::new();
        std::mem::swap(&mut self.grouped_ids, &mut store);
        let groups = store.drain();
        let steps = plan(&groups);
        let action = action_for(&steps, 0);
        proof {
            if groups_map(groups@) == Map::<Seq<char>, Set<ItemIdentifier>>::empty() {
                lemma_empty_mapping_has_no_groups(groups@);
                assert(plan_of(groups@).len() == 0);
            }
            assert(step_views(steps@).len() == steps@.len());
        }
        self.retrying = false;
        self.phase = Phase::Done;
        self.penalty_delay = 0;
        self.position = 0;
        self.grouped_ids = store;
        self.groups = groups;
        if steps.len() > 0 {
            self.steps = steps;
            self.phase = Phase::Processing;
        } else {
            self.steps = steps;
        }
        action
    }

    /// Whether the event answers the action that is under way.
    pub fn expects(&self, event: RunEvent) -> (yes: bool)
        ensures
            yes == expects(self.run(), event),
    {
        proof {
            use_type_invariant(self);
        }
        if self.phase != Phase::Processing {
            return false;
        }
        if self.retrying {
            return event == RunEvent::Slept;
        }
        assert(step_views(self.steps@)[self.position as int] == self.steps@[self.position as int]@);
        match &self.steps[self.position] {
            Step::CreateDir { .. } => event == RunEvent::DirCreated || event == RunEvent::DirFailed,
            Step::Download { .. } => match event {
                RunEvent::Saved => true,
                RunEvent::NotSaved(_) => true,
                _ => false,
            },
            Step::Pause { .. } => event == RunEvent::Slept,
        }
    }

    /// Goes on to the next step of the plan, or ends the run after the last.
    fn move_on(&mut self) -> (action: RunAction)
        requires
            old(self).run().running,
            !old(self).run().retrying,
        ensures
            (final(self).run(), action@) == move_on(old(self).run()),
            final(self).phase() == if final(self).run().running {
                Phase::Processing
            } else {
                Phase::Done
            },
            final(self).store() == old(self).store(),
            final(self).groups() == old(self).groups(),
            final(self).windows() == old(self).windows(),
    {
        proof {
            use_type_invariant(&*self);
            assert(step_views(self.steps@).len() == self.steps@.len());
        }
        let len = self.steps.len();
        let next = self.position + 1;
        if next >= len {
            self.phase = Phase::Done;
        }
        self.position = next;
        action_for(&self.steps, next)
    }

    /// Takes what happened to the action that was handed out last and hands
    /// out the next one. A saved item clears the penalty delay. A denied key
    /// raises it by a step: the run waits that long and asks for the same
    /// item again, unless the delay has passed its ceiling, which ends the
    /// run. Any other failure gives the item up and the run goes on.
    pub fn advance(&mut self, event: RunEvent) -> (action: RunAction)
        requires
            expects(old(self).run(), event),
        ensures
            (final(self).run(), action@) == run_step(old(self).run(), event),
            final(self).phase() == if final(self).run().running {
                Phase::Processing
            } else {
                Phase::Done
            },
            final(self).store() == old(self).store(),
            final(self).groups() == old(self).groups(),
            final(self).windows() == old(self).windows(),
    {
        proof {
            use_type_invariant(&*self);
            assert(step_views(self.steps@)[self.position as int] == self.steps@[self.position as int]@);
        }
        match event {
            RunEvent::DirCreated => self.move_on(),
            RunEvent::DirFailed => {
                self.phase = Phase::Done;
                RunAction::Failed(RunError::Io)
            },
            RunEvent::Slept => {
                if self.retrying {
                    self.retrying = false;
                    action_for(&self.steps, self.position)
                } else {
                    self.move_on()
                }
            },
            RunEvent::Saved => {
                self.penalty_delay = 0;
                self.move_on()
            },
            RunEvent::NotSaved(error) => {
                let (penalty, decision) = next_attempt(self.penalty_delay, Err(error));
                match decision {
                    RetryDecision::Proceed => self.move_on(),
                    RetryDecision::RetryAfter { seconds } => {
                        self.penalty_delay = penalty;
                        self.retrying = true;
                        RunAction::Sleep { seconds }
                    },
                    RetryDecision::Abort => {
                        self.phase = Phase::Done;
                        self.penalty_delay = penalty;
                        RunAction::Failed(RunError::Fatal)
                    },
                }
            },
        }
    }
}

} // verus!
