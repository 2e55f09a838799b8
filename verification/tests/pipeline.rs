use catalog_fetch::ident::{decode_base62, IdError, ItemIdentifier, ItemKind};
use catalog_fetch::loader::{FetchFailure, LoadError};
use catalog_fetch::processor::{read_line, Ingestion, ItemsProcessor, LineInput};
use catalog_fetch::run::{Phase, RunAction, RunError, RunEvent};
use catalog_fetch::schedule::{ItemError, Step};
use catalog_fetch::store::Group;

const DENIED: ItemError = ItemError::Load(LoadError::Fetch(FetchFailure::KeyDenied));

fn id(kind: ItemKind, text: &str) -> ItemIdentifier {
    ItemIdentifier { kind, id: decode_base62(text).unwrap() }
}

fn members_of<'a>(groups: &'a [Group], key: &str) -> Option<&'a Vec<ItemIdentifier>> {
    groups.iter().find(|g| g.key == key).map(|g| &g.members)
}

fn dir(key: &str) -> RunAction {
    RunAction::CreateDir { group: key.to_string() }
}

fn get(key: &str, item: ItemIdentifier) -> RunAction {
    RunAction::Download { group: key.to_string(), item }
}

fn sleep(seconds: u64) -> RunAction {
    RunAction::Sleep { seconds }
}

/// A processor that has begun a run over one group of tracks and created its
/// folder, so that the first download is under way.
fn downloading(ids: &[&str]) -> (ItemsProcessor, Vec<ItemIdentifier>) {
    let mut processor = ItemsProcessor::new(false);
    let items: Vec<ItemIdentifier> = ids.iter().map(|text| id(ItemKind::Track, text)).collect();
    assert!(processor.add_collection(ItemKind::Album, "A", &items));
    assert_eq!(processor.process_items(), dir("albums/A"));
    assert_eq!(processor.advance(RunEvent::DirCreated), get("albums/A", items[0]));
    (processor, items)
}

#[test]
fn done_ends_the_input() {
    assert_eq!(read_line("done"), LineInput::Done);
    assert_eq!(read_line("  done \n"), LineInput::Done);
    assert_eq!(read_line("\tdone\r\n"), LineInput::Done);
}

#[test]
fn other_lines_are_trimmed_text() {
    assert_eq!(read_line("Done"), LineInput::Text("Done".to_string()));
    assert_eq!(read_line("DONE"), LineInput::Text("DONE".to_string()));
    assert_eq!(read_line("done."), LineInput::Text("done.".to_string()));
    assert_eq!(read_line("not done"), LineInput::Text("not done".to_string()));
    assert_eq!(read_line("  spotify:track:T1 \n"), LineInput::Text("spotify:track:T1".to_string()));
    assert_eq!(read_line(""), LineInput::Text(String::new()));
}

#[test]
fn a_fresh_processor_has_nothing_to_do() {
    let mut processor = ItemsProcessor::new(false);
    assert!(processor.is_empty());
    assert_eq!(processor.penalty_delay(), 0);
    assert_eq!(processor.current_phase(), Phase::Idle);
    assert_eq!(processor.process_items(), RunAction::Finished);
    assert_eq!(processor.current_phase(), Phase::Done);
    assert!(processor.drained_groups().is_empty());
    assert!(processor.planned_steps().is_empty());
}

#[test]
fn lines_without_items_are_skipped() {
    let mut processor = ItemsProcessor::new(false);
    assert_eq!(processor.load_item("hello"), Ok(Ingestion::Skipped));
    assert_eq!(processor.load_item(""), Ok(Ingestion::Skipped));
    assert_eq!(processor.load_item("spotify:artist:abc"), Ok(Ingestion::Skipped));
    assert!(processor.is_empty());
    assert_eq!(processor.current_phase(), Phase::Ingesting);
}

#[test]
fn tracks_and_episodes_are_stored_at_once() {
    let mut processor = ItemsProcessor::new(false);
    let t = id(ItemKind::Track, "T1");
    let e = id(ItemKind::Episode, "E1");
    assert_eq!(processor.load_item("spotify:track:T1"), Ok(Ingestion::Stored(t)));
    assert_eq!(processor.load_item("https://open.spotify.com/episode/E1"), Ok(Ingestion::Stored(e)));
    processor.process_items();
    let groups = processor.drained_groups();
    assert_eq!(groups.len(), 2);
    assert_eq!(members_of(groups, "tracks"), Some(&vec![t]));
    assert_eq!(members_of(groups, "episodes"), Some(&vec![e]));
}

#[test]
fn collections_ask_for_a_lookup_and_store_nothing_yet() {
    let mut processor = ItemsProcessor::new(false);
    assert_eq!(
        processor.load_item("spotify:playlist:L1"),
        Ok(Ingestion::Lookup(id(ItemKind::Playlist, "L1")))
    );
    assert_eq!(
        processor.load_item("spotify:album:A1"),
        Ok(Ingestion::Lookup(id(ItemKind::Album, "A1")))
    );
    assert_eq!(
        processor.load_item("spotify:show:S1"),
        Ok(Ingestion::Lookup(id(ItemKind::Show, "S1")))
    );
    assert!(processor.is_empty());
}

#[test]
fn an_id_that_does_not_fit_is_an_error_for_that_line_only() {
    let mut processor = ItemsProcessor::new(false);
    assert_eq!(
        processor.load_item("spotify:track:ZZZZZZZZZZZZZZZZZZZZZZZZ"),
        Err(IdError::InvalidId)
    );
    assert!(processor.is_empty());
    assert_eq!(
        processor.load_item("spotify:track:T1"),
        Ok(Ingestion::Stored(id(ItemKind::Track, "T1")))
    );
    assert!(!processor.is_empty());
}

#[test]
fn collections_are_added_under_their_cleaned_name() {
    let mut processor = ItemsProcessor::new(false);
    let t1 = id(ItemKind::Track, "T1");
    let t2 = id(ItemKind::Track, "T2");
    let e1 = id(ItemKind::Episode, "E1");
    assert!(processor.add_collection(ItemKind::Playlist, " My/Mix ", &vec![t1, t2]));
    assert!(processor.add_collection(ItemKind::Album, "A:1", &vec![t2]));
    assert!(processor.add_collection(ItemKind::Show, "Talk", &vec![e1]));
    processor.process_items();
    let groups = processor.drained_groups();
    assert_eq!(groups.len(), 3);
    assert_eq!(members_of(groups, "playlists/MyMix"), Some(&vec![t1, t2]));
    assert_eq!(members_of(groups, "albums/A1"), Some(&vec![t2]));
    assert_eq!(members_of(groups, "shows/Talk"), Some(&vec![e1]));
}

#[test]
fn what_is_no_collection_is_not_added() {
    let mut processor = ItemsProcessor::new(false);
    let t1 = id(ItemKind::Track, "T1");
    assert!(!processor.add_collection(ItemKind::Track, "x", &vec![t1]));
    assert!(!processor.add_collection(ItemKind::Episode, "x", &vec![t1]));
    assert!(!processor.add_collection(ItemKind::Unknown, "x", &vec![t1]));
    assert!(processor.is_empty());
}

#[test]
fn overlapping_playlists_of_one_name_share_their_members() {
    let mut processor = ItemsProcessor::new(false);
    let t1 = id(ItemKind::Track, "T1");
    let t2 = id(ItemKind::Track, "T2");
    let t3 = id(ItemKind::Track, "T3");
    processor.add_collection(ItemKind::Playlist, "Mix", &vec![t1, t2]);
    processor.add_collection(ItemKind::Playlist, "Mix", &vec![t2, t3]);
    processor.process_items();
    assert_eq!(processor.drained_groups().len(), 1);
    assert_eq!(processor.drained_groups()[0].members, vec![t1, t2, t3]);
}

#[test]
fn end_to_end() {
    let mut processor = ItemsProcessor::new(false);
    let t1 = id(ItemKind::Track, "T1");
    let t2 = id(ItemKind::Track, "T2");
    let mut lookups = Vec::new();
    for line in ["spotify:track:T1", "spotify:album:A1", "done"] {
        match read_line(line) {
            LineInput::Done => break,
            LineInput::Text(text) => match processor.load_item(&text) {
                Ok(Ingestion::Lookup(item)) => lookups.push(item),
                Ok(_) => {}
                Err(e) => panic!("unexpected error {:?}", e),
            },
        }
    }
    assert_eq!(lookups, vec![id(ItemKind::Album, "A1")]);
    assert!(processor.add_collection(lookups[0].kind, "First Album", &vec![t1, t2]));
    assert_eq!(processor.current_phase(), Phase::Ingesting);

    assert_eq!(processor.process_items(), dir("tracks"));
    assert_eq!(processor.current_phase(), Phase::Processing);
    assert!(processor.is_empty());
    let groups = processor.drained_groups();
    assert_eq!(groups.len(), 2);
    assert_eq!(members_of(groups, "tracks"), Some(&vec![t1]));
    assert_eq!(members_of(groups, "albums/First Album"), Some(&vec![t1, t2]));
    assert_eq!(
        processor.planned_steps(),
        &vec![
            Step::CreateDir { group: "tracks".to_string() },
            Step::Download { group: "tracks".to_string(), item: t1 },
            Step::CreateDir { group: "albums/First Album".to_string() },
            Step::Download { group: "albums/First Album".to_string(), item: t1 },
            Step::Pause { seconds: 10 },
            Step::Download { group: "albums/First Album".to_string(), item: t2 },
        ]
    );

    assert_eq!(processor.advance(RunEvent::DirCreated), get("tracks", t1));
    assert_eq!(processor.advance(RunEvent::Saved), dir("albums/First Album"));
    assert_eq!(processor.advance(RunEvent::DirCreated), get("albums/First Album", t1));
    assert_eq!(processor.advance(RunEvent::Saved), sleep(10));
    assert_eq!(processor.advance(RunEvent::Slept), get("albums/First Album", t2));
    assert_eq!(processor.advance(RunEvent::Saved), RunAction::Finished);
    assert_eq!(processor.current_phase(), Phase::Done);

    assert_eq!(processor.process_items(), RunAction::Finished);
    assert!(processor.drained_groups().is_empty());
    assert!(processor.planned_steps().is_empty());
}

#[test]
fn three_denials_then_success() {
    let (mut processor, items) = downloading(&["T1", "T2"]);
    for expected in [60, 120, 180] {
        assert!(processor.expects(RunEvent::NotSaved(DENIED)));
        assert_eq!(processor.advance(RunEvent::NotSaved(DENIED)), sleep(expected));
        assert_eq!(processor.penalty_delay(), expected);
        assert!(processor.expects(RunEvent::Slept));
        assert!(!processor.expects(RunEvent::Saved));
        assert_eq!(processor.advance(RunEvent::Slept), get("albums/A", items[0]));
    }
    assert_eq!(processor.advance(RunEvent::Saved), sleep(10));
    assert_eq!(processor.penalty_delay(), 0);
    assert_eq!(processor.advance(RunEvent::Slept), get("albums/A", items[1]));
    assert_eq!(processor.advance(RunEvent::NotSaved(DENIED)), sleep(60));
}

#[test]
fn the_denial_that_passes_the_ceiling_ends_the_run() {
    let (mut processor, items) = downloading(&["T1", "T2"]);
    for expected in [60, 120, 180, 240, 300] {
        assert_eq!(processor.advance(RunEvent::NotSaved(DENIED)), sleep(expected));
        assert_eq!(processor.advance(RunEvent::Slept), get("albums/A", items[0]));
        assert_eq!(processor.current_phase(), Phase::Processing);
    }
    assert_eq!(
        processor.advance(RunEvent::NotSaved(DENIED)),
        RunAction::Failed(RunError::Fatal)
    );
    assert_eq!(processor.penalty_delay(), 360);
    assert_eq!(processor.current_phase(), Phase::Done);
    assert!(!processor.expects(RunEvent::Slept));
    assert!(!processor.expects(RunEvent::Saved));
}

#[test]
fn other_failures_give_the_item_up() {
    let others = [
        ItemError::Load(LoadError::Unavailable),
        ItemError::Load(LoadError::UnsupportedFormat),
        ItemError::Load(LoadError::Fetch(FetchFailure::Remote)),
        ItemError::Load(LoadError::Fetch(FetchFailure::Io)),
        ItemError::NoCover,
        ItemError::UnsupportedFormat,
        ItemError::Io,
    ];
    for error in others {
        let (mut processor, items) = downloading(&["T1", "T2"]);
        assert_eq!(processor.advance(RunEvent::NotSaved(DENIED)), sleep(60));
        assert_eq!(processor.advance(RunEvent::Slept), get("albums/A", items[0]));
        assert_eq!(processor.advance(RunEvent::NotSaved(error)), sleep(10));
        assert_eq!(processor.penalty_delay(), 60);
        assert_eq!(processor.advance(RunEvent::Slept), get("albums/A", items[1]));
        assert_eq!(processor.advance(RunEvent::NotSaved(error)), RunAction::Finished);
        assert_eq!(processor.current_phase(), Phase::Done);
    }
}

#[test]
fn a_folder_that_cannot_be_created_ends_the_run() {
    let mut processor = ItemsProcessor::new(false);
    processor.load_item("track:T1");
    assert_eq!(processor.process_items(), dir("tracks"));
    assert!(processor.expects(RunEvent::DirFailed));
    assert_eq!(processor.advance(RunEvent::DirFailed), RunAction::Failed(RunError::Io));
    assert_eq!(processor.current_phase(), Phase::Done);
}

#[test]
fn a_new_run_starts_without_penalty() {
    let (mut processor, _) = downloading(&["T1"]);
    assert_eq!(processor.advance(RunEvent::NotSaved(DENIED)), sleep(60));
    processor.load_item("track:T9");
    assert_eq!(processor.current_phase(), Phase::Processing);
    assert_eq!(processor.process_items(), dir("tracks"));
    assert_eq!(processor.penalty_delay(), 0);
    assert!(processor.expects(RunEvent::DirCreated));
}

#[test]
fn only_the_answer_to_the_action_under_way_is_expected() {
    let mut processor = ItemsProcessor::new(false);
    let all = [
        RunEvent::DirCreated,
        RunEvent::DirFailed,
        RunEvent::Saved,
        RunEvent::NotSaved(ItemError::Io),
        RunEvent::Slept,
    ];
    for event in all {
        assert!(!processor.expects(event));
    }
    processor.add_collection(ItemKind::Album, "A", &vec![id(ItemKind::Track, "T1"), id(ItemKind::Track, "T2")]);
    processor.process_items();
    assert_eq!(all.map(|e| processor.expects(e)), [true, true, false, false, false]);
    processor.advance(RunEvent::DirCreated);
    assert_eq!(all.map(|e| processor.expects(e)), [false, false, true, true, false]);
    processor.advance(RunEvent::Saved);
    assert_eq!(all.map(|e| processor.expects(e)), [false, false, false, false, true]);
}
