use catalog_fetch::format::{AudioFormat, FileId, FileMap};
use catalog_fetch::ident::{ItemIdentifier, ItemKind};
use catalog_fetch::loader::{
    availability, finish_load, pick_alternative, AudioItem, Availability, FetchFailure, LoadAction,
    LoadError, LoadEvent, LoadState, LoadedTrackData, TrackLoader, UniqueFields,
};

const KEY: [u8; 16] = [0, 1, 2, 3, 4, 5, 6, 7, 8, 9, 10, 11, 12, 13, 14, 15];

fn track(id: u128) -> ItemIdentifier {
    ItemIdentifier { kind: ItemKind::Track, id }
}

fn file(n: u8) -> FileId {
    FileId { bytes: [n; 20] }
}

fn files(entries: &[(AudioFormat, u8)]) -> FileMap {
    let mut map = FileMap::new();
    for (format, n) in entries {
        map.insert(*format, file(*n));
    }
    map
}

fn item(id: u128, name: &str, entries: &[(AudioFormat, u8)]) -> AudioItem {
    AudioItem {
        track_id: track(id),
        name: name.to_string(),
        unavailable: None,
        files: files(entries),
        alternatives: None,
        covers: vec!["https://i.scdn.co/image/cover".to_string()],
        unique_fields: UniqueFields::Track {
            artists: vec!["Artist".to_string()],
            album: "Album".to_string(),
        },
    }
}

fn barred(id: u128) -> AudioItem {
    let mut it = item(id, "barred", &[(AudioFormat::OggVorbis320, 1)]);
    it.unavailable = Some("not in your country".to_string());
    it
}

fn loaded(action: LoadAction) -> LoadedTrackData {
    match action {
        LoadAction::Done(Ok(track)) => track,
        other => panic!("expected a loaded track, got {:?}", other),
    }
}

fn failure(action: LoadAction) -> LoadError {
    match action {
        LoadAction::Done(Err(e)) => e,
        other => panic!("expected a failure, got {:?}", other),
    }
}

#[test]
fn availability_of_each_shape_of_item() {
    assert_eq!(availability(&item(1, "a", &[(AudioFormat::Mp3_96, 1)])), Availability::Playable);
    assert_eq!(availability(&barred(1)), Availability::Unavailable);
    let mut with_alternatives = item(1, "a", &[]);
    with_alternatives.alternatives = Some(vec![track(2)]);
    assert_eq!(availability(&with_alternatives), Availability::Alternatives);
    let mut none_listed = item(1, "a", &[]);
    none_listed.alternatives = Some(Vec::new());
    assert_eq!(availability(&none_listed), Availability::Alternatives);
    assert_eq!(availability(&item(1, "a", &[])), Availability::Unavailable);
    let mut barred_with_alternatives = barred(1);
    barred_with_alternatives.alternatives = Some(vec![track(2)]);
    assert_eq!(availability(&barred_with_alternatives), Availability::Unavailable);
}

#[test]
fn second_of_three_alternatives_is_used() {
    let picked = pick_alternative(vec![
        Some(barred(11)),
        Some(item(12, "second", &[(AudioFormat::Mp3_160, 2)])),
        None,
    ]);
    let picked = picked.expect("one alternative is available");
    assert_eq!(picked.track_id, track(12));
    assert_eq!(picked.name, "second");
}

#[test]
fn first_available_alternative_wins() {
    let picked = pick_alternative(vec![
        None,
        Some(item(21, "first", &[])),
        Some(item(22, "later", &[(AudioFormat::Mp3_160, 2)])),
    ]);
    assert_eq!(picked.map(|p| p.track_id), Some(track(21)));
}

#[test]
fn no_alternative_qualifies() {
    assert!(pick_alternative(Vec::new()).is_none());
    assert!(pick_alternative(vec![None, Some(barred(1)), None]).is_none());
}

#[test]
fn decrypts_with_the_service_cipher() {
    let encrypted: Vec<u8> = (0..20).collect();
    let track = finish_load(item(1, "t", &[]), AudioFormat::Mp3_320, &KEY, &encrypted);
    assert_eq!(
        track.audio_buffer,
        vec![
            190, 179, 94, 237, 1, 210, 17, 175, 57, 236, 103, 110, 117, 70, 165, 162, 216, 117, 65,
            193
        ]
    );
    assert_eq!(track.audio_file_format, AudioFormat::Mp3_320);
    assert_eq!(track.audio_item.track_id, track.audio_item.track_id);
}

#[test]
fn decrypting_twice_gives_the_bytes_back() {
    let bytes: Vec<u8> = (0..100).map(|i| (i * 7) as u8).collect();
    let once = finish_load(item(1, "t", &[]), AudioFormat::Mp3_96, &KEY, &bytes).audio_buffer;
    assert_ne!(once, bytes);
    assert_eq!(once.len(), bytes.len());
    let twice = finish_load(item(1, "t", &[]), AudioFormat::Mp3_96, &KEY, &once).audio_buffer;
    assert_eq!(twice, bytes);
}

#[test]
fn another_key_gives_other_bytes() {
    let bytes = vec![0u8; 32];
    let a = finish_load(item(1, "t", &[]), AudioFormat::Mp3_96, &KEY, &bytes).audio_buffer;
    let b = finish_load(item(1, "t", &[]), AudioFormat::Mp3_96, &[7u8; 16], &bytes).audio_buffer;
    assert_ne!(a, b);
}

#[test]
fn ogg_audio_is_decrypted_then_stripped() {
    let encrypted: Vec<u8> = (0..0xa7 + 5).map(|i| (i % 251) as u8).collect();
    let track = finish_load(item(1, "t", &[]), AudioFormat::OggVorbis160, &KEY, &encrypted);
    assert_eq!(track.audio_buffer, vec![35, 35, 27, 34, 164]);
}

#[test]
fn loads_a_playable_track() {
    let mut loader = TrackLoader::new();
    assert!(matches!(loader.state, LoadState::Idle));
    let action = loader.load_track(track(1));
    assert!(matches!(action, LoadAction::FetchItem(id) if id == track(1)));

    let fetched =
        LoadEvent::ItemFetched(item(1, "song", &[(AudioFormat::OggVorbis96, 1), (AudioFormat::Mp3_320, 2)]));
    assert!(loader.accepts(&fetched));
    match loader.advance(fetched) {
        LoadAction::FetchFile { track: t, file: f, bytes_per_second } => {
            assert_eq!(t, track(1));
            assert_eq!(f, file(2));
            assert_eq!(bytes_per_second, 40960);
        }
        other => panic!("expected a file request, got {:?}", other),
    }

    let encrypted: Vec<u8> = (0..20).collect();
    let got = LoadEvent::FileFetched { key: KEY, encrypted };
    assert!(loader.accepts(&got));
    let track_data = loaded(loader.advance(got));
    assert_eq!(track_data.audio_file_format, AudioFormat::Mp3_320);
    assert_eq!(track_data.audio_item.name, "song");
    assert_eq!(track_data.audio_buffer[..4], [190, 179, 94, 237]);
    assert!(matches!(loader.state, LoadState::Idle));
}

#[test]
fn loads_through_an_alternative() {
    let mut loader = TrackLoader::new();
    loader.load_track(track(1));
    let mut primary = item(1, "primary", &[]);
    primary.alternatives = Some(vec![track(11), track(12), track(13)]);
    match loader.advance(LoadEvent::ItemFetched(primary)) {
        LoadAction::ProbeAlternatives(ids) => assert_eq!(ids, vec![track(11), track(12), track(13)]),
        other => panic!("expected a probe, got {:?}", other),
    }
    let probed = LoadEvent::AlternativesProbed(vec![
        Some(barred(11)),
        Some(item(12, "alternative", &[(AudioFormat::OggVorbis320, 9)])),
        None,
    ]);
    assert!(loader.accepts(&probed));
    match loader.advance(probed) {
        LoadAction::FetchFile { track: t, file: f, bytes_per_second } => {
            assert_eq!(t, track(1));
            assert_eq!(f, file(9));
            assert_eq!(bytes_per_second, 40960);
        }
        other => panic!("expected a file request, got {:?}", other),
    }
    let encrypted: Vec<u8> = (0..0xa7 + 5).map(|i| (i % 251) as u8).collect();
    let track_data = loaded(loader.advance(LoadEvent::FileFetched { key: KEY, encrypted }));
    assert_eq!(track_data.audio_item.name, "alternative");
    assert_eq!(track_data.audio_item.track_id, track(12));
    assert_eq!(track_data.audio_file_format, AudioFormat::OggVorbis320);
    assert_eq!(track_data.audio_buffer, vec![35, 35, 27, 34, 164]);
}

#[test]
fn barred_item_is_unavailable() {
    let mut loader = TrackLoader::new();
    loader.load_track(track(1));
    assert_eq!(failure(loader.advance(LoadEvent::ItemFetched(barred(1)))), LoadError::Unavailable);
    assert!(matches!(loader.state, LoadState::Idle));
}

#[test]
fn item_without_files_or_alternatives_is_unavailable() {
    let mut loader = TrackLoader::new();
    loader.load_track(track(1));
    assert_eq!(
        failure(loader.advance(LoadEvent::ItemFetched(item(1, "bare", &[])))),
        LoadError::Unavailable
    );
}

#[test]
fn no_usable_alternative_is_unavailable() {
    let mut loader = TrackLoader::new();
    loader.load_track(track(1));
    let mut primary = item(1, "primary", &[]);
    primary.alternatives = Some(vec![track(11), track(12)]);
    loader.advance(LoadEvent::ItemFetched(primary));
    let probed = LoadEvent::AlternativesProbed(vec![None, Some(barred(12))]);
    assert_eq!(failure(loader.advance(probed)), LoadError::Unavailable);
}

#[test]
fn no_recognised_encoding_is_unsupported() {
    let mut loader = TrackLoader::new();
    loader.load_track(track(1));
    let only_aac = item(1, "aac", &[(AudioFormat::Aac160, 1), (AudioFormat::Flac, 2)]);
    assert_eq!(
        failure(loader.advance(LoadEvent::ItemFetched(only_aac))),
        LoadError::UnsupportedFormat
    );
}

#[test]
fn alternative_without_files_is_unsupported() {
    let mut loader = TrackLoader::new();
    loader.load_track(track(1));
    let mut primary = item(1, "primary", &[]);
    primary.alternatives = Some(vec![track(11)]);
    loader.advance(LoadEvent::ItemFetched(primary));
    let probed = LoadEvent::AlternativesProbed(vec![Some(item(11, "empty", &[]))]);
    assert_eq!(failure(loader.advance(probed)), LoadError::UnsupportedFormat);
}

#[test]
fn failures_end_the_load_with_their_class() {
    for failed in [FetchFailure::KeyDenied, FetchFailure::Remote, FetchFailure::Io] {
        let mut loader = TrackLoader::new();
        loader.load_track(track(1));
        assert_eq!(failure(loader.advance(LoadEvent::Failed(failed))), LoadError::Fetch(failed));
        assert!(matches!(loader.state, LoadState::Idle));

        loader.load_track(track(1));
        loader.advance(LoadEvent::ItemFetched(item(1, "song", &[(AudioFormat::Mp3_96, 1)])));
        assert_eq!(failure(loader.advance(LoadEvent::Failed(failed))), LoadError::Fetch(failed));
    }
}

#[test]
fn loader_takes_only_the_answer_it_waits_for() {
    let mut loader = TrackLoader::new();
    let fetched = LoadEvent::ItemFetched(item(1, "song", &[(AudioFormat::Mp3_96, 1)]));
    let probed = LoadEvent::AlternativesProbed(Vec::new());
    let got = LoadEvent::FileFetched { key: KEY, encrypted: vec![0; 10] };
    let failed = LoadEvent::Failed(FetchFailure::Remote);
    assert!(!loader.accepts(&fetched));
    assert!(!loader.accepts(&failed));

    loader.load_track(track(1));
    assert!(loader.accepts(&fetched));
    assert!(loader.accepts(&failed));
    assert!(!loader.accepts(&probed));
    assert!(!loader.accepts(&got));

    loader.advance(fetched);
    assert!(loader.accepts(&got));
    assert!(!loader.accepts(&probed));
}

#[test]
fn short_ogg_file_is_not_accepted() {
    let mut loader = TrackLoader::new();
    loader.load_track(track(1));
    loader.advance(LoadEvent::ItemFetched(item(1, "song", &[(AudioFormat::OggVorbis96, 1)])));
    assert!(!loader.accepts(&LoadEvent::FileFetched { key: KEY, encrypted: vec![0; 166] }));
    assert!(loader.accepts(&LoadEvent::FileFetched { key: KEY, encrypted: vec![0; 167] }));
}
