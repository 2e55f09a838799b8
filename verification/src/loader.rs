//! Loading one track: which item to play in place of an unavailable one, which
//! encoding to fetch, and how the fetched bytes become playable audio. The
//! loader decides; whoever drives it talks to the remote service.

use crate::format::{
    best_format, data_rate, is_ogg_vorbis, lemma_best_format_is_first, playable_bytes,
    select_encoding, stream_data_rate, strip_header, AudioFormat, FileId, FileMap, OGG_HEADER_LEN,
};
use crate::ident::ItemIdentifier;
use librespot_audio::AudioDecrypt;
use librespot_core::audio_key::AudioKey;
use std::io::Read;
use vstd::prelude::*;

verus! {

/// What only a track or only an episode has.
#[derive(Clone, Debug, PartialEq, Eq)]
pub enum UniqueFields {
    Track { artists: Vec<String>, album: String },
    Episode { show_name: String },
}

/// What the catalog says of a track or an episode.
#[derive(Debug)]
pub struct AudioItem {
    pub track_id: ItemIdentifier,
    pub name: String,
    /// Why the item cannot be played, where it cannot.
    pub unavailable: Option<String>,
    pub files: FileMap,
    /// Items that may be played in place of this one.
    pub alternatives: Option<Vec<ItemIdentifier>>,
    /// Addresses of the cover art, best first.
    pub covers: Vec<String>,
    pub unique_fields: UniqueFields,
}

/// A loaded track: the item, its decrypted audio and the encoding of it.
#[derive(Debug)]
pub struct LoadedTrackData {
    pub audio_item: AudioItem,
    pub audio_buffer: Vec<u8>,
    pub audio_file_format: AudioFormat,
}

/// Why a fetch from the remote service came to nothing.
#[derive(Clone, Copy, Debug, PartialEq, Eq, Structural)]
pub enum FetchFailure {
    /// The service refused the decryption key: its sign that requests come too
    /// fast.
    KeyDenied,
    /// Any other failure of the network or the session.
    Remote,
    /// The bytes could not be read locally.
    Io,
}

/// Why a track could not be loaded.
#[derive(Clone, Copy, Debug, PartialEq, Eq, Structural)]
pub enum LoadError {
    /// The item cannot be played, nor any of its alternatives.
    Unavailable,
    /// The item has no file in an encoding that can be saved.
    UnsupportedFormat,
    /// A fetch failed.
    Fetch(FetchFailure),
}

/// How an item can be played.
#[derive(Clone, Copy, Debug, PartialEq, Eq, Structural)]
pub enum Availability {
    /// The item has files of its own.
    Playable,
    /// The item has no files but names alternatives.
    Alternatives,
    /// The item is barred, or has neither files nor alternatives.
    Unavailable,
}

/// How an item can be played: not at all where the catalog gives a reason
/// against it; as it is where it has files; else through its alternatives,
/// where it names any.
pub open spec fn availability_of(item: AudioItem) -> Availability {
    if item.unavailable is Some {
        Availability::Unavailable
    } else if item.files@.dom() != Set::<AudioFormat>::empty() {
        Availability::Playable
    } else if item.alternatives is Some {
        Availability::Alternatives
    } else {
        Availability::Unavailable
    }
}

/// A probed alternative can be used: it was fetched, and the catalog gives no
/// reason against it.
pub open spec fn qualifies(candidate: Option<AudioItem>) -> bool {
    candidate matches Some(item) && item.unavailable is None
}

/// The first of the probed alternatives that can be used.
pub open spec fn first_qualified(candidates: Seq<Option<AudioItem>>) -> Option<AudioItem>
    decreases candidates.len(),
{
    if candidates.len() == 0 {
        None
    } else if qualifies(candidates[0]) {
        candidates[0]
    } else {
        first_qualified(candidates.drop_first())
    }
}

/// What `librespot_audio::AudioDecrypt` makes of a stream under a key.
pub uninterp spec fn decrypted(key: Seq<u8>, encrypted: Seq<u8>) -> Seq<u8>;

/// Calls `librespot_audio::AudioDecrypt::new` on the key and the bytes and
/// reads the resulting stream to its end. The cipher is a stream cipher under
/// a fixed nonce: the result is a function of key and bytes, and as long as
/// the input. Reading from memory does not fail.
#[verifier::external_body]
fn decrypt_audio(key: &[u8; 16], encrypted: &Vec<u8>) -> (plain: Vec<u8>)
    ensures
        plain@ == decrypted(key@, encrypted@),
        plain@.len() == encrypted@.len(),
{
    let mut plain = Vec::new();
    let _ = AudioDecrypt::new(AudioKey(*key), &encrypted[..]).read_to_end(&mut plain);
    plain
}

/// Says how an item can be played.
pub fn availability(item: &AudioItem) -> (how: Availability)
    ensures
        how == availability_of(*item),
{
    if item.unavailable.is_some() {
        Availability::Unavailable
    } else if !item.files.is_empty() {
        Availability::Playable
    } else if item.alternatives.is_some() {
        Availability::Alternatives
    } else {
        Availability::Unavailable
    }
}

/// Skipping candidates that cannot be used does not change which one is first.
proof fn lemma_first_qualified_skip(candidates: Seq<Option<AudioItem>>, upto: int)
    requires
        0 <= upto <= candidates.len(),
        forall|j: int| 0 <= j < upto ==> !qualifies(#[trigger] candidates[j]),
    ensures
        first_qualified(candidates) == first_qualified(candidates.skip(upto)),
    decreases upto,
{
    if upto == 0 {
        assert(candidates.skip(0) =~= candidates);
    } else {
        lemma_first_qualified_skip(candidates, upto - 1);
        let tail = candidates.skip(upto - 1);
        assert(tail[0] == candidates[upto - 1]);
        assert(tail.drop_first() =~= candidates.skip(upto));
    }
}

/// The alternative chosen is one that can be used, and none before it can; where
/// none is chosen, none can be used.
pub proof fn lemma_first_qualified_is_first(candidates: Seq<Option<AudioItem>>)
    ensures
        match first_qualified(candidates) {
            Some(item) => exists|i: int|
                0 <= i < candidates.len() && #[trigger] candidates[i] == Some(item) && qualifies(
                    candidates[i],
                ) && forall|j: int| 0 <= j < i ==> !qualifies(#[trigger] candidates[j]),
            None => forall|i: int|
                0 <= i < candidates.len() ==> !qualifies(#[trigger] candidates[i]),
        },
    decreases candidates.len(),
{
    if candidates.len() == 0 {
    } else if qualifies(candidates[0]) {
        assert(candidates[0] == Some(candidates[0]->0));
    } else {
        let rest = candidates.drop_first();
        lemma_first_qualified_is_first(rest);
        match first_qualified(rest) {
            Some(item) => {
                let i = choose|i: int|
                    0 <= i < rest.len() && #[trigger] rest[i] == Some(item) && qualifies(rest[i])
                        && forall|j: int| 0 <= j < i ==> !qualifies(#[trigger] rest[j]);
                assert(candidates[i + 1] == Some(item));
                assert forall|j: int| 0 <= j < i + 1 implies !qualifies(
                    #[trigger] candidates[j],
                ) by {
                    if j > 0 {
                        assert(rest[j - 1] == candidates[j]);
                    }
                }
            },
            None => {
                assert forall|i: int| 0 <= i < candidates.len() implies !qualifies(
                    #[trigger] candidates[i],
                ) by {
                    if i > 0 {
                        assert(rest[i - 1] == candidates[i]);
                    }
                }
            },
        }
    }
}

/// Picks, among probed alternatives in the order in which their probes ended,
/// the first that was fetched and is available. A failed probe is `None`.
pub fn pick_alternative(candidates: Vec<Option<AudioItem>>) -> (picked: Option<AudioItem>)
    ensures
        picked == first_qualified(candidates@),
{
    let mut pool = candidates;
    let mut i: usize = 0;
    while i < pool.len()
        invariant
            i <= pool.len(),
            pool@ == candidates@,
            forall|j: int| 0 <= j < i ==> !qualifies(#[trigger] pool[j]),
        decreases pool.len() - i,
    {
        let usable = match &pool[i] {
            Some(item) => item.unavailable.is_none(),
            None => false,
        };
        if usable {
            proof {
                lemma_first_qualified_skip(pool@, i as int);
                assert(pool@.skip(i as int)[0] == pool[i as int]);
            }
            return pool.remove(i);
        }
        i += 1;
    }
    proof {
        lemma_first_qualified_skip(pool@, i as int);
        assert(pool@.skip(i as int).len() == 0);
    }
    None
}

/// Turns fetched bytes into a loaded track: decrypts them under the key and
/// makes the result playable.
pub fn finish_load(item: AudioItem, format: AudioFormat, key: &[u8; 16], encrypted: &Vec<u8>) -> (track:
    LoadedTrackData)
    requires
        is_ogg_vorbis(format) ==> encrypted.len() >= OGG_HEADER_LEN,
    ensures
        track.audio_item == item,
        track.audio_file_format == format,
        track.audio_buffer@ == playable_bytes(format, decrypted(key@, encrypted@)),
{
    let plain = decrypt_audio(key, encrypted);
    let audio = strip_header(format, plain);
    LoadedTrackData { audio_item: item, audio_buffer: audio, audio_file_format: format }
}

/// Where a load stands.
#[derive(Debug)]
pub enum LoadState {
    /// Nothing is being loaded.
    Idle,
    /// The item's description was asked for.
    AwaitingItem { id: ItemIdentifier },
    /// The alternatives of an item without files are being probed.
    AwaitingAlternatives { id: ItemIdentifier },
    /// The file of the chosen encoding, and its key, were asked for.
    AwaitingFile { id: ItemIdentifier, item: AudioItem, format: AudioFormat },
}

/// What the remote service answered.
#[derive(Debug)]
pub enum LoadEvent {
    /// The description of the item asked for.
    ItemFetched(AudioItem),
    /// The outcome of each probe, in the order in which the probes ended; a
    /// probe that failed gives `None`.
    AlternativesProbed(Vec<Option<AudioItem>>),
    /// The decryption key and the whole encrypted file.
    FileFetched { key: [u8; 16], encrypted: Vec<u8> },
    /// The fetch that was asked for failed.
    Failed(FetchFailure),
}

/// What the driver is to do next.
#[derive(Debug)]
pub enum LoadAction {
    /// Fetch the description of this item.
    FetchItem(ItemIdentifier),
    /// Fetch the descriptions of these items, all at once.
    ProbeAlternatives(Vec<ItemIdentifier>),
    /// Open this file at the hinted rate, ask for the key of `track` and the
    /// file, and read the file to its end.
    FetchFile { track: ItemIdentifier, file: FileId, bytes_per_second: usize },
    /// The load has ended.
    Done(Result<LoadedTrackData, LoadError>),
}

/// Decides what is fetched next while a track is loaded.
#[derive(Debug)]
pub struct TrackLoader {
    pub state: LoadState,
}

/// The event answers what the state waits for; an Ogg Vorbis file is at least
/// as long as the packet that the service puts in front of it.
pub open spec fn accepts(state: LoadState, event: LoadEvent) -> bool {
    match (state, event) {
        (LoadState::Idle, _) => false,
        (_, LoadEvent::Failed(_)) => true,
        (LoadState::AwaitingItem { .. }, LoadEvent::ItemFetched(_)) => true,
        (LoadState::AwaitingAlternatives { .. }, LoadEvent::AlternativesProbed(_)) => true,
        (LoadState::AwaitingFile { format, .. }, LoadEvent::FileFetched { encrypted, .. }) => {
            is_ogg_vorbis(format) ==> encrypted.len() >= OGG_HEADER_LEN
        },
        _ => false,
    }
}

/// The step taken once the item to play is known: its best encoding is asked
/// for, or the load ends because it offers none that can be saved.
pub open spec fn begins_fetch(
    id: ItemIdentifier,
    item: AudioItem,
    after: LoadState,
    action: LoadAction,
) -> bool {
    match best_format(item.files@.dom()) {
        Some(format) => {
            &&& after == (LoadState::AwaitingFile { id, item, format })
            &&& action matches LoadAction::FetchFile { track, file, bytes_per_second }
            &&& track == id
            &&& file == item.files@[format]
            &&& data_rate(format) == Some(bytes_per_second as nat)
        },
        None => {
            &&& after == LoadState::Idle
            &&& action == LoadAction::Done(Err(LoadError::UnsupportedFormat))
        },
    }
}

/// One step of a load: what an event leads to, from a state that accepts it.
pub open spec fn load_step(
    before: LoadState,
    event: LoadEvent,
    after: LoadState,
    action: LoadAction,
) -> bool {
    match (before, event) {
        (_, LoadEvent::Failed(failure)) => {
            &&& after == LoadState::Idle
            &&& action == LoadAction::Done(Err(LoadError::Fetch(failure)))
        },
        (LoadState::AwaitingItem { id }, LoadEvent::ItemFetched(item)) => {
            match availability_of(item) {
                Availability::Unavailable => {
                    &&& after == LoadState::Idle
                    &&& action == LoadAction::Done(Err(LoadError::Unavailable))
                },
                Availability::Alternatives => {
                    &&& after == (LoadState::AwaitingAlternatives { id })
                    &&& action matches LoadAction::ProbeAlternatives(ids)
                    &&& Some(ids) == item.alternatives
                },
                Availability::Playable => begins_fetch(id, item, after, action),
            }
        },
        (LoadState::AwaitingAlternatives { id }, LoadEvent::AlternativesProbed(candidates)) => {
            match first_qualified(candidates@) {
                Some(item) => begins_fetch(id, item, after, action),
                None => {
                    &&& after == LoadState::Idle
                    &&& action == LoadAction::Done(Err(LoadError::Unavailable))
                },
            }
        },
        (
            LoadState::AwaitingFile { id, item, format },
            LoadEvent::FileFetched { key, encrypted },
        ) => {
            &&& after == LoadState::Idle
            &&& action matches LoadAction::Done(Ok(track))
            &&& track.audio_item == item
            &&& track.audio_file_format == format
            &&& track.audio_buffer@ == playable_bytes(format, decrypted(key@, encrypted@))
        },
        _ => true,
    }
}

impl TrackLoader {
    /// A loader that loads nothing yet.
    pub fn new() -> (loader: TrackLoader)
        ensures
            loader.state == LoadState::Idle,
    {
        TrackLoader { state: LoadState::Idle }
    }

    /// Begins to load a track, whatever was being loaded before.
    pub fn load_track(&mut self, id: ItemIdentifier) -> (action: LoadAction)
        ensures
            final(self).state == (LoadState::AwaitingItem { id }),
            action == LoadAction::FetchItem(id),
    {
        self.state = LoadState::AwaitingItem { id };
        LoadAction::FetchItem(id)
    }

    /// Whether the loader can take the event as it stands.
    pub fn accepts(&self, event: &LoadEvent) -> (yes: bool)
        ensures
            yes == accepts(self.state, *event),
    {
        match (&self.state, event) {
            (LoadState::Idle, _) => false,
            (_, LoadEvent::Failed(_)) => true,
            (LoadState::AwaitingItem { .. }, LoadEvent::ItemFetched(_)) => true,
            (LoadState::AwaitingAlternatives { .. }, LoadEvent::AlternativesProbed(_)) => true,
            (LoadState::AwaitingFile { format, .. }, LoadEvent::FileFetched { encrypted, .. }) => {
                !format.is_ogg_vorbis() || encrypted.len() >= OGG_HEADER_LEN
            },
            _ => false,
        }
    }

    /// Takes the answer to the last action and says what to do next. The load
    /// has ended when the action is `Done`; the loader is idle again then.
    pub fn advance(&mut self, event: LoadEvent) -> (action: LoadAction)
        requires
            accepts(old(self).state, event),
        ensures
            load_step(old(self).state, event, final(self).state, action),
    {
        let mut state = LoadState::Idle;
        std::mem::swap(&mut self.state, &mut state);
        match (state, event) {
            (_, LoadEvent::Failed(failure)) => LoadAction::Done(Err(LoadError::Fetch(failure))),
            (LoadState::AwaitingItem { id }, LoadEvent::ItemFetched(item)) => {
                match availability(&item) {
                    Availability::Unavailable => LoadAction::Done(Err(LoadError::Unavailable)),
                    Availability::Alternatives => match item.alternatives {
                        Some(ids) => {
                            self.state = LoadState::AwaitingAlternatives { id };
                            LoadAction::ProbeAlternatives(ids)
                        },
                        None => LoadAction::Done(Err(LoadError::Unavailable)),
                    },
                    Availability::Playable => self.begin_fetch(id, item),
                }
            },
            (LoadState::AwaitingAlternatives { id }, LoadEvent::AlternativesProbed(candidates)) => {
                match pick_alternative(candidates) {
                    Some(item) => self.begin_fetch(id, item),
                    None => LoadAction::Done(Err(LoadError::Unavailable)),
                }
            },
            (
                LoadState::AwaitingFile { id, item, format },
                LoadEvent::FileFetched { key, encrypted },
            ) => LoadAction::Done(Ok(finish_load(item, format, &key, &encrypted))),
            _ => LoadAction::Done(Err(LoadError::Unavailable)),
        }
    }

    /// Chooses the encoding of the item to play and asks for its file.
    fn begin_fetch(&mut self, id: ItemIdentifier, item: AudioItem) -> (action: LoadAction)
        requires
            old(self).state == LoadState::Idle,
        ensures
            begins_fetch(id, item, final(self).state, action),
    {
        match select_encoding(&item.files) {
            Some((format, file)) => {
                proof {
                    lemma_best_format_is_first(item.files@.dom());
                }
                match stream_data_rate(format) {
                    Some(bytes_per_second) => {
                        self.state = LoadState::AwaitingFile { id, item, format };
                        LoadAction::FetchFile { track: id, file, bytes_per_second }
                    },
                    None => LoadAction::Done(Err(LoadError::UnsupportedFormat)),
                }
            },
            None => LoadAction::Done(Err(LoadError::UnsupportedFormat)),
        }
    }
}

} // verus!
