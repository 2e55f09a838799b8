//! Saving a loaded track: the name of its file, the command that tags and
//! writes it, and the plain write that takes over where the command cannot.

use crate::format::{extension_of, is_ogg_vorbis, AudioFormat};
use crate::ident::base62_text;
use crate::loader::{LoadedTrackData, UniqueFields};
use crate::names::{clean, display_text, file_name};
use crate::schedule::ItemError;
use vstd::prelude::*;

verus! {

/// What is needed to save one loaded track.
#[derive(Clone, Debug, PartialEq, Eq)]
pub struct SavePlan {
    pub format: AudioFormat,
    /// Name of the file inside the folder of its group.
    pub file_name: String,
    /// The catalog id in its canonical text.
    pub track_id: String,
    pub title: String,
    /// The album of a track, the show of an episode.
    pub group_name: String,
    pub cover_url: String,
    /// The artists of a track; an episode has none.
    pub origins: Vec<String>,
}

/// An outside program with its arguments.
#[derive(Clone, Debug, PartialEq, Eq)]
pub struct HelperCommand {
    pub program: String,
    pub args: Vec<String>,
}

/// What happened while a track was being saved.
#[derive(Clone, Copy, Debug, PartialEq, Eq, Structural)]
pub enum SaveEvent {
    /// The destination was looked for.
    Checked { exists: bool },
    /// The helper ran to its end.
    HelperExited { success: bool },
    /// The helper could not be started or fed.
    HelperFailed,
    /// The raw bytes were written to the destination.
    Written,
    /// The raw bytes could not be written.
    WriteFailed,
}

/// What to do next while a track is being saved.
#[derive(Debug, PartialEq, Eq)]
pub enum SaveAction {
    /// Start the program, feed it the audio on its standard input and wait for
    /// it.
    RunHelper(HelperCommand),
    /// Write the audio to the destination as it is.
    WriteRaw,
    /// The save has ended.
    Done(Result<(), ItemError>),
}

/// The contributors named in a file name: the artists of a track, none for an
/// episode.
pub open spec fn origins_of(fields: UniqueFields) -> Seq<Seq<char>> {
    match fields {
        UniqueFields::Track { artists, .. } => artists.deep_view(),
        UniqueFields::Episode { .. } => Seq::empty(),
    }
}

/// The album of a track, the show of an episode.
pub open spec fn group_name_of(fields: UniqueFields) -> Seq<char> {
    match fields {
        UniqueFields::Track { album, .. } => album@,
        UniqueFields::Episode { show_name } => show_name@,
    }
}

/// Why no plan can be made for a track, if none can: it has no cover, or its
/// encoding has no file extension. The missing cover is found first.
pub open spec fn plan_error(track: LoadedTrackData) -> Option<ItemError> {
    if track.audio_item.covers.len() == 0 {
        Some(ItemError::NoCover)
    } else if extension_of(track.audio_file_format) is None {
        Some(ItemError::UnsupportedFormat)
    } else {
        None
    }
}

/// The plan is the one for the track.
pub open spec fn plans(track: LoadedTrackData, windows: bool, plan: SavePlan) -> bool {
    let item = track.audio_item;
    &&& plan.format == track.audio_file_format
    &&& plan.file_name@ == clean(display_text(item.name@, origins_of(item.unique_fields)), windows)
        + "."@ + extension_of(track.audio_file_format)->0
    &&& plan.track_id@ == base62_text(item.track_id.id)
    &&& plan.title@ == item.name@
    &&& plan.group_name@ == group_name_of(item.unique_fields)
    &&& plan.cover_url@ == item.covers[0]@
    &&& plan.origins.deep_view() == origins_of(item.unique_fields)
}

/// The program that tags and writes files with the given extension, for those
/// that have one.
pub open spec fn helper_program(extension: Seq<char>) -> Option<Seq<char>> {
    if extension == "ogg"@ {
        Some("tag_ogg.sh"@)
    } else {
        None
    }
}

/// The arguments of the helper, in their order: catalog id, title, group name,
/// destination, cover address, then the contributors.
pub open spec fn helper_args(plan: SavePlan, destination: Seq<char>) -> Seq<Seq<char>> {
    seq![plan.track_id@, plan.title@, plan.group_name@, destination, plan.cover_url@]
        + plan.origins.deep_view()
}

/// The command is the helper's for the plan and the destination.
pub open spec fn is_helper_command(
    plan: SavePlan,
    destination: Seq<char>,
    command: HelperCommand,
) -> bool {
    &&& helper_program(extension_of(plan.format)->0) == Some(command.program@)
    &&& command.args.deep_view() == helper_args(plan, destination)
}

/// Whether the plan's encoding has a helper.
pub open spec fn has_helper(plan: SavePlan) -> bool {
    extension_of(plan.format) matches Some(ext) && helper_program(ext) is Some
}

/// The extension `ogg` belongs to the Ogg Vorbis encodings and to no other.
pub proof fn lemma_ogg_extension(format: AudioFormat)
    ensures
        extension_of(format) == Some("ogg"@) <==> is_ogg_vorbis(format),
{
    reveal_strlit("ogg");
    reveal_strlit("mp3");
    reveal_strlit("flac");
    if !is_ogg_vorbis(format) {
        if extension_of(format) == Some("mp3"@) {
            assert("mp3"@[0] != "ogg"@[0]);
        }
        if extension_of(format) == Some("flac"@) {
            assert("flac"@.len() != "ogg"@.len());
        }
    }
}

/// A copy of a list of strings.
fn copy_strings(list: &Vec<String>) -> (copy: Vec<String>)
    ensures
        copy@ == list@,
{
    let mut copy: Vec<String> = Vec::new();
    let mut i: usize = 0;
    while i < list.len()
        invariant
            i <= list.len(),
            copy@ == list@.take(i as int),
        decreases list.len() - i,
    {
        copy.push(list[i].clone());
        i += 1;
    }
    assert(list@.take(i as int) =~= list@);
    copy
}

/// Makes the plan for saving a loaded track.
pub fn save_plan(track: &LoadedTrackData, windows: bool) -> (plan: Result<SavePlan, ItemError>)
    ensures
        match plan {
            Ok(p) => plan_error(*track) is None && plans(*track, windows, p),
            Err(e) => plan_error(*track) == Some(e),
        },
{
    let item = &track.audio_item;
    let (origins, group_name) = match &item.unique_fields {
        UniqueFields::Track { artists, album } => (copy_strings(artists), album.clone()),
        UniqueFields::Episode { show_name } => (Vec::new(), show_name.clone()),
    };
    if item.covers.len() == 0 {
        return Err(ItemError::NoCover);
    }
    let cover_url = item.covers[0].clone();
    let track_id = item.track_id.to_base62();
    let extension = match track.audio_file_format.extension() {
        Some(e) => e,
        None => {
            return Err(ItemError::UnsupportedFormat);
        },
    };
    let name = file_name(item.name.as_str(), &origins, extension, windows);
    assert(origins.deep_view() =~= origins_of(item.unique_fields));
    Ok(
        SavePlan {
            format: track.audio_file_format,
            file_name: name,
            track_id,
            title: item.name.clone(),
            group_name,
            cover_url,
            origins,
        },
    )
}

/// The helper command for a plan and a destination, where the plan's encoding
/// has a helper.
pub fn helper_command(plan: &SavePlan, destination: &str) -> (command: Option<HelperCommand>)
    ensures
        match command {
            Some(c) => has_helper(*plan) && is_helper_command(*plan, destination@, c),
            None => !has_helper(*plan),
        },
{
    proof {
        lemma_ogg_extension(plan.format);
    }
    if !plan.format.is_ogg_vorbis() {
        return None;
    }
    let mut args: Vec<String> = Vec::new();
    args.push(plan.track_id.clone());
    args.push(plan.title.clone());
    args.push(plan.group_name.clone());
    args.push(String::from_str(destination));
    args.push(plan.cover_url.clone());
    let ghost fixed = args@;
    let mut i: usize = 0;
    while i < plan.origins.len()
        invariant
            i <= plan.origins.len(),
            args@ == fixed + plan.origins@.take(i as int),
        decreases plan.origins.len() - i,
    {
        args.push(plan.origins[i].clone());
        i += 1;
    }
    proof {
        assert(plan.origins@.take(i as int) =~= plan.origins@);
        assert(args.deep_view() =~= helper_args(*plan, destination@));
    }
    Some(HelperCommand { program: String::from_str("tag_ogg.sh"), args })
}

/// Decides the next step of a save. A destination that exists ends the save at
/// once: the file counts as saved and is not touched. Otherwise the helper
/// runs where the encoding has one; where it has none, or the helper cannot
/// run or fails, the raw bytes are written.
pub fn save_step(plan: &SavePlan, destination: &str, event: SaveEvent) -> (action: SaveAction)
    ensures
        match event {
            SaveEvent::Checked { exists: true } => action == SaveAction::Done(Ok(())),
            SaveEvent::Checked { exists: false } => if has_helper(*plan) {
                action matches SaveAction::RunHelper(c) && is_helper_command(
                    *plan,
                    destination@,
                    c,
                )
            } else {
                action == SaveAction::WriteRaw
            },
            SaveEvent::HelperExited { success: true } => action == SaveAction::Done(Ok(())),
            SaveEvent::HelperExited { success: false } => action == SaveAction::WriteRaw,
            SaveEvent::HelperFailed => action == SaveAction::WriteRaw,
            SaveEvent::Written => action == SaveAction::Done(Ok(())),
            SaveEvent::WriteFailed => action == SaveAction::Done(Err(ItemError::Io)),
        },
{
    match event {
        SaveEvent::Checked { exists } => {
            if exists {
                SaveAction::Done(Ok(()))
            } else {
                match helper_command(plan, destination) {
                    Some(command) => SaveAction::RunHelper(command),
                    None => SaveAction::WriteRaw,
                }
            }
        },
        SaveEvent::HelperExited { success } => {
            if success {
                SaveAction::Done(Ok(()))
            } else {
                SaveAction::WriteRaw
            }
        },
        SaveEvent::HelperFailed => SaveAction::WriteRaw,
        SaveEvent::Written => SaveAction::Done(Ok(())),
        SaveEvent::WriteFailed => SaveAction::Done(Err(ItemError::Io)),
    }
}

} // verus!
