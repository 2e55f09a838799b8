//! Names on disk: cleaning a title so that it can name a file or a folder, the
//! folder of each kind of collection, and the file name of a saved item.

use crate::ident::ItemKind;
use sanitize_filename::{sanitize_with_options, Options};
use vstd::prelude::*;

verus! {

/// What `sanitize_filename` makes of a name: the name without the characters
/// that a path cannot hold. `windows` selects the stricter rules of that
/// platform.
pub uninterp spec fn sanitized(name: Seq<char>, windows: bool) -> Seq<char>;

/// A text without its leading and trailing white space.
pub uninterp spec fn trimmed(text: Seq<char>) -> Seq<char>;

/// A character that `sanitize_filename` never leaves in a name: one of
/// `/ ? < > \ : * | "`, or a control character.
pub open spec fn is_unsafe_char(c: char) -> bool {
    ||| c == '/'
    ||| c == '?'
    ||| c == '<'
    ||| c == '>'
    ||| c == '\\'
    ||| c == ':'
    ||| c == '*'
    ||| c == '|'
    ||| c == '"'
    ||| c as u32 <= 0x1f
    ||| 0x80 <= c as u32 <= 0x9f
}

/// The longest name, in bytes, that `sanitize_filename` hands out.
pub const MAX_NAME_BYTES: usize = 255;

/// A name that can stand in a path: none of its characters is unsafe, and it
/// is not too long.
pub open spec fn is_safe_name(name: Seq<char>) -> bool {
    &&& name.len() <= MAX_NAME_BYTES
    &&& forall|i: int| 0 <= i < name.len() ==> !is_unsafe_char(#[trigger] name[i])
}

/// Calls `sanitize_filename::sanitize_with_options` with the crate's default
/// options but for `windows`, which the caller chooses. The result is a
/// function of the two arguments. That crate only deletes: first every
/// character that is unsafe, then names that are reserved, last what goes
/// beyond 255 bytes; so the result holds no unsafe character and at most 255
/// characters.
#[verifier::external_body]
fn sanitize_text(name: &str, windows: bool) -> (clean: String)
    ensures
        clean@ == sanitized(name@, windows),
        is_safe_name(clean@),
{
    sanitize_with_options(name, Options { windows, ..Options::default() })
}

/// `inner` is a stretch of `text`.
pub open spec fn is_slice_of(inner: Seq<char>, text: Seq<char>) -> bool {
    exists|from: int, to: int|
        0 <= from <= to <= text.len() && inner == #[trigger] text.subrange(from, to)
}

/// Calls `str::trim`. The result is a function of the text, and a slice of
/// it.
#[verifier::external_body]
fn trim_text<'a>(text: &'a str) -> (inner: &'a str)
    ensures
        inner@ == trimmed(text@),
        is_slice_of(inner@, text@),
{
    text.trim()
}

/// A name made safe for the file system: sanitized, then trimmed.
pub open spec fn clean(name: Seq<char>, windows: bool) -> Seq<char> {
    trimmed(sanitized(name, windows))
}

/// The parts joined by `sep`.
pub open spec fn joined(parts: Seq<Seq<char>>, sep: Seq<char>) -> Seq<char>
    decreases parts.len(),
{
    if parts.len() == 0 {
        Seq::empty()
    } else if parts.len() == 1 {
        parts[0]
    } else {
        joined(parts.drop_last(), sep) + sep + parts.last()
    }
}

/// The text from which an item's file name is made: its title, a dash, and its
/// contributors separated by commas.
pub open spec fn display_text(title: Seq<char>, contributors: Seq<Seq<char>>) -> Seq<char> {
    title + " - "@ + joined(contributors, ", "@)
}

/// The folder shared by the items of a kind that were named one by one: tracks
/// and episodes have one each.
pub open spec fn direct_folder(kind: ItemKind) -> Option<Seq<char>> {
    match kind {
        ItemKind::Track => Some("tracks"@),
        ItemKind::Episode => Some("episodes"@),
        _ => None,
    }
}

/// The folder for an item of a kind, given the cleaned name of the collection
/// it belongs to. Tracks and episodes that were named one by one go to the
/// folder of their kind, whatever the name; an unknown kind has no folder.
pub open spec fn folder_of(kind: ItemKind, clean_name: Seq<char>) -> Option<Seq<char>> {
    match kind {
        ItemKind::Track => direct_folder(kind),
        ItemKind::Episode => direct_folder(kind),
        ItemKind::Playlist => Some("playlists/"@ + clean_name),
        ItemKind::Album => Some("albums/"@ + clean_name),
        ItemKind::Show => Some("shows/"@ + clean_name),
        ItemKind::Unknown => None,
    }
}

/// A trimmed copy of `text`.
pub(crate) fn trim(text: &str) -> (inner: String)
    ensures
        inner@ == trimmed(text@),
{
    String::from_str(trim_text(text))
}

/// Makes a name safe for the file system.
pub fn clean_name(name: &str, windows: bool) -> (cleaned: String)
    ensures
        cleaned@ == clean(name@, windows),
        is_safe_name(cleaned@),
{
    let safe = sanitize_text(name, windows);
    let inner = trim_text(safe.as_str());
    proof {
        let (from, to) = choose|from: int, to: int|
            0 <= from <= to <= safe@.len() && inner@ == #[trigger] safe@.subrange(from, to);
        assert forall|i: int| 0 <= i < inner@.len() implies !is_unsafe_char(
            #[trigger] inner@[i],
        ) by {
            assert(inner@[i] == safe@[from + i]);
        }
    }
    String::from_str(inner)
}

/// The folder shared by the items of a kind that were named one by one.
pub fn direct_folder_for(kind: ItemKind) -> (folder: Option<String>)
    ensures
        match folder {
            Some(f) => direct_folder(kind) == Some(f@),
            None => direct_folder(kind) is None,
        },
{
    match kind {
        ItemKind::Track => Some(String::from_str("tracks")),
        ItemKind::Episode => Some(String::from_str("episodes")),
        _ => None,
    }
}

/// The folder for an item of a kind, given the cleaned name of its collection.
pub fn folder_for(kind: ItemKind, clean_name: &str) -> (folder: Option<String>)
    ensures
        match folder {
            Some(f) => folder_of(kind, clean_name@) == Some(f@),
            None => folder_of(kind, clean_name@) is None,
        },
{
    match kind {
        ItemKind::Track => direct_folder_for(kind),
        ItemKind::Episode => direct_folder_for(kind),
        ItemKind::Playlist => Some(String::from_str("playlists/").concat(clean_name)),
        ItemKind::Album => Some(String::from_str("albums/").concat(clean_name)),
        ItemKind::Show => Some(String::from_str("shows/").concat(clean_name)),
        ItemKind::Unknown => None,
    }
}

/// The folder of a collection, from its name as the catalog gives it.
pub fn group_key(kind: ItemKind, name: &str, windows: bool) -> (folder: Option<String>)
    ensures
        match folder {
            Some(f) => folder_of(kind, clean(name@, windows)) == Some(f@) && is_safe_name(
                clean(name@, windows),
            ),
            None => folder_of(kind, clean(name@, windows)) is None,
        },
{
    let cleaned = clean_name(name, windows);
    folder_for(kind, cleaned.as_str())
}

/// Joins the parts with `sep` between them.
pub fn join(parts: &Vec<String>, sep: &str) -> (text: String)
    ensures
        text@ == joined(parts.deep_view(), sep@),
{
    let mut text = String::new();
    let mut i: usize = 0;
    while i < parts.len()
        invariant
            i <= parts.len(),
            text@ == joined(parts.deep_view().take(i as int), sep@),
        decreases parts.len() - i,
    {
        proof {
            let upto = parts.deep_view().take(i + 1);
            assert(upto.drop_last() =~= parts.deep_view().take(i as int));
            assert(upto.last() == parts[i as int]@);
            if i == 0 {
                assert(joined(upto.drop_last(), sep@) =~= Seq::<char>::empty());
            }
        }
        if i > 0 {
            text.append(sep);
        }
        text.append(parts[i].as_str());
        i += 1;
        proof {
            if i == 1 {
                assert(text@ =~= parts[0]@);
            }
        }
    }
    assert(parts.deep_view().take(i as int) =~= parts.deep_view());
    text
}

/// The text from which an item's file name is made.
pub fn display_name(title: &str, contributors: &Vec<String>) -> (text: String)
    ensures
        text@ == display_text(title@, contributors.deep_view()),
{
    let list = join(contributors, ", ");
    String::from_str(title).concat(" - ").concat(list.as_str())
}

/// The name of an item's file: the cleaned display text, a dot and the
/// extension.
pub fn file_name(title: &str, contributors: &Vec<String>, extension: &str, windows: bool) -> (name:
    String)
    ensures
        name@ == clean(display_text(title@, contributors.deep_view()), windows) + "."@
            + extension@,
        is_safe_name(clean(display_text(title@, contributors.deep_view()), windows)),
{
    let shown = display_name(title, contributors);
    clean_name(shown.as_str(), windows).concat(".").concat(extension)
}

} // verus!
