//! Audio encodings: which ones an item offers, which one is preferred, how fast
//! its bytes are expected to arrive and what its file is called.

use vstd::prelude::*;

verus! {

/// An encoding in which the catalog may offer an item's audio.
#[allow(non_camel_case_types)]
#[derive(Clone, Copy, Debug, PartialEq, Eq, Hash, Structural)]
pub enum AudioFormat {
    OggVorbis96,
    OggVorbis160,
    OggVorbis320,
    Mp3_256,
    Mp3_320,
    Mp3_160,
    Mp3_96,
    Mp3_160Enc,
    Aac24,
    Aac48,
    Aac160,
    Aac320,
    Mp4_128,
    Other5,
    Flac,
    Unknown,
}

/// The handle under which the remote service keeps one encoded file.
#[derive(Clone, Copy, Debug, PartialEq, Eq)]
pub struct FileId {
    pub bytes: [u8; 20],
}

/// One offered encoding with the handle of its file.
#[derive(Clone, Copy, Debug, PartialEq, Eq)]
pub struct FileEntry {
    pub format: AudioFormat,
    pub file: FileId,
}

/// The encodings that an item offers, each with the handle of its file. No
/// encoding occurs twice.
#[derive(Debug)]
pub struct FileMap {
    entries: Vec<FileEntry>,
}

/// The encodings that can be saved, best first.
pub open spec fn priority() -> Seq<AudioFormat> {
    seq![
        AudioFormat::OggVorbis320,
        AudioFormat::Mp3_320,
        AudioFormat::Mp3_256,
        AudioFormat::OggVorbis160,
        AudioFormat::Mp3_160,
        AudioFormat::OggVorbis96,
        AudioFormat::Mp3_96,
    ]
}

/// The first encoding of `order` that `offered` holds.
pub open spec fn first_offered(order: Seq<AudioFormat>, offered: Set<AudioFormat>) -> Option<
    AudioFormat,
>
    decreases order.len(),
{
    if order.len() == 0 {
        None
    } else if offered.contains(order[0]) {
        Some(order[0])
    } else {
        first_offered(order.drop_first(), offered)
    }
}

/// The encoding to fetch: the best one among those offered.
pub open spec fn best_format(offered: Set<AudioFormat>) -> Option<AudioFormat> {
    first_offered(priority(), offered)
}

/// Whether the encoding is Vorbis audio in an Ogg container.
pub open spec fn is_ogg_vorbis(format: AudioFormat) -> bool {
    format == AudioFormat::OggVorbis320 || format == AudioFormat::OggVorbis160 || format
        == AudioFormat::OggVorbis96
}

/// Whether the encoding is MP3.
pub open spec fn is_mp3(format: AudioFormat) -> bool {
    format == AudioFormat::Mp3_320 || format == AudioFormat::Mp3_256 || format
        == AudioFormat::Mp3_160 || format == AudioFormat::Mp3_96 || format
        == AudioFormat::Mp3_160Enc
}

/// Whether the encoding is FLAC.
pub open spec fn is_flac(format: AudioFormat) -> bool {
    format == AudioFormat::Flac
}

/// The expected rate of an encoding in kilobytes per second; the unknown
/// encoding has none.
pub open spec fn kilobytes_per_second(format: AudioFormat) -> Option<nat> {
    match format {
        AudioFormat::OggVorbis96 => Some(12),
        AudioFormat::OggVorbis160 => Some(20),
        AudioFormat::OggVorbis320 => Some(40),
        AudioFormat::Mp3_256 => Some(32),
        AudioFormat::Mp3_320 => Some(40),
        AudioFormat::Mp3_160 => Some(20),
        AudioFormat::Mp3_96 => Some(12),
        AudioFormat::Mp3_160Enc => Some(20),
        AudioFormat::Aac24 => Some(3),
        AudioFormat::Aac48 => Some(6),
        AudioFormat::Aac160 => Some(20),
        AudioFormat::Aac320 => Some(40),
        AudioFormat::Mp4_128 => Some(16),
        AudioFormat::Other5 => Some(40),
        AudioFormat::Flac => Some(112),
        AudioFormat::Unknown => None,
    }
}

/// The expected rate of an encoding in bytes per second.
pub open spec fn data_rate(format: AudioFormat) -> Option<nat> {
    match kilobytes_per_second(format) {
        Some(k) => Some(k * 1024),
        None => None,
    }
}

/// The file extension of an encoding, for those that can be saved.
pub open spec fn extension_of(format: AudioFormat) -> Option<Seq<char>> {
    if is_ogg_vorbis(format) {
        Some("ogg"@)
    } else if is_mp3(format) {
        Some("mp3"@)
    } else if is_flac(format) {
        Some("flac"@)
    } else {
        None
    }
}

/// Length of the service's own packet at the start of an Ogg Vorbis stream.
pub const OGG_HEADER_LEN: usize = 0xa7;

/// The audio as it is saved: an Ogg Vorbis stream loses the service's packet at
/// its start, any other stream stays as it is.
pub open spec fn playable_bytes(format: AudioFormat, plain: Seq<u8>) -> Seq<u8> {
    if is_ogg_vorbis(format) {
        plain.skip(OGG_HEADER_LEN as int)
    } else {
        plain
    }
}

impl AudioFormat {
    /// Whether the encoding is Vorbis audio in an Ogg container.
    pub fn is_ogg_vorbis(self) -> (yes: bool)
        ensures
            yes == is_ogg_vorbis(self),
    {
        match self {
            AudioFormat::OggVorbis320 | AudioFormat::OggVorbis160 | AudioFormat::OggVorbis96 => true,
            _ => false,
        }
    }

    /// Whether the encoding is MP3.
    pub fn is_mp3(self) -> (yes: bool)
        ensures
            yes == is_mp3(self),
    {
        match self {
            AudioFormat::Mp3_320
            | AudioFormat::Mp3_256
            | AudioFormat::Mp3_160
            | AudioFormat::Mp3_96
            | AudioFormat::Mp3_160Enc => true,
            _ => false,
        }
    }

    /// Whether the encoding is FLAC.
    pub fn is_flac(self) -> (yes: bool)
        ensures
            yes == is_flac(self),
    {
        match self {
            AudioFormat::Flac => true,
            _ => false,
        }
    }

    /// The file extension of the encoding, if it can be saved.
    pub fn extension(self) -> (ext: Option<&'static str>)
        ensures
            match ext {
                Some(e) => extension_of(self) == Some(e@),
                None => extension_of(self) is None,
            },
    {
        if self.is_ogg_vorbis() {
            Some("ogg")
        } else if self.is_mp3() {
            Some("mp3")
        } else if self.is_flac() {
            Some("flac")
        } else {
            None
        }
    }
}

/// The expected rate of an encoding in bytes per second. The unknown encoding
/// has none.
pub fn stream_data_rate(format: AudioFormat) -> (rate: Option<usize>)
    ensures
        match rate {
            Some(r) => data_rate(format) == Some(r as nat),
            None => data_rate(format) is None,
        },
{
    let kbps: usize = match format {
        AudioFormat::OggVorbis96 => 12,
        AudioFormat::OggVorbis160 => 20,
        AudioFormat::OggVorbis320 => 40,
        AudioFormat::Mp3_256 => 32,
        AudioFormat::Mp3_320 => 40,
        AudioFormat::Mp3_160 => 20,
        AudioFormat::Mp3_96 => 12,
        AudioFormat::Mp3_160Enc => 20,
        AudioFormat::Aac24 => 3,
        AudioFormat::Aac48 => 6,
        AudioFormat::Aac160 => 20,
        AudioFormat::Aac320 => 40,
        AudioFormat::Mp4_128 => 16,
        AudioFormat::Other5 => 40,
        AudioFormat::Flac => 112,
        AudioFormat::Unknown => {
            return None;
        },
    };
    Some(kbps * 1024)
}

/// The preferred encodings, best first.
pub fn priority_list() -> (order: Vec<AudioFormat>)
    ensures
        order@ == priority(),
{
    vec![
        AudioFormat::OggVorbis320,
        AudioFormat::Mp3_320,
        AudioFormat::Mp3_256,
        AudioFormat::OggVorbis160,
        AudioFormat::Mp3_160,
        AudioFormat::OggVorbis96,
        AudioFormat::Mp3_96,
    ]
}

/// Whether some entry is for `format`.
pub open spec fn offers(entries: Seq<FileEntry>, format: AudioFormat) -> bool {
    exists|i: int| 0 <= i < entries.len() && #[trigger] entries[i].format == format
}

/// An index at which `format` stands, where it is offered.
pub open spec fn index_of(entries: Seq<FileEntry>, format: AudioFormat) -> int {
    choose|i: int| 0 <= i < entries.len() && #[trigger] entries[i].format == format
}

/// No two entries are for the same encoding.
pub open spec fn distinct_formats(entries: Seq<FileEntry>) -> bool {
    forall|i: int, j: int|
        0 <= i < j < entries.len() ==> #[trigger] entries[i].format != #[trigger] entries[j].format
}

/// The map that a list of distinct entries stands for.
pub open spec fn entries_map(entries: Seq<FileEntry>) -> Map<AudioFormat, FileId> {
    Map::new(
        |format: AudioFormat| offers(entries, format),
        |format: AudioFormat| entries[index_of(entries, format)].file,
    )
}

/// In a list of distinct entries, an encoding is found where it stands.
proof fn lemma_index_of(entries: Seq<FileEntry>, i: int)
    requires
        distinct_formats(entries),
        0 <= i < entries.len(),
    ensures
        offers(entries, entries[i].format),
        index_of(entries, entries[i].format) == i,
{
    let format = entries[i].format;
    let found = index_of(entries, format);
    if found < i {
        assert(entries[found].format != entries[i].format);
    } else if i < found {
        assert(entries[i].format != entries[found].format);
    }
}

/// The index at which `format` stands in a list of distinct entries, if it does.
fn find_entry(entries: &Vec<FileEntry>, format: AudioFormat) -> (at: Option<usize>)
    requires
        distinct_formats(entries@),
    ensures
        match at {
            Some(i) => i < entries.len() && entries[i as int].format == format && index_of(
                entries@,
                format,
            ) == i,
            None => !offers(entries@, format),
        },
{
    let mut i: usize = 0;
    while i < entries.len()
        invariant
            i <= entries.len(),
            forall|j: int| 0 <= j < i ==> entries[j].format != format,
            distinct_formats(entries@),
        decreases entries.len() - i,
    {
        if entries[i].format == format {
            proof {
                lemma_index_of(entries@, i as int);
            }
            return Some(i);
        }
        i += 1;
    }
    None
}

impl View for FileMap {
    type V = Map<AudioFormat, FileId>;

    closed spec fn view(&self) -> Map<AudioFormat, FileId> {
        entries_map(self.entries@)
    }
}

impl Clone for FileMap {
    fn clone(&self) -> (copy: FileMap)
        ensures
            copy@ == self@,
    {
        proof {
            use_type_invariant(self);
        }
        let mut entries: Vec<FileEntry> = Vec::new();
        let mut i: usize = 0;
        while i < self.entries.len()
            invariant
                i <= self.entries.len(),
                entries@ == self.entries@.take(i as int),
            decreases self.entries.len() - i,
        {
            entries.push(self.entries[i]);
            i += 1;
        }
        assert(entries@ =~= self.entries@);
        FileMap { entries }
    }
}

impl FileMap {
    /// No encoding is stored twice.
    #[verifier::type_invariant]
    closed spec fn well_formed(&self) -> bool {
        distinct_formats(self.entries@)
    }

    /// A map that offers nothing.
    pub fn new() -> (files: FileMap)
        ensures
            files@ == Map::<AudioFormat, FileId>::empty(),
    {
        let files = FileMap { entries: Vec::new() };
        assert(files@ =~= Map::<AudioFormat, FileId>::empty());
        files
    }

    /// Whether nothing is offered.
    pub fn is_empty(&self) -> (empty: bool)
        ensures
            empty == (self@.dom() == Set::<AudioFormat>::empty()),
    {
        let empty = self.entries.len() == 0;
        proof {
            if empty {
                assert(self@.dom() =~= Set::<AudioFormat>::empty());
            } else {
                assert(self.entries[0].format == self.entries[0].format);
                assert(self@.dom().contains(self.entries[0].format));
            }
        }
        empty
    }

    /// The file of an encoding, if the encoding is offered.
    pub fn get(&self, format: AudioFormat) -> (file: Option<FileId>)
        ensures
            match file {
                Some(f) => self@.contains_key(format) && self@[format] == f,
                None => !self@.contains_key(format),
            },
    {
        proof {
            use_type_invariant(self);
        }
        match find_entry(&self.entries, format) {
            Some(i) => Some(self.entries[i].file),
            None => None,
        }
    }

    /// Offers `format` under `file`, in place of any file it had before.
    pub fn insert(&mut self, format: AudioFormat, file: FileId)
        ensures
            final(self)@ == old(self)@.insert(format, file),
    {
        proof {
            use_type_invariant(&*self);
        }
        let ghost before = self.entries@;
        let entry = FileEntry { format, file };
        let mut entries: Vec<FileEntry> = Vec::new();
        std::mem::swap(&mut self.entries, &mut entries);
        match find_entry(&entries, format) {
            Some(i) => {
                entries.set(i, entry);
                proof {
                    let after = entries@;
                    assert forall|j: int| 0 <= j < after.len() implies #[trigger] after[j].format
                        == before[j].format by {}
                    assert(distinct_formats(after)) by {
                        assert forall|j: int, k: int| 0 <= j < k < after.len() implies
                            #[trigger] after[j].format != #[trigger] after[k].format by {
                            assert(before[j].format != before[k].format);
                        }
                    }
                    assert forall|f: AudioFormat| offers(after, f) == offers(before, f) by {
                        if offers(after, f) {
                            let j = index_of(after, f);
                            assert(before[j].format == f);
                        }
                        if offers(before, f) {
                            let j = index_of(before, f);
                            assert(after[j].format == f);
                        }
                    }
                    assert forall|f: AudioFormat| offers(after, f) implies entries_map(after)[f]
                        == entries_map(before).insert(format, file)[f] by {
                        let j = index_of(after, f);
                        lemma_index_of(after, j);
                        lemma_index_of(before, j);
                        lemma_index_of(after, i as int);
                    }
                    assert(entries_map(after) =~= entries_map(before).insert(format, file));
                }
            },
            None => {
                entries.push(entry);
                proof {
                    let after = entries@;
                    let last = after.len() - 1;
                    assert(distinct_formats(after)) by {
                        assert forall|j: int, k: int| 0 <= j < k < after.len() implies
                            #[trigger] after[j].format != #[trigger] after[k].format by {
                            if k < last {
                                assert(before[j].format != before[k].format);
                            } else {
                                assert(before[j].format == after[j].format);
                            }
                        }
                    }
                    assert(after[last].format == format);
                    assert forall|f: AudioFormat| offers(after, f) == (offers(before, f) || f
                        == format) by {
                        if offers(after, f) && f != format {
                            let j = index_of(after, f);
                            assert(before[j].format == f);
                        }
                        if offers(before, f) {
                            let j = index_of(before, f);
                            assert(after[j].format == f);
                        }
                    }
                    assert forall|f: AudioFormat| offers(after, f) implies entries_map(after)[f]
                        == entries_map(before).insert(format, file)[f] by {
                        let j = index_of(after, f);
                        lemma_index_of(after, j);
                        if j < last {
                            assert(before[j] == after[j]);
                            lemma_index_of(before, j);
                        }
                    }
                    assert(entries_map(after) =~= entries_map(before).insert(format, file));
                }
            },
        }
        self.entries = entries;
    }
}

/// Skipping encodings that are not offered does not change which one is
/// first.
proof fn lemma_first_offered_skip(order: Seq<AudioFormat>, offered: Set<AudioFormat>, upto: int)
    requires
        0 <= upto <= order.len(),
        forall|j: int| 0 <= j < upto ==> !offered.contains(order[j]),
    ensures
        first_offered(order, offered) == first_offered(order.skip(upto), offered),
    decreases upto,
{
    if upto == 0 {
        assert(order.skip(0) =~= order);
    } else {
        lemma_first_offered_skip(order, offered, upto - 1);
        let tail = order.skip(upto - 1);
        assert(tail[0] == order[upto - 1]);
        assert(tail.drop_first() =~= order.skip(upto));
    }
}

/// The best offered encoding is offered, stands in the priority list, and no
/// encoding before it in the list is offered; where none is chosen, no
/// encoding of the list is offered.
pub proof fn lemma_best_format_is_first(offered: Set<AudioFormat>)
    ensures
        match best_format(offered) {
            Some(format) => exists|i: int|
                0 <= i < priority().len() && #[trigger] priority()[i] == format
                    && offered.contains(format) && forall|j: int|
                    0 <= j < i ==> !offered.contains(#[trigger] priority()[j]),
            None => forall|i: int|
                0 <= i < priority().len() ==> !offered.contains(#[trigger] priority()[i]),
        },
{
    lemma_first_offered_found(priority(), offered);
}

/// What `first_offered` gives, stated by position.
proof fn lemma_first_offered_found(order: Seq<AudioFormat>, offered: Set<AudioFormat>)
    ensures
        match first_offered(order, offered) {
            Some(format) => exists|i: int|
                0 <= i < order.len() && #[trigger] order[i] == format && offered.contains(format)
                    && forall|j: int| 0 <= j < i ==> !offered.contains(#[trigger] order[j]),
            None => forall|i: int| 0 <= i < order.len() ==> !offered.contains(#[trigger] order[i]),
        },
    decreases order.len(),
{
    if order.len() == 0 {
    } else if offered.contains(order[0]) {
        assert(order[0] == order[0]);
    } else {
        let rest = order.drop_first();
        lemma_first_offered_found(rest, offered);
        match first_offered(rest, offered) {
            Some(format) => {
                let i = choose|i: int|
                    0 <= i < rest.len() && #[trigger] rest[i] == format && offered.contains(format)
                        && forall|j: int| 0 <= j < i ==> !offered.contains(#[trigger] rest[j]);
                assert(order[i + 1] == format);
                assert forall|j: int| 0 <= j < i + 1 implies !offered.contains(
                    #[trigger] order[j],
                ) by {
                    if j > 0 {
                        assert(rest[j - 1] == order[j]);
                    }
                }
            },
            None => {
                assert forall|i: int| 0 <= i < order.len() implies !offered.contains(
                    #[trigger] order[i],
                ) by {
                    if i > 0 {
                        assert(rest[i - 1] == order[i]);
                    }
                }
            },
        }
    }
}

/// Where exactly two encodings of the priority list are offered, the one that
/// stands earlier in the list is chosen.
pub proof fn lemma_higher_tier_wins(offered: Set<AudioFormat>, high: int, low: int)
    requires
        0 <= high < low < priority().len(),
        offered.contains(priority()[high]),
        offered.contains(priority()[low]),
        forall|i: int|
            0 <= i < priority().len() && i != high && i != low ==> !offered.contains(
                #[trigger] priority()[i],
            ),
    ensures
        best_format(offered) == Some(priority()[high]),
{
    lemma_first_offered_skip(priority(), offered, high);
    assert(priority().skip(high)[0] == priority()[high]);
}

/// Chooses the encoding to fetch: the first of the priority list that the item
/// offers, with the handle of its file.
pub fn select_encoding(files: &FileMap) -> (choice: Option<(AudioFormat, FileId)>)
    ensures
        match choice {
            Some((format, file)) => best_format(files@.dom()) == Some(format) && files@[format]
                == file,
            None => best_format(files@.dom()) is None,
        },
{
    let order = priority_list();
    let mut i: usize = 0;
    while i < order.len()
        invariant
            i <= order.len(),
            order@ == priority(),
            forall|j: int| 0 <= j < i ==> !files@.dom().contains(order[j]),
        decreases order.len() - i,
    {
        if let Some(file) = files.get(order[i]) {
            proof {
                lemma_first_offered_skip(priority(), files@.dom(), i as int);
                assert(priority().skip(i as int)[0] == order[i as int]);
            }
            return Some((order[i], file));
        }
        i += 1;
    }
    proof {
        lemma_first_offered_skip(priority(), files@.dom(), i as int);
        assert(priority().skip(i as int).len() == 0);
    }
    None
}

/// Every encoding of the priority list has a known data rate and a file
/// extension.
pub proof fn lemma_priority_is_usable(i: int)
    requires
        0 <= i < priority().len(),
    ensures
        data_rate(priority()[i]) is Some,
        extension_of(priority()[i]) is Some,
{
}

/// Makes decrypted audio playable: drops the service's packet from the start of
/// an Ogg Vorbis stream and leaves any other stream as it is.
pub fn strip_header(format: AudioFormat, plain: Vec<u8>) -> (audio: Vec<u8>)
    requires
        is_ogg_vorbis(format) ==> plain.len() >= OGG_HEADER_LEN,
    ensures
        audio@ == playable_bytes(format, plain@),
{
    if format.is_ogg_vorbis() {
        let mut plain = plain;
        let audio = plain.split_off(OGG_HEADER_LEN);
        audio
    } else {
        plain
    }
}

} // verus!
