//! Catalog identifiers: the kinds of item, the pattern that finds an item in a
//! line of free text, and the numeric value of an item's base-62 id.

use crate::text::{chars_of, same_chars};
use librespot_core::spotify_id::{SpotifyAudioType, SpotifyId};
use vstd::prelude::*;

verus! {

/// What a catalog identifier refers to.
#[derive(Clone, Copy, Debug, PartialEq, Eq, Hash, Structural)]
pub enum ItemKind {
    Track,
    Album,
    Playlist,
    Show,
    Episode,
    Unknown,
}

/// The literal word that names a kind inside a link or URI. `Unknown` has no
/// word of its own.
pub open spec fn kind_token(kind: ItemKind) -> Seq<char> {
    match kind {
        ItemKind::Playlist => seq!['p', 'l', 'a', 'y', 'l', 'i', 's', 't'],
        ItemKind::Track => seq!['t', 'r', 'a', 'c', 'k'],
        ItemKind::Album => seq!['a', 'l', 'b', 'u', 'm'],
        ItemKind::Episode => seq!['e', 'p', 'i', 's', 'o', 'd', 'e'],
        ItemKind::Show => seq!['s', 'h', 'o', 'w'],
        ItemKind::Unknown => Seq::empty(),
    }
}

/// The kind that a word names, compared case-sensitively; any other word is
/// `Unknown`.
pub open spec fn kind_of_token(token: Seq<char>) -> ItemKind {
    if token == kind_token(ItemKind::Playlist) {
        ItemKind::Playlist
    } else if token == kind_token(ItemKind::Track) {
        ItemKind::Track
    } else if token == kind_token(ItemKind::Album) {
        ItemKind::Album
    } else if token == kind_token(ItemKind::Episode) {
        ItemKind::Episode
    } else if token == kind_token(ItemKind::Show) {
        ItemKind::Show
    } else {
        ItemKind::Unknown
    }
}

/// A character that may occur in an opaque id: an ASCII letter or digit.
pub open spec fn is_id_char(c: char) -> bool {
    ('a' <= c && c <= 'z') || ('A' <= c && c <= 'Z') || ('0' <= c && c <= '9')
}

/// A character that may stand between the kind word and the id.
pub open spec fn is_separator(c: char) -> bool {
    c == '/' || c == ':'
}

/// `kind`'s word stands at `pos`, followed by a separator and at least one id
/// character.
pub open spec fn matches_at(line: Seq<char>, pos: int, kind: ItemKind) -> bool {
    let after = pos + kind_token(kind).len();
    &&& kind != ItemKind::Unknown
    &&& 0 <= pos
    &&& after + 1 < line.len()
    &&& line.subrange(pos, after) == kind_token(kind)
    &&& is_separator(line[after])
    &&& is_id_char(line[after + 1])
}

/// The kind recognised at `pos`, if any. No kind word is a prefix of another,
/// so at most one can match at a position.
pub open spec fn kind_at(line: Seq<char>, pos: int) -> Option<ItemKind> {
    if matches_at(line, pos, ItemKind::Playlist) {
        Some(ItemKind::Playlist)
    } else if matches_at(line, pos, ItemKind::Track) {
        Some(ItemKind::Track)
    } else if matches_at(line, pos, ItemKind::Album) {
        Some(ItemKind::Album)
    } else if matches_at(line, pos, ItemKind::Episode) {
        Some(ItemKind::Episode)
    } else if matches_at(line, pos, ItemKind::Show) {
        Some(ItemKind::Show)
    } else {
        None
    }
}

/// The end of the longest run of id characters that begins at `from`.
pub open spec fn id_end(line: Seq<char>, from: int) -> int
    decreases line.len() - from,
{
    if 0 <= from < line.len() && is_id_char(line[from]) {
        id_end(line, from + 1)
    } else {
        from
    }
}

/// An item is recognised at `pos` and at no earlier position.
pub open spec fn leftmost_match(line: Seq<char>, pos: int) -> bool {
    &&& kind_at(line, pos) is Some
    &&& forall|q: int| 0 <= q < pos ==> (#[trigger] kind_at(line, q)) is None
}

/// What a line of text yields: the kind and the opaque id of the leftmost item
/// in it, the id taken as long as possible; nothing where no item occurs.
pub open spec fn parsed(line: Seq<char>) -> Option<(ItemKind, Seq<char>)> {
    if exists|pos: int| leftmost_match(line, pos) {
        let pos = choose|pos: int| leftmost_match(line, pos);
        let kind = kind_at(line, pos)->0;
        let start = pos + kind_token(kind).len() + 1;
        Some((kind, line.subrange(start, id_end(line, start))))
    } else {
        None
    }
}

/// A kind together with the text of an id, as found in a line.
#[derive(Clone, Debug, PartialEq, Eq)]
pub struct ParsedItem {
    pub kind: ItemKind,
    pub opaque_id: String,
}

/// Why an id could not be decoded.
#[derive(Clone, Copy, Debug, PartialEq, Eq, Structural)]
pub enum IdError {
    /// The text holds a character outside the base-62 alphabet, or its value
    /// does not fit in 128 bits.
    InvalidId,
}

/// A catalog identifier. Two identifiers are the same when kind and decoded id
/// agree, whatever text they were read from.
#[derive(Clone, Copy, Debug, PartialEq, Eq, Hash, Structural)]
pub struct ItemIdentifier {
    pub kind: ItemKind,
    pub id: u128,
}

/// The value of one base-62 digit: `0-9`, then `a-z`, then `A-Z`.
pub open spec fn base62_digit(c: char) -> Option<nat> {
    if '0' <= c && c <= '9' {
        Some((c as u32 - '0' as u32) as nat)
    } else if 'a' <= c && c <= 'z' {
        Some((c as u32 - 'a' as u32 + 10) as nat)
    } else if 'A' <= c && c <= 'Z' {
        Some((c as u32 - 'A' as u32 + 36) as nat)
    } else {
        None
    }
}

/// Every character of `text` is a base-62 digit.
pub open spec fn is_base62(text: Seq<char>) -> bool {
    forall|i: int| 0 <= i < text.len() ==> (#[trigger] base62_digit(text[i])) is Some
}

/// The number that `text` writes in base 62, most significant digit first. A
/// character that is no digit counts as zero.
pub open spec fn base62_value(text: Seq<char>) -> nat
    decreases text.len(),
{
    if text.len() == 0 {
        0
    } else {
        let last = match base62_digit(text.last()) {
            Some(d) => d,
            None => 0,
        };
        base62_value(text.drop_last()) * 62 + last
    }
}

/// The id that `text` decodes to: its base-62 value, where all of it is digits
/// and the value fits in 128 bits.
pub open spec fn decoded(text: Seq<char>) -> Option<u128> {
    if is_base62(text) && base62_value(text) <= u128::MAX {
        Some(base62_value(text) as u128)
    } else {
        None
    }
}

/// The base-62 alphabet in digit order.
pub open spec fn base62_alphabet() -> Seq<char> {
    seq![
        '0', '1', '2', '3', '4', '5', '6', '7', '8', '9',
        'a', 'b', 'c', 'd', 'e', 'f', 'g', 'h', 'i', 'j', 'k', 'l', 'm',
        'n', 'o', 'p', 'q', 'r', 's', 't', 'u', 'v', 'w', 'x', 'y', 'z',
        'A', 'B', 'C', 'D', 'E', 'F', 'G', 'H', 'I', 'J', 'K', 'L', 'M',
        'N', 'O', 'P', 'Q', 'R', 'S', 'T', 'U', 'V', 'W', 'X', 'Y', 'Z',
    ]
}

/// 62 to the power `e`.
pub open spec fn pow62(e: nat) -> nat
    decreases e,
{
    if e == 0 {
        1
    } else {
        62 * pow62((e - 1) as nat)
    }
}

/// Width of the canonical base-62 form of an id.
pub const BASE62_WIDTH: usize = 22;

/// The canonical text of an id: 22 base-62 digits, most significant first,
/// padded on the left with `0`.
pub open spec fn base62_text(id: u128) -> Seq<char> {
    Seq::new(
        BASE62_WIDTH as nat,
        |i: int| base62_alphabet()[((id as nat) / pow62((BASE62_WIDTH - 1 - i) as nat)) as int % 62],
    )
}

impl ItemKind {
    /// The kind that a word names.
    pub fn from_token(token: &str) -> (kind: ItemKind)
        ensures
            kind == kind_of_token(token@),
    {
        let word = chars_of(token);
        if same_chars(&word, &token_chars(ItemKind::Playlist)) {
            ItemKind::Playlist
        } else if same_chars(&word, &token_chars(ItemKind::Track)) {
            ItemKind::Track
        } else if same_chars(&word, &token_chars(ItemKind::Album)) {
            ItemKind::Album
        } else if same_chars(&word, &token_chars(ItemKind::Episode)) {
            ItemKind::Episode
        } else if same_chars(&word, &token_chars(ItemKind::Show)) {
            ItemKind::Show
        } else {
            ItemKind::Unknown
        }
    }
}

/// The characters of a kind's word.
fn token_chars(kind: ItemKind) -> (token: Vec<char>)
    ensures
        token@ == kind_token(kind),
{
    match kind {
        ItemKind::Playlist => vec!['p', 'l', 'a', 'y', 'l', 'i', 's', 't'],
        ItemKind::Track => vec!['t', 'r', 'a', 'c', 'k'],
        ItemKind::Album => vec!['a', 'l', 'b', 'u', 'm'],
        ItemKind::Episode => vec!['e', 'p', 'i', 's', 'o', 'd', 'e'],
        ItemKind::Show => vec!['s', 'h', 'o', 'w'],
        ItemKind::Unknown => Vec::new(),
    }
}

fn id_char(c: char) -> (yes: bool)
    ensures
        yes == is_id_char(c),
{
    ('a' <= c && c <= 'z') || ('A' <= c && c <= 'Z') || ('0' <= c && c <= '9')
}

/// Whether `kind` is recognised at `pos`.
fn kind_matches(line: &Vec<char>, pos: usize, kind: ItemKind) -> (yes: bool)
    requires
        pos < line.len(),
    ensures
        yes == matches_at(line@, pos as int, kind),
{
    let token = token_chars(kind);
    let n = token.len();
    if kind == ItemKind::Unknown || line.len() - pos < n || line.len() - pos - n < 2 {
        return false;
    }
    let mut i: usize = 0;
    while i < n
        invariant
            i <= n,
            n == token.len(),
            token@ == kind_token(kind),
            pos + n + 1 < line.len(),
            forall|j: int| 0 <= j < i ==> line[pos + j] == token[j],
        decreases n - i,
    {
        if line[pos + i] != token[i] {
            proof {
                let part = line@.subrange(pos as int, pos as int + kind_token(kind).len());
                assert(part[i as int] == line@[pos + i]);
                assert(part[i as int] != kind_token(kind)[i as int]);
            }
            return false;
        }
        i += 1;
    }
    assert(line@.subrange(pos as int, pos + n) =~= token@);
    let sep = line[pos + n];
    (sep == '/' || sep == ':') && id_char(line[pos + n + 1])
}

/// The kind recognised at `pos`, trying the words in their fixed order.
fn find_kind(line: &Vec<char>, pos: usize) -> (found: Option<ItemKind>)
    requires
        pos < line.len(),
    ensures
        found == kind_at(line@, pos as int),
{
    if kind_matches(line, pos, ItemKind::Playlist) {
        Some(ItemKind::Playlist)
    } else if kind_matches(line, pos, ItemKind::Track) {
        Some(ItemKind::Track)
    } else if kind_matches(line, pos, ItemKind::Album) {
        Some(ItemKind::Album)
    } else if kind_matches(line, pos, ItemKind::Episode) {
        Some(ItemKind::Episode)
    } else if kind_matches(line, pos, ItemKind::Show) {
        Some(ItemKind::Show)
    } else {
        None
    }
}

/// The end of the run of id characters that begins at `from`.
fn run_end(line: &Vec<char>, from: usize) -> (end: usize)
    requires
        from <= line.len(),
    ensures
        end == id_end(line@, from as int),
        from <= end <= line.len(),
{
    let mut end = from;
    while end < line.len() && id_char(line[end])
        invariant
            from <= end <= line.len(),
            id_end(line@, from as int) == id_end(line@, end as int),
        decreases line.len() - end,
    {
        end += 1;
    }
    end
}

/// Any two leftmost matches of a line stand at the same position.
proof fn lemma_leftmost_unique(line: Seq<char>, p: int, q: int)
    requires
        leftmost_match(line, p),
        leftmost_match(line, q),
    ensures
        p == q,
{
    if p < q {
        assert(0 <= p) by {
            assert(kind_at(line, p) is Some);
        }
        assert(kind_at(line, p) is None);
    } else if q < p {
        assert(0 <= q) by {
            assert(kind_at(line, q) is Some);
        }
        assert(kind_at(line, q) is None);
    }
}

/// Finds the leftmost item in a line of text. A line without one gives `None`.
pub fn parse(line: &str) -> (found: Option<ParsedItem>)
    ensures
        match found {
            Some(item) => parsed(line@) == Some((item.kind, item.opaque_id@)),
            None => parsed(line@) is None,
        },
{
    let chars = chars_of(line);
    let mut pos: usize = 0;
    while pos < chars.len()
        invariant
            pos <= chars.len(),
            chars@ == line@,
            forall|q: int| 0 <= q < pos ==> (#[trigger] kind_at(chars@, q)) is None,
        decreases chars.len() - pos,
    {
        if let Some(kind) = find_kind(&chars, pos) {
            let start = pos + token_chars(kind).len() + 1;
            let end = run_end(&chars, start);
            let id = line.substring_char(start, end);
            proof {
                assert(leftmost_match(line@, pos as int));
                let chosen = choose|p: int| leftmost_match(line@, p);
                lemma_leftmost_unique(line@, pos as int, chosen);
            }
            return Some(ParsedItem { kind, opaque_id: String::from_str(id) });
        }
        pos += 1;
    }
    proof {
        assert forall|p: int| !leftmost_match(line@, p) by {
            if 0 <= p < chars.len() {
                assert(kind_at(chars@, p) is None);
            }
        }
    }
    None
}

/// The value of one base-62 digit.
fn digit_value(c: char) -> (value: Option<u8>)
    ensures
        match value {
            Some(d) => base62_digit(c) == Some(d as nat) && d < 62,
            None => base62_digit(c) is None,
        },
{
    let code = c as u32;
    if '0' <= c && c <= '9' {
        Some((code - '0' as u32) as u8)
    } else if 'a' <= c && c <= 'z' {
        Some((code - 'a' as u32 + 10) as u8)
    } else if 'A' <= c && c <= 'Z' {
        Some((code - 'A' as u32 + 36) as u8)
    } else {
        None
    }
}

/// A text's value is at least the value of each of its prefixes.
proof fn lemma_value_grows(text: Seq<char>, n: int)
    requires
        0 <= n <= text.len(),
    ensures
        base62_value(text.take(n)) <= base62_value(text),
    decreases text.len() - n,
{
    if n == text.len() {
        assert(text.take(n) =~= text);
    } else {
        lemma_value_grows(text, n + 1);
        let longer = text.take(n + 1);
        assert(longer.drop_last() =~= text.take(n));
    }
}

/// Decodes the text of an id. The text is read as a base-62 number, most
/// significant digit first; the empty text is zero.
pub fn decode_base62(text: &str) -> (id: Result<u128, IdError>)
    ensures
        id == match decoded(text@) {
            Some(value) => Ok::<u128, IdError>(value),
            None => Err(IdError::InvalidId),
        },
{
    let chars = chars_of(text);
    let mut value: u128 = 0;
    let mut i: usize = 0;
    while i < chars.len()
        invariant
            i <= chars.len(),
            chars@ == text@,
            is_base62(text@.take(i as int)),
            value == base62_value(text@.take(i as int)),
        decreases chars.len() - i,
    {
        let ghost prefix = text@.take(i + 1);
        proof {
            assert(prefix.drop_last() =~= text@.take(i as int));
            assert(prefix.last() == text@[i as int]);
            lemma_value_grows(text@, i + 1);
        }
        let digit = match digit_value(chars[i]) {
            Some(d) => d,
            None => {
                return Err(IdError::InvalidId);
            },
        };
        let scaled = match value.checked_mul(62) {
            Some(v) => v,
            None => {
                return Err(IdError::InvalidId);
            },
        };
        value = match scaled.checked_add(digit as u128) {
            Some(v) => v,
            None => {
                return Err(IdError::InvalidId);
            },
        };
        i += 1;
        proof {
            assert forall|j: int| 0 <= j < i implies (#[trigger] base62_digit(
                text@.take(i as int)[j],
            )) is Some by {
                if j < i - 1 {
                    assert(text@.take(i as int)[j] == text@.take(i - 1)[j]);
                }
            }
        }
    }
    assert(text@.take(i as int) =~= text@);
    Ok(value)
}

/// Calls `librespot_core::spotify_id::SpotifyId::to_base62` on an id. That
/// function writes the id in base 62 with the alphabet `0-9a-zA-Z`, most
/// significant digit first, in exactly 22 characters; since every character is
/// ASCII its conversion to a string succeeds. The audio type that the outside
/// value carries plays no part in it.
#[verifier::external_body]
fn spotify_base62(id: u128) -> (text: Option<String>)
    ensures
        match text {
            Some(t) => t@ == base62_text(id),
            None => false,
        },
{
    SpotifyId { id, audio_type: SpotifyAudioType::Track }.to_base62().ok()
}

/// Each digit of the alphabet has its place in it as its value.
proof fn lemma_alphabet_digit(d: int)
    requires
        0 <= d < 62,
    ensures
        base62_digit(base62_alphabet()[d]) == Some(d as nat),
{
    let a = base62_alphabet();
    if d < 10 {
        assert(a[0] == '0' && a[1] == '1' && a[2] == '2' && a[3] == '3' && a[4] == '4' && a[5]
            == '5' && a[6] == '6' && a[7] == '7' && a[8] == '8' && a[9] == '9');
    } else if d < 23 {
        assert(a[10] == 'a' && a[11] == 'b' && a[12] == 'c' && a[13] == 'd' && a[14] == 'e'
            && a[15] == 'f' && a[16] == 'g' && a[17] == 'h' && a[18] == 'i' && a[19] == 'j'
            && a[20] == 'k' && a[21] == 'l' && a[22] == 'm');
    } else if d < 36 {
        assert(a[23] == 'n' && a[24] == 'o' && a[25] == 'p' && a[26] == 'q' && a[27] == 'r'
            && a[28] == 's' && a[29] == 't' && a[30] == 'u' && a[31] == 'v' && a[32] == 'w'
            && a[33] == 'x' && a[34] == 'y' && a[35] == 'z');
    } else if d < 49 {
        assert(a[36] == 'A' && a[37] == 'B' && a[38] == 'C' && a[39] == 'D' && a[40] == 'E'
            && a[41] == 'F' && a[42] == 'G' && a[43] == 'H' && a[44] == 'I' && a[45] == 'J'
            && a[46] == 'K' && a[47] == 'L' && a[48] == 'M');
    } else {
        assert(a[49] == 'N' && a[50] == 'O' && a[51] == 'P' && a[52] == 'Q' && a[53] == 'R'
            && a[54] == 'S' && a[55] == 'T' && a[56] == 'U' && a[57] == 'V' && a[58] == 'W'
            && a[59] == 'X' && a[60] == 'Y' && a[61] == 'Z');
    }
}

/// Every 128-bit number is below 62 to the power 22.
proof fn lemma_width_suffices(id: u128)
    ensures
        pow62(BASE62_WIDTH as nat) > id,
{
    reveal_with_fuel(pow62, 23);
    assert(pow62(22) == 2707803647802660400290261537185326956544);
}

/// The first `k` digits of an id's canonical text write the id without its
/// last `22 - k` digits.
proof fn lemma_text_prefix(id: u128, k: int)
    requires
        0 <= k <= BASE62_WIDTH,
    ensures
        base62_value(base62_text(id).take(k)) == (id as int) / (pow62(
            (BASE62_WIDTH - k) as nat,
        ) as int),
        is_base62(base62_text(id).take(k)),
    decreases k,
{
    let text = base62_text(id);
    if k == 0 {
        lemma_width_suffices(id);
        assert(text.take(0).len() == 0);
        assert((id as int) / (pow62(22) as int) == 0) by (nonlinear_arith)
            requires
                0 <= id < pow62(22),
        ;
    } else {
        lemma_text_prefix(id, k - 1);
        let upto = text.take(k);
        let unit = pow62((BASE62_WIDTH - k) as nat) as int;
        let whole = (id as int) / unit;
        assert(upto.drop_last() =~= text.take(k - 1));
        assert(unit > 0) by {
            lemma_pow62_positive((BASE62_WIDTH - k) as nat);
        }
        assert(pow62((BASE62_WIDTH - (k - 1)) as nat) == 62 * unit);
        assert(upto.last() == base62_alphabet()[whole % 62]);
        lemma_alphabet_digit(whole % 62);
        vstd::arithmetic::div_mod::lemma_div_denominator(id as int, unit, 62);
        vstd::arithmetic::div_mod::lemma_fundamental_div_mod(whole, 62);
        assert((id as int) / (62 * unit) == whole / 62) by {
            assert(unit * 62 == 62 * unit);
        }
        assert(base62_value(upto) == base62_value(upto.drop_last()) * 62 + (whole % 62));
        assert forall|i: int| 0 <= i < upto.len() implies (#[trigger] base62_digit(upto[i]))
            is Some by {
            if i < k - 1 {
                assert(upto[i] == text.take(k - 1)[i]);
            }
        }
    }
}

/// Powers of 62 are positive.
proof fn lemma_pow62_positive(e: nat)
    ensures
        pow62(e) > 0,
    decreases e,
{
    if e > 0 {
        lemma_pow62_positive((e - 1) as nat);
    }
}

/// Decoding the canonical text of an id gives the id back.
pub proof fn lemma_base62_round_trip(id: u128)
    ensures
        decoded(base62_text(id)) == Some(id),
{
    let text = base62_text(id);
    lemma_text_prefix(id, BASE62_WIDTH as int);
    assert(text.take(BASE62_WIDTH as int) =~= text);
    assert(pow62((BASE62_WIDTH - BASE62_WIDTH) as nat) == 1);
    assert(base62_value(text) == (id as int) / 1);
}

impl ItemIdentifier {
    /// The canonical text of the id, as the catalog writes it.
    pub fn to_base62(&self) -> (text: String)
        ensures
            text@ == base62_text(self.id),
    {
        match spotify_base62(self.id) {
            Some(text) => text,
            None => String::new(),
        }
    }

    /// The identifier that a parsed item names.
    pub fn from_parsed(item: &ParsedItem) -> (id: Result<ItemIdentifier, IdError>)
        ensures
            id == match decoded(item.opaque_id@) {
                Some(value) => Ok::<ItemIdentifier, IdError>(
                    ItemIdentifier { kind: item.kind, id: value },
                ),
                None => Err(IdError::InvalidId),
            },
    {
        match decode_base62(item.opaque_id.as_str()) {
            Ok(value) => Ok(ItemIdentifier { kind: item.kind, id: value }),
            Err(e) => Err(e),
        }
    }
}

} // verus!
