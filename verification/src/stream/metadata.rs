//! Stream metadata types and ICY parsing
//!
//! Data types and parsing functions for ICY (Icecast/Shoutcast) metadata.

use vstd::prelude::*;
use vstd::utf8::{decode_utf8, valid_utf8};

use crate::text::{find, found, lemma_found, opt_text, trim, trimmed};

verus! {

/// Source of stream metadata
#[derive(Debug, Clone, Copy, PartialEq, Eq, Structural)]
pub enum MetadataSource {
    Icy,
}

/// Parsed stream metadata with artist/title split
#[derive(Debug, Clone, PartialEq, Eq)]
pub struct StreamMetadata {
    pub title: Option<String>,
    pub artist: Option<String>,
    pub source: MetadataSource,
}

/// What a `StreamMetadata` says.
pub struct StreamMetadataView {
    pub title: Option<Seq<char>>,
    pub artist: Option<Seq<char>>,
    pub source: MetadataSource,
}

impl View for StreamMetadata {
    type V = StreamMetadataView;

    open spec fn view(&self) -> StreamMetadataView {
        StreamMetadataView {
            title: opt_text(self.title),
            artist: opt_text(self.artist),
            source: self.source,
        }
    }
}

/// The text without white space around it, where anything is left of it.
pub open spec fn some_text(s: Seq<char>) -> Option<Seq<char>> {
    if trimmed(s).len() == 0 {
        None
    } else {
        Some(trimmed(s))
    }
}

/// What an ICY title says: artist and title stand on either side of the first ` - `, and without
/// one there is only a title.
pub open spec fn icy_title(raw: Seq<char>) -> StreamMetadataView {
    let text = trimmed(raw);
    match found(text, " - "@) {
        Some(pos) => StreamMetadataView {
            title: some_text(text.skip(pos + 3)),
            artist: some_text(text.take(pos)),
            source: MetadataSource::Icy,
        },
        None => StreamMetadataView {
            title: some_text(raw),
            artist: None,
            source: MetadataSource::Icy,
        },
    }
}

/// The text without white space around it, where anything is left of it.
fn nonempty_text(s: &str) -> (r: Option<String>)
    ensures
        opt_text(r) == some_text(s@),
{
    let text: &str = trim(s);
    if text.unicode_len() == 0 {
        None
    } else {
        Some(text.to_string())
    }
}

impl StreamMetadata {
    /// Create metadata from an ICY title string.
    ///
    /// Splits on first ` - ` separator: "Artist - Title" → artist="Artist", title="Title".
    /// If no separator found, the whole string becomes the title.
    pub fn from_icy_title(raw: &str) -> (r: Self)
        ensures
            r@ == icy_title(raw@),
    {
        proof {
            reveal_strlit(" - ");
        }
        let text: &str = trim(raw);
        let total: usize = text.unicode_len();
        match find(text, " - ") {
            Some(pos) => {
                let before: &str = text.substring_char(0, pos);
                let after: &str = text.substring_char(pos + 3, total);
                assert(before@ =~= text@.take(pos as int));
                assert(after@ =~= text@.skip(pos + 3));
                let artist: Option<String> = nonempty_text(before);
                let title: Option<String> = nonempty_text(after);
                StreamMetadata { title, artist, source: MetadataSource::Icy }
            },
            None => {
                let title: Option<String> = nonempty_text(raw);
                StreamMetadata { title, artist: None, source: MetadataSource::Icy }
            },
        }
    }
}

/// The value of `StreamTitle` in ICY metadata, without white space around it: what stands between
/// the first `StreamTitle='` and the first `';` behind it.
pub open spec fn icy_stream_title(metadata: Seq<char>) -> Option<Seq<char>> {
    match found(metadata, "StreamTitle='"@) {
        None => None,
        Some(start) => {
            let rest = metadata.skip(start + 13);
            match found(rest, "';"@) {
                None => None,
                Some(end) => some_text(rest.take(end)),
            }
        },
    }
}

/// Parse ICY metadata string to extract StreamTitle value.
///
/// ICY metadata format: `StreamTitle='Artist - Song';StreamUrl='...';`
pub fn parse_icy_metadata(metadata: &str) -> (r: Option<String>)
    ensures
        opt_text(r) == icy_stream_title(metadata@),
{
    proof {
        reveal_strlit("StreamTitle='");
    }
    let start: usize = match find(metadata, "StreamTitle='") {
        Some(start) => start,
        None => return None,
    };
    let total: usize = metadata.unicode_len();
    let rest: &str = metadata.substring_char(start + 13, total);
    assert(rest@ =~= metadata@.skip(start + 13));
    match find(rest, "';") {
        Some(end) => {
            let title: &str = rest.substring_char(0, end);
            assert(title@ =~= rest@.take(end as int));
            nonempty_text(title)
        },
        None => None,
    }
}

/// The text in bytes that may not be valid UTF-8.
pub uninterp spec fn lossy_text(bytes: Seq<u8>) -> Seq<char>;

/// `String::from_utf8_lossy` reads bytes as UTF-8 and puts a replacement character where they
/// are not; valid UTF-8 is read as it stands.
#[verifier::external_body]
fn text_from_utf8_lossy(bytes: &[u8]) -> (r: String)
    ensures
        r@ == lossy_text(bytes@),
        valid_utf8(bytes@) ==> r@ == decode_utf8(bytes@),
{
    String::from_utf8_lossy(bytes).into_owned()
}

/// The bytes without the null bytes at their end.
pub open spec fn without_padding(block: Seq<u8>) -> Seq<u8>
    decreases block.len(),
{
    if block.len() > 0 && block.last() == 0 {
        without_padding(block.drop_last())
    } else {
        block
    }
}

/// Strip the null bytes at the end of a metadata block
pub fn strip_padding(raw_block: &[u8]) -> (r: &[u8])
    ensures
        r@ == without_padding(raw_block@),
{
    let mut end: usize = raw_block.len();
    assert(raw_block@.take(end as int) =~= raw_block@);
    while end > 0 && raw_block[end - 1] == 0
        invariant
            end <= raw_block@.len(),
            without_padding(raw_block@) == without_padding(raw_block@.take(end as int)),
        decreases end,
    {
        proof {
            let block = raw_block@.take(end as int);
            assert(block.last() == raw_block@[end - 1]);
            assert(block.drop_last() =~= raw_block@.take(end - 1));
        }
        end -= 1;
    }
    proof {
        if end > 0 {
            assert(raw_block@.take(end as int).last() == raw_block@[end - 1]);
        }
        assert(raw_block@.subrange(0, end as int) =~= raw_block@.take(end as int));
    }
    vstd::slice::slice_subrange(raw_block, 0, end)
}

/// The title in a metadata block.
pub open spec fn block_title(block: Seq<u8>) -> Option<Seq<char>> {
    let bytes = without_padding(block);
    if bytes.len() == 0 {
        None
    } else {
        icy_stream_title(lossy_text(bytes))
    }
}

/// Extract ICY title from a raw metadata block (with null padding).
///
/// Raw ICY metadata blocks are null-padded to a multiple of 16 bytes.
/// This strips null bytes, converts to UTF-8, then parses the StreamTitle.
pub fn extract_icy_title(raw_block: &[u8]) -> (r: Option<String>)
    ensures
        opt_text(r) == block_title(raw_block@),
        valid_utf8(without_padding(raw_block@)) && without_padding(raw_block@).len() > 0
            ==> opt_text(r) == icy_stream_title(decode_utf8(without_padding(raw_block@))),
{
    let bytes: &[u8] = strip_padding(raw_block);
    if bytes.len() == 0 {
        return None;
    }
    let text: String = text_from_utf8_lossy(bytes);
    parse_icy_metadata(&text)
}

/// Padding a block with null bytes does not change its title.
pub proof fn law_padding_is_ignored(block: Seq<u8>, n: nat)
    ensures
        block_title(block + Seq::new(n, |i: int| 0u8)) == block_title(block),
    decreases n,
{
    let zeros = Seq::new(n, |i: int| 0u8);
    if n == 0 {
        assert(block + zeros =~= block);
    } else {
        let fewer = Seq::new((n - 1) as nat, |i: int| 0u8);
        assert((block + zeros).last() == 0);
        assert((block + zeros).drop_last() =~= block + fewer);
        law_padding_is_ignored(block, (n - 1) as nat);
        lemma_padding(block + zeros);
    }
}

proof fn lemma_padding(block: Seq<u8>)
    requires
        block.len() > 0,
        block.last() == 0,
    ensures
        without_padding(block) == without_padding(block.drop_last()),
{
}

/// A title, an artist and a value of `StreamTitle` are never empty and have no white space at
/// either end.
pub proof fn law_titles_are_trimmed(text: Seq<char>)
    ensures
        icy_stream_title(text) matches Some(title) ==> title.len() > 0 && trimmed(title) == title,
        icy_title(text).title matches Some(title) ==> title.len() > 0 && trimmed(title) == title,
        icy_title(text).artist matches Some(artist) ==> artist.len() > 0 && trimmed(artist)
            == artist,
{
    crate::text::law_trim_is_final(text);
    match found(text, "StreamTitle='"@) {
        None => {},
        Some(start) => {
            let rest = text.skip(start + 13);
            match found(rest, "';"@) {
                None => {},
                Some(end) => crate::text::law_trim_is_final(rest.take(end)),
            }
        },
    }
    let whole = trimmed(text);
    match found(whole, " - "@) {
        None => {},
        Some(pos) => {
            crate::text::law_trim_is_final(whole.take(pos));
            crate::text::law_trim_is_final(whole.skip(pos + 3));
        },
    }
}

/// A title in which ` - ` does not occur is all title; with one, what precedes the first ` - ` is
/// the artist, so that ` - ` does not occur in the artist.
pub proof fn law_artist_is_before_first_separator(raw: Seq<char>)
    ensures
        !crate::text::has_infix(trimmed(raw), " - "@) ==> icy_title(raw).artist is None
            && icy_title(raw).title == some_text(raw),
        found(trimmed(raw), " - "@) matches Some(pos) ==> !crate::text::has_infix(
            trimmed(raw).take(pos),
            " - "@,
        ),
{
    lemma_found(trimmed(raw), " - "@);
    if let Some(pos) = found(trimmed(raw), " - "@) {
        reveal_strlit(" - ");
        let whole = trimmed(raw);
        if crate::text::has_infix(whole.take(pos), " - "@) {
            let i = choose|i: int| crate::text::occurs_at(whole.take(pos), " - "@, i);
            assert(whole.take(pos).subrange(i, i + 3) =~= whole.subrange(i, i + 3));
            assert(crate::text::occurs_at(whole, " - "@, i));
        }
    }
}

/// All of the text is white space.
pub open spec fn all_white(s: Seq<char>) -> bool {
    forall|i: int| 0 <= i < s.len() ==> crate::text::is_white(#[trigger] s[i])
}

/// The text is not empty and has no white space at either end.
pub open spec fn is_trim(s: Seq<char>) -> bool {
    s.len() > 0 && !crate::text::is_white(s[0]) && !crate::text::is_white(s.last())
}

/// Artist and title are read as they were written: an artist, ` - ` and a title give exactly that
/// artist and that title, hyphens and further separators in them included, with any white space
/// around the two, as long as the separator does not occur earlier.
pub proof fn law_artist_and_title(
    before: Seq<char>,
    artist: Seq<char>,
    gap: Seq<char>,
    other_gap: Seq<char>,
    title: Seq<char>,
    behind: Seq<char>,
)
    requires
        all_white(before),
        all_white(gap),
        all_white(other_gap),
        all_white(behind),
        is_trim(artist),
        is_trim(title),
        !crate::text::has_infix(artist + gap + seq![' '], seq![' ', '-', ' ']),
    ensures
        icy_title(before + artist + gap + seq![' ', '-', ' '] + other_gap + title + behind) == (
        StreamMetadataView {
            title: Some(title),
            artist: Some(artist),
            source: MetadataSource::Icy,
        }),
{
    reveal_strlit(" - ");
    let sep = seq![' ', '-', ' '];
    assert(" - "@ =~= sep);
    let raw = before + artist + gap + sep + other_gap + title + behind;
    let left = artist + gap;
    let right = other_gap + title;
    let text = left + sep + right;
    assert(raw =~= before + text + behind);
    assert(text[0] == artist[0]);
    assert(text.last() == title.last());
    crate::text::law_trim_takes_white_space_off(before, text, behind);
    let n = left.len() as int;
    assert forall|i: int| 0 <= i < n implies !crate::text::occurs_at(text, sep, i) by {
        if crate::text::occurs_at(text, sep, i) {
            crate::text::law_occurrence(text, sep, i);
            assert(text[i] == sep[0] && text[i + 1] == sep[1] && text[i + 2] == sep[2]);
            assert(text[n] == ' ');
            assert(i + 1 != n);
            let shorter = left + seq![' '];
            assert forall|k: int| 0 <= k < 3 implies shorter[i + k] == #[trigger] sep[k] by {
                assert(text[i + k] == shorter[i + k]);
            }
            crate::text::law_occurrence(shorter, sep, i);
            assert(crate::text::has_infix(shorter, sep));
        }
    }
    crate::text::law_search_gives_the_first(left, sep, right);
    assert(text.take(n) =~= Seq::empty() + artist + gap);
    assert(text.skip(n + 3) =~= other_gap + title + Seq::empty());
    crate::text::law_trim_takes_white_space_off(Seq::empty(), artist, gap);
    crate::text::law_trim_takes_white_space_off(other_gap, title, Seq::empty());
}

/// A text without ` - ` is all title, and white space alone is nothing.
pub proof fn law_title_alone(before: Seq<char>, title: Seq<char>, behind: Seq<char>)
    requires
        all_white(before),
        all_white(behind),
        is_trim(title),
        !crate::text::has_infix(title, seq![' ', '-', ' ']),
    ensures
        icy_title(before + title + behind) == (StreamMetadataView {
            title: Some(title),
            artist: None,
            source: MetadataSource::Icy,
        }),
        icy_title(before) == (StreamMetadataView {
            title: None,
            artist: None,
            source: MetadataSource::Icy,
        }),
{
    reveal_strlit(" - ");
    assert(" - "@ =~= seq![' ', '-', ' ']);
    crate::text::law_trim_takes_white_space_off(before, title, behind);
    lemma_found(title, " - "@);
    assert(before + Seq::empty() + Seq::empty() =~= before);
    crate::text::law_trim_takes_white_space_off(before, Seq::empty(), Seq::empty());
    lemma_found(Seq::empty(), " - "@);
}

/// The value of `StreamTitle` is read as it was written, without the white space around it, to the
/// first `';`; a value of white space alone is none, and neither is one without the mark before it
/// or the one behind it.
pub proof fn law_stream_title_is_read(
    first: Seq<char>,
    before: Seq<char>,
    title: Seq<char>,
    behind: Seq<char>,
    rest: Seq<char>,
)
    requires
        all_white(before),
        all_white(behind),
        title.len() == 0 || is_trim(title),
        forall|i: int|
            0 <= i < first.len() ==> !crate::text::occurs_at(
                first + "StreamTitle='"@ + (before + title + behind + "';"@ + rest),
                "StreamTitle='"@,
                i,
            ),
        !crate::text::has_infix(before + title + behind + seq!['\''], seq!['\'', ';']),
    ensures
        icy_stream_title(
            first + "StreamTitle='"@ + (before + title + behind + "';"@ + rest),
        ) == if title.len() == 0 {
            None
        } else {
            Some(title)
        },
        forall|text: Seq<char>|
            !crate::text::has_infix(text, "StreamTitle='"@) ==> #[trigger] icy_stream_title(text)
                is None,
        forall|text: Seq<char>|
            !crate::text::has_infix(text, "';"@) ==> #[trigger] icy_stream_title(text) is None,
{
    reveal_strlit("StreamTitle='");
    reveal_strlit("';");
    let mark = "StreamTitle='"@;
    let close = seq!['\'', ';'];
    assert("';"@ =~= close);
    let value = before + title + behind;
    let tail = value + close + rest;
    let whole = first + mark + tail;
    crate::text::law_search_gives_the_first(first, mark, tail);
    assert(whole.skip(first.len() as int + 13) =~= tail);
    let n = value.len() as int;
    assert forall|i: int| 0 <= i < n implies !crate::text::occurs_at(tail, close, i) by {
        if crate::text::occurs_at(tail, close, i) {
            crate::text::law_occurrence(tail, close, i);
            let shorter = value + seq!['\''];
            assert forall|k: int| 0 <= k < 2 implies shorter[i + k] == #[trigger] close[k] by {
                assert(tail[i + k] == shorter[i + k]);
            }
            crate::text::law_occurrence(shorter, close, i);
            assert(crate::text::has_infix(shorter, close));
        }
    }
    crate::text::law_search_gives_the_first(value, close, rest);
    assert(tail.take(n) =~= value);
    crate::text::law_trim_takes_white_space_off(before, title, behind);
    assert forall|text: Seq<char>|
        !crate::text::has_infix(text, mark) implies #[trigger] icy_stream_title(text) is None by {
        lemma_found(text, mark);
    }
    assert forall|text: Seq<char>|
        !crate::text::has_infix(text, close) implies #[trigger] icy_stream_title(text) is None by {
        if let Some(start) = found(text, mark) {
            lemma_found(text, mark);
            let after = text.skip(start + 13);
            lemma_found(after, close);
            if crate::text::has_infix(after, close) {
                let i = choose|i: int| crate::text::occurs_at(after, close, i);
                crate::text::law_occurrence(after, close, i);
                let at = start + 13 + i;
                assert forall|k: int| 0 <= k < 2 implies text[at + k] == #[trigger] close[k] by {
                    assert(after[i + k] == text[at + k]);
                }
                crate::text::law_occurrence(text, close, at);
            }
        }
    }
}

/// The title of a block is that of its bytes as text, once the null bytes behind them are gone.
pub proof fn law_block_is_read_as_text(bytes: Seq<u8>, n: nat)
    requires
        bytes.len() > 0,
        bytes.last() != 0,
    ensures
        without_padding(bytes + Seq::new(n, |i: int| 0u8)) == bytes,
        block_title(bytes + Seq::new(n, |i: int| 0u8)) == icy_stream_title(lossy_text(bytes)),
        block_title(Seq::new(n, |i: int| 0u8)) is None,
{
    law_padding_is_ignored(bytes, n);
    law_padding_is_ignored(Seq::empty(), n);
    assert(Seq::<u8>::empty() + Seq::new(n, |i: int| 0u8) =~= Seq::new(n, |i: int| 0u8));
    lemma_zeros_are_padding(bytes, n);
}

proof fn lemma_zeros_are_padding(bytes: Seq<u8>, n: nat)
    requires
        bytes.len() > 0,
        bytes.last() != 0,
    ensures
        without_padding(bytes + Seq::new(n, |i: int| 0u8)) == bytes,
    decreases n,
{
    let zeros = Seq::new(n, |i: int| 0u8);
    if n == 0 {
        assert(bytes + zeros =~= bytes);
    } else {
        let fewer = Seq::new((n - 1) as nat, |i: int| 0u8);
        assert((bytes + zeros).last() == 0);
        assert((bytes + zeros).drop_last() =~= bytes + fewer);
        lemma_zeros_are_padding(bytes, (n - 1) as nat);
    }
}

/// Metadata say what their fields hold.
pub proof fn law_metadata_say(m: StreamMetadata)
    ensures
        m@.source == m.source,
        m@.title == opt_text(m.title),
        m@.artist == opt_text(m.artist),
{
}

} // verus!
