//! HLS streams
//!
//! Which segments of a media playlist to download and when, what audio is in them, and the bytes
//! that are handed to the audio engine.

use m3u8_rs::Playlist;

use vstd::prelude::*;

use crate::error::{RadioError, Result};
use crate::stream::bytes::{copy_into, overwritten, SeekTarget};
use crate::stream::icy::{Received, StreamEnd};
use crate::stream::mpegts::{audio_of, demux, no_kinds, packets_of};
use crate::stream::playlist::{
    absolute, base_of, get_base_url, has_extension, is_http, is_stream_error, make_absolute_url,
};
use crate::text::{
    contains, ends_with, has_infix, has_suffix, join, lowercase, opt_text, starts_with, trim,
    trimmed,
};

verus! {

/// Detected segment container format
#[derive(Debug, Clone, Copy, PartialEq, Eq, Structural)]
pub enum HlsSegmentFormat {
    MpegTs,
    Fmp4,
    Raw,
}

/// The four bytes behind the length of an MP4 box are those of a box that opens a segment.
pub open spec fn opens_with_box(data: Seq<u8>) -> bool {
    let name = data.subrange(4, 8);
    data.len() >= 8 && (name == seq![0x66u8, 0x74, 0x79, 0x70] || name == seq![
        0x6Du8,
        0x6F,
        0x6F,
        0x66,
    ] || name == seq![0x6Du8, 0x6F, 0x6F, 0x76])
}

/// The data begins with the sync byte of a transport stream.
pub open spec fn opens_with_sync(data: Seq<u8>) -> bool {
    data.len() > 0 && data[0] == 0x47
}

/// The format of a segment: its data decide, and the extension of its URL, which is given in
/// lowercase, where they do not.
pub open spec fn segment_format(data: Seq<u8>, lower: Seq<char>) -> HlsSegmentFormat {
    if opens_with_box(data) {
        HlsSegmentFormat::Fmp4
    } else if opens_with_sync(data) || has_extension(lower, ".ts"@) {
        HlsSegmentFormat::MpegTs
    } else if has_extension(lower, ".m4s"@) {
        HlsSegmentFormat::Fmp4
    } else {
        HlsSegmentFormat::Raw
    }
}

/// Detect the container format of an HLS segment from its data and URL
pub fn detect_segment_format(data: &[u8], url: &str) -> (r: HlsSegmentFormat)
    ensures
        r == segment_format(data@, lowercase(url@)),
{
    let lower: String = url.to_lowercase();
    detect_lowercase_format(data, &lower)
}

/// Detect the container format of an HLS segment from its data and its URL in lowercase
pub fn detect_lowercase_format(data: &[u8], lower: &str) -> (r: HlsSegmentFormat)
    ensures
        r == segment_format(data@, lower@),
{
    proof {
        reveal_strlit(".ts");
        reveal_strlit(".ts?");
        reveal_strlit(".m4s");
        reveal_strlit(".m4s?");
        assert(".ts?"@ =~= ".ts"@.push('?'));
        assert(".m4s?"@ =~= ".m4s"@.push('?'));
    }
    if data.len() >= 8 {
        let a: u8 = data[4];
        let b: u8 = data[5];
        let c: u8 = data[6];
        let d: u8 = data[7];
        assert(data@.subrange(4, 8) =~= seq![a, b, c, d]);
        let is_ftyp: bool = a == 0x66 && b == 0x74 && c == 0x79 && d == 0x70;
        let is_moof: bool = a == 0x6D && b == 0x6F && c == 0x6F && d == 0x66;
        let is_moov: bool = a == 0x6D && b == 0x6F && c == 0x6F && d == 0x76;
        proof {
            let name = data@.subrange(4, 8);
            assert(name[0] == a && name[1] == b && name[2] == c && name[3] == d);
            assert(is_ftyp ==> name =~= seq![0x66u8, 0x74, 0x79, 0x70]);
            assert(is_moof ==> name =~= seq![0x6Du8, 0x6F, 0x6F, 0x66]);
            assert(is_moov ==> name =~= seq![0x6Du8, 0x6F, 0x6F, 0x76]);
        }
        if is_ftyp || is_moof || is_moov {
            return HlsSegmentFormat::Fmp4;
        }
    }
    if data.len() > 0 && data[0] == 0x47 {
        return HlsSegmentFormat::MpegTs;
    }
    if ends_with(lower, ".ts") || contains(lower, ".ts?") {
        return HlsSegmentFormat::MpegTs;
    }
    if ends_with(lower, ".m4s") || contains(lower, ".m4s?") {
        return HlsSegmentFormat::Fmp4;
    }
    HlsSegmentFormat::Raw
}

/// The URI, given without white space around it, has the extension of a media file.
pub open spec fn has_media_extension(uri: Seq<char>) -> bool {
    ||| has_suffix(uri, ".ts"@)
    ||| has_suffix(uri, ".aac"@)
    ||| has_suffix(uri, ".m4s"@)
    ||| has_suffix(uri, ".mp4"@)
    ||| has_suffix(uri, ".m4a"@)
    ||| has_infix(uri, ".ts?"@)
    ||| has_infix(uri, ".aac?"@)
    ||| has_infix(uri, ".m4s?"@)
}

/// The URI, given without white space around it, names a segment: it is no attribute, and it is
/// absolute, has a media extension or has a path.
pub open spec fn names_segment(uri: Seq<char>) -> bool {
    &&& uri.len() > 0
    &&& !has_infix(uri, "=\""@)
    &&& !has_infix(uri, "='"@)
    &&& is_http(uri) || has_media_extension(uri) || has_infix(uri, "/"@)
}

/// Check if a segment URI looks valid (not metadata or garbage)
pub fn is_valid_segment_uri(uri: &str) -> (r: bool)
    ensures
        r == names_segment(trimmed(uri@)),
{
    let trimmed: &str = trim(uri);
    if trimmed.unicode_len() == 0 {
        return false;
    }
    if contains(trimmed, "=\"") || contains(trimmed, "='") {
        return false;
    }
    if starts_with(trimmed, "http://") || starts_with(trimmed, "https://") {
        return true;
    }
    ends_with(trimmed, ".ts") || ends_with(trimmed, ".aac") || ends_with(trimmed, ".m4s")
        || ends_with(trimmed, ".mp4") || ends_with(trimmed, ".m4a") || contains(trimmed, ".ts?")
        || contains(trimmed, ".aac?") || contains(trimmed, ".m4s?") || contains(trimmed, "/")
}

/// The audio in a segment that is a transport stream.
pub open spec fn ts_audio(data: Seq<u8>) -> Seq<u8> {
    audio_of(packets_of(data, no_kinds()))
}

/// Demux an MPEG-TS segment and extract audio data
pub fn demux_ts_segment(ts_data: &[u8]) -> (r: Vec<u8>)
    ensures
        r@ == ts_audio(ts_data@),
{
    demux(ts_data)
}

/// A segment of a media playlist.
#[derive(Debug)]
pub struct MediaSegment {
    /// The segment's URI, as it stands in the playlist.
    pub uri: String,
    /// The URI of its initialization section, where the playlist gives one.
    pub map_uri: Option<String>,
}

/// A media playlist.
#[derive(Debug)]
pub struct MediaPlaylist {
    /// The segments, in order.
    pub segments: Vec<MediaSegment>,
    /// Whether no segment will be added any more.
    pub end_list: bool,
    /// The longest duration of a segment in seconds.
    pub target_duration: u64,
}

/// What a playlist holds.
#[derive(Debug)]
pub enum ParsedPlaylist {
    /// A master playlist: the URIs of its variants, in order.
    Master(Vec<String>),
    /// A media playlist.
    Media(MediaPlaylist),
    /// No playlist; the text says why.
    Invalid(String),
}

/// What a `MediaSegment` says.
pub struct MediaSegmentView {
    pub uri: Seq<char>,
    pub map_uri: Option<Seq<char>>,
}

/// What a `MediaPlaylist` says.
pub struct MediaPlaylistView {
    pub segments: Seq<MediaSegmentView>,
    pub end_list: bool,
    pub target_duration: u64,
}

/// What a `ParsedPlaylist` says.
pub enum ParsedPlaylistView {
    Master(Seq<Seq<char>>),
    Media(MediaPlaylistView),
    Invalid(Seq<char>),
}

impl View for MediaSegment {
    type V = MediaSegmentView;

    open spec fn view(&self) -> MediaSegmentView {
        MediaSegmentView { uri: self.uri@, map_uri: opt_text(self.map_uri) }
    }
}

impl View for MediaPlaylist {
    type V = MediaPlaylistView;

    open spec fn view(&self) -> MediaPlaylistView {
        MediaPlaylistView {
            segments: Seq::new(self.segments@.len(), |i: int| self.segments@[i]@),
            end_list: self.end_list,
            target_duration: self.target_duration,
        }
    }
}

impl View for ParsedPlaylist {
    type V = ParsedPlaylistView;

    open spec fn view(&self) -> ParsedPlaylistView {
        match *self {
            ParsedPlaylist::Master(uris) => ParsedPlaylistView::Master(
                Seq::new(uris@.len(), |i: int| uris@[i]@),
            ),
            ParsedPlaylist::Media(playlist) => ParsedPlaylistView::Media(playlist@),
            ParsedPlaylist::Invalid(text) => ParsedPlaylistView::Invalid(text@),
        }
    }
}

/// What the bytes of a playlist hold.
pub uninterp spec fn m3u8_playlist(content: Seq<u8>) -> ParsedPlaylistView;

/// `m3u8_rs::parse_playlist` reads a playlist. What it finds depends on the bytes alone; of a
/// master playlist the variants' URIs are kept, of a media playlist the segments' URIs and maps,
/// the end mark and the target duration, and of an error its description.
#[verifier::external_body]
pub(crate) fn parse_playlist(content: &[u8]) -> (r: ParsedPlaylist)
    ensures
        r@ == m3u8_playlist(content@),
{
    match m3u8_rs::parse_playlist(content) {
        Ok((_, Playlist::MasterPlaylist(p))) => {
            ParsedPlaylist::Master(p.variants.into_iter().map(|v| v.uri).collect())
        },
        Ok((_, Playlist::MediaPlaylist(p))) => {
            let segments = p.segments.into_iter().map(|s| MediaSegment { uri: s.uri, map_uri: s.map.map(|m| m.uri) });
            ParsedPlaylist::Media(MediaPlaylist {
                segments: segments.collect(),
                end_list: p.end_list,
                target_duration: p.target_duration,
            })
        },
        Err(e) => ParsedPlaylist::Invalid(format!("{:?}", e)),
    }
}

/// What a look into one playlist of a chain leads to.
#[derive(Debug)]
pub enum HlsStep {
    /// The URL of the playlist to look into next.
    Follow(String),
    /// The URL of the media playlist, and its base URL.
    Found(String, String),
    /// The chain leads nowhere.
    Failed(RadioError),
}

/// What a `HlsStep` says.
pub enum HlsStepView {
    Follow(Seq<char>),
    Found(Seq<char>, Seq<char>),
    Failed(Seq<char>),
}

/// The step that the contents of the playlist at `url` call for. An error is a stream error, and
/// its text is given.
pub open spec fn hls_step(url: Seq<char>, parsed: ParsedPlaylistView) -> HlsStepView {
    match parsed {
        ParsedPlaylistView::Master(uris) => if uris.len() > 0 {
            HlsStepView::Follow(absolute(uris[0], base_of(url)))
        } else {
            HlsStepView::Failed("No variants in master playlist"@)
        },
        ParsedPlaylistView::Media(_) => HlsStepView::Found(url, base_of(url)),
        ParsedPlaylistView::Invalid(text) => HlsStepView::Failed("Playlist parse error: "@ + text),
    }
}

/// `step` says what `view` says.
pub open spec fn is_step(step: HlsStep, view: HlsStepView) -> bool {
    match view {
        HlsStepView::Follow(next) => step matches HlsStep::Follow(s) && s@ == next,
        HlsStepView::Found(url, base) => step matches HlsStep::Found(u, b) && u@ == url && b@
            == base,
        HlsStepView::Failed(text) => step matches HlsStep::Failed(RadioError::Stream(s)) && s@
            == text,
    }
}

/// The step that a playlist calls for.
pub fn follow_playlist(url: &str, parsed: &ParsedPlaylist) -> (r: HlsStep)
    ensures
        is_step(r, hls_step(url@, parsed@)),
{
    let base_url: String = get_base_url(url);
    match parsed {
        ParsedPlaylist::Master(uris) => {
            if uris.len() > 0 {
                assert(parsed@->Master_0[0] == uris@[0]@);
                HlsStep::Follow(make_absolute_url(&uris[0], &base_url))
            } else {
                HlsStep::Failed(RadioError::Stream("No variants in master playlist".to_string()))
            }
        },
        ParsedPlaylist::Media(_) => HlsStep::Found(url.to_string(), base_url),
        ParsedPlaylist::Invalid(text) => HlsStep::Failed(
            RadioError::Stream(join("Playlist parse error: ", text)),
        ),
    }
}

/// How many playlists of a chain are looked into.
pub const MAX_HLS_DEPTH: usize = 5;

/// `r` is what following the chain from `url` may give, when `fetch` brings the playlists and at
/// most `depth` of them are looked into.
pub open spec fn hls_resolves<F: Fn(&str) -> Result<Vec<u8>>>(
    fetch: F,
    url: Seq<char>,
    depth: nat,
    r: Result<(String, String)>,
) -> bool
    decreases depth,
{
    if depth == 0 {
        is_stream_error(r, "HLS playlist nesting too deep"@)
    } else {
        exists|asked: &str, answer: Result<Vec<u8>>|
            {
                &&& asked@ == url
                &&& #[trigger] call_ensures(fetch, (asked,), answer)
                &&& match answer {
                    Err(e) => r == Err::<(String, String), RadioError>(e),
                    Ok(content) => match hls_step(url, m3u8_playlist(content@)) {
                        HlsStepView::Follow(next) => hls_resolves(
                            fetch,
                            next,
                            (depth - 1) as nat,
                            r,
                        ),
                        HlsStepView::Found(media, base) => r matches Ok(found) && found.0@ == media
                            && found.1@ == base,
                        HlsStepView::Failed(text) => is_stream_error(r, text),
                    },
                }
            }
    }
}

/// Resolve an HLS URL — follows master playlists to find the media playlist
///
/// The playlists are brought by `fetch`. The result is the URL of the media playlist and its
/// base URL.
pub fn resolve_hls_url<F: Fn(&str) -> Result<Vec<u8>>>(url: &str, fetch: &F) -> (r: Result<
    (String, String),
>)
    requires
        forall|asked: &str| call_requires(*fetch, (asked,)),
    ensures
        if has_extension(lowercase(url@), ".m3u8"@) {
            hls_resolves(*fetch, url@, MAX_HLS_DEPTH as nat, r)
        } else {
            is_stream_error(r, "Not an HLS URL"@)
        },
{
    proof {
        reveal_strlit(".m3u8");
        reveal_strlit(".m3u8?");
        assert(".m3u8?"@ =~= ".m3u8"@.push('?'));
    }
    let lower: String = url.to_lowercase();
    if !ends_with(&lower, ".m3u8") && !contains(&lower, ".m3u8?") {
        return Err(RadioError::Stream("Not an HLS URL".to_string()));
    }
    resolve_hls_recursive(url, fetch, MAX_HLS_DEPTH)
}

fn resolve_hls_recursive<F: Fn(&str) -> Result<Vec<u8>>>(url: &str, fetch: &F, depth: usize) -> (r:
    Result<(String, String)>)
    requires
        forall|asked: &str| call_requires(*fetch, (asked,)),
    ensures
        hls_resolves(*fetch, url@, depth as nat, r),
    decreases depth,
{
    if depth == 0 {
        return Err(RadioError::Stream("HLS playlist nesting too deep".to_string()));
    }
    let content: Vec<u8> = match fetch(url) {
        Ok(content) => content,
        Err(e) => return Err(e),
    };
    let parsed: ParsedPlaylist = parse_playlist(&content);
    match follow_playlist(url, &parsed) {
        HlsStep::Follow(media_url) => resolve_hls_recursive(&media_url, fetch, depth - 1),
        HlsStep::Found(media_url, base_url) => Ok((media_url, base_url)),
        HlsStep::Failed(e) => Err(e),
    }
}

/// Hands out the audio of an HLS stream.
#[derive(Debug)]
pub struct HlsReader {
    /// The audio that is kept.
    pub data: Vec<u8>,
    /// Where in it the reader stands, which may be behind its end.
    pub position: u64,
    /// The format of the first segment.
    pub detected_format: HlsSegmentFormat,
}

/// What an `HlsReader` says.
pub struct CursorView {
    pub data: Seq<u8>,
    pub position: nat,
}

/// What lies ahead of the reader.
pub open spec fn ahead(c: CursorView) -> Seq<u8> {
    if c.position <= c.data.len() {
        c.data.skip(c.position as int)
    } else {
        Seq::empty()
    }
}

/// The reader after another segment arrived while it still had data: what it has read is dropped.
pub open spec fn appended(c: CursorView, segment: Seq<u8>) -> CursorView {
    CursorView {
        data: if c.position <= c.data.len() {
            c.data.skip(c.position as int) + segment
        } else {
            c.data + segment
        },
        position: 0,
    }
}

/// Where a seek leads; nowhere where the position is negative or too large.
pub open spec fn cursor_seek(c: CursorView, target: SeekTarget) -> Option<u64> {
    let aim = match target {
        SeekTarget::Start(offset) => offset as int,
        SeekTarget::End(offset) => c.data.len() + offset,
        SeekTarget::Current(offset) => c.position + offset,
    };
    if 0 <= aim <= u64::MAX {
        Some(aim as u64)
    } else {
        None
    }
}

impl View for HlsReader {
    type V = CursorView;

    open spec fn view(&self) -> CursorView {
        CursorView { data: self.data@, position: self.position as nat }
    }
}

/// What a reader without data does next.
#[derive(Debug)]
pub enum HlsWait {
    /// It has data now.
    Ready,
    /// It waits for a segment.
    Again,
    /// It has nothing more to give.
    End(StreamEnd),
}

impl HlsReader {
    /// A reader that holds the first segment of the playlist at the URL.
    pub fn new(initial_data: Vec<u8>, media_url: &str) -> (r: Self)
        ensures
            r@ == (CursorView { data: initial_data@, position: 0 }),
            r.detected_format == segment_format(initial_data@, lowercase(media_url@)),
    {
        let detected_format: HlsSegmentFormat = detect_segment_format(&initial_data, media_url);
        HlsReader { data: initial_data, position: 0, detected_format }
    }

    /// Hands out what fits of the data ahead.
    pub fn serve(&mut self, buf: &mut [u8]) -> (n: usize)
        ensures
            n == if old(buf)@.len() < ahead(old(self)@).len() {
                old(buf)@.len()
            } else {
                ahead(old(self)@).len()
            },
            final(buf)@ == overwritten(old(buf)@, ahead(old(self)@).take(n as int)),
            final(self)@ == (CursorView { position: old(self)@.position + n as nat, ..old(self)@ }),
            ahead(final(self)@) == ahead(old(self)@).skip(n as int),
            final(self).detected_format == old(self).detected_format,
    {
        let len: usize = self.data.len();
        let start: usize = if self.position < len as u64 {
            self.position as usize
        } else {
            len
        };
        let remaining: usize = len - start;
        let n: usize = if buf.len() < remaining {
            buf.len()
        } else {
            remaining
        };
        assert(ahead(self@).take(n as int) =~= self.data@.subrange(start as int, start + n));
        copy_into(buf, &self.data, start, n);
        if n > 0 {
            self.position = self.position + n as u64;
        }
        assert(ahead(self@) =~= ahead(old(self)@).skip(n as int));
        n
    }

    /// A segment arrived that was not waited for.
    pub fn on_pending(&mut self, segment: &Vec<u8>)
        ensures
            final(self)@ == appended(old(self)@, segment@),
            final(self).detected_format == old(self).detected_format,
    {
        if self.position > 0 && self.position <= self.data.len() as u64 {
            let rest: Vec<u8> = self.data.split_off(self.position as usize);
            self.data = rest;
        }
        self.position = 0;
        self.data.extend_from_slice(segment);
        assert(self.data@ =~= appended(old(self)@, segment@).data);
    }

    /// What is to be done once all segments that had arrived were taken in: a reader without data
    /// waits for a segment, unless it was told to stop.
    pub fn fill_step(&self, stopped: bool) -> (r: HlsWait)
        ensures
            if ahead(self@).len() > 0 {
                r is Ready
            } else if stopped {
                r == HlsWait::End(StreamEnd::Stopped)
            } else {
                r is Again
            },
    {
        if self.position < self.data.len() as u64 {
            HlsWait::Ready
        } else if stopped {
            HlsWait::End(StreamEnd::Stopped)
        } else {
            HlsWait::Again
        }
    }

    /// The wait for a segment ended.
    ///
    /// Nothing is given up as long as segments can still come: the network may recover.
    pub fn on_received(&mut self, received: Received) -> (r: HlsWait)
        ensures
            final(self).detected_format == old(self).detected_format,
            match received {
                Received::Chunk(segment) => final(self)@ == (CursorView {
                    data: segment@,
                    position: 0,
                }) && r is Ready,
                Received::Timeout => final(self)@ == old(self)@ && r is Again,
                Received::Disconnected => final(self)@ == old(self)@ && r == HlsWait::End(
                    StreamEnd::Ended,
                ),
            },
    {
        match received {
            Received::Chunk(segment) => {
                self.data = segment;
                self.position = 0;
                HlsWait::Ready
            },
            Received::Timeout => HlsWait::Again,
            Received::Disconnected => HlsWait::End(StreamEnd::Ended),
        }
    }

    /// Seeks in the data that is kept, or behind it.
    pub fn seek(&mut self, target: SeekTarget) -> (r: Option<u64>)
        ensures
            r == cursor_seek(old(self)@, target),
            final(self)@ == match r {
                Some(position) => CursorView { position: position as nat, ..old(self)@ },
                None => old(self)@,
            },
            final(self).detected_format == old(self).detected_format,
    {
        let aim: i128 = match target {
            SeekTarget::Start(offset) => offset as i128,
            SeekTarget::End(offset) => self.data.len() as i128 + offset as i128,
            SeekTarget::Current(offset) => self.position as i128 + offset as i128,
        };
        if aim < 0 || aim > u64::MAX as i128 {
            return None;
        }
        self.position = aim as u64;
        Some(self.position)
    }
}

/// No audio is lost or repeated when a segment arrives: it follows what lay ahead, for a reader
/// that has not been moved behind its data.
pub proof fn law_segments_follow_each_other(c: CursorView, segment: Seq<u8>)
    requires
        c.position <= c.data.len(),
    ensures
        ahead(appended(c, segment)) == ahead(c) + segment,
{
    assert(ahead(appended(c, segment)) =~= ahead(c) + segment);
}

/// What resolving an HLS URL finds is a playlist of the chain together with its own base, so that
/// relative segments are looked for beside it.
pub proof fn law_found_with_its_base<F: Fn(&str) -> Result<Vec<u8>>>(
    fetch: F,
    url: Seq<char>,
    depth: nat,
    found: (String, String),
)
    requires
        hls_resolves(fetch, url, depth, Ok(found)),
    ensures
        found.1@ == base_of(found.0@),
    decreases depth,
{
    let r: Result<(String, String)> = Ok(found);
    if depth > 0 {
        let (asked, answer) = choose|asked: &str, answer: Result<Vec<u8>>|
            {
                &&& asked@ == url
                &&& #[trigger] call_ensures(fetch, (asked,), answer)
                &&& match answer {
                    Err(e) => r == Err::<(String, String), RadioError>(e),
                    Ok(content) => match hls_step(url, m3u8_playlist(content@)) {
                        HlsStepView::Follow(next) => hls_resolves(
                            fetch,
                            next,
                            (depth - 1) as nat,
                            r,
                        ),
                        HlsStepView::Found(media, base) => r matches Ok(found) && found.0@ == media
                            && found.1@ == base,
                        HlsStepView::Failed(text) => is_stream_error(r, text),
                    },
                }
            };
        if let HlsStepView::Follow(next) = hls_step(url, m3u8_playlist(answer->Ok_0@)) {
            law_found_with_its_base(fetch, next, (depth - 1) as nat, found);
        }
    }
}

/// Data that show a format decide, whatever the URL says.
pub proof fn law_data_have_priority(data: Seq<u8>, url: Seq<char>, other: Seq<char>)
    requires
        opens_with_box(data) || opens_with_sync(data),
    ensures
        segment_format(data, url) == segment_format(data, other),
        segment_format(data, url) != HlsSegmentFormat::Raw,
{
}

/// Of a master playlist the first variant is followed, however many it lists: as it stands where it
/// has a scheme, else beside the playlist, in the directory of its URL. A media playlist is what
/// was looked for, together with that directory. Anything else leads nowhere.
pub proof fn law_first_variant_is_followed(
    directory: Seq<char>,
    file: Seq<char>,
    first: Seq<char>,
    more: Seq<Seq<char>>,
    media: MediaPlaylistView,
    text: Seq<char>,
)
    requires
        !file.contains('/'),
    ensures
        ({
            let url = directory + seq!['/'] + file;
            &&& hls_step(url, ParsedPlaylistView::Master(seq![first] + more))
                == HlsStepView::Follow(
                if crate::text::has_prefix(first, "http://"@) || crate::text::has_prefix(
                    first,
                    "https://"@,
                ) {
                    first
                } else {
                    directory + seq!['/'] + first
                },
            )
            &&& hls_step(url, ParsedPlaylistView::Media(media)) == HlsStepView::Found(
                url,
                directory,
            )
            &&& hls_step(url, ParsedPlaylistView::Master(Seq::empty())) == HlsStepView::Failed(
                "No variants in master playlist"@,
            )
            &&& hls_step(url, ParsedPlaylistView::Invalid(text)) == HlsStepView::Failed(
                "Playlist parse error: "@ + text,
            )
        }),
{
    let url = directory + seq!['/'] + file;
    crate::stream::playlist::law_base_is_the_directory(directory, file);
    crate::stream::playlist::law_relative_to_the_base(first, directory);
    assert((seq![first] + more)[0] == first);
}

/// Further variants make no difference to the step, whatever the URL.
pub proof fn law_other_variants_do_not_matter(
    url: Seq<char>,
    variants: Seq<Seq<char>>,
    more: Seq<Seq<char>>,
)
    requires
        variants.len() > 0,
    ensures
        hls_step(url, ParsedPlaylistView::Master(variants + more)) == hls_step(
            url,
            ParsedPlaylistView::Master(variants),
        ),
        hls_step(url, ParsedPlaylistView::Master(variants)) == HlsStepView::Follow(
            absolute(variants[0], base_of(url)),
        ),
{
}

/// What a step and an error say is what was asked for.
pub proof fn law_what_a_step_says(step: HlsStep, r: Result<(String, String)>, text: Seq<char>)
    ensures
        is_step(step, HlsStepView::Follow(text)) <==> (step matches HlsStep::Follow(s) && s@
            == text),
        forall|base: Seq<char>|
            #[trigger] is_step(step, HlsStepView::Found(text, base)) <==> (step matches
                HlsStep::Found(u, b) && u@ == text && b@ == base),
        is_step(step, HlsStepView::Failed(text)) <==> (step matches HlsStep::Failed(
            RadioError::Stream(s),
        ) && s@ == text),
        is_stream_error(r, text) <==> (r matches Err(RadioError::Stream(s)) && s@ == text),
{
}

/// Whatever `fetch` answers when it is asked for the URL, it is this playlist.
pub open spec fn hls_answers_with<F: Fn(&str) -> Result<Vec<u8>>>(
    fetch: F,
    url: Seq<char>,
    parsed: ParsedPlaylistView,
) -> bool {
    forall|asked: &str, answer: Result<Vec<u8>>|
        asked@ == url && #[trigger] call_ensures(fetch, (asked,), answer) ==> (answer matches Ok(
            content,
        ) && m3u8_playlist(content@) == parsed)
}

/// Each URL but the last is that of a master playlist whose first variant is at the next one, and
/// the last is that of a media playlist.
pub open spec fn is_hls_chain<F: Fn(&str) -> Result<Vec<u8>>>(
    fetch: F,
    urls: Seq<Seq<char>>,
    variants: Seq<Seq<Seq<char>>>,
    media: MediaPlaylistView,
) -> bool {
    &&& urls.len() == variants.len() + 1
    &&& hls_answers_with(fetch, urls.last(), ParsedPlaylistView::Media(media))
    &&& forall|i: int|
        0 <= i < variants.len() ==> (#[trigger] variants[i]).len() > 0 && hls_answers_with(
            fetch,
            urls[i],
            ParsedPlaylistView::Master(variants[i]),
        ) && urls[i + 1] == absolute(variants[i][0], base_of(urls[i]))
}

/// A chain of master playlists is followed to its media playlist if it is shorter than the depth,
/// and is an error otherwise: with the configured depth up to four master playlists are followed,
/// and no more.
pub proof fn law_hls_chains_resolve<F: Fn(&str) -> Result<Vec<u8>>>(
    fetch: F,
    urls: Seq<Seq<char>>,
    variants: Seq<Seq<Seq<char>>>,
    media: MediaPlaylistView,
    depth: nat,
    r: Result<(String, String)>,
)
    requires
        is_hls_chain(fetch, urls, variants, media),
        hls_resolves(fetch, urls[0], depth, r),
    ensures
        r is Ok <==> variants.len() < depth,
        variants.len() < depth ==> (r matches Ok(found) && found.0@ == urls.last() && found.1@
            == base_of(urls.last())),
        variants.len() >= depth ==> is_stream_error(r, "HLS playlist nesting too deep"@),
        depth == MAX_HLS_DEPTH ==> (r is Ok <==> variants.len() <= 4),
    decreases depth,
{
    if depth > 0 {
        let url = urls[0];
        let (asked, answer) = choose|asked: &str, answer: Result<Vec<u8>>|
            {
                &&& asked@ == url
                &&& #[trigger] call_ensures(fetch, (asked,), answer)
                &&& match answer {
                    Err(e) => r == Err::<(String, String), RadioError>(e),
                    Ok(content) => match hls_step(url, m3u8_playlist(content@)) {
                        HlsStepView::Follow(next) => hls_resolves(
                            fetch,
                            next,
                            (depth - 1) as nat,
                            r,
                        ),
                        HlsStepView::Found(media, base) => r matches Ok(found) && found.0@ == media
                            && found.1@ == base,
                        HlsStepView::Failed(text) => is_stream_error(r, text),
                    },
                }
            };
        if variants.len() > 0 {
            assert(variants[0].len() > 0);
            assert(hls_answers_with(fetch, url, ParsedPlaylistView::Master(variants[0])));
            assert(answer matches Ok(c) && m3u8_playlist(c@) == ParsedPlaylistView::Master(
                variants[0],
            ));
            let rest = urls.skip(1);
            let later = variants.skip(1);
            assert(rest.last() == urls.last());
            assert forall|i: int| 0 <= i < later.len() implies (#[trigger] later[i]).len() > 0
                && hls_answers_with(fetch, rest[i], ParsedPlaylistView::Master(later[i]))
                && rest[i + 1] == absolute(later[i][0], base_of(rest[i])) by {
                assert(later[i] == variants[i + 1]);
                assert(rest[i] == urls[i + 1]);
            }
            law_hls_chains_resolve(fetch, rest, later, media, (depth - 1) as nat, r);
        } else {
            assert(urls[0] == urls.last());
            assert(hls_answers_with(fetch, url, ParsedPlaylistView::Media(media)));
            assert(answer matches Ok(c) && m3u8_playlist(c@) == ParsedPlaylistView::Media(media));
        }
    }
}

/// An error of the network is handed on as it is, and a playlist that leads nowhere is an error.
pub proof fn law_hls_errors<F: Fn(&str) -> Result<Vec<u8>>>(
    fetch: F,
    url: Seq<char>,
    depth: nat,
    r: Result<(String, String)>,
    text: Seq<char>,
)
    requires
        depth > 0,
        hls_resolves(fetch, url, depth, r),
    ensures
        hls_answers_with(fetch, url, ParsedPlaylistView::Master(Seq::empty())) ==> is_stream_error(
            r,
            "No variants in master playlist"@,
        ),
        hls_answers_with(fetch, url, ParsedPlaylistView::Invalid(text)) ==> is_stream_error(
            r,
            "Playlist parse error: "@ + text,
        ),
        forall|e: RadioError|
            (forall|asked: &str, answer: Result<Vec<u8>>|
                asked@ == url && #[trigger] call_ensures(fetch, (asked,), answer) ==> answer
                    == Err::<Vec<u8>, RadioError>(e)) ==> r == Err::<(String, String), RadioError>(
                e,
            ),
{
    let (asked, answer) = choose|asked: &str, answer: Result<Vec<u8>>|
        {
            &&& asked@ == url
            &&& #[trigger] call_ensures(fetch, (asked,), answer)
            &&& match answer {
                Err(e) => r == Err::<(String, String), RadioError>(e),
                Ok(content) => match hls_step(url, m3u8_playlist(content@)) {
                    HlsStepView::Follow(next) => hls_resolves(fetch, next, (depth - 1) as nat, r),
                    HlsStepView::Found(media, base) => r matches Ok(found) && found.0@ == media
                        && found.1@ == base,
                    HlsStepView::Failed(text) => is_stream_error(r, text),
                },
            }
        };
    assert(call_ensures(fetch, (asked,), answer));
}

/// The format of a segment is told by its first bytes: the name of an MP4 box behind four bytes,
/// or the sync byte of a transport stream. Where they tell nothing the extension of the URL does,
/// and audio without a container is left.
pub proof fn law_segment_formats(data: Seq<u8>, lower: Seq<char>)
    ensures
        ({
            let boxed = data.len() >= 8 && (data[4] == 'f' as u8 && data[5] == 't' as u8 && data[6]
                == 'y' as u8 && data[7] == 'p' as u8 || data[4] == 'm' as u8 && data[5] == 'o' as u8
                && data[6] == 'o' as u8 && (data[7] == 'f' as u8 || data[7] == 'v' as u8));
            let synced = data.len() > 0 && data[0] == 71;
            let ts = has_suffix(lower, ".ts"@) || has_infix(lower, ".ts?"@);
            let m4s = has_suffix(lower, ".m4s"@) || has_infix(lower, ".m4s?"@);
            &&& opens_with_sync(data) == synced
            &&& segment_format(data, lower) == HlsSegmentFormat::Fmp4 <==> boxed || !synced && !ts
                && m4s
            &&& segment_format(data, lower) == HlsSegmentFormat::MpegTs <==> !boxed && (synced
                || ts)
            &&& segment_format(data, lower) == HlsSegmentFormat::Raw <==> !boxed && !synced && !ts
                && !m4s
        }),
{
    reveal_strlit(".ts");
    reveal_strlit(".ts?");
    reveal_strlit(".m4s");
    reveal_strlit(".m4s?");
    assert(".ts?"@ =~= ".ts"@.push('?'));
    assert(".m4s?"@ =~= ".m4s"@.push('?'));
    if data.len() >= 8 {
        let name = data.subrange(4, 8);
        assert(name[0] == data[4] && name[1] == data[5] && name[2] == data[6] && name[3]
            == data[7]);
        assert(data[4] == 0x66 && data[5] == 0x74 && data[6] == 0x79 && data[7] == 0x70 <==> name
            =~= seq![0x66u8, 0x74, 0x79, 0x70]);
        assert(data[4] == 0x6D && data[5] == 0x6F && data[6] == 0x6F && data[7] == 0x66 <==> name
            =~= seq![0x6Du8, 0x6F, 0x6F, 0x66]);
        assert(data[4] == 0x6D && data[5] == 0x6F && data[6] == 0x6F && data[7] == 0x76 <==> name
            =~= seq![0x6Du8, 0x6F, 0x6F, 0x76]);
    }
}

/// A file with one of the extensions of media names a segment, as do a path and an HTTP URL; an
/// empty text does not.
pub proof fn law_segment_names(name: Seq<char>, query: Seq<char>)
    requires
        !name.contains('='),
        !query.contains('='),
    ensures
        names_segment(name + ".ts"@),
        names_segment(name + ".aac"@),
        names_segment(name + ".m4s"@),
        names_segment(name + ".mp4"@),
        names_segment(name + ".m4a"@),
        names_segment(name + ".ts?"@ + query),
        names_segment(name + ".aac?"@ + query),
        names_segment(name + ".m4s?"@ + query),
        names_segment(name + "/"@ + query),
        names_segment("http://"@ + name),
        names_segment("https://"@ + name),
        !names_segment(Seq::empty()),
{
    assert(names_segment(name + ".ts"@)) by {
        reveal_strlit(".ts");
        lemma_part_names(name, ".ts"@, Seq::empty());
    }
    assert(names_segment(name + ".aac"@)) by {
        reveal_strlit(".aac");
        lemma_part_names(name, ".aac"@, Seq::empty());
    }
    assert(names_segment(name + ".m4s"@)) by {
        reveal_strlit(".m4s");
        lemma_part_names(name, ".m4s"@, Seq::empty());
    }
    assert(names_segment(name + ".mp4"@)) by {
        reveal_strlit(".mp4");
        lemma_part_names(name, ".mp4"@, Seq::empty());
    }
    assert(names_segment(name + ".m4a"@)) by {
        reveal_strlit(".m4a");
        lemma_part_names(name, ".m4a"@, Seq::empty());
    }
    assert(names_segment(name + ".ts?"@ + query)) by {
        reveal_strlit(".ts?");
        lemma_part_names(name, ".ts?"@, query);
    }
    assert(names_segment(name + ".aac?"@ + query)) by {
        reveal_strlit(".aac?");
        lemma_part_names(name, ".aac?"@, query);
    }
    assert(names_segment(name + ".m4s?"@ + query)) by {
        reveal_strlit(".m4s?");
        lemma_part_names(name, ".m4s?"@, query);
    }
    assert(names_segment(name + "/"@ + query)) by {
        reveal_strlit("/");
        lemma_part_names(name, "/"@, query);
    }
    assert(names_segment("http://"@ + name)) by {
        reveal_strlit("http://");
        lemma_part_names(Seq::empty(), "http://"@, name);
    }
    assert(names_segment("https://"@ + name)) by {
        reveal_strlit("https://");
        lemma_part_names(Seq::empty(), "https://"@, name);
    }
}

/// A bare word, without a dot or a slash in it, names no segment.
pub proof fn law_bare_words_are_no_segments(name: Seq<char>)
    requires
        !name.contains('/'),
        !name.contains('.'),
    ensures
        !names_segment(name),
{
    assert(!has_infix(name, ".ts"@) && !has_suffix(name, ".ts"@) && !crate::text::has_prefix(
        name,
        ".ts"@,
    )) by {
        reveal_strlit(".ts");
        lemma_without_char(name, ".ts"@, '.', 0);
    }
    assert(!has_infix(name, ".aac"@) && !has_suffix(name, ".aac"@) && !crate::text::has_prefix(
        name,
        ".aac"@,
    )) by {
        reveal_strlit(".aac");
        lemma_without_char(name, ".aac"@, '.', 0);
    }
    assert(!has_infix(name, ".m4s"@) && !has_suffix(name, ".m4s"@) && !crate::text::has_prefix(
        name,
        ".m4s"@,
    )) by {
        reveal_strlit(".m4s");
        lemma_without_char(name, ".m4s"@, '.', 0);
    }
    assert(!has_infix(name, ".mp4"@) && !has_suffix(name, ".mp4"@) && !crate::text::has_prefix(
        name,
        ".mp4"@,
    )) by {
        reveal_strlit(".mp4");
        lemma_without_char(name, ".mp4"@, '.', 0);
    }
    assert(!has_infix(name, ".m4a"@) && !has_suffix(name, ".m4a"@) && !crate::text::has_prefix(
        name,
        ".m4a"@,
    )) by {
        reveal_strlit(".m4a");
        lemma_without_char(name, ".m4a"@, '.', 0);
    }
    assert(!has_infix(name, ".ts?"@) && !has_suffix(name, ".ts?"@) && !crate::text::has_prefix(
        name,
        ".ts?"@,
    )) by {
        reveal_strlit(".ts?");
        lemma_without_char(name, ".ts?"@, '.', 0);
    }
    assert(!has_infix(name, ".aac?"@) && !has_suffix(name, ".aac?"@) && !crate::text::has_prefix(
        name,
        ".aac?"@,
    )) by {
        reveal_strlit(".aac?");
        lemma_without_char(name, ".aac?"@, '.', 0);
    }
    assert(!has_infix(name, ".m4s?"@) && !has_suffix(name, ".m4s?"@) && !crate::text::has_prefix(
        name,
        ".m4s?"@,
    )) by {
        reveal_strlit(".m4s?");
        lemma_without_char(name, ".m4s?"@, '.', 0);
    }
    assert(!has_infix(name, "/"@) && !has_suffix(name, "/"@) && !crate::text::has_prefix(
        name,
        "/"@,
    )) by {
        reveal_strlit("/");
        lemma_without_char(name, "/"@, '/', 0);
    }
    assert(!has_infix(name, "http://"@) && !has_suffix(name, "http://"@) && !crate::text::has_prefix(
        name,
        "http://"@,
    )) by {
        reveal_strlit("http://");
        lemma_without_char(name, "http://"@, '/', 5);
    }
    assert(!has_infix(name, "https://"@) && !has_suffix(name, "https://"@) && !crate::text::has_prefix(
        name,
        "https://"@,
    )) by {
        reveal_strlit("https://");
        lemma_without_char(name, "https://"@, '/', 6);
    }
}

proof fn lemma_part_names(a: Seq<char>, p: Seq<char>, b: Seq<char>)
    requires
        p.len() > 0,
        !a.contains('='),
        !p.contains('='),
        !b.contains('='),
    ensures
        has_suffix(a + p, p),
        has_infix(a + p + b, p),
        crate::text::has_prefix(p + b, p),
        !has_infix(a + p + b, "=\""@),
        !has_infix(a + p + b, "='"@),
        !has_infix(a + p, "=\""@),
        !has_infix(a + p, "='"@),
        !has_infix(p + b, "=\""@),
        !has_infix(p + b, "='"@),
{
    reveal_strlit("=\"");
    reveal_strlit("='");
    crate::text::law_parts_of_a_text(a, a, p, b);
    let s = a + p + b;
    assert forall|i: int| 0 <= i < s.len() implies s[i] != '=' by {
        if i < a.len() {
            assert(a.contains(a[i]));
        } else if i < a.len() + p.len() {
            assert(p.contains(p[i - a.len()]));
        } else {
            assert(b.contains(b[i - a.len() - p.len()]));
        }
    }
    assert(!s.contains('='));
    assert(!(a + p).contains('=')) by {
        assert forall|i: int| 0 <= i < (a + p).len() implies (a + p)[i] != '=' by {
            assert(s[i] == (a + p)[i]);
        }
    }
    assert(!(p + b).contains('=')) by {
        assert forall|i: int| 0 <= i < (p + b).len() implies (p + b)[i] != '=' by {
            assert(s[i + a.len()] == (p + b)[i]);
        }
    }
    lemma_without_char(s, "=\""@, '=', 0);
    lemma_without_char(s, "='"@, '=', 0);
    lemma_without_char(a + p, "=\""@, '=', 0);
    lemma_without_char(a + p, "='"@, '=', 0);
    lemma_without_char(p + b, "=\""@, '=', 0);
    lemma_without_char(p + b, "='"@, '=', 0);
}

proof fn lemma_without_char(s: Seq<char>, p: Seq<char>, c: char, k: int)
    requires
        !s.contains(c),
        0 <= k < p.len(),
        p[k] == c,
    ensures
        !has_infix(s, p),
        !has_suffix(s, p),
        !crate::text::has_prefix(s, p),
{
    assert forall|i: int| !crate::text::occurs_at(s, p, i) by {
        if crate::text::occurs_at(s, p, i) {
            crate::text::law_occurrence(s, p, i);
            assert(s[i + k] == p[k]);
            assert(s.contains(s[i + k]));
        }
    }
}

/// A text with a quoted value in it, in either sort of quotes, names no segment.
pub proof fn law_quoted_values_are_no_segments(a: Seq<char>, b: Seq<char>)
    ensures
        !names_segment(a + seq!['=', '"'] + b),
        !names_segment(a + seq!['=', '\''] + b),
{
    reveal_strlit("=\"");
    reveal_strlit("='");
    assert("=\""@ =~= seq!['=', '"']);
    assert("='"@ =~= seq!['=', '\'']);
    crate::text::law_parts_of_a_text(a, a, seq!['=', '"'], b);
    crate::text::law_parts_of_a_text(a, a, seq!['=', '\''], b);
}

/// What names a segment is an HTTP URL, a path, or a file with one of the extensions of media,
/// with or without a query, in which other equals signs may stand, but no quoted value.
pub proof fn law_what_names_a_segment(uri: Seq<char>)
    ensures
        names_segment(uri) <==> uri.len() > 0 && !has_infix(uri, "=\""@) && !has_infix(uri, "='"@)
            && (crate::text::has_prefix(uri, "http://"@) || crate::text::has_prefix(
            uri,
            "https://"@,
        ) || has_infix(uri, "/"@) || has_suffix(uri, ".ts"@) || has_suffix(uri, ".aac"@)
            || has_suffix(uri, ".m4s"@) || has_suffix(uri, ".mp4"@) || has_suffix(uri, ".m4a"@)
            || has_infix(uri, ".ts?"@) || has_infix(uri, ".aac?"@) || has_infix(uri, ".m4s?"@)),
{
}

/// What lies ahead of a reader is what it has not read; one that was moved behind its data keeps
/// all of it when a segment arrives.
pub proof fn law_what_lies_ahead(read: Seq<u8>, rest: Seq<u8>, position: nat, segment: Seq<u8>)
    ensures
        ahead(CursorView { data: read + rest, position: read.len() }) == rest,
        position > rest.len() ==> ahead(CursorView { data: rest, position }) == Seq::<u8>::empty(),
        position > rest.len() ==> appended(CursorView { data: rest, position }, segment) == (
        CursorView { data: rest + segment, position: 0 }),
        appended(CursorView { data: read + rest, position: read.len() }, segment) == (CursorView {
            data: rest + segment,
            position: 0,
        }),
{
    let c = CursorView { data: read + rest, position: read.len() };
    assert(ahead(c) =~= rest);
    assert(appended(c, segment).data =~= rest + segment);
}

/// A seek leads to its offset from the start, from the end of the data or from where the reader
/// stands, and is refused where that is no position.
pub proof fn law_cursor_seek(c: CursorView, from_start: u64, offset: i64)
    ensures
        cursor_seek(c, SeekTarget::Start(from_start)) == Some(from_start),
        cursor_seek(c, SeekTarget::End(offset)) is Some <==> 0 <= c.data.len() + offset
            <= u64::MAX,
        cursor_seek(c, SeekTarget::End(offset)) matches Some(p) ==> p == c.data.len() + offset,
        cursor_seek(c, SeekTarget::Current(offset)) is Some <==> 0 <= c.position + offset
            <= u64::MAX,
        cursor_seek(c, SeekTarget::Current(offset)) matches Some(p) ==> p == c.position + offset,
{
}

/// The audio of a segment is that of all its packets, read with nothing known beforehand; what is
/// shorter than a packet holds none.
pub proof fn law_audio_of_a_segment(data: Seq<u8>)
    ensures
        ts_audio(data) == audio_of(packets_of(data, Map::empty())),
        data.len() < 188 ==> ts_audio(data) == Seq::<u8>::empty(),
{
}

/// A media playlist says what its fields hold, segment by segment, and a reader what it keeps and
/// where it stands.
pub proof fn law_playlist_and_reader_say(playlist: MediaPlaylist, i: int, reader: HlsReader)
    requires
        0 <= i < playlist.segments@.len(),
    ensures
        playlist@.segments.len() == playlist.segments@.len(),
        playlist@.segments[i].uri == playlist.segments@[i].uri@,
        playlist@.segments[i].map_uri == opt_text(playlist.segments@[i].map_uri),
        playlist@.end_list == playlist.end_list,
        playlist@.target_duration == playlist.target_duration,
        reader@.data == reader.data@,
        reader@.position == reader.position,
{
}

/// A reader with something ahead of it is ready, one without waits, and only a reader without gives
/// up, when it was told to stop.
pub proof fn law_when_a_reader_waits(reader: &HlsReader, stopped: bool, r: HlsWait)
    requires
        call_ensures(HlsReader::fill_step, (reader, stopped), r),
    ensures
        r is Ready <==> reader@.position < reader@.data.len(),
        r is Again <==> reader@.position >= reader@.data.len() && !stopped,
        r is End <==> reader@.position >= reader@.data.len() && stopped,
{
}

} // verus!
