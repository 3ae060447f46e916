//! The decisions of the HLS segment downloader
//!
//! Segments are told apart by their URLs: some servers keep the media sequence number at zero
//! across playlist refreshes even as they rotate the segments.

use core::time::Duration;

use vstd::prelude::*;

use crate::config::hls::SEGMENT_BUFFER_SIZE;
use crate::stream::hls::{
    demux_ts_segment, is_valid_segment_uri, m3u8_playlist, names_segment, opens_with_sync,
    parse_playlist, ts_audio, MediaPlaylist, MediaPlaylistView, ParsedPlaylist, ParsedPlaylistView,
};
use crate::stream::playlist::{absolute, make_absolute_url};
use crate::stream::{
    backoff_delay, backoff_secs, law_full_counter_keeps_the_delay, one_failure_more, shown,
};
use crate::text::{contains, ends_with, has_infix, has_suffix, opt_text, same, trimmed};
use crate::time::duration_nanos;

verus! {

/// What the downloader remembers between two playlist refreshes.
#[derive(Debug)]
pub struct SegmentDownloader {
    base_url: String,
    downloaded: Vec<String>,
    first_fetch: bool,
    sent_first: bool,
    init_segment: Option<Vec<u8>>,
    init_segment_url: Option<String>,
    consecutive_failures: u32,
}

/// What a `SegmentDownloader` says.
pub struct DownloaderView {
    /// The base of relative URIs.
    pub base: Seq<char>,
    /// The URLs of the segments that are done with.
    pub downloaded: Set<Seq<char>>,
    /// No playlist has been seen yet.
    pub first_fetch: bool,
    /// Audio has been passed on.
    pub sent_first: bool,
    /// The initialization section, until it has been passed on.
    pub init_segment: Option<Seq<u8>>,
    /// Where the initialization section came from.
    pub init_url: Option<Seq<char>>,
    /// How many attempts at the playlist failed in a row.
    pub failures: u32,
}

/// The texts of a list.
pub open spec fn texts(v: Seq<String>) -> Seq<Seq<char>> {
    Seq::new(v.len(), |i: int| v[i]@)
}

/// The bytes in an optional vector.
pub open spec fn opt_bytes(v: Option<Vec<u8>>) -> Option<Seq<u8>> {
    match v {
        Some(v) => Some(v@),
        None => None,
    }
}

/// A pass over the segments of a playlist.
#[derive(Debug)]
pub struct Round {
    /// The playlist.
    pub playlist: MediaPlaylist,
    /// The index of the segment to look at next.
    pub next: usize,
    /// Whether a segment was tried that had not been before.
    pub fetched_new: bool,
}

/// What a playlist refresh leads to.
#[derive(Debug)]
pub enum RefreshStep {
    /// The playlist has to be fetched again, after this pause.
    Retry(Duration),
    /// The stream is not what it was taken for.
    NotMedia,
    /// The segments of the playlist are to be gone through.
    Segments(Round),
}

/// How the fetch of a segment ended.
#[derive(Debug)]
pub enum SegmentFetch {
    /// With the segment's bytes.
    Data(Vec<u8>),
    /// With an answer that broke off.
    Interrupted,
    /// With an error or an answer that told of one.
    Failed,
}

/// What follows a pass over the segments.
#[derive(Debug, Clone, Copy, PartialEq, Eq, Structural)]
pub enum RoundEnd {
    /// All segments are done with and none will be added.
    Finished,
    /// The playlist is to be fetched again after so many seconds.
    WaitSecs(u64),
}

/// The URL of the segment at index `i`.
pub open spec fn segment_url(playlist: MediaPlaylistView, base: Seq<char>, i: int) -> Seq<char> {
    absolute(playlist.segments[i].uri, base)
}

/// The URL is that of a segment in the playlist.
pub open spec fn lists_url(playlist: MediaPlaylistView, base: Seq<char>, url: Seq<char>) -> bool {
    exists|i: int| 0 <= i < playlist.segments.len() && #[trigger] segment_url(playlist, base, i)
        == url
}

/// The segment at index `i` is to be fetched: its URI names a segment, and it is not done with.
pub open spec fn wants(d: DownloaderView, playlist: MediaPlaylistView, i: int) -> bool {
    names_segment(trimmed(playlist.segments[i].uri)) && !d.downloaded.contains(
        segment_url(playlist, d.base, i),
    )
}

/// Where the pass over a playlist starts: a live stream is joined a few segments before its end,
/// so that the pipeline fills; otherwise at the beginning.
pub open spec fn start_index(first_fetch: bool, playlist: MediaPlaylistView) -> int {
    let n = playlist.segments.len() as int;
    if first_fetch && !playlist.end_list {
        if n > SEGMENT_BUFFER_SIZE {
            n - SEGMENT_BUFFER_SIZE
        } else {
            0
        }
    } else {
        0
    }
}

/// The URL is listed before index `start`, and not again from there on.
pub open spec fn listed_only_before(
    playlist: MediaPlaylistView,
    base: Seq<char>,
    start: int,
    url: Seq<char>,
) -> bool {
    &&& exists|i: int|
        0 <= i < start && i < playlist.segments.len() && #[trigger] segment_url(playlist, base, i)
            == url
    &&& forall|i: int|
        start <= i < playlist.segments.len() ==> #[trigger] segment_url(playlist, base, i) != url
}

/// The downloader after a playlist. The segments before the start of the first one are done with:
/// the stream does not go back to them.
pub open spec fn refreshed(d: DownloaderView, parsed: ParsedPlaylistView) -> DownloaderView {
    match parsed {
        ParsedPlaylistView::Media(playlist) => DownloaderView {
            failures: 0,
            first_fetch: false,
            downloaded: d.downloaded.union(
                Set::new(
                    |url: Seq<char>|
                        listed_only_before(
                            playlist,
                            d.base,
                            start_index(d.first_fetch, playlist),
                            url,
                        ),
                ),
            ),
            ..d
        },
        ParsedPlaylistView::Master(_) => d,
        ParsedPlaylistView::Invalid(_) => DownloaderView {
            failures: one_failure_more(d.failures),
            ..d
        },
    }
}

/// `step` is to try again, after the backoff delay for the failures of `d`.
pub open spec fn is_retry(d: DownloaderView, step: RefreshStep) -> bool {
    step matches RefreshStep::Retry(pause) && duration_nanos(pause) == backoff_secs(
        d.failures as nat,
    ) * 1_000_000_000
}

/// `step` is what a playlist leads to.
pub open spec fn is_refresh_step(
    d: DownloaderView,
    parsed: ParsedPlaylistView,
    step: RefreshStep,
) -> bool {
    match parsed {
        ParsedPlaylistView::Media(playlist) => step matches RefreshStep::Segments(round)
            && round.playlist@ == playlist && round.next == start_index(d.first_fetch, playlist)
            && !round.fetched_new,
        ParsedPlaylistView::Master(_) => step is NotMedia,
        ParsedPlaylistView::Invalid(_) => is_retry(refreshed(d, parsed), step),
    }
}

/// The URL of the initialization section to fetch, where one is missing and the first segment
/// has one.
pub open spec fn wanted_init(d: DownloaderView, playlist: MediaPlaylistView) -> Option<Seq<char>> {
    if d.init_segment is None && playlist.segments.len() > 0 {
        match playlist.segments[0].map_uri {
            Some(uri) if d.init_url != Some(absolute(uri, d.base)) => Some(absolute(uri, d.base)),
            _ => None,
        }
    } else {
        None
    }
}

/// The segment is a fragment of an MP4 file.
pub open spec fn is_fragment(url: Seq<char>) -> bool {
    has_suffix(url, ".m4s"@) || has_infix(url, ".m4s?"@)
}

/// The audio to pass on of a segment; `demuxed` is what a transport stream carries. A fragment is
/// preceded by the initialization section as long as nothing has been passed on.
pub open spec fn segment_audio(
    d: DownloaderView,
    url: Seq<char>,
    data: Seq<u8>,
    demuxed: Seq<u8>,
) -> Seq<u8> {
    if opens_with_sync(data) {
        demuxed
    } else {
        match d.init_segment {
            Some(init) if is_fragment(url) && !d.sent_first => init + data,
            _ => data,
        }
    }
}

/// The bytes, where there are any.
pub open spec fn nonempty(bytes: Seq<u8>) -> Option<Seq<u8>> {
    if bytes.len() == 0 {
        None
    } else {
        Some(bytes)
    }
}

/// The segment is done with.
pub open spec fn with_url(d: DownloaderView, url: Seq<char>) -> DownloaderView {
    DownloaderView { downloaded: d.downloaded.insert(url), ..d }
}

/// The downloader after audio has been passed on: the initialization section is not needed again.
pub open spec fn after_send(d: DownloaderView) -> DownloaderView {
    if d.sent_first {
        d
    } else {
        DownloaderView { sent_first: true, init_segment: None, init_url: None, ..d }
    }
}

/// The downloader after a pass: of the URLs only those stay that the playlist lists.
pub open spec fn pruned(d: DownloaderView, playlist: MediaPlaylistView) -> DownloaderView {
    DownloaderView {
        downloaded: d.downloaded.filter(|url: Seq<char>| lists_url(playlist, d.base, url)),
        ..d
    }
}

/// Every segment of the playlist is done with.
pub open spec fn all_done(d: DownloaderView, playlist: MediaPlaylistView) -> bool {
    forall|i: int|
        0 <= i < playlist.segments.len() ==> d.downloaded.contains(
            #[trigger] segment_url(playlist, d.base, i),
        )
}

/// What follows a pass over the segments: a playlist that changed is reloaded after the target
/// duration, one that did not after half of it.
pub open spec fn round_end(
    d: DownloaderView,
    playlist: MediaPlaylistView,
    fetched_new: bool,
) -> RoundEnd {
    let base = if playlist.target_duration > 2 {
        playlist.target_duration
    } else {
        2
    };
    if playlist.end_list {
        if all_done(d, playlist) {
            RoundEnd::Finished
        } else {
            RoundEnd::WaitSecs(1)
        }
    } else if fetched_new {
        RoundEnd::WaitSecs(base)
    } else {
        RoundEnd::WaitSecs((base / 2) as u64)
    }
}

/// The URL is not listed from index `start` on.
spec fn not_from(
    playlist: MediaPlaylistView,
    base: Seq<char>,
    start: int,
    url: Seq<char>,
) -> bool {
    forall|i: int|
        start <= i < playlist.segments.len() ==> #[trigger] segment_url(playlist, base, i) != url
}

/// The URL is listed among the first `n` segments, and not from index `start` on.
spec fn skipped_so_far(
    playlist: MediaPlaylistView,
    base: Seq<char>,
    start: int,
    n: int,
    url: Seq<char>,
) -> bool {
    &&& exists|i: int| 0 <= i < n && #[trigger] segment_url(playlist, base, i) == url
    &&& not_from(playlist, base, start, url)
}

impl View for SegmentDownloader {
    type V = DownloaderView;

    closed spec fn view(&self) -> DownloaderView {
        DownloaderView {
            base: self.base_url@,
            downloaded: texts(self.downloaded@).to_set(),
            first_fetch: self.first_fetch,
            sent_first: self.sent_first,
            init_segment: opt_bytes(self.init_segment),
            init_url: opt_text(self.init_segment_url),
            failures: self.consecutive_failures,
        }
    }
}

impl SegmentDownloader {
    /// No URL is kept twice.
    pub closed spec fn well_formed(&self) -> bool {
        texts(self.downloaded@).no_duplicates()
    }

    /// A downloader that has not seen a playlist yet.
    pub fn new(base_url: &str) -> (r: Self)
        ensures
            r.well_formed(),
            r@ == (DownloaderView {
                base: base_url@,
                downloaded: Set::empty(),
                first_fetch: true,
                sent_first: false,
                init_segment: None,
                init_url: None,
                failures: 0,
            }),
    {
        let downloaded: Vec<String> = Vec::new();
        assert(texts(downloaded@).to_set() =~= Set::empty());
        SegmentDownloader {
            base_url: base_url.to_string(),
            downloaded,
            first_fetch: true,
            sent_first: false,
            init_segment: None,
            init_segment_url: None,
            consecutive_failures: 0,
        }
    }

    /// How many attempts at the playlist failed in a row.
    pub fn failures(&self) -> (n: u32)
        ensures
            n == self@.failures,
    {
        self.consecutive_failures
    }

    /// The playlist could not be fetched: it is tried again, after a pause that grows with the
    /// failures in a row.
    pub fn on_playlist_failed(&mut self) -> (step: RefreshStep)
        requires
            old(self).well_formed(),
        ensures
            final(self).well_formed(),
            final(self)@ == (DownloaderView {
                failures: one_failure_more(old(self)@.failures),
                ..old(self)@
            }),
            is_retry(final(self)@, step),
    {
        self.consecutive_failures = self.consecutive_failures.saturating_add(1);
        RefreshStep::Retry(backoff_delay(self.consecutive_failures))
    }

    /// The playlist was fetched.
    pub fn on_playlist_bytes(&mut self, content: &[u8]) -> (step: RefreshStep)
        requires
            old(self).well_formed(),
        ensures
            final(self).well_formed(),
            final(self)@ == refreshed(old(self)@, m3u8_playlist(content@)),
            is_refresh_step(old(self)@, m3u8_playlist(content@), step),
    {
        let parsed: ParsedPlaylist = parse_playlist(content);
        self.on_playlist(parsed)
    }

    /// The playlist was fetched and read.
    pub fn on_playlist(&mut self, parsed: ParsedPlaylist) -> (step: RefreshStep)
        requires
            old(self).well_formed(),
        ensures
            final(self).well_formed(),
            final(self)@ == refreshed(old(self)@, parsed@),
            is_refresh_step(old(self)@, parsed@, step),
    {
        match parsed {
            ParsedPlaylist::Media(playlist) => {
                self.consecutive_failures = 0;
                let n: usize = playlist.segments.len();
                let next: usize = if self.first_fetch && !playlist.end_list && n
                    > SEGMENT_BUFFER_SIZE {
                    n - SEGMENT_BUFFER_SIZE
                } else {
                    0
                };
                self.first_fetch = false;
                self.skip_before(&playlist, next);
                RefreshStep::Segments(Round { playlist, next, fetched_new: false })
            },
            ParsedPlaylist::Master(_) => RefreshStep::NotMedia,
            ParsedPlaylist::Invalid(_) => self.on_playlist_failed(),
        }
    }

    /// The URL of the initialization section to fetch, if one is missing.
    pub fn init_to_fetch(&self, playlist: &MediaPlaylist) -> (r: Option<String>)
        ensures
            opt_text(r) == wanted_init(self@, playlist@),
    {
        if self.init_segment.is_some() || playlist.segments.len() == 0 {
            return None;
        }
        assert(playlist@.segments[0] == playlist.segments@[0]@);
        match &playlist.segments[0].map_uri {
            None => None,
            Some(uri) => {
                let url: String = make_absolute_url(uri, &self.base_url);
                match &self.init_segment_url {
                    Some(known) => {
                        if same(known, &url) {
                            None
                        } else {
                            Some(url)
                        }
                    },
                    None => Some(url),
                }
            },
        }
    }

    /// The initialization section was fetched.
    pub fn on_init(&mut self, url: String, data: Vec<u8>)
        requires
            old(self).well_formed(),
        ensures
            final(self).well_formed(),
            final(self)@ == (DownloaderView {
                init_segment: Some(data@),
                init_url: Some(url@),
                ..old(self)@
            }),
    {
        self.init_segment = Some(data);
        self.init_segment_url = Some(url);
    }

    /// Whether the segment at the URL is done with.
    fn is_downloaded(&self, url: &str) -> (r: bool)
        ensures
            r == self@.downloaded.contains(url@),
    {
        let ghost kept = texts(self.downloaded@);
        let mut i: usize = 0;
        while i < self.downloaded.len()
            invariant
                i <= self.downloaded@.len(),
                kept == texts(self.downloaded@),
                forall|k: int| 0 <= k < i ==> kept[k] != url@,
            decreases self.downloaded@.len() - i,
        {
            assert(kept[i as int] == self.downloaded@[i as int]@);
            if same(&self.downloaded[i], url) {
                assert(kept.contains(url@));
                return true;
            }
            i += 1;
        }
        false
    }

    /// Marks the segment at the URL as done with.
    fn mark_downloaded(&mut self, url: String)
        requires
            old(self).well_formed(),
        ensures
            final(self).well_formed(),
            final(self)@ == with_url(old(self)@, url@),
    {
        if self.is_downloaded(&url) {
            assert(self@.downloaded.insert(url@) =~= self@.downloaded);
            return;
        }
        let ghost before = texts(self.downloaded@);
        let ghost added = url@;
        self.downloaded.push(url);
        proof {
            let after = texts(self.downloaded@);
            assert(after =~= before.push(added));
            assert(!before.contains(added));
            assert(after.to_set() =~= before.to_set().insert(added)) by {
                assert forall|x: Seq<char>| after.contains(x) == (before.contains(x) || x
                    == added) by {
                    if before.contains(x) {
                        let k = choose|k: int| 0 <= k < before.len() && before[k] == x;
                        assert(after[k] == x);
                    }
                    if x == added {
                        assert(after[before.len() as int] == x);
                    }
                }
            }
        }
    }

    /// Whether the URL is that of a segment from index `start` on.
    fn lists_from(&self, playlist: &MediaPlaylist, start: usize, url: &str) -> (r: bool)
        ensures
            r == exists|i: int|
                start <= i < playlist@.segments.len() && #[trigger] segment_url(
                    playlist@,
                    self@.base,
                    i,
                ) == url@,
    {
        let mut i: usize = start;
        while i < playlist.segments.len()
            invariant
                start <= i,
                forall|k: int|
                    start <= k < i ==> #[trigger] segment_url(playlist@, self@.base, k) != url@,
            decreases playlist.segments@.len() - i,
        {
            assert(playlist@.segments[i as int] == playlist.segments@[i as int]@);
            let listed: String = make_absolute_url(&playlist.segments[i].uri, &self.base_url);
            assert(listed@ == segment_url(playlist@, self@.base, i as int));
            if same(&listed, url) {
                return true;
            }
            i += 1;
        }
        false
    }

    /// Marks the segments before index `start` as done with.
    fn skip_before(&mut self, playlist: &MediaPlaylist, start: usize)
        requires
            old(self).well_formed(),
            start <= playlist@.segments.len(),
        ensures
            final(self).well_formed(),
            final(self)@ == (DownloaderView {
                downloaded: old(self)@.downloaded.union(
                    Set::new(
                        |url: Seq<char>|
                            listed_only_before(playlist@, old(self)@.base, start as int, url),
                    ),
                ),
                ..old(self)@
            }),
    {
        let ghost d = self@;
        let ghost list = playlist@;
        let mut i: usize = 0;
        while i < start
            invariant
                i <= start <= list.segments.len(),
                list == playlist@,
                self.well_formed(),
                self@ == (DownloaderView { downloaded: self@.downloaded, ..d }),
                forall|url: Seq<char>| #[trigger]
                    self@.downloaded.contains(url) == (d.downloaded.contains(url)
                        || skipped_so_far(list, d.base, start as int, i as int, url)),
            decreases start - i,
        {
            let ghost before = self@.downloaded;
            assert(list.segments[i as int] == playlist.segments@[i as int]@);
            let url: String = make_absolute_url(&playlist.segments[i].uri, &self.base_url);
            let ghost here = url@;
            assert(here == segment_url(list, d.base, i as int));
            if !self.lists_from(playlist, start, &url) {
                self.mark_downloaded(url);
            }
            proof {
                assert forall|url: Seq<char>| #[trigger]
                    self@.downloaded.contains(url) == (d.downloaded.contains(url)
                        || skipped_so_far(list, d.base, start as int, i + 1, url)) by {
                    assert(before.contains(url) == (d.downloaded.contains(url) || skipped_so_far(
                        list,
                        d.base,
                        start as int,
                        i as int,
                        url,
                    )));
                    assert(skipped_so_far(list, d.base, start as int, i + 1, url) == (
                    skipped_so_far(list, d.base, start as int, i as int, url) || (url == here
                        && not_from(list, d.base, start as int, url))));
                }
            }
            i += 1;
        }
        proof {
            let skipped = Set::new(
                |url: Seq<char>| listed_only_before(list, d.base, start as int, url),
            );
            assert forall|url: Seq<char>| #[trigger]
                self@.downloaded.contains(url) == d.downloaded.union(skipped).contains(url) by {
                assert(skipped_so_far(list, d.base, start as int, start as int, url)
                    == listed_only_before(list, d.base, start as int, url));
            }
            assert(self@.downloaded =~= d.downloaded.union(skipped));
        }
    }

    /// The URL of the next segment to fetch in this round.
    ///
    /// Segments that are not to be fetched are skipped. The round moves behind the segment.
    pub fn next_segment(&self, round: &mut Round) -> (r: Option<String>)
        requires
            old(round).next <= old(round).playlist@.segments.len(),
        ensures
            final(round).playlist == old(round).playlist,
            final(round).fetched_new == old(round).fetched_new,
            old(round).next <= final(round).next <= final(round).playlist@.segments.len(),
            match r {
                Some(url) => {
                    let i = final(round).next - 1;
                    &&& old(round).next <= i
                    &&& wants(self@, old(round).playlist@, i)
                    &&& url@ == segment_url(old(round).playlist@, self@.base, i)
                    &&& forall|k: int|
                        old(round).next <= k < i ==> !#[trigger] wants(
                            self@,
                            old(round).playlist@,
                            k,
                        )
                },
                None => final(round).next == final(round).playlist@.segments.len() && forall|k: int|
                    old(round).next <= k < final(round).next ==> !#[trigger] wants(
                        self@,
                        old(round).playlist@,
                        k,
                    ),
            },
    {
        let ghost playlist = round.playlist@;
        while round.next < round.playlist.segments.len()
            invariant
                playlist == old(round).playlist@,
                round.playlist == old(round).playlist,
                round.fetched_new == old(round).fetched_new,
                old(round).next <= round.next <= playlist.segments.len(),
                forall|k: int|
                    old(round).next <= k < round.next ==> !#[trigger] wants(self@, playlist, k),
            decreases playlist.segments.len() - round.next,
        {
            let i: usize = round.next;
            assert(playlist.segments[i as int] == round.playlist.segments@[i as int]@);
            let url: String = make_absolute_url(&round.playlist.segments[i].uri, &self.base_url);
            let wanted: bool = is_valid_segment_uri(&round.playlist.segments[i].uri)
                && !self.is_downloaded(&url);
            round.next = i + 1;
            if wanted {
                return Some(url);
            }
        }
        None
    }

    /// The fetch of a segment ended. Returns the audio to pass on, if there is any.
    ///
    /// A segment that failed is not tried again: what it held is past when the playlist is
    /// refreshed. An answer that broke off leaves the segment for the next round.
    pub fn on_segment(&mut self, round: &mut Round, url: String, fetch: SegmentFetch) -> (r: Option<
        Vec<u8>,
    >)
        requires
            old(self).well_formed(),
        ensures
            final(self).well_formed(),
            final(round).playlist == old(round).playlist,
            final(round).next == old(round).next,
            match fetch {
                SegmentFetch::Data(data) => {
                    let audio = segment_audio(old(self)@, url@, data@, ts_audio(data@));
                    &&& final(self)@ == with_url(old(self)@, url@)
                    &&& final(round).fetched_new
                    &&& opt_bytes(r) == nonempty(audio)
                },
                SegmentFetch::Interrupted => {
                    &&& final(self)@ == old(self)@
                    &&& *final(round) == *old(round)
                    &&& r is None
                },
                SegmentFetch::Failed => {
                    &&& final(self)@ == with_url(old(self)@, url@)
                    &&& final(round).fetched_new
                    &&& r is None
                },
            },
    {
        match fetch {
            SegmentFetch::Data(data) => {
                let demuxed: Vec<u8> = if data.len() > 0 && data[0] == 0x47 {
                    demux_ts_segment(&data)
                } else {
                    Vec::new()
                };
                self.accept_segment(round, url, data, demuxed)
            },
            SegmentFetch::Interrupted => None,
            SegmentFetch::Failed => {
                self.mark_downloaded(url);
                round.fetched_new = true;
                None
            },
        }
    }

    /// A segment was fetched; `demuxed` is the audio in it where it is a transport stream.
    pub fn accept_segment(
        &mut self,
        round: &mut Round,
        url: String,
        data: Vec<u8>,
        demuxed: Vec<u8>,
    ) -> (r: Option<Vec<u8>>)
        requires
            old(self).well_formed(),
        ensures
            final(self).well_formed(),
            final(self)@ == with_url(old(self)@, url@),
            *final(round) == (Round { fetched_new: true, ..*old(round) }),
            opt_bytes(r) == nonempty(segment_audio(old(self)@, url@, data@, demuxed@)),
    {
        round.fetched_new = true;
        let is_fmp4: bool = ends_with(&url, ".m4s") || contains(&url, ".m4s?");
        let ghost was = self@;
        let ghost address = url@;
        self.mark_downloaded(url);
        let audio: Vec<u8> = if data.len() > 0 && data[0] == 0x47 {
            demuxed
        } else {
            match &self.init_segment {
                Some(init) => {
                    if is_fmp4 && !self.sent_first {
                        let mut combined: Vec<u8> = Vec::new();
                        combined.extend_from_slice(init);
                        combined.extend_from_slice(&data);
                        assert(combined@ =~= init@ + data@);
                        combined
                    } else {
                        data
                    }
                },
                None => data,
            }
        };
        assert(audio@ == segment_audio(was, address, data@, demuxed@));
        if audio.len() == 0 {
            None
        } else {
            Some(audio)
        }
    }

    /// Audio was passed on.
    pub fn on_sent(&mut self)
        requires
            old(self).well_formed(),
        ensures
            final(self).well_formed(),
            final(self)@ == after_send(old(self)@),
    {
        if !self.sent_first {
            self.sent_first = true;
            self.init_segment = None;
            self.init_segment_url = None;
        }
    }

    /// Whether the URL is that of a segment in the playlist.
    fn lists(&self, playlist: &MediaPlaylist, url: &str) -> (r: bool)
        ensures
            r == lists_url(playlist@, self@.base, url@),
    {
        self.lists_from(playlist, 0, url)
    }

    /// Keeps only the URLs that the playlist lists.
    fn prune(&mut self, playlist: &MediaPlaylist)
        requires
            old(self).well_formed(),
        ensures
            final(self).well_formed(),
            final(self)@ == pruned(old(self)@, playlist@),
    {
        let ghost all = texts(self.downloaded@);
        let ghost base = self@.base;
        let mut kept: Vec<String> = Vec::new();
        let mut i: usize = 0;
        while i < self.downloaded.len()
            invariant
                i <= self.downloaded@.len(),
                *self == *old(self),
                all == texts(self.downloaded@),
                base == self@.base,
                all.no_duplicates(),
                texts(kept@).no_duplicates(),
                forall|x: Seq<char>| #[trigger]
                    texts(kept@).contains(x) == (all.take(i as int).contains(x) && lists_url(
                        playlist@,
                        base,
                        x,
                    )),
            decreases self.downloaded@.len() - i,
        {
            let ghost before = texts(kept@);
            let ghost here = all[i as int];
            assert(here == self.downloaded@[i as int]@);
            if self.lists(playlist, &self.downloaded[i]) {
                let url: String = self.downloaded[i].clone();
                kept.push(url);
                assert(texts(kept@) =~= before.push(here));
            }
            proof {
                assert(!all.take(i as int).contains(here)) by {
                    if all.take(i as int).contains(here) {
                        let k = choose|k: int| 0 <= k < i && all.take(i as int)[k] == here;
                        assert(all[k] == all[i as int]);
                    }
                }
                assert(all.take(i + 1) =~= all.take(i as int).push(here));
                assert(!before.contains(here));
                broadcast use vstd::seq_lib::lemma_seq_contains_after_push;

                assert forall|x: Seq<char>| #[trigger]
                    texts(kept@).contains(x) == (all.take(i + 1).contains(x) && lists_url(
                        playlist@,
                        base,
                        x,
                    )) by {
                    assert(before.contains(x) == (all.take(i as int).contains(x) && lists_url(
                        playlist@,
                        base,
                        x,
                    )));
                }
            }
            i += 1;
        }
        self.downloaded = kept;
        proof {
            assert(all.take(i as int) =~= all);
            let after = pruned(old(self)@, playlist@).downloaded;
            assert forall|x: Seq<char>| self@.downloaded.contains(x) == after.contains(x) by {
                assert(texts(kept@).contains(x) == (all.contains(x) && lists_url(
                    playlist@,
                    base,
                    x,
                )));
            }
            assert(self@.downloaded =~= after);
        }
    }

    /// Whether every segment of the playlist is done with.
    fn is_all_done(&self, playlist: &MediaPlaylist) -> (r: bool)
        ensures
            r == all_done(self@, playlist@),
    {
        let mut i: usize = 0;
        while i < playlist.segments.len()
            invariant
                i <= playlist.segments@.len(),
                forall|k: int|
                    0 <= k < i ==> self@.downloaded.contains(
                        #[trigger] segment_url(playlist@, self@.base, k),
                    ),
            decreases playlist.segments@.len() - i,
        {
            assert(playlist@.segments[i as int] == playlist.segments@[i as int]@);
            let url: String = make_absolute_url(&playlist.segments[i].uri, &self.base_url);
            assert(url@ == segment_url(playlist@, self@.base, i as int));
            if !self.is_downloaded(&url) {
                return false;
            }
            i += 1;
        }
        true
    }

    /// The pass over the segments is over.
    ///
    /// URLs that scrolled off the playlist are forgotten. A playlist without an end mark is
    /// reloaded after its target duration, two seconds at least, or after half of that where the
    /// pass found nothing new; one with an end mark every second, until all of it is done with.
    pub fn finish_round(&mut self, round: &Round) -> (r: RoundEnd)
        requires
            old(self).well_formed(),
        ensures
            final(self).well_formed(),
            final(self)@ == pruned(old(self)@, round.playlist@),
            r == round_end(final(self)@, round.playlist@, round.fetched_new),
    {
        self.prune(&round.playlist);
        if round.playlist.end_list {
            return if self.is_all_done(&round.playlist) {
                RoundEnd::Finished
            } else {
                RoundEnd::WaitSecs(1)
            };
        }
        let base: u64 = if round.playlist.target_duration > 2 {
            round.playlist.target_duration
        } else {
            2
        };
        if round.fetched_new {
            RoundEnd::WaitSecs(base)
        } else {
            RoundEnd::WaitSecs(base / 2)
        }
    }
}

/// Something that happens to the downloader.
pub enum DownloaderStep {
    /// The playlist could not be fetched.
    PlaylistFailed,
    /// The playlist was fetched and read.
    Refresh(ParsedPlaylistView),
    /// The initialization section was fetched.
    Init { url: Seq<char>, data: Seq<u8> },
    /// The fetch of the segment at the URL came to an end, well or not.
    Done(Seq<char>),
    /// Audio was passed on.
    Sent,
    /// The pass over the playlist is over.
    Finish(MediaPlaylistView),
}

/// The downloader after a step.
pub open spec fn downloader_step(d: DownloaderView, step: DownloaderStep) -> DownloaderView {
    match step {
        DownloaderStep::PlaylistFailed => DownloaderView {
            failures: one_failure_more(d.failures),
            ..d
        },
        DownloaderStep::Refresh(parsed) => refreshed(d, parsed),
        DownloaderStep::Init { url, data } => DownloaderView {
            init_segment: Some(data),
            init_url: Some(url),
            ..d
        },
        DownloaderStep::Done(url) => with_url(d, url),
        DownloaderStep::Sent => after_send(d),
        DownloaderStep::Finish(playlist) => pruned(d, playlist),
    }
}

/// The downloader after a series of steps.
pub open spec fn downloader_run(d: DownloaderView, steps: Seq<DownloaderStep>) -> DownloaderView
    decreases steps.len(),
{
    if steps.len() == 0 {
        d
    } else {
        downloader_step(downloader_run(d, steps.drop_last()), steps.last())
    }
}

/// How often the playlist could not be had, or could not be read, since it last could.
pub open spec fn failed_refreshes(steps: Seq<DownloaderStep>) -> nat
    decreases steps.len(),
{
    if steps.len() == 0 {
        0
    } else {
        let earlier = failed_refreshes(steps.drop_last());
        match steps.last() {
            DownloaderStep::PlaylistFailed => earlier + 1,
            DownloaderStep::Refresh(ParsedPlaylistView::Invalid(_)) => earlier + 1,
            DownloaderStep::Refresh(ParsedPlaylistView::Media(_)) => 0,
            _ => earlier,
        }
    }
}

/// Whatever happened, the pause before the playlist is tried again is the backoff delay for the
/// number of failures since the last media playlist.
pub proof fn law_pause_after_failures(d: DownloaderView, steps: Seq<DownloaderStep>)
    requires
        d.failures == 0,
    ensures
        downloader_run(d, steps).failures == shown(failed_refreshes(steps)),
        forall|step: RefreshStep|
            is_retry(downloader_run(d, steps), step) <==> (step matches RefreshStep::Retry(pause)
                && duration_nanos(pause) == backoff_secs(failed_refreshes(steps)) * 1_000_000_000),
    decreases steps.len(),
{
    law_full_counter_keeps_the_delay(failed_refreshes(steps));
    if steps.len() > 0 {
        law_pause_after_failures(d, steps.drop_last());
    }
}

/// Every playlist that is gone through in the steps lists the URL.
pub open spec fn stays_listed(
    base: Seq<char>,
    steps: Seq<DownloaderStep>,
    url: Seq<char>,
) -> bool {
    forall|i: int|
        0 <= i < steps.len() ==> match #[trigger] steps[i] {
            DownloaderStep::Finish(playlist) => lists_url(playlist, base, url),
            _ => true,
        }
}

/// A segment that is done with is not wanted again, whatever happens, for as long as the playlists
/// list it.
pub proof fn law_no_segment_is_fetched_twice(
    d: DownloaderView,
    steps: Seq<DownloaderStep>,
    url: Seq<char>,
)
    requires
        d.downloaded.contains(url),
        stays_listed(d.base, steps, url),
    ensures
        downloader_run(d, steps).base == d.base,
        downloader_run(d, steps).downloaded.contains(url),
        forall|playlist: MediaPlaylistView, i: int|
            segment_url(playlist, d.base, i) == url ==> !#[trigger] wants(
                downloader_run(d, steps),
                playlist,
                i,
            ),
    decreases steps.len(),
{
    if steps.len() > 0 {
        let front = steps.drop_last();
        assert forall|i: int| 0 <= i < front.len() implies match #[trigger] front[i] {
            DownloaderStep::Finish(playlist) => lists_url(playlist, d.base, url),
            _ => true,
        } by {
            assert(front[i] == steps[i]);
        }
        law_no_segment_is_fetched_twice(d, front, url);
        assert(steps[steps.len() - 1] == steps.last());
    }
}

/// A live stream never goes back behind its start: a segment that the first playlist lists before
/// the start, and not again from there on, is not wanted in that round nor in any later one, for
/// as long as the playlists list it.
pub proof fn law_live_stream_never_goes_back(
    d: DownloaderView,
    first: MediaPlaylistView,
    i: int,
    steps: Seq<DownloaderStep>,
    later: MediaPlaylistView,
    k: int,
)
    requires
        0 <= i < start_index(d.first_fetch, first),
        listed_only_before(
            first,
            d.base,
            start_index(d.first_fetch, first),
            segment_url(first, d.base, i),
        ),
        stays_listed(d.base, steps, segment_url(first, d.base, i)),
        segment_url(later, d.base, k) == segment_url(first, d.base, i),
    ensures
        !wants(
            downloader_run(refreshed(d, ParsedPlaylistView::Media(first)), steps),
            later,
            k,
        ),
{
    let joined = refreshed(d, ParsedPlaylistView::Media(first));
    law_no_segment_is_fetched_twice(joined, steps, segment_url(first, d.base, i));
}

/// The URLs that a pass from index `i` on asks for, when every fetch comes to an end.
pub open spec fn asked(d: DownloaderView, playlist: MediaPlaylistView, i: int) -> Seq<Seq<char>>
    decreases playlist.segments.len() - i,
{
    if i >= playlist.segments.len() {
        Seq::empty()
    } else if wants(d, playlist, i) {
        let url = segment_url(playlist, d.base, i);
        seq![url] + asked(with_url(d, url), playlist, i + 1)
    } else {
        asked(d, playlist, i + 1)
    }
}

/// No two segments of the playlist have the same URL, and every line names a segment.
pub open spec fn distinct_segments(playlist: MediaPlaylistView, base: Seq<char>) -> bool {
    &&& forall|i: int, k: int|
        0 <= i < k < playlist.segments.len() ==> #[trigger] segment_url(playlist, base, i)
            != #[trigger] segment_url(playlist, base, k)
    &&& forall|i: int|
        0 <= i < playlist.segments.len() ==> names_segment(
            trimmed((#[trigger] playlist.segments[i]).uri),
        )
}

/// A live playlist that is fetched twice without a change is asked for its last segments, as many
/// as the pipeline holds, in order, and then for nothing.
pub proof fn law_unchanged_live_playlist(d: DownloaderView, playlist: MediaPlaylistView)
    requires
        d.first_fetch,
        d.downloaded == Set::<Seq<char>>::empty(),
        !playlist.end_list,
        distinct_segments(playlist, d.base),
    ensures
        ({
            let n = playlist.segments.len() as int;
            let start = start_index(true, playlist);
            let parsed = ParsedPlaylistView::Media(playlist);
            let first = refreshed(d, parsed);
            let second = refreshed(pruned(passed_over(first, playlist, start), playlist), parsed);
            &&& asked(first, playlist, start) == Seq::new(
                (n - start) as nat,
                |k: int| segment_url(playlist, d.base, start + k),
            )
            &&& asked(second, playlist, start_index(second.first_fetch, playlist)) == Seq::<
                Seq<char>,
            >::empty()
        }),
{
    let n = playlist.segments.len() as int;
    let start = start_index(true, playlist);
    let parsed = ParsedPlaylistView::Media(playlist);
    let first = refreshed(d, parsed);
    let passed = passed_over(first, playlist, start);
    let second = refreshed(pruned(passed, playlist), parsed);
    lemma_asks_for_all(first, playlist, start);
    law_pass_leaves_nothing_to_fetch(first, playlist, start);
    assert forall|k: int| 0 <= k < n implies !#[trigger] wants(second, playlist, k) by {
        let url = segment_url(playlist, d.base, k);
        assert(names_segment(trimmed(playlist.segments[k].uri)));
        if k < start {
            assert(listed_only_before(playlist, d.base, start, url));
            assert(first.downloaded.contains(url));
        } else {
            assert(!wants(passed, playlist, k));
        }
        assert(passed.downloaded.contains(url));
        assert(pruned(passed, playlist).downloaded.contains(url));
    }
    assert(!pruned(passed, playlist).first_fetch) by {
        lemma_pass_keeps_the_rest(first, playlist, start);
    }
    lemma_asks_for_nothing(second, playlist, 0);
}

proof fn lemma_pass_keeps_the_rest(d: DownloaderView, playlist: MediaPlaylistView, i: int)
    ensures
        passed_over(d, playlist, i).first_fetch == d.first_fetch,
    decreases playlist.segments.len() - i,
{
    if i < playlist.segments.len() {
        if wants(d, playlist, i) {
            lemma_pass_keeps_the_rest(
                with_url(d, segment_url(playlist, d.base, i)),
                playlist,
                i + 1,
            );
        } else {
            lemma_pass_keeps_the_rest(d, playlist, i + 1);
        }
    }
}

proof fn lemma_asks_for_all(d: DownloaderView, playlist: MediaPlaylistView, i: int)
    requires
        0 <= i <= playlist.segments.len(),
        distinct_segments(playlist, d.base),
        forall|k: int|
            i <= k < playlist.segments.len() ==> !d.downloaded.contains(
                #[trigger] segment_url(playlist, d.base, k),
            ),
    ensures
        asked(d, playlist, i) == Seq::new(
            (playlist.segments.len() - i) as nat,
            |k: int| segment_url(playlist, d.base, i + k),
        ),
    decreases playlist.segments.len() - i,
{
    let all = Seq::new(
        (playlist.segments.len() - i) as nat,
        |k: int| segment_url(playlist, d.base, i + k),
    );
    if i < playlist.segments.len() {
        let url = segment_url(playlist, d.base, i);
        let next = with_url(d, url);
        assert(names_segment(trimmed(playlist.segments[i].uri)));
        assert(wants(d, playlist, i));
        lemma_asks_for_all(next, playlist, i + 1);
        assert(asked(d, playlist, i) =~= all);
    } else {
        assert(asked(d, playlist, i) =~= all);
    }
}

proof fn lemma_asks_for_nothing(d: DownloaderView, playlist: MediaPlaylistView, i: int)
    requires
        0 <= i,
        forall|k: int| i <= k < playlist.segments.len() ==> !#[trigger] wants(d, playlist, k),
    ensures
        asked(d, playlist, i) == Seq::<Seq<char>>::empty(),
    decreases playlist.segments.len() - i,
{
    if i < playlist.segments.len() {
        assert(!wants(d, playlist, i));
        lemma_asks_for_nothing(d, playlist, i + 1);
    }
}

/// After a round only URLs of the playlist are remembered, so that what is remembered is bounded
/// by the playlist.
pub proof fn law_memory_is_bounded(d: DownloaderView, playlist: MediaPlaylistView)
    ensures
        forall|url: Seq<char>|
            pruned(d, playlist).downloaded.contains(url) ==> lists_url(playlist, d.base, url),
        d.downloaded.finite() ==> pruned(d, playlist).downloaded.finite() && pruned(
            d,
            playlist,
        ).downloaded.len() <= playlist.segments.len(),
{
    let kept = pruned(d, playlist).downloaded;
    if d.downloaded.finite() {
        let urls = Seq::new(
            playlist.segments.len(),
            |i: int| segment_url(playlist, d.base, i),
        );
        assert forall|url: Seq<char>| kept.contains(url) implies urls.to_set().contains(url) by {
            let i = choose|i: int|
                0 <= i < playlist.segments.len() && #[trigger] segment_url(playlist, d.base, i)
                    == url;
            assert(urls[i] == url);
        }
        vstd::seq_lib::seq_to_set_is_finite(urls);
        urls.lemma_cardinality_of_set();
        vstd::set_lib::lemma_len_subset(kept, urls.to_set());
    }
}

/// The initialization section precedes at most one segment: the first that is passed on.
pub proof fn law_init_is_sent_once(
    d: DownloaderView,
    url: Seq<char>,
    data: Seq<u8>,
    demuxed: Seq<u8>,
)
    ensures
        segment_audio(after_send(d), url, data, demuxed) == if opens_with_sync(data) {
            demuxed
        } else {
            data
        },
{
}

/// A live stream is joined at most so many segments before its end as the pipeline holds, a
/// complete playlist at its beginning.
pub proof fn law_where_rounds_start(first_fetch: bool, playlist: MediaPlaylistView)
    ensures
        0 <= start_index(first_fetch, playlist) <= playlist.segments.len(),
        first_fetch && !playlist.end_list ==> playlist.segments.len() - start_index(
            first_fetch,
            playlist,
        ) == if playlist.segments.len() < SEGMENT_BUFFER_SIZE {
            playlist.segments.len() as int
        } else {
            SEGMENT_BUFFER_SIZE as int
        },
        playlist.end_list ==> start_index(first_fetch, playlist) == 0,
{
}

/// The downloader never polls without a pause, and ends only on a complete playlist all of whose
/// segments are done with.
pub proof fn law_pause_between_rounds(
    d: DownloaderView,
    playlist: MediaPlaylistView,
    fetched_new: bool,
)
    ensures
        match round_end(d, playlist, fetched_new) {
            RoundEnd::Finished => playlist.end_list && all_done(d, playlist),
            RoundEnd::WaitSecs(secs) => secs >= 1 && (!playlist.end_list && fetched_new ==> secs >= 2
                && secs >= playlist.target_duration),
        },
{
}

/// The downloader after a pass from index `i` on in which every fetch came to an end, well or not.
pub open spec fn passed_over(d: DownloaderView, playlist: MediaPlaylistView, i: int) -> DownloaderView
    decreases playlist.segments.len() - i,
{
    if i >= playlist.segments.len() {
        d
    } else if wants(d, playlist, i) {
        passed_over(with_url(d, segment_url(playlist, d.base, i)), playlist, i + 1)
    } else {
        passed_over(d, playlist, i + 1)
    }
}

/// A pass leaves nothing to fetch behind it: every segment from where it began either names no
/// segment or is done with, and what was done with before stays so.
pub proof fn law_pass_leaves_nothing_to_fetch(
    d: DownloaderView,
    playlist: MediaPlaylistView,
    from: int,
)
    requires
        0 <= from,
    ensures
        forall|k: int|
            from <= k < playlist.segments.len() ==> !#[trigger] wants(
                passed_over(d, playlist, from),
                playlist,
                k,
            ),
        d.downloaded.subset_of(passed_over(d, playlist, from).downloaded),
        passed_over(d, playlist, from).base == d.base,
    decreases playlist.segments.len() - from,
{
    if from < playlist.segments.len() {
        let url = segment_url(playlist, d.base, from);
        let next = if wants(d, playlist, from) {
            with_url(d, url)
        } else {
            d
        };
        law_pass_leaves_nothing_to_fetch(next, playlist, from + 1);
        assert(passed_over(d, playlist, from) == passed_over(next, playlist, from + 1));
        assert(d.downloaded.subset_of(next.downloaded));
    }
}

/// A complete playlist all of whose lines name segments is finished after one pass from its
/// beginning in which every fetch came to an end.
pub proof fn law_complete_playlist_finishes(
    d: DownloaderView,
    playlist: MediaPlaylistView,
    fetched_new: bool,
)
    requires
        playlist.end_list,
        forall|i: int|
            0 <= i < playlist.segments.len() ==> names_segment(
                trimmed((#[trigger] playlist.segments[i]).uri),
            ),
    ensures
        round_end(pruned(passed_over(d, playlist, 0), playlist), playlist, fetched_new)
            == RoundEnd::Finished,
{
    let after = passed_over(d, playlist, 0);
    law_pass_leaves_nothing_to_fetch(d, playlist, 0);
    assert forall|i: int| 0 <= i < playlist.segments.len() implies pruned(
        after,
        playlist,
    ).downloaded.contains(#[trigger] segment_url(playlist, after.base, i)) by {
        assert(!wants(after, playlist, i));
        assert(names_segment(trimmed(playlist.segments[i].uri)));
    }
}

/// A segment is fetched where its URI names a segment and its URL, made absolute against the base,
/// is not done with.
pub proof fn law_what_is_wanted(d: DownloaderView, playlist: MediaPlaylistView, i: int)
    requires
        0 <= i < playlist.segments.len(),
    ensures
        wants(d, playlist, i) <==> names_segment(trimmed(playlist.segments[i].uri))
            && !d.downloaded.contains(absolute(playlist.segments[i].uri, d.base)),
        segment_url(playlist, d.base, i) == absolute(playlist.segments[i].uri, d.base),
{
}

/// The first of the playlists of a live stream is gone through from the third segment before its
/// end on, or from its beginning where it is shorter; every other playlist from its beginning.
pub proof fn law_start_of_a_round(first_fetch: bool, playlist: MediaPlaylistView)
    ensures
        !first_fetch || playlist.end_list ==> start_index(first_fetch, playlist) == 0,
        first_fetch && !playlist.end_list && playlist.segments.len() <= 3
            ==> start_index(first_fetch, playlist) == 0,
        first_fetch && !playlist.end_list && playlist.segments.len() > 3
            ==> start_index(first_fetch, playlist) + 3
            == playlist.segments.len(),
{
}

/// A media playlist ends the series of failures. Of its segments those become done with that stand
/// before the start and are not listed again from there on, and no others do; all else stays.
pub proof fn law_what_a_playlist_changes(d: DownloaderView, playlist: MediaPlaylistView)
    ensures
        ({
            let next = refreshed(d, ParsedPlaylistView::Media(playlist));
            let start = start_index(d.first_fetch, playlist);
            &&& next.failures == 0
            &&& !next.first_fetch
            &&& next == (DownloaderView {
                failures: 0,
                first_fetch: false,
                downloaded: next.downloaded,
                ..d
            })
            &&& forall|url: Seq<char>|
                #[trigger] next.downloaded.contains(url) <==> d.downloaded.contains(url) || (exists|
                    i: int,
                |
                    0 <= i < start && i < playlist.segments.len() && absolute(
                        (#[trigger] playlist.segments[i]).uri,
                        d.base,
                    ) == url) && (forall|i: int|
                    start <= i < playlist.segments.len() ==> absolute(
                        (#[trigger] playlist.segments[i]).uri,
                        d.base,
                    ) != url)
        }),
        forall|uris: Seq<Seq<char>>| #[trigger]
            refreshed(d, ParsedPlaylistView::Master(uris)) == d,
        forall|text: Seq<char>|
            {
                let next = #[trigger] refreshed(d, ParsedPlaylistView::Invalid(text));
                next == (DownloaderView { failures: next.failures, ..d }) && (d.failures < u32::MAX
                    ==> next.failures == d.failures + 1)
            },
{
    let next = refreshed(d, ParsedPlaylistView::Media(playlist));
    let start = start_index(d.first_fetch, playlist);
    assert forall|url: Seq<char>|
        #[trigger] next.downloaded.contains(url) <==> d.downloaded.contains(url) || (exists|i: int|
            0 <= i < start && i < playlist.segments.len() && absolute(
                (#[trigger] playlist.segments[i]).uri,
                d.base,
            ) == url) && (forall|i: int|
            start <= i < playlist.segments.len() ==> absolute(
                (#[trigger] playlist.segments[i]).uri,
                d.base,
            ) != url) by {
        assert(forall|i: int| #[trigger]
            segment_url(playlist, d.base, i) == absolute((playlist.segments[i]).uri, d.base));
        if listed_only_before(playlist, d.base, start, url) {
            let i = choose|i: int|
                0 <= i < start && i < playlist.segments.len() && #[trigger] segment_url(
                    playlist,
                    d.base,
                    i,
                ) == url;
            assert(absolute(playlist.segments[i].uri, d.base) == url);
            assert forall|i: int| start <= i < playlist.segments.len() implies absolute(
                (#[trigger] playlist.segments[i]).uri,
                d.base,
            ) != url by {
                assert(segment_url(playlist, d.base, i) != url);
            }
        }
        if (exists|i: int|
            0 <= i < start && i < playlist.segments.len() && absolute(
                (#[trigger] playlist.segments[i]).uri,
                d.base,
            ) == url) && (forall|i: int|
            start <= i < playlist.segments.len() ==> absolute(
                (#[trigger] playlist.segments[i]).uri,
                d.base,
            ) != url) {
            let i = choose|i: int|
                0 <= i < start && i < playlist.segments.len() && absolute(
                    (#[trigger] playlist.segments[i]).uri,
                    d.base,
                ) == url;
            assert(segment_url(playlist, d.base, i) == url);
            assert forall|i: int| start <= i < playlist.segments.len() implies #[trigger] segment_url(
                playlist,
                d.base,
                i,
            ) != url by {
                assert(absolute(playlist.segments[i].uri, d.base) != url);
            }
            assert(listed_only_before(playlist, d.base, start, url));
        }
    }
}

/// What a playlist leads to: its segments from the start on, another try after a pause, or the end
/// where it lists no segments but variants.
pub proof fn law_what_a_playlist_leads_to(
    d: DownloaderView,
    parsed: ParsedPlaylistView,
    step: RefreshStep,
)
    requires
        is_refresh_step(d, parsed, step),
    ensures
        parsed is Media <==> step is Segments,
        parsed is Master <==> step is NotMedia,
        parsed is Invalid <==> step is Retry,
        step matches RefreshStep::Segments(round) ==> round.playlist@ == parsed->Media_0
            && round.next == start_index(d.first_fetch, parsed->Media_0) && !round.fetched_new,
        step matches RefreshStep::Retry(pause) ==> duration_nanos(pause) == backoff_secs(
            one_failure_more(d.failures) as nat,
        ) * 1_000_000_000,
{
}

/// The fetch of a segment marks its URL, and no other, as done with; nothing else changes.
pub proof fn law_done_is_done(d: DownloaderView, url: Seq<char>, other: Seq<char>)
    ensures
        ({
            let next = with_url(d, url);
            &&& next.downloaded.contains(url)
            &&& other != url ==> (next.downloaded.contains(other) <==> d.downloaded.contains(other))
            &&& next == (DownloaderView { downloaded: next.downloaded, ..d })
        }),
{
}

/// After a pass the URLs that the playlist lists are still known, and no others are; nothing else
/// changes.
pub proof fn law_pruning_keeps_what_is_listed(
    d: DownloaderView,
    playlist: MediaPlaylistView,
    url: Seq<char>,
)
    ensures
        ({
            let next = pruned(d, playlist);
            &&& next.downloaded.contains(url) <==> d.downloaded.contains(url) && exists|i: int|
                0 <= i < playlist.segments.len() && absolute(
                    (#[trigger] playlist.segments[i]).uri,
                    d.base,
                ) == url
            &&& next == (DownloaderView { downloaded: next.downloaded, ..d })
        }),
{
    if lists_url(playlist, d.base, url) {
        let i = choose|i: int|
            0 <= i < playlist.segments.len() && #[trigger] segment_url(playlist, d.base, i) == url;
        assert(absolute(playlist.segments[i].uri, d.base) == url);
    }
    if exists|i: int|
        0 <= i < playlist.segments.len() && absolute((#[trigger] playlist.segments[i]).uri, d.base)
            == url {
        let i = choose|i: int|
            0 <= i < playlist.segments.len() && absolute(
                (#[trigger] playlist.segments[i]).uri,
                d.base,
            ) == url;
        assert(segment_url(playlist, d.base, i) == url);
    }
}

/// The initialization section is fetched where the first segment has one, none is held, and the
/// last did not come from the same URL.
pub proof fn law_which_init_is_fetched(
    d: DownloaderView,
    playlist: MediaPlaylistView,
    uri: Seq<char>,
)
    ensures
        playlist.segments.len() > 0 && playlist.segments[0].map_uri == Some(uri) && d.init_segment
            is None && d.init_url is None ==> wanted_init(d, playlist) == Some(
            absolute(uri, d.base),
        ),
        wanted_init(d, playlist) matches Some(url) ==> playlist.segments.len() > 0 && d.init_segment
            is None && d.init_url != Some(url) && (playlist.segments[0].map_uri matches Some(u)
            && url == absolute(u, d.base)),
        playlist.segments.len() > 0 && playlist.segments[0].map_uri == Some(uri) && d.init_segment
            is None && d.init_url != Some(absolute(uri, d.base)) ==> wanted_init(d, playlist)
            is Some,
{
}

/// What is passed on of a segment: of a transport stream the audio in it, of anything else all of
/// it; before the first fragment of an MP4 file stands the initialization section, and before
/// nothing else. Nothing is passed on where that is empty.
pub proof fn law_what_is_passed_on(
    d: DownloaderView,
    url: Seq<char>,
    data: Seq<u8>,
    demuxed: Seq<u8>,
    init: Seq<u8>,
)
    ensures
        ({
            let audio = segment_audio(d, url, data, demuxed);
            let synced = data.len() > 0 && data[0] == 0x47;
            let fragment = has_suffix(url, ".m4s"@) || has_infix(url, ".m4s?"@);
            &&& synced ==> audio == demuxed
            &&& !synced && (!fragment || d.sent_first || d.init_segment is None) ==> audio == data
            &&& !synced && fragment && !d.sent_first && d.init_segment == Some(init) ==> audio
                == init + data
            &&& is_fragment(url) == fragment
        }),
        data.len() > 0 ==> nonempty(data) == Some(data),
        data.len() == 0 ==> nonempty(data) is None,
{
}

/// Once audio has been passed on, that is remembered and the initialization section is let go of;
/// passing on more changes nothing.
pub proof fn law_first_audio_is_remembered(d: DownloaderView)
    ensures
        ({
            let next = after_send(d);
            &&& next.sent_first
            &&& !d.sent_first ==> next.init_segment is None && next.init_url is None
            &&& d.sent_first ==> next == d
            &&& next.downloaded == d.downloaded
            &&& next.base == d.base
            &&& next.first_fetch == d.first_fetch
            &&& next.failures == d.failures
            &&& after_send(next) == next
        }),
{
}

/// How long the pause between two rounds is: for a live stream the target duration, two seconds at
/// least, after a round that found something new, and half of that after one that did not; for a
/// complete playlist a second, until all of its segments are done with.
pub proof fn law_how_long_rounds_are_apart(
    d: DownloaderView,
    playlist: MediaPlaylistView,
    fetched_new: bool,
)
    ensures
        ({
            let end = round_end(d, playlist, fetched_new);
            let done = forall|i: int|
                0 <= i < playlist.segments.len() ==> d.downloaded.contains(
                    absolute((#[trigger] playlist.segments[i]).uri, d.base),
                );
            let live = !playlist.end_list;
            let target = playlist.target_duration;
            &&& playlist.end_list && done ==> end == RoundEnd::Finished
            &&& playlist.end_list && !done ==> end == RoundEnd::WaitSecs(1)
            &&& live && fetched_new && target >= 2 ==> end == RoundEnd::WaitSecs(target)
            &&& live && fetched_new && target < 2 ==> end == RoundEnd::WaitSecs(2)
            &&& live && !fetched_new && target >= 2 ==> end == RoundEnd::WaitSecs(
                (target / 2) as u64,
            )
            &&& live && !fetched_new && target < 2 ==> end == RoundEnd::WaitSecs(1)
        }),
{
    assert(forall|i: int| #[trigger]
        segment_url(playlist, d.base, i) == absolute((playlist.segments[i]).uri, d.base));
    if all_done(d, playlist) {
        assert forall|i: int| 0 <= i < playlist.segments.len() implies d.downloaded.contains(
            absolute((#[trigger] playlist.segments[i]).uri, d.base),
        ) by {
            assert(d.downloaded.contains(segment_url(playlist, d.base, i)));
        }
    } else {
        let i = choose|i: int|
            0 <= i < playlist.segments.len() && !d.downloaded.contains(
                #[trigger] segment_url(playlist, d.base, i),
            );
        assert(!d.downloaded.contains(absolute(playlist.segments[i].uri, d.base)));
    }
}

} // verus!
