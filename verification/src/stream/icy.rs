//! ICY streams
//!
//! Tells audio from metadata in the bytes of an Icecast/Shoutcast server, and hands the audio to
//! the engine chunk by chunk.

use core::time::Duration;

use vstd::prelude::*;

use crate::stream::bytes::{copy_into, overwritten, SeekTarget};
use crate::stream::metadata::{
    block_title, extract_icy_title, icy_title, StreamMetadata, StreamMetadataView,
};
use crate::stream::{
    backoff_delay, backoff_secs, law_full_counter_keeps_the_delay, one_failure_more, shown,
};
use crate::text::{number_of, opt_text, parse_number, same};
use crate::time::duration_nanos;

verus! {

/// Headers parsed from an ICY stream response
#[derive(Debug, Clone)]
pub struct IcyHeaders {
    pub metaint: usize,
    pub station_name: Option<String>,
    pub content_type: Option<String>,
    pub bitrate: Option<u32>,
}

/// The text of an optional borrowed string.
pub open spec fn opt_str(s: Option<&str>) -> Option<Seq<char>> {
    match s {
        Some(s) => Some(s@),
        None => None,
    }
}

/// The number in an optional text, where it holds one that is not greater than `max`.
pub open spec fn opt_number(s: Option<&str>, max: nat) -> Option<nat> {
    match s {
        Some(s) => number_of(s@, max),
        None => None,
    }
}

/// Parse the headers of an ICY response: `icy-metaint`, `icy-name`, `content-type`, `icy-br`
///
/// A metadata interval that is missing or no number counts as zero, a bitrate as unknown.
pub fn parse_icy_headers(
    metaint: Option<&str>,
    name: Option<&str>,
    content_type: Option<&str>,
    bitrate: Option<&str>,
) -> (r: IcyHeaders)
    ensures
        match opt_number(metaint, usize::MAX as nat) {
            Some(n) => r.metaint == n,
            None => r.metaint == 0,
        },
        opt_text(r.station_name) == opt_str(name),
        opt_text(r.content_type) == opt_str(content_type),
        match opt_number(bitrate, u32::MAX as nat) {
            Some(n) => r.bitrate matches Some(b) && b == n,
            None => r.bitrate is None,
        },
{
    let metaint: usize = match metaint {
        Some(text) => match parse_number(text, usize::MAX as u64) {
            Some(n) => n as usize,
            None => 0,
        },
        None => 0,
    };
    let station_name: Option<String> = match name {
        Some(text) => Some(text.to_string()),
        None => None,
    };
    let content_type: Option<String> = match content_type {
        Some(text) => Some(text.to_string()),
        None => None,
    };
    let bitrate: Option<u32> = match bitrate {
        Some(text) => match parse_number(text, u32::MAX as u64) {
            Some(n) => Some(n as u32),
            None => None,
        },
        None => None,
    };
    IcyHeaders { metaint, station_name, content_type, bitrate }
}

/// The audio in the bytes of a stream with metadata every `metaint` bytes of audio, when the next
/// metadata is due after `until` bytes. Metadata is one length byte and sixteen times as many
/// bytes as it says. Without an interval all is audio.
pub open spec fn icy_audio(stream: Seq<u8>, metaint: nat, until: nat) -> Seq<u8>
    decreases stream.len(),
{
    if metaint == 0 {
        stream
    } else if stream.len() == 0 {
        Seq::empty()
    } else if until > 0 {
        seq![stream[0]] + icy_audio(stream.skip(1), metaint, (until - 1) as nat)
    } else if stream.len() < 1 + stream[0] * 16 {
        Seq::empty()
    } else {
        icy_audio(stream.skip(1 + stream[0] * 16), metaint, metaint)
    }
}

/// After how many bytes of audio metadata is due, once the bytes have been taken in; nothing
/// where they end inside metadata.
pub open spec fn icy_until(stream: Seq<u8>, metaint: nat, until: nat) -> Option<nat>
    decreases stream.len(),
{
    if metaint == 0 || stream.len() == 0 {
        Some(until)
    } else if until > 0 {
        icy_until(stream.skip(1), metaint, (until - 1) as nat)
    } else if stream.len() < 1 + stream[0] * 16 {
        None
    } else {
        icy_until(stream.skip(1 + stream[0] * 16), metaint, metaint)
    }
}

/// A stream may be taken in piece by piece: wherever it is cut, outside metadata, the audio of
/// the whole is that of the pieces.
pub proof fn law_pieces_make_the_whole(first: Seq<u8>, rest: Seq<u8>, metaint: nat, until: nat)
    requires
        icy_until(first, metaint, until) is Some,
    ensures
        ({
            let cut = icy_until(first, metaint, until)->Some_0;
            &&& icy_audio(first + rest, metaint, until) == icy_audio(first, metaint, until)
                + icy_audio(rest, metaint, cut)
            &&& icy_until(first + rest, metaint, until) == icy_until(rest, metaint, cut)
        }),
    decreases first.len(),
{
    let whole = first + rest;
    if metaint == 0 {
    } else if first.len() == 0 {
        assert(whole =~= rest);
        assert(icy_audio(first, metaint, until) + icy_audio(rest, metaint, until) =~= icy_audio(
            rest,
            metaint,
            until,
        ));
    } else if until > 0 {
        law_pieces_make_the_whole(first.skip(1), rest, metaint, (until - 1) as nat);
        assert(whole.skip(1) =~= first.skip(1) + rest);
        let cut = icy_until(first, metaint, until)->Some_0;
        assert(icy_audio(whole, metaint, until) =~= icy_audio(first, metaint, until) + icy_audio(
            rest,
            metaint,
            cut,
        ));
    } else {
        let n = 1 + first[0] * 16;
        law_pieces_make_the_whole(first.skip(n), rest, metaint, metaint);
        assert(whole.skip(n) =~= first.skip(n) + rest);
    }
}

/// A stream of audio alone, up to the next metadata, is all audio.
pub proof fn law_audio_passes_unchanged(audio: Seq<u8>, metaint: nat, until: nat)
    requires
        metaint > 0 ==> audio.len() <= until,
    ensures
        icy_audio(audio, metaint, until) == audio,
        icy_until(audio, metaint, until) == Some(
            if metaint == 0 {
                until
            } else {
                (until - audio.len()) as nat
            },
        ),
    decreases audio.len(),
{
    if metaint > 0 && audio.len() > 0 {
        law_audio_passes_unchanged(audio.skip(1), metaint, (until - 1) as nat);
        assert(seq![audio[0]] + audio.skip(1) =~= audio);
    } else if metaint > 0 {
        assert(audio =~= Seq::empty());
    }
}

/// Metadata is removed: what precedes and what follows a metadata block comes out joined.
pub proof fn law_metadata_is_removed(
    audio: Seq<u8>,
    length: u8,
    block: Seq<u8>,
    rest: Seq<u8>,
    metaint: nat,
)
    requires
        metaint > 0,
        audio.len() == metaint,
        block.len() == length * 16,
    ensures
        icy_audio(audio + seq![length] + block + rest, metaint, metaint) == audio + icy_audio(
            rest,
            metaint,
            metaint,
        ),
{
    let tail = seq![length] + block + rest;
    law_audio_passes_unchanged(audio, metaint, metaint);
    law_pieces_make_the_whole(audio, tail, metaint, metaint);
    assert(audio + seq![length] + block + rest =~= audio + tail);
    assert(tail.skip(1 + length * 16) =~= rest);
    assert(tail[0] == length);
}

/// What is to be read off the network next.
#[derive(Debug, Clone, Copy, PartialEq, Eq, Structural)]
pub enum IcyRead {
    /// So many bytes of audio at most.
    Audio(usize),
    /// The length byte of metadata, and the metadata.
    Metadata,
}

/// Takes the bytes of an ICY stream apart.
pub struct IcyStream {
    metaint: usize,
    bytes_until_meta: usize,
    last_title: String,
    consecutive_failures: u32,
    received: Ghost<Seq<u8>>,
    audio: Ghost<Seq<u8>>,
}

/// What an `IcyStream` says.
pub struct IcyView {
    /// The metadata interval, zero where there is no metadata.
    pub metaint: nat,
    /// After how many bytes of audio metadata is due.
    pub until: nat,
    /// The title that was reported last.
    pub last_title: Seq<char>,
    /// How many attempts to connect failed in a row.
    pub failures: u32,
    /// The bytes taken in since the connection was made.
    pub received: Seq<u8>,
    /// The audio passed on since the connection was made.
    pub audio: Seq<u8>,
}

impl View for IcyStream {
    type V = IcyView;

    closed spec fn view(&self) -> IcyView {
        IcyView {
            metaint: self.metaint as nat,
            until: self.bytes_until_meta as nat,
            last_title: self.last_title@,
            failures: self.consecutive_failures,
            received: self.received@,
            audio: self.audio@,
        }
    }
}

/// The audio passed on is that of the bytes taken in, and metadata is awaited where it is due.
pub open spec fn icy_in_step(s: IcyView) -> bool {
    &&& s.until <= s.metaint
    &&& icy_until(s.received, s.metaint, s.metaint) == Some(s.until)
    &&& s.audio == icy_audio(s.received, s.metaint, s.metaint)
}

/// The stream after a title was read in metadata, and what is reported: a title that differs from
/// the last.
pub open spec fn icy_titled(s: IcyView, title: Option<Seq<char>>) -> (
    IcyView,
    Option<StreamMetadataView>,
) {
    match title {
        Some(title) if title != s.last_title => (
            IcyView { last_title: title, ..s },
            Some(icy_title(title)),
        ),
        _ => (s, None),
    }
}

/// The stream after audio was read and passed on. A read ends the series of failures.
pub open spec fn icy_heard(s: IcyView, chunk: Seq<u8>) -> IcyView {
    let until = if s.metaint == 0 {
        s.until
    } else {
        (s.until - chunk.len()) as nat
    };
    IcyView {
        until,
        failures: 0,
        received: s.received + chunk,
        audio: s.audio + chunk,
        ..s
    }
}

/// The stream after metadata was read, and what is reported.
pub open spec fn icy_informed(s: IcyView, length: u8, block: Seq<u8>) -> (
    IcyView,
    Option<StreamMetadataView>,
) {
    icy_titled(
        IcyView {
            until: s.metaint,
            failures: 0,
            received: s.received + (seq![length] + block),
            ..s
        },
        block_title(block),
    )
}

/// The stream after the connection was lost or could not be made again.
pub open spec fn icy_failed(s: IcyView) -> IcyView {
    IcyView { failures: one_failure_more(s.failures), ..s }
}

/// The stream at the beginning of a new connection.
pub open spec fn icy_reconnected(s: IcyView) -> IcyView {
    IcyView {
        until: s.metaint,
        failures: 0,
        received: Seq::empty(),
        audio: Seq::empty(),
        ..s
    }
}

/// What an optional `StreamMetadata` says.
pub open spec fn opt_metadata(m: Option<StreamMetadata>) -> Option<StreamMetadataView> {
    match m {
        Some(m) => Some(m@),
        None => None,
    }
}

/// The number of bytes of metadata behind a length byte.
pub fn metadata_len(length: u8) -> (n: usize)
    ensures
        n == length * 16,
{
    length as usize * 16
}

impl IcyStream {
    /// A stream at the beginning of a connection.
    pub fn new(metaint: usize) -> (r: Self)
        ensures
            icy_in_step(r@),
            r@ == (IcyView {
                metaint: metaint as nat,
                until: metaint as nat,
                last_title: Seq::empty(),
                failures: 0,
                received: Seq::empty(),
                audio: Seq::empty(),
            }),
    {
        let last_title: String = String::new();
        assert(last_title@ =~= Seq::empty());
        IcyStream {
            metaint,
            bytes_until_meta: metaint,
            last_title,
            consecutive_failures: 0,
            received: Ghost(Seq::empty()),
            audio: Ghost(Seq::empty()),
        }
    }

    /// How many attempts to connect failed in a row.
    pub fn failures(&self) -> (n: u32)
        ensures
            n == self@.failures,
    {
        self.consecutive_failures
    }

    /// What is to be read next into a buffer of the given size.
    pub fn next_read(&self, capacity: usize) -> (r: IcyRead)
        ensures
            r == if self@.metaint == 0 {
                IcyRead::Audio(capacity)
            } else if self@.until == 0 {
                IcyRead::Metadata
            } else if capacity < self@.until {
                IcyRead::Audio(capacity)
            } else {
                IcyRead::Audio(self@.until as usize)
            },
    {
        if self.metaint == 0 {
            IcyRead::Audio(capacity)
        } else if self.bytes_until_meta == 0 {
            IcyRead::Metadata
        } else if capacity < self.bytes_until_meta {
            IcyRead::Audio(capacity)
        } else {
            IcyRead::Audio(self.bytes_until_meta)
        }
    }

    /// Audio was read and passed on.
    ///
    /// A read ends the series of failures.
    pub fn on_audio(&mut self, chunk: &[u8])
        requires
            icy_in_step(old(self)@),
            old(self)@.metaint > 0 ==> chunk@.len() <= old(self)@.until,
        ensures
            icy_in_step(final(self)@),
            final(self)@ == icy_heard(old(self)@, chunk@),
    {
        let n: usize = chunk.len();
        proof {
            lemma_audio_in_step(self@, chunk@);
        }
        if self.metaint > 0 {
            self.bytes_until_meta = self.bytes_until_meta - n;
        }
        self.consecutive_failures = 0;
        self.received = Ghost(self.received@ + chunk@);
        self.audio = Ghost(self.audio@ + chunk@);
    }

    /// Metadata was read: its length byte and the bytes behind it. Returns what is to be reported.
    pub fn on_metadata(&mut self, length: u8, block: &[u8]) -> (r: Option<StreamMetadata>)
        requires
            icy_in_step(old(self)@),
            old(self)@.metaint > 0,
            old(self)@.until == 0,
            block@.len() == length * 16,
        ensures
            icy_in_step(final(self)@),
            (final(self)@, opt_metadata(r)) == icy_informed(old(self)@, length, block@),
    {
        proof {
            lemma_metadata_in_step(self@, length, block@);
        }
        let title: Option<String> = if block.len() == 0 {
            assert(block_title(block@) is None);
            None
        } else {
            extract_icy_title(block)
        };
        self.bytes_until_meta = self.metaint;
        self.consecutive_failures = 0;
        self.received = Ghost(self.received@ + (seq![length] + block@));
        self.on_title(title)
    }

    /// A title was read in metadata, or none. Returns what is to be reported.
    pub fn on_title(&mut self, title: Option<String>) -> (r: Option<StreamMetadata>)
        ensures
            (final(self)@, opt_metadata(r)) == icy_titled(old(self)@, opt_text(title)),
    {
        match title {
            Some(title) => {
                if same(&title, &self.last_title) {
                    None
                } else {
                    let metadata: StreamMetadata = StreamMetadata::from_icy_title(&title);
                    self.last_title = title;
                    Some(metadata)
                }
            },
            None => None,
        }
    }

    /// The connection was lost, or an attempt to connect again failed.
    pub fn on_failed(&mut self)
        ensures
            final(self)@ == icy_failed(old(self)@),
    {
        self.consecutive_failures = self.consecutive_failures.saturating_add(1);
    }

    /// A new connection was made: its stream begins with audio.
    pub fn on_reconnected(&mut self)
        ensures
            icy_in_step(final(self)@),
            final(self)@ == icy_reconnected(old(self)@),
    {
        self.bytes_until_meta = self.metaint;
        self.consecutive_failures = 0;
        self.received = Ghost(Seq::empty());
        self.audio = Ghost(Seq::empty());
    }

    /// What the network thread does after something other than a read that went well.
    ///
    /// It never gives up by itself: it connects again and again, with a pause before each attempt,
    /// until it is told to stop or nobody takes the audio any more.
    pub fn on_outcome(&mut self, outcome: IcyOutcome) -> (r: IcyNext)
        requires
            icy_in_step(old(self)@),
        ensures
            icy_in_step(final(self)@),
            (final(self)@, r@) == icy_outcome(old(self)@, outcome),
    {
        match outcome {
            IcyOutcome::Lost | IcyOutcome::NotConnected => {
                self.on_failed();
                IcyNext::Pause(backoff_delay(self.consecutive_failures))
            },
            IcyOutcome::PauseOver => IcyNext::Connect,
            IcyOutcome::Connected => {
                self.on_reconnected();
                IcyNext::Read
            },
            IcyOutcome::Stopped | IcyOutcome::ReceiverGone => IcyNext::Exit,
        }
    }
}

/// What the network thread met with, other than a read that went well.
#[derive(Debug, Clone, Copy, PartialEq, Eq, Structural)]
pub enum IcyOutcome {
    /// The connection is lost: the stream ended or could not be read.
    Lost,
    /// The pause before an attempt to connect is over.
    PauseOver,
    /// An attempt to connect failed.
    NotConnected,
    /// An attempt to connect succeeded.
    Connected,
    /// The thread was told to stop.
    Stopped,
    /// Nobody takes the audio any more.
    ReceiverGone,
}

/// What the network thread does next.
#[derive(Debug, Clone, Copy)]
pub enum IcyNext {
    /// Read on.
    Read,
    /// Pause for so long.
    Pause(Duration),
    /// Try to connect.
    Connect,
    /// End.
    Exit,
}

/// What an `IcyNext` says.
pub enum IcyNextView {
    Read,
    /// The pause in nanoseconds.
    Pause(nat),
    Connect,
    Exit,
}

impl View for IcyNext {
    type V = IcyNextView;

    open spec fn view(&self) -> IcyNextView {
        match *self {
            IcyNext::Read => IcyNextView::Read,
            IcyNext::Pause(duration) => IcyNextView::Pause(duration_nanos(duration)),
            IcyNext::Connect => IcyNextView::Connect,
            IcyNext::Exit => IcyNextView::Exit,
        }
    }
}

/// What the outcome makes of the stream, and what the network thread does next.
pub open spec fn icy_outcome(s: IcyView, outcome: IcyOutcome) -> (IcyView, IcyNextView) {
    match outcome {
        IcyOutcome::Lost => (
            icy_failed(s),
            IcyNextView::Pause(backoff_secs(icy_failed(s).failures as nat) * 1_000_000_000),
        ),
        IcyOutcome::NotConnected => (
            icy_failed(s),
            IcyNextView::Pause(backoff_secs(icy_failed(s).failures as nat) * 1_000_000_000),
        ),
        IcyOutcome::PauseOver => (s, IcyNextView::Connect),
        IcyOutcome::Connected => (icy_reconnected(s), IcyNextView::Read),
        IcyOutcome::Stopped => (s, IcyNextView::Exit),
        IcyOutcome::ReceiverGone => (s, IcyNextView::Exit),
    }
}

/// Why a reader has nothing more to give.
#[derive(Debug, Clone, Copy, PartialEq, Eq, Structural)]
pub enum StreamEnd {
    /// The stream is over.
    Ended,
    /// The reader was told to stop.
    Stopped,
}

/// How the wait for a chunk of audio ended.
#[derive(Debug)]
pub enum Received {
    /// With a chunk.
    Chunk(Vec<u8>),
    /// Without one, so far.
    Timeout,
    /// The sender is gone.
    Disconnected,
}

/// Hands out the audio of an ICY stream.
///
/// Holds at most one chunk at a time.
#[derive(Debug)]
pub struct IcyReader {
    /// The chunk.
    pub current_chunk: Vec<u8>,
    /// How much of the chunk has been handed out.
    pub chunk_pos: usize,
    /// The headers of the stream.
    pub headers: IcyHeaders,
}

/// What an `IcyReader` says: the chunk that it holds, and how much of it has been handed out.
pub struct ChunkView {
    pub chunk: Seq<u8>,
    pub pos: nat,
}

/// The chunk after `n` bytes of it have been handed out. A chunk that is used up is dropped.
pub open spec fn chunk_after(c: ChunkView, n: nat) -> ChunkView {
    if n > 0 && c.pos + n >= c.chunk.len() {
        ChunkView { chunk: Seq::empty(), pos: 0 }
    } else {
        ChunkView { pos: c.pos + n, ..c }
    }
}

/// What is left of the chunk.
pub open spec fn unserved(c: ChunkView) -> Seq<u8> {
    c.chunk.skip(c.pos as int)
}

/// Where a seek leads in the chunk: it never leaves it.
pub open spec fn chunk_seek(c: ChunkView, target: SeekTarget) -> nat {
    let len = c.chunk.len() as int;
    let wanted = match target {
        SeekTarget::Start(p) => p as int,
        SeekTarget::Current(p) => c.pos + p,
        SeekTarget::End(p) => len + p,
    };
    if wanted < 0 {
        0
    } else if wanted > len {
        len as nat
    } else {
        wanted as nat
    }
}

impl View for IcyReader {
    type V = ChunkView;

    open spec fn view(&self) -> ChunkView {
        ChunkView { chunk: self.current_chunk@, pos: self.chunk_pos as nat }
    }
}

impl IcyReader {
    /// A reader that holds the first chunk.
    pub fn new(headers: IcyHeaders, initial_data: Vec<u8>) -> (r: Self)
        ensures
            r@ == (ChunkView { chunk: initial_data@, pos: 0 }),
            r.headers == headers,
    {
        IcyReader { current_chunk: initial_data, chunk_pos: 0, headers }
    }

    /// Hands out what fits of the chunk.
    pub fn serve(&mut self, buf: &mut [u8]) -> (n: usize)
        requires
            old(self)@.pos <= old(self)@.chunk.len(),
        ensures
            n == if old(buf)@.len() < unserved(old(self)@).len() {
                old(buf)@.len()
            } else {
                unserved(old(self)@).len()
            },
            final(buf)@ == overwritten(old(buf)@, unserved(old(self)@).take(n as int)),
            final(self)@ == chunk_after(old(self)@, n as nat),
            final(self)@.pos <= final(self)@.chunk.len(),
            unserved(final(self)@) == unserved(old(self)@).skip(n as int),
            final(self).headers == old(self).headers,
    {
        let remaining: usize = self.current_chunk.len() - self.chunk_pos;
        let n: usize = if buf.len() < remaining {
            buf.len()
        } else {
            remaining
        };
        proof {
            let left = unserved(self@);
            assert(left.take(n as int) =~= self.current_chunk@.subrange(
                self.chunk_pos as int,
                self.chunk_pos + n,
            ));
        }
        copy_into(buf, &self.current_chunk, self.chunk_pos, n);
        self.chunk_pos = self.chunk_pos + n;
        if n > 0 && self.chunk_pos >= self.current_chunk.len() {
            self.current_chunk = Vec::new();
            self.chunk_pos = 0;
        }
        proof {
            assert(self@.chunk =~= chunk_after(old(self)@, n as nat).chunk);
            assert(unserved(self@) =~= unserved(old(self)@).skip(n as int));
        }
        n
    }

    /// The wait for the next chunk ended. Returns why there is nothing more to give, if so.
    pub fn on_received(&mut self, received: Received, stopped: bool) -> (r: Option<StreamEnd>)
        ensures
            final(self).headers == old(self).headers,
            match received {
                Received::Chunk(chunk) => final(self)@ == (ChunkView { chunk: chunk@, pos: 0 })
                    && r is None,
                Received::Timeout => final(self)@ == old(self)@ && r == if stopped {
                    Some(StreamEnd::Stopped)
                } else {
                    None
                },
                Received::Disconnected => final(self)@ == old(self)@ && r == Some(
                    StreamEnd::Ended,
                ),
            },
    {
        match received {
            Received::Chunk(chunk) => {
                self.current_chunk = chunk;
                self.chunk_pos = 0;
                None
            },
            Received::Timeout => if stopped {
                Some(StreamEnd::Stopped)
            } else {
                None
            },
            Received::Disconnected => Some(StreamEnd::Ended),
        }
    }

    /// Seeks within the chunk.
    pub fn seek(&mut self, target: SeekTarget) -> (r: u64)
        requires
            old(self)@.pos <= old(self)@.chunk.len(),
        ensures
            final(self)@ == (ChunkView { pos: chunk_seek(old(self)@, target), ..old(self)@ }),
            r == chunk_seek(old(self)@, target),
            final(self)@.pos <= final(self)@.chunk.len(),
            final(self).headers == old(self).headers,
    {
        let len: usize = self.current_chunk.len();
        let wanted: i128 = match target {
            SeekTarget::Start(p) => p as i128,
            SeekTarget::Current(p) => self.chunk_pos as i128 + p as i128,
            SeekTarget::End(p) => len as i128 + p as i128,
        };
        let pos: usize = if wanted < 0 {
            0
        } else if wanted > len as i128 {
            len
        } else {
            wanted as usize
        };
        self.chunk_pos = pos;
        pos as u64
    }
}

/// A title is reported when it changes, and not again while it stays the same.
pub proof fn law_title_is_reported_once(s: IcyView, title: Seq<char>)
    ensures
        icy_titled(icy_titled(s, Some(title)).0, Some(title)).1 is None,
        icy_titled(s, Some(title)).1 is Some <==> title != s.last_title,
        icy_titled(s, Some(title)).0.last_title == title,
        icy_titled(s, None) == (s, None::<StreamMetadataView>),
{
}

/// Seeking never leaves the chunk, and seeking to where the reader stands changes nothing.
pub proof fn law_seek_stays_in_the_chunk(c: ChunkView, target: SeekTarget)
    requires
        c.pos <= c.chunk.len(),
    ensures
        chunk_seek(c, target) <= c.chunk.len(),
        chunk_seek(c, SeekTarget::Current(0)) == c.pos,
        chunk_seek(c, SeekTarget::Start(0)) == 0,
        chunk_seek(c, SeekTarget::End(0)) == c.chunk.len(),
{
}

/// Something that happens to an ICY stream.
pub enum IcyEvent {
    /// Audio was read and passed on.
    Audio(Seq<u8>),
    /// Metadata was read: its length byte and the bytes behind it.
    Metadata { length: u8, block: Seq<u8> },
    /// Something else happened.
    Outcome(IcyOutcome),
}

/// The stream after an event.
pub open spec fn icy_step(s: IcyView, event: IcyEvent) -> IcyView {
    match event {
        IcyEvent::Audio(chunk) => icy_heard(s, chunk),
        IcyEvent::Metadata { length, block } => icy_informed(s, length, block).0,
        IcyEvent::Outcome(outcome) => icy_outcome(s, outcome).0,
    }
}

/// The stream after a series of events.
pub open spec fn icy_run(s: IcyView, events: Seq<IcyEvent>) -> IcyView
    decreases events.len(),
{
    if events.len() == 0 {
        s
    } else {
        icy_step(icy_run(s, events.drop_last()), events.last())
    }
}

/// How many times the connection was lost or could not be made since the last read or connection
/// that went well.
pub open spec fn failed_attempts(events: Seq<IcyEvent>) -> nat
    decreases events.len(),
{
    if events.len() == 0 {
        0
    } else {
        match events.last() {
            IcyEvent::Audio(_) => 0,
            IcyEvent::Metadata { .. } => 0,
            IcyEvent::Outcome(IcyOutcome::Connected) => 0,
            IcyEvent::Outcome(IcyOutcome::Lost) => failed_attempts(events.drop_last()) + 1,
            IcyEvent::Outcome(IcyOutcome::NotConnected) => failed_attempts(events.drop_last()) + 1,
            IcyEvent::Outcome(_) => failed_attempts(events.drop_last()),
        }
    }
}

/// The network thread never gives up, and waits longer with each failure: whatever happened, the
/// failures that it counts are those since the last read or connection that went well, so that the
/// pause before the attempt that follows the k-th of them is the backoff delay for k; a new
/// connection starts with a whole interval of audio; and only a request to stop, or the loss of
/// the receiver, ends it.
pub proof fn law_reconnects_until_stopped(
    s: IcyView,
    events: Seq<IcyEvent>,
    outcome: IcyOutcome,
)
    requires
        s.failures == 0,
    ensures
        ({
            let before = icy_run(s, events);
            let (after, next) = icy_outcome(before, outcome);
            let k = failed_attempts(events);
            &&& before.failures == shown(k)
            &&& next == IcyNextView::Exit <==> outcome == IcyOutcome::Stopped || outcome
                == IcyOutcome::ReceiverGone
            &&& outcome == IcyOutcome::Lost || outcome == IcyOutcome::NotConnected ==> next
                == IcyNextView::Pause(backoff_secs(k + 1) * 1_000_000_000)
            &&& outcome == IcyOutcome::PauseOver ==> next == IcyNextView::Connect
            &&& outcome == IcyOutcome::Connected ==> next == IcyNextView::Read && after.until
                == s.metaint && after.failures == 0
        }),
{
    lemma_failures_are_counted(s, events);
    law_full_counter_keeps_the_delay(failed_attempts(events) + 1);
}

proof fn lemma_failures_are_counted(s: IcyView, events: Seq<IcyEvent>)
    requires
        s.failures == 0,
    ensures
        icy_run(s, events).failures == shown(failed_attempts(events)),
        icy_run(s, events).metaint == s.metaint,
    decreases events.len(),
{
    if events.len() > 0 {
        lemma_failures_are_counted(s, events.drop_last());
    }
}

/// Nothing was read off the connection but what it was asked for: audio up to where metadata is
/// due, and then metadata.
pub open spec fn reads_what_is_due(s: IcyView, events: Seq<IcyEvent>) -> bool
    decreases events.len(),
{
    events.len() > 0 ==> {
        let front = events.drop_last();
        let now = icy_run(s, front);
        &&& reads_what_is_due(s, front)
        &&& match events.last() {
            IcyEvent::Audio(chunk) => now.metaint > 0 ==> chunk.len() <= now.until,
            IcyEvent::Metadata { length, block } => now.metaint > 0 && now.until == 0 && block.len()
                == length * 16,
            IcyEvent::Outcome(_) => true,
        }
    }
}

/// Whatever happened, lost connections included, the audio passed on is exactly the audio among
/// the bytes of the connection, without a byte of metadata, and metadata is awaited where it is
/// due.
pub proof fn law_audio_stays_in_step(s: IcyView, events: Seq<IcyEvent>)
    requires
        icy_in_step(s),
        reads_what_is_due(s, events),
    ensures
        icy_in_step(icy_run(s, events)),
    decreases events.len(),
{
    if events.len() > 0 {
        let front = events.drop_last();
        let before = icy_run(s, front);
        law_audio_stays_in_step(s, front);
        match events.last() {
            IcyEvent::Audio(chunk) => lemma_audio_in_step(before, chunk),
            IcyEvent::Metadata { length, block } => lemma_metadata_in_step(before, length, block),
            IcyEvent::Outcome(_) => {},
        }
    }
}

proof fn lemma_audio_in_step(s: IcyView, chunk: Seq<u8>)
    requires
        icy_in_step(s),
        s.metaint > 0 ==> chunk.len() <= s.until,
    ensures
        icy_in_step(icy_heard(s, chunk)),
{
    law_pieces_make_the_whole(s.received, chunk, s.metaint, s.metaint);
    law_audio_passes_unchanged(chunk, s.metaint, s.until);
}

proof fn lemma_metadata_in_step(s: IcyView, length: u8, block: Seq<u8>)
    requires
        icy_in_step(s),
        s.metaint > 0,
        s.until == 0,
        block.len() == length * 16,
    ensures
        icy_in_step(icy_informed(s, length, block).0),
{
    let bytes = seq![length] + block;
    law_pieces_make_the_whole(s.received, bytes, s.metaint, s.metaint);
    assert(bytes[0] == length);
    let rest = bytes.skip(1 + bytes[0] * 16);
    assert(rest =~= Seq::empty());
    assert(icy_audio(rest, s.metaint, s.metaint) =~= Seq::empty());
    assert(icy_until(rest, s.metaint, s.metaint) == Some(s.metaint));
    assert(bytes.len() == 1 + bytes[0] * 16);
    assert(s.audio + icy_audio(bytes, s.metaint, 0) =~= s.audio);
}

/// A title that differs from the last is reported as it reads, and remembered; nothing else of the
/// stream changes.
pub proof fn law_new_title_is_reported(s: IcyView, title: Seq<char>)
    requires
        title != s.last_title,
    ensures
        icy_titled(s, Some(title)) == (
            IcyView { last_title: title, ..s },
            Some(icy_title(title)),
        ),
{
}

/// Audio is counted towards the next metadata and passed on as it is. Metadata is taken in and not
/// passed on, and a whole interval of audio follows it.
pub proof fn law_reads_are_accounted_for(
    s: IcyView,
    chunk: Seq<u8>,
    length: u8,
    block: Seq<u8>,
)
    requires
        s.metaint > 0 ==> chunk.len() <= s.until,
    ensures
        ({
            let heard = icy_heard(s, chunk);
            &&& heard.audio == s.audio + chunk
            &&& heard.received == s.received + chunk
            &&& s.metaint > 0 ==> heard.until + chunk.len() == s.until
            &&& heard.metaint == s.metaint
            &&& heard.last_title == s.last_title
            &&& heard.failures == 0
        }),
        ({
            let (informed, report) = icy_informed(s, length, block);
            &&& informed.audio == s.audio
            &&& informed.received == s.received + seq![length] + block
            &&& informed.until == s.metaint
            &&& informed.metaint == s.metaint
            &&& informed.failures == 0
            &&& block_title(block) is None ==> report is None && informed.last_title
                == s.last_title
            &&& block_title(block) matches Some(title) ==> informed.last_title == title && (title
                == s.last_title ==> report is None) && (title != s.last_title ==> report == Some(
                icy_title(title),
            ))
        }),
{
    assert(s.received + (seq![length] + block) =~= s.received + seq![length] + block);
}

/// A lost connection is only counted. A new one begins with a whole interval of audio and nothing
/// taken in; the title that was reported last is still known.
pub proof fn law_connections(s: IcyView)
    ensures
        ({
            let failed = icy_failed(s);
            &&& s.failures < u32::MAX ==> failed.failures == s.failures + 1
            &&& failed == (IcyView { failures: failed.failures, ..s })
        }),
        ({
            let again = icy_reconnected(s);
            &&& again.metaint == s.metaint
            &&& again.until == s.metaint
            &&& again.failures == 0
            &&& again.last_title == s.last_title
            &&& again.received.len() == 0
            &&& again.audio.len() == 0
        }),
{
}

/// Metadata that is not complete yet holds no audio, and nothing is due before it is complete.
pub proof fn law_metadata_is_waited_for(length: u8, part: Seq<u8>, metaint: nat)
    requires
        metaint > 0,
        part.len() < length * 16,
    ensures
        icy_audio(seq![length] + part, metaint, 0) == Seq::<u8>::empty(),
        icy_until(seq![length] + part, metaint, 0) is None,
{
    assert((seq![length] + part)[0] == length);
}

/// What is left of a chunk is what has not been handed out; handing out some of it leaves the rest.
pub proof fn law_what_is_left_of_a_chunk(given: Seq<u8>, next: Seq<u8>, rest: Seq<u8>)
    ensures
        ({
            let c = ChunkView { chunk: given + next + rest, pos: given.len() };
            &&& unserved(c) == next + rest
            &&& unserved(chunk_after(c, next.len())) == rest
        }),
{
    let c = ChunkView { chunk: given + next + rest, pos: given.len() };
    assert(unserved(c) =~= next + rest);
    assert(unserved(chunk_after(c, next.len())) =~= rest);
}

/// A seek leads to its offset from the start or the end of the chunk or from where the reader
/// stands, or else to the nearer end of the chunk.
pub proof fn law_chunk_seek(c: ChunkView, from_start: u64, offset: i64)
    ensures
        ({
            let len = c.chunk.len() as int;
            let clamped = |p: int|
                if p < 0 {
                    0int
                } else if p > len {
                    len
                } else {
                    p
                };
            &&& chunk_seek(c, SeekTarget::Start(from_start)) == clamped(from_start as int)
            &&& chunk_seek(c, SeekTarget::End(offset)) == clamped(len + offset)
            &&& chunk_seek(c, SeekTarget::Current(offset)) == clamped(c.pos + offset)
        }),
{
}

/// A header is read as a number where it is there and is one.
pub proof fn law_header_numbers(text: &str, max: nat)
    ensures
        opt_number(Some(text), max) == number_of(text@, max),
        opt_number(None, max) is None,
        opt_str(Some(text)) == Some(text@),
        opt_str(None) is None,
{
}

/// A reader is the chunk that it holds and how much of it has been handed out.
pub proof fn law_icy_reader_says(reader: IcyReader)
    ensures
        reader@.chunk == reader.current_chunk@,
        reader@.pos == reader.chunk_pos,
{
}

/// No more audio is asked for than fits and than there is before the next metadata, which is asked
/// for exactly when it is due; without metadata all that fits is asked for.
pub proof fn law_what_is_read_next(s: &IcyStream, capacity: usize, r: IcyRead)
    requires
        call_ensures(IcyStream::next_read, (s, capacity), r),
    ensures
        r is Metadata <==> s@.metaint > 0 && s@.until == 0,
        r matches IcyRead::Audio(n) ==> n <= capacity && (s@.metaint > 0 ==> n <= s@.until) && (n
            == capacity || s@.metaint > 0 && n == s@.until),
{
}

} // verus!
