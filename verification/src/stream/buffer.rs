//! Decoupled producer-consumer stream buffer
//!
//! A producer appends what comes off the network, and a consumer hands it to the decoder, so that
//! transient network stalls do not reach playback. What the consumer has left behind is discarded
//! from time to time; positions count from the beginning of the stream all the same.

use vstd::prelude::*;

use crate::config::buffer::{
    COMPACTION_SAFETY_MARGIN, COMPACTION_THRESHOLD, HIGH_WATERMARK_BYTES, MAX_BUFFER_SIZE,
    PRODUCER_CHUNK_SIZE,
};
use crate::stream::bytes::{copy_into, overwritten, SeekTarget};
use crate::text::{decimal, decimal_of, join, opt_text};

verus! {

/// Buffer status (read by engine/UI)
#[derive(Debug, Clone, Copy, PartialEq, Eq, Structural)]
pub struct BufferStatus {
    pub level_bytes: usize,
    pub capacity_bytes: usize,
    pub is_buffering: bool,
    pub underrun_count: u32,
}

impl Default for BufferStatus {
    fn default() -> (r: Self)
        ensures
            r == (BufferStatus {
                level_bytes: 0,
                capacity_bytes: 0,
                is_buffering: false,
                underrun_count: 0,
            }),
    {
        BufferStatus { level_bytes: 0, capacity_bytes: 0, is_buffering: false, underrun_count: 0 }
    }
}

/// What the producer does next.
#[derive(Debug, Clone, Copy, PartialEq, Eq, Structural)]
pub enum ProducerStep {
    /// Read more.
    Continue,
    /// Try the same bytes again a little later: the buffer is full.
    Wait,
    /// End.
    Exit,
}

/// The contents of the buffer.
pub struct StreamBuffer {
    data: Vec<u8>,
    base_offset: u64,
    producer_done: bool,
    producer_error: Option<String>,
    underrun_count: u32,
    written: Ghost<Seq<u8>>,
}

/// What a `StreamBuffer` says.
pub struct BufferView {
    /// All bytes that were ever appended.
    pub written: Seq<u8>,
    /// How many of them have been discarded.
    pub base: nat,
    /// The producer has finished.
    pub done: bool,
    /// The error that the producer finished with.
    pub error: Option<Seq<char>>,
    /// How often the consumer found the buffer empty.
    pub underruns: u32,
}

/// The number of bytes that the buffer holds.
pub open spec fn held(b: BufferView) -> int {
    b.written.len() - b.base
}

impl View for StreamBuffer {
    type V = BufferView;

    closed spec fn view(&self) -> BufferView {
        BufferView {
            written: self.written@,
            base: self.base_offset as nat,
            done: self.producer_done,
            error: opt_text(self.producer_error),
            underruns: self.underrun_count,
        }
    }
}

/// The buffer after the producer had bytes to append.
pub open spec fn produce_result(b: BufferView, chunk: Seq<u8>, stopped: bool) -> (
    BufferView,
    ProducerStep,
) {
    if stopped {
        (BufferView { done: true, ..b }, ProducerStep::Exit)
    } else if held(b) >= MAX_BUFFER_SIZE {
        (b, ProducerStep::Wait)
    } else {
        (BufferView { written: b.written + chunk, ..b }, ProducerStep::Continue)
    }
}

/// The buffer after the producer has come to its end.
pub open spec fn finish_result(b: BufferView, error: Option<Seq<char>>) -> BufferView {
    BufferView {
        done: true,
        error: if error is Some {
            error
        } else {
            b.error
        },
        ..b
    }
}

impl StreamBuffer {
    /// What is kept is the end of what was written, and is never much more than the limit.
    pub closed spec fn well_formed(&self) -> bool {
        &&& self.base_offset <= self.written@.len() <= u64::MAX
        &&& self.data@ == self.written@.skip(self.base_offset as int)
        &&& self.data@.len() < MAX_BUFFER_SIZE + PRODUCER_CHUNK_SIZE
    }

    /// An empty buffer.
    pub fn new() -> (r: Self)
        ensures
            r.well_formed(),
            r@ == (BufferView {
                written: Seq::empty(),
                base: 0,
                done: false,
                error: None,
                underruns: 0,
            }),
    {
        let data: Vec<u8> = Vec::new();
        assert(data@ =~= Seq::<u8>::empty().skip(0));
        StreamBuffer {
            data,
            base_offset: 0,
            producer_done: false,
            producer_error: None,
            underrun_count: 0,
            written: Ghost(Seq::empty()),
        }
    }

    /// How many bytes have been discarded.
    pub fn base_offset(&self) -> (n: u64)
        ensures
            n == self@.base,
    {
        self.base_offset
    }

    /// How many bytes were ever appended.
    pub fn end_offset(&self) -> (n: u64)
        requires
            self.well_formed(),
        ensures
            n == self@.written.len(),
    {
        self.base_offset + self.data.len() as u64
    }

    /// The producer has bytes to append, and may have been told to stop.
    ///
    /// A full buffer is left as it is, so that the same bytes can be tried again: none is lost.
    pub fn produce(&mut self, chunk: &[u8], stopped: bool) -> (r: ProducerStep)
        requires
            old(self).well_formed(),
            chunk@.len() <= PRODUCER_CHUNK_SIZE,
            old(self)@.written.len() + chunk@.len() <= u64::MAX,
        ensures
            final(self).well_formed(),
            (final(self)@, r) == produce_result(old(self)@, chunk@, stopped),
            held(final(self)@) < MAX_BUFFER_SIZE + PRODUCER_CHUNK_SIZE,
    {
        if stopped {
            self.producer_done = true;
            return ProducerStep::Exit;
        }
        if self.data.len() >= MAX_BUFFER_SIZE {
            return ProducerStep::Wait;
        }
        self.data.extend_from_slice(chunk);
        self.written = Ghost(self.written@ + chunk@);
        assert(self.data@ =~= self.written@.skip(self.base_offset as int));
        ProducerStep::Continue
    }

    /// The producer has come to its end, with an error or without.
    pub fn finish(&mut self, error: Option<String>) -> (r: ProducerStep)
        requires
            old(self).well_formed(),
        ensures
            final(self).well_formed(),
            r == ProducerStep::Exit,
            final(self)@ == finish_result(old(self)@, opt_text(error)),
    {
        if error.is_some() {
            self.producer_error = error;
        }
        self.producer_done = true;
        ProducerStep::Exit
    }

    /// The producer has asked its reader for bytes. None means the end of the stream; an error ends
    /// it too, and its text is kept.
    pub fn on_read(&mut self, outcome: core::result::Result<&[u8], String>, stopped: bool) -> (r:
        ProducerStep)
        requires
            old(self).well_formed(),
            outcome matches Ok(chunk) ==> chunk@.len() <= PRODUCER_CHUNK_SIZE && old(
                self,
            )@.written.len() + chunk@.len() <= u64::MAX,
        ensures
            final(self).well_formed(),
            (final(self)@, r) == match outcome {
                Ok(chunk) => if chunk@.len() == 0 {
                    (finish_result(old(self)@, None), ProducerStep::Exit)
                } else {
                    produce_result(old(self)@, chunk@, stopped)
                },
                Err(text) => (finish_result(old(self)@, Some(text@)), ProducerStep::Exit),
            },
    {
        match outcome {
            Ok(chunk) => if chunk.len() == 0 {
                self.finish(None)
            } else {
                self.produce(chunk, stopped)
            },
            Err(text) => self.finish(Some(text)),
        }
    }

    /// Discards the first `n` bytes of what is kept.
    fn discard(&mut self, n: usize)
        requires
            old(self).well_formed(),
            n <= held(old(self)@),
        ensures
            final(self).well_formed(),
            final(self)@ == (BufferView { base: old(self)@.base + n as nat, ..old(self)@ }),
    {
        let rest: Vec<u8> = self.data.split_off(n);
        self.data = rest;
        self.base_offset = self.base_offset + n as u64;
        assert(self.data@ =~= self.written@.skip(self.base_offset as int));
    }
}

/// The consumer's side of the buffer.
#[derive(Debug, Clone, Copy, PartialEq, Eq, Structural)]
pub struct StreamBufferReader {
    /// Absolute read position (across compactions)
    pub read_pos: u64,
    /// Hysteresis flag: true while waiting for buffer to refill to HIGH_WATERMARK
    pub buffering_active: bool,
}

/// What a `StreamBufferReader` says.
pub struct ReaderView {
    pub read_pos: nat,
    pub buffering_active: bool,
}

impl View for StreamBufferReader {
    type V = ReaderView;

    open spec fn view(&self) -> ReaderView {
        ReaderView {
            read_pos: self.read_pos as nat,
            buffering_active: self.buffering_active,
        }
    }
}

/// What a look into the buffer gives the consumer.
#[derive(Debug)]
pub enum ReadStep {
    /// So many bytes were handed out.
    Served(usize),
    /// The stream is over.
    Eof,
    /// The producer failed, and all that it wrote has been handed out.
    Failed(String),
    /// Nothing can be handed out before more is written.
    Wait,
}

/// What a `ReadStep` says.
pub enum ReadStepView {
    Served(nat),
    Eof,
    Failed(Seq<char>),
    Wait,
}

impl View for ReadStep {
    type V = ReadStepView;

    open spec fn view(&self) -> ReadStepView {
        match *self {
            ReadStep::Served(n) => ReadStepView::Served(n as nat),
            ReadStep::Eof => ReadStepView::Eof,
            ReadStep::Failed(text) => ReadStepView::Failed(text@),
            ReadStep::Wait => ReadStepView::Wait,
        }
    }
}

/// The reader stands in what is kept.
pub open spec fn reader_in(r: ReaderView, b: BufferView) -> bool {
    b.base <= r.read_pos <= b.written.len()
}

/// How many bytes lie ahead of the reader.
pub open spec fn available(r: ReaderView, b: BufferView) -> int {
    b.written.len() - r.read_pos
}

/// The bytes that the reader gets next, `n` of them.
pub open spec fn upcoming(r: ReaderView, b: BufferView, n: nat) -> Seq<u8> {
    b.written.subrange(r.read_pos as int, (r.read_pos + n) as int)
}

/// The buffer after what the reader has left behind has been discarded, where that is enough to
/// be worth it. A margin behind the reader is kept for short seeks.
pub open spec fn compacted(r: ReaderView, b: BufferView, probing: bool) -> BufferView {
    if !probing && r.read_pos - b.base > COMPACTION_THRESHOLD {
        BufferView { base: (r.read_pos - COMPACTION_SAFETY_MARGIN) as nat, ..b }
    } else {
        b
    }
}

/// The reader keeps waiting: it is refilling the buffer, and neither has the level been reached
/// nor the producer finished.
pub open spec fn refilling(r: ReaderView, b: BufferView) -> bool {
    r.buffering_active && available(r, b) < HIGH_WATERMARK_BYTES && !b.done
}

/// The number after `n` on a counter that starts over at zero when it is full.
pub open spec fn one_more(n: u32) -> u32 {
    if n == u32::MAX {
        0
    } else {
        (n + 1) as u32
    }
}

/// What a read of up to `want` bytes makes of the reader and the buffer, and what it gives.
pub open spec fn read_result(
    r: ReaderView,
    b: BufferView,
    want: nat,
    probing: bool,
) -> (ReaderView, BufferView, ReadStepView) {
    let n = if available(r, b) < want {
        available(r, b) as nat
    } else {
        want
    };
    let moved = r.read_pos + n;
    let counted = BufferView { underruns: one_more(b.underruns), ..b };
    if refilling(r, b) {
        (r, b, ReadStepView::Wait)
    } else if available(r, b) > 0 {
        let emptied = moved == b.written.len() && !b.done;
        let reader = ReaderView { read_pos: moved, buffering_active: emptied };
        (
            reader,
            compacted(
                reader,
                if emptied {
                    counted
                } else {
                    b
                },
                probing,
            ),
            ReadStepView::Served(n),
        )
    } else if b.done {
        (
            ReaderView { buffering_active: false, ..r },
            b,
            match b.error {
                Some(text) => ReadStepView::Failed(text),
                None => ReadStepView::Eof,
            },
        )
    } else {
        (ReaderView { buffering_active: true, ..r }, counted, ReadStepView::Wait)
    }
}

/// The status as the reader sees it.
pub open spec fn status_of(r: ReaderView, b: BufferView) -> BufferStatus {
    BufferStatus {
        level_bytes: available(r, b) as usize,
        capacity_bytes: held(b) as usize,
        is_buffering: r.buffering_active,
        underrun_count: b.underruns,
    }
}

/// Why a seek is refused.
#[derive(Debug, Clone, Copy, PartialEq, Eq, Structural)]
pub enum SeekError {
    /// The position lies before the beginning of the stream.
    Negative,
    /// The position lies in what has been discarded.
    Compacted { position: u64, base: u64 },
}

/// The text on a refused seek.
pub open spec fn seek_error_text(e: SeekError) -> Seq<char> {
    match e {
        SeekError::Negative => "Seek to negative position"@,
        SeekError::Compacted { position, base } => "Cannot seek to position "@ + decimal_of(
            position as nat,
        ) + " — data before "@ + decimal_of(base as nat) + " has been compacted"@,
    }
}

impl SeekError {
    /// The reason in words.
    pub fn to_string(&self) -> (r: String)
        ensures
            r@ == seek_error_text(*self),
    {
        match self {
            SeekError::Negative => "Seek to negative position".to_string(),
            SeekError::Compacted { position, base } => {
                let mut r: String = join("Cannot seek to position ", &decimal(*position));
                r.append(" — data before ");
                r.append(&decimal(*base));
                r.append(" has been compacted");
                r
            },
        }
    }
}

/// The position that a seek aims at.
pub open spec fn seek_aim(r: ReaderView, b: BufferView, target: SeekTarget) -> int {
    match target {
        SeekTarget::Start(offset) => offset as int,
        SeekTarget::End(offset) => b.written.len() + offset,
        SeekTarget::Current(offset) => r.read_pos + offset,
    }
}

/// Where a seek leads: no further than to the end of what was written.
pub open spec fn seek_result(
    r: ReaderView,
    b: BufferView,
    target: SeekTarget,
) -> core::result::Result<u64, SeekError> {
    let aim = seek_aim(r, b, target);
    if aim < 0 || aim > i64::MAX {
        Err(SeekError::Negative)
    } else if aim < b.base {
        Err(SeekError::Compacted { position: aim as u64, base: b.base as u64 })
    } else if aim > b.written.len() {
        Ok(b.written.len() as u64)
    } else {
        Ok(aim as u64)
    }
}

impl StreamBufferReader {
    /// A reader at the beginning of the stream.
    pub fn new() -> (r: Self)
        ensures
            r == (StreamBufferReader { read_pos: 0, buffering_active: false }),
    {
        StreamBufferReader { read_pos: 0, buffering_active: false }
    }

    /// How many bytes lie ahead.
    fn available(&self, buffer: &StreamBuffer) -> (n: usize)
        requires
            buffer.well_formed(),
            reader_in(self@, buffer@),
        ensures
            n == available(self@, buffer@),
    {
        let local_read: usize = (self.read_pos - buffer.base_offset) as usize;
        buffer.data.len() - local_read
    }

    /// The buffer's status as this reader sees it.
    pub fn status(&self, buffer: &StreamBuffer) -> (s: BufferStatus)
        requires
            buffer.well_formed(),
            reader_in(self@, buffer@),
        ensures
            s == status_of(self@, buffer@),
            s.level_bytes == available(self@, buffer@),
            s.capacity_bytes == held(buffer@),
    {
        BufferStatus {
            level_bytes: self.available(buffer),
            capacity_bytes: buffer.data.len(),
            is_buffering: self.buffering_active,
            underrun_count: buffer.underrun_count,
        }
    }

    /// Discards what this reader has left behind, where that is enough to be worth it.
    ///
    /// While the format is being probed nothing is discarded: the probe may seek back.
    pub fn maybe_compact(&self, buffer: &mut StreamBuffer, probing: bool)
        requires
            old(buffer).well_formed(),
            reader_in(self@, old(buffer)@),
        ensures
            final(buffer).well_formed(),
            final(buffer)@ == compacted(self@, old(buffer)@, probing),
            reader_in(self@, final(buffer)@),
    {
        if probing {
            return;
        }
        let local_read: usize = (self.read_pos - buffer.base_offset) as usize;
        if local_read > COMPACTION_THRESHOLD {
            buffer.discard(local_read - COMPACTION_SAFETY_MARGIN);
        }
    }

    /// Looks into the buffer for up to `buf.len()` bytes. Returns what it finds, and the status to
    /// publish where that changed.
    ///
    /// A buffer that runs empty is refilled to the high watermark before anything is handed out
    /// again, unless the producer has finished. The end of the stream is reported only once the
    /// producer has finished and all has been handed out.
    pub fn read(&mut self, buffer: &mut StreamBuffer, buf: &mut [u8], probing: bool) -> (r: (
        ReadStep,
        Option<BufferStatus>,
    ))
        requires
            old(buffer).well_formed(),
            reader_in(old(self)@, old(buffer)@),
        ensures
            final(buffer).well_formed(),
            reader_in(final(self)@, final(buffer)@),
            (final(self)@, final(buffer)@, r.0@) == read_result(
                old(self)@,
                old(buffer)@,
                old(buf)@.len(),
                probing,
            ),
            final(buf)@ == match r.0 {
                ReadStep::Served(n) => overwritten(
                    old(buf)@,
                    upcoming(old(self)@, old(buffer)@, n as nat),
                ),
                _ => old(buf)@,
            },
            r.1 == match r.0 {
                ReadStep::Served(_) => Some(
                    status_of(
                        final(self)@,
                        (BufferView { base: old(buffer)@.base, ..final(buffer)@ }),
                    ),
                ),
                ReadStep::Wait => Some(status_of(final(self)@, final(buffer)@)),
                _ => if old(self).buffering_active {
                    Some(status_of(final(self)@, final(buffer)@))
                } else {
                    None
                },
            },
    {
        let ahead: usize = self.available(buffer);
        let mut status: Option<BufferStatus> = None;
        if self.buffering_active {
            if ahead < HIGH_WATERMARK_BYTES && !buffer.producer_done {
                return (ReadStep::Wait, Some(self.status(buffer)));
            }
            self.buffering_active = false;
            status = Some(self.status(buffer));
        }
        if ahead > 0 {
            let n: usize = if ahead < buf.len() {
                ahead
            } else {
                buf.len()
            };
            let local_read: usize = (self.read_pos - buffer.base_offset) as usize;
            assert(buffer.data@.subrange(local_read as int, local_read + n) =~= upcoming(
                old(self)@,
                buffer@,
                n as nat,
            ));
            copy_into(buf, &buffer.data, local_read, n);
            self.read_pos = self.read_pos + n as u64;
            if self.available(buffer) == 0 && !buffer.producer_done {
                self.buffering_active = true;
                buffer.underrun_count = buffer.underrun_count.wrapping_add(1);
            }
            let seen: BufferStatus = self.status(buffer);
            self.maybe_compact(buffer, probing);
            return (ReadStep::Served(n), Some(seen));
        }
        if buffer.producer_done {
            return match &buffer.producer_error {
                Some(text) => (ReadStep::Failed(text.clone()), status),
                None => (ReadStep::Eof, status),
            };
        }
        self.buffering_active = true;
        buffer.underrun_count = buffer.underrun_count.wrapping_add(1);
        (ReadStep::Wait, Some(self.status(buffer)))
    }

    /// Seeks to a position that is still kept, or to the end of what was written where the
    /// position lies behind it.
    pub fn seek(&mut self, buffer: &StreamBuffer, target: SeekTarget) -> (r: core::result::Result<
        u64,
        SeekError,
    >)
        requires
            buffer.well_formed(),
            reader_in(old(self)@, buffer@),
            buffer@.written.len() <= i64::MAX,
            !(target is Start) ==> seek_aim(old(self)@, buffer@, target) <= i64::MAX,
        ensures
            r == seek_result(old(self)@, buffer@, target),
            reader_in(final(self)@, buffer@),
            *final(self) == match r {
                Ok(pos) => StreamBufferReader { read_pos: pos, ..*old(self) },
                Err(_) => *old(self),
            },
    {
        let abs_end: u64 = buffer.end_offset();
        let new_pos: i128 = match target {
            SeekTarget::Start(offset) => offset as i128,
            SeekTarget::End(offset) => abs_end as i128 + offset as i128,
            SeekTarget::Current(offset) => self.read_pos as i128 + offset as i128,
        };
        if new_pos < 0 || new_pos > i64::MAX as i128 {
            return Err(SeekError::Negative);
        }
        let new_pos: u64 = new_pos as u64;
        if new_pos < buffer.base_offset {
            return Err(SeekError::Compacted { position: new_pos, base: buffer.base_offset });
        }
        self.read_pos = if new_pos < abs_end {
            new_pos
        } else {
            abs_end
        };
        Ok(self.read_pos)
    }
}

/// The consumer gets the bytes that were written, in order and without a gap, whatever is appended
/// or discarded between two reads: the second read goes on where the first ended.
pub proof fn law_reads_are_contiguous(
    r: ReaderView,
    b: BufferView,
    want: nat,
    probing: bool,
    later: BufferView,
    n: nat,
    m: nat,
)
    requires
        reader_in(r, b),
        read_result(r, b, want, probing).2 == ReadStepView::Served(n),
        b.written.is_prefix_of(later.written),
        r.read_pos + n + m <= later.written.len(),
    ensures
        read_result(r, b, want, probing).0.read_pos == r.read_pos + n,
        upcoming(r, b, n) + upcoming(read_result(r, b, want, probing).0, later, m)
            == later.written.subrange(
            r.read_pos as int,
            (r.read_pos + n + m) as int,
        ),
{
    let next = read_result(r, b, want, probing).0;
    assert(next.read_pos == r.read_pos + n);
    assert(upcoming(r, b, n) + upcoming(next, later, m) =~= later.written.subrange(
        r.read_pos as int,
        (r.read_pos + n + m) as int,
    ));
}

/// A read changes nothing of what was written and keeps the reader in what is kept.
pub proof fn law_read_keeps_the_stream(
    r: ReaderView,
    b: BufferView,
    want: nat,
    probing: bool,
)
    requires
        reader_in(r, b),
    ensures
        ({
            let (reader, buffer, step) = read_result(r, b, want, probing);
            &&& buffer.written == b.written
            &&& buffer.done == b.done
            &&& buffer.error == b.error
            &&& reader_in(reader, buffer)
        }),
{
}

/// Compaction discards only what lies behind the reader by more than the margin, and nothing while
/// the format is being probed.
pub proof fn law_compaction_keeps_a_margin(r: ReaderView, b: BufferView, probing: bool)
    requires
        reader_in(r, b),
    ensures
        ({
            let after = compacted(r, b, probing);
            &&& after.written == b.written
            &&& probing ==> after == b
            &&& after.base == b.base || after.base + COMPACTION_SAFETY_MARGIN == r.read_pos
            &&& b.base <= after.base <= r.read_pos
            &&& r.read_pos - after.base <= COMPACTION_THRESHOLD || probing
        }),
{
}

/// The end of the stream is reported only once the producer has finished and everything has been
/// handed out, and as an error exactly when the producer failed. As long as the producer runs, a
/// consumer for whom there is nothing waits; whoever is served gets at least one of the bytes that
/// it asked for.
pub proof fn law_end_comes_last(r: ReaderView, b: BufferView, want: nat, probing: bool)
    requires
        reader_in(r, b),
    ensures
        ({
            let step = read_result(r, b, want, probing).2;
            &&& step == ReadStepView::Eof <==> b.done && available(r, b) == 0 && b.error is None
            &&& forall|text: Seq<char>|
                step == ReadStepView::Failed(text) <==> b.done && available(r, b) == 0 && b.error
                    == Some(text)
            &&& available(r, b) == 0 && !b.done ==> step is Wait
            &&& step is Wait ==> !b.done
            &&& step is Served && want > 0 ==> step->Served_0 > 0
        }),
{
}

/// A reader that is refilling the buffer waits, without effect, until the high watermark is
/// reached or the producer finishes, and is served then. After that it is refilling again only if
/// this very read has emptied the buffer while the producer runs.
pub proof fn law_hysteresis(r: ReaderView, b: BufferView, want: nat, probing: bool)
    requires
        reader_in(r, b),
        r.buffering_active,
    ensures
        ({
            let (reader, buffer, step) = read_result(r, b, want, probing);
            &&& step is Wait <==> available(r, b) < HIGH_WATERMARK_BYTES && !b.done
            &&& step is Wait ==> reader == r && buffer == b
            &&& step is Served <==> available(r, b) >= HIGH_WATERMARK_BYTES || b.done && available(
                r,
                b,
            ) > 0
            &&& step !is Wait ==> reader.buffering_active == (available(reader, buffer) == 0
                && !buffer.done)
        }),
{
}

/// An underrun is counted once, when refilling begins, and not on every look into the buffer.
pub proof fn law_underruns_are_counted_once(
    r: ReaderView,
    b: BufferView,
    want: nat,
    probing: bool,
)
    requires
        reader_in(r, b),
    ensures
        ({
            let (reader, buffer, step) = read_result(r, b, want, probing);
            buffer.underruns == if reader.buffering_active && !refilling(r, b) {
                one_more(b.underruns)
            } else {
                b.underruns
            }
        }),
{
}

/// Any position that is kept can be sought to, and the reader then stands there.
pub proof fn law_kept_positions_are_reachable(r: ReaderView, b: BufferView, position: u64)
    requires
        reader_in(r, b),
        b.written.len() <= i64::MAX,
        b.base <= position <= b.written.len(),
    ensures
        seek_result(r, b, SeekTarget::Start(position)) == Ok::<u64, SeekError>(position),
        seek_result(r, b, SeekTarget::Current(0)) == Ok::<u64, SeekError>(r.read_pos as u64),
        seek_result(r, b, SeekTarget::End((position - b.written.len()) as i64)) == Ok::<
            u64,
            SeekError,
        >(position),
{
}

/// Something that producer or consumer does.
pub enum Turn {
    /// The producer has bytes to append, and may have been told to stop.
    Produce { chunk: Seq<u8>, stopped: bool },
    /// The producer comes to its end.
    Finish { error: Option<Seq<char>> },
    /// The consumer asks for so many bytes.
    Read { want: nat, probing: bool },
}

/// The two sides of the buffer, and all that was handed out so far.
pub struct Exchange {
    pub reader: ReaderView,
    pub buffer: BufferView,
    pub handed_out: Seq<u8>,
}

/// The exchange after a turn.
pub open spec fn exchange_step(x: Exchange, turn: Turn) -> Exchange {
    match turn {
        Turn::Produce { chunk, stopped } => Exchange {
            buffer: produce_result(x.buffer, chunk, stopped).0,
            ..x
        },
        Turn::Finish { error } => Exchange { buffer: finish_result(x.buffer, error), ..x },
        Turn::Read { want, probing } => {
            let (reader, buffer, step) = read_result(x.reader, x.buffer, want, probing);
            Exchange {
                reader,
                buffer,
                handed_out: match step {
                    ReadStepView::Served(n) => x.handed_out + upcoming(x.reader, x.buffer, n),
                    _ => x.handed_out,
                },
            }
        },
    }
}

/// The exchange after a series of turns.
pub open spec fn exchange_run(x: Exchange, turns: Seq<Turn>) -> Exchange
    decreases turns.len(),
{
    if turns.len() == 0 {
        x
    } else {
        exchange_step(exchange_run(x, turns.drop_last()), turns.last())
    }
}

/// The exchange before anything happened.
pub open spec fn fresh_exchange() -> Exchange {
    Exchange {
        reader: ReaderView { read_pos: 0, buffering_active: false },
        buffer: BufferView {
            written: Seq::empty(),
            base: 0,
            done: false,
            error: None,
            underruns: 0,
        },
        handed_out: Seq::empty(),
    }
}

/// However producer and consumer take turns, what the consumer was handed is what the producer
/// wrote, from its first byte on, without loss, repetition or change.
pub proof fn law_consumer_gets_what_was_written(turns: Seq<Turn>)
    ensures
        ({
            let x = exchange_run(fresh_exchange(), turns);
            &&& reader_in(x.reader, x.buffer)
            &&& x.handed_out == x.buffer.written.take(x.reader.read_pos as int)
        }),
    decreases turns.len(),
{
    let x = exchange_run(fresh_exchange(), turns);
    if turns.len() == 0 {
        assert(x.handed_out =~= x.buffer.written.take(0));
    } else {
        let before = exchange_run(fresh_exchange(), turns.drop_last());
        law_consumer_gets_what_was_written(turns.drop_last());
        let position = before.reader.read_pos as int;
        match turns.last() {
            Turn::Produce { chunk, stopped } => {
                assert(x.buffer.written.take(position) =~= before.buffer.written.take(position));
            },
            Turn::Finish { .. } => {},
            Turn::Read { want, probing } => {
                law_read_keeps_the_stream(before.reader, before.buffer, want, probing);
                assert(x.handed_out =~= x.buffer.written.take(x.reader.read_pos as int));
            },
        }
    }
}

/// The buffer holds no more than its limit and the chunk that reached it, at every moment.
pub proof fn law_what_is_held_is_bounded(b: &StreamBuffer)
    requires
        b.well_formed(),
    ensures
        0 <= held(b@) < MAX_BUFFER_SIZE + PRODUCER_CHUNK_SIZE,
{
}

/// However producer and consumer take turns, the buffer never holds more than its limit and the
/// chunk that reached it.
pub proof fn law_memory_is_bounded(turns: Seq<Turn>)
    requires
        forall|i: int|
            0 <= i < turns.len() ==> (#[trigger] turns[i] matches Turn::Produce { chunk, .. }
                ==> chunk.len() <= PRODUCER_CHUNK_SIZE),
    ensures
        0 <= held(exchange_run(fresh_exchange(), turns).buffer) < MAX_BUFFER_SIZE
            + PRODUCER_CHUNK_SIZE,
    decreases turns.len(),
{
    if turns.len() > 0 {
        let front = turns.drop_last();
        assert forall|i: int| 0 <= i < front.len() implies (#[trigger] front[i] matches
            Turn::Produce { chunk, .. } ==> chunk.len() <= PRODUCER_CHUNK_SIZE) by {
            assert(front[i] == turns[i]);
        }
        law_memory_is_bounded(front);
        law_consumer_gets_what_was_written(front);
        assert(turns.last() == turns[turns.len() - 1]);
    }
}

/// What the producer reads: chunks, one after the other, and then the end, which may be an error.
pub struct Source {
    pub chunks: Seq<Seq<u8>>,
    pub error: Option<Seq<char>>,
}

/// The chunks as one.
pub open spec fn concatenated(chunks: Seq<Seq<u8>>) -> Seq<u8>
    decreases chunks.len(),
{
    if chunks.len() == 0 {
        Seq::empty()
    } else {
        concatenated(chunks.drop_last()) + chunks.last()
    }
}

/// How many of the chunks that the producer offered were appended.
pub open spec fn appended(turns: Seq<Turn>) -> nat
    decreases turns.len(),
{
    if turns.len() == 0 {
        0
    } else {
        let front = turns.drop_last();
        let x = exchange_run(fresh_exchange(), front);
        match turns.last() {
            Turn::Produce { chunk, stopped } => if produce_result(x.buffer, chunk, stopped).1
                == ProducerStep::Continue {
                appended(front) + 1
            } else {
                appended(front)
            },
            _ => appended(front),
        }
    }
}

/// The producer's turns are those of one that reads the source to its end and is not told to stop:
/// it offers each chunk until it is appended, then the next, and finishes after the last as the
/// source does. The consumer's turns are anything.
pub open spec fn feeds(source: Source, turns: Seq<Turn>) -> bool
    decreases turns.len(),
{
    turns.len() == 0 || {
        let front = turns.drop_last();
        &&& feeds(source, front)
        &&& match turns.last() {
            Turn::Produce { chunk, stopped } => {
                &&& !stopped
                &&& appended(front) < source.chunks.len()
                &&& chunk == source.chunks[appended(front) as int]
            },
            Turn::Finish { error } => {
                &&& appended(front) == source.chunks.len()
                &&& error == source.error
            },
            Turn::Read { .. } => true,
        }
    }
}

/// The producer appends exactly what it reads, in order; a full buffer costs it no byte. It is
/// done once it has appended everything, with the error that the source ended in, if any.
pub proof fn law_producer_appends_what_it_reads(source: Source, turns: Seq<Turn>)
    requires
        feeds(source, turns),
    ensures
        ({
            let x = exchange_run(fresh_exchange(), turns);
            &&& appended(turns) <= source.chunks.len()
            &&& x.buffer.written == concatenated(source.chunks.take(appended(turns) as int))
            &&& x.buffer.done ==> x.buffer.written == concatenated(source.chunks)
            &&& x.buffer.done ==> appended(turns) == source.chunks.len()
            &&& x.buffer.error == if x.buffer.done {
                source.error
            } else {
                None
            }
        }),
    decreases turns.len(),
{
    let x = exchange_run(fresh_exchange(), turns);
    if turns.len() == 0 {
        assert(source.chunks.take(0).len() == 0);
    } else {
        let front = turns.drop_last();
        law_producer_appends_what_it_reads(source, front);
        law_consumer_gets_what_was_written(front);
        let k = appended(front) as int;
        if appended(turns) > k {
            assert(source.chunks.take(k + 1).drop_last() =~= source.chunks.take(k));
        }
    }
    assert(source.chunks.take(source.chunks.len() as int) =~= source.chunks);
}

/// What a consumer was handed is the beginning of what the source held. It is told of the end, or
/// of the error, once all of it was handed out, and only then; until then it is served, or waits.
pub proof fn law_stream_is_delivered_whole(
    source: Source,
    turns: Seq<Turn>,
    want: nat,
    probing: bool,
)
    requires
        feeds(source, turns),
    ensures
        ({
            let x = exchange_run(fresh_exchange(), turns);
            let step = read_result(x.reader, x.buffer, want, probing).2;
            let whole = concatenated(source.chunks);
            &&& x.handed_out.is_prefix_of(whole)
            &&& step == ReadStepView::Eof <==> x.buffer.done && x.handed_out == whole
                && source.error is None
            &&& forall|text: Seq<char>|
                step == ReadStepView::Failed(text) <==> x.buffer.done && x.handed_out == whole
                    && source.error == Some(text)
            &&& step is Wait ==> !x.buffer.done
            &&& step is Served && want > 0 ==> step->Served_0 > 0
        }),
{
    let x = exchange_run(fresh_exchange(), turns);
    let whole = concatenated(source.chunks);
    let k = appended(turns) as int;
    law_producer_appends_what_it_reads(source, turns);
    law_consumer_gets_what_was_written(turns);
    law_end_comes_last(x.reader, x.buffer, want, probing);
    lemma_first_chunks_are_a_prefix(source.chunks, k);
    assert(x.handed_out =~= whole.take(x.reader.read_pos as int));
    if x.buffer.done && x.handed_out == whole {
        assert(x.handed_out.len() == x.reader.read_pos);
    }
    assert(x.buffer.done && available(x.reader, x.buffer) == 0 ==> x.handed_out =~= whole);
}

proof fn lemma_first_chunks_are_a_prefix(chunks: Seq<Seq<u8>>, k: int)
    requires
        0 <= k <= chunks.len(),
    ensures
        concatenated(chunks.take(k)).is_prefix_of(concatenated(chunks)),
    decreases chunks.len(),
{
    if k == chunks.len() {
        assert(chunks.take(k) =~= chunks);
    } else {
        lemma_first_chunks_are_a_prefix(chunks.drop_last(), k);
        assert(chunks.drop_last().take(k) =~= chunks.take(k));
    }
}

/// A read hands out all that was asked for and is there, from where the reader stands, and moves
/// the reader behind it. Nothing is handed out while there is nothing, or while the buffer is being
/// refilled, and the reader then stays where it is.
pub proof fn law_read_serves_what_is_there(r: ReaderView, b: BufferView, want: nat, probing: bool)
    requires
        reader_in(r, b),
    ensures
        ({
            let (reader, buffer, step) = read_result(r, b, want, probing);
            let there = b.written.len() - r.read_pos;
            let refilled = !r.buffering_active || there >= 65_536 || b.done;
            &&& step is Served <==> there > 0 && refilled
            &&& step is Served && want <= there ==> step->Served_0 == want
            &&& step is Served && want > there ==> step->Served_0 == there
            &&& step is Served ==> reader.read_pos == r.read_pos + step->Served_0
            &&& !(step is Served) ==> reader.read_pos == r.read_pos && buffer.base == b.base
            &&& forall|n: nat|
                n <= there ==> #[trigger] upcoming(r, b, n) == b.written.skip(
                    r.read_pos as int,
                ).take(n as int)
        }),
{
    assert forall|n: nat| n <= b.written.len() - r.read_pos implies #[trigger] upcoming(r, b, n)
        == b.written.skip(r.read_pos as int).take(n as int) by {
        assert(upcoming(r, b, n) =~= b.written.skip(r.read_pos as int).take(n as int));
    }
}

/// A reader is refilling from the moment at which it finds the buffer empty, or empties it, while
/// the producer runs, and at no other time.
pub proof fn law_refilling_begins_when_empty(r: ReaderView, b: BufferView, want: nat, probing: bool)
    requires
        reader_in(r, b),
    ensures
        ({
            let (reader, buffer, step) = read_result(r, b, want, probing);
            &&& step is Wait ==> reader.buffering_active
            &&& !(step is Wait) ==> (reader.buffering_active <==> reader.read_pos
                == b.written.len() && !b.done)
            &&& step is Served && reader.buffering_active ==> buffer.underruns == one_more(
                b.underruns,
            )
            &&& refilling(r, b) <==> r.buffering_active && b.written.len() - r.read_pos < 65_536
                && !b.done
        }),
{
}

/// What a reader has left behind is discarded once it is more than two megabytes, but for the last
/// 64 kilobytes, and not before, nor while the format is being probed.
pub proof fn law_when_the_buffer_is_compacted(r: ReaderView, b: BufferView, probing: bool)
    requires
        reader_in(r, b),
    ensures
        ({
            let after = compacted(r, b, probing);
            let due = !probing && r.read_pos - b.base > 2_097_152;
            &&& due ==> after.base == r.read_pos - 65_536
            &&& !due ==> after.base == b.base
            &&& after == (BufferView { base: after.base, ..b })
        }),
{
}

/// A producer appends what it has as long as less than four megabytes are held, and waits,
/// without effect, otherwise. One that was told to stop is done, and appends nothing; one that
/// comes to its end is done, with its error if it has one.
pub proof fn law_what_a_producer_does(b: BufferView, chunk: Seq<u8>, error: Seq<char>)
    ensures
        b.written.len() - b.base < 4_194_304 ==> produce_result(b, chunk, false) == (
            BufferView { written: b.written + chunk, ..b },
            ProducerStep::Continue,
        ),
        b.written.len() - b.base >= 4_194_304 ==> produce_result(b, chunk, false) == (
            b,
            ProducerStep::Wait,
        ),
        produce_result(b, chunk, true) == (BufferView { done: true, ..b }, ProducerStep::Exit),
        finish_result(b, None) == (BufferView { done: true, ..b }),
        finish_result(b, Some(error)) == (BufferView { done: true, error: Some(error), ..b }),
        held(b) == b.written.len() - b.base,
{
}

/// A seek leads to its offset from the start or the end of the stream or from where the reader
/// stands, no further than to the end of what was written; what lies before the stream, or has been
/// discarded, is refused.
pub proof fn law_where_a_seek_leads(r: ReaderView, b: BufferView, from_start: u64, offset: i64)
    requires
        b.base <= b.written.len() <= i64::MAX,
    ensures
        ({
            let end = b.written.len() as int;
            let leads = |aim: int|
                if aim < 0 || aim > i64::MAX {
                    Err::<u64, SeekError>(SeekError::Negative)
                } else if aim < b.base {
                    Err(SeekError::Compacted { position: aim as u64, base: b.base as u64 })
                } else if aim > end {
                    Ok(end as u64)
                } else {
                    Ok(aim as u64)
                };
            &&& seek_result(r, b, SeekTarget::Start(from_start)) == leads(from_start as int)
            &&& seek_result(r, b, SeekTarget::End(offset)) == leads(end + offset)
            &&& seek_result(r, b, SeekTarget::Current(offset)) == leads(r.read_pos + offset)
        }),
{
}

/// A refused seek says where it led to and from where on the stream is kept.
pub proof fn law_refused_seeks_say_why(position: u64, base: u64)
    ensures
        seek_error_text(SeekError::Negative) == "Seek to negative position"@,
        seek_error_text(SeekError::Compacted { position, base }) == "Cannot seek to position "@
            + decimal_of(position as nat) + " — data before "@ + decimal_of(base as nat)
            + " has been compacted"@,
{
}

/// The status tells what lies ahead of the reader, what is held in memory, whether the buffer is
/// being refilled and how often it ran empty.
pub proof fn law_status_tells_the_truth(r: ReaderView, b: BufferView)
    requires
        reader_in(r, b),
        b.written.len() - b.base <= u32::MAX,
    ensures
        ({
            let s = status_of(r, b);
            &&& s.level_bytes == b.written.len() - r.read_pos
            &&& s.capacity_bytes == b.written.len() - b.base
            &&& s.is_buffering == r.buffering_active
            &&& s.underrun_count == b.underruns
        }),
        available(r, b) == b.written.len() - r.read_pos,
        b.underruns < u32::MAX ==> one_more(b.underruns) == b.underruns + 1,
{
}

/// A chunk is eight kilobytes at most, so that the buffer never holds more than that beyond four
/// megabytes.
pub proof fn law_limits_of_the_buffer(b: &StreamBuffer)
    requires
        b.well_formed(),
    ensures
        PRODUCER_CHUNK_SIZE == 8_192,
        held(b@) < 4_202_496,
{
}

/// A reader is where it stands and whether it is refilling the buffer.
pub proof fn law_buffer_reader_says(reader: StreamBufferReader)
    ensures
        reader@.read_pos == reader.read_pos,
        reader@.buffering_active == reader.buffering_active,
{
}

} // verus!
