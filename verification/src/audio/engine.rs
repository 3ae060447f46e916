//! The decisions of the audio engine
//!
//! The engine thread waits for a command, half a second at most, and then looks at the probe, the
//! sink and the counters. `EngineCore` holds what it remembers between two rounds and decides
//! what is to be done; the thread carries the actions out, in order.

use std::time::Instant;

use vstd::prelude::*;

use crate::audio::health::{
    health_step, law_reported_failures, time_since, FailureReason, HealthState, HealthTracker,
};
use crate::audio::stats::{
    idle_stats, StreamEvent, StreamEventView, StreamStats, StreamStatsView, Throughput,
};
use crate::audio::types::{
    AudioEvent, AudioEventView, CodecInfo, CodecInfoView, PlaybackState,
};
use crate::config::timeouts::{
    BUFFERING_TIMEOUT_SECS, PROBE_TIMEOUT_SECS, STREAM_STALL_TIMEOUT_SECS,
};
use crate::error::{error_message, RadioError};
use crate::stream::buffer::BufferStatus;
use crate::text::{decimal, decimal_of, join, opt_text};
use crate::time::{secs_to_nanos, NANOS_PER_SEC};

verus! {

/// What is remembered of a stream whose format is still being probed.
#[derive(Debug, Clone, Copy, PartialEq, Eq, Structural)]
pub struct PendingProbe {
    /// The bitrate that the caller gave for the stream.
    pub bitrate: Option<u32>,
    /// Whether the stream comes with a counter of received bytes.
    pub counts_bytes: bool,
    /// When the probe was started.
    pub started: u128,
}

/// Something for the engine thread to do.
#[derive(Debug)]
pub enum EngineAction {
    /// Stop the producer of the stream that is being probed.
    StopPending,
    /// Stop the producer of the current stream.
    StopProducer,
    /// Stop the audio output.
    StopSink,
    /// Pause the audio output.
    PauseSink,
    /// Let the audio output run.
    PlaySink,
    /// Clear the visualization data.
    ResetAnalysis,
    /// Buffer the new reader and start to probe its format.
    StartProbe,
    /// Make the probed stream the current one and let its buffer discard what was consumed.
    AdoptPending,
    /// Hand the decoded stream to the audio output.
    AppendSource,
    /// Set the output to the current volume.
    ApplyVolume,
    /// Publish the statistics.
    PublishStats,
    /// Send an event to the owner of the engine.
    Emit(AudioEvent),
    /// Send an event to all subscribers.
    Broadcast(StreamEvent),
}

/// What an `EngineAction` says.
pub enum EngineActionView {
    StopPending,
    StopProducer,
    StopSink,
    PauseSink,
    PlaySink,
    ResetAnalysis,
    StartProbe,
    AdoptPending,
    AppendSource,
    ApplyVolume,
    PublishStats,
    Emit(AudioEventView),
    Broadcast(StreamEventView),
}

impl View for EngineAction {
    type V = EngineActionView;

    open spec fn view(&self) -> EngineActionView {
        match *self {
            EngineAction::StopPending => EngineActionView::StopPending,
            EngineAction::StopProducer => EngineActionView::StopProducer,
            EngineAction::StopSink => EngineActionView::StopSink,
            EngineAction::PauseSink => EngineActionView::PauseSink,
            EngineAction::PlaySink => EngineActionView::PlaySink,
            EngineAction::ResetAnalysis => EngineActionView::ResetAnalysis,
            EngineAction::StartProbe => EngineActionView::StartProbe,
            EngineAction::AdoptPending => EngineActionView::AdoptPending,
            EngineAction::AppendSource => EngineActionView::AppendSource,
            EngineAction::ApplyVolume => EngineActionView::ApplyVolume,
            EngineAction::PublishStats => EngineActionView::PublishStats,
            EngineAction::Emit(event) => EngineActionView::Emit(event@),
            EngineAction::Broadcast(event) => EngineActionView::Broadcast(event@),
        }
    }
}

/// What the actions of a list say.
pub open spec fn action_views(actions: Seq<EngineAction>) -> Seq<EngineActionView> {
    Seq::new(actions.len(), |i: int| actions[i]@)
}

/// What a look at the probe found.
#[derive(Debug)]
pub enum ProbePoll {
    /// The format is known and a decoder is ready.
    Ready(CodecInfo),
    /// The format could not be detected or not be decoded.
    Failed(RadioError),
    /// The probe is still running.
    Running,
    /// The probe is gone without a result.
    Disconnected,
}

/// What is read off the current stream on a tick.
#[derive(Debug, Clone, Copy)]
pub struct StreamReading {
    /// The decoder's frames and errors.
    pub decoder: (u64, u64),
    /// Bytes received, for a stream that counts them.
    pub bytes_received: u64,
    /// Samples analysed, where they could be read.
    pub sample_count: Option<u64>,
    /// The buffer, where it could be read.
    pub buffer: Option<BufferStatus>,
}

/// What the engine remembers between two rounds. Times are in nanoseconds on one clock.
#[derive(Debug)]
pub struct EngineCore {
    /// The playback state.
    pub state: PlaybackState,
    /// The health of the current stream.
    pub health: Option<HealthTracker>,
    /// Whether the current stream counts its bytes.
    pub counts_bytes: bool,
    /// Whether the current stream has a producer to stop.
    pub has_producer: bool,
    /// Whether the stream was buffering when last looked at.
    pub was_buffering: bool,
    /// The byte count at the last throughput measurement.
    pub last_bytes: u64,
    /// The time of the last throughput measurement.
    pub last_measured: u128,
    /// The stream that is being probed.
    pub pending: Option<PendingProbe>,
    /// The statistics.
    pub stats: StreamStats,
    /// Whether the engine goes on.
    pub running: bool,
}

/// What an `EngineCore` says.
pub struct EngineView {
    pub state: PlaybackState,
    pub health: Option<HealthTracker>,
    pub counts_bytes: bool,
    pub has_producer: bool,
    pub was_buffering: bool,
    pub last_bytes: u64,
    pub last_measured: u128,
    pub pending: Option<PendingProbe>,
    pub stats: StreamStatsView,
    pub running: bool,
}

impl View for EngineCore {
    type V = EngineView;

    open spec fn view(&self) -> EngineView {
        EngineView {
            state: self.state,
            health: self.health,
            counts_bytes: self.counts_bytes,
            has_producer: self.has_producer,
            was_buffering: self.was_buffering,
            last_bytes: self.last_bytes,
            last_measured: self.last_measured,
            pending: self.pending,
            stats: self.stats@,
            running: self.running,
        }
    }
}

/// What happens to the engine.
pub enum EngineInput {
    /// A stream is to be played.
    Play,
    /// The probe of the new stream was started, or could not be.
    ProbeStarted {
        error: Option<Seq<char>>,
        bitrate: Option<u32>,
        counts_bytes: bool,
        now: u128,
    },
    /// Playback is to be stopped.
    Stop,
    /// Playback is to be paused.
    Pause,
    /// Playback is to be resumed.
    Resume,
    /// The engine is to be shut down.
    Shutdown,
    /// The owner of the engine is gone.
    Disconnected,
    /// The probe succeeded.
    ProbeReady { codec: CodecInfoView, now: u128, at: Instant },
    /// The probe failed.
    ProbeFailed { message: Seq<char> },
    /// The probe is still running.
    ProbeRunning { now: u128 },
    /// The probe is gone without a result.
    ProbeGone,
    /// The sink was looked at.
    SinkChecked { empty: bool, error: Option<Seq<char>> },
    /// The counters of the current stream were read.
    StreamRead { reading: StreamReading, now: u128 },
    /// The buffer of the current stream was looked at.
    BufferChecked { sink_empty: bool, buffer: Option<BufferStatus>, percent: u8, now: u128 },
    /// The analysed samples were counted.
    SamplesCounted { count: u64, now: u128 },
}

/// One action, where there is reason for it.
pub open spec fn when(reason: bool, action: EngineActionView) -> Seq<EngineActionView> {
    if reason {
        seq![action]
    } else {
        Seq::empty()
    }
}

/// The actions that silence whatever plays or is about to.
pub open spec fn silence(s: EngineView) -> Seq<EngineActionView> {
    when(s.pending is Some, EngineActionView::StopPending) + when(
        s.has_producer,
        EngineActionView::StopProducer,
    ) + seq![EngineActionView::StopSink]
}

/// The engine without a current stream.
pub open spec fn without_stream(s: EngineView) -> EngineView {
    EngineView {
        state: PlaybackState::Stopped,
        health: None,
        counts_bytes: false,
        has_producer: false,
        ..s
    }
}

/// The actions that announce the end of playback.
pub open spec fn announce_stop() -> Seq<EngineActionView> {
    seq![
        EngineActionView::PublishStats,
        EngineActionView::Broadcast(StreamEventView::PlaybackStopped),
        EngineActionView::Emit(AudioEventView::Stopped),
    ]
}

/// The statistics after a probe that failed.
pub open spec fn failed_probe_stats() -> StreamStatsView {
    StreamStatsView { health_state: HealthState::Failed(FailureReason::ProbeFailed), ..idle_stats() }
}

/// A probe is given up: its producer is stopped and the error goes to the owner and to all
/// subscribers.
pub open spec fn give_up_probe(
    s: EngineView,
    first: Seq<EngineActionView>,
    message: Seq<char>,
) -> (EngineView, Seq<EngineActionView>) {
    (
        EngineView {
            state: PlaybackState::Stopped,
            pending: None,
            stats: failed_probe_stats(),
            ..s
        },
        seq![EngineActionView::StopPending, EngineActionView::PublishStats] + first + seq![
            EngineActionView::Emit(AudioEventView::Error(message)),
            EngineActionView::Broadcast(StreamEventView::Error(message)),
        ],
    )
}

/// The message on a probe that ran out of time.
pub open spec fn probe_timeout_message() -> Seq<char> {
    "Unable to detect audio format (timed out after "@ + decimal_of(PROBE_TIMEOUT_SECS as nat)
        + "s)"@
}

/// The probed stream becomes the current one.
pub open spec fn start_playback(
    s: EngineView,
    pending: PendingProbe,
    codec: CodecInfoView,
    now: u128,
    at: Instant,
) -> (EngineView, Seq<EngineActionView>) {
    let info = CodecInfoView { bitrate: pending.bitrate, ..codec };
    (
        EngineView {
            state: PlaybackState::Playing,
            health: Some(
                HealthTracker {
                    state: HealthState::WaitingForAudio,
                    last_sample_count: 0,
                    timer_started: now,
                    no_audio_timeout: (BUFFERING_TIMEOUT_SECS * 1_000_000_000) as u128,
                    stall_timeout: (STREAM_STALL_TIMEOUT_SECS * 1_000_000_000) as u128,
                },
            ),
            counts_bytes: pending.counts_bytes,
            has_producer: true,
            was_buffering: false,
            last_bytes: 0,
            last_measured: now,
            pending: None,
            stats: StreamStatsView {
                codec_info: Some(info),
                play_started_at: Some(at),
                ..idle_stats()
            },
            ..s
        },
        seq![
            EngineActionView::AdoptPending,
            EngineActionView::AppendSource,
            EngineActionView::ApplyVolume,
            EngineActionView::PlaySink,
            EngineActionView::PublishStats,
            EngineActionView::Broadcast(
                StreamEventView::PlaybackStarted { codec_info: info, stream_url: Seq::empty() },
            ),
            EngineActionView::Emit(AudioEventView::Playing(info)),
        ],
    )
}

/// The statistics after a reading at `now`.
pub open spec fn read_stats(s: EngineView, r: StreamReading, now: u128) -> StreamStatsView {
    let elapsed = time_since(s.last_measured, now);
    StreamStatsView {
        frames_played: r.decoder.0,
        decode_errors: r.decoder.1,
        bytes_received: if s.counts_bytes {
            r.bytes_received
        } else {
            s.stats.bytes_received
        },
        throughput: if measures(s, now) {
            Throughput {
                bytes: if r.bytes_received >= s.last_bytes {
                    (r.bytes_received - s.last_bytes) as u64
                } else {
                    0
                },
                nanos: elapsed as u128,
            }
        } else {
            s.stats.throughput
        },
        sample_count: match r.sample_count {
            Some(count) => count,
            None => s.stats.sample_count,
        },
        health_state: match s.health {
            Some(health) => health.state,
            None => s.stats.health_state,
        },
        buffer_level_bytes: match r.buffer {
            Some(buffer) => buffer.level_bytes,
            None => s.stats.buffer_level_bytes,
        },
        buffer_capacity_bytes: match r.buffer {
            Some(buffer) => buffer.capacity_bytes,
            None => s.stats.buffer_capacity_bytes,
        },
        is_buffering: match r.buffer {
            Some(buffer) => buffer.is_buffering,
            None => s.stats.is_buffering,
        },
        underrun_count: match r.buffer {
            Some(buffer) => buffer.underrun_count,
            None => s.stats.underrun_count,
        },
        ..s.stats
    }
}

/// Whether the throughput is measured at `now`: at most once a second.
pub open spec fn measures(s: EngineView, now: u128) -> bool {
    s.counts_bytes && time_since(s.last_measured, now) >= 1_000_000_000
}

/// The fill level to report when buffering starts or ends.
pub open spec fn reported_percent(buffer: BufferStatus, percent: u8) -> u8 {
    if !buffer.is_buffering {
        100
    } else if buffer.capacity_bytes > 0 {
        percent
    } else {
        0
    }
}

/// What the engine becomes, and what it does, when something happens.
pub open spec fn engine_step(s: EngineView, input: EngineInput) -> (
    EngineView,
    Seq<EngineActionView>,
) {
    match input {
        EngineInput::Play => (
            EngineView { pending: None, has_producer: false, ..s },
            silence(s) + seq![EngineActionView::ResetAnalysis, EngineActionView::StartProbe],
        ),
        EngineInput::ProbeStarted { error, bitrate, counts_bytes, now } => match error {
            Some(text) => give_up_probe(s, Seq::empty(), "Decode error: "@ + text),
            None => (
                EngineView {
                    pending: Some(PendingProbe { bitrate, counts_bytes, started: now }),
                    ..s
                },
                Seq::empty(),
            ),
        },
        EngineInput::Stop => {
            let stopped = EngineView { pending: None, ..without_stream(s) };
            let quiet = silence(s) + seq![EngineActionView::ResetAnalysis];
            if s.state == PlaybackState::Stopped {
                (stopped, quiet)
            } else {
                (EngineView { stats: idle_stats(), ..stopped }, quiet + announce_stop())
            }
        },
        EngineInput::Pause => if s.state == PlaybackState::Playing {
            (
                EngineView { state: PlaybackState::Paused, ..s },
                seq![EngineActionView::PauseSink, EngineActionView::Emit(AudioEventView::Paused)],
            )
        } else {
            (s, Seq::empty())
        },
        EngineInput::Resume => if s.state == PlaybackState::Paused {
            (
                EngineView { state: PlaybackState::Playing, ..s },
                seq![EngineActionView::PlaySink, EngineActionView::Emit(AudioEventView::Resumed)],
            )
        } else {
            (s, Seq::empty())
        },
        EngineInput::Shutdown => (
            EngineView { pending: None, running: false, ..s },
            silence(s),
        ),
        EngineInput::Disconnected => (EngineView { running: false, ..s }, Seq::empty()),
        EngineInput::ProbeReady { codec, now, at } => match s.pending {
            Some(pending) => start_playback(s, pending, codec, now, at),
            None => (s, Seq::empty()),
        },
        EngineInput::ProbeFailed { message } => if s.pending is Some {
            give_up_probe(s, Seq::empty(), "Decode error: "@ + message)
        } else {
            (s, Seq::empty())
        },
        EngineInput::ProbeRunning { now } => match s.pending {
            Some(pending) => if time_since(pending.started, now) >= PROBE_TIMEOUT_SECS
                * 1_000_000_000 {
                give_up_probe(
                    s,
                    seq![EngineActionView::Emit(AudioEventView::ProbeTimeout)],
                    probe_timeout_message(),
                )
            } else {
                (s, Seq::empty())
            },
            None => (s, Seq::empty()),
        },
        EngineInput::ProbeGone => if s.pending is Some {
            give_up_probe(s, Seq::empty(), "Probe thread panicked"@)
        } else {
            (s, Seq::empty())
        },
        EngineInput::SinkChecked { empty, error } => if s.state == PlaybackState::Playing && empty {
            (
                EngineView { stats: idle_stats(), ..without_stream(s) },
                when(s.has_producer, EngineActionView::StopProducer) + seq![
                    EngineActionView::ResetAnalysis,
                ] + (match error {
                    Some(text) => seq![
                        EngineActionView::Emit(AudioEventView::Error("Stream error: "@ + text)),
                        EngineActionView::Broadcast(
                            StreamEventView::Error("Stream error: "@ + text),
                        ),
                    ],
                    None => Seq::empty(),
                }) + announce_stop(),
            )
        } else {
            (s, Seq::empty())
        },
        EngineInput::StreamRead { reading, now } => if s.state == PlaybackState::Playing {
            (
                EngineView {
                    stats: read_stats(s, reading, now),
                    last_bytes: if measures(s, now) {
                        reading.bytes_received
                    } else {
                        s.last_bytes
                    },
                    last_measured: if measures(s, now) {
                        now
                    } else {
                        s.last_measured
                    },
                    ..s
                },
                seq![EngineActionView::PublishStats],
            )
        } else {
            (s, Seq::empty())
        },
        EngineInput::BufferChecked { sink_empty, buffer, percent, now } => match buffer {
            Some(status) => if s.state == PlaybackState::Playing && !sink_empty
                && status.is_buffering != s.was_buffering {
                (
                    EngineView {
                        was_buffering: status.is_buffering,
                        health: match s.health {
                            Some(health) if status.is_buffering => Some(
                                HealthTracker { timer_started: now, ..health },
                            ),
                            _ => s.health,
                        },
                        ..s
                    },
                    seq![
                        EngineActionView::Emit(
                            AudioEventView::Buffering(reported_percent(status, percent)),
                        ),
                    ],
                )
            } else {
                (s, Seq::empty())
            },
            None => (s, Seq::empty()),
        },
        EngineInput::SamplesCounted { count, now } => match s.health {
            Some(health) => if s.state == PlaybackState::Playing {
                let (next, failure) = health_step(health, count, now);
                let watched = EngineView { health: Some(next), ..s };
                match failure {
                    Some(FailureReason::StreamStall) => (
                        watched,
                        seq![EngineActionView::Emit(AudioEventView::StreamStalled)],
                    ),
                    Some(FailureReason::NoAudioOutput) => (
                        EngineView { stats: idle_stats(), ..without_stream(s) },
                        seq![EngineActionView::Emit(AudioEventView::NoAudioTimeout)] + when(
                            s.has_producer,
                            EngineActionView::StopProducer,
                        ) + seq![EngineActionView::StopSink, EngineActionView::ResetAnalysis]
                            + announce_stop(),
                    ),
                    _ => (watched, Seq::empty()),
                }
            } else {
                (s, Seq::empty())
            },
            None => (s, Seq::empty()),
        },
    }
}

impl EngineCore {
    /// An engine with nothing to play.
    pub fn new(now: u128) -> (r: Self)
        ensures
            r@ == idle_engine(now),
    {
        EngineCore {
            state: PlaybackState::Stopped,
            health: None,
            counts_bytes: false,
            has_producer: false,
            was_buffering: false,
            last_bytes: 0,
            last_measured: now,
            pending: None,
            stats: StreamStats::default(),
            running: true,
        }
    }

    /// The actions that silence whatever plays or is about to.
    fn silence(&self) -> (actions: Vec<EngineAction>)
        ensures
            action_views(actions@) == silence(self@),
    {
        let mut actions: Vec<EngineAction> = Vec::new();
        if self.pending.is_some() {
            actions.push(EngineAction::StopPending);
        }
        if self.has_producer {
            actions.push(EngineAction::StopProducer);
        }
        actions.push(EngineAction::StopSink);
        assert(action_views(actions@) =~= silence(self@));
        actions
    }

    /// Forgets the current stream, clears the statistics and announces the end of playback.
    fn end_playback(&mut self, actions: &mut Vec<EngineAction>)
        ensures
            final(self)@ == (EngineView { stats: idle_stats(), ..without_stream(old(self)@) }),
            action_views(final(actions)@) == action_views(old(actions)@) + announce_stop(),
    {
        let ghost before = action_views(actions@);
        self.forget_stream();
        self.stats = StreamStats::default();
        actions.push(EngineAction::PublishStats);
        actions.push(EngineAction::Broadcast(StreamEvent::PlaybackStopped));
        actions.push(EngineAction::Emit(AudioEvent::Stopped));
        assert(action_views(actions@) =~= before + announce_stop());
    }

    /// Forgets the current stream.
    fn forget_stream(&mut self)
        ensures
            final(self)@ == without_stream(old(self)@),
            final(self).stats == old(self).stats,
    {
        self.state = PlaybackState::Stopped;
        self.health = None;
        self.counts_bytes = false;
        self.has_producer = false;
    }

    /// Gives the probe up.
    fn give_up_probe(&mut self, timed_out: bool, message: String) -> (actions: Vec<EngineAction>)
        ensures
            (final(self)@, action_views(actions@)) == give_up_probe(
                old(self)@,
                when(timed_out, EngineActionView::Emit(AudioEventView::ProbeTimeout)),
                message@,
            ),
    {
        self.pending = None;
        self.state = PlaybackState::Stopped;
        let mut stats: StreamStats = StreamStats::default();
        stats.health_state = HealthState::Failed(FailureReason::ProbeFailed);
        self.stats = stats;
        let mut actions: Vec<EngineAction> = Vec::new();
        actions.push(EngineAction::StopPending);
        actions.push(EngineAction::PublishStats);
        if timed_out {
            actions.push(EngineAction::Emit(AudioEvent::ProbeTimeout));
        }
        let copy: String = message.clone();
        actions.push(EngineAction::Emit(AudioEvent::Error(copy)));
        actions.push(EngineAction::Broadcast(StreamEvent::Error(message)));
        proof {
            let expected = give_up_probe(
                old(self)@,
                when(timed_out, EngineActionView::Emit(AudioEventView::ProbeTimeout)),
                message@,
            );
            assert(action_views(actions@) =~= expected.1);
        }
        actions
    }

    /// A stream is to be played: whatever played before is silenced.
    pub fn on_play(&mut self) -> (actions: Vec<EngineAction>)
        ensures
            (final(self)@, action_views(actions@)) == engine_step(old(self)@, EngineInput::Play),
    {
        let mut actions: Vec<EngineAction> = self.silence();
        self.pending = None;
        self.has_producer = false;
        actions.push(EngineAction::ResetAnalysis);
        actions.push(EngineAction::StartProbe);
        assert(action_views(actions@) =~= engine_step(old(self)@, EngineInput::Play).1);
        actions
    }

    /// The probe of the new stream was started, or could not be.
    pub fn on_probe_started(
        &mut self,
        outcome: Result<(), RadioError>,
        bitrate: Option<u32>,
        counts_bytes: bool,
        now: u128,
    ) -> (actions: Vec<EngineAction>)
        ensures
            (final(self)@, action_views(actions@)) == engine_step(
                old(self)@,
                EngineInput::ProbeStarted {
                    error: match outcome {
                        Ok(_) => None,
                        Err(error) => Some(error_message(error)),
                    },
                    bitrate,
                    counts_bytes,
                    now,
                },
            ),
    {
        match outcome {
            Ok(()) => {
                self.pending = Some(PendingProbe { bitrate, counts_bytes, started: now });
                let actions: Vec<EngineAction> = Vec::new();
                assert(action_views(actions@) =~= Seq::empty());
                actions
            },
            Err(error) => {
                let message: String = join("Decode error: ", &error.to_string());
                self.give_up_probe(false, message)
            },
        }
    }

    /// Playback is to be stopped.
    pub fn on_stop(&mut self) -> (actions: Vec<EngineAction>)
        ensures
            (final(self)@, action_views(actions@)) == engine_step(old(self)@, EngineInput::Stop),
    {
        let mut actions: Vec<EngineAction> = self.silence();
        actions.push(EngineAction::ResetAnalysis);
        let ghost quiet = silence(old(self)@) + seq![EngineActionView::ResetAnalysis];
        assert(action_views(actions@) =~= quiet);
        self.pending = None;
        if self.state != PlaybackState::Stopped {
            self.end_playback(&mut actions);
        } else {
            self.forget_stream();
        }
        actions
    }

    /// Playback is to be paused.
    pub fn on_pause(&mut self) -> (actions: Vec<EngineAction>)
        ensures
            (final(self)@, action_views(actions@)) == engine_step(old(self)@, EngineInput::Pause),
    {
        let mut actions: Vec<EngineAction> = Vec::new();
        if self.state == PlaybackState::Playing {
            self.state = PlaybackState::Paused;
            actions.push(EngineAction::PauseSink);
            actions.push(EngineAction::Emit(AudioEvent::Paused));
        }
        assert(action_views(actions@) =~= engine_step(old(self)@, EngineInput::Pause).1);
        actions
    }

    /// Playback is to be resumed.
    pub fn on_resume(&mut self) -> (actions: Vec<EngineAction>)
        ensures
            (final(self)@, action_views(actions@)) == engine_step(old(self)@, EngineInput::Resume),
    {
        let mut actions: Vec<EngineAction> = Vec::new();
        if self.state == PlaybackState::Paused {
            self.state = PlaybackState::Playing;
            actions.push(EngineAction::PlaySink);
            actions.push(EngineAction::Emit(AudioEvent::Resumed));
        }
        assert(action_views(actions@) =~= engine_step(old(self)@, EngineInput::Resume).1);
        actions
    }

    /// The engine is to be shut down.
    pub fn on_shutdown(&mut self) -> (actions: Vec<EngineAction>)
        ensures
            (final(self)@, action_views(actions@)) == engine_step(
                old(self)@,
                EngineInput::Shutdown,
            ),
    {
        let actions: Vec<EngineAction> = self.silence();
        self.pending = None;
        self.running = false;
        actions
    }

    /// The owner of the engine is gone.
    pub fn on_disconnected(&mut self)
        ensures
            final(self)@ == engine_step(old(self)@, EngineInput::Disconnected).0,
    {
        self.running = false;
    }

    /// The probe was looked at, while one is pending.
    pub fn on_probe_polled(&mut self, poll: ProbePoll, now: u128, at: Instant) -> (actions: Vec<
        EngineAction,
    >)
        ensures
            (final(self)@, action_views(actions@)) == engine_step(
                old(self)@,
                match poll {
                    ProbePoll::Ready(codec) => EngineInput::ProbeReady { codec: codec@, now, at },
                    ProbePoll::Failed(error) => EngineInput::ProbeFailed {
                        message: error_message(error),
                    },
                    ProbePoll::Running => EngineInput::ProbeRunning { now },
                    ProbePoll::Disconnected => EngineInput::ProbeGone,
                },
            ),
    {
        let nothing: Vec<EngineAction> = Vec::new();
        assert(action_views(nothing@) =~= Seq::empty());
        match self.pending {
            None => nothing,
            Some(pending) => match poll {
                ProbePoll::Ready(codec) => self.start_playback(pending, codec, now, at),
                ProbePoll::Failed(error) => {
                    let message: String = join("Decode error: ", &error.to_string());
                    self.give_up_probe(false, message)
                },
                ProbePoll::Running => {
                    let elapsed: u128 = now.saturating_sub(pending.started);
                    if elapsed >= secs_to_nanos(PROBE_TIMEOUT_SECS) {
                        let mut message: String = join(
                            "Unable to detect audio format (timed out after ",
                            &decimal(PROBE_TIMEOUT_SECS),
                        );
                        message.append("s)");
                        self.give_up_probe(true, message)
                    } else {
                        nothing
                    }
                },
                ProbePoll::Disconnected => self.give_up_probe(
                    false,
                    "Probe thread panicked".to_string(),
                ),
            },
        }
    }

    /// Makes the probed stream the current one.
    fn start_playback(
        &mut self,
        pending: PendingProbe,
        codec: CodecInfo,
        now: u128,
        at: Instant,
    ) -> (actions: Vec<EngineAction>)
        ensures
            (final(self)@, action_views(actions@)) == start_playback(
                old(self)@,
                pending,
                codec@,
                now,
                at,
            ),
    {
        let mut info: CodecInfo = codec;
        info.bitrate = pending.bitrate;
        self.state = PlaybackState::Playing;
        self.health = Some(HealthTracker::with_defaults(now));
        self.counts_bytes = pending.counts_bytes;
        self.has_producer = true;
        self.was_buffering = false;
        self.last_bytes = 0;
        self.last_measured = now;
        self.pending = None;
        let mut stats: StreamStats = StreamStats::default();
        stats.codec_info = Some(info.clone());
        stats.play_started_at = Some(at);
        self.stats = stats;
        let no_url: String = String::new();
        assert(no_url@ =~= Seq::empty());
        let mut actions: Vec<EngineAction> = Vec::new();
        actions.push(EngineAction::AdoptPending);
        actions.push(EngineAction::AppendSource);
        actions.push(EngineAction::ApplyVolume);
        actions.push(EngineAction::PlaySink);
        actions.push(EngineAction::PublishStats);
        let announced: CodecInfo = info.clone();
        actions.push(
            EngineAction::Broadcast(
                StreamEvent::PlaybackStarted { codec_info: announced, stream_url: no_url },
            ),
        );
        actions.push(EngineAction::Emit(AudioEvent::Playing(info)));
        assert(action_views(actions@) =~= start_playback(old(self)@, pending, codec@, now, at).1);
        actions
    }

    /// The sink was looked at: a sink that ran empty ends playback, with the error that the
    /// decoder left behind, if it left one.
    pub fn on_sink_checked(&mut self, empty: bool, error: Option<String>) -> (actions: Vec<
        EngineAction,
    >)
        ensures
            (final(self)@, action_views(actions@)) == engine_step(
                old(self)@,
                EngineInput::SinkChecked { empty, error: opt_text(error) },
            ),
    {
        let mut actions: Vec<EngineAction> = Vec::new();
        if self.state == PlaybackState::Playing && empty {
            if self.has_producer {
                actions.push(EngineAction::StopProducer);
            }
            actions.push(EngineAction::ResetAnalysis);
            if let Some(text) = &error {
                let message: String = join("Stream error: ", text);
                let copy: String = message.clone();
                actions.push(EngineAction::Emit(AudioEvent::Error(copy)));
                actions.push(EngineAction::Broadcast(StreamEvent::Error(message)));
            }
            self.end_playback(&mut actions);
        }
        proof {
            let input = EngineInput::SinkChecked { empty, error: opt_text(error) };
            assert(action_views(actions@) =~= engine_step(old(self)@, input).1);
        }
        actions
    }

    /// The counters of the current stream were read.
    pub fn on_stream_read(&mut self, reading: StreamReading, now: u128) -> (actions: Vec<
        EngineAction,
    >)
        ensures
            (final(self)@, action_views(actions@)) == engine_step(
                old(self)@,
                EngineInput::StreamRead { reading, now },
            ),
    {
        let mut actions: Vec<EngineAction> = Vec::new();
        if self.state == PlaybackState::Playing {
            self.stats.frames_played = reading.decoder.0;
            self.stats.decode_errors = reading.decoder.1;
            if self.counts_bytes {
                self.stats.bytes_received = reading.bytes_received;
                let elapsed: u128 = now.saturating_sub(self.last_measured);
                if elapsed >= NANOS_PER_SEC {
                    self.stats.throughput = Throughput {
                        bytes: reading.bytes_received.saturating_sub(self.last_bytes),
                        nanos: elapsed,
                    };
                    self.last_bytes = reading.bytes_received;
                    self.last_measured = now;
                }
            }
            if let Some(count) = reading.sample_count {
                self.stats.sample_count = count;
            }
            if let Some(health) = self.health {
                self.stats.health_state = health.state;
            }
            if let Some(buffer) = reading.buffer {
                self.stats.buffer_level_bytes = buffer.level_bytes;
                self.stats.buffer_capacity_bytes = buffer.capacity_bytes;
                self.stats.is_buffering = buffer.is_buffering;
                self.stats.underrun_count = buffer.underrun_count;
            }
            actions.push(EngineAction::PublishStats);
        }
        proof {
            let input = EngineInput::StreamRead { reading, now };
            assert(action_views(actions@) =~= engine_step(old(self)@, input).1);
        }
        actions
    }

    /// The buffer of the current stream was looked at. `percent` is its fill level.
    ///
    /// When buffering starts, the stall timer starts anew: a grace period for brief rebuffering.
    pub fn on_buffer_checked(
        &mut self,
        sink_empty: bool,
        buffer: Option<BufferStatus>,
        percent: u8,
        now: u128,
    ) -> (actions: Vec<EngineAction>)
        ensures
            (final(self)@, action_views(actions@)) == engine_step(
                old(self)@,
                EngineInput::BufferChecked { sink_empty, buffer, percent, now },
            ),
    {
        let mut actions: Vec<EngineAction> = Vec::new();
        if self.state == PlaybackState::Playing && !sink_empty {
            if let Some(status) = buffer {
                if status.is_buffering != self.was_buffering {
                    let reported: u8 = if !status.is_buffering {
                        100
                    } else if status.capacity_bytes > 0 {
                        percent
                    } else {
                        0
                    };
                    actions.push(EngineAction::Emit(AudioEvent::Buffering(reported)));
                    self.was_buffering = status.is_buffering;
                    if status.is_buffering {
                        if let Some(health) = self.health {
                            let mut restarted: HealthTracker = health;
                            restarted.reset(now);
                            self.health = Some(restarted);
                        }
                    }
                }
            }
        }
        proof {
            let input = EngineInput::BufferChecked { sink_empty, buffer, percent, now };
            assert(action_views(actions@) =~= engine_step(old(self)@, input).1);
        }
        actions
    }

    /// The analysed samples were counted: the health of the current stream is judged.
    ///
    /// A stall is reported and the stream kept; a stream that never produced audio is torn down.
    pub fn on_samples_counted(&mut self, count: u64, now: u128) -> (actions: Vec<EngineAction>)
        ensures
            (final(self)@, action_views(actions@)) == engine_step(
                old(self)@,
                EngineInput::SamplesCounted { count, now },
            ),
    {
        let mut actions: Vec<EngineAction> = Vec::new();
        if self.state == PlaybackState::Playing {
            if let Some(health) = self.health {
                let mut next: HealthTracker = health;
                let failure: Option<FailureReason> = next.update(count, now);
                self.health = Some(next);
                proof {
                    law_reported_failures(health, count, now);
                }
                match failure {
                    Some(FailureReason::StreamStall) => {
                        actions.push(EngineAction::Emit(AudioEvent::StreamStalled));
                    },
                    Some(FailureReason::NoAudioOutput) => {
                        actions.push(EngineAction::Emit(AudioEvent::NoAudioTimeout));
                        if self.has_producer {
                            actions.push(EngineAction::StopProducer);
                        }
                        actions.push(EngineAction::StopSink);
                        actions.push(EngineAction::ResetAnalysis);
                        self.end_playback(&mut actions);
                    },
                    _ => {},
                }
            }
        }
        proof {
            let input = EngineInput::SamplesCounted { count, now };
            assert(action_views(actions@) =~= engine_step(old(self)@, input).1);
        }
        actions
    }
}

/// The engine before anything happened.
pub open spec fn idle_engine(now: u128) -> EngineView {
    EngineView {
        state: PlaybackState::Stopped,
        health: None,
        counts_bytes: false,
        has_producer: false,
        was_buffering: false,
        last_bytes: 0,
        last_measured: now,
        pending: None,
        stats: idle_stats(),
        running: true,
    }
}

/// The engine after a series of inputs.
pub open spec fn engine_run(s: EngineView, inputs: Seq<EngineInput>) -> EngineView
    decreases inputs.len(),
{
    if inputs.len() == 0 {
        s
    } else {
        engine_step(engine_run(s, inputs.drop_last()), inputs.last()).0
    }
}

/// What holds of the engine at any time: a stream that plays or is paused is watched, as is any
/// stream with a producer or a byte counter, and the statistics of a stopped engine are those of
/// no stream, but for the mark of a probe that failed.
pub open spec fn engine_ok(s: EngineView) -> bool {
    &&& s.state != PlaybackState::Stopped ==> s.health is Some
    &&& s.has_producer ==> s.health is Some
    &&& s.counts_bytes ==> s.health is Some
    &&& s.state == PlaybackState::Stopped ==> s.stats == idle_stats() || s.stats
        == failed_probe_stats()
}

/// Every series of inputs leaves the engine in order.
pub proof fn law_engine_stays_in_order(s: EngineView, inputs: Seq<EngineInput>)
    requires
        engine_ok(s),
    ensures
        engine_ok(engine_run(s, inputs)),
        forall|now: u128| engine_ok(#[trigger] idle_engine(now)),
    decreases inputs.len(),
{
    if inputs.len() > 0 {
        law_engine_stays_in_order(s, inputs.drop_last());
    }
}

/// The input ends a probe without a result.
pub open spec fn ends_probe(s: EngineView, input: EngineInput) -> bool {
    match input {
        EngineInput::ProbeStarted { error, .. } => error is Some,
        EngineInput::ProbeFailed { .. } => s.pending is Some,
        EngineInput::ProbeGone => s.pending is Some,
        EngineInput::ProbeRunning { now } => s.pending matches Some(pending) && time_since(
            pending.started,
            now,
        ) >= PROBE_TIMEOUT_SECS * 1_000_000_000,
        _ => false,
    }
}

/// The owner and the subscribers are told that playback stopped exactly when it does: when an
/// engine that was not stopped becomes so, other than by a probe that failed, which is told as an
/// error.
#[verifier::spinoff_prover]
#[verifier::rlimit(60)]
pub proof fn law_stop_is_announced_once(s: EngineView, input: EngineInput)
    ensures
        ({
            let (next, actions) = engine_step(s, input);
            let ends = s.state != PlaybackState::Stopped && next.state == PlaybackState::Stopped
                && !ends_probe(s, input);
            &&& actions.contains(EngineActionView::Emit(AudioEventView::Stopped)) <==> ends
            &&& actions.contains(
                EngineActionView::Broadcast(StreamEventView::PlaybackStopped),
            ) <==> ends
        }),
{
    broadcast use {
        vstd::seq_lib::lemma_seq_empty_contains_nothing,
        vstd::seq_lib::lemma_seq_concat_contains_all_elements,
        vstd::seq_lib::lemma_seq_contains_after_push,
    };

}

/// Playback starts exactly when a pending probe succeeds, and both the owner and the subscribers
/// are told of it with the same codec information.
#[verifier::spinoff_prover]
#[verifier::rlimit(60)]
pub proof fn law_start_is_announced(s: EngineView, input: EngineInput, info: CodecInfoView)
    ensures
        ({
            let (next, actions) = engine_step(s, input);
            let starts = s.pending matches Some(pending) && input matches EngineInput::ProbeReady {
                codec,
                ..
            } && info == (CodecInfoView { bitrate: pending.bitrate, ..codec });
            &&& actions.contains(EngineActionView::Emit(AudioEventView::Playing(info))) <==> starts
            &&& actions.contains(
                EngineActionView::Broadcast(
                    StreamEventView::PlaybackStarted {
                        codec_info: info,
                        stream_url: Seq::empty(),
                    },
                ),
            ) <==> starts
        }),
{
    broadcast use {
        vstd::seq_lib::lemma_seq_empty_contains_nothing,
        vstd::seq_lib::lemma_seq_concat_contains_all_elements,
        vstd::seq_lib::lemma_seq_contains_after_push,
    };

}

/// Every error goes both to the owner of the engine and to all subscribers.
#[verifier::spinoff_prover]
#[verifier::rlimit(60)]
pub proof fn law_errors_reach_everyone(s: EngineView, input: EngineInput, text: Seq<char>)
    ensures
        engine_step(s, input).1.contains(EngineActionView::Emit(AudioEventView::Error(text)))
            <==> engine_step(s, input).1.contains(
            EngineActionView::Broadcast(StreamEventView::Error(text)),
        ),
{
    broadcast use {
        vstd::seq_lib::lemma_seq_empty_contains_nothing,
        vstd::seq_lib::lemma_seq_concat_contains_all_elements,
        vstd::seq_lib::lemma_seq_contains_after_push,
    };

}

/// Statistics that change are published.
#[verifier::spinoff_prover]
#[verifier::rlimit(60)]
pub proof fn law_changed_stats_are_published(s: EngineView, input: EngineInput)
    requires
        engine_step(s, input).0.stats != s.stats,
    ensures
        engine_step(s, input).1.contains(EngineActionView::PublishStats),
{
    broadcast use {
        vstd::seq_lib::lemma_seq_empty_contains_nothing,
        vstd::seq_lib::lemma_seq_concat_contains_all_elements,
        vstd::seq_lib::lemma_seq_contains_after_push,
    };

}

/// A second stop finds nothing to announce.
pub proof fn law_second_stop_is_silent(s: EngineView)
    ensures
        ({
            let once = engine_step(s, EngineInput::Stop).0;
            engine_step(once, EngineInput::Stop) == (
                once,
                seq![EngineActionView::StopSink, EngineActionView::ResetAnalysis],
            )
        }),
{
    let once = engine_step(s, EngineInput::Stop).0;
    assert(engine_step(once, EngineInput::Stop).1 =~= seq![
        EngineActionView::StopSink,
        EngineActionView::ResetAnalysis,
    ]);
}

/// Resuming undoes a pause, and each of the two does nothing where it does not apply.
pub proof fn law_resume_undoes_pause(s: EngineView)
    ensures
        s.state == PlaybackState::Playing ==> engine_step(
            engine_step(s, EngineInput::Pause).0,
            EngineInput::Resume,
        ).0 == s,
        s.state != PlaybackState::Playing ==> engine_step(s, EngineInput::Pause) == (
            s,
            Seq::<EngineActionView>::empty(),
        ),
        s.state != PlaybackState::Paused ==> engine_step(s, EngineInput::Resume) == (
            s,
            Seq::<EngineActionView>::empty(),
        ),
{
}

/// A stopped or paused stream is neither measured nor judged: no look at it does anything.
pub proof fn law_only_playing_is_watched(s: EngineView, input: EngineInput)
    requires
        s.state != PlaybackState::Playing,
        input is SinkChecked || input is StreamRead || input is BufferChecked
            || input is SamplesCounted,
    ensures
        engine_step(s, input) == (s, Seq::<EngineActionView>::empty()),
{
}

/// A stall is reported without any change to playback, statistics or the stream's resources.
pub proof fn law_stall_keeps_the_stream(s: EngineView, count: u64, now: u128)
    requires
        s.state == PlaybackState::Playing,
        s.health matches Some(health) && health_step(health, count, now).1 == Some(
            FailureReason::StreamStall,
        ),
    ensures
        ({
            let (next, actions) = engine_step(s, EngineInput::SamplesCounted { count, now });
            &&& actions == seq![EngineActionView::Emit(AudioEventView::StreamStalled)]
            &&& next == (EngineView { health: next.health, ..s })
        }),
{
}

/// Whenever the sink is started, or playback is announced or said to be resumed, the engine plays;
/// whenever the sink is paused, or a pause is announced, it is paused; whenever the end of playback
/// is announced, it is stopped. Nothing else starts or pauses it, whatever the state before.
pub proof fn law_sink_agrees_with_the_state(s: EngineView, input: EngineInput)
    ensures
        ({
            let (next, actions) = engine_step(s, input);
            let plays = actions.contains(EngineActionView::PlaySink);
            let pauses = actions.contains(EngineActionView::PauseSink);
            &&& plays ==> next.state == PlaybackState::Playing && !pauses
            &&& pauses ==> next.state == PlaybackState::Paused
            &&& next.state == PlaybackState::Playing && s.state != PlaybackState::Playing ==> plays
            &&& next.state == PlaybackState::Paused && s.state != PlaybackState::Paused ==> pauses
            &&& forall|info: CodecInfoView|
                #[trigger] actions.contains(EngineActionView::Emit(AudioEventView::Playing(info)))
                    ==> next.state == PlaybackState::Playing && plays
            &&& actions.contains(EngineActionView::Emit(AudioEventView::Resumed)) ==> next.state
                == PlaybackState::Playing && plays
            &&& actions.contains(EngineActionView::Emit(AudioEventView::Paused)) <==> pauses
            &&& actions.contains(EngineActionView::Emit(AudioEventView::Stopped)) ==> next.state
                == PlaybackState::Stopped
        }),
{
    lemma_when_it_acts(s, input, EngineActionView::PlaySink);
    lemma_when_it_acts(s, input, EngineActionView::PauseSink);
    lemma_when_it_acts(s, input, EngineActionView::Emit(AudioEventView::Resumed));
    lemma_when_it_acts(s, input, EngineActionView::Emit(AudioEventView::Paused));
    law_stop_is_announced_once(s, input);
    assert forall|info: CodecInfoView|
        #[trigger] engine_step(s, input).1.contains(
            EngineActionView::Emit(AudioEventView::Playing(info)),
        ) implies s.pending is Some && input is ProbeReady by {
        law_start_is_announced(s, input, info);
    }
}

/// When the engine does one of its plain actions.
#[verifier::spinoff_prover]
#[verifier::rlimit(60)]
proof fn lemma_when_it_acts(s: EngineView, input: EngineInput, action: EngineActionView)
    ensures
        ({
            let acts = engine_step(s, input).1.contains(action);
            let starts = input is ProbeReady && s.pending is Some;
            let resumes = input is Resume && s.state == PlaybackState::Paused;
            let pauses = input is Pause && s.state == PlaybackState::Playing;
            let silences = input is Play || input is Stop || input is Shutdown;
            let stops = engine_step(s, input).0.state == PlaybackState::Stopped && s.state
                == PlaybackState::Playing && (input is SinkChecked || input is SamplesCounted);
            &&& action == EngineActionView::PlaySink ==> (acts <==> starts || resumes)
            &&& action == EngineActionView::PauseSink ==> (acts <==> pauses)
            &&& action == EngineActionView::Emit(AudioEventView::Resumed) ==> (acts <==> resumes)
            &&& action == EngineActionView::Emit(AudioEventView::Paused) ==> (acts <==> pauses)
            &&& action == EngineActionView::AdoptPending ==> (acts <==> starts)
            &&& action == EngineActionView::StopProducer ==> (acts <==> s.has_producer && (silences
                || stops))
            &&& action == EngineActionView::StopPending ==> (acts <==> silences && s.pending is Some
                || ends_probe(s, input))
        }),
{
    broadcast use {
        vstd::seq_lib::lemma_seq_empty_contains_nothing,
        vstd::seq_lib::lemma_seq_concat_contains_all_elements,
        vstd::seq_lib::lemma_seq_contains_after_push,
    };

}

/// What plays can be paused, what is paused resumed, and both are told to the owner and done to
/// the sink, in that they are the whole of what happens.
pub proof fn law_pause_and_resume(s: EngineView)
    ensures
        s.state == PlaybackState::Playing ==> ({
            let (next, actions) = engine_step(s, EngineInput::Pause);
            &&& next.state == PlaybackState::Paused
            &&& actions == seq![
                EngineActionView::PauseSink,
                EngineActionView::Emit(AudioEventView::Paused),
            ]
        }),
        s.state == PlaybackState::Paused ==> ({
            let (next, actions) = engine_step(s, EngineInput::Resume);
            &&& next.state == PlaybackState::Playing
            &&& actions == seq![
                EngineActionView::PlaySink,
                EngineActionView::Emit(AudioEventView::Resumed),
            ]
        }),
{
}

/// Every producer that the engine holds is stopped when the engine lets go of it, and no other is:
/// that of the current stream, and that of a stream that is being probed, unless that stream
/// becomes the current one.
pub proof fn law_producers_are_stopped(s: EngineView, input: EngineInput)
    requires
        !(input is ProbeStarted),
    ensures
        ({
            let (next, actions) = engine_step(s, input);
            let stops = actions.contains(EngineActionView::StopProducer);
            let drops = actions.contains(EngineActionView::StopPending);
            let adopts = actions.contains(EngineActionView::AdoptPending);
            &&& stops ==> s.has_producer
            &&& s.has_producer && !next.has_producer ==> stops
            &&& drops ==> s.pending is Some
            &&& adopts ==> s.pending is Some && next.pending is None && next.has_producer && !drops
            &&& s.pending is Some && next.pending is None ==> drops != adopts
            &&& s.pending is Some && next.pending is Some ==> next.pending == s.pending
            &&& s.pending is None ==> next.pending is None
        }),
{
    lemma_when_it_acts(s, input, EngineActionView::StopProducer);
    lemma_when_it_acts(s, input, EngineActionView::StopPending);
    lemma_when_it_acts(s, input, EngineActionView::AdoptPending);
}

/// A command to play silences whatever plays or is about to, before the new stream is probed, and
/// leaves nothing of a stream that was still being probed.
#[verifier::spinoff_prover]
#[verifier::rlimit(60)]
pub proof fn law_play_silences_what_was(s: EngineView)
    ensures
        ({
            let (next, actions) = engine_step(s, EngineInput::Play);
            let n = actions.len() as int;
            &&& n >= 3
            &&& actions[n - 1] == EngineActionView::StartProbe
            &&& actions[n - 2] == EngineActionView::ResetAnalysis
            &&& actions[n - 3] == EngineActionView::StopSink
            &&& actions.contains(EngineActionView::StopProducer) <==> s.has_producer
            &&& actions.contains(EngineActionView::StopPending) <==> s.pending is Some
            &&& next == (EngineView { pending: None, has_producer: false, ..s })
        }),
{
    broadcast use {
        vstd::seq_lib::lemma_seq_empty_contains_nothing,
        vstd::seq_lib::lemma_seq_concat_contains_all_elements,
        vstd::seq_lib::lemma_seq_contains_after_push,
    };

}

/// A probe that was started is remembered with its time and what is known of its stream; one that
/// could not be is given up.
pub proof fn law_probe_is_remembered(
    s: EngineView,
    bitrate: Option<u32>,
    counts_bytes: bool,
    now: u128,
    text: Seq<char>,
)
    ensures
        engine_step(
            s,
            EngineInput::ProbeStarted { error: None, bitrate, counts_bytes, now },
        ) == (
            EngineView {
                pending: Some(PendingProbe { bitrate, counts_bytes, started: now }),
                ..s
            },
            Seq::<EngineActionView>::empty(),
        ),
        ({
            let (next, actions) = engine_step(
                s,
                EngineInput::ProbeStarted { error: Some(text), bitrate, counts_bytes, now },
            );
            &&& next.state == PlaybackState::Stopped
            &&& next.pending is None
            &&& actions == seq![
                EngineActionView::StopPending,
                EngineActionView::PublishStats,
                EngineActionView::Emit(AudioEventView::Error("Decode error: "@ + text)),
                EngineActionView::Broadcast(StreamEventView::Error("Decode error: "@ + text)),
            ]
        }),
{
    let actions = engine_step(
        s,
        EngineInput::ProbeStarted { error: Some(text), bitrate, counts_bytes, now },
    ).1;
    assert(actions =~= seq![
        EngineActionView::StopPending,
        EngineActionView::PublishStats,
        EngineActionView::Emit(AudioEventView::Error("Decode error: "@ + text)),
        EngineActionView::Broadcast(StreamEventView::Error("Decode error: "@ + text)),
    ]);
}

/// A stream starts afresh, whatever played before: it plays, is watched from now on with fifteen
/// seconds for its first samples and five without any later, counts its bytes from zero, if it
/// does, and has statistics of its own. Its source is handed to the sink before the sink is
/// started, and its start is announced last.
pub proof fn law_stream_starts_afresh(
    s: EngineView,
    pending: PendingProbe,
    codec: CodecInfoView,
    now: u128,
    at: Instant,
)
    requires
        s.pending == Some(pending),
    ensures
        ({
            let (next, actions) = engine_step(s, EngineInput::ProbeReady { codec, now, at });
            &&& next.state == PlaybackState::Playing
            &&& next.pending is None
            &&& next.has_producer
            &&& next.counts_bytes == pending.counts_bytes
            &&& !next.was_buffering
            &&& next.last_bytes == 0
            &&& next.last_measured == now
            &&& next.running == s.running
            &&& next.health matches Some(health) && health.state is WaitingForAudio
                && health.last_sample_count == 0 && health.timer_started == now
                && health.no_audio_timeout == 15_000_000_000 && health.stall_timeout
                == 5_000_000_000
            &&& next.stats.codec_info matches Some(info) && info.codec_name == codec.codec_name
                && info.channels == codec.channels && info.sample_rate == codec.sample_rate
                && info.bits_per_sample == codec.bits_per_sample && info.bitrate == pending.bitrate
            &&& next.stats.play_started_at == Some(at)
            &&& next.stats.frames_played == 0
            &&& next.stats.decode_errors == 0
            &&& next.stats.bytes_received == 0
            &&& next.stats.sample_count == 0
            &&& next.stats.throughput.bytes == 0
            &&& next.stats.throughput.nanos == 0
            &&& next.stats.health_state is WaitingForAudio
            &&& actions.len() == 7
            &&& actions[0] == EngineActionView::AdoptPending
            &&& actions[1] == EngineActionView::AppendSource
            &&& actions[2] == EngineActionView::ApplyVolume
            &&& actions[3] == EngineActionView::PlaySink
            &&& actions[4] == EngineActionView::PublishStats
            &&& actions[5] is Broadcast
            &&& actions[6] is Emit
        }),
{
}

/// A probe that has run for ten seconds is given up, and not earlier; one that fails or is gone is
/// given up at once. The error is told, of a timeout as such, the statistics show it, and the
/// engine is stopped.
#[verifier::spinoff_prover]
#[verifier::rlimit(60)]
pub proof fn law_probes_are_given_up(s: EngineView, pending: PendingProbe, now: u128, m: Seq<char>)
    requires
        s.pending == Some(pending),
    ensures
        ({
            let (next, actions) = engine_step(s, EngineInput::ProbeRunning { now });
            let late = now - pending.started >= 10 * 1_000_000_000;
            &&& late <==> next.pending is None
            &&& late <==> actions.contains(EngineActionView::Emit(AudioEventView::ProbeTimeout))
            &&& late <==> actions.contains(EngineActionView::StopPending)
            &&& late ==> next.state == PlaybackState::Stopped && next.stats.health_state
                == HealthState::Failed(FailureReason::ProbeFailed)
            &&& late ==> actions.contains(
                EngineActionView::Emit(
                    AudioEventView::Error(
                        "Unable to detect audio format (timed out after "@ + decimal_of(10) + "s)"@,
                    ),
                ),
            )
            &&& !late ==> next == s && actions.len() == 0
        }),
        ({
            let (next, actions) = engine_step(s, EngineInput::ProbeFailed { message: m });
            &&& next.pending is None
            &&& next.state == PlaybackState::Stopped
            &&& next.stats.health_state == HealthState::Failed(FailureReason::ProbeFailed)
            &&& actions.contains(
                EngineActionView::Emit(AudioEventView::Error("Decode error: "@ + m)),
            )
            &&& !actions.contains(EngineActionView::Emit(AudioEventView::ProbeTimeout))
        }),
        ({
            let (next, actions) = engine_step(s, EngineInput::ProbeGone);
            &&& next.pending is None
            &&& next.state == PlaybackState::Stopped
            &&& next.stats.health_state == HealthState::Failed(FailureReason::ProbeFailed)
            &&& actions.contains(
                EngineActionView::Emit(AudioEventView::Error("Probe thread panicked"@)),
            )
            &&& !actions.contains(EngineActionView::Emit(AudioEventView::ProbeTimeout))
        }),
{
    broadcast use {
        vstd::seq_lib::lemma_seq_empty_contains_nothing,
        vstd::seq_lib::lemma_seq_concat_contains_all_elements,
        vstd::seq_lib::lemma_seq_contains_after_push,
    };

}

/// A stop ends everything: the sink, the producers, the current stream and the one that was being
/// probed. What played is announced to have stopped, and its statistics are cleared.
#[verifier::spinoff_prover]
#[verifier::rlimit(60)]
pub proof fn law_stop_ends_everything(s: EngineView)
    ensures
        ({
            let (next, actions) = engine_step(s, EngineInput::Stop);
            &&& next.state == PlaybackState::Stopped
            &&& next.pending is None
            &&& next.health is None
            &&& !next.has_producer
            &&& !next.counts_bytes
            &&& next.running == s.running
            &&& actions.contains(EngineActionView::StopSink)
            &&& actions.contains(EngineActionView::ResetAnalysis)
            &&& s.state != PlaybackState::Stopped ==> next.stats == idle_stats()
                && actions.last() == EngineActionView::Emit(AudioEventView::Stopped)
        }),
        ({
            let (next, actions) = engine_step(s, EngineInput::Shutdown);
            &&& !next.running
            &&& next.pending is None
            &&& actions.contains(EngineActionView::StopSink)
            &&& actions.contains(EngineActionView::StopProducer) <==> s.has_producer
            &&& actions.contains(EngineActionView::StopPending) <==> s.pending is Some
        }),
        !engine_step(s, EngineInput::Disconnected).0.running,
        forall|input: EngineInput|
            !(input is Shutdown) && !(input is Disconnected) ==> (#[trigger] engine_step(
                s,
                input,
            )).0.running == s.running,
{
    broadcast use {
        vstd::seq_lib::lemma_seq_empty_contains_nothing,
        vstd::seq_lib::lemma_seq_concat_contains_all_elements,
        vstd::seq_lib::lemma_seq_contains_after_push,
    };

}

/// A stream whose sink has run empty is over, and only then: its error, if it left one, is told
/// before the end is announced, and nothing is left of it.
#[verifier::spinoff_prover]
#[verifier::rlimit(60)]
pub proof fn law_empty_sink_ends_the_stream(s: EngineView, empty: bool, error: Option<Seq<char>>)
    requires
        s.state == PlaybackState::Playing,
    ensures
        ({
            let (next, actions) = engine_step(s, EngineInput::SinkChecked { empty, error });
            let n = actions.len() as int;
            &&& !empty ==> next == s && n == 0
            &&& empty ==> next.state == PlaybackState::Stopped && next.health is None
                && !next.has_producer && next.stats == idle_stats() && next.pending == s.pending
            &&& empty ==> n >= 4 && actions[n - 1] == EngineActionView::Emit(
                AudioEventView::Stopped,
            ) && actions[n - 2] == EngineActionView::Broadcast(StreamEventView::PlaybackStopped)
                && actions[n - 3] == EngineActionView::PublishStats
            &&& empty ==> actions.contains(EngineActionView::ResetAnalysis)
            &&& forall|text: Seq<char>|
                #[trigger] actions.contains(EngineActionView::Emit(AudioEventView::Error(text)))
                    <==> empty && (error matches Some(e) && text == "Stream error: "@ + e)
        }),
{
    broadcast use {
        vstd::seq_lib::lemma_seq_empty_contains_nothing,
        vstd::seq_lib::lemma_seq_concat_contains_all_elements,
        vstd::seq_lib::lemma_seq_contains_after_push,
    };

}

/// On each tick the statistics show what was read: the decoder's counters, the samples and the
/// buffer where they could be read, the health, and the bytes of a stream that counts them. The
/// throughput is what came in since it was last measured, a second ago or more.
pub proof fn law_statistics_show_what_was_read(s: EngineView, reading: StreamReading, now: u128)
    requires
        s.state == PlaybackState::Playing,
    ensures
        ({
            let (next, actions) = engine_step(s, EngineInput::StreamRead { reading, now });
            let was = s.stats;
            let stats = next.stats;
            let due = s.counts_bytes && now - s.last_measured >= 1_000_000_000;
            &&& actions == seq![EngineActionView::PublishStats]
            &&& next.state == s.state && next.health == s.health && next.pending == s.pending
                && next.has_producer == s.has_producer && next.counts_bytes == s.counts_bytes
                && next.was_buffering == s.was_buffering && next.running == s.running
            &&& stats.frames_played == reading.decoder.0
            &&& stats.decode_errors == reading.decoder.1
            &&& s.counts_bytes ==> stats.bytes_received == reading.bytes_received
            &&& !s.counts_bytes ==> stats.bytes_received == was.bytes_received
            &&& reading.sample_count matches Some(n) ==> stats.sample_count == n
            &&& reading.sample_count is None ==> stats.sample_count == was.sample_count
            &&& s.health matches Some(health) ==> stats.health_state == health.state
            &&& reading.buffer matches Some(b) ==> stats.buffer_level_bytes == b.level_bytes
                && stats.buffer_capacity_bytes == b.capacity_bytes && stats.is_buffering
                == b.is_buffering && stats.underrun_count == b.underrun_count
            &&& reading.buffer is None ==> stats.buffer_level_bytes == was.buffer_level_bytes
                && stats.buffer_capacity_bytes == was.buffer_capacity_bytes && stats.is_buffering
                == was.is_buffering && stats.underrun_count == was.underrun_count
            &&& due ==> next.last_bytes == reading.bytes_received && next.last_measured == now
                && stats.throughput.nanos == now - s.last_measured
            &&& due && reading.bytes_received >= s.last_bytes ==> stats.throughput.bytes
                == reading.bytes_received - s.last_bytes
            &&& due && reading.bytes_received < s.last_bytes ==> stats.throughput.bytes == 0
            &&& !due ==> next.last_bytes == s.last_bytes && next.last_measured == s.last_measured
                && stats.throughput == was.throughput
            &&& stats.codec_info == was.codec_info && stats.play_started_at == was.play_started_at
                && stats.stream_url == was.stream_url && stats.stream_type == was.stream_type
                && stats.segments_downloaded == was.segments_downloaded
        }),
{
}

/// Buffering is reported when it starts, with the fill level, and when it ends, as a hundred, and
/// not in between. When it starts the stall timer starts anew; nothing else of the engine changes.
pub proof fn law_buffering_is_reported(
    s: EngineView,
    sink_empty: bool,
    status: BufferStatus,
    percent: u8,
    now: u128,
)
    requires
        s.state == PlaybackState::Playing,
    ensures
        ({
            let (next, actions) = engine_step(
                s,
                EngineInput::BufferChecked { sink_empty, buffer: Some(status), percent, now },
            );
            let starts = !sink_empty && status.is_buffering && !s.was_buffering;
            let ends = !sink_empty && !status.is_buffering && s.was_buffering;
            &&& starts && status.capacity_bytes > 0 ==> actions == seq![
                EngineActionView::Emit(AudioEventView::Buffering(percent)),
            ]
            &&& starts && status.capacity_bytes == 0 ==> actions == seq![
                EngineActionView::Emit(AudioEventView::Buffering(0)),
            ]
            &&& ends ==> actions == seq![EngineActionView::Emit(AudioEventView::Buffering(100))]
            &&& !starts && !ends ==> actions.len() == 0 && next == s
            &&& next == (EngineView { was_buffering: next.was_buffering, health: next.health, ..s })
            &&& starts || ends ==> next.was_buffering == status.is_buffering
            &&& starts && s.health is Some ==> (next.health matches Some(h) && h == (HealthTracker {
                timer_started: now,
                ..s.health->Some_0
            }))
            &&& !starts ==> next.health == s.health
        }),
        engine_step(
            s,
            EngineInput::BufferChecked { sink_empty, buffer: None, percent, now },
        ) == (s, Seq::<EngineActionView>::empty()),
{
}

/// A stream that plays is torn down where no sample ever came within its time, and only then; what
/// is observed of it is remembered otherwise.
#[verifier::spinoff_prover]
#[verifier::rlimit(60)]
pub proof fn law_silent_stream_is_torn_down(
    s: EngineView,
    health: HealthTracker,
    count: u64,
    now: u128,
)
    requires
        s.state == PlaybackState::Playing,
        s.health == Some(health),
    ensures
        ({
            let (next, actions) = engine_step(s, EngineInput::SamplesCounted { count, now });
            let silent = health.state is WaitingForAudio && count <= health.last_sample_count
                && time_since(health.timer_started, now) >= health.no_audio_timeout;
            let n = actions.len() as int;
            &&& silent <==> next.state == PlaybackState::Stopped
            &&& silent <==> actions.contains(EngineActionView::Emit(AudioEventView::NoAudioTimeout))
            &&& silent <==> actions.contains(EngineActionView::StopSink)
            &&& silent ==> next.health is None && !next.has_producer && next.stats == idle_stats()
                && actions[0] == EngineActionView::Emit(AudioEventView::NoAudioTimeout)
                && actions.contains(EngineActionView::ResetAnalysis) && actions[n - 1]
                == EngineActionView::Emit(AudioEventView::Stopped)
            &&& !silent ==> next == (EngineView {
                health: Some(health_step(health, count, now).0),
                ..s
            })
        }),
{
    broadcast use {
        vstd::seq_lib::lemma_seq_empty_contains_nothing,
        vstd::seq_lib::lemma_seq_concat_contains_all_elements,
        vstd::seq_lib::lemma_seq_contains_after_push,
    };

}

/// An engine begins stopped, with nothing to play, nothing to watch and empty statistics, and runs.
pub proof fn law_engine_begins_idle(now: u128)
    ensures
        ({
            let s = idle_engine(now);
            &&& s.state == PlaybackState::Stopped
            &&& s.health is None
            &&& s.pending is None
            &&& !s.has_producer
            &&& !s.counts_bytes
            &&& !s.was_buffering
            &&& s.last_bytes == 0
            &&& s.last_measured == now
            &&& s.running
            &&& s.stats == idle_stats()
        }),
{
}

/// Nothing that is heard of a probe has an effect where none is pending.
pub proof fn law_no_probe_no_effect(s: EngineView, input: EngineInput)
    requires
        s.pending is None,
        input is ProbeReady || input is ProbeFailed || input is ProbeRunning || input is ProbeGone,
    ensures
        engine_step(s, input) == (s, Seq::<EngineActionView>::empty()),
{
}

/// What a step leaves as it was: the end of a stream touches neither a probe nor the measurements,
/// the end of a probe nothing of a current stream but its state and the statistics, and a pause or
/// its end nothing but the state.
pub proof fn law_what_steps_leave_alone(s: EngineView, input: EngineInput)
    ensures
        ({
            let next = engine_step(s, input).0;
            &&& input is Pause || input is Resume ==> next == (EngineView {
                state: next.state,
                ..s
            })
            &&& input is Stop ==> next == (EngineView {
                state: next.state,
                health: next.health,
                counts_bytes: next.counts_bytes,
                has_producer: next.has_producer,
                pending: next.pending,
                stats: next.stats,
                ..s
            }) && (s.state == PlaybackState::Stopped ==> next.stats == s.stats)
            &&& input is Shutdown ==> next == (EngineView { pending: None, running: false, ..s })
            &&& input is Disconnected ==> next == (EngineView { running: false, ..s })
            &&& input is SinkChecked || input is SamplesCounted ==> next == (EngineView {
                state: next.state,
                health: next.health,
                counts_bytes: next.counts_bytes,
                has_producer: next.has_producer,
                stats: next.stats,
                ..s
            }) && (next.state != s.state ==> !next.counts_bytes) && (next.state == s.state
                ==> next.stats == s.stats && next.has_producer == s.has_producer
                && next.counts_bytes == s.counts_bytes)
            &&& ends_probe(s, input) ==> next == (EngineView {
                state: PlaybackState::Stopped,
                pending: None,
                stats: next.stats,
                ..s
            }) && next.stats == (StreamStatsView {
                health_state: HealthState::Failed(FailureReason::ProbeFailed),
                ..idle_stats()
            })
        }),
        engine_step(s, EngineInput::Disconnected).1.len() == 0,
{
}

/// The input ends a probe where it says that the probe could not be started, failed, is gone or has
/// run for ten seconds.
pub proof fn law_what_ends_a_probe(s: EngineView, pending: PendingProbe, now: u128)
    requires
        s.pending == Some(pending),
    ensures
        ends_probe(s, EngineInput::ProbeRunning { now }) <==> now - pending.started
            >= 10_000_000_000,
        ends_probe(s, EngineInput::ProbeGone),
        forall|message: Seq<char>| #[trigger]
            ends_probe(s, EngineInput::ProbeFailed { message }),
        forall|input: EngineInput|
            input is Play || input is Stop || input is Pause || input is Resume || input is Shutdown
                || input is Disconnected || input is ProbeReady || input is SinkChecked
                || input is StreamRead || input is BufferChecked || input is SamplesCounted
                ==> !#[trigger] ends_probe(s, input),
{
}

/// A list of actions says what each of them says, in order.
pub proof fn law_actions_say(actions: Seq<EngineAction>, i: int)
    requires
        0 <= i < actions.len(),
    ensures
        action_views(actions).len() == actions.len(),
        action_views(actions)[i] == actions[i]@,
{
}

/// The engine is what its fields hold.
pub proof fn law_engine_says(e: EngineCore)
    ensures
        e@.state == e.state,
        e@.health == e.health,
        e@.counts_bytes == e.counts_bytes,
        e@.has_producer == e.has_producer,
        e@.was_buffering == e.was_buffering,
        e@.last_bytes == e.last_bytes,
        e@.last_measured == e.last_measured,
        e@.pending == e.pending,
        e@.running == e.running,
        e@.stats == e.stats@,
{
}

} // verus!
