//! Stream statistics and event broadcasting
//!
//! `StreamStats` is a snapshot of all stream metrics, polled by the UI.
//! `EventBus` broadcasts discrete `StreamEvent`s to subscribers.
//! `DecoderStats` counts what the decode path does.

use crossbeam_channel::{unbounded, Receiver, Sender};
use std::time::Instant;

use vstd::prelude::*;

use crate::audio::health::HealthState;
use crate::audio::types::{CodecInfo, CodecInfoView};
use crate::stream::types::StreamType;

verus! {

/// Bytes received over a span of time.
#[derive(Debug, Clone, Copy, PartialEq, Eq, Structural)]
pub struct Throughput {
    /// How many bytes came in.
    pub bytes: u64,
    /// In how many nanoseconds; zero before the first measurement.
    pub nanos: u128,
}

/// Snapshot of all stream statistics, updated by the engine on its 500ms tick.
#[derive(Debug)]
pub struct StreamStats {
    pub codec_info: Option<CodecInfo>,
    pub stream_type: Option<StreamType>,
    pub stream_url: String,
    pub frames_played: u64,
    pub decode_errors: u64,
    pub bytes_received: u64,
    pub segments_downloaded: u64,
    pub sample_count: u64,
    pub health_state: HealthState,
    pub buffer_level_bytes: usize,
    pub buffer_capacity_bytes: usize,
    pub is_buffering: bool,
    pub throughput: Throughput,
    pub underrun_count: u32,
    pub play_started_at: Option<Instant>,
}

/// What a `StreamStats` says.
pub struct StreamStatsView {
    pub codec_info: Option<CodecInfoView>,
    pub stream_type: Option<StreamType>,
    pub stream_url: Seq<char>,
    pub frames_played: u64,
    pub decode_errors: u64,
    pub bytes_received: u64,
    pub segments_downloaded: u64,
    pub sample_count: u64,
    pub health_state: HealthState,
    pub buffer_level_bytes: usize,
    pub buffer_capacity_bytes: usize,
    pub is_buffering: bool,
    pub throughput: Throughput,
    pub underrun_count: u32,
    pub play_started_at: Option<Instant>,
}

/// What an optional `CodecInfo` says.
pub open spec fn opt_codec(c: Option<CodecInfo>) -> Option<CodecInfoView> {
    match c {
        Some(c) => Some(c@),
        None => None,
    }
}

impl View for StreamStats {
    type V = StreamStatsView;

    open spec fn view(&self) -> StreamStatsView {
        StreamStatsView {
            codec_info: opt_codec(self.codec_info),
            stream_type: self.stream_type,
            stream_url: self.stream_url@,
            frames_played: self.frames_played,
            decode_errors: self.decode_errors,
            bytes_received: self.bytes_received,
            segments_downloaded: self.segments_downloaded,
            sample_count: self.sample_count,
            health_state: self.health_state,
            buffer_level_bytes: self.buffer_level_bytes,
            buffer_capacity_bytes: self.buffer_capacity_bytes,
            is_buffering: self.is_buffering,
            throughput: self.throughput,
            underrun_count: self.underrun_count,
            play_started_at: self.play_started_at,
        }
    }
}

/// The statistics when nothing plays.
pub open spec fn idle_stats() -> StreamStatsView {
    StreamStatsView {
        codec_info: None,
        stream_type: None,
        stream_url: Seq::empty(),
        frames_played: 0,
        decode_errors: 0,
        bytes_received: 0,
        segments_downloaded: 0,
        sample_count: 0,
        health_state: HealthState::WaitingForAudio,
        buffer_level_bytes: 0,
        buffer_capacity_bytes: 0,
        is_buffering: false,
        throughput: Throughput { bytes: 0, nanos: 0 },
        underrun_count: 0,
        play_started_at: None,
    }
}

impl Default for StreamStats {
    fn default() -> (r: Self)
        ensures
            r@ == idle_stats(),
    {
        let url: String = String::new();
        assert(url@ =~= Seq::empty());
        StreamStats {
            codec_info: None,
            stream_type: None,
            stream_url: url,
            frames_played: 0,
            decode_errors: 0,
            bytes_received: 0,
            segments_downloaded: 0,
            sample_count: 0,
            health_state: HealthState::WaitingForAudio,
            buffer_level_bytes: 0,
            buffer_capacity_bytes: 0,
            is_buffering: false,
            throughput: Throughput { bytes: 0, nanos: 0 },
            underrun_count: 0,
            play_started_at: None,
        }
    }
}

impl Clone for StreamStats {
    fn clone(&self) -> (r: Self)
        ensures
            r@ == self@,
    {
        StreamStats {
            codec_info: match &self.codec_info {
                Some(info) => Some(info.clone()),
                None => None,
            },
            stream_type: self.stream_type,
            stream_url: self.stream_url.clone(),
            frames_played: self.frames_played,
            decode_errors: self.decode_errors,
            bytes_received: self.bytes_received,
            segments_downloaded: self.segments_downloaded,
            sample_count: self.sample_count,
            health_state: self.health_state,
            buffer_level_bytes: self.buffer_level_bytes,
            buffer_capacity_bytes: self.buffer_capacity_bytes,
            is_buffering: self.is_buffering,
            throughput: self.throughput,
            underrun_count: self.underrun_count,
            play_started_at: self.play_started_at,
        }
    }
}

/// Discrete events broadcast to subscribers
#[derive(Debug)]
pub enum StreamEvent {
    PlaybackStarted { codec_info: CodecInfo, stream_url: String },
    PlaybackStopped,
    MetadataChanged { title: String, artist: String },
    HealthChanged(HealthState),
    Error(String),
}

/// What a `StreamEvent` says.
pub enum StreamEventView {
    PlaybackStarted { codec_info: CodecInfoView, stream_url: Seq<char> },
    PlaybackStopped,
    MetadataChanged { title: Seq<char>, artist: Seq<char> },
    HealthChanged(HealthState),
    Error(Seq<char>),
}

impl View for StreamEvent {
    type V = StreamEventView;

    open spec fn view(&self) -> StreamEventView {
        match *self {
            StreamEvent::PlaybackStarted { codec_info, stream_url } => {
                StreamEventView::PlaybackStarted {
                    codec_info: codec_info@,
                    stream_url: stream_url@,
                }
            },
            StreamEvent::PlaybackStopped => StreamEventView::PlaybackStopped,
            StreamEvent::MetadataChanged { title, artist } => StreamEventView::MetadataChanged {
                title: title@,
                artist: artist@,
            },
            StreamEvent::HealthChanged(state) => StreamEventView::HealthChanged(state),
            StreamEvent::Error(text) => StreamEventView::Error(text@),
        }
    }
}

impl Clone for StreamEvent {
    fn clone(&self) -> (r: Self)
        ensures
            r@ == self@,
    {
        match self {
            StreamEvent::PlaybackStarted { codec_info, stream_url } => {
                StreamEvent::PlaybackStarted {
                    codec_info: codec_info.clone(),
                    stream_url: stream_url.clone(),
                }
            },
            StreamEvent::PlaybackStopped => StreamEvent::PlaybackStopped,
            StreamEvent::MetadataChanged { title, artist } => StreamEvent::MetadataChanged {
                title: title.clone(),
                artist: artist.clone(),
            },
            StreamEvent::HealthChanged(state) => StreamEvent::HealthChanged(*state),
            StreamEvent::Error(text) => StreamEvent::Error(text.clone()),
        }
    }
}

/// `crossbeam_channel::Sender`, the sending end of a channel.
#[verifier::external_type_specification]
#[verifier::external_body]
#[verifier::reject_recursive_types(T)]
pub struct ExSender<T>(Sender<T>);

/// `crossbeam_channel::Receiver`, the receiving end of a channel. It is only handed out.
#[verifier::external_type_specification]
#[verifier::external_body]
#[verifier::reject_recursive_types(T)]
pub struct ExReceiver<T>(Receiver<T>);

/// The channel that a sending end belongs to.
pub uninterp spec fn channel_of(tx: Sender<StreamEvent>) -> int;

/// The channel that a receiving end belongs to.
pub uninterp spec fn channel_read(rx: Receiver<StreamEvent>) -> int;

/// The events that were handed to a sending end, in order, each with whether it was accepted.
pub uninterp spec fn offers(tx: Sender<StreamEvent>) -> Seq<(StreamEventView, bool)>;

/// The channel of the sending end holds any number of events, so that handing it one never waits.
pub uninterp spec fn is_unbounded(tx: Sender<StreamEvent>) -> bool;

/// `crossbeam_channel::unbounded` makes a channel that holds any number of events and hands out
/// its two ends. Both belong to the same channel, and nothing was handed to the sending end yet.
#[verifier::external_body]
fn open_channel() -> (r: (Sender<StreamEvent>, Receiver<StreamEvent>))
    ensures
        channel_of(r.0) == channel_read(r.1),
        offers(r.0).len() == 0,
        is_unbounded(r.0),
{
    unbounded()
}

/// `crossbeam_channel::Sender::send` hands an event to a sending end, which accepts it, so that it
/// comes out of the channel's other end behind all that was accepted earlier, unless that other
/// end is gone. Whether it is gone depends on its holder: of the outcome nothing is said but that
/// the result tells it. A channel that holds only so many events would make it wait for a place.
#[verifier::external_body]
fn deliver(tx: &mut Sender<StreamEvent>, event: StreamEvent) -> (r: bool)
    requires
        is_unbounded(*old(tx)),
    ensures
        is_unbounded(*final(tx)),
        channel_of(*final(tx)) == channel_of(*old(tx)),
        offers(*final(tx)) == offers(*old(tx)).push((event@, r)),
{
    tx.send(event).is_ok()
}

/// The sending end was handed the event once, and it was accepted or not.
pub open spec fn handed(
    before: Sender<StreamEvent>,
    after: Sender<StreamEvent>,
    event: StreamEventView,
    accepted: bool,
) -> bool {
    &&& channel_of(after) == channel_of(before)
    &&& offers(after) == offers(before).push((event, accepted))
}

/// Every one of the sending ends was handed the event once.
pub open spec fn all_handed(
    before: Seq<Sender<StreamEvent>>,
    after: Seq<Sender<StreamEvent>>,
    event: StreamEventView,
    accepted: Seq<bool>,
) -> bool {
    &&& after.len() == before.len()
    &&& accepted.len() == before.len()
    &&& forall|k: int|
        0 <= k < before.len() ==> handed(before[k], #[trigger] after[k], event, accepted[k])
}

/// An event was emitted: every subscriber was handed it once, and exactly those that accepted it
/// are left, in order.
pub open spec fn emitted(
    before: Seq<Sender<StreamEvent>>,
    event: StreamEventView,
    left: Seq<Sender<StreamEvent>>,
) -> bool {
    exists|after: Seq<Sender<StreamEvent>>, accepted: Seq<bool>| #[trigger]
        all_handed(before, after, event, accepted) && left == flagged(after, accepted)
}

/// A subscriber joined behind the others, with a sending end of the channel to which nothing was
/// handed yet.
pub open spec fn joined(
    before: Seq<Sender<StreamEvent>>,
    channel: int,
    after: Seq<Sender<StreamEvent>>,
) -> bool {
    &&& after.len() == before.len() + 1
    &&& after.drop_last() == before
    &&& channel_of(after.last()) == channel
    &&& offers(after.last()).len() == 0
}

/// The members of `s` whose flag is set, in order.
pub open spec fn flagged<T>(s: Seq<T>, flags: Seq<bool>) -> Seq<T>
    decreases s.len(),
{
    if s.len() == 0 {
        s
    } else {
        let front = flagged(s.drop_last(), flags);
        if flags[s.len() - 1] {
            front.push(s.last())
        } else {
            front
        }
    }
}

/// Broadcast mechanism for stream events
pub struct EventBus {
    subscribers: Vec<Sender<StreamEvent>>,
}

impl Default for EventBus {
    fn default() -> (r: Self)
        ensures
            r.subscribers().len() == 0,
    {
        EventBus::new()
    }
}

impl EventBus {
    /// No subscriber can make the bus wait.
    #[verifier::type_invariant]
    spec fn never_waits(self) -> bool {
        forall|i: int|
            0 <= i < self.subscribers@.len() ==> is_unbounded(#[trigger] self.subscribers@[i])
    }

    /// The sending ends, in the order of subscription.
    pub closed spec fn subscribers(&self) -> Seq<Sender<StreamEvent>> {
        self.subscribers@
    }

    /// Create a new event bus with no subscribers
    pub fn new() -> (r: Self)
        ensures
            r.subscribers().len() == 0,
    {
        EventBus { subscribers: Vec::new() }
    }

    /// How many subscribers there are.
    pub fn subscriber_count(&self) -> (n: usize)
        ensures
            n == self.subscribers().len(),
    {
        self.subscribers.len()
    }

    /// Subscribe to events. Returns a receiver that will get all future events.
    pub fn subscribe(&mut self) -> (rx: Receiver<StreamEvent>)
        ensures
            joined(old(self).subscribers(), channel_read(rx), final(self).subscribers()),
    {
        proof {
            use_type_invariant(&*self);
        }
        let (tx, rx) = open_channel();
        let mut subscribers: Vec<Sender<StreamEvent>> = Vec::new();
        std::mem::swap(&mut subscribers, &mut self.subscribers);
        subscribers.push(tx);
        assert(subscribers@.drop_last() =~= old(self).subscribers@);
        self.subscribers = subscribers;
        rx
    }

    /// Emit an event to all subscribers. Removes disconnected subscribers.
    ///
    /// Each sending end is handed a copy of the event; those that accepted it stay.
    pub fn emit(&mut self, event: StreamEvent)
        ensures
            emitted(old(self).subscribers(), event@, final(self).subscribers()),
    {
        proof {
            use_type_invariant(&*self);
        }
        let mut subscribers: Vec<Sender<StreamEvent>> = Vec::new();
        std::mem::swap(&mut subscribers, &mut self.subscribers);
        let ghost before = subscribers@;
        let mut accepted: Vec<bool> = Vec::new();
        let mut i: usize = 0;
        while i < subscribers.len()
            invariant
                i <= subscribers@.len() == before.len(),
                accepted@.len() == i,
                forall|k: int|
                    0 <= k < before.len() ==> is_unbounded(#[trigger] subscribers@[k]),
                forall|k: int|
                    0 <= k < i ==> handed(
                        before[k],
                        #[trigger] subscribers@[k],
                        event@,
                        accepted@[k],
                    ),
                forall|k: int| i <= k < before.len() ==> subscribers@[k] == before[k],
            decreases subscribers@.len() - i,
        {
            let copy: StreamEvent = event.clone();
            let answer: bool = deliver(&mut subscribers[i], copy);
            accepted.push(answer);
            i += 1;
        }
        assert(all_handed(before, subscribers@, event@, accepted@));
        self.subscribers = subscribers;
        self.retain_accepted(&accepted);
    }

    /// Keeps the subscribers whose flag is set, in order.
    pub fn retain_accepted(&mut self, accepted: &Vec<bool>)
        requires
            accepted@.len() == old(self).subscribers().len(),
        ensures
            final(self).subscribers() == flagged(old(self).subscribers(), accepted@),
    {
        proof {
            use_type_invariant(&*self);
        }
        let mut subscribers: Vec<Sender<StreamEvent>> = Vec::new();
        std::mem::swap(&mut subscribers, &mut self.subscribers);
        let mut i: usize = 0;
        let mut kept: usize = 0;
        let ghost all = subscribers@;
        while i < accepted.len()
            invariant
                kept <= i <= accepted@.len() == all.len(),
                kept == flagged(all.take(i as int), accepted@).len(),
                subscribers@ == flagged(all.take(i as int), accepted@) + all.skip(i as int),
                forall|k: int|
                    0 <= k < subscribers@.len() ==> is_unbounded(#[trigger] subscribers@[k]),
            decreases accepted@.len() - i,
        {
            let ghost head = flagged(all.take(i as int), accepted@);
            proof {
                assert(all.take(i + 1).drop_last() =~= all.take(i as int));
                assert(all.take(i + 1).last() == all[i as int]);
                assert(subscribers@[kept as int] == all[i as int]);
            }
            if accepted[i] {
                kept += 1;
                assert(subscribers@ =~= head.push(all[i as int]) + all.skip(i + 1));
            } else {
                subscribers.remove(kept);
                assert(subscribers@ =~= head + all.skip(i + 1));
            }
            i += 1;
        }
        assert(all.take(i as int) =~= all);
        assert(subscribers@ =~= flagged(all, accepted@));
        self.subscribers = subscribers;
    }
}

/// Counters for the hot decode path
#[derive(Debug, Clone, Copy, PartialEq, Eq, Structural)]
pub struct DecoderStats {
    pub frames_played: u64,
    pub decode_errors: u64,
}

impl Default for DecoderStats {
    fn default() -> (r: Self)
        ensures
            r == (DecoderStats { frames_played: 0, decode_errors: 0 }),
    {
        DecoderStats::new()
    }
}

/// The number after `n` on a counter that starts over at zero when it is full.
pub open spec fn counted(n: u64) -> u64 {
    if n == u64::MAX {
        0
    } else {
        (n + 1) as u64
    }
}

impl DecoderStats {
    /// Create a new decoder stats instance with zeroed counters
    pub fn new() -> (r: Self)
        ensures
            r == (DecoderStats { frames_played: 0, decode_errors: 0 }),
    {
        DecoderStats { frames_played: 0, decode_errors: 0 }
    }

    /// Increment the frames-played counter (called from decode loop)
    pub fn record_frame(&mut self)
        ensures
            *final(self) == (DecoderStats {
                frames_played: counted(old(self).frames_played),
                ..*old(self)
            }),
    {
        self.frames_played = self.frames_played.wrapping_add(1);
    }

    /// Increment the decode-errors counter
    pub fn record_error(&mut self)
        ensures
            *final(self) == (DecoderStats {
                decode_errors: counted(old(self).decode_errors),
                ..*old(self)
            }),
    {
        self.decode_errors = self.decode_errors.wrapping_add(1);
    }

    /// Read both counters
    pub fn snapshot(&self) -> (r: (u64, u64))
        ensures
            r == (self.frames_played, self.decode_errors),
    {
        (self.frames_played, self.decode_errors)
    }
}

/// Subscribers that all accept an event all stay, in order.
pub proof fn law_accepting_subscribers_stay<T>(s: Seq<T>, flags: Seq<bool>)
    requires
        flags.len() == s.len(),
        forall|i: int| 0 <= i < flags.len() ==> flags[i],
    ensures
        flagged(s, flags) == s,
{
    lemma_all_flagged(s, flags);
}

proof fn lemma_all_flagged<T>(s: Seq<T>, flags: Seq<bool>)
    requires
        flags.len() >= s.len(),
        forall|i: int| 0 <= i < flags.len() ==> flags[i],
    ensures
        flagged(s, flags) == s,
    decreases s.len(),
{
    if s.len() > 0 {
        lemma_all_flagged(s.drop_last(), flags);
        assert(s.drop_last().push(s.last()) =~= s);
    }
}

/// Who does not accept an event is gone, and nobody is added.
pub proof fn law_only_accepting_subscribers_stay<T>(s: Seq<T>, flags: Seq<bool>)
    requires
        flags.len() >= s.len(),
    ensures
        flagged(s, flags).len() <= s.len(),
        forall|x: T|
            flagged(s, flags).contains(x) <==> exists|i: int|
                0 <= i < s.len() && flags[i] && #[trigger] s[i] == x,
    decreases s.len(),
{
    if s.len() > 0 {
        let front = s.drop_last();
        law_only_accepting_subscribers_stay(front, flags);
        assert forall|x: T|
            flagged(s, flags).contains(x) <==> exists|i: int|
                0 <= i < s.len() && flags[i] && #[trigger] s[i] == x by {
            let n = s.len() - 1;
            vstd::seq_lib::lemma_seq_contains_after_push(flagged(front, flags), s.last(), x);
            if flagged(front, flags).contains(x) {
                let i = choose|i: int| 0 <= i < front.len() && flags[i] && #[trigger] front[i] == x;
                assert(s[i] == x);
            }
            if exists|i: int| 0 <= i < s.len() && flags[i] && #[trigger] s[i] == x {
                let i = choose|i: int| 0 <= i < s.len() && flags[i] && #[trigger] s[i] == x;
                if i < n {
                    assert(front[i] == x);
                }
            }
        }
    }
}

/// Something that happens to an event bus.
pub enum BusStep {
    /// Somebody subscribes and reads the channel.
    Subscribe(int),
    /// An event is emitted.
    Emit(StreamEventView),
}

/// A bus that starts without subscribers goes through the states, one for each step.
pub open spec fn is_bus_history(
    states: Seq<Seq<Sender<StreamEvent>>>,
    steps: Seq<BusStep>,
) -> bool {
    &&& states.len() == steps.len() + 1
    &&& states[0].len() == 0
    &&& forall|i: int|
        0 <= i < steps.len() ==> match #[trigger] steps[i] {
            BusStep::Subscribe(channel) => joined(states[i], channel, states[i + 1]),
            BusStep::Emit(event) => emitted(states[i], event, states[i + 1]),
        }
}

/// The events emitted from step `from` on, each as one that was accepted.
pub open spec fn events_since(steps: Seq<BusStep>, from: int) -> Seq<(StreamEventView, bool)>
    decreases steps.len(),
{
    if steps.len() == 0 || steps.len() <= from {
        Seq::empty()
    } else {
        let earlier = events_since(steps.drop_last(), from);
        match steps.last() {
            BusStep::Subscribe(_) => earlier,
            BusStep::Emit(event) => earlier.push((event, true)),
        }
    }
}

/// The sending end stands for a subscription in one of the steps, and was handed every event since
/// then.
pub open spec fn heard_all(steps: Seq<BusStep>, tx: Sender<StreamEvent>) -> bool {
    exists|j: int|
        0 <= j < steps.len() && #[trigger] steps[j] == BusStep::Subscribe(channel_of(tx)) && offers(
            tx,
        ) == events_since(steps, j + 1)
}

/// Whoever is still subscribed was handed exactly the events emitted since the subscription, one
/// copy of each, in order, and accepted them all; nothing that was emitted earlier.
pub proof fn law_subscribers_hear_everything_once(
    states: Seq<Seq<Sender<StreamEvent>>>,
    steps: Seq<BusStep>,
)
    requires
        is_bus_history(states, steps),
    ensures
        forall|i: int|
            0 <= i < states.last().len() ==> heard_all(steps, #[trigger] states.last()[i]),
    decreases steps.len(),
{
    if steps.len() > 0 {
        let n = steps.len() - 1;
        let front = steps.drop_last();
        let before = states[n];
        let now = states.last();
        assert(states.drop_last().last() == before);
        assert forall|i: int| 0 <= i < front.len() implies match #[trigger] front[i] {
            BusStep::Subscribe(channel) => joined(
                states.drop_last()[i],
                channel,
                states.drop_last()[i + 1],
            ),
            BusStep::Emit(event) => emitted(
                states.drop_last()[i],
                event,
                states.drop_last()[i + 1],
            ),
        } by {
            assert(steps[i] == front[i]);
        }
        law_subscribers_hear_everything_once(states.drop_last(), front);
        assert(steps[n] == steps.last());
        match steps.last() {
            BusStep::Subscribe(channel) => {
                assert forall|i: int| 0 <= i < now.len() implies heard_all(
                    steps,
                    #[trigger] now[i],
                ) by {
                    if i < before.len() {
                        assert(now.drop_last()[i] == before[i]);
                        lemma_heard_goes_on(steps, before[i], now[i]);
                    } else {
                        assert(steps[n] == BusStep::Subscribe(channel_of(now[i])));
                        assert(offers(now[i]) =~= events_since(steps, n + 1));
                    }
                }
            },
            BusStep::Emit(event) => {
                let (after, accepted) = choose|
                    after: Seq<Sender<StreamEvent>>,
                    accepted: Seq<bool>,
                | #[trigger]
                    all_handed(before, after, event, accepted) && now == flagged(after, accepted);
                law_only_accepting_subscribers_stay(after, accepted);
                assert forall|i: int| 0 <= i < now.len() implies heard_all(
                    steps,
                    #[trigger] now[i],
                ) by {
                    assert(now.contains(now[i]));
                    let k = choose|k: int|
                        0 <= k < after.len() && accepted[k] && #[trigger] after[k] == now[i];
                    assert(handed(before[k], after[k], event, accepted[k]));
                    lemma_heard_goes_on(steps, before[k], now[i]);
                }
            },
        }
    }
}

/// Who heard all before the last step, and was handed what it emitted, has heard all.
proof fn lemma_heard_goes_on(
    steps: Seq<BusStep>,
    before: Sender<StreamEvent>,
    after: Sender<StreamEvent>,
)
    requires
        steps.len() > 0,
        heard_all(steps.drop_last(), before),
        match steps.last() {
            BusStep::Subscribe(_) => after == before,
            BusStep::Emit(event) => handed(before, after, event, true),
        },
    ensures
        heard_all(steps, after),
{
    let front = steps.drop_last();
    let j = choose|j: int|
        0 <= j < front.len() && #[trigger] front[j] == BusStep::Subscribe(channel_of(before))
            && offers(before) == events_since(front, j + 1);
    assert(steps[j] == front[j]);
    assert(offers(after) == events_since(steps, j + 1));
}

/// Statistics without a stream show nothing: no codec, no URL, no counts, no buffer, no start.
pub proof fn law_idle_statistics_are_empty()
    ensures
        ({
            let s = idle_stats();
            &&& s.codec_info is None
            &&& s.stream_type is None
            &&& s.stream_url.len() == 0
            &&& s.frames_played == 0
            &&& s.decode_errors == 0
            &&& s.bytes_received == 0
            &&& s.segments_downloaded == 0
            &&& s.sample_count == 0
            &&& s.health_state == HealthState::WaitingForAudio
            &&& s.buffer_level_bytes == 0
            &&& s.buffer_capacity_bytes == 0
            &&& !s.is_buffering
            &&& s.throughput.bytes == 0
            &&& s.throughput.nanos == 0
            &&& s.underrun_count == 0
            &&& s.play_started_at is None
        }),
{
}

/// A subscription adds one subscriber, behind the others, who all stay as they are.
pub proof fn law_subscription_adds_one(
    before: Seq<Sender<StreamEvent>>,
    channel: int,
    after: Seq<Sender<StreamEvent>>,
)
    requires
        joined(before, channel, after),
    ensures
        after.len() == before.len() + 1,
        after == before.push(after.last()),
        channel_of(after.last()) == channel,
        offers(after.last()).len() == 0,
{
    assert(after.drop_last().push(after.last()) =~= after);
}

/// An event goes once to every subscriber, as it is. Whoever accepts it stays, in order, with
/// nothing else done to them, and whoever does not is gone.
pub proof fn law_emitting_keeps_who_accepts(
    before: Seq<Sender<StreamEvent>>,
    event: StreamEventView,
    left: Seq<Sender<StreamEvent>>,
)
    requires
        emitted(before, event, left),
    ensures
        exists|after: Seq<Sender<StreamEvent>>, accepted: Seq<bool>|
            {
                &&& after.len() == before.len()
                &&& accepted.len() == before.len()
                &&& forall|k: int|
                    0 <= k < before.len() ==> channel_of(#[trigger] after[k]) == channel_of(
                        before[k],
                    ) && offers(after[k]) == offers(before[k]).push((event, accepted[k]))
                &&& #[trigger] is_kept(after, accepted, left)
            },
{
    let (after, accepted) = choose|after: Seq<Sender<StreamEvent>>, accepted: Seq<bool>| #[trigger]
        all_handed(before, after, event, accepted) && left == flagged(after, accepted);
    assert(all_handed(before, after, event, accepted));
    assert forall|k: int| 0 <= k < before.len() implies channel_of(#[trigger] after[k])
        == channel_of(before[k]) && offers(after[k]) == offers(before[k]).push(
        (event, accepted[k]),
    ) by {
        assert(handed(before[k], after[k], event, accepted[k]));
    }
    lemma_flagged_are_kept(after, accepted);
    assert(is_kept(after, accepted, left));
}

/// How many of the first `n` flags are set.
pub open spec fn set_flags(flags: Seq<bool>, n: int) -> nat
    decreases n,
{
    if n <= 0 {
        0
    } else {
        set_flags(flags, n - 1) + if flags[n - 1] {
            1nat
        } else {
            0nat
        }
    }
}

/// `left` holds the members of `s` whose flag is set and no others: each at the place that the
/// number of set flags before it gives.
pub open spec fn is_kept<T>(s: Seq<T>, flags: Seq<bool>, left: Seq<T>) -> bool {
    &&& left.len() == set_flags(flags, s.len() as int)
    &&& forall|k: int|
        0 <= k < s.len() && flags[k] ==> left[set_flags(flags, k) as int] == #[trigger] s[k]
}

proof fn lemma_flagged_are_kept<T>(s: Seq<T>, flags: Seq<bool>)
    ensures
        is_kept(s, flags, flagged(s, flags)),
    decreases s.len(),
{
    if s.len() > 0 {
        let front = s.drop_last();
        let n = s.len() - 1;
        lemma_flagged_are_kept(front, flags);
        assert forall|k: int| 0 <= k < s.len() && flags[k] implies flagged(s, flags)[set_flags(
            flags,
            k,
        ) as int] == #[trigger] s[k] by {
            if k < n {
                assert(front[k] == s[k]);
                lemma_set_flags_grow(flags, k + 1, n);
            }
        }
    }
}

proof fn lemma_set_flags_grow(flags: Seq<bool>, a: int, b: int)
    requires
        0 <= a <= b,
    ensures
        set_flags(flags, a) <= set_flags(flags, b),
    decreases b,
{
    if a < b {
        lemma_set_flags_grow(flags, a, b - 1);
    }
}

/// A counter counts one at a time, and starts over when it is full.
pub proof fn law_counter_counts(n: u64)
    ensures
        n < u64::MAX ==> counted(n) == n + 1,
        counted(u64::MAX) == 0,
{
}

/// Statistics say what their fields hold.
pub proof fn law_statistics_say(s: StreamStats)
    ensures
        s@.stream_type == s.stream_type,
        s@.frames_played == s.frames_played,
        s@.decode_errors == s.decode_errors,
        s@.bytes_received == s.bytes_received,
        s@.segments_downloaded == s.segments_downloaded,
        s@.sample_count == s.sample_count,
        s@.health_state == s.health_state,
        s@.buffer_level_bytes == s.buffer_level_bytes,
        s@.buffer_capacity_bytes == s.buffer_capacity_bytes,
        s@.is_buffering == s.is_buffering,
        s@.throughput == s.throughput,
        s@.underrun_count == s.underrun_count,
        s@.play_started_at == s.play_started_at,
        s@.stream_url == s.stream_url@,
        s.codec_info is None <==> s@.codec_info is None,
        s.codec_info matches Some(info) ==> s@.codec_info == Some(info@),
{
}

} // verus!
