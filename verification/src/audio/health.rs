//! Stream health monitoring
//!
//! State machine that tracks audio sample flow to detect no-audio and stall conditions.

use core::time::Duration;
use std::time::Instant;

use vstd::prelude::*;

use crate::config::timeouts::{BUFFERING_TIMEOUT_SECS, STREAM_STALL_TIMEOUT_SECS};
use crate::time::{duration_nanos, secs_to_nanos};

verus! {

/// Reason for health monitor failure
#[derive(Debug, Clone, Copy, PartialEq, Eq, Structural)]
pub enum FailureReason {
    /// Probe succeeded but no samples were ever produced
    NoAudioOutput,
    /// Stream was healthy but stalled for too long
    StreamStall,
    /// Format probe failed (timeout, decode error, or thread panic)
    ProbeFailed,
}

/// Health monitor states
#[derive(Debug, Clone, Copy, PartialEq, Eq, Structural)]
pub enum HealthState {
    /// Waiting for the first audio samples after probe
    WaitingForAudio,
    /// Receiving audio normally
    Healthy,
    /// Samples stopped flowing; may recover
    Stalled,
    /// Terminal — no recovery possible
    Failed(FailureReason),
}

/// The health of a stream as of the last observation. Times are in nanoseconds on one clock.
#[derive(Debug, Clone, Copy, PartialEq, Eq, Structural)]
pub struct HealthTracker {
    /// The state.
    pub state: HealthState,
    /// The largest sample count seen.
    pub last_sample_count: u64,
    /// When the running timeout began.
    pub timer_started: u128,
    /// How long to wait for the first samples.
    pub no_audio_timeout: u128,
    /// How long samples may stay away once they have flowed.
    pub stall_timeout: u128,
}

/// The time from `start` to `now`, zero where `now` is earlier.
pub open spec fn time_since(start: u128, now: u128) -> int {
    if now >= start {
        now - start
    } else {
        0
    }
}

/// The tracker after an observation of `count` samples at `now`, and the failure it reports.
pub open spec fn health_step(t: HealthTracker, count: u64, now: u128) -> (
    HealthTracker,
    Option<FailureReason>,
) {
    let elapsed = time_since(t.timer_started, now);
    if t.state is Failed {
        (t, None)
    } else if count > t.last_sample_count {
        (
            HealthTracker {
                state: HealthState::Healthy,
                last_sample_count: count,
                timer_started: now,
                ..t
            },
            None,
        )
    } else if t.state is WaitingForAudio {
        if elapsed >= t.no_audio_timeout {
            (
                HealthTracker {
                    state: HealthState::Failed(FailureReason::NoAudioOutput),
                    timer_started: now,
                    ..t
                },
                Some(FailureReason::NoAudioOutput),
            )
        } else {
            (t, None)
        }
    } else if elapsed >= t.stall_timeout {
        (
            HealthTracker { state: HealthState::Stalled, timer_started: now, ..t },
            if t.state is Stalled {
                Some(FailureReason::StreamStall)
            } else {
                None
            },
        )
    } else {
        (t, None)
    }
}

impl HealthTracker {
    /// A tracker that waits for the first samples from `now` on.
    pub fn new(no_audio_timeout: u128, stall_timeout: u128, now: u128) -> (r: Self)
        ensures
            r == (HealthTracker {
                state: HealthState::WaitingForAudio,
                last_sample_count: 0,
                timer_started: now,
                no_audio_timeout,
                stall_timeout,
            }),
    {
        HealthTracker {
            state: HealthState::WaitingForAudio,
            last_sample_count: 0,
            timer_started: now,
            no_audio_timeout,
            stall_timeout,
        }
    }

    /// A tracker with the configured timeouts.
    pub fn with_defaults(now: u128) -> (r: Self)
        ensures
            r == (HealthTracker {
                state: HealthState::WaitingForAudio,
                last_sample_count: 0,
                timer_started: now,
                no_audio_timeout: (BUFFERING_TIMEOUT_SECS * 1_000_000_000) as u128,
                stall_timeout: (STREAM_STALL_TIMEOUT_SECS * 1_000_000_000) as u128,
            }),
    {
        HealthTracker::new(
            secs_to_nanos(BUFFERING_TIMEOUT_SECS),
            secs_to_nanos(STREAM_STALL_TIMEOUT_SECS),
            now,
        )
    }

    /// Takes note of the current sample count. Returns the failure to report, if there is one.
    pub fn update(&mut self, sample_count: u64, now: u128) -> (r: Option<FailureReason>)
        ensures
            (*final(self), r) == health_step(*old(self), sample_count, now),
    {
        let elapsed: u128 = if now >= self.timer_started {
            now - self.timer_started
        } else {
            0
        };
        let samples_changed: bool = sample_count > self.last_sample_count;
        match self.state {
            HealthState::WaitingForAudio => {
                if samples_changed {
                    self.last_sample_count = sample_count;
                    self.transition(HealthState::Healthy, now);
                    None
                } else if elapsed >= self.no_audio_timeout {
                    self.transition(HealthState::Failed(FailureReason::NoAudioOutput), now);
                    Some(FailureReason::NoAudioOutput)
                } else {
                    None
                }
            },
            HealthState::Healthy => {
                if samples_changed {
                    self.last_sample_count = sample_count;
                    self.reset(now);
                    None
                } else if elapsed >= self.stall_timeout {
                    self.transition(HealthState::Stalled, now);
                    None
                } else {
                    None
                }
            },
            HealthState::Stalled => {
                if samples_changed {
                    self.last_sample_count = sample_count;
                    self.transition(HealthState::Healthy, now);
                    None
                } else if elapsed >= self.stall_timeout {
                    // Reported again after each timeout; the stream may still recover.
                    self.reset(now);
                    Some(FailureReason::StreamStall)
                } else {
                    None
                }
            },
            HealthState::Failed(_) => None,
        }
    }

    /// Starts the running timeout again.
    pub fn reset(&mut self, now: u128)
        ensures
            *final(self) == (HealthTracker { timer_started: now, ..*old(self) }),
    {
        self.timer_started = now;
    }

    fn transition(&mut self, new_state: HealthState, now: u128)
        ensures
            *final(self) == (HealthTracker {
                state: new_state,
                timer_started: now,
                ..*old(self)
            }),
    {
        self.state = new_state;
        self.timer_started = now;
    }
}

/// Monitors stream health by tracking sample count over time
pub struct StreamHealthMonitor {
    created: Instant,
    clock: u128,
    tracker: HealthTracker,
}

impl Default for StreamHealthMonitor {
    fn default() -> (r: Self)
        ensures
            r.tracker() == (HealthTracker {
                state: HealthState::WaitingForAudio,
                last_sample_count: 0,
                timer_started: 0,
                no_audio_timeout: (BUFFERING_TIMEOUT_SECS * 1_000_000_000) as u128,
                stall_timeout: (STREAM_STALL_TIMEOUT_SECS * 1_000_000_000) as u128,
            }),
            r.clock() == 0,
    {
        StreamHealthMonitor::new()
    }
}

impl StreamHealthMonitor {
    /// The monitor's record; its times are counted from the monitor's creation.
    pub closed spec fn tracker(&self) -> HealthTracker {
        self.tracker
    }

    /// The time, counted from the monitor's creation, at which the monitor last looked at the
    /// clock.
    pub closed spec fn clock(&self) -> u128 {
        self.clock
    }

    /// Looks at the clock, which does not run backwards.
    fn read_clock(&mut self) -> (now: u128)
        ensures
            now == final(self).clock(),
            old(self).clock() <= final(self).clock(),
            final(self).tracker() == old(self).tracker(),
    {
        let now: u128 = self.created.elapsed().as_nanos();
        if now > self.clock {
            self.clock = now;
        }
        self.clock
    }

    /// Create a new monitor using default config timeouts
    pub fn new() -> (r: Self)
        ensures
            r.tracker() == (HealthTracker {
                state: HealthState::WaitingForAudio,
                last_sample_count: 0,
                timer_started: 0,
                no_audio_timeout: (BUFFERING_TIMEOUT_SECS * 1_000_000_000) as u128,
                stall_timeout: (STREAM_STALL_TIMEOUT_SECS * 1_000_000_000) as u128,
            }),
            r.clock() == 0,
    {
        StreamHealthMonitor {
            created: Instant::now(),
            clock: 0,
            tracker: HealthTracker::with_defaults(0),
        }
    }

    /// Create a monitor with custom timeouts (for testing)
    pub fn with_timeouts(no_audio: Duration, stall: Duration) -> (r: Self)
        ensures
            r.tracker().state is WaitingForAudio,
            r.tracker().last_sample_count == 0,
            r.tracker().timer_started == 0,
            r.tracker().no_audio_timeout == duration_nanos(no_audio),
            r.tracker().stall_timeout == duration_nanos(stall),
            r.clock() == 0,
    {
        StreamHealthMonitor {
            created: Instant::now(),
            clock: 0,
            tracker: HealthTracker::new(no_audio.as_nanos(), stall.as_nanos(), 0),
        }
    }

    /// Update with the current sample count. Returns Some(reason) on failure.
    ///
    /// The step is taken at the time that the clock gives, which is not before any time that it
    /// gave to this monitor earlier.
    pub fn update(&mut self, sample_count: u64) -> (r: Option<FailureReason>)
        ensures
            old(self).clock() <= final(self).clock(),
            (final(self).tracker(), r) == health_step(
                old(self).tracker(),
                sample_count,
                final(self).clock(),
            ),
    {
        let now: u128 = self.read_clock();
        self.tracker.update(sample_count, now)
    }

    /// Get the current health state
    pub fn state(&self) -> (r: &HealthState)
        ensures
            *r == self.tracker().state,
    {
        &self.tracker.state
    }

    /// Check if the monitor has reached a terminal failure state
    pub fn is_failed(&self) -> (r: bool)
        ensures
            r == (self.tracker().state is Failed),
    {
        matches!(self.tracker.state, HealthState::Failed(_))
    }

    /// Reset the stall timer (call while adaptive buffer is rebuffering
    /// to prevent false stall detection during intentional buffering).
    ///
    /// The timer starts at the time that the clock gives, which is not before any time that it
    /// gave to this monitor earlier; all else stays.
    pub fn reset_stall_timer(&mut self)
        ensures
            old(self).clock() <= final(self).clock(),
            final(self).tracker() == (HealthTracker {
                timer_started: final(self).clock(),
                ..old(self).tracker()
            }),
    {
        let now: u128 = self.read_clock();
        self.tracker.reset(now);
    }
}

/// The tracker after a series of observations, each a sample count and a time.
pub open spec fn health_run(t: HealthTracker, seen: Seq<(u64, u128)>) -> HealthTracker
    decreases seen.len(),
{
    if seen.len() == 0 {
        t
    } else {
        health_step(health_run(t, seen.drop_last()), seen.last().0, seen.last().1).0
    }
}

/// A failed tracker stays as it is and reports nothing, whatever is observed afterwards.
pub proof fn law_failed_is_terminal(t: HealthTracker, seen: Seq<(u64, u128)>, count: u64, now: u128)
    requires
        t.state is Failed,
    ensures
        health_run(t, seen) == t,
        health_step(health_run(t, seen), count, now) == (t, None::<FailureReason>),
    decreases seen.len(),
{
    if seen.len() > 0 {
        law_failed_is_terminal(t, seen.drop_last(), count, now);
    }
}

/// Once audio has flowed, no series of observations fails the stream: a stall can always recover.
pub proof fn law_stall_never_fails(t: HealthTracker, seen: Seq<(u64, u128)>)
    requires
        t.state is Healthy || t.state is Stalled,
    ensures
        !(health_run(t, seen).state is Failed),
        health_run(t, seen).state is Healthy || health_run(t, seen).state is Stalled,
    decreases seen.len(),
{
    if seen.len() > 0 {
        law_stall_never_fails(t, seen.drop_last());
    }
}

/// New samples make any stream that has not failed healthy, report nothing and start the stall
/// timer anew, so that the stream stays healthy until the stall timeout has passed without more.
pub proof fn law_samples_restart_the_stall_timer(
    t: HealthTracker,
    count: u64,
    now: u128,
    later_count: u64,
    later: u128,
)
    requires
        !(t.state is Failed),
        count > t.last_sample_count,
        time_since(now, later) < t.stall_timeout,
    ensures
        health_step(t, count, now).0.state is Healthy,
        health_step(t, count, now).1 is None,
        health_step(health_step(t, count, now).0, later_count, later).0.state is Healthy,
{
}

/// What a step reports: the absence of any audio, once, when the state becomes failed, and a
/// stall, when a stalled stream has been silent for the stall timeout. A failed probe is not
/// among the things that observation reports.
pub proof fn law_reported_failures(t: HealthTracker, count: u64, now: u128)
    ensures
        health_step(t, count, now).1 != Some(FailureReason::ProbeFailed),
        health_step(t, count, now).1 == Some(FailureReason::NoAudioOutput) <==> !(t.state is Failed)
            && health_step(t, count, now).0.state is Failed,
        health_step(t, count, now).1 == Some(FailureReason::StreamStall) <==> t.state is Stalled
            && count <= t.last_sample_count && time_since(t.timer_started, now) >= t.stall_timeout,
        health_step(t, count, now).1 == Some(FailureReason::StreamStall) ==> health_step(
            t,
            count,
            now,
        ).0.state is Stalled,
{
}

/// Time is counted forwards; a clock that shows less than before counts as standing still.
pub proof fn law_time_is_counted_forwards(start: u128, span: u128)
    requires
        start + span <= u128::MAX,
    ensures
        time_since(start, (start + span) as u128) == span,
        time_since((start + span) as u128, start) == 0,
{
}

/// A stream that waits for its first samples fails when they stay away for the whole of that
/// timeout, and not a moment earlier; a healthy one stalls when they stay away for the whole of the
/// stall timeout, and not a moment earlier; a stalled one stays so, and is reported anew after each
/// such time. Each of these starts the timer anew, and nothing else happens without new samples.
pub proof fn law_timeouts(t: HealthTracker, count: u64, now: u128)
    requires
        count <= t.last_sample_count,
    ensures
        ({
            let (next, report) = health_step(t, count, now);
            let silence = if now >= t.timer_started {
                now - t.timer_started
            } else {
                0
            };
            &&& t.state is WaitingForAudio && silence < t.no_audio_timeout ==> next == t
                && report is None
            &&& t.state is WaitingForAudio && silence >= t.no_audio_timeout ==> next.state
                == HealthState::Failed(FailureReason::NoAudioOutput) && report == Some(
                FailureReason::NoAudioOutput,
            )
            &&& (t.state is Healthy || t.state is Stalled) && silence < t.stall_timeout ==> next
                == t && report is None
            &&& t.state is Healthy && silence >= t.stall_timeout ==> next.state
                == HealthState::Stalled && next.timer_started == now && report is None
            &&& t.state is Stalled && silence >= t.stall_timeout ==> next.state
                == HealthState::Stalled && next.timer_started == now && report == Some(
                FailureReason::StreamStall,
            )
            &&& next.last_sample_count == t.last_sample_count
            &&& next.no_audio_timeout == t.no_audio_timeout
            &&& next.stall_timeout == t.stall_timeout
        }),
{
}

/// New samples are remembered, and the time at which they came, whatever the state of a stream that
/// has not failed; the timeouts stay.
pub proof fn law_new_samples_are_remembered(t: HealthTracker, count: u64, now: u128)
    requires
        count > t.last_sample_count,
        !(t.state is Failed),
    ensures
        health_step(t, count, now) == (
            HealthTracker {
                state: HealthState::Healthy,
                last_sample_count: count,
                timer_started: now,
                no_audio_timeout: t.no_audio_timeout,
                stall_timeout: t.stall_timeout,
            },
            None::<FailureReason>,
        ),
{
}

} // verus!
