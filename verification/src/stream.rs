//! Stream handling: playlists, ICY (Icecast/Shoutcast) and HLS streams, buffering.

use core::time::Duration;

use vstd::prelude::*;

use crate::config::timeouts::{MAX_BACKOFF_SECS, RETRY_BASE_DELAY_SECS};
use crate::time::duration_nanos;

pub mod buffer;
pub mod bytes;
pub mod hls;
pub mod icy;
pub mod metadata;
pub mod mpegts;
pub mod playlist;
pub mod resolver;
pub mod segments;
pub mod types;

pub use buffer::{BufferStatus, StreamBuffer, StreamBufferReader};
pub use metadata::StreamMetadata;
pub use resolver::StreamResolver;
pub use types::{StreamInfo, StreamType};

verus! {

/// Two to the power of `n`.
pub open spec fn doubled(n: nat) -> nat
    decreases n,
{
    if n == 0 {
        1
    } else {
        2 * doubled((n - 1) as nat)
    }
}

/// The delay in seconds after so many failures in a row: the base delay, doubled with each
/// failure after the first, up to the maximum.
pub open spec fn backoff_secs(failures: nat) -> nat {
    let n = if failures == 0 {
        0
    } else {
        (failures - 1) as nat
    };
    if RETRY_BASE_DELAY_SECS * doubled(n) < MAX_BACKOFF_SECS {
        RETRY_BASE_DELAY_SECS as nat * doubled(n)
    } else {
        MAX_BACKOFF_SECS as nat
    }
}

/// Calculate exponential backoff delay: min(2^(n-1) * base, max)
/// e.g., with base=2s: 2s, 4s, 8s, 10s, 10s, ...
pub fn backoff_delay(consecutive_failures: u32) -> (r: Duration)
    ensures
        duration_nanos(r) == backoff_secs(consecutive_failures as nat) * 1_000_000_000,
{
    let steps: u32 = consecutive_failures.saturating_sub(1);
    let exp: u32 = if steps < 5 {
        steps
    } else {
        5
    };
    let mut secs: u64 = RETRY_BASE_DELAY_SECS;
    let mut i: u32 = 0;
    proof {
        reveal_with_fuel(doubled, 6);
        lemma_doubled_grows(i as nat, exp as nat);
    }
    while i < exp
        invariant
            i <= exp <= 5,
            secs == RETRY_BASE_DELAY_SECS * doubled(i as nat),
            doubled(i as nat) <= doubled(exp as nat) <= 32,
        decreases exp - i,
    {
        proof {
            lemma_doubled_grows(i as nat + 1, exp as nat);
        }
        secs = secs * 2;
        i += 1;
    }
    proof {
        lemma_doubled_grows(exp as nat, steps as nat);
    }
    Duration::from_secs(
        if secs < MAX_BACKOFF_SECS {
            secs
        } else {
            MAX_BACKOFF_SECS
        },
    )
}

proof fn lemma_doubled_grows(a: nat, b: nat)
    requires
        a <= b,
    ensures
        1 <= doubled(a) <= doubled(b),
    decreases b,
{
    if a < b {
        lemma_doubled_grows(a, (b - 1) as nat);
    } else if a > 0 {
        lemma_doubled_grows((a - 1) as nat, (a - 1) as nat);
    }
}

/// The delay never shrinks as failures add up, and stays between the base delay and the maximum.
pub proof fn law_backoff_grows_to_its_cap(fewer: nat, more: nat)
    requires
        fewer <= more,
    ensures
        RETRY_BASE_DELAY_SECS <= backoff_secs(fewer) <= backoff_secs(more) <= MAX_BACKOFF_SECS,
{
    let a = if fewer == 0 {
        0
    } else {
        (fewer - 1) as nat
    };
    let b = if more == 0 {
        0
    } else {
        (more - 1) as nat
    };
    lemma_doubled_grows(a, b);
    lemma_doubled_grows(0, a);
}

/// The number of failures in a row after one more, on a counter that stays where it is when it is
/// full.
pub open spec fn one_failure_more(failures: u32) -> u32 {
    if failures == u32::MAX {
        failures
    } else {
        (failures + 1) as u32
    }
}

/// The number of failures that a counter shows that stays where it is when it is full.
pub open spec fn shown(failures: nat) -> u32 {
    if failures < u32::MAX {
        failures as u32
    } else {
        u32::MAX
    }
}

/// A full counter makes no difference to the delay.
pub proof fn law_full_counter_keeps_the_delay(failures: nat)
    ensures
        backoff_secs(shown(failures) as nat) == backoff_secs(failures),
{
    if failures > u32::MAX {
        reveal_with_fuel(doubled, 4);
        lemma_doubled_grows(3, (u32::MAX - 1) as nat);
        lemma_doubled_grows(3, (failures - 1) as nat);
    }
}

/// The interval in nanoseconds at which a backoff looks for a request to stop.
pub const BACKOFF_CHECK_NANOS: u128 = 250_000_000;

/// What a backoff does next.
#[derive(Debug, Clone, Copy, PartialEq, Eq, Structural)]
pub enum BackoffStep {
    /// It is over.
    Elapsed,
    /// It was told to stop.
    Stopped,
    /// It sleeps for so many nanoseconds and looks again.
    Sleep(u128),
}

/// What a backoff does after part of its time, in nanoseconds, has elapsed.
///
/// It never sleeps beyond its end, nor longer than the interval at which it looks for a request to
/// stop.
pub fn backoff_step(total: u128, elapsed: u128, stopped: bool) -> (r: BackoffStep)
    ensures
        r == if elapsed >= total {
            BackoffStep::Elapsed
        } else if stopped {
            BackoffStep::Stopped
        } else if total - elapsed < BACKOFF_CHECK_NANOS {
            BackoffStep::Sleep((total - elapsed) as u128)
        } else {
            BackoffStep::Sleep(BACKOFF_CHECK_NANOS)
        },
{
    if elapsed >= total {
        BackoffStep::Elapsed
    } else if stopped {
        BackoffStep::Stopped
    } else if total - elapsed < BACKOFF_CHECK_NANOS {
        BackoffStep::Sleep(total - elapsed)
    } else {
        BackoffStep::Sleep(BACKOFF_CHECK_NANOS)
    }
}

/// The delay is two seconds after a first failure, twice as much after each further one, and ten
/// seconds at most.
pub proof fn law_backoff_delays(failures: nat)
    ensures
        failures <= 1 ==> backoff_secs(failures) == 2,
        failures == 2 ==> backoff_secs(failures) == 4,
        failures == 3 ==> backoff_secs(failures) == 8,
        failures >= 4 ==> backoff_secs(failures) == 10,
        failures >= 1 && backoff_secs(failures) <= 5 ==> backoff_secs(failures + 1) == 2
            * backoff_secs(failures),
        BACKOFF_CHECK_NANOS * 4 == 1_000_000_000,
{
    reveal_with_fuel(doubled, 4);
    if failures >= 4 {
        lemma_doubled_grows(3, (failures - 1) as nat);
    }
}

/// The counter of failures counts one at a time, and stays where it is when it is full.
pub proof fn law_failures_are_counted(failures: u32, n: nat)
    ensures
        failures < u32::MAX ==> one_failure_more(failures) == failures + 1,
        one_failure_more(u32::MAX) == u32::MAX,
        n <= u32::MAX ==> shown(n) == n,
        shown(n + 1) == one_failure_more(shown(n)),
{
}

/// A backoff is over exactly when its time is, and is stopped before that exactly when it was told
/// to; otherwise it sleeps: a quarter of a second, or what is left where that is less.
pub proof fn law_backoff_steps(total: u128, elapsed: u128, stopped: bool, r: BackoffStep)
    requires
        call_ensures(backoff_step, (total, elapsed, stopped), r),
    ensures
        r is Elapsed <==> elapsed >= total,
        r is Stopped <==> elapsed < total && stopped,
        r is Sleep <==> elapsed < total && !stopped,
        r matches BackoffStep::Sleep(nanos) ==> 0 < nanos <= 250_000_000 && elapsed + nanos <= total
            && (nanos == 250_000_000 || elapsed + nanos == total),
{
}

} // verus!
