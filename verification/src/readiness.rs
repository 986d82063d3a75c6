//! The content readiness waiter: how long to wait for the page to fill.
//!
//! The length of the page's visible text is sampled at a fixed interval. The
//! page is ready as soon as a sample reaches the threshold. A sample that
//! falls short is followed by a pause and another sample, until the budget
//! of pauses is spent; then the pass goes on with a page that is not ready.
//! Readiness makes the result better; it is no condition for extracting.

use vstd::prelude::*;

verus! {

/// The default threshold: 50 characters of visible text.
pub const DEFAULT_MIN_LENGTH: usize = 50;

/// The default pause between two samples, in milliseconds.
pub const DEFAULT_POLL_INTERVAL_MS: u64 = 500;

/// The default number of pauses after which the wait is given up.
pub const DEFAULT_MAX_ATTEMPTS: u32 = 20;

/// What the waiter is set up with.
#[derive(Clone, Copy, Debug, PartialEq, Eq)]
pub struct ReadinessConfig {
    pub min_length: usize,
    pub poll_interval_ms: u64,
    pub max_attempts: u32,
}

/// What follows a sample.
#[derive(Clone, Copy, Debug, PartialEq, Eq)]
pub enum WaitStep {
    /// The page is ready.
    Ready,
    /// The page is not ready: pause for `delay_ms` and sample again.
    Retry { delay_ms: u64 },
    /// The page is not ready and the budget is spent: go on without waiting.
    GiveUp,
}

/// The waiter: its setup and the number of pauses it has asked for.
#[derive(Clone, Copy, Debug, PartialEq, Eq)]
pub struct Waiter {
    pub config: ReadinessConfig,
    pub attempts: u32,
}

/// The step that follows a sample of `length` characters when `attempts`
/// pauses have been asked for.
pub open spec fn step_after(config: ReadinessConfig, attempts: u32, length: usize) -> WaitStep {
    if length >= config.min_length {
        WaitStep::Ready
    } else if attempts < config.max_attempts {
        WaitStep::Retry { delay_ms: config.poll_interval_ms }
    } else {
        WaitStep::GiveUp
    }
}

/// Whether the wait that sees the samples `samples` from index `from` on,
/// with `attempts` pauses already asked for, ends with the page ready. The
/// wait that runs out of samples ends with the page not ready.
pub open spec fn ready_from(
    config: ReadinessConfig,
    samples: Seq<usize>,
    from: int,
    attempts: int,
) -> bool
    decreases samples.len() - from,
{
    if from < 0 || from >= samples.len() {
        false
    } else if samples[from] >= config.min_length {
        true
    } else if attempts < config.max_attempts {
        ready_from(config, samples, from + 1, attempts + 1)
    } else {
        false
    }
}

/// Whether a wait that sees the samples `samples` ends with the page ready.
pub open spec fn becomes_ready(config: ReadinessConfig, samples: Seq<usize>) -> bool {
    ready_from(config, samples, 0, 0)
}

impl Waiter {
    /// The waiter never asks for more pauses than its budget.
    pub open spec fn well_formed(&self) -> bool {
        self.attempts <= self.config.max_attempts
    }

    /// A waiter that has not sampled yet.
    pub fn new(config: ReadinessConfig) -> (waiter: Waiter)
        ensures
            waiter.config == config,
            waiter.attempts == 0,
            waiter.well_formed(),
    {
        Waiter { config, attempts: 0 }
    }

    /// A waiter with the default setup.
    pub fn with_defaults() -> (waiter: Waiter)
        ensures
            waiter.config.min_length == DEFAULT_MIN_LENGTH,
            waiter.config.poll_interval_ms == DEFAULT_POLL_INTERVAL_MS,
            waiter.config.max_attempts == DEFAULT_MAX_ATTEMPTS,
            waiter.attempts == 0,
            waiter.well_formed(),
    {
        Waiter::new(
            ReadinessConfig {
                min_length: DEFAULT_MIN_LENGTH,
                poll_interval_ms: DEFAULT_POLL_INTERVAL_MS,
                max_attempts: DEFAULT_MAX_ATTEMPTS,
            },
        )
    }

    /// Takes in a sample of `length` characters and says what follows. Only
    /// a retry counts against the budget.
    pub fn observe(&mut self, length: usize) -> (step: WaitStep)
        ensures
            step == step_after(old(self).config, old(self).attempts, length),
            final(self).config == old(self).config,
            old(self).well_formed() ==> final(self).well_formed(),
            step is Retry ==> final(self).attempts == old(self).attempts + 1,
            !(step is Retry) ==> final(self).attempts == old(self).attempts,
    {
        if length >= self.config.min_length {
            WaitStep::Ready
        } else if self.attempts < self.config.max_attempts {
            self.attempts = self.attempts + 1;
            WaitStep::Retry { delay_ms: self.config.poll_interval_ms }
        } else {
            WaitStep::GiveUp
        }
    }
}

/// Runs the wait over samples taken beforehand: `true` as soon as a sample
/// has `min_length` characters or more, `false` once `max_attempts` pauses
/// did not help or the samples have run out. Nothing is slept here; the
/// pause of `poll_interval_ms` is what the caller owes between two samples.
pub fn wait_until_ready(
    samples: &Vec<usize>,
    min_length: usize,
    poll_interval_ms: u64,
    max_attempts: u32,
) -> (ready: bool)
    ensures
        ready == becomes_ready(
            (ReadinessConfig { min_length, poll_interval_ms, max_attempts }),
            samples@,
        ),
{
    let config = ReadinessConfig { min_length, poll_interval_ms, max_attempts };
    let mut waiter = Waiter::new(config);
    let mut i: usize = 0;
    while i < samples.len()
        invariant
            i <= samples.len(),
            config == (ReadinessConfig { min_length, poll_interval_ms, max_attempts }),
            waiter.config == config,
            waiter.well_formed(),
            ready_from(config, samples@, i as int, waiter.attempts as int) == becomes_ready(
                config,
                samples@,
            ),
        decreases samples.len() - i,
    {
        match waiter.observe(samples[i]) {
            WaitStep::Ready => {
                return true;
            },
            WaitStep::GiveUp => {
                return false;
            },
            WaitStep::Retry { .. } => {},
        }
        i += 1;
    }
    false
}

/// A wait ends ready exactly when one of the samples it gets to see is long
/// enough: one of the first `max_attempts + 1`, with only shorter ones
/// before it.
pub proof fn lemma_ready_from(config: ReadinessConfig, samples: Seq<usize>, from: int, attempts: int)
    requires
        0 <= from <= samples.len(),
        0 <= attempts <= config.max_attempts,
    ensures
        ready_from(config, samples, from, attempts) <==> exists|k: int|
            from <= k < samples.len() && k - from <= config.max_attempts - attempts
                && #[trigger] samples[k] >= config.min_length,
    decreases samples.len() - from,
{
    if from < samples.len() {
        if samples[from] >= config.min_length {
            assert(from <= from < samples.len() && samples[from] >= config.min_length);
        } else if attempts < config.max_attempts {
            lemma_ready_from(config, samples, from + 1, attempts + 1);
            if ready_from(config, samples, from + 1, attempts + 1) {
                let k = choose|k: int|
                    from + 1 <= k < samples.len() && k - (from + 1) <= config.max_attempts - (
                    attempts + 1) && #[trigger] samples[k] >= config.min_length;
                assert(from <= k < samples.len() && k - from <= config.max_attempts - attempts
                    && samples[k] >= config.min_length);
            }
        }
    }
}

} // verus!
