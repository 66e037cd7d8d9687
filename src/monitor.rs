//! The phase monitor: the decisions of the polling loop as one state value
//! and one step function. The loop that drives it (reading the clock,
//! draining the workers, printing progress) hands each poll to `step`.
//!
//! A run primes for a fixed time, during which nothing is measured; then
//! samples the throughput for a fixed time, at most once per sampling
//! interval; then finishes, and is done on the next poll.
use crate::stats::MAX_SAMPLES;
use vstd::prelude::*;

verus! {

pub const NANOS_PER_SECOND: u64 = 1000000000;

/// The default priming time: 10 seconds.
pub const PRIME_NS: u64 = 10000000000;

/// The default sampling time: 50 seconds.
pub const SAMPLE_NS: u64 = 50000000000;

/// The shortest time between two samples: 1/200 of a second.
pub const SAMPLE_EVERY_NS: u64 = 5000000;

/// The shortest time between two progress lines: 1/10 of a second.
pub const DISPLAY_EVERY_NS: u64 = 100000000;

/// Why a throughput cannot be computed.
#[derive(Clone, Copy, Debug, PartialEq, Eq, Structural)]
pub enum RateError {
    /// No unit of work has completed.
    NoWorkCompleted,
    /// No time has passed.
    NoTimeElapsed,
    /// The rate does not fit in 64 bits.
    TooFast,
}

/// Completions per second, rounded down, of `total` completions in
/// `elapsed_ns` nanoseconds.
pub open spec fn throughput_of(total: u64, elapsed_ns: u64) -> Result<u64, RateError> {
    if total == 0 {
        Err(RateError::NoWorkCompleted)
    } else if elapsed_ns == 0 {
        Err(RateError::NoTimeElapsed)
    } else if total * NANOS_PER_SECOND / (elapsed_ns as int) > u64::MAX {
        Err(RateError::TooFast)
    } else {
        Ok((total * NANOS_PER_SECOND / (elapsed_ns as int)) as u64)
    }
}

/// The throughput, in completions per second rounded down, of `total`
/// completions in `elapsed_ns` nanoseconds.
pub fn throughput(total: u64, elapsed_ns: u64) -> (r: Result<u64, RateError>)
    ensures
        r == throughput_of(total, elapsed_ns),
{
    if total == 0 {
        return Err(RateError::NoWorkCompleted);
    }
    if elapsed_ns == 0 {
        return Err(RateError::NoTimeElapsed);
    }
    proof {
        assert(total * NANOS_PER_SECOND <= u64::MAX * NANOS_PER_SECOND) by (nonlinear_arith)
            requires
                total <= u64::MAX,
        ;
    }
    let q = (total as u128) * (NANOS_PER_SECOND as u128) / (elapsed_ns as u128);
    if q > u64::MAX as u128 {
        Err(RateError::TooFast)
    } else {
        Ok(q as u64)
    }
}

/// The phases of a run, in the only order they come.
#[derive(Clone, Copy, Debug, PartialEq, Eq, Structural)]
pub enum Phase {
    Priming,
    Sampling,
    Finishing,
    Done,
}

/// The lengths and intervals of a run.
#[derive(Clone, Copy, Debug, PartialEq, Eq, Structural)]
pub struct MonitorConfig {
    pub prime_ns: u64,
    pub sample_ns: u64,
    pub sample_every_ns: u64,
    pub display_every_ns: u64,
    /// Room in the sample buffer: no sample is taken once it is full.
    pub max_samples: usize,
}

impl MonitorConfig {
    pub open spec fn wf(self) -> bool {
        self.prime_ns + self.sample_ns <= u64::MAX
    }

    /// The time at which sampling ends.
    pub open spec fn end_ns(self) -> int {
        self.prime_ns + self.sample_ns
    }

    /// A run that primes for `prime_ns` and samples for `sample_ns`, with
    /// the default intervals and room for every sample that the sampling
    /// time allows, up to `MAX_SAMPLES`.
    pub fn new(prime_ns: u64, sample_ns: u64) -> (r: MonitorConfig)
        requires
            prime_ns + sample_ns <= u64::MAX,
        ensures
            r.wf(),
            r.prime_ns == prime_ns,
            r.sample_ns == sample_ns,
            r.sample_every_ns == SAMPLE_EVERY_NS,
            r.display_every_ns == DISPLAY_EVERY_NS,
            r.max_samples == (if sample_ns / SAMPLE_EVERY_NS + 1 < MAX_SAMPLES {
                sample_ns / SAMPLE_EVERY_NS + 1
            } else {
                MAX_SAMPLES as int
            }),
    {
        let room = sample_ns / SAMPLE_EVERY_NS + 1;
        let max_samples = if room < MAX_SAMPLES as u64 {
            room as usize
        } else {
            MAX_SAMPLES
        };
        MonitorConfig {
            prime_ns,
            sample_ns,
            sample_every_ns: SAMPLE_EVERY_NS,
            display_every_ns: DISPLAY_EVERY_NS,
            max_samples,
        }
    }
}

/// The state of a run, changed only by `step`. Times are nanoseconds since
/// the start; speeds are completions per second.
pub struct RunState {
    pub config: MonitorConfig,
    pub phase: Phase,
    /// Every completion signal drained so far.
    pub total: u64,
    /// `total` when sampling began.
    pub primed_total: u64,
    /// The time of the latest poll.
    pub elapsed_ns: u64,
    pub last_sample_ns: u64,
    pub last_display_ns: u64,
    /// The latest throughput computed.
    pub speed: u64,
    /// The slowest and fastest throughput since sampling began.
    pub minimum: u64,
    pub maximum: u64,
    pub samples: Vec<u64>,
}

/// The phase after a poll at `now` in phase `p`.
pub open spec fn phase_after(p: Phase, config: MonitorConfig, now: int) -> Phase {
    match p {
        Phase::Priming => if now >= config.prime_ns {
            Phase::Sampling
        } else {
            Phase::Priming
        },
        Phase::Sampling => if now >= config.end_ns() {
            Phase::Finishing
        } else {
            Phase::Sampling
        },
        Phase::Finishing => Phase::Done,
        Phase::Done => Phase::Done,
    }
}

/// Whether a poll at `now` in state `s` needs the throughput: to seed the
/// slowest and fastest speed when priming ends, or to track them while
/// sampling.
pub open spec fn needs_rate(s: RunState, now: int) -> bool {
    ||| (s.phase == Phase::Priming && now >= s.config.prime_ns)
    ||| s.phase == Phase::Sampling
}

/// `total` after `drained` more signals; it stops at `u64::MAX`.
pub open spec fn total_after(s: RunState, drained: u64) -> u64 {
    if s.total + drained > u64::MAX {
        u64::MAX
    } else {
        (s.total + drained) as u64
    }
}

/// What a successful poll at `now` with `drained` new signals makes of `s`;
/// `display` tells whether a progress line is due.
pub open spec fn step_taken(s: RunState, t: RunState, drained: u64, now: u64, display: bool) -> bool {
    let rate = throughput_of(total_after(s, drained), now);
    let seeded = s.phase == Phase::Priming && t.phase == Phase::Sampling;
    let sample_due = t.phase == Phase::Sampling && now - s.last_sample_ns > s.config.sample_every_ns
        && s.samples@.len() < s.config.max_samples;
    &&& t.config == s.config
    &&& t.total == total_after(s, drained)
    &&& t.elapsed_ns == now
    &&& t.phase == phase_after(s.phase, s.config, now as int)
    &&& t.speed == (if rate is Ok {
        rate->Ok_0
    } else {
        s.speed
    })
    &&& seeded ==> t.minimum == t.speed && t.maximum == t.speed && t.primed_total == t.total
    &&& s.phase == Phase::Sampling ==> t.primed_total == s.primed_total && t.minimum == (
    if t.speed < s.minimum {
        t.speed
    } else {
        s.minimum
    }) && t.maximum == (if t.speed > s.maximum {
        t.speed
    } else {
        s.maximum
    })
    &&& !seeded && s.phase != Phase::Sampling ==> t.primed_total == s.primed_total && t.minimum
        == s.minimum && t.maximum == s.maximum
    &&& t.samples@ == (if sample_due {
        s.samples@.push(t.speed)
    } else {
        s.samples@
    })
    &&& t.last_sample_ns == (if sample_due {
        now
    } else {
        s.last_sample_ns
    })
    &&& display == (now - s.last_display_ns > s.config.display_every_ns)
    &&& t.last_display_ns == (if display {
        now
    } else {
        s.last_display_ns
    })
}

impl RunState {
    /// What holds of a run at every poll: samples are taken only while
    /// sampling and never beyond the buffer's room, each lies between the
    /// slowest and fastest speed, and the count never falls below what it
    /// was when sampling began.
    pub open spec fn wf(self) -> bool {
        &&& self.config.wf()
        &&& self.last_sample_ns <= self.elapsed_ns
        &&& self.last_display_ns <= self.elapsed_ns
        &&& self.samples@.len() <= self.config.max_samples
        &&& self.phase == Phase::Priming ==> self.samples@.len() == 0
        &&& self.phase != Phase::Priming ==> self.elapsed_ns >= self.config.prime_ns
        &&& self.phase != Phase::Priming ==> self.primed_total <= self.total && self.minimum
            <= self.maximum
        &&& forall|i: int|
            0 <= i < self.samples@.len() ==> self.minimum <= #[trigger] self.samples@[i]
                <= self.maximum
    }

    /// A run at its start: priming, with nothing counted or sampled.
    pub fn new(config: MonitorConfig) -> (r: RunState)
        requires
            config.wf(),
        ensures
            r.wf(),
            r.config == config,
            r.phase == Phase::Priming,
            r.total == 0,
            r.primed_total == 0,
            r.elapsed_ns == 0,
            r.last_sample_ns == 0,
            r.last_display_ns == 0,
            r.speed == 0,
            r.minimum == 0,
            r.maximum == 0,
            r.samples@.len() == 0,
    {
        RunState {
            config,
            phase: Phase::Priming,
            total: 0,
            primed_total: 0,
            elapsed_ns: 0,
            last_sample_ns: 0,
            last_display_ns: 0,
            speed: 0,
            minimum: 0,
            maximum: 0,
            samples: Vec::new(),
        }
    }

    /// Whether the run is over.
    pub fn is_done(&self) -> (r: bool)
        ensures
            r == (self.phase == Phase::Done),
    {
        self.phase == Phase::Done
    }

    /// One poll at `now_ns` that drained `drained` completion signals.
    /// Returns whether a progress line is due, or the reason the throughput
    /// that this poll needs cannot be computed; then nothing changes.
    pub fn step(&mut self, drained: u64, now_ns: u64) -> (r: Result<bool, RateError>)
        requires
            old(self).wf(),
            now_ns >= old(self).elapsed_ns,
        ensures
            final(self).wf(),
            final(self).total >= old(self).total,
            r is Err <==> needs_rate(*old(self), now_ns as int) && throughput_of(
                total_after(*old(self), drained),
                now_ns,
            ) is Err,
            r is Err ==> r->Err_0 == throughput_of(total_after(*old(self), drained), now_ns)->Err_0
                && *final(self) == *old(self),
            r is Ok ==> step_taken(*old(self), *final(self), drained, now_ns, r->Ok_0),
    {
        let total = self.total.saturating_add(drained);
        let rate = throughput(total, now_ns);
        let needs = match self.phase {
            Phase::Priming => now_ns >= self.config.prime_ns,
            Phase::Sampling => true,
            _ => false,
        };
        let speed = match rate {
            Ok(v) => v,
            Err(e) => {
                if needs {
                    return Err(e);
                }
                self.speed
            },
        };
        match self.phase {
            Phase::Priming => {
                if now_ns >= self.config.prime_ns {
                    self.phase = Phase::Sampling;
                    self.minimum = speed;
                    self.maximum = speed;
                    self.primed_total = total;
                }
            },
            Phase::Sampling => {
                if speed < self.minimum {
                    self.minimum = speed;
                }
                if speed > self.maximum {
                    self.maximum = speed;
                }
                if now_ns >= self.config.prime_ns + self.config.sample_ns {
                    self.phase = Phase::Finishing;
                }
            },
            Phase::Finishing => {
                self.phase = Phase::Done;
            },
            Phase::Done => {},
        }
        self.total = total;
        self.elapsed_ns = now_ns;
        self.speed = speed;
        if self.phase == Phase::Sampling && now_ns - self.last_sample_ns
            > self.config.sample_every_ns && self.samples.len() < self.config.max_samples {
            self.samples.push(speed);
            self.last_sample_ns = now_ns;
        }
        let display = now_ns - self.last_display_ns > self.config.display_every_ns;
        if display {
            self.last_display_ns = now_ns;
        }
        Ok(display)
    }
}

/// Samples are taken only once priming is over: a state with samples has
/// left priming, and its latest poll came no earlier than the end of
/// priming.
pub proof fn lemma_samples_only_after_priming(s: RunState)
    requires
        s.wf(),
        s.samples@.len() > 0,
    ensures
        s.phase != Phase::Priming,
        s.elapsed_ns >= s.config.prime_ns,
{
}

/// Once sampling has begun, the count is never below the count at which it
/// began, at any later poll.
pub proof fn lemma_count_kept_after_priming(s: RunState)
    requires
        s.wf(),
        s.phase != Phase::Priming,
    ensures
        s.total >= s.primed_total,
{
}

} // verus!
