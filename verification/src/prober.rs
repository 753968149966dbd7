//! The readiness prober's decisions: a bounded poll of the engine's health
//! endpoint with a fixed delay between attempts, answering a plain flag —
//! never an error — once a probe succeeds or the attempts run out.
use vstd::prelude::*;

verus! {

/// How many probes the engine is given by default.
pub const DEFAULT_PROBE_ATTEMPTS: usize = 30;

/// The fixed delay between probes, in milliseconds.
pub const DEFAULT_PROBE_INTERVAL_MS: u64 = 500;

/// What the prober does after an attempt.
#[derive(Debug, Clone, Copy, PartialEq, Eq, Structural)]
pub enum ProbeStep {
    /// The probe succeeded: the engine is ready.
    Ready,
    /// The probe failed with attempts left: wait the fixed delay, probe
    /// again.
    RetryAfterDelay,
    /// The probe failed and the attempts are spent: report not ready.
    GiveUp,
}

/// The prober's one decision, after the `attempts_made`-th attempt came
/// back with `success`.
pub fn prober_step(success: bool, attempts_made: usize, max_attempts: usize) -> (r: ProbeStep)
    ensures
        success ==> r == ProbeStep::Ready,
        !success && attempts_made < max_attempts ==> r == ProbeStep::RetryAfterDelay,
        !success && attempts_made >= max_attempts ==> r == ProbeStep::GiveUp,
{
    if success {
        ProbeStep::Ready
    } else if attempts_made < max_attempts {
        ProbeStep::RetryAfterDelay
    } else {
        ProbeStep::GiveUp
    }
}

/// How a probe run ended: the flag handed to the caller, and how many
/// attempts were made to get it.
#[derive(Debug, Clone, Copy)]
pub struct ProbeOutcome {
    pub ready: bool,
    pub attempts: usize,
}

/// The whole probe loop, run against a fixed sequence of attempt outcomes
/// (the test double of the health endpoint): ready exactly when some
/// attempt within the bound succeeds, after exactly the attempts up to and
/// including the first success — or all of them, when none succeeds.
pub fn run_prober(outcomes: &Vec<bool>, max_attempts: usize) -> (r: ProbeOutcome)
    requires
        outcomes@.len() >= max_attempts,
    ensures
        r.ready <==> exists|i: int| 0 <= i < max_attempts && outcomes@[i],
        r.ready ==> 1 <= r.attempts <= max_attempts && outcomes@[r.attempts - 1] && forall|j: int|
            0 <= j < r.attempts - 1 ==> !outcomes@[j],
        !r.ready ==> r.attempts == max_attempts,
{
    let mut attempts: usize = 0;
    while attempts < max_attempts
        invariant
            attempts <= max_attempts,
            max_attempts <= outcomes@.len(),
            forall|j: int| 0 <= j < attempts ==> !outcomes@[j],
        decreases max_attempts - attempts,
    {
        let ok = outcomes[attempts];
        attempts = attempts + 1;
        match prober_step(ok, attempts, max_attempts) {
            ProbeStep::Ready => {
                return ProbeOutcome { ready: true, attempts };
            },
            ProbeStep::RetryAfterDelay => {},
            ProbeStep::GiveUp => {
                return ProbeOutcome { ready: false, attempts };
            },
        }
    }
    ProbeOutcome { ready: false, attempts: max_attempts }
}

} // verus!
