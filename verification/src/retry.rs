use vstd::prelude::*;
use crate::errors::VoyageError;

verus! {

/// The provider-declared reset delay carried by a quota failure.
pub open spec fn spec_reset_of(e: VoyageError) -> u64 {
    match e {
        VoyageError::RateLimitExceeded { reset_in_ms } => reset_in_ms,
        _ => 0,
    }
}

/// What the driver of a retried operation must do next.
pub enum RetryStep<T> {
    /// Hand this result to the caller; make no further attempt.
    Done(Result<T, VoyageError>),
    /// Sleep this many milliseconds, then invoke the operation again.
    SleepAndRetry(u64),
}

/// Decision core of the retry loop.
///
/// One orchestrator accompanies one logical operation. After every attempt
/// the driver reports the outcome through [`Self::observe`] (or
/// [`Self::observe_fixed_delay`]) and performs the step handed back. Only
/// the "quota exceeded" outcome is ever retried, at most `max_retries`
/// times; every other failure is surfaced at once.
pub struct RetryOrchestrator {
    max_retries: u32,
    retries: u32,
    delay_ms: u64,
}

/// Result and number of attempts consumed when the outcomes in `outcomes`
/// are observed in order, starting with `retries` retries already spent.
/// `None` means the sequence ended before the orchestrator decided, which
/// cannot happen once `outcomes` holds more than the retries that are left.
pub open spec fn spec_drive<T>(
    outcomes: Seq<Result<T, VoyageError>>,
    max_retries: u32,
    retries: u32,
) -> Option<(Result<T, VoyageError>, int)>
    decreases outcomes.len(),
{
    if outcomes.len() == 0 {
        None
    } else if !(outcomes[0] matches Err(VoyageError::RateLimitExceeded { .. })) {
        Some((outcomes[0], 1))
    } else if retries >= max_retries {
        Some((outcomes[0], 1))
    } else {
        match spec_drive(outcomes.drop_first(), max_retries, (retries + 1) as u32) {
            None => None,
            Some((r, n)) => Some((r, n + 1)),
        }
    }
}

impl RetryOrchestrator {
    pub closed spec fn spec_max_retries(&self) -> u32 {
        self.max_retries
    }

    pub closed spec fn spec_retries(&self) -> u32 {
        self.retries
    }

    pub closed spec fn spec_delay_ms(&self) -> u64 {
        self.delay_ms
    }

    pub fn new(max_retries: u32, initial_delay_ms: u64) -> (r: Self)
        ensures
            r.spec_max_retries() == max_retries,
            r.spec_retries() == 0,
            r.spec_delay_ms() == initial_delay_ms,
    {
        RetryOrchestrator { max_retries, retries: 0, delay_ms: initial_delay_ms }
    }

    /// Decides on an attempt's outcome, honoring the provider-declared reset
    /// time verbatim: a retried quota failure sleeps exactly `reset_in_ms`,
    /// never the internal backoff ladder. The ladder is still doubled so the
    /// fixed-delay entry point stays in step.
    pub fn observe<T>(&mut self, attempt: Result<T, VoyageError>) -> (step: RetryStep<T>)
        ensures
            final(self).spec_max_retries() == old(self).spec_max_retries(),
            attempt is Ok ==> (step matches RetryStep::Done(r) && r == attempt && *final(self) == *old(self)),
            (attempt is Err && !(attempt->Err_0 is RateLimitExceeded)) ==> (step matches RetryStep::Done(r) && r == attempt && *final(self) == *old(self)),
            (attempt is Err && attempt->Err_0 is RateLimitExceeded && old(self).spec_retries() >= old(self).spec_max_retries()) ==> (step matches RetryStep::Done(r) && r == attempt && *final(self) == *old(self)),
            (attempt is Err && attempt->Err_0 is RateLimitExceeded && old(self).spec_retries() < old(self).spec_max_retries()) ==> (step matches RetryStep::SleepAndRetry(d) && d == spec_reset_of(attempt->Err_0) && final(self).spec_retries() == old(self).spec_retries() + 1 && final(self).spec_delay_ms() == doubled(old(self).spec_delay_ms())),
    {
        match attempt {
            Ok(value) => RetryStep::Done(Ok(value)),
            Err(VoyageError::RateLimitExceeded { reset_in_ms }) => {
                if self.retries >= self.max_retries {
                    RetryStep::Done(Err(VoyageError::RateLimitExceeded { reset_in_ms }))
                } else {
                    self.retries = self.retries + 1;
                    self.delay_ms = if self.delay_ms > u64::MAX / 2 {
                        u64::MAX
                    } else {
                        self.delay_ms * 2
                    };
                    RetryStep::SleepAndRetry(reset_in_ms)
                }
            },
            Err(other) => RetryStep::Done(Err(other)),
        }
    }

    /// Alternate entry point for drivers that prefer the internal
    /// exponential-backoff ladder over the provider-declared reset time:
    /// a retried quota failure sleeps the current ladder delay, which then
    /// doubles.
    pub fn observe_fixed_delay<T>(&mut self, attempt: Result<T, VoyageError>) -> (step: RetryStep<T>)
        ensures
            final(self).spec_max_retries() == old(self).spec_max_retries(),
            attempt is Ok ==> (step matches RetryStep::Done(r) && r == attempt && *final(self) == *old(self)),
            (attempt is Err && !(attempt->Err_0 is RateLimitExceeded)) ==> (step matches RetryStep::Done(r) && r == attempt && *final(self) == *old(self)),
            (attempt is Err && attempt->Err_0 is RateLimitExceeded && old(self).spec_retries() >= old(self).spec_max_retries()) ==> (step matches RetryStep::Done(r) && r == attempt && *final(self) == *old(self)),
            (attempt is Err && attempt->Err_0 is RateLimitExceeded && old(self).spec_retries() < old(self).spec_max_retries()) ==> (step matches RetryStep::SleepAndRetry(d) && d == old(self).spec_delay_ms() && final(self).spec_retries() == old(self).spec_retries() + 1 && final(self).spec_delay_ms() == doubled(old(self).spec_delay_ms())),
    {
        match attempt {
            Ok(value) => RetryStep::Done(Ok(value)),
            Err(VoyageError::RateLimitExceeded { reset_in_ms }) => {
                if self.retries >= self.max_retries {
                    RetryStep::Done(Err(VoyageError::RateLimitExceeded { reset_in_ms }))
                } else {
                    let d = self.delay_ms;
                    self.retries = self.retries + 1;
                    self.delay_ms = if self.delay_ms > u64::MAX / 2 {
                        u64::MAX
                    } else {
                        self.delay_ms * 2
                    };
                    RetryStep::SleepAndRetry(d)
                }
            },
            Err(other) => RetryStep::Done(Err(other)),
        }
    }
}

/// The backoff ladder after one doubling, saturating at the largest delay.
pub open spec fn doubled(delay: u64) -> u64 {
    if delay > u64::MAX / 2 {
        u64::MAX
    } else {
        (delay * 2) as u64
    }
}

/// Replays a fixed sequence of outcomes through a fresh orchestrator, as the
/// asynchronous driver would, and reports the final result together with how
/// many attempts were consumed.
pub fn run_with_retries<T>(outcomes: &mut Vec<Result<T, VoyageError>>, max_retries: u32) -> (r: (
    Result<T, VoyageError>,
    u32,
))
    requires
        spec_drive(old(outcomes)@, max_retries, 0) is Some,
        old(outcomes)@.len() <= u32::MAX,
    ensures
        Some((r.0, r.1 as int)) == spec_drive(old(outcomes)@, max_retries, 0),
{
    let ghost whole = outcomes@;
    let ghost total = spec_drive(whole, max_retries, 0)->Some_0;
    let mut orchestrator = RetryOrchestrator::new(max_retries, 100);
    let mut attempts: u32 = 0;
    let mut i: usize = 0;
    proof {
        assert(whole.skip(0) =~= whole);
    }
    loop
        invariant
            whole == old(outcomes)@,
            orchestrator.spec_max_retries() == max_retries,
            outcomes@ == whole.skip(i as int),
            0 <= i < whole.len(),
            whole.len() <= u32::MAX,
            attempts == i,
            orchestrator.spec_retries() == i,
            spec_drive(whole, max_retries, 0) == Some(total),
            spec_drive(whole.skip(i as int), max_retries, i as u32) == Some(
                (total.0, total.1 - i),
            ),
        decreases whole.len() - i,
    {
        proof {
            assert(whole.skip(i as int)[0] == whole[i as int]);
        }
        let ghost pre_retries = orchestrator.spec_retries();
        let attempt = outcomes.remove(0);
        let ghost att = attempt;
        let step = orchestrator.observe(attempt);
        match step {
            RetryStep::Done(result) => {
                proof {
                    assert(att == whole[i as int]);
                    if att is Err && att->Err_0 is RateLimitExceeded {
                        assert(pre_retries >= max_retries);
                    }
                    assert(spec_drive(whole.skip(i as int), max_retries, i as u32) == Some(
                        (att, 1int),
                    ));
                    assert(spec_drive(whole, max_retries, 0) == Some((att, i as int + 1)));
                }
                return (result, attempts + 1);
            },
            RetryStep::SleepAndRetry(_wait) => {
                proof {
                    assert(whole.skip(i as int).drop_first() =~= whole.skip(i as int + 1));
                    assert(outcomes@ =~= whole.skip(i as int + 1));
                }
                attempts = attempts + 1;
                i = i + 1;
            },
        }
    }
}

/// Retry termination, quota half: an operation that hits the quota on every
/// attempt consumes exactly `max_retries + 1` attempts (counting from
/// `retries` already spent) and surfaces the quota error to the caller.
pub proof fn lemma_quota_exhaustion<T>(
    outcomes: Seq<Result<T, VoyageError>>,
    max_retries: u32,
    retries: u32,
)
    requires
        forall|i: int|
            0 <= i < outcomes.len() ==> (#[trigger] outcomes[i]) matches Err(
                VoyageError::RateLimitExceeded { .. },
            ),
        retries <= max_retries,
        outcomes.len() >= max_retries - retries + 1,
    ensures
        spec_drive(outcomes, max_retries, retries) == Some(
            (outcomes[max_retries - retries], max_retries - retries + 1),
        ),
    decreases max_retries - retries,
{
    if retries < max_retries {
        lemma_quota_exhaustion(outcomes.drop_first(), max_retries, (retries + 1) as u32);
        assert(outcomes.drop_first()[max_retries - retries - 1] == outcomes[max_retries
            - retries]);
    }
}

/// Retry termination, non-quota half: any outcome other than a quota
/// failure — a success or any other error — ends the drive at once, after a
/// single attempt and with no retry sleep.
pub proof fn lemma_non_quota_immediate<T>(
    outcomes: Seq<Result<T, VoyageError>>,
    max_retries: u32,
    retries: u32,
)
    requires
        outcomes.len() > 0,
        !(outcomes[0] matches Err(VoyageError::RateLimitExceeded { .. })),
    ensures
        spec_drive(outcomes, max_retries, retries) == Some((outcomes[0], 1int)),
{
}

} // verus!
