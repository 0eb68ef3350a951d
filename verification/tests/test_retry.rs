use voyageai::errors::VoyageError;
use voyageai::retry::{run_with_retries, RetryOrchestrator, RetryStep};

#[test]
fn quota_on_every_attempt_stops_after_max_retries_plus_one() {
    let mut outcomes: Vec<Result<u32, VoyageError>> = Vec::new();
    for _ in 0..10 {
        outcomes.push(Err(VoyageError::RateLimitExceeded { reset_in_ms: 250 }));
    }
    let (result, attempts) = run_with_retries(&mut outcomes, 3);
    assert_eq!(attempts, 4);
    assert!(matches!(result, Err(VoyageError::RateLimitExceeded { reset_in_ms: 250 })));
}

#[test]
fn non_quota_error_returns_immediately() {
    let mut outcomes: Vec<Result<u32, VoyageError>> =
        vec![Err(VoyageError::Unauthorized), Ok(5)];
    let (result, attempts) = run_with_retries(&mut outcomes, 3);
    assert_eq!(attempts, 1);
    assert!(matches!(result, Err(VoyageError::Unauthorized)));
}

#[test]
fn success_returns_immediately() {
    let mut outcomes: Vec<Result<u32, VoyageError>> = vec![Ok(7)];
    let (result, attempts) = run_with_retries(&mut outcomes, 3);
    assert_eq!(attempts, 1);
    assert_eq!(result.unwrap(), 7);
}

#[test]
fn quota_then_success_retries_once() {
    let mut outcomes: Vec<Result<u32, VoyageError>> =
        vec![Err(VoyageError::RateLimitExceeded { reset_in_ms: 50 }), Ok(9)];
    let (result, attempts) = run_with_retries(&mut outcomes, 3);
    assert_eq!(attempts, 2);
    assert_eq!(result.unwrap(), 9);
}

#[test]
fn reset_aware_step_sleeps_the_declared_reset() {
    let mut orchestrator = RetryOrchestrator::new(2, 100);
    let step: RetryStep<u32> =
        orchestrator.observe(Err(VoyageError::RateLimitExceeded { reset_in_ms: 777 }));
    // the provider-declared reset time is honored verbatim, not the ladder
    assert!(matches!(step, RetryStep::SleepAndRetry(777)));
}

#[test]
fn zero_retries_surfaces_quota_error_at_once() {
    let mut orchestrator = RetryOrchestrator::new(0, 100);
    let step: RetryStep<u32> =
        orchestrator.observe(Err(VoyageError::RateLimitExceeded { reset_in_ms: 10 }));
    assert!(matches!(
        step,
        RetryStep::Done(Err(VoyageError::RateLimitExceeded { reset_in_ms: 10 }))
    ));
}

#[test]
fn fixed_delay_variant_doubles_the_ladder() {
    let mut orchestrator = RetryOrchestrator::new(5, 100);
    let first: RetryStep<u32> =
        orchestrator.observe_fixed_delay(Err(VoyageError::RateLimitExceeded { reset_in_ms: 9 }));
    let second: RetryStep<u32> =
        orchestrator.observe_fixed_delay(Err(VoyageError::RateLimitExceeded { reset_in_ms: 9 }));
    assert!(matches!(first, RetryStep::SleepAndRetry(100)));
    assert!(matches!(second, RetryStep::SleepAndRetry(200)));
}
