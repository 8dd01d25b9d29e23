use tweet_ingest::retry::{
    Action, BatchOutcome, BatchState, RetryController, RetryDecision, RetryPolicy, WriteEvent,
};

fn transient(elapsed_ms: u64) -> WriteEvent {
    WriteEvent::Failed { decision: RetryDecision::Transient, elapsed_ms }
}

fn permanent(elapsed_ms: u64) -> WriteEvent {
    WriteEvent::Failed { decision: RetryDecision::Permanent, elapsed_ms }
}

#[test]
fn the_default_policy_has_the_usual_numbers() {
    let p = RetryPolicy::default();
    assert_eq!(p.initial_interval_ms(), 100);
    assert_eq!(p.multiplier(), 2);
    assert_eq!(p.max_interval_ms(), 10_000);
    assert_eq!(p.max_elapsed_ms(), 60_000);
}

#[test]
fn a_policy_needs_a_positive_delay_within_the_cap_and_a_multiplier() {
    assert!(RetryPolicy::new(1, 1, 1, 0).is_some());
    assert!(RetryPolicy::new(0, 2, 10, 100).is_none());
    assert!(RetryPolicy::new(11, 2, 10, 100).is_none());
    assert!(RetryPolicy::new(5, 0, 10, 100).is_none());
    let p = RetryPolicy::new(5, 3, 40, 1000).unwrap();
    assert_eq!(p.initial_interval_ms(), 5);
    assert_eq!(p.multiplier(), 3);
    assert_eq!(p.max_interval_ms(), 40);
    assert_eq!(p.max_elapsed_ms(), 1000);
}

#[test]
fn a_new_batch_waits_for_a_slot() {
    let c = RetryController::new(RetryPolicy::default());
    assert_eq!(c.state(), BatchState::Pending);
    assert_eq!(c.action(), Action::AwaitSlot);
    assert_eq!(c.retries(), 0);
    assert!(!c.is_terminal());
}

#[test]
fn a_write_that_succeeds_at_once_is_committed() {
    let mut c = RetryController::new(RetryPolicy::default());
    assert_eq!(c.step(WriteEvent::SlotGranted), Action::Attempt);
    assert_eq!(c.state(), BatchState::Attempting);
    assert_eq!(c.step(WriteEvent::Succeeded), Action::Finish);
    assert_eq!(c.state(), BatchState::Committed);
    assert_eq!(c.retries(), 0);
    assert!(c.is_terminal());
    assert_eq!(c.outcome(), Some(BatchOutcome::Succeeded));
}

#[test]
fn two_transient_failures_then_success_commit_after_two_retries() {
    let mut c = RetryController::new(RetryPolicy::default());
    assert_eq!(c.step(WriteEvent::SlotGranted), Action::Attempt);
    assert_eq!(c.step(transient(20)), Action::Sleep(100));
    assert_eq!(c.state(), BatchState::Backoff);
    assert_eq!(c.step(WriteEvent::BackoffElapsed), Action::Attempt);
    assert_eq!(c.step(transient(150)), Action::Sleep(200));
    assert_eq!(c.step(WriteEvent::BackoffElapsed), Action::Attempt);
    assert_eq!(c.step(WriteEvent::Succeeded), Action::Finish);
    assert_eq!(c.state(), BatchState::Committed);
    assert_eq!(c.retries(), 2);
    assert_eq!(c.outcome(), Some(BatchOutcome::SucceededAfterRetries { retries: 2 }));
}

#[test]
fn a_permanent_failure_ends_the_batch_without_a_retry() {
    let mut c = RetryController::new(RetryPolicy::default());
    c.step(WriteEvent::SlotGranted);
    assert_eq!(c.step(permanent(5)), Action::Finish);
    assert_eq!(c.state(), BatchState::PermanentlyFailed);
    assert_eq!(c.retries(), 0);
    assert!(c.is_terminal());
    assert_eq!(c.outcome(), Some(BatchOutcome::PermanentlyFailed { retries: 0 }));
}

#[test]
fn a_permanent_failure_after_retries_still_ends_the_batch() {
    let mut c = RetryController::new(RetryPolicy::default());
    c.step(WriteEvent::SlotGranted);
    c.step(transient(0));
    c.step(WriteEvent::BackoffElapsed);
    assert_eq!(c.step(permanent(300)), Action::Finish);
    assert_eq!(c.state(), BatchState::PermanentlyFailed);
    assert_eq!(c.retries(), 1);
}

#[test]
fn delays_double_up_to_the_cap() {
    let policy = RetryPolicy::new(100, 2, 10_000, u64::MAX).unwrap();
    let mut c = RetryController::new(policy);
    c.step(WriteEvent::SlotGranted);
    let mut delays = Vec::new();
    for _ in 0..10 {
        match c.step(transient(0)) {
            Action::Sleep(ms) => delays.push(ms),
            other => panic!("expected a delay, got {:?}", other),
        }
        assert_eq!(c.step(WriteEvent::BackoffElapsed), Action::Attempt);
    }
    assert_eq!(delays, vec![100, 200, 400, 800, 1600, 3200, 6400, 10_000, 10_000, 10_000]);
}

#[test]
fn delays_never_shrink_and_never_exceed_the_cap() {
    let policy = RetryPolicy::new(7, 3, 500, u64::MAX).unwrap();
    let mut c = RetryController::new(policy);
    c.step(WriteEvent::SlotGranted);
    let mut last = 0;
    for _ in 0..50 {
        match c.step(transient(0)) {
            Action::Sleep(ms) => {
                assert!(ms >= last);
                assert!(ms <= 500);
                assert!(ms >= 7);
                last = ms;
            }
            other => panic!("expected a delay, got {:?}", other),
        }
        c.step(WriteEvent::BackoffElapsed);
    }
    assert_eq!(last, 500);
}

#[test]
fn a_multiplier_of_one_keeps_the_delay() {
    let policy = RetryPolicy::new(50, 1, 1000, 10_000).unwrap();
    let mut c = RetryController::new(policy);
    c.step(WriteEvent::SlotGranted);
    for _ in 0..5 {
        assert_eq!(c.step(transient(0)), Action::Sleep(50));
        c.step(WriteEvent::BackoffElapsed);
    }
}

#[test]
fn huge_parameters_do_not_overflow() {
    let policy = RetryPolicy::new(u64::MAX / 2, u64::MAX, u64::MAX, u64::MAX).unwrap();
    let mut c = RetryController::new(policy);
    c.step(WriteEvent::SlotGranted);
    assert_eq!(c.step(transient(0)), Action::Sleep(u64::MAX / 2));
    c.step(WriteEvent::BackoffElapsed);
    assert_eq!(c.step(transient(0)), Action::Finish);
    assert_eq!(c.state(), BatchState::RetriesExhausted);
}

#[test]
fn a_failure_after_the_budget_exhausts_the_batch() {
    let mut c = RetryController::new(RetryPolicy::default());
    c.step(WriteEvent::SlotGranted);
    assert_eq!(c.step(transient(60_001)), Action::Finish);
    assert_eq!(c.state(), BatchState::RetriesExhausted);
    assert_eq!(c.retries(), 0);
}

#[test]
fn a_delay_that_would_overrun_the_budget_is_not_taken() {
    let mut c = RetryController::new(RetryPolicy::default());
    c.step(WriteEvent::SlotGranted);
    assert_eq!(c.step(transient(59_900)), Action::Sleep(100));
    c.step(WriteEvent::BackoffElapsed);
    assert_eq!(c.step(transient(60_000)), Action::Finish);
    assert_eq!(c.state(), BatchState::RetriesExhausted);
    assert_eq!(c.retries(), 1);
    assert_eq!(c.outcome(), Some(BatchOutcome::RetriesExhausted { retries: 1 }));
}

#[test]
fn retries_end_even_if_the_clock_stands_still() {
    let mut c = RetryController::new(RetryPolicy::default());
    c.step(WriteEvent::SlotGranted);
    let mut slept: u64 = 0;
    let mut retries = 0;
    loop {
        match c.step(transient(0)) {
            Action::Sleep(ms) => {
                slept += ms;
                retries += 1;
                assert!(retries <= 600);
                c.step(WriteEvent::BackoffElapsed);
            }
            Action::Finish => break,
            other => panic!("unexpected {:?}", other),
        }
    }
    assert_eq!(c.state(), BatchState::RetriesExhausted);
    assert!(slept <= 60_000);
    assert_eq!(c.retries(), retries);
    assert_eq!(retries, 11);
    assert_eq!(slept, 100 + 200 + 400 + 800 + 1600 + 3200 + 6400 + 4 * 10_000);
}

#[test]
fn events_that_a_state_does_not_expect_change_nothing() {
    let mut c = RetryController::new(RetryPolicy::default());
    assert_eq!(c.step(WriteEvent::Succeeded), Action::AwaitSlot);
    assert_eq!(c.step(transient(0)), Action::AwaitSlot);
    assert_eq!(c.step(WriteEvent::BackoffElapsed), Action::AwaitSlot);
    assert_eq!(c.state(), BatchState::Pending);
    c.step(WriteEvent::SlotGranted);
    assert_eq!(c.step(WriteEvent::SlotGranted), Action::Attempt);
    assert_eq!(c.step(WriteEvent::BackoffElapsed), Action::Attempt);
    c.step(transient(0));
    assert_eq!(c.step(WriteEvent::Succeeded), Action::Sleep(100));
    assert_eq!(c.state(), BatchState::Backoff);
    c.step(WriteEvent::BackoffElapsed);
    c.step(WriteEvent::Succeeded);
    let done = c;
    assert_eq!(c.step(transient(0)), Action::Finish);
    assert_eq!(c.step(WriteEvent::SlotGranted), Action::Finish);
    assert_eq!(c, done);
}

#[test]
fn a_batch_that_has_not_ended_has_no_outcome() {
    let mut c = RetryController::new(RetryPolicy::default());
    assert_eq!(c.outcome(), None);
    c.step(WriteEvent::SlotGranted);
    assert_eq!(c.outcome(), None);
    c.step(transient(0));
    assert_eq!(c.outcome(), None);
}
