use tweet_ingest::db::{classify_failure, is_deadlock_error, StoreFailure};
use tweet_ingest::retry::RetryDecision;

#[test]
fn conflict_signatures_are_transient() {
    assert!(is_deadlock_error("Neo.TransientError.Transaction.DeadlockDetected"));
    assert!(is_deadlock_error("org.neo4j.TransactionTerminatedException: gone"));
    assert!(is_deadlock_error("failed because of concurrent access to node 5"));
    assert!(is_deadlock_error("can't acquire lock: deadlock"));
}

#[test]
fn other_failures_are_not_conflicts() {
    assert!(!is_deadlock_error(""));
    assert!(!is_deadlock_error("Neo.ClientError.Schema.ConstraintValidationFailed"));
    assert!(!is_deadlock_error("Deadlock"));
    assert!(!is_deadlock_error("concurrentaccess"));
    assert!(!is_deadlock_error("connection error"));
}

#[test]
fn classification_follows_the_signature() {
    assert_eq!(classify_failure("DeadlockDetected"), RetryDecision::Transient);
    assert_eq!(classify_failure("ConstraintValidationFailed"), RetryDecision::Permanent);
}

#[test]
fn a_driver_error_is_described_by_its_debug_text() {
    let f = StoreFailure::from_error(&neo4rs::Error::ConnectionError);
    assert_eq!(f.detail, "ConnectionError");
    assert_eq!(f.decision, RetryDecision::Permanent);
}

#[test]
fn a_driver_error_that_reports_a_deadlock_is_transient() {
    let e = neo4rs::Error::UnexpectedMessage(String::from(
        "Neo.TransientError.Transaction.DeadlockDetected: could not lock",
    ));
    let f = StoreFailure::from_error(&e);
    assert_eq!(f.decision, RetryDecision::Transient);
    assert!(f.detail.contains("DeadlockDetected"));
    assert!(f.detail.starts_with("UnexpectedMessage("));
}

#[test]
fn a_driver_error_without_a_signature_is_permanent() {
    let e = neo4rs::Error::AuthenticationError(String::from("wrong password"));
    let f = StoreFailure::from_error(&e);
    assert_eq!(f.decision, RetryDecision::Permanent);
    assert_eq!(f.detail, "AuthenticationError(\"wrong password\")");
}
