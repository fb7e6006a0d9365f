use ic_asset::classify::{is_retryable, FailureKind, RemoteError};

fn err(kind: FailureKind) -> RemoteError {
    RemoteError { kind, message: String::from("x") }
}

#[test]
fn transient_kinds_are_retryable() {
    assert!(is_retryable(&err(FailureKind::Timeout)));
    assert!(is_retryable(&err(FailureKind::Overloaded)));
    assert!(is_retryable(&err(FailureKind::Unavailable)));
}

#[test]
fn fatal_kinds_are_not_retryable() {
    assert!(!is_retryable(&err(FailureKind::Rejected)));
    assert!(!is_retryable(&err(FailureKind::Invalid)));
    assert!(!is_retryable(&err(FailureKind::Permanent)));
}
