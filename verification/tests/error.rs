use audit_check::error::{handle_join_error, AuditCheckError};
use std::any::Any;

#[test]
fn every_error_says_what_went_wrong() {
    assert_eq!(AuditCheckError::Spawn.message(), "Unable to start cargo audit");
    assert_eq!(AuditCheckError::Stderr.message(), "Unable to pipe stderr");
    assert_eq!(AuditCheckError::Stdout.message(), "Unable to pipe stdout");
    assert_eq!(AuditCheckError::Code.message(), "Unable to determine status code");
    assert_eq!(AuditCheckError::Join.message(), "Error joining thread handle");
    assert_eq!(AuditCheckError::AuditCheck.message(), "cargo audit check has failed");
    assert_eq!(
        AuditCheckError::AuditVersionCheck.message(),
        "cargo audit version check failed"
    );
    assert_eq!(
        AuditCheckError::RustcVersion.message(),
        "Unable to determine the version of rustc"
    );
    assert_eq!(
        AuditCheckError::RustcVersionCheck { msrv: "1.57.0" }.message(),
        "cargo audit requires rust \"1.57.0\" or greater"
    );
    assert_eq!(AuditCheckError::RustSec.message(), "cargo audit has found advisories");
    assert_eq!(
        AuditCheckError::CreateIssue { status: 422, body: "no".to_string() }.message(),
        "Unable to create the issue"
    );
    assert_eq!(AuditCheckError::Transport.message(), "Unable to reach the issue tracker");
}

#[test]
fn handle_join_error_is_a_join_error() {
    let left_behind: Box<dyn Any + Send> = Box::new("worker panicked");
    assert_eq!(handle_join_error(left_behind), AuditCheckError::Join);
    assert_eq!(handle_join_error(()), AuditCheckError::Join);
}
