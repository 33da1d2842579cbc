//! The ways in which a check can fail.
use vstd::prelude::*;
use vstd::string::StringExecFns;

verus! {

/// Why a check did not pass.
#[derive(Clone, Debug, PartialEq, Eq)]
pub enum AuditCheckError {
    /// The audit tool could not be started.
    Spawn,
    /// The standard error of the audit tool could not be attached.
    Stderr,
    /// The standard output of the audit tool could not be attached.
    Stdout,
    /// The audit tool ended without an exit code, as when a signal ends it.
    Code,
    /// A worker ended without handing over its result.
    Join,
    /// It could not be found out whether the audit tool is installed.
    AuditCheck,
    /// The audit tool is not installed, or does not answer for its version.
    AuditVersionCheck,
    /// The version of the compiler could not be found out.
    RustcVersion,
    /// The compiler is older than the audit tool needs.
    RustcVersionCheck {
        /// The oldest version of the compiler that will do.
        msrv: &'static str,
    },
    /// The audit found advisories, or the audit tool itself failed.
    RustSec,
    /// The tracker did not create the issue.
    CreateIssue {
        /// The status of the tracker's answer.
        status: u16,
        /// The answer itself, for the log.
        body: String,
    },
    /// No answer came from the tracker, or none that could be read.
    Transport,
}

impl AuditCheckError {
    /// What `message` says of this error.
    pub open spec fn message_of(self) -> Seq<char> {
        match self {
            AuditCheckError::Spawn => "Unable to start cargo audit"@,
            AuditCheckError::Stderr => "Unable to pipe stderr"@,
            AuditCheckError::Stdout => "Unable to pipe stdout"@,
            AuditCheckError::Code => "Unable to determine status code"@,
            AuditCheckError::Join => "Error joining thread handle"@,
            AuditCheckError::AuditCheck => "cargo audit check has failed"@,
            AuditCheckError::AuditVersionCheck => "cargo audit version check failed"@,
            AuditCheckError::RustcVersion => "Unable to determine the version of rustc"@,
            AuditCheckError::RustcVersionCheck { msrv } => "cargo audit requires rust \""@ + msrv@
                + "\" or greater"@,
            AuditCheckError::RustSec => "cargo audit has found advisories"@,
            AuditCheckError::CreateIssue { .. } => "Unable to create the issue"@,
            AuditCheckError::Transport => "Unable to reach the issue tracker"@,
        }
    }

    /// The error in words, for the log.
    pub fn message(&self) -> (text: String)
        ensures
            text@ == self.message_of(),
    {
        match self {
            AuditCheckError::Spawn => "Unable to start cargo audit".to_string(),
            AuditCheckError::Stderr => "Unable to pipe stderr".to_string(),
            AuditCheckError::Stdout => "Unable to pipe stdout".to_string(),
            AuditCheckError::Code => "Unable to determine status code".to_string(),
            AuditCheckError::Join => "Error joining thread handle".to_string(),
            AuditCheckError::AuditCheck => "cargo audit check has failed".to_string(),
            AuditCheckError::AuditVersionCheck => "cargo audit version check failed".to_string(),
            AuditCheckError::RustcVersion => "Unable to determine the version of rustc".to_string(),
            AuditCheckError::RustcVersionCheck { msrv } => {
                let mut text = "cargo audit requires rust \"".to_string();
                text.append(msrv);
                text.append("\" or greater");
                text
            },
            AuditCheckError::RustSec => "cargo audit has found advisories".to_string(),
            AuditCheckError::CreateIssue { .. } => "Unable to create the issue".to_string(),
            AuditCheckError::Transport => "Unable to reach the issue tracker".to_string(),
        }
    }
}

/// The error for a worker that ended without handing over its result.
/// What the worker left behind says nothing that the check could use, so it
/// is dropped.
pub fn handle_join_error<E>(_e: E) -> (error: AuditCheckError)
    ensures
        error == AuditCheckError::Join,
{
    AuditCheckError::Join
}

} // verus!
