//! Sending the issue to the tracker: where it goes, and what to make of
//! the answer.
use crate::error::AuditCheckError;
use vstd::prelude::*;
use vstd::string::StringExecFns;

verus! {

/// The address of the tracker's repositories.
pub const API_ROOT: &'static str = "https://api.github.com/repos/";

/// The path of a repository's issues, after the repository's name.
pub const ISSUES_PATH: &'static str = "/issues";

/// The name of the header that says which answers are understood.
pub const ACCEPT_HEADER: &'static str = "Accept";

/// The kind of answer that is understood.
pub const ACCEPT: &'static str = "application/vnd.github+json";

/// The name of the header that says which version of the interface is
/// spoken.
pub const API_VERSION_HEADER: &'static str = "X-GitHub-Api-Version";

/// The version of the interface that is spoken.
pub const API_VERSION: &'static str = "2022-11-28";

/// The status with which the tracker says that it created the issue.
pub const CREATED: u16 = 201;

/// What the tracker hands back for an issue that it created.
#[derive(Clone, Copy, Debug, PartialEq, Eq)]
pub struct IssueReceipt {
    /// The identifier of the issue.
    pub id: usize,
}

/// What came back when the issue was sent.
#[derive(Clone, Debug, PartialEq, Eq)]
pub enum Reply {
    /// Nothing: the request did not get through, or the answer did not
    /// arrive.
    Nothing,
    /// An answer.
    Answer {
        /// The status of the answer.
        status: u16,
        /// The identifier of the issue, where the answer names one.
        id: Option<usize>,
        /// The answer as it came, for the log.
        body: String,
    },
}

/// The address to send an issue for the repository `owner_repo` to.
pub fn issues_url(owner_repo: &str) -> (url: String)
    ensures
        url@ == API_ROOT@ + owner_repo@ + ISSUES_PATH@,
{
    let mut url = API_ROOT.to_string();
    url.append(owner_repo);
    url.append(ISSUES_PATH);
    url
}

/// Whether `status` says that the tracker created the issue. An answer with
/// this status carries the receipt; any other answer is to be kept for the
/// log.
pub fn is_created(status: u16) -> (created: bool)
    ensures
        created == (status == CREATED),
{
    status == CREATED
}

/// What to make of the tracker's reply. The issue counts as filed only
/// where the tracker answers that it created it and names its identifier.
/// An answer with any other status is a refusal, and is handed on with the
/// error; no answer, or an answer of creation without an identifier, is a
/// failure to reach the tracker.
pub fn publish_outcome(reply: Reply) -> (outcome: Result<IssueReceipt, AuditCheckError>)
    ensures
        outcome == match reply {
            Reply::Nothing => Err::<IssueReceipt, AuditCheckError>(AuditCheckError::Transport),
            Reply::Answer { status, id, body } => if status != CREATED {
                Err(AuditCheckError::CreateIssue { status, body })
            } else {
                match id {
                    Some(id) => Ok(IssueReceipt { id }),
                    None => Err(AuditCheckError::Transport),
                }
            },
        },
{
    match reply {
        Reply::Nothing => Err(AuditCheckError::Transport),
        Reply::Answer { status, id, body } => {
            if !is_created(status) {
                Err(AuditCheckError::CreateIssue { status, body })
            } else {
                match id {
                    Some(id) => Ok(IssueReceipt { id }),
                    None => Err(AuditCheckError::Transport),
                }
            }
        },
    }
}

} // verus!
