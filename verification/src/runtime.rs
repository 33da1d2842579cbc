//! The course of one check, from the first look at the tool chain to the
//! verdict.
//!
//! The check does none of the work itself. It is told how each step went
//! and answers with the step to take next, or with the verdict. The verdict
//! follows the audit alone: whether an issue could be filed never changes
//! it.
use crate::error::AuditCheckError;
use crate::publish::IssueReceipt;
use vstd::prelude::*;

verus! {

/// The oldest version of the compiler that the audit tool runs with.
pub const MSRV: &'static str = "1.57.0";

/// The command that shows whether the audit tool is installed.
pub const AUDIT_VERSION_COMMAND: &'static str = "cargo audit --version";

/// How a look at the tool chain went.
#[derive(Clone, Copy, Debug, PartialEq, Eq)]
pub enum Probe {
    /// What was looked for is there.
    Passed,
    /// What was looked for is not there.
    Failed,
    /// The look itself failed.
    Broken,
}

/// How the step went that the check asked for last.
#[derive(Debug, PartialEq, Eq)]
pub enum CheckEvent {
    /// The version of the compiler was compared with `MSRV`.
    RustcChecked(Probe),
    /// The audit tool was asked for its version.
    AuditChecked(Probe),
    /// The audit tool ran: its exit code, or why there is none.
    Audited(Result<i32, AuditCheckError>),
    /// The issue was sent to the tracker: the receipt, or why there is
    /// none.
    IssueFiled(Result<IssueReceipt, AuditCheckError>),
}

/// The step that the check wants taken next.
#[derive(Debug, PartialEq, Eq)]
pub enum CheckAction {
    /// Compare the version of the compiler with `MSRV`.
    CheckRustc,
    /// Ask the audit tool for its version.
    CheckAudit,
    /// Run the audit tool.
    Audit,
    /// Compose the issue and send it to the tracker, once.
    FileIssue,
    /// The check is over, and this is its verdict.
    Finish(Result<(), AuditCheckError>),
}

/// The step that the check waits for.
#[derive(Clone, Copy, Debug, PartialEq, Eq)]
pub enum Stage {
    /// The comparison of the compiler's version.
    CheckingRustc,
    /// The audit tool's answer for its version.
    CheckingAudit,
    /// The run of the audit tool.
    Auditing,
    /// The tracker's answer.
    Filing,
    /// Nothing: the verdict is out.
    Done,
}

/// A check under way.
#[derive(Clone, Copy, Debug, PartialEq, Eq)]
pub struct Check {
    /// The step that the check waits for.
    pub stage: Stage,
    /// Whether an issue is to be filed when the audit fails.
    pub create_issue: bool,
}

/// The check's rule: what it waits for next and what it wants done, given
/// what it waits for and how that went.
///
/// The tool chain is looked at first, and a check that cannot audit ends
/// there. The exit code of the audit decides: with 0 the check succeeds,
/// with any other code it fails. An issue is filed only for a failed audit, and only where
/// the check was asked to; whatever comes of it, the check fails as the
/// audit did. An event that the check did not wait for ends it with the
/// failure of a worker, except while an issue is being filed, where the
/// audit's failure stands.
pub open spec fn plan(check: Check, event: CheckEvent) -> (Check, CheckAction) {
    let done = Check { stage: Stage::Done, ..check };
    match (check.stage, event) {
        (Stage::CheckingRustc, CheckEvent::RustcChecked(Probe::Passed)) => (
            Check { stage: Stage::CheckingAudit, ..check },
            CheckAction::CheckAudit,
        ),
        (Stage::CheckingRustc, CheckEvent::RustcChecked(Probe::Failed)) => (
            done,
            CheckAction::Finish(Err(AuditCheckError::RustcVersionCheck { msrv: MSRV })),
        ),
        (Stage::CheckingRustc, CheckEvent::RustcChecked(Probe::Broken)) => (
            done,
            CheckAction::Finish(Err(AuditCheckError::RustcVersion)),
        ),
        (Stage::CheckingAudit, CheckEvent::AuditChecked(Probe::Passed)) => (
            Check { stage: Stage::Auditing, ..check },
            CheckAction::Audit,
        ),
        (Stage::CheckingAudit, CheckEvent::AuditChecked(Probe::Failed)) => (
            done,
            CheckAction::Finish(Err(AuditCheckError::AuditVersionCheck)),
        ),
        (Stage::CheckingAudit, CheckEvent::AuditChecked(Probe::Broken)) => (
            done,
            CheckAction::Finish(Err(AuditCheckError::AuditCheck)),
        ),
        (Stage::Auditing, CheckEvent::Audited(Ok(code))) => if code == 0 {
            (done, CheckAction::Finish(Ok(())))
        } else if check.create_issue {
            (Check { stage: Stage::Filing, ..check }, CheckAction::FileIssue)
        } else {
            (done, CheckAction::Finish(Err(AuditCheckError::RustSec)))
        },
        (Stage::Auditing, CheckEvent::Audited(Err(error))) => (
            done,
            CheckAction::Finish(Err(error)),
        ),
        (Stage::Filing, _) => (done, CheckAction::Finish(Err(AuditCheckError::RustSec))),
        _ => (done, CheckAction::Finish(Err(AuditCheckError::Join))),
    }
}

impl Check {
    /// Where a check begins: it wants the compiler's version compared.
    pub fn start(create_issue: bool) -> (begin: (Check, CheckAction))
        ensures
            begin == (Check { stage: Stage::CheckingRustc, create_issue }, CheckAction::CheckRustc),
    {
        (Check { stage: Stage::CheckingRustc, create_issue }, CheckAction::CheckRustc)
    }

    /// Takes one step of the check's rule.
    pub fn step(self, event: CheckEvent) -> (after: (Check, CheckAction))
        ensures
            after == plan(self, event),
    {
        let done = Check { stage: Stage::Done, create_issue: self.create_issue };
        match self.stage {
            Stage::CheckingRustc => match event {
                CheckEvent::RustcChecked(Probe::Passed) => (
                    Check { stage: Stage::CheckingAudit, create_issue: self.create_issue },
                    CheckAction::CheckAudit,
                ),
                CheckEvent::RustcChecked(Probe::Failed) => (
                    done,
                    CheckAction::Finish(Err(AuditCheckError::RustcVersionCheck { msrv: MSRV })),
                ),
                CheckEvent::RustcChecked(Probe::Broken) => (
                    done,
                    CheckAction::Finish(Err(AuditCheckError::RustcVersion)),
                ),
                _ => (done, CheckAction::Finish(Err(AuditCheckError::Join))),
            },
            Stage::CheckingAudit => match event {
                CheckEvent::AuditChecked(Probe::Passed) => (
                    Check { stage: Stage::Auditing, create_issue: self.create_issue },
                    CheckAction::Audit,
                ),
                CheckEvent::AuditChecked(Probe::Failed) => (
                    done,
                    CheckAction::Finish(Err(AuditCheckError::AuditVersionCheck)),
                ),
                CheckEvent::AuditChecked(Probe::Broken) => (
                    done,
                    CheckAction::Finish(Err(AuditCheckError::AuditCheck)),
                ),
                _ => (done, CheckAction::Finish(Err(AuditCheckError::Join))),
            },
            Stage::Auditing => match event {
                CheckEvent::Audited(Ok(code)) => {
                    if code == 0 {
                        (done, CheckAction::Finish(Ok(())))
                    } else if self.create_issue {
                        (
                            Check { stage: Stage::Filing, create_issue: self.create_issue },
                            CheckAction::FileIssue,
                        )
                    } else {
                        (done, CheckAction::Finish(Err(AuditCheckError::RustSec)))
                    }
                },
                CheckEvent::Audited(Err(error)) => (done, CheckAction::Finish(Err(error))),
                _ => (done, CheckAction::Finish(Err(AuditCheckError::Join))),
            },
            Stage::Filing => (done, CheckAction::Finish(Err(AuditCheckError::RustSec))),
            Stage::Done => (done, CheckAction::Finish(Err(AuditCheckError::Join))),
        }
    }
}

/// What a check has asked for after the events `events`, and what it then
/// waits for. Its first wish, to have the compiler's version compared,
/// comes before any event and is not listed.
pub open spec fn course(create_issue: bool, events: Seq<CheckEvent>) -> (Check, Seq<CheckAction>)
    decreases events.len(),
{
    if events.len() == 0 {
        (Check { stage: Stage::CheckingRustc, create_issue }, Seq::empty())
    } else {
        let (check, asked) = course(create_issue, events.drop_last());
        let (check, action) = plan(check, events.last());
        (check, asked.push(action))
    }
}

/// How often `asked` wants an issue filed.
pub open spec fn issues_filed(asked: Seq<CheckAction>) -> nat
    decreases asked.len(),
{
    if asked.len() == 0 {
        0
    } else {
        issues_filed(asked.drop_last()) + if asked.last() is FileIssue {
            1nat
        } else {
            0nat
        }
    }
}

/// A check keeps the choice it was started with.
pub proof fn lemma_course_keeps_the_choice(create_issue: bool, events: Seq<CheckEvent>)
    ensures
        course(create_issue, events).0.create_issue == create_issue,
    decreases events.len(),
{
    if events.len() > 0 {
        lemma_course_keeps_the_choice(create_issue, events.drop_last());
    }
}

/// When the audit tool ends with the exit code 0, the check passes, and no
/// issue is filed: the verdict is out at once.
pub proof fn lemma_clean_audit_passes(check: Check)
    requires
        check.stage is Auditing,
    ensures
        plan(check, CheckEvent::Audited(Ok(0))) == (
            Check { stage: Stage::Done, ..check },
            CheckAction::Finish(Ok(())),
        ),
{
}

/// When the audit tool ends with another exit code and no issue is to be
/// filed, the check fails at once, with the audit's failure.
pub proof fn lemma_failed_audit_fails(check: Check, code: i32)
    requires
        check.stage is Auditing,
        code != 0,
        !check.create_issue,
    ensures
        plan(check, CheckEvent::Audited(Ok(code))) == (
            Check { stage: Stage::Done, ..check },
            CheckAction::Finish(Err(AuditCheckError::RustSec)),
        ),
{
}

/// Whatever comes of filing the issue, the check fails with the audit's
/// failure.
pub proof fn lemma_filing_keeps_the_verdict(check: Check, event: CheckEvent)
    requires
        check.stage is Filing,
    ensures
        plan(check, event) == (
            Check { stage: Stage::Done, ..check },
            CheckAction::Finish(Err(AuditCheckError::RustSec)),
        ),
{
}

/// An issue is filed for one reason only: the audit tool ended with an
/// exit code other than 0, and the check was asked to file one. The check
/// passes for one reason only: the audit tool ended with the exit code 0.
pub proof fn lemma_why_an_issue_is_filed(check: Check, event: CheckEvent)
    ensures
        plan(check, event).1 is FileIssue ==> check.stage is Auditing && check.create_issue && (
        event matches CheckEvent::Audited(Ok(code)) && code != 0),
        plan(check, event).1 == CheckAction::Finish(Ok(())) ==> check.stage is Auditing && event
            == CheckEvent::Audited(Ok(0)),
{
}

/// In the whole course of a check at most one issue is filed, and none
/// where the check was not asked to file one.
pub proof fn lemma_one_issue_at_most(create_issue: bool, events: Seq<CheckEvent>)
    ensures
        issues_filed(course(create_issue, events).1) <= 1,
        !create_issue ==> issues_filed(course(create_issue, events).1) == 0,
        issues_filed(course(create_issue, events).1) == 1 ==> course(create_issue, events).0.stage
            is Filing || course(create_issue, events).0.stage is Done,
    decreases events.len(),
{
    if events.len() > 0 {
        lemma_one_issue_at_most(create_issue, events.drop_last());
        lemma_course_keeps_the_choice(create_issue, events.drop_last());
        let (check, asked) = course(create_issue, events.drop_last());
        let (after, action) = plan(check, events.last());
        assert(course(create_issue, events).1 == asked.push(action));
        assert(asked.push(action).drop_last() == asked);
    }
}

/// A check that ends well has filed no issue.
pub proof fn lemma_success_files_no_issue(create_issue: bool, events: Seq<CheckEvent>)
    requires
        events.len() > 0,
    ensures
        course(create_issue, events).1.last() == CheckAction::Finish(Ok(())) ==> issues_filed(
            course(create_issue, events).1,
        ) == 0,
{
    lemma_one_issue_at_most(create_issue, events.drop_last());
    let (check, asked) = course(create_issue, events.drop_last());
    let (after, action) = plan(check, events.last());
    assert(course(create_issue, events).1 == asked.push(action));
    assert(asked.push(action).drop_last() == asked);
}

/// Once an issue is being filed, the next event ends the check with the
/// audit's failure: the issue is not sent again, and what came of it does
/// not count.
pub proof fn lemma_after_filing_the_audit_fails(
    create_issue: bool,
    events: Seq<CheckEvent>,
    event: CheckEvent,
)
    requires
        events.len() > 0,
        course(create_issue, events).1.last() is FileIssue,
    ensures
        course(create_issue, events.push(event)).1.last() == CheckAction::Finish(
            Err(AuditCheckError::RustSec),
        ),
{
    let (check, asked) = course(create_issue, events.drop_last());
    assert(events.push(event).drop_last() == events);
}

} // verus!
