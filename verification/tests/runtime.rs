use audit_check::error::AuditCheckError;
use audit_check::publish::IssueReceipt;
use audit_check::runtime::{
    Check, CheckAction, CheckEvent, Probe, Stage, AUDIT_VERSION_COMMAND, MSRV,
};

fn follow(create_issue: bool, events: Vec<CheckEvent>) -> (Check, Vec<CheckAction>) {
    let (mut check, first) = Check::start(create_issue);
    let mut asked = vec![first];
    for event in events {
        let (next, action) = check.step(event);
        check = next;
        asked.push(action);
    }
    (check, asked)
}

fn audited(create_issue: bool, outcome: Result<i32, AuditCheckError>) -> (Check, Vec<CheckAction>) {
    follow(
        create_issue,
        vec![
            CheckEvent::RustcChecked(Probe::Passed),
            CheckEvent::AuditChecked(Probe::Passed),
            CheckEvent::Audited(outcome),
        ],
    )
}

#[test]
fn a_clean_audit_succeeds_and_files_no_issue() {
    for create_issue in [false, true] {
        let (check, asked) = audited(create_issue, Ok(0));
        assert_eq!(check.stage, Stage::Done);
        assert_eq!(
            asked,
            vec![
                CheckAction::CheckRustc,
                CheckAction::CheckAudit,
                CheckAction::Audit,
                CheckAction::Finish(Ok(())),
            ]
        );
    }
}

#[test]
fn a_failed_audit_fails_without_an_issue_when_none_is_wanted() {
    for code in [1, 2, -1, 101, i32::MIN, i32::MAX] {
        let (check, asked) = audited(false, Ok(code));
        assert_eq!(check.stage, Stage::Done);
        assert_eq!(asked[3], CheckAction::Finish(Err(AuditCheckError::RustSec)));
        assert!(!asked.contains(&CheckAction::FileIssue));
    }
}

#[test]
fn a_failed_audit_files_an_issue_when_one_is_wanted() {
    let (check, asked) = audited(true, Ok(1));
    assert_eq!(check.stage, Stage::Filing);
    assert!(check.create_issue);
    assert_eq!(asked[3], CheckAction::FileIssue);
}

#[test]
fn the_audit_fails_whatever_comes_of_the_issue() {
    let outcomes = vec![
        CheckEvent::IssueFiled(Ok(IssueReceipt { id: 17 })),
        CheckEvent::IssueFiled(Err(AuditCheckError::CreateIssue {
            status: 404,
            body: "Not Found".to_string(),
        })),
        CheckEvent::IssueFiled(Err(AuditCheckError::Transport)),
        CheckEvent::Audited(Ok(0)),
        CheckEvent::RustcChecked(Probe::Passed),
    ];
    for outcome in outcomes {
        let (check, _) = audited(true, Ok(1));
        let (check, action) = check.step(outcome);
        assert_eq!(check.stage, Stage::Done);
        assert_eq!(action, CheckAction::Finish(Err(AuditCheckError::RustSec)));
    }
}

#[test]
fn an_audit_that_did_not_run_fails_with_its_error() {
    for error in [
        AuditCheckError::Spawn,
        AuditCheckError::Stdout,
        AuditCheckError::Stderr,
        AuditCheckError::Code,
        AuditCheckError::Join,
    ] {
        let (check, asked) = audited(true, Err(error.clone()));
        assert_eq!(check.stage, Stage::Done);
        assert_eq!(asked[3], CheckAction::Finish(Err(error)));
    }
}

#[test]
fn an_old_compiler_ends_the_check() {
    let (check, asked) = follow(true, vec![CheckEvent::RustcChecked(Probe::Failed)]);
    assert_eq!(check.stage, Stage::Done);
    assert_eq!(
        asked,
        vec![
            CheckAction::CheckRustc,
            CheckAction::Finish(Err(AuditCheckError::RustcVersionCheck { msrv: "1.57.0" })),
        ]
    );
    assert_eq!(MSRV, "1.57.0");
    let (_, asked) = follow(true, vec![CheckEvent::RustcChecked(Probe::Broken)]);
    assert_eq!(asked[1], CheckAction::Finish(Err(AuditCheckError::RustcVersion)));
}

#[test]
fn a_missing_audit_tool_ends_the_check() {
    let (check, asked) = follow(
        false,
        vec![
            CheckEvent::RustcChecked(Probe::Passed),
            CheckEvent::AuditChecked(Probe::Failed),
        ],
    );
    assert_eq!(check.stage, Stage::Done);
    assert_eq!(
        asked[2],
        CheckAction::Finish(Err(AuditCheckError::AuditVersionCheck))
    );
    let (_, asked) = follow(
        false,
        vec![
            CheckEvent::RustcChecked(Probe::Passed),
            CheckEvent::AuditChecked(Probe::Broken),
        ],
    );
    assert_eq!(asked[2], CheckAction::Finish(Err(AuditCheckError::AuditCheck)));
    assert_eq!(AUDIT_VERSION_COMMAND, "cargo audit --version");
}

#[test]
fn an_event_out_of_turn_ends_the_check() {
    let (check, asked) = follow(true, vec![CheckEvent::Audited(Ok(0))]);
    assert_eq!(check.stage, Stage::Done);
    assert_eq!(asked[1], CheckAction::Finish(Err(AuditCheckError::Join)));
    let (check, action) = check.step(CheckEvent::RustcChecked(Probe::Passed));
    assert_eq!(check.stage, Stage::Done);
    assert_eq!(action, CheckAction::Finish(Err(AuditCheckError::Join)));
    let (_, asked) = follow(
        true,
        vec![
            CheckEvent::RustcChecked(Probe::Passed),
            CheckEvent::RustcChecked(Probe::Passed),
        ],
    );
    assert_eq!(asked[2], CheckAction::Finish(Err(AuditCheckError::Join)));
}
