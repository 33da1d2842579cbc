use audit_check::error::AuditCheckError;
use audit_check::publish::{
    is_created, issues_url, publish_outcome, IssueReceipt, Reply, ACCEPT, ACCEPT_HEADER,
    API_VERSION, API_VERSION_HEADER, CREATED,
};

#[test]
fn issues_url_names_the_repository() {
    assert_eq!(
        issues_url("rustyhorde/audit-check"),
        "https://api.github.com/repos/rustyhorde/audit-check/issues"
    );
    assert_eq!(issues_url(""), "https://api.github.com/repos//issues");
}

#[test]
fn the_headers_are_those_of_the_tracker() {
    assert_eq!(ACCEPT_HEADER, "Accept");
    assert_eq!(ACCEPT, "application/vnd.github+json");
    assert_eq!(API_VERSION_HEADER, "X-GitHub-Api-Version");
    assert_eq!(API_VERSION, "2022-11-28");
}

#[test]
fn only_201_is_created() {
    assert!(is_created(201));
    assert!(!is_created(200));
    assert!(!is_created(202));
    assert!(!is_created(0));
    assert!(!is_created(404));
    assert_eq!(CREATED, 201);
}

#[test]
fn a_created_issue_gives_its_receipt() {
    let reply = Reply::Answer { status: 201, id: Some(1234), body: String::new() };
    assert_eq!(publish_outcome(reply), Ok(IssueReceipt { id: 1234 }));
}

#[test]
fn any_other_status_is_a_refusal_with_the_answer() {
    for status in [200, 202, 301, 401, 403, 404, 422, 500, 0, u16::MAX] {
        let reply = Reply::Answer {
            status,
            id: Some(1),
            body: "{\"message\":\"Bad credentials\"}".to_string(),
        };
        assert_eq!(
            publish_outcome(reply),
            Err(AuditCheckError::CreateIssue {
                status,
                body: "{\"message\":\"Bad credentials\"}".to_string(),
            })
        );
    }
}

#[test]
fn no_answer_is_a_failure_to_reach_the_tracker() {
    assert_eq!(publish_outcome(Reply::Nothing), Err(AuditCheckError::Transport));
    let reply = Reply::Answer { status: 201, id: None, body: "not json".to_string() };
    assert_eq!(publish_outcome(reply), Err(AuditCheckError::Transport));
}
