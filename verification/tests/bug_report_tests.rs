use backend::bug_report::{
    github_config, user_agent, BugReportAction, BugReportFlow, BugReportStep, GitHubConfig,
    GitHubReply, GitHubRequest,
};
use backend::errors::ApiError;
use backend::models::BugReport;

fn config() -> GitHubConfig {
    GitHubConfig {
        token: "SECRET-REDACTED".to_string(),
        repo_owner: "museum".to_string(),
        repo_name: "tracker".to_string(),
    }
}

fn report() -> BugReport {
    BugReport {
        name: "Test Bug".to_string(),
        title: "Bug in exhibit creation".to_string(),
        description: "There is a bug when creating an exhibit.".to_string(),
    }
}

fn ok(status: u16, body: &str) -> GitHubReply {
    GitHubReply::Response { status, body: Some(body.to_string()) }
}

#[test]
fn missing_settings_are_reported_in_order() {
    let r = github_config(None, None, None);
    assert_eq!(r, Err(ApiError::MissingEnvVar("GITHUB_TOKEN".to_string())));
    let r = github_config(Some("t".to_string()), None, Some("n".to_string()));
    assert_eq!(r, Err(ApiError::MissingEnvVar("GITHUB_REPO_OWNER".to_string())));
    let r = github_config(Some("t".to_string()), Some("o".to_string()), None);
    assert_eq!(r, Err(ApiError::MissingEnvVar("GITHUB_REPO_NAME".to_string())));
    let r = github_config(Some("t".to_string()), Some("o".to_string()), Some("n".to_string()));
    assert_eq!(
        r,
        Ok(GitHubConfig { token: "t".to_string(), repo_owner: "o".to_string(), repo_name: "n".to_string() })
    );
}

#[test]
fn urls_and_headers() {
    let c = config();
    assert_eq!(c.issues_url(), "https://api.github.com/repos/museum/tracker/issues");
    assert_eq!(c.labels_url(), "https://api.github.com/repos/museum/tracker/labels");
    assert_eq!(
        c.label_url("Test Bug/ü~x"),
        "https://api.github.com/repos/museum/tracker/labels/Test%20Bug%2F%C3%BC~x"
    );
    assert_eq!(c.authorization(), "token SECRET-REDACTED");
    assert_eq!(user_agent(), "YourAppName");
}

#[test]
fn existing_label_leads_to_issue() {
    let (mut flow, first) = BugReportFlow::start(config(), report());
    assert_eq!(
        first,
        GitHubRequest::GetLabel {
            url: "https://api.github.com/repos/museum/tracker/labels/Test%20Bug".to_string()
        }
    );
    let next = flow.on_reply(ok(200, "{}"));
    match next {
        BugReportAction::Send(GitHubRequest::CreateIssue { url, payload }) => {
            assert_eq!(url, "https://api.github.com/repos/museum/tracker/issues");
            assert_eq!(payload.title, "[bug-report] Bug in exhibit creation");
            assert_eq!(payload.body, "There is a bug when creating an exhibit.");
            assert_eq!(payload.labels, vec!["bug report".to_string(), "Test Bug".to_string()]);
        }
        other => panic!("unexpected {:?}", other),
    }
    assert_eq!(flow.step, BugReportStep::CreatingIssue);
    let done = flow.on_reply(ok(201, "{\"url\":\"u\"}"));
    assert_eq!(done, BugReportAction::Done(Ok(Some("{\"url\":\"u\"}".to_string()))));
    assert_eq!(flow.step, BugReportStep::Finished);
}

#[test]
fn unknown_label_is_created_first() {
    let (mut flow, _) = BugReportFlow::start(config(), report());
    match flow.on_reply(ok(404, "not found")) {
        BugReportAction::Send(GitHubRequest::CreateLabel { url, payload }) => {
            assert_eq!(url, "https://api.github.com/repos/museum/tracker/labels");
            assert_eq!(payload.name, "Test Bug");
            assert_eq!(payload.color, "f29513");
            assert_eq!(payload.description, "Dynamic label from bug report");
        }
        other => panic!("unexpected {:?}", other),
    }
    assert!(matches!(flow.on_reply(ok(201, "{}")), BugReportAction::Send(GitHubRequest::CreateIssue { .. })));
    assert!(matches!(flow.on_reply(ok(201, "{}")), BugReportAction::Done(Ok(_))));
}

#[test]
fn failures_end_the_conversation() {
    let (mut flow, _) = BugReportFlow::start(config(), report());
    assert_eq!(
        flow.on_reply(GitHubReply::Failed { message: "dns".to_string() }),
        BugReportAction::Done(Err(ApiError::GitHubRequestError("dns".to_string())))
    );

    let (mut flow, _) = BugReportFlow::start(config(), report());
    assert_eq!(
        flow.on_reply(ok(401, "Bad credentials")),
        BugReportAction::Done(Err(ApiError::GitHubApiError("Bad credentials".to_string())))
    );

    let (mut flow, _) = BugReportFlow::start(config(), report());
    flow.on_reply(ok(404, ""));
    assert_eq!(
        flow.on_reply(GitHubReply::Response { status: 422, body: None }),
        BugReportAction::Done(Err(ApiError::GitHubApiError("Unknown error".to_string())))
    );

    let (mut flow, _) = BugReportFlow::start(config(), report());
    flow.on_reply(ok(200, ""));
    assert_eq!(
        flow.on_reply(ok(500, "oops")),
        BugReportAction::Done(Err(ApiError::GitHubApiError("oops".to_string())))
    );
    assert_eq!(flow.step, BugReportStep::Finished);
}

#[test]
fn redirect_on_lookup_is_an_error() {
    let (mut flow, _) = BugReportFlow::start(config(), report());
    assert_eq!(
        flow.on_reply(ok(301, "moved")),
        BugReportAction::Done(Err(ApiError::GitHubApiError("moved".to_string())))
    );
}
