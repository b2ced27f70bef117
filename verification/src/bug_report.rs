//! Filing a bug report as a GitHub issue.
//!
//! The exchange with GitHub is a short conversation: look the report's label
//! up, create the label when GitHub does not know it, then create the issue.
//! `BugReportFlow` decides each step from GitHub's previous reply; the caller
//! sends the requests and hands the replies back.
use crate::errors::ApiError;
use crate::models::BugReport;
use vstd::prelude::*;
use vstd::utf8::encode_utf8;

verus! {

/// Whether `b` is sent as it is in a percent-encoded URL component:
/// ASCII letters and digits, `-`, `.`, `_` and `~`.
pub open spec fn is_unreserved_byte(b: u8) -> bool {
    ||| 48 <= b <= 57
    ||| 65 <= b <= 90
    ||| 97 <= b <= 122
    ||| b == 45
    ||| b == 46
    ||| b == 95
    ||| b == 126
}

/// Upper-case hexadecimal digit for `d` in `0..16`.
pub open spec fn hex_digit(d: int) -> char {
    if d < 10 {
        (48 + d) as char
    } else {
        (55 + d) as char
    }
}

/// Percent-encoding of a byte sequence: unreserved bytes stand for
/// themselves, every other byte becomes `%` and two upper-case hex digits.
pub open spec fn percent_encode(bytes: Seq<u8>) -> Seq<char>
    decreases bytes.len(),
{
    if bytes.len() == 0 {
        Seq::empty()
    } else {
        let b = bytes[0];
        let head = if is_unreserved_byte(b) {
            seq![(b as int) as char]
        } else {
            seq!['%', hex_digit(b as int / 16), hex_digit(b as int % 16)]
        };
        head + percent_encode(bytes.drop_first())
    }
}

/// `urlencoding::encode`: the UTF-8 bytes of `data`, percent-encoded as
/// `percent_encode` states (every byte but ASCII alphanumerics and `-._~`
/// becomes `%XX` with upper-case hex digits).
#[verifier::external_body]
fn url_encode(data: &str) -> (r: String)
    ensures
        r@ == percent_encode(encode_utf8(data@)),
{
    urlencoding::encode(data).into_owned()
}

/// Where GitHub is reached and with which credentials.
#[derive(Clone, Debug, PartialEq, Eq)]
pub struct GitHubConfig {
    pub token: String,
    pub repo_owner: String,
    pub repo_name: String,
}

/// Body of the request that creates a label.
#[derive(Clone, Debug, PartialEq, Eq)]
pub struct LabelPayload {
    pub name: String,
    pub color: String,
    pub description: String,
}

/// Body of the request that creates an issue.
#[derive(Clone, Debug, PartialEq, Eq)]
pub struct IssuePayload {
    pub title: String,
    pub body: String,
    pub labels: Vec<String>,
}

/// A request to send to GitHub, with the authorization header of the flow.
#[derive(Clone, Debug, PartialEq, Eq)]
#[allow(inconsistent_fields)]
pub enum GitHubRequest {
    /// Look up the label at `url`.
    GetLabel { url: String },
    /// Create a label by posting `payload` to `url`.
    CreateLabel { url: String, payload: LabelPayload },
    /// Create the issue by posting `payload` to `url`.
    CreateIssue { url: String, payload: IssuePayload },
}

/// What came back from GitHub: a response with its status and its body text
/// (`None` when the body could not be read), or a failure to get a response.
#[derive(Clone, Debug, PartialEq, Eq)]
pub enum GitHubReply {
    Response { status: u16, body: Option<String> },
    Failed { message: String },
}

/// Where the conversation stands.
#[derive(Clone, Copy, Debug, PartialEq, Eq, Structural)]
pub enum BugReportStep {
    /// The label lookup has been sent.
    CheckingLabel,
    /// The label creation has been sent.
    CreatingLabel,
    /// The issue creation has been sent.
    CreatingIssue,
    /// The conversation is over.
    Finished,
}

/// What to do next: send a request, or stop with the outcome (the body of
/// GitHub's reply to the issue creation, or the error).
#[derive(Debug, PartialEq, Eq)]
pub enum BugReportAction {
    Send(GitHubRequest),
    Done(Result<Option<String>, ApiError>),
}

/// The state of one bug-report conversation.
pub struct BugReportFlow {
    pub config: GitHubConfig,
    pub report: BugReport,
    pub step: BugReportStep,
}

/// "https://api.github.com/repos/{owner}/{name}".
pub open spec fn repo_url(c: GitHubConfig) -> Seq<char> {
    "https://api.github.com/repos/"@ + c.repo_owner@ + "/"@ + c.repo_name@
}

/// Where issues are created.
pub open spec fn issues_url(c: GitHubConfig) -> Seq<char> {
    repo_url(c) + "/issues"@
}

/// Where labels are created.
pub open spec fn labels_url(c: GitHubConfig) -> Seq<char> {
    repo_url(c) + "/labels"@
}

/// Where the label named `name` is looked up.
pub open spec fn label_url(c: GitHubConfig, name: Seq<char>) -> Seq<char> {
    labels_url(c) + "/"@ + percent_encode(encode_utf8(name))
}

/// A status in the 2xx range.
pub open spec fn is_success_status(status: u16) -> bool {
    200 <= status <= 299
}

/// The text that stands for an unreadable error body.
pub open spec fn error_text(body: Option<String>) -> Seq<char> {
    match body {
        Some(t) => t@,
        None => "Unknown error"@,
    }
}

/// The label-creation request for `report`.
pub open spec fn is_label_request(req: GitHubRequest, c: GitHubConfig, report: BugReport) -> bool {
    req matches GitHubRequest::CreateLabel { url, payload } && url@ == labels_url(c)
        && payload.name@ == report.name@ && payload.color@ == "f29513"@
        && payload.description@ == "Dynamic label from bug report"@
}

/// The issue-creation request for `report`.
pub open spec fn is_issue_request(req: GitHubRequest, c: GitHubConfig, report: BugReport) -> bool {
    req matches GitHubRequest::CreateIssue { url, payload } && url@ == issues_url(c)
        && payload.title@ == "[bug-report] "@ + report.title@ && payload.body@
        == report.description@ && payload.labels@.len() == 2 && payload.labels@[0]@
        == "bug report"@ && payload.labels@[1]@ == report.name@
}

/// The GitHub settings from the values of `GITHUB_TOKEN`, `GITHUB_REPO_OWNER`
/// and `GITHUB_REPO_NAME`; the first one missing is the error.
pub fn github_config(
    token: Option<String>,
    repo_owner: Option<String>,
    repo_name: Option<String>,
) -> (r: Result<GitHubConfig, ApiError>)
    ensures
        token is None ==> (r matches Err(ApiError::MissingEnvVar(v)) && v@ == "GITHUB_TOKEN"@),
        token is Some && repo_owner is None ==> (r matches Err(ApiError::MissingEnvVar(v)) && v@
            == "GITHUB_REPO_OWNER"@),
        token is Some && repo_owner is Some && repo_name is None ==> (r matches Err(
            ApiError::MissingEnvVar(v),
        ) && v@ == "GITHUB_REPO_NAME"@),
        token is Some && repo_owner is Some && repo_name is Some ==> (r matches Ok(c) && c.token
            == token->0 && c.repo_owner == repo_owner->0 && c.repo_name == repo_name->0),
{
    let token = match token {
        Some(t) => t,
        None => {
            return Err(ApiError::MissingEnvVar(String::from_str("GITHUB_TOKEN")));
        },
    };
    let repo_owner = match repo_owner {
        Some(o) => o,
        None => {
            return Err(ApiError::MissingEnvVar(String::from_str("GITHUB_REPO_OWNER")));
        },
    };
    let repo_name = match repo_name {
        Some(n) => n,
        None => {
            return Err(ApiError::MissingEnvVar(String::from_str("GITHUB_REPO_NAME")));
        },
    };
    Ok(GitHubConfig { token, repo_owner, repo_name })
}

impl GitHubConfig {
    fn repo_url(&self) -> (r: String)
        ensures
            r@ == repo_url(*self),
    {
        let mut u = String::from_str("https://api.github.com/repos/");
        u.append(self.repo_owner.as_str());
        u.append("/");
        u.append(self.repo_name.as_str());
        u
    }

    /// Where issues are created.
    pub fn issues_url(&self) -> (r: String)
        ensures
            r@ == issues_url(*self),
    {
        let mut u = self.repo_url();
        u.append("/issues");
        u
    }

    /// Where labels are created.
    pub fn labels_url(&self) -> (r: String)
        ensures
            r@ == labels_url(*self),
    {
        let mut u = self.repo_url();
        u.append("/labels");
        u
    }

    /// Where the label named `name` is looked up (the name percent-encoded).
    pub fn label_url(&self, name: &str) -> (r: String)
        ensures
            r@ == label_url(*self, name@),
    {
        let mut u = self.labels_url();
        u.append("/");
        let encoded = url_encode(name);
        u.append(encoded.as_str());
        u
    }

    /// The `Authorization` header value: "token {token}".
    pub fn authorization(&self) -> (r: String)
        ensures
            r@ == "token "@ + self.token@,
    {
        crate::text::join2("token ", self.token.as_str())
    }
}

/// The `User-Agent` header sent to GitHub.
pub fn user_agent() -> (r: &'static str)
    ensures
        r@ == "YourAppName"@,
{
    "YourAppName"
}

impl BugReportFlow {
    /// Starts the conversation for `report`: the first request looks the
    /// report's label up.
    pub fn start(config: GitHubConfig, report: BugReport) -> (r: (BugReportFlow, GitHubRequest))
        ensures
            r.0.config == config,
            r.0.report == report,
            r.0.step == BugReportStep::CheckingLabel,
            r.1 matches GitHubRequest::GetLabel { url } && url@ == label_url(config, report.name@),
    {
        let url = config.label_url(report.name.as_str());
        (BugReportFlow { config, report, step: BugReportStep::CheckingLabel }, GitHubRequest::GetLabel { url })
    }

    fn label_request(&self) -> (r: GitHubRequest)
        ensures
            is_label_request(r, self.config, self.report),
    {
        GitHubRequest::CreateLabel {
            url: self.config.labels_url(),
            payload: LabelPayload {
                name: self.report.name.clone(),
                color: String::from_str("f29513"),
                description: String::from_str("Dynamic label from bug report"),
            },
        }
    }

    fn issue_request(&self) -> (r: GitHubRequest)
        ensures
            is_issue_request(r, self.config, self.report),
    {
        let mut labels: Vec<String> = Vec::new();
        labels.push(String::from_str("bug report"));
        labels.push(self.report.name.clone());
        GitHubRequest::CreateIssue {
            url: self.config.issues_url(),
            payload: IssuePayload {
                title: crate::text::join2("[bug-report] ", self.report.title.as_str()),
                body: self.report.description.clone(),
                labels,
            },
        }
    }

    /// Decides the next step from GitHub's reply to the last request.
    ///
    /// A failure to get any reply ends in `GitHubRequestError`. The label
    /// lookup answered 404 leads to creating the label; any other non-2xx
    /// reply ends in `GitHubApiError` with the reply's text ("Unknown error"
    /// when it cannot be read); a 2xx reply leads on: from the lookup or the
    /// label creation to creating the issue, from the issue creation to the
    /// end with the reply's body.
    pub fn on_reply(&mut self, reply: GitHubReply) -> (r: BugReportAction)
        requires
            old(self).step != BugReportStep::Finished,
        ensures
            final(self).config == old(self).config,
            final(self).report == old(self).report,
            reply matches GitHubReply::Failed { message } ==> {
                &&& final(self).step == BugReportStep::Finished
                &&& r matches BugReportAction::Done(Err(ApiError::GitHubRequestError(m))) && m
                    == message
            },
            reply matches GitHubReply::Response { status, body } ==> {
                if old(self).step == BugReportStep::CheckingLabel && status == 404 {
                    &&& final(self).step == BugReportStep::CreatingLabel
                    &&& r matches BugReportAction::Send(req) && is_label_request(
                        req,
                        old(self).config,
                        old(self).report,
                    )
                } else if !is_success_status(status) {
                    &&& final(self).step == BugReportStep::Finished
                    &&& r matches BugReportAction::Done(Err(ApiError::GitHubApiError(m))) && m@
                        == error_text(body)
                } else if old(self).step == BugReportStep::CreatingIssue {
                    &&& final(self).step == BugReportStep::Finished
                    &&& r == BugReportAction::Done(Ok(body))
                } else {
                    &&& final(self).step == BugReportStep::CreatingIssue
                    &&& r matches BugReportAction::Send(req) && is_issue_request(
                        req,
                        old(self).config,
                        old(self).report,
                    )
                }
            },
    {
        match reply {
            GitHubReply::Failed { message } => {
                self.step = BugReportStep::Finished;
                BugReportAction::Done(Err(ApiError::GitHubRequestError(message)))
            },
            GitHubReply::Response { status, body } => {
                if self.step == BugReportStep::CheckingLabel && status == 404 {
                    self.step = BugReportStep::CreatingLabel;
                    BugReportAction::Send(self.label_request())
                } else if !(200 <= status && status <= 299) {
                    self.step = BugReportStep::Finished;
                    let text = match body {
                        Some(t) => t,
                        None => String::from_str("Unknown error"),
                    };
                    BugReportAction::Done(Err(ApiError::GitHubApiError(text)))
                } else if self.step == BugReportStep::CreatingIssue {
                    self.step = BugReportStep::Finished;
                    BugReportAction::Done(Ok(body))
                } else {
                    self.step = BugReportStep::CreatingIssue;
                    BugReportAction::Send(self.issue_request())
                }
            },
        }
    }
}

} // verus!
