//! GitHub: the device-flow sign-in, collaborator management and publishing API
//! docs to GitHub Pages — the requests to make and what their replies mean.
use vstd::prelude::*;
use crate::text::{concat, push_str, decimal, decimal_string, str_eq, digits_between};
use crate::http_engine::{canonical_reason, reason_phrase};
use crate::providers::value_or;
use crate::crypto::{b64_encode, base64_standard};
use vstd::utf8::*;
use vstd::string::StringSliceAdditionalSpecFns;

verus! {

/// A signed-in GitHub user.
pub struct GitHubIdentity {
    pub login: String,
    pub name: Option<String>,
    pub email: Option<String>,
    pub avatar_url: String,
    /// Empty when not known; then it is not written out.
    pub token: String,
}

/// What the device flow shows the user.
pub struct DeviceCodeInfo {
    pub device_code: String,
    pub user_code: String,
    pub verification_uri: String,
    pub expires_in: u64,
    pub interval: u64,
}

/// A collaborator of a repository.
pub struct Collaborator {
    pub login: String,
    pub avatar_url: String,
    pub role: String,
}

fn text_entry(k: &str, v: &str) -> (res: (String, String))
    ensures
        res.0@ == k@,
        res.1@ == v@,
{
    (k.to_owned(), v.to_owned())
}

/// The OAuth client id: the one given, else the one configured in the
/// environment, else empty.
pub fn resolve_client_id(client_id: Option<String>, configured: Option<String>) -> (res: String)
    ensures
        res@ == match client_id {
            Some(c) => c@,
            None => match configured {
                Some(c) => c@,
                None => seq![],
            },
        },
{
    match client_id {
        Some(c) => c,
        None => match configured {
            Some(c) => c,
            None => String::new(),
        },
    }
}

/// The error when no client id is configured.
pub open spec fn no_client_id_message() -> Seq<char> {
    "No GitHub client ID configured. Set PARALLAX_GITHUB_CLIENT_ID or configure it in settings."@
}

/// The form that starts the device flow, or the error for an empty client id.
pub fn device_start_form(client_id: &str) -> (res: Result<Vec<(String, String)>, String>)
    ensures
        client_id@.len() == 0 ==> (res matches Err(e) && e@ == no_client_id_message()),
        client_id@.len() != 0 ==> (res matches Ok(f) && f.deep_view() == seq![
            ("client_id"@, client_id@),
            ("scope"@, "repo read:user user:email"@),
        ]),
{
    if client_id.is_empty() {
        return Err(
            "No GitHub client ID configured. Set PARALLAX_GITHUB_CLIENT_ID or configure it in settings.".to_owned(),
        );
    }
    let mut f: Vec<(String, String)> = Vec::new();
    f.push(text_entry("client_id", client_id));
    f.push(text_entry("scope", "repo read:user user:email"));
    assert(f.deep_view() =~= seq![
        ("client_id"@, client_id@),
        ("scope"@, "repo read:user user:email"@),
    ]);
    Ok(f)
}

/// The form that polls for the device flow's token.
pub fn device_poll_form(client_id: &str, device_code: &str) -> (res: Vec<(String, String)>)
    ensures
        res.deep_view() == seq![
            ("client_id"@, client_id@),
            ("device_code"@, device_code@),
            ("grant_type"@, "urn:ietf:params:oauth:grant-type:device_code"@),
        ],
{
    let mut f: Vec<(String, String)> = Vec::new();
    f.push(text_entry("client_id", client_id));
    f.push(text_entry("device_code", device_code));
    f.push(text_entry("grant_type", "urn:ietf:params:oauth:grant-type:device_code"));
    assert(f.deep_view() =~= seq![
        ("client_id"@, client_id@),
        ("device_code"@, device_code@),
        ("grant_type"@, "urn:ietf:params:oauth:grant-type:device_code"@),
    ]);
    f
}

/// What a poll of the device flow found.
pub enum PollOutcome {
    /// The user has not finished yet (or the poll was too fast): poll again.
    Pending,
    /// The flow failed with this message.
    Failed(String),
    /// The user authorised the app: the access token.
    Token(String),
}

/// What a token reply means: `authorization_pending` and `slow_down` mean wait;
/// any other error fails with its code; without an error, the access token, or
/// a failure when there is none.
pub fn device_poll_outcome(access_token: Option<String>, error: Option<String>) -> (res: PollOutcome)
    ensures
        match error {
            Some(e) => if e@ == "authorization_pending"@ || e@ == "slow_down"@ {
                res is Pending
            } else {
                res matches PollOutcome::Failed(m) && m@ == e@
            },
            None => match access_token {
                Some(t) => res matches PollOutcome::Token(x) && x@ == t@,
                None => res matches PollOutcome::Failed(m) && m@ == "No access token returned"@,
            },
        },
{
    match error {
        Some(e) => {
            if str_eq(e.as_str(), "authorization_pending") || str_eq(e.as_str(), "slow_down") {
                PollOutcome::Pending
            } else {
                PollOutcome::Failed(e)
            }
        },
        None => match access_token {
            Some(t) => PollOutcome::Token(t),
            None => PollOutcome::Failed("No access token returned".to_owned()),
        },
    }
}

/// The `Authorization` value for a token.
pub fn bearer(token: &str) -> (res: String)
    ensures
        res@ == "Bearer "@ + token@,
{
    concat("Bearer ", token)
}

/// A collaborator's role: the one GitHub names, else `write`.
pub fn collaborator_role(role_name: Option<String>) -> (res: String)
    ensures
        res@ == match role_name {
            Some(r) => r@,
            None => "write"@,
        },
{
    match role_name {
        Some(r) => r,
        None => "write".to_owned(),
    }
}

/// `https://api.github.com/repos/{owner}/{repo}` followed by `tail`.
pub open spec fn repo_api(owner: Seq<char>, repo: Seq<char>, tail: Seq<char>) -> Seq<char> {
    "https://api.github.com/repos/"@ + owner + "/"@ + repo + tail
}

/// The repository API URL followed by `tail`.
pub fn repo_api_url(owner: &str, repo: &str, tail: &str) -> (res: String)
    ensures
        res@ == repo_api(owner@, repo@, tail@),
{
    let mut u = concat("https://api.github.com/repos/", owner);
    push_str(&mut u, "/");
    push_str(&mut u, repo);
    push_str(&mut u, tail);
    u
}

/// The collaborators of a repository.
pub fn collaborators_url(owner: &str, repo: &str) -> (res: String)
    ensures
        res@ == repo_api(owner@, repo@, "/collaborators"@),
{
    repo_api_url(owner, repo, "/collaborators")
}

/// One collaborator of a repository.
pub fn collaborator_url(owner: &str, repo: &str, username: &str) -> (res: String)
    ensures
        res@ == repo_api(owner@, repo@, "/collaborators/"@ + username@),
{
    let tail = concat("/collaborators/", username);
    repo_api_url(owner, repo, tail.as_str())
}

/// The error for an unexpected status: `GitHub API error: <code> <reason>`.
pub open spec fn api_error_text(status: u16) -> Seq<char> {
    "GitHub API error: "@ + decimal(status as nat) + " "@ + value_or(
        canonical_reason(status),
        "<unknown status code>"@,
    )
}

fn api_error(status: u16) -> (res: String)
    ensures
        res@ == api_error_text(status),
{
    let mut m = concat("GitHub API error: ", decimal_string(status as u64).as_str());
    push_str(&mut m, " ");
    match reason_phrase(status) {
        Some(r) => push_str(&mut m, r.as_str()),
        None => push_str(&mut m, "<unknown status code>"),
    }
    m
}

/// Whether an invitation succeeded: 201, 204 or any 2xx status.
pub fn invite_result(status: u16) -> (res: Result<(), String>)
    ensures
        (status == 201 || status == 204 || 200 <= status <= 299) ==> res is Ok,
        !(status == 201 || status == 204 || 200 <= status <= 299) ==> (res matches Err(e) && e@
            == api_error_text(status)),
{
    if status != 201 && status != 204 && !(200 <= status && status <= 299) {
        return Err(api_error(status));
    }
    Ok(())
}

/// Whether a removal succeeded: any 2xx status, 204 included.
pub fn remove_result(status: u16) -> (res: Result<(), String>)
    ensures
        (200 <= status <= 299 || status == 204) ==> res is Ok,
        !(200 <= status <= 299 || status == 204) ==> (res matches Err(e) && e@ == api_error_text(
            status,
        )),
{
    if !(200 <= status && status <= 299) && status != 204 {
        return Err(api_error(status));
    }
    Ok(())
}

// ---------------------------------------------------------------------------
// Publishing API docs to GitHub Pages
// ---------------------------------------------------------------------------

/// The `gh-pages` branch reference.
pub fn pages_branch_ref_url(owner: &str, repo: &str) -> (res: String)
    ensures
        res@ == repo_api(owner@, repo@, "/git/refs/heads/gh-pages"@),
{
    repo_api_url(owner, repo, "/git/refs/heads/gh-pages")
}

/// The published page's file.
pub fn pages_file_url(owner: &str, repo: &str) -> (res: String)
    ensures
        res@ == repo_api(owner@, repo@, "/contents/index.html"@),
{
    repo_api_url(owner, repo, "/contents/index.html")
}

/// A branch of the repository.
pub fn branch_url(owner: &str, repo: &str, branch: &str) -> (res: String)
    ensures
        res@ == repo_api(owner@, repo@, "/branches/"@ + branch@),
{
    let tail = concat("/branches/", branch);
    repo_api_url(owner, repo, tail.as_str())
}

/// Where the page is served: `https://{owner}.github.io/{repo}/`.
pub fn pages_url(owner: &str, repo: &str) -> (res: String)
    ensures
        res@ == "https://"@ + owner@ + ".github.io/"@ + repo@ + "/"@,
{
    let mut u = concat("https://", owner);
    push_str(&mut u, ".github.io/");
    push_str(&mut u, repo);
    push_str(&mut u, "/");
    u
}

/// A time as chrono's `%Y-%m-%d %H:%M:%S` writes it: the year (four digits or
/// more, with a sign outside the years 0 to 9999), then `-MM-DD HH:MM:SS`.
pub open spec fn date_time_text(t: Seq<char>) -> bool {
    let n = t.len() as int;
    &&& n >= 19
    &&& digits_between(t, n - 19, n - 15)
    &&& t[n - 15] == '-'
    &&& digits_between(t, n - 14, n - 12)
    &&& t[n - 12] == '-'
    &&& digits_between(t, n - 11, n - 9)
    &&& t[n - 9] == ' '
    &&& digits_between(t, n - 8, n - 6)
    &&& t[n - 6] == ':'
    &&& digits_between(t, n - 5, n - 3)
    &&& t[n - 3] == ':'
    &&& digits_between(t, n - 2, n)
}

/// The current UTC time as `%Y-%m-%d %H:%M:%S` (chrono's `Utc::now().format`).
/// Only its shape (`date_time_text`) is stated, nothing of the clock's reading.
#[verifier::external_body]
fn utc_timestamp() -> (res: String)
    ensures
        date_time_text(res@),
{
    chrono::Utc::now().format("%Y-%m-%d %H:%M:%S").to_string()
}

/// The fields of the upload of `index.html`: the commit message, the page as
/// base64, the `gh-pages` branch, and the current file's SHA when there is one.
pub open spec fn upload_fields_spec(message: Seq<char>, html: Seq<char>, sha: Option<Seq<char>>) -> Seq<(Seq<char>, Seq<char>)> {
    seq![
        ("message"@, message),
        ("content"@, b64_encode(encode_utf8(html), false, true)),
        ("branch"@, "gh-pages"@),
    ] + match sha {
        Some(s) => seq![("sha"@, s)],
        None => seq![],
    }
}

/// The fields of the upload, with the commit message `Update API docs — <now>`.
pub fn docs_upload_fields(html: &str, sha: Option<String>) -> (res: Vec<(String, String)>)
    requires
        encode_utf8(html@).len() < usize::MAX / 2,
    ensures
        exists|stamp: Seq<char>|
            date_time_text(stamp) && res.deep_view() == upload_fields_spec(
                #[trigger] ("Update API docs \u{2014} "@ + stamp),
                html@,
                sha.deep_view(),
            ),
{
    let stamp = utc_timestamp();
    let message = concat("Update API docs \u{2014} ", stamp.as_str());
    let content = base64_standard(html.as_bytes());
    let mut f: Vec<(String, String)> = Vec::new();
    f.push(text_entry("message", message.as_str()));
    f.push(text_entry("content", content.as_str()));
    f.push(text_entry("branch", "gh-pages"));
    match sha {
        Some(s) => f.push(text_entry("sha", s.as_str())),
        None => {},
    }
    assert(f.deep_view() =~= upload_fields_spec(
        "Update API docs \u{2014} "@ + stamp@,
        html@,
        sha.deep_view(),
    ));
    f
}

/// The fields that create `gh-pages` from a commit.
pub fn pages_branch_fields(sha: &str) -> (res: Vec<(String, String)>)
    ensures
        res.deep_view() == seq![("ref"@, "refs/heads/gh-pages"@), ("sha"@, sha@)],
{
    let mut f: Vec<(String, String)> = Vec::new();
    f.push(text_entry("ref", "refs/heads/gh-pages"));
    f.push(text_entry("sha", sha));
    assert(f.deep_view() =~= seq![("ref"@, "refs/heads/gh-pages"@), ("sha"@, sha@)]);
    f
}

/// A request of the publishing sequence: its method, its URL and the fields of
/// its JSON body.
pub struct PublishRequest {
    pub method: String,
    pub url: String,
    pub fields: Vec<(String, String)>,
}

/// The parts of a publishing request.
pub open spec fn publish_parts(r: PublishRequest) -> (Seq<char>, Seq<char>, Seq<(Seq<char>, Seq<char>)>) {
    (r.method@, r.url@, r.fields.deep_view())
}

/// The requests that publish a page, given whether `gh-pages` exists and the
/// head commit of the default branch when it was looked up: when the branch is
/// missing and the head is known, first a `POST` to `git/refs` that creates
/// `gh-pages` at that commit; then, always, the `PUT` of `index.html` with the
/// upload fields (commit message `message`).
pub open spec fn publish_plan(
    owner: Seq<char>,
    repo: Seq<char>,
    branch_exists: bool,
    default_head_sha: Option<Seq<char>>,
    html: Seq<char>,
    existing_sha: Option<Seq<char>>,
    message: Seq<char>,
) -> Seq<(Seq<char>, Seq<char>, Seq<(Seq<char>, Seq<char>)>)> {
    let upload = (
        "PUT"@,
        repo_api(owner, repo, "/contents/index.html"@),
        upload_fields_spec(message, html, existing_sha),
    );
    match default_head_sha {
        Some(sha) => if !branch_exists {
            seq![
                ("POST"@, repo_api(owner, repo, "/git/refs"@), seq![("ref"@, "refs/heads/gh-pages"@), ("sha"@, sha)]),
                upload,
            ]
        } else {
            seq![upload]
        },
        None => seq![upload],
    }
}

/// The requests that publish `html` as the repository's Pages site (see
/// `publish_plan`), with the commit message `Update API docs — <now>`.
pub fn publish_requests(
    owner: &str,
    repo: &str,
    branch_exists: bool,
    default_head_sha: Option<String>,
    html: &str,
    existing_sha: Option<String>,
) -> (res: Vec<PublishRequest>)
    requires
        encode_utf8(html@).len() < usize::MAX / 2,
    ensures
        exists|stamp: Seq<char>|
            date_time_text(stamp) && res@.map_values(|r: PublishRequest| publish_parts(r)) == publish_plan(
                owner@,
                repo@,
                branch_exists,
                default_head_sha.deep_view(),
                html@,
                existing_sha.deep_view(),
                #[trigger] ("Update API docs \u{2014} "@ + stamp),
            ),
{
    let upload_fields = docs_upload_fields(html, existing_sha);
    let ghost stamp = choose|stamp: Seq<char>|
        date_time_text(stamp) && upload_fields.deep_view() == upload_fields_spec(
            #[trigger] ("Update API docs \u{2014} "@ + stamp),
            html@,
            existing_sha.deep_view(),
        );
    let upload = PublishRequest {
        method: "PUT".to_owned(),
        url: pages_file_url(owner, repo),
        fields: upload_fields,
    };
    let mut out: Vec<PublishRequest> = Vec::new();
    match default_head_sha {
        Some(sha) => {
            if !branch_exists {
                let create = PublishRequest {
                    method: "POST".to_owned(),
                    url: repo_api_url(owner, repo, "/git/refs"),
                    fields: pages_branch_fields(sha.as_str()),
                };
                out.push(create);
            }
        },
        None => {},
    }
    out.push(upload);
    let ghost plan = publish_plan(
        owner@,
        repo@,
        branch_exists,
        default_head_sha.deep_view(),
        html@,
        existing_sha.deep_view(),
        "Update API docs \u{2014} "@ + stamp,
    );
    assert(out@.map_values(|r: PublishRequest| publish_parts(r)) =~= plan);
    out
}

} // verus!
