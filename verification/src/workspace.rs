//! The local side of a workspace: where its files live, what its Git `HEAD`
//! names, the file names that collections and designs are saved under, shell
//! templates, and recorded traffic turned into mock rules.
use vstd::prelude::*;
use crate::text::{
    chars_of, concat, push_str, decimal, decimal_string, has_prefix, strip_prefix, starts_with,
    ends_with, has_suffix, find, find_chars, lemma_find_from, slice_range, string_of, trim,
    trim_chars, trim_end_char, trim_end_char_chars, utf8_lossy, utf8_lossy_string,
};
use crate::template::{replace_all, replace_chars};
use crate::text::{lower_ascii_seq, contains};
use crate::http_engine::all_ascii;

verus! {

/// The address of the local worker service.
pub fn channel_url() -> (res: &'static str)
    ensures
        res@ == "http://127.0.0.1:50151"@,
{
    "http://127.0.0.1:50151"
}

/// `base` with the relative path `part` appended (`PathBuf::join` on Unix): a
/// `/` goes between them unless `base` is empty or already ends with one; an
/// absolute `part` replaces `base`.
pub open spec fn join(base: Seq<char>, part: Seq<char>) -> Seq<char> {
    if part.len() > 0 && part[0] == '/' {
        part
    } else if base.len() == 0 || base.last() == '/' {
        base + part
    } else {
        base + seq!['/'] + part
    }
}

/// `base` joined with `part` (see `join`).
pub fn join_path(base: &str, part: &str) -> (res: String)
    ensures
        res@ == join(base@, part@),
{
    proof {
        reveal_strlit("/");
        assert("/"@ =~= seq!['/']);
    }
    let b = chars_of(base);
    let p = chars_of(part);
    if p.len() > 0 && p[0] == '/' {
        return part.to_owned();
    }
    if b.len() == 0 || b[b.len() - 1] == '/' {
        concat(base, part)
    } else {
        let mut s = concat(base, "/");
        push_str(&mut s, part);
        s
    }
}

/// A workspace's `.parallax` directory.
pub fn parallax_dir(workspace: &str) -> (res: String)
    ensures
        res@ == join(workspace@, ".parallax"@),
{
    join_path(workspace, ".parallax")
}

/// A workspace's environments directory.
pub fn env_dir(workspace: &str) -> (res: String)
    ensures
        res@ == join(join(workspace@, ".parallax"@), "environments"@),
{
    join_path(parallax_dir(workspace).as_str(), "environments")
}

/// The user's `.parallax` directory under the home directory (`HOME`, else
/// `USERPROFILE`, as the caller read them), if there is one.
pub fn parallax_home(home: Option<String>, user_profile: Option<String>) -> (res: Option<String>)
    ensures
        res.deep_view() == match home {
            Some(h) => Some(join(h@, ".parallax"@)),
            None => match user_profile {
                Some(u) => Some(join(u@, ".parallax"@)),
                None => None,
            },
        },
{
    match home {
        Some(h) => Some(join_path(h.as_str(), ".parallax")),
        None => match user_profile {
            Some(u) => Some(join_path(u.as_str(), ".parallax")),
            None => None,
        },
    }
}

/// Where the GitHub sign-in is kept, under the user's `.parallax` directory.
pub fn auth_path(parallax_home: Option<String>) -> (res: Option<String>)
    ensures
        res.deep_view() == match parallax_home {
            Some(h) => Some(join(h@, "github_auth.json"@)),
            None => None,
        },
{
    match parallax_home {
        Some(h) => Some(join_path(h.as_str(), "github_auth.json")),
        None => None,
    }
}

/// The branch that a `.git/HEAD` file names: its trimmed text after
/// `ref: refs/heads/`, or nothing for a detached `HEAD`.
pub fn branch_from_head(head: &str) -> (res: Option<String>)
    ensures
        res.deep_view() == strip_prefix(trim(head@), "ref: refs/heads/"@),
{
    let t = trim_chars(chars_of(head).as_slice());
    let p = chars_of("ref: refs/heads/");
    if starts_with(t.as_slice(), p.as_slice()) {
        let rest = slice_range(t.as_slice(), p.len(), t.len());
        assert(rest@ =~= t@.skip(p@.len() as int));
        Some(string_of(rest.as_slice()))
    } else {
        None
    }
}

/// What `str::to_lowercase` makes of a text (Unicode lower-casing).
pub uninterp spec fn lowercased(s: Seq<char>) -> Seq<char>;

/// `str::to_lowercase`: the Unicode lower-case of `s`; on ASCII text, the
/// ASCII lower-case.
#[verifier::external_body]
pub(crate) fn to_lowercase(s: &str) -> (res: String)
    ensures
        res@ == lowercased(s@),
        all_ascii(s@) ==> res@ == lower_ascii_seq(s@),
{
    s.to_lowercase()
}

fn one_char(c: char) -> (res: Vec<char>)
    ensures
        res@ == seq![c],
{
    let mut v: Vec<char> = Vec::new();
    v.push(c);
    assert(v@ =~= seq![c]);
    v
}

/// The file a collection is saved in: its name lower-cased with spaces as
/// dashes, and `.yaml`.
pub fn collection_file_name(name: &str) -> (res: String)
    ensures
        res@ == replace_all(lowercased(name@), " "@, "-"@) + ".yaml"@,
{
    let lower = chars_of(to_lowercase(name).as_str());
    let space = one_char(' ');
    let dash = one_char('-');
    proof {
        reveal_strlit(" ");
        reveal_strlit("-");
        assert(" "@ =~= seq![' ']);
        assert("-"@ =~= seq!['-']);
    }
    let r = replace_chars(lower.as_slice(), space.as_slice(), dash.as_slice());
    let mut s = string_of(r.as_slice());
    push_str(&mut s, ".yaml");
    s
}

/// The file a design is saved in: its name lower-cased, spaces and slashes as
/// dashes, and `.openapi.yaml`.
pub fn design_file_name(name: &str) -> (res: String)
    ensures
        res@ == replace_all(replace_all(lowercased(name@), " "@, "-"@), "/"@, "-"@)
            + ".openapi.yaml"@,
{
    let lower = chars_of(to_lowercase(name).as_str());
    let space = one_char(' ');
    let slash = one_char('/');
    let dash = one_char('-');
    proof {
        reveal_strlit(" ");
        reveal_strlit("/");
        reveal_strlit("-");
        assert(" "@ =~= seq![' ']);
        assert("/"@ =~= seq!['/']);
        assert("-"@ =~= seq!['-']);
    }
    let r1 = replace_chars(lower.as_slice(), space.as_slice(), dash.as_slice());
    let r2 = replace_chars(r1.as_slice(), slash.as_slice(), dash.as_slice());
    let mut s = string_of(r2.as_slice());
    push_str(&mut s, ".openapi.yaml");
    s
}

/// The file a history entry is saved in: its timestamp and `.json`.
pub fn history_file_name(timestamp: u64) -> (res: String)
    ensures
        res@ == decimal(timestamp as nat) + ".json"@,
{
    let mut s = decimal_string(timestamp);
    push_str(&mut s, ".json");
    s
}

// ---------------------------------------------------------------------------
// Shell templates
// ---------------------------------------------------------------------------

/// What a shell template evaluates to: on success its output (lossy UTF-8)
/// without trailing `\n`s and then trailing `\r`s; on failure the error with
/// its trimmed error output.
pub open spec fn shell_result_spec(success: bool, stdout: Seq<u8>, stderr: Seq<u8>) -> Result<Seq<char>, Seq<char>> {
    if success {
        Ok(trim_end_char(trim_end_char(utf8_lossy(stdout), '\n'), '\r'))
    } else {
        Err("Shell command failed: "@ + trim(utf8_lossy(stderr)))
    }
}

/// What a finished shell template evaluates to (see `shell_result_spec`).
pub fn shell_result(success: bool, stdout: &[u8], stderr: &[u8]) -> (res: Result<String, String>)
    ensures
        match (res, shell_result_spec(success, stdout@, stderr@)) {
            (Ok(a), Ok(b)) => a@ == b,
            (Err(a), Err(b)) => a@ == b,
            _ => false,
        },
{
    if success {
        let out = chars_of(utf8_lossy_string(stdout).as_str());
        let a = trim_end_char_chars(out.as_slice(), '\n');
        let b = trim_end_char_chars(a.as_slice(), '\r');
        Ok(string_of(b.as_slice()))
    } else {
        let err = chars_of(utf8_lossy_string(stderr).as_str());
        let t = trim_chars(err.as_slice());
        let m = concat("Shell command failed: ", string_of(t.as_slice()).as_str());
        Err(m)
    }
}

/// The error when a shell template runs past its time limit.
pub fn shell_timeout_message(cmd: &str) -> (res: String)
    ensures
        res@ == "Shell command timed out after 10s: "@ + cmd@,
{
    concat("Shell command timed out after 10s: ", cmd)
}

// ---------------------------------------------------------------------------
// Mock rules
// ---------------------------------------------------------------------------

/// A mock rule: requests to `path` with `method` are answered with this status,
/// body, headers and content type.
pub struct LocalMockRule {
    pub id: String,
    pub path: String,
    pub method: String,
    pub status_code: i32,
    pub body: String,
    pub headers: Vec<(String, String)>,
    pub content_type: String,
}

/// The path (and query) of a recorded URL: what follows the host of an
/// `https://` or `http://` URL from its first `/` (or `/` when there is none),
/// a URL that already starts with `/`, or `/`.
pub open spec fn url_path(url: Seq<char>) -> Seq<char> {
    let after = match strip_prefix(url, "https://"@) {
        Some(a) => Some(a),
        None => strip_prefix(url, "http://"@),
    };
    match after {
        Some(a) => match find(a, seq!['/']) {
            Some(i) => a.skip(i),
            None => "/"@,
        },
        None => if has_prefix(url, "/"@) {
            url
        } else {
            "/"@
        },
    }
}

fn strip_lit(s: &[char], prefix: &str) -> (res: Option<Vec<char>>)
    ensures
        match res {
            Some(v) => strip_prefix(s@, prefix@) == Some(v@),
            None => strip_prefix(s@, prefix@) is None,
        },
{
    let p = chars_of(prefix);
    if starts_with(s, p.as_slice()) {
        let rest = slice_range(s, p.len(), s.len());
        assert(rest@ =~= s@.skip(p@.len() as int));
        Some(rest)
    } else {
        None
    }
}

/// The path (and query) of a recorded URL (see `url_path`).
pub fn extract_url_path(url: &str) -> (res: String)
    ensures
        res@ == url_path(url@),
{
    proof {
        reveal_strlit("/");
    }
    let u = chars_of(url);
    let after = match strip_lit(u.as_slice(), "https://") {
        Some(a) => Some(a),
        None => strip_lit(u.as_slice(), "http://"),
    };
    match after {
        Some(a) => {
            let mut slash: Vec<char> = Vec::new();
            slash.push('/');
            assert(slash@ =~= seq!['/']);
            match find_chars(a.as_slice(), slash.as_slice()) {
                Some(i) => {
                    proof {
                        lemma_find_from(a@, seq!['/'], 0);
                    }
                    let rest = slice_range(a.as_slice(), i, a.len());
                    assert(rest@ =~= a@.skip(i as int));
                    string_of(rest.as_slice())
                },
                None => "/".to_owned(),
            }
        },
        None => {
            let root = chars_of("/");
            if starts_with(u.as_slice(), root.as_slice()) {
                url.to_owned()
            } else {
                "/".to_owned()
            }
        },
    }
}

/// The path of a recorded URL always begins with `/`.
pub proof fn law_url_path_rooted(url: Seq<char>)
    ensures
        url_path(url).len() > 0,
        url_path(url)[0] == '/',
{
    reveal_strlit("/");
    reveal_strlit("https://");
    reveal_strlit("http://");
    let after = match strip_prefix(url, "https://"@) {
        Some(a) => Some(a),
        None => strip_prefix(url, "http://"@),
    };
    match after {
        Some(a) => {
            if let Some(i) = find(a, seq!['/']) {
                lemma_find_from(a, seq!['/'], 0);
                assert(a.subrange(i, i + 1) == seq!['/']);
                assert(a.skip(i)[0] == a.subrange(i, i + 1)[0]);
            }
        },
        None => {
            if has_prefix(url, "/"@) {
                assert(url.take(1)[0] == url[0]);
            }
        },
    }
}

/// The mock rule that a recorded exchange becomes: id `rec-<entry id>`, the
/// path of its URL, and its method, status, body preview, response headers and
/// content type.
pub fn mock_rule_from_traffic(
    entry_id: &str,
    url: &str,
    method: String,
    status_code: i32,
    preview: String,
    response_headers: Vec<(String, String)>,
    content_type: String,
) -> (res: LocalMockRule)
    ensures
        res.id@ == "rec-"@ + entry_id@,
        res.path@ == url_path(url@),
        res.method == method,
        res.status_code == status_code,
        res.body == preview,
        res.headers == response_headers,
        res.content_type == content_type,
{
    LocalMockRule {
        id: concat("rec-", entry_id),
        path: extract_url_path(url),
        method,
        status_code,
        body: preview,
        headers: response_headers,
        content_type,
    }
}


// ---------------------------------------------------------------------------
// Workspaces, environments and history
// ---------------------------------------------------------------------------

/// What is known of an opened workspace.
pub struct WorkspaceInfo {
    pub root: String,
    pub name: String,
    pub has_parallax: bool,
    pub has_git: bool,
    pub git_branch: Option<String>,
    pub collections_count: usize,
    pub environments_count: usize,
}

/// A named set of variables.
pub struct Environment {
    pub name: String,
    pub variables: Vec<(String, String)>,
}

/// What the history keeps of a sent request.
pub struct HistoryEntryMeta {
    pub id: String,
    pub request_id: String,
    pub method: String,
    pub url: String,
    pub timestamp: u64,
    pub status: u16,
    pub duration_ms: u128,
    pub size_bytes: usize,
}

/// A path that is a single plain name on every platform: not empty, not `.`
/// or `..`, and free of `/`, `\\` and `:`.
pub open spec fn plain_name(s: Seq<char>) -> bool {
    s.len() > 0 && !contains(s, "/"@) && !contains(s, "\\"@) && !contains(s, ":"@) && s != "."@
        && s != ".."@
}

/// What any platform's `Path::file_name` can give for `path`: a name that is
/// not empty, not `.` or `..`, holds no `/`, and occurs in `path`.
pub open spec fn fits_file_name(path: Seq<char>, n: Seq<char>) -> bool {
    n.len() > 0 && !contains(n, "/"@) && n != "."@ && n != ".."@ && contains(path, n)
}

/// `std::path::Path::new(path).file_name()` read as text (`None` when there is
/// no final name or it is not UTF-8). Which characters separate components
/// differs between platforms, so only what holds on every platform is stated:
/// a name found fits `fits_file_name`; a plain name is its own file name; the
/// empty path has none.
#[verifier::external_body]
fn file_name_of(path: &str) -> (res: Option<String>)
    ensures
        res matches Some(n) ==> fits_file_name(path@, n@),
        plain_name(path@) ==> res.deep_view() == Some(path@),
        path@.len() == 0 ==> res is None,
{
    std::path::Path::new(path).file_name().and_then(|n| n.to_str()).map(|n| n.to_string())
}

/// The name of a workspace: the last component of its path (`Path::file_name`),
/// or `workspace` when it has none.
pub fn workspace_name(path: &str) -> (res: String)
    ensures
        res@ == "workspace"@ || fits_file_name(path@, res@),
        plain_name(path@) ==> res@ == path@,
        path@.len() == 0 ==> res@ == "workspace"@,
{
    match file_name_of(path) {
        Some(n) => n,
        None => "workspace".to_owned(),
    }
}

/// What is known of a workspace at `path`: its name, whether it has `.parallax`
/// and `.git`, the branch that `.git/HEAD` names when it has Git (and the file
/// could be read), and how many collections and environments it has.
pub fn workspace_info(
    path: &str,
    has_parallax: bool,
    has_git: bool,
    head: Option<String>,
    collections_count: usize,
    environments_count: usize,
) -> (res: WorkspaceInfo)
    ensures
        res.root@ == path@,
        res.name@ == "workspace"@ || fits_file_name(path@, res.name@),
        plain_name(path@) ==> res.name@ == path@,
        path@.len() == 0 ==> res.name@ == "workspace"@,
        res.has_parallax == has_parallax,
        res.has_git == has_git,
        res.git_branch.deep_view() == if has_git {
            match head {
                Some(h) => strip_prefix(trim(h@), "ref: refs/heads/"@),
                None => None,
            }
        } else {
            None
        },
        res.collections_count == collections_count,
        res.environments_count == environments_count,
{
    let git_branch = if has_git {
        match head {
            Some(h) => branch_from_head(h.as_str()),
            None => None,
        }
    } else {
        None
    };
    WorkspaceInfo {
        root: path.to_owned(),
        name: workspace_name(path),
        has_parallax,
        has_git,
        git_branch,
        collections_count,
        environments_count,
    }
}

/// The global environment file that a new workspace starts with.
pub fn globals_environment_json() -> (res: &'static str)
    ensures
        res@ == "{\"name\":\"globals\",\"variables\":{}}"@,
{
    "{\"name\":\"globals\",\"variables\":{}}"
}

// ---------------------------------------------------------------------------
// AI assistant settings
// ---------------------------------------------------------------------------

/// The AI assistant's settings.
pub struct AiSettings {
    pub provider: String,
    pub model: String,
    pub api_key: String,
    pub base_url: String,
    pub air_gap_mode: bool,
}

/// The settings from a configuration's members (each when it is a string, or a
/// boolean for `airGapMode`): the provider defaults to `ollama`, the texts to
/// empty, air-gap mode to off.
pub fn extract_config(
    provider: Option<String>,
    model: Option<String>,
    api_key: Option<String>,
    base_url: Option<String>,
    air_gap_mode: Option<bool>,
) -> (res: AiSettings)
    ensures
        res.provider@ == match provider {
            Some(p) => p@,
            None => "ollama"@,
        },
        res.model@ == match model {
            Some(m) => m@,
            None => seq![],
        },
        res.api_key@ == match api_key {
            Some(k) => k@,
            None => seq![],
        },
        res.base_url@ == match base_url {
            Some(b) => b@,
            None => seq![],
        },
        res.air_gap_mode == match air_gap_mode {
            Some(b) => b,
            None => false,
        },
{
    AiSettings {
        provider: match provider {
            Some(p) => p,
            None => "ollama".to_owned(),
        },
        model: match model {
            Some(m) => m,
            None => String::new(),
        },
        api_key: match api_key {
            Some(k) => k,
            None => String::new(),
        },
        base_url: match base_url {
            Some(b) => b,
            None => String::new(),
        },
        air_gap_mode: match air_gap_mode {
            Some(b) => b,
            None => false,
        },
    }
}

} // verus!
