//! Git: how the status of a file is named, which branches are current, the
//! short form of commit ids and the refspecs that pushes use. The repository
//! itself is read and written by the caller.
use vstd::prelude::*;
use crate::text::{chars_of, concat, push_str, slice_range, string_of, str_eq};

verus! {

/// A repository's state: its current branch and its changed files.
pub struct GitStatus {
    pub branch: Option<String>,
    pub changes: Vec<GitChange>,
}

/// A changed file and how it changed.
pub struct GitChange {
    pub path: String,
    pub status: String,
}

/// A commit of the log.
pub struct GitCommit {
    pub hash: String,
    pub author: String,
    pub email: String,
    pub message: String,
    pub timestamp: i64,
}

/// A branch, local or remote.
pub struct GitBranch {
    pub name: String,
    pub is_current: bool,
    pub is_remote: bool,
}

/// The status flags of a file that its name depends on (in the index or in
/// the working tree).
pub struct StatusFlags {
    pub index_new: bool,
    pub wt_new: bool,
    pub index_modified: bool,
    pub wt_modified: bool,
    pub index_deleted: bool,
    pub wt_deleted: bool,
}

/// The name of a file's status: `added` when it is new in the index or the
/// working tree, else `modified`, else `deleted`, else `changed`.
pub open spec fn status_name(f: StatusFlags) -> Seq<char> {
    if f.index_new || f.wt_new {
        "added"@
    } else if f.index_modified || f.wt_modified {
        "modified"@
    } else if f.index_deleted || f.wt_deleted {
        "deleted"@
    } else {
        "changed"@
    }
}

/// A changed file, its path (`?` when it is not UTF-8) and its status name.
pub fn git_change(path: Option<String>, flags: &StatusFlags) -> (res: GitChange)
    ensures
        res.path@ == match path {
            Some(p) => p@,
            None => "?"@,
        },
        res.status@ == status_name(*flags),
{
    let status = if flags.index_new || flags.wt_new {
        "added"
    } else if flags.index_modified || flags.wt_modified {
        "modified"
    } else if flags.index_deleted || flags.wt_deleted {
        "deleted"
    } else {
        "changed"
    };
    GitChange {
        path: match path {
            Some(p) => p,
            None => "?".to_owned(),
        },
        status: status.to_owned(),
    }
}

/// A branch of the list: current when its name is the head's short name.
pub fn git_branch(name: Option<String>, is_remote: bool, head: &Option<String>) -> (res: GitBranch)
    ensures
        res.name@ == match name {
            Some(n) => n@,
            None => "?"@,
        },
        res.is_remote == is_remote,
        res.is_current == (head matches Some(h) && h@ == res.name@),
{
    let name = match name {
        Some(n) => n,
        None => "?".to_owned(),
    };
    let is_current = match head {
        Some(h) => str_eq(h.as_str(), name.as_str()),
        None => false,
    };
    GitBranch { name, is_current, is_remote }
}

/// The short form of a commit id: its first eight characters.
pub fn short_hash(hash: &str) -> (res: String)
    requires
        hash@.len() >= 8,
    ensures
        res@ == hash@.take(8),
{
    let c = chars_of(hash);
    let s = slice_range(c.as_slice(), 0, 8);
    assert(s@ =~= hash@.take(8));
    string_of(s.as_slice())
}

/// How many commits the log shows: `limit`, or 50 when it is 0.
pub fn log_cap(limit: usize) -> (res: usize)
    ensures
        res == if limit == 0 { 50 } else { limit },
{
    if limit == 0 {
        50
    } else {
        limit
    }
}

/// A commit of the log, from its id, author, summary and time; a missing author
/// name reads `?`, a missing e-mail or summary reads empty.
pub fn git_commit_entry(
    hash: &str,
    author: Option<String>,
    email: Option<String>,
    summary: Option<String>,
    timestamp: i64,
) -> (res: GitCommit)
    requires
        hash@.len() >= 8,
    ensures
        res.hash@ == hash@.take(8),
        res.author@ == match author {
            Some(a) => a@,
            None => "?"@,
        },
        res.email@ == match email {
            Some(e) => e@,
            None => seq![],
        },
        res.message@ == match summary {
            Some(m) => m@,
            None => seq![],
        },
        res.timestamp == timestamp,
{
    GitCommit {
        hash: short_hash(hash),
        author: match author {
            Some(a) => a,
            None => "?".to_owned(),
        },
        email: match email {
            Some(e) => e,
            None => String::new(),
        },
        message: match summary {
            Some(m) => m,
            None => String::new(),
        },
        timestamp,
    }
}

/// The reference of a local branch.
pub fn branch_ref(branch: &str) -> (res: String)
    ensures
        res@ == "refs/heads/"@ + branch@,
{
    concat("refs/heads/", branch)
}

/// The refspec that pushes a branch to the branch of the same name.
pub fn push_refspec(branch: &str) -> (res: String)
    ensures
        res@ == "refs/heads/"@ + branch@ + ":refs/heads/"@ + branch@,
{
    let mut s = concat("refs/heads/", branch);
    push_str(&mut s, ":refs/heads/");
    push_str(&mut s, branch);
    s
}

/// The message of a stash: the one given, else `parallax stash`.
pub fn stash_message(message: &Option<String>) -> (res: String)
    ensures
        res@ == match message {
            Some(m) => m@,
            None => "parallax stash"@,
        },
{
    match message {
        Some(m) => m.clone(),
        None => "parallax stash".to_owned(),
    }
}

/// What a pull does after fetching.
pub enum PullAction {
    /// Move the branch to the fetched commit and check it out.
    FastForward,
    /// The histories diverged: stop with this error.
    Conflict(String),
    /// Nothing to do.
    UpToDate,
}

/// What a pull does given the merge analysis: fast-forward when it can; a
/// normal merge is refused; otherwise nothing.
pub fn pull_action(is_fast_forward: bool, is_normal: bool) -> (res: PullAction)
    ensures
        is_fast_forward ==> res is FastForward,
        !is_fast_forward && is_normal ==> (res matches PullAction::Conflict(m) && m@
            == "Merge conflicts \u{2014} manual resolution required"@),
        !is_fast_forward && !is_normal ==> res is UpToDate,
{
    if is_fast_forward {
        PullAction::FastForward
    } else if is_normal {
        PullAction::Conflict("Merge conflicts \u{2014} manual resolution required".to_owned())
    } else {
        PullAction::UpToDate
    }
}

/// The user name that a token authenticates as.
pub fn token_user() -> (res: &'static str)
    ensures
        res@ == "x-access-token"@,
{
    "x-access-token"
}

} // verus!
