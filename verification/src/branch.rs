use crate::json::{keys, spec_string_at, string_at, JsonValue};
use crate::text::{opt_text, trim, trim_whitespace};
use vstd::prelude::*;
use vstd::string::*;
use vstd::utf8::{decode_utf8, valid_utf8};

verus! {

/// `git` may answer `answer` when asked for the branch checked out in `dir`.
pub open spec fn git_answers<F: Fn(&str) -> Option<String>>(
    git: F,
    dir: Seq<char>,
    answer: Option<Seq<char>>,
) -> bool {
    exists|d: &str, out: Option<String>|
        #![trigger call_ensures(git, (d,), out)]
        d@ == dir && call_ensures(git, (d,), out) && opt_text(out) == answer
}

/// The branch of the payload's worktree, unless missing or empty.
pub open spec fn worktree_branch(json: JsonValue) -> Option<Seq<char>> {
    match spec_string_at(json, seq!["worktree"@, "branch"@]) {
        Some(b) => if b.len() > 0 {
            Some(b)
        } else {
            None
        },
        None => None,
    }
}

/// The last resort: what git says of `workspace.current_dir`, if there is one.
pub open spec fn current_dir_branch<F: Fn(&str) -> Option<String>>(
    json: JsonValue,
    git: F,
    branch: Option<Seq<char>>,
) -> bool {
    match spec_string_at(json, seq!["workspace"@, "current_dir"@]) {
        Some(dir) => git_answers(git, dir, branch),
        None => branch is None,
    }
}

/// `branch` is a branch that the lookup may find: the worktree's branch when
/// the payload names one; else what git says of `cwd` when it finds a branch
/// there; else what git says of `workspace.current_dir`; else none.
pub open spec fn branch_outcome<F: Fn(&str) -> Option<String>>(
    json: JsonValue,
    git: F,
    branch: Option<Seq<char>>,
) -> bool {
    match worktree_branch(json) {
        Some(b) => branch == Some(b),
        None => match spec_string_at(json, seq!["cwd"@]) {
            Some(cwd) => {
                ||| branch is Some && git_answers(git, cwd, branch)
                ||| git_answers(git, cwd, None) && current_dir_branch(json, git, branch)
            },
            None => current_dir_branch(json, git, branch),
        },
    }
}

/// The active branch: the worktree's branch from the payload, else the branch
/// that `git_branch` finds checked out in `cwd`, else in
/// `workspace.current_dir`. `git_branch` is asked only as far as needed.
pub fn active_branch_with<F>(json: &JsonValue, git_branch: F) -> (r: Option<String>) where
    F: Fn(&str) -> Option<String>,
    requires
        forall|d: &str| call_requires(git_branch, (d,)),
    ensures
        branch_outcome(*json, git_branch, opt_text(r)),
{
    let worktree_path = ["worktree", "branch"];
    let cwd_path = ["cwd"];
    let current_path = ["workspace", "current_dir"];
    assert(keys(worktree_path@) =~= seq!["worktree"@, "branch"@]);
    assert(keys(cwd_path@) =~= seq!["cwd"@]);
    assert(keys(current_path@) =~= seq!["workspace"@, "current_dir"@]);

    if let Some(branch) = string_at(json, &worktree_path) {
        if !branch.is_empty() {
            return Some(branch.to_owned());
        }
    }
    assert(worktree_branch(*json) is None);
    if let Some(cwd) = string_at(json, &cwd_path) {
        let found = git_branch(cwd);
        assert(git_answers(git_branch, cwd@, opt_text(found)));
        if found.is_some() {
            return found;
        }
    }
    let r = match string_at(json, &current_path) {
        Some(dir) => {
            let found = git_branch(dir);
            assert(git_answers(git_branch, dir@, opt_text(found)));
            found
        },
        None => None,
    };
    assert(current_dir_branch(*json, git_branch, opt_text(r)));
    assert(spec_string_at(*json, seq!["cwd"@]) is Some ==> git_answers(
        git_branch,
        spec_string_at(*json, seq!["cwd"@])->0,
        None,
    ));
    r
}

/// `String::from_utf8` (std): the string that `bytes` encode when they are
/// valid UTF-8, and no string otherwise.
#[verifier::external_body]
fn string_from_utf8(bytes: Vec<u8>) -> (r: Option<String>)
    ensures
        r is Some <==> valid_utf8(bytes@),
        r matches Some(s) ==> s@ == decode_utf8(bytes@),
{
    String::from_utf8(bytes).ok()
}

/// The branch that `git branch --show-current` reports: its output, trimmed,
/// when git succeeded, wrote valid UTF-8 and the output is not blank.
pub open spec fn spec_branch_from_git_output(succeeded: bool, stdout: Seq<u8>) -> Option<Seq<char>> {
    if succeeded && valid_utf8(stdout) {
        let branch = trim_whitespace(decode_utf8(stdout));
        if branch.len() > 0 {
            Some(branch)
        } else {
            None
        }
    } else {
        None
    }
}

/// The branch named by the output of `git branch --show-current`, given
/// whether git succeeded and what it wrote to stdout.
pub fn branch_from_git_output(succeeded: bool, stdout: Vec<u8>) -> (r: Option<String>)
    ensures
        opt_text(r) == spec_branch_from_git_output(succeeded, stdout@),
{
    if !succeeded {
        return None;
    }
    let text = match string_from_utf8(stdout) {
        Some(t) => t,
        None => return None,
    };
    let branch = trim(text.as_str());
    if branch.is_empty() {
        None
    } else {
        Some(branch.to_owned())
    }
}

} // verus!
