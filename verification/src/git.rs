//! Decisions about the git repository that holds a workspace: which branch is
//! main, whether it is checked out, and which files of main's tree are listed.
//! The repository itself is read by the program around the library.

use vstd::prelude::*;
use crate::paths::concat_chars;
use crate::text::{chars_eq, chars_ends_with, chars_of, chars_starts_with, ends_with, opt_view, starts_with, string_from_chars};

verus! {

/// Which of the candidate references exist in the repository.
pub struct BranchRefs {
    /// `refs/heads/main` exists.
    pub local_main: bool,
    /// `refs/heads/master` exists.
    pub local_master: bool,
    /// `refs/remotes/origin/main` exists.
    pub remote_main: bool,
    /// `refs/remotes/origin/master` exists.
    pub remote_master: bool,
}

/// The main branch's name: local branches are looked at first (`main`, then
/// `master`), then the remote-tracking ones in the same order.
pub open spec fn main_branch_of(r: BranchRefs) -> Option<Seq<char>> {
    if r.local_main {
        Some("main"@)
    } else if r.local_master {
        Some("master"@)
    } else if r.remote_main {
        Some("main"@)
    } else if r.remote_master {
        Some("master"@)
    } else {
        None
    }
}

/// Resolves whether the repository uses `main` or `master` as its main branch.
pub fn resolve_main_branch_name(refs: &BranchRefs) -> (res: Option<String>)
    ensures
        opt_view(res) == main_branch_of(*refs),
{
    if refs.local_main || (!refs.local_master && refs.remote_main) {
        Some("main".to_owned())
    } else if refs.local_master || refs.remote_master {
        Some("master".to_owned())
    } else {
        None
    }
}

/// The full reference name of a branch.
pub open spec fn branch_ref(branch: Seq<char>) -> Seq<char> {
    "refs/heads/"@ + branch
}

/// The full reference name of the main branch, such as `refs/heads/main`.
pub fn main_ref(main_branch: &str) -> (res: String)
    ensures
        res@ == branch_ref(main_branch@),
{
    string_from_chars(&concat_chars(&chars_of("refs/heads/"), &chars_of(main_branch)))
}

/// The checked-out branch: the short name of HEAD when it is a branch, `None`
/// when HEAD is detached (or missing).
pub fn current_branch(head_is_branch: bool, head_shorthand: Option<String>) -> (res: Option<String>)
    ensures
        opt_view(res) == if head_is_branch { opt_view(head_shorthand) } else { None },
{
    if head_is_branch {
        head_shorthand
    } else {
        None
    }
}

/// Whether the checked-out branch is the main branch.
pub fn is_on_main(current: &Option<String>, main_branch: &str) -> (res: bool)
    ensures
        res == (opt_view(*current) == Some(main_branch@)),
{
    match current {
        Some(b) => chars_eq(&chars_of(b.as_str()), &chars_of(main_branch)),
        None => false,
    }
}

/// The path of an entry met while walking a tree: its name after the path of
/// the folder it is in (which ends in `/`, or is empty at the top).
pub open spec fn tree_entry_path(root: Seq<char>, name: Seq<char>) -> Seq<char> {
    if root.len() == 0 { name } else { root + name }
}

/// Whether an entry of main's tree is listed as a markdown file of the folder
/// with tree prefix `dir_prefix`.
pub open spec fn tree_file_listed(full_path: Seq<char>, name: Seq<char>, dir_prefix: Seq<char>) -> bool {
    starts_with(full_path, dir_prefix) && ends_with(full_path, ".md"@) && name != "code-index.md"@
}

/// The path of a tree entry, given the path of its folder and its name.
pub fn tree_path_of(root: &str, name: &str) -> (res: String)
    ensures
        res@ == tree_entry_path(root@, name@),
{
    let r = chars_of(root);
    if r.len() == 0 {
        name.to_owned()
    } else {
        string_from_chars(&concat_chars(&r, &chars_of(name)))
    }
}

/// Whether a tree entry is listed as a markdown file under `dir_prefix`.
pub fn lists_tree_file(full_path: &str, name: &str, dir_prefix: &str) -> (res: bool)
    ensures
        res == tree_file_listed(full_path@, name@, dir_prefix@),
{
    let p = chars_of(full_path);
    chars_starts_with(&p, &chars_of(dir_prefix)) && chars_ends_with(&p, &chars_of(".md"))
        && !chars_eq(&chars_of(name), &chars_of("code-index.md"))
}

} // verus!
