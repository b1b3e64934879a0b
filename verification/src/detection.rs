//! Finding the `.metis` workspace that a path belongs to.

use vstd::prelude::*;
use crate::disk::{path_exists, path_is_dir, path_is_file};
use crate::paths::{join, lemma_last_index_of, lemma_trim_len, parent, path_join, path_parent, trim_trailing_slashes};

verus! {

/// The name of the workspace directory.
pub open spec fn metis_dir_name() -> Seq<char> {
    ".metis"@
}

/// A parent is always shorter than its child.
pub proof fn lemma_parent_shorter(p: Seq<char>)
    ensures
        path_parent(p) matches Some(q) ==> q.len() < p.len(),
{
    let t = trim_trailing_slashes(p);
    lemma_trim_len(p);
    if !(t.len() == 0 || (t.len() == 1 && t[0] == '/')) {
        let i = crate::paths::last_index_of(t, '/');
        lemma_last_index_of(t, '/');
        if i > 0 {
            lemma_trim_len(t.take(i));
        }
    }
}

/// `p` followed by its parent, its parent's parent, and so on up to the top.
pub open spec fn ancestors(p: Seq<char>) -> Seq<Seq<char>>
    decreases p.len(),
{
    match path_parent(p) {
        Some(q) => {
            proof {
                lemma_parent_shorter(p);
            }
            seq![p] + ancestors(q)
        },
        None => seq![p],
    }
}

/// `d` is the `.metis` directory of `start` or of one of its ancestors.
pub open spec fn is_candidate_workspace(start: Seq<char>, d: Seq<char>) -> bool {
    exists|k: int| 0 <= k < ancestors(start).len() && d == path_join(#[trigger] ancestors(start)[k], metis_dir_name())
}

/// Detects and validates Metis workspaces.
pub struct WorkspaceDetectionService;

impl WorkspaceDetectionService {
    pub fn new() -> (res: Self) {
        WorkspaceDetectionService
    }

    /// `metis_dir` when it is an existing directory, `None` otherwise. Which of the
    /// two comes depends on the disk; `validated_dir` states the verdict for each answer.
    pub fn validate_workspace(&self, metis_dir: &str) -> (res: Option<String>)
        ensures
            res matches Some(d) ==> d@ == metis_dir@,
    {
        let found = path_exists(metis_dir);
        let is_dir = found && path_is_dir(metis_dir);
        validated_dir(metis_dir, found, is_dir)
    }

    /// The nearest `.metis` directory at `start_path` or above it: the disk is asked
    /// (through `validate_workspace`) about the `.metis` folder of each directory of
    /// `ancestor_dirs(start_path)`, and `nearest_workspace` chooses from the answers.
    /// What the disk answers is not stated; the choice for given answers is.
    pub fn find_workspace_from(&self, start_path: &str) -> (res: Option<String>)
        ensures
            res matches Some(d) ==> is_candidate_workspace(start_path@, d@),
    {
        let dirs = ancestor_dirs(start_path);
        assert(dirs@.len() == dirs.deep_view().len());
        let mut answers: Vec<bool> = Vec::new();
        let mut i: usize = 0;
        while i < dirs.len()
            invariant
                i <= dirs@.len(),
                dirs@.len() == ancestors(start_path@).len(),
                answers@.len() == i,
            decreases dirs@.len() - i,
        {
            let metis_dir = join(dirs[i].as_str(), ".metis");
            answers.push(self.validate_workspace(metis_dir.as_str()).is_some());
            i = i + 1;
        }
        proof {
            lemma_first_true_bound(answers@, answers@.len() as int);
        }
        nearest_workspace(start_path, &answers)
    }

    /// Whether `path` lies inside a workspace: whether `find_workspace_from` finds
    /// one, which depends on the disk.
    pub fn is_in_workspace(&self, path: &str) -> (res: bool)
    {
        self.find_workspace_from(path).is_some()
    }

    /// The project root (the directory holding `.metis`) for `path`, when
    /// `find_workspace_from` finds a workspace (which depends on the disk).
    pub fn get_workspace_root(&self, path: &str) -> (res: Option<String>)
        ensures
            res matches Some(r) ==> exists|d: Seq<char>|
                is_candidate_workspace(path@, d) && path_parent(d) == Some(r@),
    {
        if let Some(metis_dir) = self.find_workspace_from(path) {
            if let Some(root) = parent(metis_dir.as_str()) {
                return Some(root);
            }
        }
        None
    }

    /// The nearest directory at `start_path` or above holding a `.metis`
    /// directory with a `metis.db` file in it (the command line's test for a vault):
    /// each directory of `ancestor_dirs(start_path)` is tested with `is_workspace`,
    /// and `nearest_workspace` chooses from the answers. What the disk answers is not
    /// stated; the choice for given answers is.
    pub fn find_vault_from(&self, start_path: &str) -> (res: Option<String>)
        ensures
            res matches Some(d) ==> is_candidate_workspace(start_path@, d@),
    {
        let dirs = ancestor_dirs(start_path);
        assert(dirs@.len() == dirs.deep_view().len());
        let mut answers: Vec<bool> = Vec::new();
        let mut i: usize = 0;
        while i < dirs.len()
            invariant
                i <= dirs@.len(),
                dirs@.len() == ancestors(start_path@).len(),
                answers@.len() == i,
            decreases dirs@.len() - i,
        {
            answers.push(WorkspaceInitializationService::is_workspace(dirs[i].as_str()));
            i = i + 1;
        }
        proof {
            lemma_first_true_bound(answers@, answers@.len() as int);
        }
        nearest_workspace(start_path, &answers)
    }
}

/// Each entry of the ancestor chain is followed by its parent.
pub proof fn lemma_ancestors_step(start: Seq<char>, k: int)
    requires
        0 <= k < ancestors(start).len(),
    ensures
        path_parent(ancestors(start)[k]) matches Some(q) ==> k + 1 < ancestors(start).len()
            && ancestors(start)[k + 1] == q,
        ancestors(start)[k].len() <= start.len(),
    decreases start.len(),
{
    lemma_parent_shorter(start);
    match path_parent(start) {
        Some(q) => {
            if k > 0 {
                lemma_ancestors_step(q, k - 1);
                assert(ancestors(start)[k] == ancestors(q)[k - 1]);
            } else {
                assert(ancestors(q)[0] == q) by {
                    lemma_ancestors_first(q);
                }
            }
        },
        None => {},
    }
}

/// The chain starts with the path itself.
pub proof fn lemma_ancestors_first(p: Seq<char>)
    ensures
        ancestors(p).len() >= 1,
        ancestors(p)[0] == p,
    decreases p.len(),
{
    lemma_parent_shorter(p);
    if let Some(q) = path_parent(p) {
        lemma_ancestors_first(q);
    }
}

/// Sets up and recognises Metis workspaces: a `.metis` directory with a
/// `metis.db` file inside.
pub struct WorkspaceInitializationService;

/// Where a new workspace's parts live.
pub struct WorkspaceInitializationResult {
    pub metis_dir: String,
    pub database_path: String,
    pub vision_path: String,
}

impl WorkspaceInitializationService {
    /// The layout of a workspace set up in `base_path`: `.metis`, its
    /// `metis.db`, and its `vision.md`.
    pub fn layout(base_path: &str) -> (res: WorkspaceInitializationResult)
        ensures
            res.metis_dir@ == path_join(base_path@, metis_dir_name()),
            res.database_path@ == path_join(res.metis_dir@, "metis.db"@),
            res.vision_path@ == path_join(res.metis_dir@, "vision.md"@),
    {
        let metis_dir = join(base_path, ".metis");
        let database_path = join(metis_dir.as_str(), "metis.db");
        let vision_path = join(metis_dir.as_str(), "vision.md");
        WorkspaceInitializationResult { metis_dir, database_path, vision_path }
    }

    /// The folder created for strategies in a new workspace.
    pub fn strategies_dir(metis_dir: &str) -> (res: String)
        ensures
            res@ == path_join(metis_dir@, "strategies"@),
    {
        join(metis_dir, "strategies")
    }

    /// Whether `path` holds a `.metis` directory containing a `metis.db` file, as
    /// the disk answers; `holds_vault` states the verdict for each answer.
    pub fn is_workspace(path: &str) -> bool {
        let metis_dir = join(path, ".metis");
        let db_path = join(metis_dir.as_str(), "metis.db");
        let dir_exists = path_exists(metis_dir.as_str());
        let dir_is_dir = dir_exists && path_is_dir(metis_dir.as_str());
        let db_exists = dir_is_dir && path_exists(db_path.as_str());
        let db_is_file = db_exists && path_is_file(db_path.as_str());
        holds_vault(dir_exists, dir_is_dir, db_exists, db_is_file)
    }
}

/// The verdict on a workspace folder given what the disk answered (`found`: it
/// exists; `is_dir`: it is a directory): `metis_dir` when both hold, else `None`.
pub fn validated_dir(metis_dir: &str, found: bool, is_dir: bool) -> (res: Option<String>)
    ensures
        match res {
            Some(d) => found && is_dir && d@ == metis_dir@,
            None => !(found && is_dir),
        },
{
    if !found || !is_dir {
        return None;
    }
    Some(metis_dir.to_owned())
}

/// The verdict on a vault given what the disk answered: the `.metis` folder
/// exists and is a directory, and its `metis.db` exists and is a file.
pub fn holds_vault(dir_exists: bool, dir_is_dir: bool, db_exists: bool, db_is_file: bool) -> (res: bool)
    ensures
        res == (dir_exists && dir_is_dir && db_exists && db_is_file),
{
    dir_exists && dir_is_dir && db_exists && db_is_file
}

/// The first position among the first `n` answers that is `true`, or -1.
pub open spec fn first_true(answers: Seq<bool>, n: int) -> int
    decreases n,
{
    if n <= 0 {
        -1
    } else if first_true(answers, n - 1) >= 0 {
        first_true(answers, n - 1)
    } else if answers[n - 1] {
        n - 1
    } else {
        -1
    }
}

/// `start` followed by each of its ancestors up to the top, nearest first.
pub fn ancestor_dirs(start: &str) -> (res: Vec<String>)
    ensures
        res.deep_view() == ancestors(start@),
{
    let mut out: Vec<String> = Vec::new();
    let mut current = start.to_owned();
    let ghost mut k: int = 0;
    proof {
        lemma_ancestors_first(start@);
    }
    loop
        invariant_except_break
            out.deep_view() == ancestors(start@).take(k),
        invariant
            0 <= k < ancestors(start@).len(),
            current@ == ancestors(start@)[k],
        ensures
            out.deep_view() == ancestors(start@),
        decreases current@.len(),
    {
        let ghost before = out.deep_view();
        let c = current.clone();
        assert(c@ == current@);
        out.push(c);
        assert(out.deep_view() =~= before.push(current@));
        assert(ancestors(start@).take(k + 1) =~= ancestors(start@).take(k).push(ancestors(start@)[k]));
        assert(out.deep_view() =~= ancestors(start@).take(k + 1));
        proof {
            lemma_ancestors_step(start@, k);
            lemma_parent_shorter(current@);
        }
        match parent(current.as_str()) {
            Some(p) => {
                proof {
                    k = k + 1;
                }
                current = p;
            },
            None => {
                proof {
                    lemma_ancestors_last(start@, k);
                }
                assert(ancestors(start@).take(k + 1) =~= ancestors(start@));
                break;
            },
        }
    }
    out
}

/// The entry of the chain without a parent is the last one.
proof fn lemma_ancestors_last(start: Seq<char>, k: int)
    requires
        0 <= k < ancestors(start).len(),
        path_parent(ancestors(start)[k]) is None,
    ensures
        k + 1 == ancestors(start).len(),
    decreases start.len(),
{
    lemma_parent_shorter(start);
    match path_parent(start) {
        Some(q) => {
            if k > 0 {
                assert(ancestors(start)[k] == ancestors(q)[k - 1]);
                lemma_ancestors_last(q, k - 1);
            } else {
                lemma_ancestors_first(q);
            }
        },
        None => {},
    }
}

/// The nearest workspace for `start`, given for each directory of
/// `ancestor_dirs(start)` whether it holds a `.metis` workspace: the `.metis`
/// folder of the first one that does.
pub fn nearest_workspace(start: &str, has_workspace: &Vec<bool>) -> (res: Option<String>)
    requires
        has_workspace@.len() == ancestors(start@).len(),
    ensures
        ({
            let k = first_true(has_workspace@, has_workspace@.len() as int);
            match res {
                Some(d) => k >= 0 && d@ == path_join(ancestors(start@)[k], metis_dir_name()),
                None => k < 0,
            }
        }),
{
    let dirs = ancestor_dirs(start);
    let mut i: usize = 0;
    while i < has_workspace.len()
        invariant
            i <= has_workspace@.len() == dirs@.len(),
            dirs.deep_view() == ancestors(start@),
            first_true(has_workspace@, i as int) < 0,
        decreases has_workspace@.len() - i,
    {
        if has_workspace[i] {
            assert(first_true(has_workspace@, i + 1) == i);
            proof {
                lemma_first_true_stays(has_workspace@, i + 1, has_workspace@.len() as int);
            }
            assert(dirs.deep_view()[i as int] == dirs@[i as int]@);
            return Some(join(dirs[i].as_str(), ".metis"));
        }
        i = i + 1;
    }
    None
}

/// The first `true` among the first `n` answers lies below `n`.
pub proof fn lemma_first_true_bound(answers: Seq<bool>, n: int)
    requires
        n >= 0,
    ensures
        first_true(answers, n) < n,
        first_true(answers, n) >= -1,
    decreases n,
{
    if n > 0 {
        lemma_first_true_bound(answers, n - 1);
    }
}

/// Once found, the first `true` stays the first as more answers are looked at.
proof fn lemma_first_true_stays(answers: Seq<bool>, m: int, n: int)
    requires
        0 <= m <= n,
        first_true(answers, m) >= 0,
    ensures
        first_true(answers, n) == first_true(answers, m),
    decreases n - m,
{
    if n > m {
        lemma_first_true_stays(answers, m, n - 1);
    }
}


/// The search for a workspace starts at the start directory itself: when the
/// answer for it is yes, the nearest workspace chosen (`nearest_workspace`) is
/// the `.metis` folder of the start directory, whatever the answers above it;
/// and when every answer is no, none is chosen.
pub proof fn law_nearest_starts_at_start(start: Seq<char>, answers: Seq<bool>)
    requires
        answers.len() == ancestors(start).len(),
    ensures
        answers[0] ==> first_true(answers, answers.len() as int) == 0 && ancestors(start)[0] == start,
        (forall|k: int| 0 <= k < answers.len() ==> !#[trigger] answers[k]) ==> first_true(answers, answers.len() as int) < 0,
{
    lemma_ancestors_first(start);
    if answers[0] {
        assert(first_true(answers, 0) == -1);
        assert(first_true(answers, 1) == 0);
        lemma_first_true_stays(answers, 1, answers.len() as int);
    }
    if forall|k: int| 0 <= k < answers.len() ==> !#[trigger] answers[k] {
        lemma_first_true_none(answers, answers.len() as int);
    }
}

/// With no `true` among the first `n` answers there is no first one.
proof fn lemma_first_true_none(answers: Seq<bool>, n: int)
    requires
        0 <= n <= answers.len(),
        forall|k: int| 0 <= k < answers.len() ==> !#[trigger] answers[k],
    ensures
        first_true(answers, n) < 0,
    decreases n,
{
    if n > 0 {
        lemma_first_true_none(answers, n - 1);
        assert(!answers[n - 1]);
    }
}

} // verus!
