//! Moving tasks between initiatives and the backlog.

use vstd::prelude::*;
use crate::models::Document;
use crate::paths::{file_name, join, parent, path_file_name, path_join, path_parent};
use crate::disk::path_exists;
use crate::text::{chars_of, opt_view, str_is, strs_eq, to_lowercase, unicode_lowercase};

verus! {

/// Backlog category for standalone tasks.
#[derive(Clone, Copy, Debug, PartialEq, Eq, Structural)]
pub enum BacklogCategory {
    Bug,
    Feature,
    TechDebt,
}

/// The category a (lowercased) name stands for.
pub open spec fn category_named(lower: Seq<char>) -> Option<BacklogCategory> {
    if lower == "bug"@ {
        Some(BacklogCategory::Bug)
    } else if lower == "feature"@ {
        Some(BacklogCategory::Feature)
    } else if lower == "tech-debt"@ || lower == "techdebt"@ || lower == "tech_debt"@ {
        Some(BacklogCategory::TechDebt)
    } else {
        None
    }
}

/// The backlog subdirectory of each category.
pub open spec fn category_directory(c: BacklogCategory) -> Seq<char> {
    match c {
        BacklogCategory::Bug => "bugs"@,
        BacklogCategory::Feature => "features"@,
        BacklogCategory::TechDebt => "tech-debt"@,
    }
}

impl BacklogCategory {
    /// Parses a category name, ignoring case (as `str::to_lowercase` folds it).
    pub fn from_str(s: &str) -> (res: Option<Self>)
        ensures
            res == category_named(unicode_lowercase(s@)),
    {
        let lower = to_lowercase(s);
        let l = lower.as_str();
        if str_is(l, &chars_of("bug")) {
            Some(BacklogCategory::Bug)
        } else if str_is(l, &chars_of("feature")) {
            Some(BacklogCategory::Feature)
        } else if str_is(l, &chars_of("tech-debt")) || str_is(l, &chars_of("techdebt"))
            || str_is(l, &chars_of("tech_debt")) {
            Some(BacklogCategory::TechDebt)
        } else {
            None
        }
    }

    /// The backlog subdirectory for this category.
    pub fn directory_name(&self) -> (res: &'static str)
        ensures
            res@ == category_directory(*self),
    {
        match self {
            BacklogCategory::Bug => "bugs",
            BacklogCategory::Feature => "features",
            BacklogCategory::TechDebt => "tech-debt",
        }
    }
}

/// Why a reassignment was refused.
#[derive(Debug, PartialEq, Eq)]
pub enum ReassignError {
    /// No document has this short code.
    NotFound(String),
    /// Only tasks can be reassigned; the document is of another type.
    NotATask { short_code: String, document_type: String },
    /// No document has the parent's short code.
    ParentNotFound(String),
    /// The parent is not an initiative.
    ParentNotInitiative { parent_id: String, document_type: String },
    /// The initiative is not in its `decompose` or `active` phase.
    ParentWrongPhase { parent_id: String, phase: String },
    /// The source path has no file name.
    NoFileName,
    /// The initiative's path has no directory.
    NoInitiativeDirectory,
    /// The task's file does not exist.
    SourceMissing(String),
    /// A file already exists at the destination.
    DestinationExists(String),
    /// The task is already where it should go.
    SameLocation,
}

/// Result of a reassignment.
#[derive(Debug)]
pub struct ReassignmentResult {
    pub short_code: String,
    pub old_path: String,
    pub new_path: String,
    pub new_parent: Option<String>,
}

/// What the caller must do on disk to carry out a move that was allowed.
#[derive(Debug)]
pub struct MovePlan {
    /// The destination's directory, when it does not exist yet and must be created.
    pub create_dir: Option<String>,
}

/// Whether a move may go ahead, given what is on disk: the source must exist,
/// the destination must not, and the two must differ.
pub open spec fn move_allowed(source_exists: bool, dest_exists: bool, same: bool) -> bool {
    source_exists && !dest_exists && !same
}

/// The destination of a task file moved under an initiative: the `tasks`
/// directory beside the initiative's document.
pub open spec fn initiative_task_path(workspace: Seq<char>, initiative_dir: Seq<char>, file: Seq<char>) -> Seq<char> {
    path_join(path_join(path_join(workspace, initiative_dir), "tasks"@), file)
}

/// The destination of a task file moved to the backlog.
pub open spec fn backlog_task_path(workspace: Seq<char>, category: BacklogCategory, file: Seq<char>) -> Seq<char> {
    path_join(path_join(path_join(workspace, "backlog"@), category_directory(category)), file)
}

/// Reassigns tasks to parent initiatives or to the backlog.
pub struct ReassignmentService {
    workspace_dir: String,
}

impl ReassignmentService {
    /// The workspace directory the service works in.
    pub closed spec fn workspace(&self) -> Seq<char> {
        self.workspace_dir@
    }

    /// A service for `workspace_dir`, made absolute against `current_dir` (the
    /// process's working directory, or empty when it could not be read).
    pub fn new(workspace_dir: &str, current_dir: &str) -> (res: Self)
        ensures
            res.workspace() == if workspace_dir@.len() > 0 && workspace_dir@[0] == '/' {
                workspace_dir@
            } else {
                path_join(current_dir@, workspace_dir@)
            },
    {
        let cs = chars_of(workspace_dir);
        if cs.len() > 0 && cs[0] == '/' {
            ReassignmentService { workspace_dir: workspace_dir.to_owned() }
        } else {
            ReassignmentService { workspace_dir: join(current_dir, workspace_dir) }
        }
    }

    /// Checks that the document found for `short_code` exists and is a task.
    pub fn check_task(&self, short_code: &str, found: Option<Document>) -> (res: Result<Document, ReassignError>)
        ensures
            match found {
                None => res matches Err(ReassignError::NotFound(s)) && s@ == short_code@,
                Some(d) => if d.document_type@ == "task"@ {
                    res matches Ok(r) && r == d
                } else {
                    res matches Err(ReassignError::NotATask { short_code: s, document_type: t })
                        && s@ == short_code@ && t@ == d.document_type@
                },
            },
    {
        match found {
            None => Err(ReassignError::NotFound(short_code.to_owned())),
            Some(doc) => {
                if !str_is(doc.document_type.as_str(), &chars_of("task")) {
                    return Err(ReassignError::NotATask {
                        short_code: short_code.to_owned(),
                        document_type: doc.document_type.clone(),
                    });
                }
                Ok(doc)
            },
        }
    }

    /// Checks that the document found for `parent_id` exists, is an initiative, and
    /// is in its `decompose` or `active` phase (compared after `str::to_lowercase`).
    pub fn check_parent(&self, parent_id: &str, found: Option<Document>) -> (res: Result<Document, ReassignError>)
        ensures
            match found {
                None => res matches Err(ReassignError::ParentNotFound(s)) && s@ == parent_id@,
                Some(d) => if d.document_type@ != "initiative"@ {
                    res matches Err(ReassignError::ParentNotInitiative { parent_id: p, document_type: t })
                        && p@ == parent_id@ && t@ == d.document_type@
                } else if unicode_lowercase(d.phase@) != "decompose"@
                    && unicode_lowercase(d.phase@) != "active"@ {
                    res matches Err(ReassignError::ParentWrongPhase { parent_id: p, phase: ph })
                        && p@ == parent_id@ && ph@ == d.phase@
                } else {
                    res matches Ok(r) && r == d
                },
            },
    {
        match found {
            None => Err(ReassignError::ParentNotFound(parent_id.to_owned())),
            Some(doc) => {
                if !str_is(doc.document_type.as_str(), &chars_of("initiative")) {
                    return Err(ReassignError::ParentNotInitiative {
                        parent_id: parent_id.to_owned(),
                        document_type: doc.document_type.clone(),
                    });
                }
                let phase = to_lowercase(doc.phase.as_str());
                if !str_is(phase.as_str(), &chars_of("decompose")) && !str_is(phase.as_str(), &chars_of("active")) {
                    return Err(ReassignError::ParentWrongPhase {
                        parent_id: parent_id.to_owned(),
                        phase: doc.phase.clone(),
                    });
                }
                Ok(doc)
            },
        }
    }

    /// Where a task moves when it is placed under the initiative `parent_doc`:
    /// the `tasks` directory beside the initiative's document, keeping the task's
    /// file name.
    pub fn compute_initiative_task_path(&self, parent_doc: &Document, source_doc: &Document)
        -> (res: Result<String, ReassignError>)
        ensures
            match (path_file_name(path_join(self.workspace(), source_doc.filepath@)), path_parent(parent_doc.filepath@)) {
                (Some(f), Some(d)) => res matches Ok(p) && p@ == initiative_task_path(self.workspace(), d, f),
                (None, _) => res matches Err(ReassignError::NoFileName),
                (Some(_), None) => res matches Err(ReassignError::NoInitiativeDirectory),
            },
    {
        let source_path = join(self.workspace_dir.as_str(), source_doc.filepath.as_str());
        let filename = match file_name(source_path.as_str()) {
            Some(f) => f,
            None => return Err(ReassignError::NoFileName),
        };
        let initiative_dir = match parent(parent_doc.filepath.as_str()) {
            Some(d) => d,
            None => return Err(ReassignError::NoInitiativeDirectory),
        };
        let a = join(self.workspace_dir.as_str(), initiative_dir.as_str());
        let b = join(a.as_str(), "tasks");
        Ok(join(b.as_str(), filename.as_str()))
    }

    /// Where a task moves when it is put in the backlog under `category`.
    pub fn compute_backlog_path(&self, source_doc: &Document, category: BacklogCategory)
        -> (res: Result<String, ReassignError>)
        ensures
            match path_file_name(path_join(self.workspace(), source_doc.filepath@)) {
                Some(f) => res matches Ok(p) && p@ == backlog_task_path(self.workspace(), category, f),
                None => res matches Err(ReassignError::NoFileName),
            },
    {
        let source_path = join(self.workspace_dir.as_str(), source_doc.filepath.as_str());
        let filename = match file_name(source_path.as_str()) {
            Some(f) => f,
            None => return Err(ReassignError::NoFileName),
        };
        let a = join(self.workspace_dir.as_str(), "backlog");
        let b = join(a.as_str(), category.directory_name());
        Ok(join(b.as_str(), filename.as_str()))
    }

    /// Decides a move from what is known of the disk: the source must exist, the
    /// destination must not, and they must differ (checked in that order).
    pub fn move_decision(source: &str, dest: &str, source_exists: bool, dest_exists: bool)
        -> (res: Result<(), ReassignError>)
        ensures
            res is Ok <==> move_allowed(source_exists, dest_exists, source@ == dest@),
            !source_exists ==> (res matches Err(ReassignError::SourceMissing(s)) && s@ == source@),
            source_exists && dest_exists ==> (res matches Err(ReassignError::DestinationExists(d)) && d@ == dest@),
            source_exists && !dest_exists && source@ == dest@ ==> (res matches Err(ReassignError::SameLocation)),
    {
        if !source_exists {
            return Err(ReassignError::SourceMissing(source.to_owned()));
        }
        if dest_exists {
            return Err(ReassignError::DestinationExists(dest.to_owned()));
        }
        if strs_eq(source, dest) {
            return Err(ReassignError::SameLocation);
        }
        Ok(())
    }

    /// Checks a move of `source` to `dest` against the disk and says which
    /// directory must be created first. The caller then renames the file.
    pub fn plan_move(&self, source: &str, dest: &str) -> (res: Result<MovePlan, ReassignError>)
        ensures
            match res {
                Ok(plan) => source@ != dest@ && (plan.create_dir matches Some(d) ==> path_parent(dest@) == Some(d@)),
                Err(e) => is_disk_refusal(e, source@, dest@),
            },
    {
        let source_exists = path_exists(source);
        let dest_exists = path_exists(dest);
        match Self::move_decision(source, dest, source_exists, dest_exists) {
            Err(e) => return Err(e),
            Ok(()) => {},
        }
        let create_dir = match parent(dest) {
            Some(dir) => if path_exists(dir.as_str()) { None } else { Some(dir) },
            None => None,
        };
        Ok(MovePlan { create_dir })
    }

    /// Plans putting the task `short_code` under the initiative `new_parent_id`.
    /// `source` and `parent` are the index entries found for the two short codes.
    /// The checks run in order: the task, the parent, the paths, then the disk.
    /// The caller carries out the move described by the plan.
    pub fn plan_reassign_to_initiative(
        &self,
        short_code: &str,
        new_parent_id: &str,
        source: Option<Document>,
        parent: Option<Document>,
    ) -> (res: Result<(ReassignmentResult, MovePlan), ReassignError>)
        ensures
            match source {
                None => res matches Err(ReassignError::NotFound(s)) && s@ == short_code@,
                Some(sd) => if sd.document_type@ != "task"@ {
                    res matches Err(ReassignError::NotATask { short_code: s, document_type: t })
                        && s@ == short_code@ && t@ == sd.document_type@
                } else {
                    match parent {
                        None => res matches Err(ReassignError::ParentNotFound(p)) && p@ == new_parent_id@,
                        Some(pd) => if pd.document_type@ != "initiative"@ {
                            res matches Err(ReassignError::ParentNotInitiative { parent_id: p, document_type: t })
                                && p@ == new_parent_id@ && t@ == pd.document_type@
                        } else if unicode_lowercase(pd.phase@) != "decompose"@
                            && unicode_lowercase(pd.phase@) != "active"@ {
                            res matches Err(ReassignError::ParentWrongPhase { parent_id: p, phase: ph })
                                && p@ == new_parent_id@ && ph@ == pd.phase@
                        } else {
                            match (path_file_name(path_join(self.workspace(), sd.filepath@)), path_parent(pd.filepath@)) {
                                (None, _) => res matches Err(ReassignError::NoFileName),
                                (Some(_), None) => res matches Err(ReassignError::NoInitiativeDirectory),
                                (Some(f), Some(d)) => planned(
                                    res,
                                    short_code@,
                                    path_join(self.workspace(), sd.filepath@),
                                    initiative_task_path(self.workspace(), d, f),
                                    Some(new_parent_id@),
                                ),
                            }
                        },
                    }
                },
            },
    {
        let source_doc = match self.check_task(short_code, source) {
            Ok(d) => d,
            Err(e) => return Err(e),
        };
        let parent_doc = match self.check_parent(new_parent_id, parent) {
            Ok(d) => d,
            Err(e) => return Err(e),
        };
        let source_path = join(self.workspace_dir.as_str(), source_doc.filepath.as_str());
        let dest_path = match self.compute_initiative_task_path(&parent_doc, &source_doc) {
            Ok(p) => p,
            Err(e) => return Err(e),
        };
        let plan = match self.plan_move(source_path.as_str(), dest_path.as_str()) {
            Ok(p) => p,
            Err(e) => return Err(e),
        };
        Ok((ReassignmentResult {
            short_code: short_code.to_owned(),
            old_path: source_path,
            new_path: dest_path,
            new_parent: Some(new_parent_id.to_owned()),
        }, plan))
    }

    /// Plans moving the task `short_code` to the backlog under `category`.
    /// The checks run in order: the task, the paths, then the disk.
    pub fn plan_reassign_to_backlog(
        &self,
        short_code: &str,
        category: BacklogCategory,
        source: Option<Document>,
    ) -> (res: Result<(ReassignmentResult, MovePlan), ReassignError>)
        ensures
            match source {
                None => res matches Err(ReassignError::NotFound(s)) && s@ == short_code@,
                Some(sd) => if sd.document_type@ != "task"@ {
                    res matches Err(ReassignError::NotATask { short_code: s, document_type: t })
                        && s@ == short_code@ && t@ == sd.document_type@
                } else {
                    match path_file_name(path_join(self.workspace(), sd.filepath@)) {
                        None => res matches Err(ReassignError::NoFileName),
                        Some(f) => planned(
                            res,
                            short_code@,
                            path_join(self.workspace(), sd.filepath@),
                            backlog_task_path(self.workspace(), category, f),
                            None,
                        ),
                    }
                },
            },
    {
        let source_doc = match self.check_task(short_code, source) {
            Ok(d) => d,
            Err(e) => return Err(e),
        };
        let source_path = join(self.workspace_dir.as_str(), source_doc.filepath.as_str());
        let dest_path = match self.compute_backlog_path(&source_doc, category) {
            Ok(p) => p,
            Err(e) => return Err(e),
        };
        let plan = match self.plan_move(source_path.as_str(), dest_path.as_str()) {
            Ok(p) => p,
            Err(e) => return Err(e),
        };
        Ok((ReassignmentResult {
            short_code: short_code.to_owned(),
            old_path: source_path,
            new_path: dest_path,
            new_parent: None,
        }, plan))
    }
}

/// `e` is a refusal that only the disk can cause for a move of `source` to
/// `dest`: the source is missing, the destination exists, or the two are one.
pub open spec fn is_disk_refusal(e: ReassignError, source: Seq<char>, dest: Seq<char>) -> bool {
    match e {
        ReassignError::SourceMissing(s) => s@ == source,
        ReassignError::DestinationExists(d) => d@ == dest,
        ReassignError::SameLocation => source == dest,
        _ => false,
    }
}

/// A reassignment that passed every check but the disk's: it moves `old_path`
/// to `new_path` and records `new_parent`, or the disk refused it.
pub open spec fn planned(
    res: Result<(ReassignmentResult, MovePlan), ReassignError>,
    short_code: Seq<char>,
    old_path: Seq<char>,
    new_path: Seq<char>,
    new_parent: Option<Seq<char>>,
) -> bool {
    match res {
        Ok((r, plan)) => r.short_code@ == short_code && r.old_path@ == old_path && r.new_path@ == new_path
            && opt_view(r.new_parent) == new_parent && old_path != new_path
            && (plan.create_dir matches Some(d) ==> path_parent(new_path) == Some(d@)),
        Err(e) => is_disk_refusal(e, old_path, new_path),
    }
}

} // verus!
