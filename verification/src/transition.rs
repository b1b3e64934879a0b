//! Phase transition rules for every document type.

use vstd::prelude::*;
use crate::types::{DocumentType, Phase};

verus! {

/// Where a refused transition was headed.
#[derive(Clone, Copy, Debug, PartialEq, Eq, Structural)]
pub enum TransitionTarget {
    /// A phase that is not reachable from the current one.
    To(Phase),
    /// The current phase is the last of its sequence: there is no next phase.
    NoNext,
    /// The current phase does not belong to the document type at all.
    Unknown,
}

/// Why a transition was refused.
#[derive(Clone, Copy, Debug, PartialEq, Eq, Structural)]
pub struct InvalidPhaseTransition {
    pub from: Phase,
    pub to: TransitionTarget,
    pub doc_type: DocumentType,
}

/// The phases a document of type `t` may move to from `from`, in the order the
/// service lists them.
pub open spec fn valid_transitions(t: DocumentType, from: Phase) -> Seq<Phase> {
    match t {
        DocumentType::Vision => match from {
            Phase::Draft => seq![Phase::Review],
            Phase::Review => seq![Phase::Draft, Phase::Published],
            Phase::Published => seq![Phase::Review],
            _ => seq![],
        },
        DocumentType::Strategy => match from {
            Phase::Shaping => seq![Phase::Design],
            Phase::Design => seq![Phase::Shaping, Phase::Ready],
            Phase::Ready => seq![Phase::Design, Phase::Active],
            Phase::Active => seq![Phase::Ready, Phase::Completed],
            _ => seq![],
        },
        DocumentType::Initiative => match from {
            Phase::Discovery => seq![Phase::Design],
            Phase::Design => seq![Phase::Discovery, Phase::Ready],
            Phase::Ready => seq![Phase::Design, Phase::Decompose],
            Phase::Decompose => seq![Phase::Ready, Phase::Active],
            Phase::Active => seq![Phase::Decompose, Phase::Completed],
            _ => seq![],
        },
        DocumentType::Task => match from {
            Phase::Backlog => seq![Phase::Todo],
            Phase::Todo => seq![Phase::Active, Phase::Blocked],
            Phase::Active => seq![Phase::Todo, Phase::Completed, Phase::Blocked],
            Phase::Blocked => seq![Phase::Todo, Phase::Active],
            _ => seq![],
        },
        DocumentType::Adr => match from {
            Phase::Draft => seq![Phase::Discussion],
            Phase::Discussion => seq![Phase::Draft, Phase::Decided],
            Phase::Decided => seq![Phase::Superseded],
            _ => seq![],
        },
    }
}

/// The natural forward sequence of phases for each document type.
pub open spec fn phase_sequence(t: DocumentType) -> Seq<Phase> {
    match t {
        DocumentType::Vision => seq![Phase::Draft, Phase::Review, Phase::Published],
        DocumentType::Strategy => seq![
            Phase::Shaping,
            Phase::Design,
            Phase::Ready,
            Phase::Active,
            Phase::Completed,
        ],
        DocumentType::Initiative => seq![
            Phase::Discovery,
            Phase::Design,
            Phase::Ready,
            Phase::Decompose,
            Phase::Active,
            Phase::Completed,
        ],
        DocumentType::Task => seq![Phase::Backlog, Phase::Todo, Phase::Active, Phase::Completed],
        DocumentType::Adr => seq![Phase::Draft, Phase::Discussion, Phase::Decided, Phase::Superseded],
    }
}

/// The phases a document type uses: its sequence, plus `Blocked` for tasks.
pub open spec fn phase_belongs(t: DocumentType, p: Phase) -> bool {
    phase_sequence(t).contains(p) || (t == DocumentType::Task && p == Phase::Blocked)
}

/// The phase that follows `current` in the natural sequence for `t`, or why there is none.
pub open spec fn next_phase(t: DocumentType, current: Phase) -> Result<Phase, InvalidPhaseTransition> {
    let refuse = |target: TransitionTarget|
        Err(InvalidPhaseTransition { from: current, to: target, doc_type: t });
    match t {
        DocumentType::Vision => match current {
            Phase::Draft => Ok(Phase::Review),
            Phase::Review => Ok(Phase::Published),
            Phase::Published => refuse(TransitionTarget::NoNext),
            _ => refuse(TransitionTarget::Unknown),
        },
        DocumentType::Strategy => match current {
            Phase::Shaping => Ok(Phase::Design),
            Phase::Design => Ok(Phase::Ready),
            Phase::Ready => Ok(Phase::Active),
            Phase::Active => Ok(Phase::Completed),
            Phase::Completed => refuse(TransitionTarget::NoNext),
            _ => refuse(TransitionTarget::Unknown),
        },
        DocumentType::Initiative => match current {
            Phase::Discovery => Ok(Phase::Design),
            Phase::Design => Ok(Phase::Ready),
            Phase::Ready => Ok(Phase::Decompose),
            Phase::Decompose => Ok(Phase::Active),
            Phase::Active => Ok(Phase::Completed),
            Phase::Completed => refuse(TransitionTarget::NoNext),
            _ => refuse(TransitionTarget::Unknown),
        },
        DocumentType::Task => match current {
            Phase::Backlog => Ok(Phase::Todo),
            Phase::Todo => Ok(Phase::Active),
            Phase::Active => Ok(Phase::Completed),
            Phase::Blocked => Ok(Phase::Active),
            Phase::Completed => refuse(TransitionTarget::NoNext),
            _ => refuse(TransitionTarget::Unknown),
        },
        DocumentType::Adr => match current {
            Phase::Draft => Ok(Phase::Discussion),
            Phase::Discussion => Ok(Phase::Decided),
            Phase::Decided => Ok(Phase::Superseded),
            Phase::Superseded => refuse(TransitionTarget::NoNext),
            _ => refuse(TransitionTarget::Unknown),
        },
    }
}

/// Moving from `from` to `to` is allowed for `t`.
pub open spec fn transition_allowed(t: DocumentType, from: Phase, to: Phase) -> bool {
    valid_transitions(t, from).contains(to)
}

/// Whether `p` occurs in `v`.
fn contains_phase(v: &Vec<Phase>, p: Phase) -> (res: bool)
    ensures
        res == v@.contains(p),
{
    let mut i: usize = 0;
    while i < v.len()
        invariant
            i <= v@.len(),
            forall|j: int| 0 <= j < i ==> v@[j] != p,
        decreases v@.len() - i,
    {
        if v[i] == p {
            return true;
        }
        i = i + 1;
    }
    false
}

/// The outcome of a phase transition.
#[derive(Debug)]
pub struct TransitionResult {
    pub document_id: String,
    pub document_type: DocumentType,
    pub from_phase: Phase,
    pub to_phase: Phase,
    pub file_path: String,
}

/// Applies the phase rules of a workspace's documents.
pub struct PhaseTransitionService {
    workspace_dir: String,
}

impl PhaseTransitionService {
    /// The workspace (`.metis` directory) this service works in.
    pub closed spec fn workspace(&self) -> Seq<char> {
        self.workspace_dir@
    }

    /// A service for the workspace at `workspace_dir`.
    pub fn new(workspace_dir: &str) -> (res: Self)
        ensures
            res.workspace() == workspace_dir@,
    {
        PhaseTransitionService { workspace_dir: workspace_dir.to_owned() }
    }

    /// The phases a document of type `doc_type` may move to from `from_phase`.
    fn get_valid_transitions(&self, doc_type: DocumentType, from_phase: Phase) -> (res: Vec<Phase>)
        ensures
            res@ == valid_transitions(doc_type, from_phase),
    {
        let res = match doc_type {
            DocumentType::Vision => match from_phase {
                Phase::Draft => vec![Phase::Review],
                Phase::Review => vec![Phase::Draft, Phase::Published],
                Phase::Published => vec![Phase::Review],
                _ => vec![],
            },
            DocumentType::Strategy => match from_phase {
                Phase::Shaping => vec![Phase::Design],
                Phase::Design => vec![Phase::Shaping, Phase::Ready],
                Phase::Ready => vec![Phase::Design, Phase::Active],
                Phase::Active => vec![Phase::Ready, Phase::Completed],
                _ => vec![],
            },
            DocumentType::Initiative => match from_phase {
                Phase::Discovery => vec![Phase::Design],
                Phase::Design => vec![Phase::Discovery, Phase::Ready],
                Phase::Ready => vec![Phase::Design, Phase::Decompose],
                Phase::Decompose => vec![Phase::Ready, Phase::Active],
                Phase::Active => vec![Phase::Decompose, Phase::Completed],
                _ => vec![],
            },
            DocumentType::Task => match from_phase {
                Phase::Backlog => vec![Phase::Todo],
                Phase::Todo => vec![Phase::Active, Phase::Blocked],
                Phase::Active => vec![Phase::Todo, Phase::Completed, Phase::Blocked],
                Phase::Blocked => vec![Phase::Todo, Phase::Active],
                _ => vec![],
            },
            DocumentType::Adr => match from_phase {
                Phase::Draft => vec![Phase::Discussion],
                Phase::Discussion => vec![Phase::Draft, Phase::Decided],
                Phase::Decided => vec![Phase::Superseded],
                _ => vec![],
            },
        };
        assert(res@ =~= valid_transitions(doc_type, from_phase));
        res
    }

    /// Checks that moving from `from_phase` to `to_phase` is allowed for `doc_type`;
    /// refuses it otherwise, naming both phases and the type.
    fn validate_transition(&self, doc_type: DocumentType, from_phase: Phase, to_phase: Phase)
        -> (res: Result<(), InvalidPhaseTransition>)
        ensures
            res is Ok <==> transition_allowed(doc_type, from_phase, to_phase),
            res matches Err(e) ==> e == (InvalidPhaseTransition {
                from: from_phase,
                to: TransitionTarget::To(to_phase),
                doc_type,
            }),
    {
        let valid = self.get_valid_transitions(doc_type, from_phase);
        if !contains_phase(&valid, to_phase) {
            return Err(InvalidPhaseTransition {
                from: from_phase,
                to: TransitionTarget::To(to_phase),
                doc_type,
            });
        }
        Ok(())
    }

    /// The phase after `current_phase` in the natural sequence for `doc_type`.
    fn get_next_phase(&self, doc_type: DocumentType, current_phase: Phase)
        -> (res: Result<Phase, InvalidPhaseTransition>)
        ensures
            res == next_phase(doc_type, current_phase),
    {
        let refuse = |target: TransitionTarget| -> (r: Result<Phase, InvalidPhaseTransition>)
            ensures
                r == Err::<Phase, InvalidPhaseTransition>(
                    InvalidPhaseTransition { from: current_phase, to: target, doc_type },
                ),
        {
            Err(InvalidPhaseTransition { from: current_phase, to: target, doc_type })
        };
        match doc_type {
            DocumentType::Vision => match current_phase {
                Phase::Draft => Ok(Phase::Review),
                Phase::Review => Ok(Phase::Published),
                Phase::Published => refuse(TransitionTarget::NoNext),
                _ => refuse(TransitionTarget::Unknown),
            },
            DocumentType::Strategy => match current_phase {
                Phase::Shaping => Ok(Phase::Design),
                Phase::Design => Ok(Phase::Ready),
                Phase::Ready => Ok(Phase::Active),
                Phase::Active => Ok(Phase::Completed),
                Phase::Completed => refuse(TransitionTarget::NoNext),
                _ => refuse(TransitionTarget::Unknown),
            },
            DocumentType::Initiative => match current_phase {
                Phase::Discovery => Ok(Phase::Design),
                Phase::Design => Ok(Phase::Ready),
                Phase::Ready => Ok(Phase::Decompose),
                Phase::Decompose => Ok(Phase::Active),
                Phase::Active => Ok(Phase::Completed),
                Phase::Completed => refuse(TransitionTarget::NoNext),
                _ => refuse(TransitionTarget::Unknown),
            },
            DocumentType::Task => match current_phase {
                Phase::Backlog => Ok(Phase::Todo),
                Phase::Todo => Ok(Phase::Active),
                Phase::Active => Ok(Phase::Completed),
                Phase::Blocked => Ok(Phase::Active),
                Phase::Completed => refuse(TransitionTarget::NoNext),
                _ => refuse(TransitionTarget::Unknown),
            },
            DocumentType::Adr => match current_phase {
                Phase::Draft => Ok(Phase::Discussion),
                Phase::Discussion => Ok(Phase::Decided),
                Phase::Decided => Ok(Phase::Superseded),
                Phase::Superseded => refuse(TransitionTarget::NoNext),
                _ => refuse(TransitionTarget::Unknown),
            },
        }
    }

    /// Whether moving from `from_phase` to `to_phase` is allowed for `doc_type`.
    pub fn is_valid_transition(&self, doc_type: DocumentType, from_phase: Phase, to_phase: Phase) -> (res: bool)
        ensures
            res == transition_allowed(doc_type, from_phase, to_phase),
    {
        self.validate_transition(doc_type, from_phase, to_phase).is_ok()
    }

    /// All phases a document of type `doc_type` may move to from `from_phase`.
    pub fn get_valid_transitions_for(&self, doc_type: DocumentType, from_phase: Phase) -> (res: Vec<Phase>)
        ensures
            res@ == valid_transitions(doc_type, from_phase),
    {
        self.get_valid_transitions(doc_type, from_phase)
    }

    /// Decides a transition of the document `document_id` (of type `doc_type`,
    /// stored at `file_path`) from `current_phase` to `target_phase`. The caller
    /// has read the current phase from the file and writes the new one back when
    /// this succeeds.
    pub fn plan_transition(
        &self,
        document_id: &str,
        doc_type: DocumentType,
        file_path: &str,
        current_phase: Phase,
        target_phase: Phase,
    ) -> (res: Result<TransitionResult, InvalidPhaseTransition>)
        ensures
            res is Ok <==> transition_allowed(doc_type, current_phase, target_phase),
            res matches Ok(r) ==> r.document_id@ == document_id@ && r.document_type == doc_type
                && r.from_phase == current_phase && r.to_phase == target_phase
                && r.file_path@ == file_path@,
            res matches Err(e) ==> e == (InvalidPhaseTransition {
                from: current_phase,
                to: TransitionTarget::To(target_phase),
                doc_type,
            }),
    {
        match self.validate_transition(doc_type, current_phase, target_phase) {
            Ok(()) => Ok(TransitionResult {
                document_id: document_id.to_owned(),
                document_type: doc_type,
                from_phase: current_phase,
                to_phase: target_phase,
                file_path: file_path.to_owned(),
            }),
            Err(e) => Err(e),
        }
    }

    /// Decides the move of the document `document_id` from `current_phase` to the
    /// next phase of its natural sequence.
    pub fn plan_next_transition(
        &self,
        document_id: &str,
        doc_type: DocumentType,
        file_path: &str,
        current_phase: Phase,
    ) -> (res: Result<TransitionResult, InvalidPhaseTransition>)
        ensures
            match next_phase(doc_type, current_phase) {
                Ok(q) => res matches Ok(r) && r.document_id@ == document_id@
                    && r.document_type == doc_type && r.from_phase == current_phase
                    && r.to_phase == q && r.file_path@ == file_path@,
                Err(e) => res matches Err(e2) && e2 == e,
            },
    {
        match self.get_next_phase(doc_type, current_phase) {
            Ok(next) => Ok(TransitionResult {
                document_id: document_id.to_owned(),
                document_type: doc_type,
                from_phase: current_phase,
                to_phase: next,
                file_path: file_path.to_owned(),
            }),
            Err(e) => Err(e),
        }
    }
}

} // verus!

verus! {

/// Moving to the next phase of the natural sequence is always an allowed transition.
pub proof fn law_next_phase_is_allowed(t: DocumentType, p: Phase)
    requires
        next_phase(t, p) is Ok,
    ensures
        transition_allowed(t, p, next_phase(t, p)->Ok_0),
{
    let q = next_phase(t, p)->Ok_0;
    let v = valid_transitions(t, p);
    assert(v.contains(q)) by {
        if v.len() > 0 && v[0] == q {
        } else if v.len() > 1 && v[1] == q {
        } else {
            assert(v.len() > 2 && v[2] == q);
        }
    }
}

/// Following the next phase from the first phase of a type's sequence visits the
/// whole sequence in order, and the last phase has no next phase.
pub proof fn law_next_phase_walks_sequence(t: DocumentType, i: int)
    requires
        0 <= i < phase_sequence(t).len(),
    ensures
        i + 1 < phase_sequence(t).len() ==> next_phase(t, phase_sequence(t)[i])
            == Ok::<Phase, InvalidPhaseTransition>(phase_sequence(t)[i + 1]),
        i + 1 == phase_sequence(t).len() ==> next_phase(t, phase_sequence(t)[i])
            == Err::<Phase, InvalidPhaseTransition>(InvalidPhaseTransition {
                from: phase_sequence(t)[i],
                to: TransitionTarget::NoNext,
                doc_type: t,
            }),
{
}

/// `p` and `q` stand next to each other in `s`, in either order.
pub open spec fn neighbours_in(s: Seq<Phase>, p: Phase, q: Phase) -> bool {
    exists|i: int|
        #![trigger s[i]]
        0 <= i && i + 1 < s.len() && ((s[i] == p && s[i + 1] == q) || (s[i] == q && s[i + 1] == p))
}

/// No phase can be skipped: an allowed transition between two phases of a type's
/// sequence always joins neighbours in that sequence.
pub proof fn law_no_skipping(t: DocumentType, p: Phase, q: Phase)
    requires
        transition_allowed(t, p, q),
        phase_sequence(t).contains(p),
        phase_sequence(t).contains(q),
    ensures
        neighbours_in(phase_sequence(t), p, q),
{
    let s = phase_sequence(t);
    let v = valid_transitions(t, p);
    let k = choose|k: int| 0 <= k < v.len() && v[k] == q;
    let a = choose|a: int| 0 <= a < s.len() && s[a] == p;
    assert(s[a] == p);
    assert(v[k] == q);
    assert(neighbours_in(s, p, q)) by {
        if a + 1 < s.len() && s[a + 1] == q {
            assert(0 <= a && a + 1 < s.len() && s[a] == p && s[a + 1] == q);
        } else {
            assert(0 <= a - 1 && a < s.len() && s[a - 1] == q && s[a] == p);
        }
    }
}

/// The final phase of strategies, initiatives and tasks (`Completed`) and of ADRs
/// (`Superseded`) allows no further transition.
pub proof fn law_final_phases_allow_nothing(t: DocumentType)
    ensures
        t != DocumentType::Vision ==> valid_transitions(t, phase_sequence(t).last()).len() == 0,
{
}

/// A phase that a document type does not use allows no transition and has no next phase.
pub proof fn law_foreign_phase_is_inert(t: DocumentType, p: Phase)
    requires
        !phase_belongs(t, p),
    ensures
        valid_transitions(t, p).len() == 0,
        next_phase(t, p) == Err::<Phase, InvalidPhaseTransition>(InvalidPhaseTransition {
            from: p,
            to: TransitionTarget::Unknown,
            doc_type: t,
        }),
{
    let s = phase_sequence(t);
    assert(forall|i: int| 0 <= i < s.len() ==> s[i] != p);
    match t {
        DocumentType::Vision => { assert(s[0] != p && s[1] != p && s[2] != p); },
        DocumentType::Strategy => { assert(s[0] != p && s[1] != p && s[2] != p && s[3] != p && s[4] != p); },
        DocumentType::Initiative => {
            assert(s[0] != p && s[1] != p && s[2] != p && s[3] != p && s[4] != p && s[5] != p);
        },
        DocumentType::Task => { assert(s[0] != p && s[1] != p && s[2] != p && s[3] != p); },
        DocumentType::Adr => { assert(s[0] != p && s[1] != p && s[2] != p && s[3] != p); },
    }
}


/// A task can be blocked from each phase in which it is being worked on (to do
/// and active), and blocking can be undone: a task phase can reach `Blocked`
/// exactly when `Blocked` can reach it back.
pub proof fn law_task_blocking(p: Phase)
    ensures
        (p == Phase::Todo || p == Phase::Active) ==> transition_allowed(DocumentType::Task, p, Phase::Blocked),
        transition_allowed(DocumentType::Task, p, Phase::Blocked) <==> transition_allowed(DocumentType::Task, Phase::Blocked, p),
{
    let to = valid_transitions(DocumentType::Task, p);
    let back = valid_transitions(DocumentType::Task, Phase::Blocked);
    assert(back =~= seq![Phase::Todo, Phase::Active]);
    if p == Phase::Todo {
        assert(to[1] == Phase::Blocked);
        assert(back[0] == p);
    } else if p == Phase::Active {
        assert(to[2] == Phase::Blocked);
        assert(back[1] == p);
    } else {
        assert(!back.contains(p)) by {
            assert(back[0] != p && back[1] != p);
        }
        assert(!to.contains(Phase::Blocked)) by {
            if to.len() > 0 {
                assert(forall|k: int| 0 <= k < to.len() ==> to[k] != Phase::Blocked);
            }
        }
    }
}

} // verus!
