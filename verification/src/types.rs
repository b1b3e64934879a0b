//! Document types, workflow phases and the flight-level configuration.

use vstd::prelude::*;
use crate::text::{chars_of, chars_eq, to_lowercase, unicode_lowercase};

verus! {

/// The kinds of document a workspace holds.
#[derive(Clone, Copy, Debug, PartialEq, Eq, Structural)]
pub enum DocumentType {
    Vision,
    Strategy,
    Initiative,
    Task,
    Adr,
}

/// Workflow phases across all document types.
#[derive(Clone, Copy, Debug, PartialEq, Eq, Structural)]
pub enum Phase {
    Draft,
    Review,
    Published,
    Discussion,
    Decided,
    Superseded,
    Backlog,
    Todo,
    Active,
    Blocked,
    Completed,
    Shaping,
    Design,
    Ready,
    Decompose,
    Discovery,
}

/// The lowercase name of a phase, as it appears in documents and on the command line.
pub open spec fn phase_name(p: Phase) -> Seq<char> {
    match p {
        Phase::Draft => "draft"@,
        Phase::Review => "review"@,
        Phase::Published => "published"@,
        Phase::Discussion => "discussion"@,
        Phase::Decided => "decided"@,
        Phase::Superseded => "superseded"@,
        Phase::Backlog => "backlog"@,
        Phase::Todo => "todo"@,
        Phase::Active => "active"@,
        Phase::Blocked => "blocked"@,
        Phase::Completed => "completed"@,
        Phase::Shaping => "shaping"@,
        Phase::Design => "design"@,
        Phase::Ready => "ready"@,
        Phase::Decompose => "decompose"@,
        Phase::Discovery => "discovery"@,
    }
}

/// The phase whose name is exactly `name`, if any.
pub open spec fn phase_named(name: Seq<char>) -> Option<Phase> {
    if exists|p: Phase| phase_name(p) == name {
        Some(choose|p: Phase| phase_name(p) == name)
    } else {
        None
    }
}

/// The lowercase name of a document type.
pub open spec fn document_type_name(t: DocumentType) -> Seq<char> {
    match t {
        DocumentType::Vision => "vision"@,
        DocumentType::Strategy => "strategy"@,
        DocumentType::Initiative => "initiative"@,
        DocumentType::Task => "task"@,
        DocumentType::Adr => "adr"@,
    }
}

impl Phase {
    /// The phase's lowercase name.
    pub fn as_str(&self) -> (res: &'static str)
        ensures
            res@ == phase_name(*self),
    {
        match self {
            Phase::Draft => "draft",
            Phase::Review => "review",
            Phase::Published => "published",
            Phase::Discussion => "discussion",
            Phase::Decided => "decided",
            Phase::Superseded => "superseded",
            Phase::Backlog => "backlog",
            Phase::Todo => "todo",
            Phase::Active => "active",
            Phase::Blocked => "blocked",
            Phase::Completed => "completed",
            Phase::Shaping => "shaping",
            Phase::Design => "design",
            Phase::Ready => "ready",
            Phase::Decompose => "decompose",
            Phase::Discovery => "discovery",
        }
    }
}

impl DocumentType {
    /// The document type's lowercase name.
    pub fn as_str(&self) -> (res: &'static str)
        ensures
            res@ == document_type_name(*self),
    {
        match self {
            DocumentType::Vision => "vision",
            DocumentType::Strategy => "strategy",
            DocumentType::Initiative => "initiative",
            DocumentType::Task => "task",
            DocumentType::Adr => "adr",
        }
    }
}

/// Phase names are pairwise distinct.
pub proof fn lemma_phase_name_injective(p: Phase, q: Phase)
    requires
        phase_name(p) == phase_name(q),
    ensures
        p == q,
{
    reveal_strlit("draft");
    reveal_strlit("review");
    reveal_strlit("published");
    reveal_strlit("discussion");
    reveal_strlit("decided");
    reveal_strlit("superseded");
    reveal_strlit("backlog");
    reveal_strlit("todo");
    reveal_strlit("active");
    reveal_strlit("blocked");
    reveal_strlit("completed");
    reveal_strlit("shaping");
    reveal_strlit("design");
    reveal_strlit("ready");
    reveal_strlit("decompose");
    reveal_strlit("discovery");
    if p != q {
        let a = phase_name(p);
        let b = phase_name(q);
        if a.len() == b.len() {
            assert(a[0] != b[0] || a[1] != b[1] || a[2] != b[2] || a[a.len() - 1] != b[b.len() - 1]);
        }
        assert(a != b);
    }
}

/// The position of a phase in declaration order.
pub open spec fn phase_index(p: Phase) -> int {
    match p {
        Phase::Draft => 0,
        Phase::Review => 1,
        Phase::Published => 2,
        Phase::Discussion => 3,
        Phase::Decided => 4,
        Phase::Superseded => 5,
        Phase::Backlog => 6,
        Phase::Todo => 7,
        Phase::Active => 8,
        Phase::Blocked => 9,
        Phase::Completed => 10,
        Phase::Shaping => 11,
        Phase::Design => 12,
        Phase::Ready => 13,
        Phase::Decompose => 14,
        Phase::Discovery => 15,
    }
}

/// Looks up the phase named exactly `name`.
pub fn phase_from_name(name: &Vec<char>) -> (res: Option<Phase>)
    ensures
        res == phase_named(name@),
{
    let all = [
        Phase::Draft, Phase::Review, Phase::Published, Phase::Discussion, Phase::Decided,
        Phase::Superseded, Phase::Backlog, Phase::Todo, Phase::Active, Phase::Blocked,
        Phase::Completed, Phase::Shaping, Phase::Design, Phase::Ready, Phase::Decompose,
        Phase::Discovery,
    ];
    let mut i: usize = 0;
    while i < 16
        invariant
            0 <= i <= 16,
            all@.len() == 16,
            forall|j: int| 0 <= j < i ==> phase_name(#[trigger] all@[j]) != name@,
            forall|p: Phase| all@[#[trigger] phase_index(p)] == p,
        decreases 16 - i,
    {
        let p = all[i];
        let pn = chars_of(p.as_str());
        if chars_eq(&pn, name) {
            proof {
                assert(phase_name(p) == name@);
                let q = choose|q: Phase| phase_name(q) == name@;
                lemma_phase_name_injective(p, q);
            }
            return Some(p);
        }
        i = i + 1;
    }
    proof {
        assert forall|p: Phase| phase_name(p) != name@ by {
            assert(all@[phase_index(p)] == p);
        }
    }
    None
}

/// Parses a phase name given on the command line: the name is lowercased with
/// `str::to_lowercase` and must then be one of the sixteen phase names.
/// Unknown names are refused with `None`.
pub fn parse_phase(phase_str: &str) -> (res: Option<Phase>)
    ensures
        res == phase_named(unicode_lowercase(phase_str@)),
{
    let lower = to_lowercase(phase_str);
    let cs = chars_of(lower.as_str());
    phase_from_name(&cs)
}

/// Reading a phase's own name gives the phase back.
pub proof fn law_phase_name_round_trip(p: Phase)
    ensures
        phase_named(phase_name(p)) == Some(p),
{
    assert(exists|q: Phase| phase_name(q) == phase_name(p));
    let q = choose|q: Phase| phase_name(q) == phase_name(p);
    lemma_phase_name_injective(p, q);
}

} // verus!
