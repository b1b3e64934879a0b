use metis_core::transition::{InvalidPhaseTransition, PhaseTransitionService, TransitionTarget};
use metis_core::types::{parse_phase, DocumentType, Phase};

#[test]
fn valid_transitions_listed() {
    let s = PhaseTransitionService::new("/ws/.metis");
    assert_eq!(s.get_valid_transitions_for(DocumentType::Vision, Phase::Draft), vec![Phase::Review]);
    assert_eq!(s.get_valid_transitions_for(DocumentType::Vision, Phase::Review), vec![Phase::Draft, Phase::Published]);
    assert_eq!(s.get_valid_transitions_for(DocumentType::Strategy, Phase::Shaping), vec![Phase::Design]);
    assert_eq!(s.get_valid_transitions_for(DocumentType::Task, Phase::Backlog), vec![Phase::Todo]);
    assert_eq!(s.get_valid_transitions_for(DocumentType::Adr, Phase::Decided), vec![Phase::Superseded]);
    assert_eq!(s.get_valid_transitions_for(DocumentType::Adr, Phase::Superseded), vec![]);
}

#[test]
fn transitions_checked() {
    let s = PhaseTransitionService::new("/ws/.metis");
    assert!(s.is_valid_transition(DocumentType::Vision, Phase::Draft, Phase::Review));
    assert!(s.is_valid_transition(DocumentType::Task, Phase::Todo, Phase::Blocked));
    assert!(!s.is_valid_transition(DocumentType::Vision, Phase::Draft, Phase::Published));
    assert!(!s.is_valid_transition(DocumentType::Task, Phase::Todo, Phase::Completed));
}

#[test]
fn next_phase_walks_forward() {
    let s = PhaseTransitionService::new("/ws/.metis");
    let mut phase = Phase::Shaping;
    let mut seen = vec![phase];
    while let Ok(r) = s.plan_next_transition("S-1", DocumentType::Strategy, "/ws/s.md", phase) {
        assert_eq!(r.from_phase, phase);
        phase = r.to_phase;
        seen.push(phase);
    }
    assert_eq!(seen, vec![Phase::Shaping, Phase::Design, Phase::Ready, Phase::Active, Phase::Completed]);
    let err = s.plan_next_transition("S-1", DocumentType::Strategy, "/ws/s.md", Phase::Completed).unwrap_err();
    assert_eq!(err, InvalidPhaseTransition { from: Phase::Completed, to: TransitionTarget::NoNext, doc_type: DocumentType::Strategy });
}

#[test]
fn refused_transition_names_the_target() {
    let s = PhaseTransitionService::new("/ws/.metis");
    let err = s.plan_transition("T-1", DocumentType::Task, "/t.md", Phase::Todo, Phase::Completed).unwrap_err();
    assert_eq!(err.to, TransitionTarget::To(Phase::Completed));
    let ok = s.plan_transition("T-1", DocumentType::Task, "/t.md", Phase::Todo, Phase::Active).unwrap();
    assert_eq!((ok.from_phase, ok.to_phase, ok.document_id.as_str()), (Phase::Todo, Phase::Active, "T-1"));
}

#[test]
fn phase_names_round_trip() {
    for p in [Phase::Draft, Phase::Review, Phase::Published, Phase::Discussion, Phase::Decided, Phase::Superseded,
        Phase::Backlog, Phase::Todo, Phase::Active, Phase::Blocked, Phase::Completed, Phase::Shaping, Phase::Design,
        Phase::Ready, Phase::Decompose, Phase::Discovery] {
        assert_eq!(parse_phase(p.as_str()), Some(p));
    }
    assert_eq!(DocumentType::Adr.as_str(), "adr");
}

#[test]
fn adr_full_transition_sequence() {
    let s = PhaseTransitionService::new("/ws/.metis");
    let r = s.plan_next_transition("A-1", DocumentType::Adr, "/a.md", Phase::Draft).unwrap();
    assert_eq!(r.to_phase, Phase::Discussion);
    let r = s.plan_next_transition("A-1", DocumentType::Adr, "/a.md", Phase::Discussion).unwrap();
    assert_eq!(r.to_phase, Phase::Decided);
    let r = s.plan_transition("A-1", DocumentType::Adr, "/a.md", Phase::Decided, Phase::Superseded).unwrap();
    assert_eq!((r.from_phase, r.to_phase), (Phase::Decided, Phase::Superseded));
    let err = s.plan_next_transition("A-1", DocumentType::Adr, "/a.md", Phase::Superseded).unwrap_err();
    assert_eq!(err, InvalidPhaseTransition { from: Phase::Superseded, to: TransitionTarget::NoNext, doc_type: DocumentType::Adr });
}

#[test]
fn next_phase_is_always_an_allowed_transition() {
    let s = PhaseTransitionService::new("/ws/.metis");
    let phases = [Phase::Draft, Phase::Review, Phase::Published, Phase::Discussion, Phase::Decided, Phase::Superseded,
        Phase::Backlog, Phase::Todo, Phase::Active, Phase::Blocked, Phase::Completed, Phase::Shaping, Phase::Design,
        Phase::Ready, Phase::Decompose, Phase::Discovery];
    for t in [DocumentType::Vision, DocumentType::Strategy, DocumentType::Initiative, DocumentType::Task, DocumentType::Adr] {
        for p in phases {
            if let Ok(r) = s.plan_next_transition("D-1", t, "/d.md", p) {
                assert!(s.is_valid_transition(t, p, r.to_phase), "{:?} {:?}", t, p);
            }
        }
    }
}
