use solana_anchor_voting_app::commands::change_phase;
use solana_anchor_voting_app::commands::initialize;
use solana_anchor_voting_app::commands::register;
use solana_anchor_voting_app::commands::vote;
use solana_anchor_voting_app::types::ElectionData;
use solana_anchor_voting_app::types::ElectionError;
use solana_anchor_voting_app::types::ElectionPhase;
use solana_anchor_voting_app::types::Pubkey;
use solana_anchor_voting_app::types::Voter;

fn key(n: u64) -> Pubkey {
    Pubkey { w0: n, w1: 0, w2: 0, w3: 0 }
}

#[test]
fn initialize_rejects_zero_threshold() {
    let r = initialize(key(1), 0);
    assert_eq!(r, Err(ElectionError::CandidateThresholdShouldBeGreaterThanZero));
}

#[test]
fn initialize_accepts_any_positive_threshold() {
    for threshold in [1u8, 2, 100, u8::MAX] {
        let e = initialize(key(1), threshold).unwrap();
        assert_eq!(e.phase, ElectionPhase::RegisterPhase);
        assert_eq!(e.total_candidate, 1);
        assert_eq!(e.candidate_threshold, threshold);
        assert_eq!(e.initiator, key(1));
    }
}

#[test]
fn register_assigns_sequential_ids() {
    let mut e = initialize(key(1), 3).unwrap();
    let a = register(key(10), key(9), &mut e, String::from("Alice")).unwrap();
    let b = register(key(11), key(9), &mut e, String::from("Bob")).unwrap();
    assert_eq!(a.id, 1);
    assert_eq!(b.id, 2);
    assert_eq!(e.total_candidate, 3);
    assert_eq!(a.total_votes, 0);
    assert_eq!(a.name, "Alice");
    assert_eq!(a.signer, key(10));
    assert_eq!(a.election, key(9));
}

#[test]
fn register_permits_duplicate_names() {
    let mut e = initialize(key(1), 3).unwrap();
    let a = register(key(10), key(9), &mut e, String::from("Same")).unwrap();
    let b = register(key(11), key(9), &mut e, String::from("Same")).unwrap();
    assert_eq!(a.name, b.name);
    assert_ne!(a.id, b.id);
}

#[test]
fn register_outside_register_phase_is_refused() {
    let mut e = initialize(key(1), 3).unwrap();
    e.phase = ElectionPhase::VotingOpenPhase;
    let before = e;
    let r = register(key(10), key(9), &mut e, String::from("Late"));
    assert_eq!(r.err(), Some(ElectionError::RegisterPhaseIsClosed));
    assert_eq!(e, before);

    e.phase = ElectionPhase::VotingClosePhase;
    let r = register(key(10), key(9), &mut e, String::from("Late"));
    assert_eq!(r.err(), Some(ElectionError::RegisterPhaseIsClosed));
}

#[test]
fn register_past_threshold_is_refused() {
    let mut e = initialize(key(1), 1).unwrap();
    register(key(10), key(9), &mut e, String::from("Only")).unwrap();
    let before = e;
    let r = register(key(11), key(9), &mut e, String::from("Over"));
    assert_eq!(r.err(), Some(ElectionError::CandidateIsFull));
    assert_eq!(e, before);
}

#[test]
fn register_stops_at_id_counter_ceiling() {
    // With the threshold at the id counter's ceiling, the last id the
    // counter could hand out would overflow it; that registration is
    // refused as full.
    let mut e = initialize(key(1), u8::MAX).unwrap();
    for n in 1..u8::MAX {
        let c = register(key(100), key(9), &mut e, String::from("C")).unwrap();
        assert_eq!(c.id, n);
    }
    assert_eq!(e.total_candidate, u8::MAX);
    let r = register(key(100), key(9), &mut e, String::from("Over"));
    assert_eq!(r.err(), Some(ElectionError::CandidateIsFull));
    assert_eq!(e.total_candidate, u8::MAX);
}

#[test]
fn vote_increments_tally_and_returns_record() {
    let mut e = initialize(key(1), 2).unwrap();
    let mut c = register(key(10), key(9), &mut e, String::from("Alice")).unwrap();
    e.phase = ElectionPhase::VotingOpenPhase;
    let r = vote(key(20), key(9), &e, &mut c, false).unwrap();
    assert_eq!(r, Voter { selected_candidate_id: 1, voter: key(20) });
    assert_eq!(c.total_votes, 1);
    assert_eq!(c.name, "Alice");
}

#[test]
fn vote_outside_voting_phase_is_refused() {
    let mut e = initialize(key(1), 2).unwrap();
    let mut c = register(key(10), key(9), &mut e, String::from("Alice")).unwrap();
    let r = vote(key(20), key(9), &e, &mut c, false);
    assert_eq!(r.err(), Some(ElectionError::VotingPhaseIsClosed));
    assert_eq!(c.total_votes, 0);

    e.phase = ElectionPhase::VotingClosePhase;
    let r = vote(key(20), key(9), &e, &mut c, false);
    assert_eq!(r.err(), Some(ElectionError::VotingPhaseIsClosed));
    assert_eq!(c.total_votes, 0);
}

#[test]
fn vote_with_existing_record_is_refused() {
    let mut e = initialize(key(1), 2).unwrap();
    let mut c = register(key(10), key(9), &mut e, String::from("Alice")).unwrap();
    e.phase = ElectionPhase::VotingOpenPhase;
    let r = vote(key(20), key(9), &e, &mut c, true);
    assert_eq!(r.err(), Some(ElectionError::AlreadyVoted));
    assert_eq!(c.total_votes, 0);
}

#[test]
fn vote_for_foreign_candidate_is_refused() {
    let mut e = initialize(key(1), 2).unwrap();
    let mut c = register(key(10), key(8), &mut e, String::from("Elsewhere")).unwrap();
    e.phase = ElectionPhase::VotingOpenPhase;
    let r = vote(key(20), key(9), &e, &mut c, false);
    assert_eq!(r.err(), Some(ElectionError::CrossElectionMismatch));
    assert_eq!(c.total_votes, 0);
}

#[test]
fn change_phase_requires_initiator() {
    let mut e = initialize(key(1), 2).unwrap();
    let before = e;
    let r = change_phase(key(2), &mut e, ElectionPhase::VotingOpenPhase);
    assert_eq!(r, Err(ElectionError::Unauthorized));
    assert_eq!(e, before);
}

#[test]
fn change_phase_allows_any_transition_for_initiator() {
    let mut e = initialize(key(1), 2).unwrap();
    let transitions = [
        ElectionPhase::VotingOpenPhase,
        ElectionPhase::VotingClosePhase,
        ElectionPhase::RegisterPhase,
        ElectionPhase::RegisterPhase,
    ];
    for phase in transitions {
        let r = change_phase(key(1), &mut e, phase);
        assert_eq!(r, Ok(()));
        assert_eq!(e.phase, phase);
        assert_eq!(e.total_candidate, 1);
        assert_eq!(e.candidate_threshold, 2);
        assert_eq!(e.initiator, key(1));
    }
}

#[test]
fn election_data_is_plain_state() {
    let e = ElectionData {
        total_candidate: 1,
        candidate_threshold: 5,
        initiator: key(7),
        phase: ElectionPhase::RegisterPhase,
    };
    assert_eq!(e, e);
    assert_ne!(key(7), key(8));
}
