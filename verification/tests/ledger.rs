use solana_anchor_voting_app::ledger::Ledger;
use solana_anchor_voting_app::types::ElectionError;
use solana_anchor_voting_app::types::ElectionPhase;
use solana_anchor_voting_app::types::Pubkey;
use solana_anchor_voting_app::types::Voter;

fn key(n: u64) -> Pubkey {
    Pubkey { w0: n, w1: 0, w2: 0, w3: 0 }
}

const INITIATOR: u64 = 1;
const ELECTION: u64 = 100;

/// Threshold-2 election with Alice (id 1) and Bob (id 2) registered.
fn two_candidate_election() -> Ledger {
    let mut ledger = Ledger::new();
    ledger.initialize(key(INITIATOR), key(ELECTION), 2).unwrap();
    assert_eq!(ledger.register(key(10), key(ELECTION), String::from("Alice")), Ok(1));
    assert_eq!(ledger.register(key(11), key(ELECTION), String::from("Bob")), Ok(2));
    ledger
}

#[test]
fn counter_reads_n_plus_one_after_n_registrations() {
    let mut ledger = Ledger::new();
    ledger.initialize(key(INITIATOR), key(ELECTION), 5).unwrap();
    for n in 1u8..=5 {
        let id = ledger.register(key(50 + n as u64), key(ELECTION), String::from("C")).unwrap();
        assert_eq!(id, n);
        let e = ledger.get_election(key(ELECTION)).unwrap();
        assert_eq!(e.total_candidate, n + 1);
    }
    // Exactly the ids 1..=5 are stored.
    for id in 1u8..=5 {
        assert_eq!(ledger.candidate_tally(key(ELECTION), id), Some(0));
    }
    assert_eq!(ledger.candidate_tally(key(ELECTION), 0), None);
    assert_eq!(ledger.candidate_tally(key(ELECTION), 6), None);
}

#[test]
fn registration_closed_creates_no_candidate() {
    let mut ledger = two_candidate_election();
    ledger.change_phase(key(INITIATOR), key(ELECTION), ElectionPhase::VotingOpenPhase).unwrap();
    let r = ledger.register(key(12), key(ELECTION), String::from("Late"));
    assert_eq!(r, Err(ElectionError::RegisterPhaseIsClosed));
    assert_eq!(ledger.get_election(key(ELECTION)).unwrap().total_candidate, 3);
    assert_eq!(ledger.candidate_tally(key(ELECTION), 3), None);
}

#[test]
fn candidate_limit_is_enforced() {
    let mut ledger = two_candidate_election();
    let r = ledger.register(key(12), key(ELECTION), String::from("Over"));
    assert_eq!(r, Err(ElectionError::CandidateIsFull));
    assert_eq!(ledger.get_election(key(ELECTION)).unwrap().total_candidate, 3);
}

#[test]
fn vote_increments_target_tally_once() {
    let mut ledger = two_candidate_election();
    ledger.change_phase(key(INITIATOR), key(ELECTION), ElectionPhase::VotingOpenPhase).unwrap();
    let r = ledger.vote(key(20), key(ELECTION), key(ELECTION), 2).unwrap();
    assert_eq!(r, Voter { selected_candidate_id: 2, voter: key(20) });
    assert_eq!(ledger.candidate_tally(key(ELECTION), 2), Some(1));
    assert_eq!(ledger.candidate_tally(key(ELECTION), 1), Some(0));
    assert_eq!(ledger.get_voter(key(20)), Some(Voter { selected_candidate_id: 2, voter: key(20) }));
}

#[test]
fn vote_while_closed_is_refused() {
    let mut ledger = two_candidate_election();
    let r = ledger.vote(key(20), key(ELECTION), key(ELECTION), 2);
    assert_eq!(r, Err(ElectionError::VotingPhaseIsClosed));
    assert_eq!(ledger.candidate_tally(key(ELECTION), 2), Some(0));
    assert_eq!(ledger.get_voter(key(20)), None);
}

#[test]
fn full_election_scenario() {
    // initialize(threshold 2), register Alice and Bob, open voting, V votes
    // for Bob: Bob holds one vote, Alice none, and V's record points at
    // Bob's id.
    let mut ledger = two_candidate_election();
    ledger.change_phase(key(INITIATOR), key(ELECTION), ElectionPhase::VotingOpenPhase).unwrap();
    let v = key(20);
    ledger.vote(v, key(ELECTION), key(ELECTION), 2).unwrap();
    assert_eq!(ledger.candidate_tally(key(ELECTION), 2), Some(1));
    assert_eq!(ledger.candidate_tally(key(ELECTION), 1), Some(0));
    assert_eq!(ledger.get_voter(v), Some(Voter { selected_candidate_id: 2, voter: v }));
}

#[test]
fn second_vote_by_same_identity_is_refused() {
    let mut ledger = two_candidate_election();
    ledger.change_phase(key(INITIATOR), key(ELECTION), ElectionPhase::VotingOpenPhase).unwrap();
    let v = key(20);
    ledger.vote(v, key(ELECTION), key(ELECTION), 2).unwrap();
    // A second ballot, even for the other candidate, is refused and no
    // tally moves.
    let r = ledger.vote(v, key(ELECTION), key(ELECTION), 1);
    assert_eq!(r, Err(ElectionError::AlreadyVoted));
    assert_eq!(ledger.candidate_tally(key(ELECTION), 2), Some(1));
    assert_eq!(ledger.candidate_tally(key(ELECTION), 1), Some(0));
}

#[test]
fn one_vote_across_all_elections() {
    // The vote record's key is derived from the identity alone, so one
    // identity can vote in at most one election ever.
    let mut ledger = two_candidate_election();
    let other = key(200);
    ledger.initialize(key(INITIATOR), other, 2).unwrap();
    ledger.register(key(30), other, String::from("Other")).unwrap();
    ledger.change_phase(key(INITIATOR), key(ELECTION), ElectionPhase::VotingOpenPhase).unwrap();
    ledger.change_phase(key(INITIATOR), other, ElectionPhase::VotingOpenPhase).unwrap();
    let v = key(20);
    ledger.vote(v, key(ELECTION), key(ELECTION), 2).unwrap();
    let r = ledger.vote(v, other, other, 1);
    assert_eq!(r, Err(ElectionError::AlreadyVoted));
    assert_eq!(ledger.candidate_tally(other, 1), Some(0));
}

#[test]
fn vote_for_candidate_of_another_election_is_refused() {
    let mut ledger = two_candidate_election();
    let other = key(200);
    ledger.initialize(key(INITIATOR), other, 2).unwrap();
    ledger.register(key(30), other, String::from("Other")).unwrap();
    ledger.change_phase(key(INITIATOR), key(ELECTION), ElectionPhase::VotingOpenPhase).unwrap();
    // The ballot names the first election but targets the candidate stored
    // in the second.
    let r = ledger.vote(key(20), key(ELECTION), other, 1);
    assert_eq!(r, Err(ElectionError::CrossElectionMismatch));
    assert_eq!(ledger.candidate_tally(other, 1), Some(0));
    assert_eq!(ledger.get_voter(key(20)), None);
}

#[test]
fn only_initiator_changes_phase() {
    let mut ledger = two_candidate_election();
    for caller in [10u64, 11, 20] {
        let r = ledger.change_phase(key(caller), key(ELECTION), ElectionPhase::VotingOpenPhase);
        assert_eq!(r, Err(ElectionError::Unauthorized));
        let e = ledger.get_election(key(ELECTION)).unwrap();
        assert_eq!(e.phase, ElectionPhase::RegisterPhase);
    }
    let r = ledger.change_phase(key(INITIATOR), key(ELECTION), ElectionPhase::VotingOpenPhase);
    assert_eq!(r, Ok(()));
    let e = ledger.get_election(key(ELECTION)).unwrap();
    assert_eq!(e.phase, ElectionPhase::VotingOpenPhase);
}

#[test]
fn ledger_initialize_rejects_zero_threshold() {
    let mut ledger = Ledger::new();
    let r = ledger.initialize(key(INITIATOR), key(ELECTION), 0);
    assert_eq!(r, Err(ElectionError::CandidateThresholdShouldBeGreaterThanZero));
    assert!(ledger.get_election(key(ELECTION)).is_none());
}

#[test]
fn elections_are_independent() {
    let mut ledger = two_candidate_election();
    let other = key(200);
    ledger.initialize(key(2), other, 7).unwrap();
    // Ids restart from 1 in the second election, and its counter is its
    // own.
    assert_eq!(ledger.register(key(30), other, String::from("First")), Ok(1));
    assert_eq!(ledger.get_election(other).unwrap().total_candidate, 2);
    assert_eq!(ledger.get_election(key(ELECTION)).unwrap().total_candidate, 3);
    // Phase changes in one election need that election's initiator.
    let r = ledger.change_phase(key(INITIATOR), other, ElectionPhase::VotingOpenPhase);
    assert_eq!(r, Err(ElectionError::Unauthorized));
    assert_eq!(ledger.change_phase(key(2), other, ElectionPhase::VotingOpenPhase), Ok(()));
}
