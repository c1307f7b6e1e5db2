//! The records an election is made of, and the errors its commands report.

use vstd::prelude::*;

verus! {

/// A stable, unforgeable 32-byte identifier, handed out by the hosting
/// environment's identity provider. It names both callers (signers) and
/// stored records (account addresses); the election logic only ever compares
/// two of them for equality. The 32 bytes are held as four 64-bit words.
#[derive(Clone, Copy, PartialEq, Eq, Structural, Debug)]
pub struct Pubkey {
    pub w0: u64,
    pub w1: u64,
    pub w2: u64,
    pub w3: u64,
}

/// The phase an election is in. The phase controls which commands are
/// admitted: registration only during `RegisterPhase`, voting only during
/// `VotingOpenPhase`. `VotingClosePhase` is conventionally terminal, but no
/// ordering between phases is enforced: the initiator may set any phase from
/// any phase.
#[derive(Clone, Copy, PartialEq, Eq, Structural, Debug)]
pub enum ElectionPhase {
    RegisterPhase,
    VotingOpenPhase,
    VotingClosePhase,
}

/// The typed failures of the four commands. Every precondition violation is
/// detected before any mutation and reported as one of these; no command
/// partially applies its effect.
#[derive(Clone, Copy, PartialEq, Eq, Structural, Debug)]
pub enum ElectionError {
    /// `initialize` was given a candidate threshold of zero.
    CandidateThresholdShouldBeGreaterThanZero,
    /// `register` was attempted once the threshold was met, or once the id
    /// counter could no longer grow.
    CandidateIsFull,
    /// `register` was attempted outside `RegisterPhase`.
    RegisterPhaseIsClosed,
    /// `vote` was attempted outside `VotingOpenPhase`.
    VotingPhaseIsClosed,
    /// A caller other than the initiator attempted `change_phase`.
    Unauthorized,
    /// A second `vote` by an identity that already holds a vote record.
    AlreadyVoted,
    /// `vote` targeted a candidate that belongs to a different election.
    CrossElectionMismatch,
}

/// One election: who opened it, where it stands, and how many candidates it
/// admits. `total_candidate` is the id counter: it starts at 1 when the
/// election is created, and each admitted registration takes its current
/// value as the new candidate's id and then increments it. An election with
/// counter value T therefore holds T - 1 candidates.
#[derive(Clone, Copy, PartialEq, Eq, Structural, Debug)]
pub struct ElectionData {
    /// Id counter: the id the next admitted candidate will receive.
    pub total_candidate: u8,
    /// Ceiling on candidate ids; fixed at creation, always at least 1.
    pub candidate_threshold: u8,
    /// Identity that created the election; sole authority for phase changes.
    pub initiator: Pubkey,
    /// Current phase.
    pub phase: ElectionPhase,
}

/// One registered candidate. Created by `register` while registration is
/// open; afterwards only `total_votes` ever changes, and only upwards, and
/// only while voting is open.
pub struct CandidateData {
    /// Sequential id, assigned from the election's counter at registration.
    pub id: u8,
    /// Identity that registered the candidate.
    pub signer: Pubkey,
    /// Display name; free text, duplicates permitted.
    pub name: String,
    /// Number of votes cast for this candidate.
    pub total_votes: u64,
    /// Address of the election this candidate was registered in.
    pub election: Pubkey,
}

/// Proof that an identity has cast its vote, pointing at the chosen
/// candidate. The store keys this record by the voter's identity alone, so
/// each identity can vote at most once across all elections.
#[derive(Clone, Copy, PartialEq, Eq, Structural, Debug)]
pub struct Voter {
    /// Id of the candidate the vote went to.
    pub selected_candidate_id: u8,
    /// Identity that cast the vote.
    pub voter: Pubkey,
}

} // verus!
