//! The four election commands as pure functions.
//!
//! Each command takes the caller's already-authenticated identity and the
//! state it acts on, checks its preconditions before touching anything, and
//! either applies its whole effect or reports a typed failure and leaves the
//! state exactly as it was.

use vstd::prelude::*;

use crate::types::CandidateData;
use crate::types::ElectionData;
use crate::types::ElectionError;
use crate::types::ElectionPhase;
use crate::types::Pubkey;
use crate::types::Voter;

verus! {

/// Whether `register` admits a new candidate on an election in this state:
/// registration must be open, the id counter must not have passed the
/// threshold, and the counter must still be able to grow (its `u8` ceiling
/// only matters when the threshold itself is `u8::MAX`).
pub open spec fn register_admitted(e: ElectionData) -> bool {
    &&& e.phase == ElectionPhase::RegisterPhase
    &&& e.total_candidate <= e.candidate_threshold
    &&& e.total_candidate < u8::MAX
}

/// Whether `vote` admits a ballot: voting must be open, the caller must not
/// already hold a vote record, and the targeted candidate must belong to the
/// election being voted in.
pub open spec fn vote_admitted(
    e: ElectionData,
    c: CandidateData,
    election_key: Pubkey,
    already_voted: bool,
) -> bool {
    &&& e.phase == ElectionPhase::VotingOpenPhase
    &&& !already_voted
    &&& c.election == election_key
}

/// Whether `signer` may change the phase of this election: only the
/// identity that created it may.
pub open spec fn may_change_phase(e: ElectionData, signer: Pubkey) -> bool {
    signer == e.initiator
}

/// Open a new election on behalf of `signer`.
///
/// The threshold must be positive; otherwise the command fails with
/// `CandidateThresholdShouldBeGreaterThanZero`. On success the election
/// starts in `RegisterPhase` with its id counter seeded at 1 and `signer`
/// bound as the initiator.
pub fn initialize(signer: Pubkey, candidate_threshold: u8) -> (r: Result<
    ElectionData,
    ElectionError,
>)
    ensures
        candidate_threshold == 0 ==> r == Err::<ElectionData, ElectionError>(
            ElectionError::CandidateThresholdShouldBeGreaterThanZero,
        ),
        candidate_threshold > 0 ==> r == Ok::<ElectionData, ElectionError>(
            (ElectionData {
                total_candidate: 1,
                candidate_threshold,
                initiator: signer,
                phase: ElectionPhase::RegisterPhase,
            }),
        ),
{
    if candidate_threshold == 0 {
        return Err(ElectionError::CandidateThresholdShouldBeGreaterThanZero);
    }
    Ok(
        ElectionData {
            total_candidate: 1,
            candidate_threshold,
            initiator: signer,
            phase: ElectionPhase::RegisterPhase,
        },
    )
}

/// Register a candidate named `name` on behalf of `signer`, in the election
/// stored at address `election_key`.
///
/// Outside `RegisterPhase` the command fails with `RegisterPhaseIsClosed`;
/// once the id counter has passed the threshold (or can no longer grow) it
/// fails with `CandidateIsFull`. In both cases the election is left exactly
/// as it was. On admission the new candidate takes the counter's current
/// value as its id, starts with no votes, and the counter moves up by one;
/// nothing else about the election changes.
pub fn register(
    signer: Pubkey,
    election_key: Pubkey,
    election_data: &mut ElectionData,
    name: String,
) -> (r: Result<CandidateData, ElectionError>)
    ensures
        old(election_data).phase != ElectionPhase::RegisterPhase ==> r == Err::<
            CandidateData,
            ElectionError,
        >(ElectionError::RegisterPhaseIsClosed) && *final(election_data) == *old(election_data),
        old(election_data).phase == ElectionPhase::RegisterPhase && !register_admitted(
            *old(election_data),
        ) ==> r == Err::<CandidateData, ElectionError>(ElectionError::CandidateIsFull)
            && *final(election_data) == *old(election_data),
        register_admitted(*old(election_data)) ==> {
            &&& r == Ok::<CandidateData, ElectionError>(
                (CandidateData {
                    id: old(election_data).total_candidate,
                    signer,
                    name,
                    total_votes: 0,
                    election: election_key,
                }),
            )
            &&& *final(election_data) == (ElectionData {
                total_candidate: (old(election_data).total_candidate + 1) as u8,
                candidate_threshold: old(election_data).candidate_threshold,
                initiator: old(election_data).initiator,
                phase: old(election_data).phase,
            })
        },
{
    if election_data.phase != ElectionPhase::RegisterPhase {
        return Err(ElectionError::RegisterPhaseIsClosed);
    }
    if election_data.total_candidate > election_data.candidate_threshold
        || election_data.total_candidate == u8::MAX {
        return Err(ElectionError::CandidateIsFull);
    }
    let id = election_data.total_candidate;
    election_data.total_candidate = id + 1;
    Ok(CandidateData { id, signer, name, total_votes: 0, election: election_key })
}

/// Cast `signer`'s vote for the given candidate, in the election stored at
/// address `election_key`. `already_voted` is the store's answer to whether
/// a vote record keyed by `signer` already exists: record creation is
/// compare-and-create, and that key collision is the sole guard against
/// double voting.
///
/// Outside `VotingOpenPhase` the command fails with `VotingPhaseIsClosed`; a
/// caller that already holds a vote record fails with `AlreadyVoted`; a
/// candidate registered in a different election fails with
/// `CrossElectionMismatch`. In every failure case the candidate is left
/// exactly as it was. On admission the candidate's tally moves up by one and
/// the returned vote record points at the candidate's id.
pub fn vote(
    signer: Pubkey,
    election_key: Pubkey,
    election_data: &ElectionData,
    candidate_data: &mut CandidateData,
    already_voted: bool,
) -> (r: Result<Voter, ElectionError>)
    requires
        vote_admitted(*election_data, *old(candidate_data), election_key, already_voted) ==> old(
            candidate_data,
        ).total_votes < u64::MAX,
    ensures
        election_data.phase != ElectionPhase::VotingOpenPhase ==> r == Err::<
            Voter,
            ElectionError,
        >(ElectionError::VotingPhaseIsClosed) && *final(candidate_data) == *old(candidate_data),
        election_data.phase == ElectionPhase::VotingOpenPhase && already_voted ==> r == Err::<
            Voter,
            ElectionError,
        >(ElectionError::AlreadyVoted) && *final(candidate_data) == *old(candidate_data),
        election_data.phase == ElectionPhase::VotingOpenPhase && !already_voted && old(
            candidate_data,
        ).election != election_key ==> r == Err::<Voter, ElectionError>(
            ElectionError::CrossElectionMismatch,
        ) && *final(candidate_data) == *old(candidate_data),
        vote_admitted(*election_data, *old(candidate_data), election_key, already_voted) ==> {
            &&& r == Ok::<Voter, ElectionError>(
                (Voter { selected_candidate_id: old(candidate_data).id, voter: signer }),
            )
            &&& *final(candidate_data) == (CandidateData {
                id: old(candidate_data).id,
                signer: old(candidate_data).signer,
                name: old(candidate_data).name,
                total_votes: (old(candidate_data).total_votes + 1) as u64,
                election: old(candidate_data).election,
            })
        },
{
    if election_data.phase != ElectionPhase::VotingOpenPhase {
        return Err(ElectionError::VotingPhaseIsClosed);
    }
    if already_voted {
        return Err(ElectionError::AlreadyVoted);
    }
    if candidate_data.election != election_key {
        return Err(ElectionError::CrossElectionMismatch);
    }
    candidate_data.total_votes = candidate_data.total_votes + 1;
    Ok(Voter { selected_candidate_id: candidate_data.id, voter: signer })
}

/// Set the election's phase to `phase` on behalf of `signer`.
///
/// Only the initiator may do this; any other caller fails with
/// `Unauthorized` and the election is left exactly as it was. No ordering
/// between phases is enforced: any phase may be set from any phase,
/// including setting the phase it already has.
pub fn change_phase(
    signer: Pubkey,
    election_data: &mut ElectionData,
    phase: ElectionPhase,
) -> (r: Result<(), ElectionError>)
    ensures
        !may_change_phase(*old(election_data), signer) ==> r == Err::<(), ElectionError>(
            ElectionError::Unauthorized,
        ) && *final(election_data) == *old(election_data),
        may_change_phase(*old(election_data), signer) ==> r == Ok::<(), ElectionError>(())
            && *final(election_data) == (ElectionData {
            total_candidate: old(election_data).total_candidate,
            candidate_threshold: old(election_data).candidate_threshold,
            initiator: old(election_data).initiator,
            phase,
        }),
{
    if signer != election_data.initiator {
        return Err(ElectionError::Unauthorized);
    }
    election_data.phase = phase;
    Ok(())
}

} // verus!
