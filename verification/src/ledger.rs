//! A model of the durable keyed store the hosting environment provides.
//!
//! The environment persists one record per derived key and guarantees atomic
//! compare-and-create on first write: elections live at an address of their
//! own, candidates under a key derived from (election, registering signer,
//! id), and vote records under a key derived from the voter's identity
//! alone. That last choice is kept as the original semantics: one identity
//! can vote at most once across all elections. Key collision is the sole
//! source of the uniqueness guarantees for candidates and vote records.
//!
//! [`Ledger`] holds the three record families and applies the four commands
//! against them. Its well-formedness invariant ties the records together:
//! election addresses are unique, every election with id counter T holds
//! exactly one candidate for each id 1..T-1, no two vote records share a
//! voter identity, and no tally exceeds the number of vote records.

use vstd::prelude::*;

use crate::commands;
use crate::types::CandidateData;
use crate::types::ElectionData;
use crate::types::ElectionError;
use crate::types::ElectionPhase;
use crate::types::Pubkey;
use crate::types::Voter;

verus! {

/// One election record together with the address it is stored at.
#[derive(Clone, Copy, PartialEq, Eq, Structural, Debug)]
pub struct ElectionAccount {
    /// Address of the record in the store.
    pub key: Pubkey,
    /// The election itself.
    pub data: ElectionData,
}

/// The keyed store: every election, candidate and vote record it holds.
pub struct Ledger {
    /// Election records, each at a distinct address.
    pub elections: Vec<ElectionAccount>,
    /// Candidate records; `(election, id)` identifies each one.
    pub candidates: Vec<CandidateData>,
    /// Vote records; the voter identity identifies each one.
    pub voters: Vec<Voter>,
}

impl Ledger {
    /// Whether an election record is stored at address `key`.
    pub open spec fn has_election(self, key: Pubkey) -> bool {
        exists|i: int|
            0 <= i < self.elections@.len() && (#[trigger] self.elections@[i]).key == key
    }

    /// Index of the election record stored at address `key`.
    pub open spec fn election_index(self, key: Pubkey) -> int {
        choose|i: int|
            0 <= i < self.elections@.len() && (#[trigger] self.elections@[i]).key == key
    }

    /// The election record stored at address `key`.
    pub open spec fn election_at(self, key: Pubkey) -> ElectionData {
        self.elections@[self.election_index(key)].data
    }

    /// Whether the election at address `election` holds a candidate with
    /// this id.
    pub open spec fn has_candidate(self, election: Pubkey, id: u8) -> bool {
        exists|i: int|
            0 <= i < self.candidates@.len() && (#[trigger] self.candidates@[i]).election
                == election && self.candidates@[i].id == id
    }

    /// Index of that candidate record.
    pub open spec fn candidate_index(self, election: Pubkey, id: u8) -> int {
        choose|i: int|
            0 <= i < self.candidates@.len() && (#[trigger] self.candidates@[i]).election
                == election && self.candidates@[i].id == id
    }

    /// The candidate record with this id in the election at address
    /// `election`.
    pub open spec fn candidate_at(self, election: Pubkey, id: u8) -> CandidateData {
        self.candidates@[self.candidate_index(election, id)]
    }

    /// Whether a vote record keyed by this identity exists.
    pub open spec fn has_voter(self, voter: Pubkey) -> bool {
        exists|i: int|
            0 <= i < self.voters@.len() && (#[trigger] self.voters@[i]).voter == voter
    }

    /// Index of that vote record.
    pub open spec fn voter_index(self, voter: Pubkey) -> int {
        choose|i: int|
            0 <= i < self.voters@.len() && (#[trigger] self.voters@[i]).voter == voter
    }

    /// The vote record cast by this identity.
    pub open spec fn voter_at(self, voter: Pubkey) -> Voter {
        self.voters@[self.voter_index(voter)]
    }

    /// No two election records share an address.
    pub open spec fn election_keys_unique(self) -> bool {
        forall|i: int, j: int|
            0 <= i < j < self.elections@.len() ==> (#[trigger] self.elections@[i]).key != (
            #[trigger] self.elections@[j]).key
    }

    /// Every stored election respects the creation-time constraints: a
    /// positive threshold, and an id counter that started at 1 and never
    /// passed one step beyond the threshold.
    pub open spec fn elections_valid(self) -> bool {
        forall|i: int|
            0 <= i < self.elections@.len() ==> {
                let d = (#[trigger] self.elections@[i]).data;
                &&& 1 <= d.candidate_threshold
                &&& 1 <= d.total_candidate
                &&& d.total_candidate as int <= d.candidate_threshold as int + 1
            }
    }

    /// No two candidate records share their `(election, id)` key.
    pub open spec fn candidate_ids_unique(self) -> bool {
        forall|i: int, j: int|
            0 <= i < j < self.candidates@.len() ==> !((#[trigger] self.candidates@[i]).election
                == (#[trigger] self.candidates@[j]).election && self.candidates@[i].id
                == self.candidates@[j].id)
    }

    /// Every candidate belongs to a stored election and carries an id the
    /// election's counter has already passed.
    pub open spec fn candidates_linked(self) -> bool {
        forall|i: int|
            0 <= i < self.candidates@.len() ==> {
                let c = #[trigger] self.candidates@[i];
                &&& self.has_election(c.election)
                &&& 1 <= c.id
                &&& (c.id as int) < self.election_at(c.election).total_candidate as int
            }
    }

    /// Every id the counter has passed is taken: an election whose counter
    /// stands at T holds a candidate for each id 1..T-1.
    pub open spec fn candidate_ids_complete(self) -> bool {
        forall|i: int, id: u8|
            0 <= i < self.elections@.len() && 1 <= id && (id as int)
                < self.elections@[i].data.total_candidate as int ==> #[trigger] self.has_candidate(
                (#[trigger] self.elections@[i]).key,
                id,
            )
    }

    /// No two vote records share a voter identity.
    pub open spec fn voters_unique(self) -> bool {
        forall|i: int, j: int|
            0 <= i < j < self.voters@.len() ==> (#[trigger] self.voters@[i]).voter != (
            #[trigger] self.voters@[j]).voter
    }

    /// No candidate's tally exceeds the number of vote records: every vote
    /// counted came from a stored ballot.
    pub open spec fn tallies_bounded(self) -> bool {
        forall|i: int|
            0 <= i < self.candidates@.len() ==> (#[trigger] self.candidates@[i]).total_votes
                as int <= self.voters@.len() as int
    }

    /// Both stores hold exactly the same records. Every failed command
    /// leaves the store in this relation to its old value: no effect is
    /// partially applied.
    pub open spec fn same_records(self, other: Ledger) -> bool {
        &&& self.elections@ == other.elections@
        &&& self.candidates@ == other.candidates@
        &&& self.voters@ == other.voters@
    }

    /// Well-formedness of the whole store. Established by [`Ledger::new`]
    /// and preserved by every command.
    pub open spec fn wf(self) -> bool {
        &&& self.election_keys_unique()
        &&& self.elections_valid()
        &&& self.candidate_ids_unique()
        &&& self.candidates_linked()
        &&& self.candidate_ids_complete()
        &&& self.voters_unique()
        &&& self.tallies_bounded()
    }

    /// A store's meaning lies in its records alone: a store holding exactly
    /// the same records is well formed whenever the first is, and every
    /// lookup resolves to the same record.
    pub proof fn lemma_same_records_wf(a: Ledger, b: Ledger)
        requires
            a.wf(),
            b.same_records(a),
        ensures
            b.wf(),
            forall|k: Pubkey| b.has_election(k) == a.has_election(k),
            forall|k: Pubkey|
                a.has_election(k) ==> b.election_at(k) == a.election_at(k),
            forall|k: Pubkey, id: u8| b.has_candidate(k, id) == a.has_candidate(k, id),
            forall|k: Pubkey, id: u8|
                a.has_candidate(k, id) ==> b.candidate_at(k, id) == a.candidate_at(k, id),
            forall|v: Pubkey| b.has_voter(v) == a.has_voter(v),
            forall|v: Pubkey| a.has_voter(v) ==> b.voter_at(v) == a.voter_at(v),
    {
        assert forall|k: Pubkey| b.has_election(k) == a.has_election(k) by {
            if a.has_election(k) {
                let i = a.election_index(k);
                assert(b.elections@[i].key == k);
            }
            if b.has_election(k) {
                let i = b.election_index(k);
                assert(a.elections@[i].key == k);
            }
        }
        assert forall|k: Pubkey, id: u8| b.has_candidate(k, id) == a.has_candidate(k, id) by {
            if a.has_candidate(k, id) {
                let i = a.candidate_index(k, id);
                assert(b.candidates@[i].election == k && b.candidates@[i].id == id);
            }
            if b.has_candidate(k, id) {
                let i = b.candidate_index(k, id);
                assert(a.candidates@[i].election == k && a.candidates@[i].id == id);
            }
        }
        assert forall|v: Pubkey| b.has_voter(v) == a.has_voter(v) by {
            if a.has_voter(v) {
                let i = a.voter_index(v);
                assert(b.voters@[i].voter == v);
            }
            if b.has_voter(v) {
                let i = b.voter_index(v);
                assert(a.voters@[i].voter == v);
            }
        }
        assert forall|i: int, j: int|
            0 <= i < j < b.elections@.len() implies (#[trigger] b.elections@[i]).key != (
        #[trigger] b.elections@[j]).key by {
            assert(a.elections@[i].key != a.elections@[j].key);
        }
        assert forall|i: int, j: int|
            0 <= i < j < b.candidates@.len() implies !((#[trigger] b.candidates@[i]).election
            == (#[trigger] b.candidates@[j]).election && b.candidates@[i].id
            == b.candidates@[j].id) by {
            assert(!(a.candidates@[i].election == a.candidates@[j].election
                && a.candidates@[i].id == a.candidates@[j].id));
        }
        assert forall|i: int, j: int|
            0 <= i < j < b.voters@.len() implies (#[trigger] b.voters@[i]).voter != (
        #[trigger] b.voters@[j]).voter by {
            assert(a.voters@[i].voter != a.voters@[j].voter);
        }
        assert forall|k: Pubkey| a.has_election(k) implies b.election_at(k) == a.election_at(
            k,
        ) by {
            let i = a.election_index(k);
            a.lemma_election_lookup(i);
            assert(b.elections@[i].key == k);
            b.lemma_election_lookup(i);
        }
        assert forall|k: Pubkey, id: u8| a.has_candidate(k, id) implies b.candidate_at(k, id)
            == a.candidate_at(k, id) by {
            let i = a.candidate_index(k, id);
            a.lemma_candidate_lookup(i);
            assert(b.candidates@[i].election == k && b.candidates@[i].id == id);
            b.lemma_candidate_lookup(i);
        }
        assert forall|v: Pubkey| a.has_voter(v) implies b.voter_at(v) == a.voter_at(v) by {
            let i = a.voter_index(v);
            a.lemma_voter_lookup(i);
            assert(b.voters@[i].voter == v);
            b.lemma_voter_lookup(i);
        }
        assert forall|i: int| 0 <= i < b.elections@.len() implies {
            let d = (#[trigger] b.elections@[i]).data;
            &&& 1 <= d.candidate_threshold
            &&& 1 <= d.total_candidate
            &&& d.total_candidate as int <= d.candidate_threshold as int + 1
        } by {
            assert(a.elections@[i] == b.elections@[i]);
        }
        assert forall|i: int| 0 <= i < b.candidates@.len() implies {
            let c = #[trigger] b.candidates@[i];
            &&& b.has_election(c.election)
            &&& 1 <= c.id
            &&& (c.id as int) < b.election_at(c.election).total_candidate as int
        } by {
            let c = a.candidates@[i];
            assert(a.has_election(c.election) && 1 <= c.id && (c.id as int) < a.election_at(
                c.election,
            ).total_candidate as int);
        }
        assert forall|i: int, id: u8|
            0 <= i < b.elections@.len() && 1 <= id && (id as int)
                < b.elections@[i].data.total_candidate as int implies #[trigger] b.has_candidate(
            (#[trigger] b.elections@[i]).key,
            id,
        ) by {
            assert(a.has_candidate(a.elections@[i].key, id));
        }
        assert forall|i: int| 0 <= i < b.candidates@.len() implies (
        #[trigger] b.candidates@[i]).total_votes as int <= b.voters@.len() as int by {
            assert(a.candidates@[i].total_votes as int <= a.voters@.len() as int);
        }
    }

    /// An index holding address `key` is the index every election lookup at
    /// `key` resolves to: addresses are unique.
    pub proof fn lemma_election_lookup(self, i: int)
        requires
            self.election_keys_unique(),
            0 <= i < self.elections@.len(),
        ensures
            self.has_election(self.elections@[i].key),
            self.election_index(self.elections@[i].key) == i,
            self.election_at(self.elections@[i].key) == self.elections@[i].data,
    {
        let key = self.elections@[i].key;
        assert(self.has_election(key));
        let j = self.election_index(key);
        if i < j {
            assert(self.elections@[i].key != self.elections@[j].key);
        } else if j < i {
            assert(self.elections@[j].key != self.elections@[i].key);
        }
    }

    /// An index holding key `(election, id)` is the index every candidate
    /// lookup at that key resolves to: candidate keys are unique.
    pub proof fn lemma_candidate_lookup(self, i: int)
        requires
            self.candidate_ids_unique(),
            0 <= i < self.candidates@.len(),
        ensures
            self.has_candidate(self.candidates@[i].election, self.candidates@[i].id),
            self.candidate_index(self.candidates@[i].election, self.candidates@[i].id) == i,
            self.candidate_at(self.candidates@[i].election, self.candidates@[i].id)
                == self.candidates@[i],
    {
        let election = self.candidates@[i].election;
        let id = self.candidates@[i].id;
        assert(self.has_candidate(election, id));
        let j = self.candidate_index(election, id);
        if i < j {
            assert(!(self.candidates@[i].election == self.candidates@[j].election
                && self.candidates@[i].id == self.candidates@[j].id));
        } else if j < i {
            assert(!(self.candidates@[j].election == self.candidates@[i].election
                && self.candidates@[j].id == self.candidates@[i].id));
        }
    }

    /// An index holding the identity `voter` is the index every vote-record
    /// lookup for that identity resolves to: voter identities are unique.
    pub proof fn lemma_voter_lookup(self, i: int)
        requires
            self.voters_unique(),
            0 <= i < self.voters@.len(),
        ensures
            self.has_voter(self.voters@[i].voter),
            self.voter_index(self.voters@[i].voter) == i,
            self.voter_at(self.voters@[i].voter) == self.voters@[i],
    {
        let voter = self.voters@[i].voter;
        assert(self.has_voter(voter));
        let j = self.voter_index(voter);
        if i < j {
            assert(self.voters@[i].voter != self.voters@[j].voter);
        } else if j < i {
            assert(self.voters@[j].voter != self.voters@[i].voter);
        }
    }

    /// Look up the index of the election record at address `key`.
    fn find_election(&self, key: Pubkey) -> (r: Option<usize>)
        requires
            self.election_keys_unique(),
        ensures
            r.is_some() <==> self.has_election(key),
            r.is_some() ==> {
                let i = r.unwrap() as int;
                &&& 0 <= i < self.elections@.len()
                &&& self.elections@[i].key == key
                &&& self.election_index(key) == i
                &&& self.election_at(key) == self.elections@[i].data
            },
    {
        let n = self.elections.len();
        let mut i: usize = 0;
        while i < n
            invariant
                self.election_keys_unique(),
                n == self.elections@.len(),
                i <= n,
                forall|k: int| 0 <= k < i ==> (#[trigger] self.elections@[k]).key != key,
            decreases n - i,
        {
            if self.elections[i].key == key {
                proof {
                    self.lemma_election_lookup(i as int);
                }
                return Some(i);
            }
            i = i + 1;
        }
        None
    }

    /// Look up the index of the candidate record keyed `(election, id)`.
    fn find_candidate(&self, election: Pubkey, id: u8) -> (r: Option<usize>)
        requires
            self.candidate_ids_unique(),
        ensures
            r.is_some() <==> self.has_candidate(election, id),
            r.is_some() ==> {
                let i = r.unwrap() as int;
                &&& 0 <= i < self.candidates@.len()
                &&& self.candidates@[i].election == election
                &&& self.candidates@[i].id == id
                &&& self.candidate_index(election, id) == i
                &&& self.candidate_at(election, id) == self.candidates@[i]
            },
    {
        let n = self.candidates.len();
        let mut i: usize = 0;
        while i < n
            invariant
                self.candidate_ids_unique(),
                n == self.candidates@.len(),
                i <= n,
                forall|k: int|
                    0 <= k < i ==> !((#[trigger] self.candidates@[k]).election == election
                        && self.candidates@[k].id == id),
            decreases n - i,
        {
            if self.candidates[i].election == election && self.candidates[i].id == id {
                proof {
                    self.lemma_candidate_lookup(i as int);
                }
                return Some(i);
            }
            i = i + 1;
        }
        None
    }

    /// Look up the index of the vote record keyed by identity `voter`.
    fn find_voter(&self, voter: Pubkey) -> (r: Option<usize>)
        requires
            self.voters_unique(),
        ensures
            r.is_some() <==> self.has_voter(voter),
            r.is_some() ==> {
                let i = r.unwrap() as int;
                &&& 0 <= i < self.voters@.len()
                &&& self.voters@[i].voter == voter
                &&& self.voter_index(voter) == i
                &&& self.voter_at(voter) == self.voters@[i]
            },
    {
        let n = self.voters.len();
        let mut i: usize = 0;
        while i < n
            invariant
                self.voters_unique(),
                n == self.voters@.len(),
                i <= n,
                forall|k: int| 0 <= k < i ==> (#[trigger] self.voters@[k]).voter != voter,
            decreases n - i,
        {
            if self.voters[i].voter == voter {
                proof {
                    self.lemma_voter_lookup(i as int);
                }
                return Some(i);
            }
            i = i + 1;
        }
        None
    }

    /// Open a new election on behalf of `signer`, storing it at the fresh
    /// address `election_key`. The environment derives fresh addresses, so
    /// creation never collides with a stored election.
    ///
    /// A zero threshold fails with
    /// `CandidateThresholdShouldBeGreaterThanZero` and leaves the store
    /// untouched. On success the new election is stored at `election_key`,
    /// in `RegisterPhase`, with its counter at 1 and `signer` as initiator;
    /// no other record changes.
    pub fn initialize(
        &mut self,
        signer: Pubkey,
        election_key: Pubkey,
        candidate_threshold: u8,
    ) -> (r: Result<(), ElectionError>)
        requires
            old(self).wf(),
            !old(self).has_election(election_key),
        ensures
            final(self).wf(),
            candidate_threshold == 0 ==> r == Err::<(), ElectionError>(
                ElectionError::CandidateThresholdShouldBeGreaterThanZero,
            ) && final(self).same_records(*old(self)),
            candidate_threshold > 0 ==> {
                &&& r == Ok::<(), ElectionError>(())
                &&& final(self).elections@ == old(self).elections@.push(
                    (ElectionAccount {
                        key: election_key,
                        data: ElectionData {
                            total_candidate: 1,
                            candidate_threshold,
                            initiator: signer,
                            phase: ElectionPhase::RegisterPhase,
                        },
                    }),
                )
                &&& final(self).candidates@ == old(self).candidates@
                &&& final(self).voters@ == old(self).voters@
                &&& final(self).has_election(election_key)
                &&& final(self).election_at(election_key) == (ElectionData {
                    total_candidate: 1,
                    candidate_threshold,
                    initiator: signer,
                    phase: ElectionPhase::RegisterPhase,
                })
                &&& forall|k: Pubkey|
                    k != election_key ==> final(self).has_election(k) == old(self).has_election(k)
                &&& forall|k: Pubkey|
                    k != election_key && old(self).has_election(k) ==> final(self).election_at(k)
                        == old(self).election_at(k)
                &&& forall|k: Pubkey, id: u8|
                    final(self).has_candidate(k, id) == old(self).has_candidate(k, id)
                &&& forall|k: Pubkey, id: u8|
                    old(self).has_candidate(k, id) ==> final(self).candidate_at(k, id) == old(
                        self,
                    ).candidate_at(k, id)
                &&& forall|v: Pubkey| final(self).has_voter(v) == old(self).has_voter(v)
                &&& forall|v: Pubkey|
                    old(self).has_voter(v) ==> final(self).voter_at(v) == old(self).voter_at(v)
            },
    {
        let created = match commands::initialize(signer, candidate_threshold) {
            Ok(data) => data,
            Err(e) => {
                return Err(e);
            },
        };
        let account = ElectionAccount { key: election_key, data: created };
        self.elections.push(account);
        proof {
            let pre = *old(self);
            let post = *self;
            let n = pre.elections@.len() as int;
            // Addresses stay unique: the fresh address matches no stored one.
            assert forall|i: int, j: int|
                0 <= i < j < post.elections@.len() implies (#[trigger] post.elections@[i]).key != (
            #[trigger] post.elections@[j]).key by {
                if j < n {
                    assert(pre.elections@[i].key != pre.elections@[j].key);
                } else {
                    assert(post.elections@[j].key == election_key);
                    if pre.elections@[i].key == election_key {
                        assert(pre.has_election(election_key));
                    }
                }
            }
            // Lookups at other addresses resolve as before.
            assert forall|k: Pubkey| k != election_key && pre.has_election(k) implies post.election_at(
                k,
            ) == pre.election_at(k) && post.has_election(k) by {
                let i = pre.election_index(k);
                pre.lemma_election_lookup(i);
                assert(post.elections@[i].key == k);
                post.lemma_election_lookup(i);
            }
            assert forall|k: Pubkey| k != election_key && post.has_election(k) implies pre.has_election(
                k,
            ) by {
                let i = post.election_index(k);
                assert(post.elections@[i].key == k);
                assert(i < n);
                assert(pre.elections@[i].key == k);
            }
            post.lemma_election_lookup(n);
            // Candidates still point at stored elections with unchanged
            // counters, and every taken id stays taken.
            assert forall|i: int| 0 <= i < post.candidates@.len() implies {
                let c = #[trigger] post.candidates@[i];
                &&& post.has_election(c.election)
                &&& 1 <= c.id
                &&& (c.id as int) < post.election_at(c.election).total_candidate as int
            } by {
                let c = post.candidates@[i];
                assert(pre.has_election(c.election));
                if c.election == election_key {
                    assert(false);
                }
            }
            assert forall|i: int, id: u8|
                0 <= i < post.elections@.len() && 1 <= id && (id as int)
                    < post.elections@[i].data.total_candidate as int implies #[trigger] post.has_candidate(
                (#[trigger] post.elections@[i]).key,
                id,
            ) by {
                if i < n {
                    assert(pre.has_candidate(pre.elections@[i].key, id));
                    let w = pre.candidate_index(pre.elections@[i].key, id);
                    assert(post.candidates@[w].election == post.elections@[i].key
                        && post.candidates@[w].id == id);
                }
            }
            // Candidate and vote records are untouched, so their lookups
            // resolve as before.
            assert forall|k: Pubkey, id: u8| post.has_candidate(k, id) == pre.has_candidate(
                k,
                id,
            ) by {
                if pre.has_candidate(k, id) {
                    let w = pre.candidate_index(k, id);
                    assert(post.candidates@[w].election == k && post.candidates@[w].id == id);
                }
                if post.has_candidate(k, id) {
                    let w = post.candidate_index(k, id);
                    assert(pre.candidates@[w].election == k && pre.candidates@[w].id == id);
                }
            }
            assert forall|k: Pubkey, id: u8| pre.has_candidate(k, id) implies post.candidate_at(
                k,
                id,
            ) == pre.candidate_at(k, id) by {
                let w = pre.candidate_index(k, id);
                pre.lemma_candidate_lookup(w);
                assert(post.candidates@[w].election == k && post.candidates@[w].id == id);
                post.lemma_candidate_lookup(w);
            }
            assert forall|v: Pubkey| post.has_voter(v) == pre.has_voter(v) by {
                if pre.has_voter(v) {
                    let w = pre.voter_index(v);
                    assert(post.voters@[w].voter == v);
                }
                if post.has_voter(v) {
                    let w = post.voter_index(v);
                    assert(pre.voters@[w].voter == v);
                }
            }
            assert forall|v: Pubkey| pre.has_voter(v) implies post.voter_at(v) == pre.voter_at(
                v,
            ) by {
                let w = pre.voter_index(v);
                pre.lemma_voter_lookup(w);
                assert(post.voters@[w].voter == v);
                post.lemma_voter_lookup(w);
            }
        }
        Ok(())
    }

    /// Register a candidate named `name` on behalf of `signer` in the
    /// election stored at `election_key`, creating the candidate record
    /// under the key `(election_key, id)` the counter derives.
    ///
    /// Fails with `RegisterPhaseIsClosed` outside `RegisterPhase` and with
    /// `CandidateIsFull` once the counter has passed the threshold; both
    /// leave the store untouched. On admission the returned id is the
    /// counter's old value, the new candidate record starts with no votes,
    /// the election's counter moves up by one, and nothing else changes.
    pub fn register(&mut self, signer: Pubkey, election_key: Pubkey, name: String) -> (r: Result<
        u8,
        ElectionError,
    >)
        requires
            old(self).wf(),
            old(self).has_election(election_key),
        ensures
            final(self).wf(),
            ({
                let e = old(self).election_at(election_key);
                &&& (e.phase != ElectionPhase::RegisterPhase ==> r == Err::<u8, ElectionError>(
                    ElectionError::RegisterPhaseIsClosed,
                ) && final(self).same_records(*old(self)))
                &&& (e.phase == ElectionPhase::RegisterPhase && !commands::register_admitted(e)
                    ==> r == Err::<u8, ElectionError>(ElectionError::CandidateIsFull)
                        && final(self).same_records(*old(self)))
                &&& (commands::register_admitted(e) ==> {
                    &&& r == Ok::<u8, ElectionError>(e.total_candidate)
                    &&& final(self).voters@ == old(self).voters@
                    &&& final(self).elections@.len() == old(self).elections@.len()
                    &&& final(self).candidates@ == old(self).candidates@.push(
                        (CandidateData {
                            id: e.total_candidate,
                            signer,
                            name,
                            total_votes: 0,
                            election: election_key,
                        }),
                    )
                    &&& final(self).has_election(election_key)
                    &&& final(self).election_at(election_key) == (ElectionData {
                        total_candidate: (e.total_candidate + 1) as u8,
                        candidate_threshold: e.candidate_threshold,
                        initiator: e.initiator,
                        phase: e.phase,
                    })
                    &&& final(self).has_candidate(election_key, e.total_candidate)
                    &&& final(self).candidate_at(election_key, e.total_candidate)
                        == (CandidateData {
                        id: e.total_candidate,
                        signer,
                        name,
                        total_votes: 0,
                        election: election_key,
                    })
                    &&& forall|k: Pubkey|
                        final(self).has_election(k) == old(self).has_election(k)
                    &&& forall|k: Pubkey|
                        k != election_key && old(self).has_election(k)
                            ==> final(self).election_at(k) == old(self).election_at(k)
                    &&& forall|k: Pubkey, id: u8|
                        old(self).has_candidate(k, id) ==> final(self).has_candidate(k, id)
                            && final(self).candidate_at(k, id) == old(self).candidate_at(k, id)
                    &&& forall|v: Pubkey| final(self).has_voter(v) == old(self).has_voter(v)
                    &&& forall|v: Pubkey|
                        old(self).has_voter(v) ==> final(self).voter_at(v) == old(
                            self,
                        ).voter_at(v)
                })
            }),
    {
        let found = self.find_election(election_key);
        let idx = found.unwrap();
        let mut acct = self.elections[idx];
        let candidate = match commands::register(signer, election_key, &mut acct.data, name) {
            Ok(candidate) => candidate,
            Err(e) => {
                return Err(e);
            },
        };
        let id = candidate.id;
        self.elections[idx] = acct;
        self.candidates.push(candidate);
        proof {
            let pre = *old(self);
            let post = *self;
            let e = pre.election_at(election_key);
            let n = pre.elections@.len() as int;
            let m = pre.candidates@.len() as int;
            // Addresses are untouched, so they stay unique, and lookups at
            // every address still resolve to the same index.
            assert forall|i: int| 0 <= i < n implies (#[trigger] post.elections@[i]).key
                == pre.elections@[i].key by {}
            assert forall|i: int, j: int|
                0 <= i < j < post.elections@.len() implies (#[trigger] post.elections@[i]).key != (
            #[trigger] post.elections@[j]).key by {
                assert(pre.elections@[i].key != pre.elections@[j].key);
            }
            post.lemma_election_lookup(idx as int);
            assert forall|k: Pubkey| post.has_election(k) == pre.has_election(k) by {
                if pre.has_election(k) {
                    let i = pre.election_index(k);
                    assert(post.elections@[i].key == k);
                }
                if post.has_election(k) {
                    let i = post.election_index(k);
                    assert(pre.elections@[i].key == k);
                }
            }
            assert forall|k: Pubkey| k != election_key && pre.has_election(k) implies post.election_at(
                k,
            ) == pre.election_at(k) by {
                let i = pre.election_index(k);
                pre.lemma_election_lookup(i);
                assert(post.elections@[i].key == k);
                post.lemma_election_lookup(i);
            }
            // Every stored election still respects its creation constraints:
            // only this election's counter moved, and only one step, while
            // the counter had not passed the threshold.
            assert forall|i: int| 0 <= i < post.elections@.len() implies {
                let d = (#[trigger] post.elections@[i]).data;
                &&& 1 <= d.candidate_threshold
                &&& 1 <= d.total_candidate
                &&& d.total_candidate as int <= d.candidate_threshold as int + 1
            } by {
                if i != idx as int {
                    assert(post.elections@[i].data == pre.elections@[i].data);
                }
            }
            // The new candidate's key is fresh: every stored candidate of
            // this election has an id the counter had already passed.
            assert forall|i: int, j: int|
                0 <= i < j < post.candidates@.len() implies !((
            #[trigger] post.candidates@[i]).election == (#[trigger] post.candidates@[j]).election
                && post.candidates@[i].id == post.candidates@[j].id) by {
                if j == m {
                    let c = pre.candidates@[i];
                    assert(c == post.candidates@[i]);
                    if c.election == election_key {
                        assert((c.id as int) < e.total_candidate as int);
                    }
                } else {
                    assert(!(pre.candidates@[i].election == pre.candidates@[j].election
                        && pre.candidates@[i].id == pre.candidates@[j].id));
                }
            }
            post.lemma_candidate_lookup(m);
            // Every candidate, the new one included, still points at a
            // stored election whose counter has passed its id.
            assert forall|i: int| 0 <= i < post.candidates@.len() implies {
                let c = #[trigger] post.candidates@[i];
                &&& post.has_election(c.election)
                &&& 1 <= c.id
                &&& (c.id as int) < post.election_at(c.election).total_candidate as int
            } by {
                let c = post.candidates@[i];
                if i < m {
                    assert(c == pre.candidates@[i]);
                    assert(pre.has_election(c.election));
                    if c.election == election_key {
                        assert((c.id as int) < e.total_candidate as int);
                    } else {
                        assert(post.election_at(c.election) == pre.election_at(c.election));
                    }
                }
            }
            // Every id below a counter is still taken: old ids keep their
            // records, and the one id this counter passed is the new record.
            assert forall|i: int, id: u8|
                0 <= i < post.elections@.len() && 1 <= id && (id as int)
                    < post.elections@[i].data.total_candidate as int implies #[trigger] post.has_candidate(
                (#[trigger] post.elections@[i]).key,
                id,
            ) by {
                let key = post.elections@[i].key;
                if i == idx as int && id == e.total_candidate {
                    assert(post.candidates@[m].election == key && post.candidates@[m].id == id);
                } else {
                    assert((id as int) < pre.elections@[i].data.total_candidate as int);
                    assert(pre.has_candidate(pre.elections@[i].key, id));
                    let w = pre.candidate_index(key, id);
                    assert(post.candidates@[w].election == key && post.candidates@[w].id == id);
                }
            }
            // Tallies and ballots are untouched; the new record has none.
            assert forall|i: int| 0 <= i < post.candidates@.len() implies (
            #[trigger] post.candidates@[i]).total_votes as int <= post.voters@.len() as int by {
                if i < m {
                    assert(post.candidates@[i] == pre.candidates@[i]);
                }
            }
            // Stored candidates and vote records keep their lookups.
            assert forall|k: Pubkey, id2: u8| pre.has_candidate(k, id2) implies post.has_candidate(
                k,
                id2,
            ) && post.candidate_at(k, id2) == pre.candidate_at(k, id2) by {
                let w = pre.candidate_index(k, id2);
                pre.lemma_candidate_lookup(w);
                assert(post.candidates@[w].election == k && post.candidates@[w].id == id2);
                post.lemma_candidate_lookup(w);
            }
            assert forall|v: Pubkey| post.has_voter(v) == pre.has_voter(v) by {
                if pre.has_voter(v) {
                    let w = pre.voter_index(v);
                    assert(post.voters@[w].voter == v);
                }
                if post.has_voter(v) {
                    let w = post.voter_index(v);
                    assert(pre.voters@[w].voter == v);
                }
            }
            assert forall|v: Pubkey| pre.has_voter(v) implies post.voter_at(v) == pre.voter_at(
                v,
            ) by {
                let w = pre.voter_index(v);
                pre.lemma_voter_lookup(w);
                assert(post.voters@[w].voter == v);
                post.lemma_voter_lookup(w);
            }
        }
        Ok(id)
    }

    /// Cast `signer`'s vote in the election stored at `election_key`, for
    /// the candidate stored under `(candidate_election, candidate_id)`. The
    /// vote record is created under a key derived from `signer` alone, by
    /// compare-and-create: a colliding record is the sole guard against
    /// double voting.
    ///
    /// Fails with `VotingPhaseIsClosed` outside `VotingOpenPhase`, with
    /// `AlreadyVoted` when a vote record keyed by `signer` exists, and with
    /// `CrossElectionMismatch` when the candidate was registered in another
    /// election; every failure leaves the store untouched. On admission the
    /// candidate's tally moves up by one, the new vote record points at the
    /// candidate's id, and nothing else changes.
    pub fn vote(
        &mut self,
        signer: Pubkey,
        election_key: Pubkey,
        candidate_election: Pubkey,
        candidate_id: u8,
    ) -> (r: Result<Voter, ElectionError>)
        requires
            old(self).wf(),
            old(self).has_election(election_key),
            old(self).has_candidate(candidate_election, candidate_id),
            old(self).voters@.len() < u64::MAX,
        ensures
            final(self).wf(),
            ({
                let e = old(self).election_at(election_key);
                let c = old(self).candidate_at(election_key, candidate_id);
                &&& (e.phase != ElectionPhase::VotingOpenPhase ==> r == Err::<
                    Voter,
                    ElectionError,
                >(ElectionError::VotingPhaseIsClosed) && final(self).same_records(*old(self)))
                &&& (e.phase == ElectionPhase::VotingOpenPhase && old(self).has_voter(signer)
                    ==> r == Err::<Voter, ElectionError>(ElectionError::AlreadyVoted)
                        && final(self).same_records(*old(self)))
                &&& (e.phase == ElectionPhase::VotingOpenPhase && !old(self).has_voter(signer)
                    && candidate_election != election_key ==> r == Err::<Voter, ElectionError>(
                    ElectionError::CrossElectionMismatch,
                ) && final(self).same_records(*old(self)))
                &&& (e.phase == ElectionPhase::VotingOpenPhase && !old(self).has_voter(signer)
                    && candidate_election == election_key ==> {
                    &&& r == Ok::<Voter, ElectionError>(
                        (Voter { selected_candidate_id: candidate_id, voter: signer }),
                    )
                    &&& final(self).elections@ == old(self).elections@
                    &&& final(self).candidates@.len() == old(self).candidates@.len()
                    &&& final(self).voters@ == old(self).voters@.push(
                        (Voter { selected_candidate_id: candidate_id, voter: signer }),
                    )
                    &&& final(self).has_voter(signer)
                    &&& final(self).voter_at(signer) == (Voter {
                        selected_candidate_id: candidate_id,
                        voter: signer,
                    })
                    &&& final(self).candidate_at(election_key, candidate_id) == (CandidateData {
                        id: c.id,
                        signer: c.signer,
                        name: c.name,
                        total_votes: (c.total_votes + 1) as u64,
                        election: c.election,
                    })
                    &&& forall|k: Pubkey, id: u8|
                        final(self).has_candidate(k, id) == old(self).has_candidate(k, id)
                    &&& forall|k: Pubkey, id: u8|
                        !(k == election_key && id == candidate_id) && old(self).has_candidate(
                            k,
                            id,
                        ) ==> final(self).candidate_at(k, id) == old(self).candidate_at(k, id)
                    &&& forall|v: Pubkey|
                        v != signer ==> final(self).has_voter(v) == old(self).has_voter(v)
                    &&& forall|v: Pubkey|
                        v != signer && old(self).has_voter(v) ==> final(self).voter_at(v) == old(
                            self,
                        ).voter_at(v)
                    &&& forall|k: Pubkey|
                        final(self).has_election(k) == old(self).has_election(k)
                    &&& forall|k: Pubkey|
                        old(self).has_election(k) ==> final(self).election_at(k) == old(
                            self,
                        ).election_at(k)
                })
            }),
    {
        let efound = self.find_election(election_key);
        let eidx = efound.unwrap();
        let election_data = self.elections[eidx].data;
        let already_voted = self.find_voter(signer).is_some();
        let cfound = self.find_candidate(candidate_election, candidate_id);
        let cidx = cfound.unwrap();
        let ghost pre = *self;
        proof {
            // The tally bound keeps the increment below the counter's
            // ceiling: no more votes than stored ballots.
            assert(pre.candidates@[cidx as int].total_votes as int <= pre.voters@.len() as int);
        }
        let record = match commands::vote(
            signer,
            election_key,
            &election_data,
            &mut self.candidates[cidx],
            already_voted,
        ) {
            Ok(record) => record,
            Err(e) => {
                proof {
                    assert(self.candidates@ =~= pre.candidates@);
                    Ledger::lemma_same_records_wf(pre, *self);
                }
                return Err(e);
            },
        };
        self.voters.push(record);
        proof {
            let post = *self;
            let m = pre.candidates@.len() as int;
            let v = pre.voters@.len() as int;
            let c = pre.candidates@[cidx as int];
            // Only this candidate's tally moved; every key field is as it
            // was, so candidate keys stay unique and lookups resolve to the
            // same index.
            assert forall|i: int| 0 <= i < m implies (#[trigger] post.candidates@[i]).election
                == pre.candidates@[i].election && post.candidates@[i].id == pre.candidates@[i].id
                && (i != cidx as int ==> post.candidates@[i] == pre.candidates@[i]) by {}
            assert forall|i: int, j: int|
                0 <= i < j < post.candidates@.len() implies !((
            #[trigger] post.candidates@[i]).election == (#[trigger] post.candidates@[j]).election
                && post.candidates@[i].id == post.candidates@[j].id) by {
                assert(!(pre.candidates@[i].election == pre.candidates@[j].election
                    && pre.candidates@[i].id == pre.candidates@[j].id));
            }
            assert forall|k: Pubkey, id: u8| post.has_candidate(k, id) == pre.has_candidate(
                k,
                id,
            ) by {
                if pre.has_candidate(k, id) {
                    let w = pre.candidate_index(k, id);
                    assert(post.candidates@[w].election == k && post.candidates@[w].id == id);
                }
                if post.has_candidate(k, id) {
                    let w = post.candidate_index(k, id);
                    assert(pre.candidates@[w].election == k && pre.candidates@[w].id == id);
                }
            }
            post.lemma_candidate_lookup(cidx as int);
            assert forall|k: Pubkey, id: u8|
                !(k == election_key && id == candidate_id) && pre.has_candidate(
                    k,
                    id,
                ) implies post.candidate_at(k, id) == pre.candidate_at(k, id) by {
                let w = pre.candidate_index(k, id);
                pre.lemma_candidate_lookup(w);
                assert(post.candidates@[w].election == k && post.candidates@[w].id == id);
                post.lemma_candidate_lookup(w);
                assert(w != cidx as int);
            }
            // The new ballot's identity holds no stored record, so voter
            // identities stay unique.
            assert forall|i: int, j: int|
                0 <= i < j < post.voters@.len() implies (#[trigger] post.voters@[i]).voter != (
            #[trigger] post.voters@[j]).voter by {
                if j == v {
                    if pre.voters@[i].voter == signer {
                        assert(pre.has_voter(signer));
                    }
                } else {
                    assert(pre.voters@[i].voter != pre.voters@[j].voter);
                }
            }
            post.lemma_voter_lookup(v);
            assert forall|w: Pubkey| w != signer implies post.has_voter(w) == pre.has_voter(
                w,
            ) by {
                if pre.has_voter(w) {
                    let i = pre.voter_index(w);
                    assert(post.voters@[i].voter == w);
                }
                if post.has_voter(w) {
                    let i = post.voter_index(w);
                    assert(i < v);
                    assert(pre.voters@[i].voter == w);
                }
            }
            assert forall|w: Pubkey| w != signer && pre.has_voter(w) implies post.voter_at(w)
                == pre.voter_at(w) by {
                let i = pre.voter_index(w);
                pre.lemma_voter_lookup(i);
                assert(post.voters@[i].voter == w);
                post.lemma_voter_lookup(i);
            }
            // Every candidate still points at its unchanged election, and
            // each id below a counter keeps its record.
            assert forall|i: int| 0 <= i < post.candidates@.len() implies {
                let d = #[trigger] post.candidates@[i];
                &&& post.has_election(d.election)
                &&& 1 <= d.id
                &&& (d.id as int) < post.election_at(d.election).total_candidate as int
            } by {
                let d0 = pre.candidates@[i];
                assert(pre.has_election(d0.election) && 1 <= d0.id && (d0.id as int)
                    < pre.election_at(d0.election).total_candidate as int);
            }
            assert forall|i: int, id: u8|
                0 <= i < post.elections@.len() && 1 <= id && (id as int)
                    < post.elections@[i].data.total_candidate as int implies #[trigger] post.has_candidate(
                (#[trigger] post.elections@[i]).key,
                id,
            ) by {
                assert(pre.has_candidate(pre.elections@[i].key, id));
            }
            // One more ballot than before still bounds every tally.
            assert forall|i: int| 0 <= i < post.candidates@.len() implies (
            #[trigger] post.candidates@[i]).total_votes as int <= post.voters@.len() as int by {
                assert(pre.candidates@[i].total_votes as int <= v);
            }
            // Election records are untouched, so their lookups resolve as
            // before.
            assert forall|k: Pubkey| post.has_election(k) == pre.has_election(k) by {
                if pre.has_election(k) {
                    let w = pre.election_index(k);
                    assert(post.elections@[w].key == k);
                }
                if post.has_election(k) {
                    let w = post.election_index(k);
                    assert(pre.elections@[w].key == k);
                }
            }
            assert forall|k: Pubkey| pre.has_election(k) implies post.election_at(k)
                == pre.election_at(k) by {
                let w = pre.election_index(k);
                pre.lemma_election_lookup(w);
                assert(post.elections@[w].key == k);
                post.lemma_election_lookup(w);
            }
        }
        Ok(record)
    }

    /// Set the phase of the election stored at `election_key` to `phase` on
    /// behalf of `signer`.
    ///
    /// Only the election's initiator may do this; any other caller fails
    /// with `Unauthorized` and the store is untouched. No ordering between
    /// phases is enforced. On success only the phase changes: counter,
    /// threshold, initiator and every other record stay as they were.
    pub fn change_phase(&mut self, signer: Pubkey, election_key: Pubkey, phase: ElectionPhase) -> (r:
        Result<(), ElectionError>)
        requires
            old(self).wf(),
            old(self).has_election(election_key),
        ensures
            final(self).wf(),
            ({
                let e = old(self).election_at(election_key);
                &&& (!commands::may_change_phase(e, signer) ==> r == Err::<(), ElectionError>(
                    ElectionError::Unauthorized,
                ) && final(self).same_records(*old(self)))
                &&& (commands::may_change_phase(e, signer) ==> {
                    &&& r == Ok::<(), ElectionError>(())
                    &&& final(self).candidates@ == old(self).candidates@
                    &&& final(self).voters@ == old(self).voters@
                    &&& final(self).elections@.len() == old(self).elections@.len()
                    &&& final(self).has_election(election_key)
                    &&& final(self).election_at(election_key) == (ElectionData {
                        total_candidate: e.total_candidate,
                        candidate_threshold: e.candidate_threshold,
                        initiator: e.initiator,
                        phase,
                    })
                    &&& forall|k: Pubkey|
                        final(self).has_election(k) == old(self).has_election(k)
                    &&& forall|k: Pubkey|
                        k != election_key && old(self).has_election(k)
                            ==> final(self).election_at(k) == old(self).election_at(k)
                    &&& forall|k: Pubkey, id: u8|
                        final(self).has_candidate(k, id) == old(self).has_candidate(k, id)
                    &&& forall|k: Pubkey, id: u8|
                        old(self).has_candidate(k, id) ==> final(self).candidate_at(k, id) == old(
                            self,
                        ).candidate_at(k, id)
                    &&& forall|v: Pubkey| final(self).has_voter(v) == old(self).has_voter(v)
                    &&& forall|v: Pubkey|
                        old(self).has_voter(v) ==> final(self).voter_at(v) == old(
                            self,
                        ).voter_at(v)
                })
            }),
    {
        let found = self.find_election(election_key);
        let idx = found.unwrap();
        let mut acct = self.elections[idx];
        match commands::change_phase(signer, &mut acct.data, phase) {
            Ok(()) => {},
            Err(e) => {
                return Err(e);
            },
        }
        self.elections[idx] = acct;
        proof {
            let pre = *old(self);
            let post = *self;
            let n = pre.elections@.len() as int;
            // Addresses, counters and thresholds are all as they were; only
            // this election's phase moved.
            assert forall|i: int| 0 <= i < n implies (#[trigger] post.elections@[i]).key
                == pre.elections@[i].key && post.elections@[i].data.total_candidate
                == pre.elections@[i].data.total_candidate
                && post.elections@[i].data.candidate_threshold
                == pre.elections@[i].data.candidate_threshold && (i != idx as int
                ==> post.elections@[i] == pre.elections@[i]) by {}
            assert forall|i: int, j: int|
                0 <= i < j < post.elections@.len() implies (#[trigger] post.elections@[i]).key != (
            #[trigger] post.elections@[j]).key by {
                assert(pre.elections@[i].key != pre.elections@[j].key);
            }
            post.lemma_election_lookup(idx as int);
            assert forall|k: Pubkey| post.has_election(k) == pre.has_election(k) by {
                if pre.has_election(k) {
                    let i = pre.election_index(k);
                    assert(post.elections@[i].key == k);
                }
                if post.has_election(k) {
                    let i = post.election_index(k);
                    assert(pre.elections@[i].key == k);
                }
            }
            assert forall|k: Pubkey| k != election_key && pre.has_election(k) implies post.election_at(
                k,
            ) == pre.election_at(k) by {
                let i = pre.election_index(k);
                pre.lemma_election_lookup(i);
                assert(post.elections@[i].key == k);
                post.lemma_election_lookup(i);
            }
            // Every candidate still points at a stored election whose
            // counter has passed its id, and every taken id stays taken.
            assert forall|i: int| 0 <= i < post.candidates@.len() implies {
                let c = #[trigger] post.candidates@[i];
                &&& post.has_election(c.election)
                &&& 1 <= c.id
                &&& (c.id as int) < post.election_at(c.election).total_candidate as int
            } by {
                let c = post.candidates@[i];
                assert(pre.has_election(c.election) && 1 <= c.id && (c.id as int)
                    < pre.election_at(c.election).total_candidate as int);
                if c.election == election_key {
                    assert(post.election_at(c.election).total_candidate == pre.election_at(
                        c.election,
                    ).total_candidate);
                } else {
                    assert(post.election_at(c.election) == pre.election_at(c.election));
                }
            }
            assert forall|i: int, id: u8|
                0 <= i < post.elections@.len() && 1 <= id && (id as int)
                    < post.elections@[i].data.total_candidate as int implies #[trigger] post.has_candidate(
                (#[trigger] post.elections@[i]).key,
                id,
            ) by {
                assert(pre.has_candidate(pre.elections@[i].key, id));
            }
            // Candidate and vote records are untouched, so their lookups
            // resolve as before.
            assert forall|k: Pubkey, id: u8| post.has_candidate(k, id) == pre.has_candidate(
                k,
                id,
            ) by {
                if pre.has_candidate(k, id) {
                    let w = pre.candidate_index(k, id);
                    assert(post.candidates@[w].election == k && post.candidates@[w].id == id);
                }
                if post.has_candidate(k, id) {
                    let w = post.candidate_index(k, id);
                    assert(pre.candidates@[w].election == k && pre.candidates@[w].id == id);
                }
            }
            assert forall|k: Pubkey, id: u8| pre.has_candidate(k, id) implies post.candidate_at(
                k,
                id,
            ) == pre.candidate_at(k, id) by {
                let w = pre.candidate_index(k, id);
                pre.lemma_candidate_lookup(w);
                assert(post.candidates@[w].election == k && post.candidates@[w].id == id);
                post.lemma_candidate_lookup(w);
            }
            assert forall|v: Pubkey| post.has_voter(v) == pre.has_voter(v) by {
                if pre.has_voter(v) {
                    let w = pre.voter_index(v);
                    assert(post.voters@[w].voter == v);
                }
                if post.has_voter(v) {
                    let w = post.voter_index(v);
                    assert(pre.voters@[w].voter == v);
                }
            }
            assert forall|v: Pubkey| pre.has_voter(v) implies post.voter_at(v) == pre.voter_at(
                v,
            ) by {
                let w = pre.voter_index(v);
                pre.lemma_voter_lookup(w);
                assert(post.voters@[w].voter == v);
                post.lemma_voter_lookup(w);
            }
        }
        Ok(())
    }

    /// The election stored at address `key`, if any.
    pub fn get_election(&self, key: Pubkey) -> (r: Option<ElectionData>)
        requires
            self.wf(),
        ensures
            r.is_some() <==> self.has_election(key),
            r.is_some() ==> r == Some(self.election_at(key)),
    {
        match self.find_election(key) {
            Some(i) => Some(self.elections[i].data),
            None => None,
        }
    }

    /// The tally of the candidate stored under `(election, id)`, if any.
    pub fn candidate_tally(&self, election: Pubkey, id: u8) -> (r: Option<u64>)
        requires
            self.wf(),
        ensures
            r.is_some() <==> self.has_candidate(election, id),
            r.is_some() ==> r == Some(self.candidate_at(election, id).total_votes),
    {
        match self.find_candidate(election, id) {
            Some(i) => Some(self.candidates[i].total_votes),
            None => None,
        }
    }

    /// The vote record cast by `voter`, if any.
    pub fn get_voter(&self, voter: Pubkey) -> (r: Option<Voter>)
        requires
            self.wf(),
        ensures
            r.is_some() <==> self.has_voter(voter),
            r.is_some() ==> r == Some(self.voter_at(voter)),
    {
        match self.find_voter(voter) {
            Some(i) => Some(self.voters[i]),
            None => None,
        }
    }

    /// Law: counter semantics. In a well-formed store an election whose id
    /// counter stands at T holds a candidate for exactly the ids 1..T-1,
    /// each exactly once — so after N admitted registrations the counter
    /// reads N + 1 and the candidate ids are exactly 1..=N, each taken by
    /// one record.
    pub proof fn lemma_candidate_ids_exact(self, key: Pubkey)
        requires
            self.wf(),
            self.has_election(key),
        ensures
            forall|id: u8|
                1 <= id && (id as int) < self.election_at(key).total_candidate as int
                    ==> #[trigger] self.has_candidate(key, id),
            forall|id: u8|
                #[trigger] self.has_candidate(key, id) ==> 1 <= id && (id as int)
                    < self.election_at(key).total_candidate as int,
            forall|i: int, j: int|
                0 <= i < j < self.candidates@.len() && (#[trigger] self.candidates@[i]).election
                    == key && (#[trigger] self.candidates@[j]).election == key
                    ==> self.candidates@[i].id != self.candidates@[j].id,
    {
        let w = self.election_index(key);
        assert(0 <= w < self.elections@.len() && self.elections@[w].key == key);
        assert forall|id: u8|
            1 <= id && (id as int)
                < self.election_at(key).total_candidate as int implies #[trigger] self.has_candidate(
            key,
            id,
        ) by {
            assert(self.has_candidate(self.elections@[w].key, id));
        }
        assert forall|id: u8| #[trigger] self.has_candidate(key, id) implies 1 <= id && (id as int)
            < self.election_at(key).total_candidate as int by {
            let i = self.candidate_index(key, id);
            assert(self.candidates@[i].election == key && self.candidates@[i].id == id);
        }
    }

    /// Law: one ballot per identity. In a well-formed store two vote
    /// records naming the same voter are the same record, so each identity
    /// has cast at most one vote across all elections.
    pub proof fn lemma_one_ballot_per_identity(self, i: int, j: int)
        requires
            self.wf(),
            0 <= i < self.voters@.len(),
            0 <= j < self.voters@.len(),
            self.voters@[i].voter == self.voters@[j].voter,
        ensures
            i == j,
    {
        if i < j {
            assert(self.voters@[i].voter != self.voters@[j].voter);
        }
        if j < i {
            assert(self.voters@[j].voter != self.voters@[i].voter);
        }
    }

    /// An empty store: no elections, no candidates, no vote records.
    pub fn new() -> (r: Ledger)
        ensures
            r.wf(),
            r.elections@ == Seq::<ElectionAccount>::empty(),
            r.candidates@ == Seq::<CandidateData>::empty(),
            r.voters@ == Seq::<Voter>::empty(),
            forall|k: Pubkey| !r.has_election(k),
            forall|k: Pubkey, id: u8| !r.has_candidate(k, id),
            forall|k: Pubkey| !r.has_voter(k),
    {
        Ledger { elections: Vec::new(), candidates: Vec::new(), voters: Vec::new() }
    }
}

} // verus!
