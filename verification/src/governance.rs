//! The governance engine: share-weighted proposals and votes. A vote's
//! weight is the voter's balance at voting time, folded into the tallies and
//! never re-read; each identity votes at most once per proposal.

use vstd::prelude::*;

use crate::lookup::find_proposal;
use crate::lookup::lemma_proposal_at_first_match;
use crate::lookup::lemma_proposal_no_match;
use crate::lookup::lemma_proposal_push;
use crate::lookup::lemma_proposal_update;
use crate::lookup::proposal_in;
use crate::state::has_voted;
use crate::state::unique_voters;
use crate::state::Core;
use crate::table::amount_of;
use crate::table::sum_for;
use crate::lookup::property_in;
use crate::types::Error;
use crate::types::Proposal;
use crate::types::ProposalStatus;
use crate::types::PropertyId;
use crate::types::UserId;
use crate::types::VoteEntry;

verus! {

/// May `voter` vote on the proposal `p` in state `pre`? The proposal must
/// be open, the identity fresh to it, and the voter must hold shares of the
/// proposal's property.
pub open spec fn can_vote(pre: Core, p: Proposal, voter: UserId) -> bool {
    &&& p.status == ProposalStatus::Open
    &&& !has_voted(p.votes@, voter)
    &&& pre.balance_of(p.property_id, voter) > 0
}

/// Machine bound a vote must respect: the tally it lands in stays within
/// `u64`. A limit of the word size, not of the voting rule.
pub open spec fn vote_fits(pre: Core, proposal_id: u64, voter: UserId) -> bool {
    match pre.spec_proposal(proposal_id) {
        Some(p) => can_vote(pre, p, voter) ==> {
            &&& p.yes_votes + pre.balance_of(p.property_id, voter) <= u64::MAX
            &&& p.no_votes + pre.balance_of(p.property_id, voter) <= u64::MAX
        },
        None => true,
    }
}

/// The transition of `vote_on_proposal(proposal_id, voter, choice)`: it
/// succeeds exactly when the proposal exists and `voter` may vote on it; the
/// vote is recorded under the voter's identity and the voter's current
/// balance is added to the chosen tally, where it stays whatever later
/// happens to the balance. Every failure is the uniform `NotVotable` and
/// changes nothing.
pub open spec fn vote_post(
    pre: Core,
    post: Core,
    proposal_id: u64,
    voter: UserId,
    choice: bool,
    r: Result<(), Error>,
) -> bool {
    &&& (r is Ok <==> match pre.spec_proposal(proposal_id) {
        Some(p) => can_vote(pre, p, voter),
        None => false,
    })
    &&& (r is Err ==> r == Err::<(), Error>(Error::NotVotable) && post == pre)
    &&& (r is Ok ==> {
        let p = pre.spec_proposal(proposal_id)->Some_0;
        let w = pre.balance_of(p.property_id, voter);
        &&& post.spec_proposal(proposal_id) is Some
        &&& {
            let q = post.spec_proposal(proposal_id)->Some_0;
            &&& q.votes@ == p.votes@.push(VoteEntry { voter, choice })
            &&& q.yes_votes == p.yes_votes + (if choice {
                w as int
            } else {
                0
            })
            &&& q.no_votes == p.no_votes + (if choice {
                0
            } else {
                w as int
            })
            &&& q == (Proposal {
                yes_votes: q.yes_votes,
                no_votes: q.no_votes,
                votes: q.votes,
                ..p
            })
        }
        &&& forall|id2: u64|
            id2 != proposal_id ==> #[trigger] post.spec_proposal(id2) == pre.spec_proposal(id2)
        &&& post == (Core { proposals: post.proposals, ..pre })
    })
}

/// The transition of `execute_proposal(proposal_id)`: an open proposal
/// closes by simple majority — strictly more yes-weight than no-weight
/// executes it, anything else (ties included) rejects it; no further effect
/// is defined. A missing or already closed proposal is `NotExecutable` and
/// changes nothing.
pub open spec fn execute_post(pre: Core, post: Core, proposal_id: u64, r: Result<
    (),
    Error,
>) -> bool {
    &&& (r is Ok <==> match pre.spec_proposal(proposal_id) {
        Some(p) => p.status == ProposalStatus::Open,
        None => false,
    })
    &&& (r is Err ==> r == Err::<(), Error>(Error::NotExecutable) && post == pre)
    &&& (r is Ok ==> {
        let p = pre.spec_proposal(proposal_id)->Some_0;
        &&& post.spec_proposal(proposal_id) == Some(
            (Proposal {
                status: if p.yes_votes > p.no_votes {
                    ProposalStatus::Executed
                } else {
                    ProposalStatus::Rejected
                },
                ..p
            }),
        )
        &&& forall|id2: u64|
            id2 != proposal_id ==> #[trigger] post.spec_proposal(id2) == pre.spec_proposal(id2)
        &&& post == (Core { proposals: post.proposals, ..pre })
    })
}

/// The proposals about property `pid`, in submission order.
pub open spec fn proposals_for(s: Seq<Proposal>, pid: PropertyId) -> Seq<Proposal>
    decreases s.len(),
{
    if s.len() == 0 {
        Seq::empty()
    } else {
        let prev = proposals_for(s.drop_last(), pid);
        if s.last().property_id == pid {
            prev.push(s.last())
        } else {
            prev
        }
    }
}

/// Do two proposal values carry the same content?
pub open spec fn proposal_eq(a: Proposal, b: Proposal) -> bool {
    &&& a.id == b.id
    &&& a.property_id == b.property_id
    &&& a.proposer == b.proposer
    &&& a.description@ == b.description@
    &&& a.status == b.status
    &&& a.yes_votes == b.yes_votes
    &&& a.no_votes == b.no_votes
    &&& a.votes@ == b.votes@
}

/// Does `v` record a vote by `voter`?
fn contains_voter(v: &Vec<VoteEntry>, voter: UserId) -> (r: bool)
    ensures
        r == has_voted(v@, voter),
{
    let mut i: usize = 0;
    while i < v.len()
        invariant
            i <= v@.len(),
            forall|j: int| 0 <= j < i ==> (#[trigger] v@[j]).voter != voter,
        decreases v@.len() - i,
    {
        if v[i].voter == voter {
            assert(has_voted(v@, voter));
            return true;
        }
        i = i + 1;
    }
    false
}

impl Core {
    /// Submits a proposal about property `pid` under the next free id, open
    /// and with empty tallies. No ownership is needed to submit, only to
    /// vote. Returns the new record.
    pub fn submit_proposal(&mut self, pid: PropertyId, description: String, proposer: UserId) -> (r:
        Proposal)
        requires
            old(self).wf(),
            old(self).next_proposal_id < u64::MAX,
        ensures
            final(self).wf(),
            r.id == old(self).next_proposal_id,
            r.property_id == pid,
            r.proposer == proposer,
            r.description@ == description@,
            r.status == ProposalStatus::Open,
            r.yes_votes == 0,
            r.no_votes == 0,
            r.votes@.len() == 0,
            final(self).next_proposal_id == old(self).next_proposal_id + 1,
            final(self).spec_proposal(r.id) is Some,
            ({
                let q = final(self).spec_proposal(r.id)->Some_0;
                &&& q.id == r.id
                &&& q.property_id == pid
                &&& q.proposer == proposer
                &&& q.description@ == description@
                &&& q.status == ProposalStatus::Open
                &&& q.yes_votes == 0
                &&& q.no_votes == 0
                &&& q.votes@.len() == 0
            }),
            forall|id2: u64|
                id2 != r.id ==> #[trigger] final(self).spec_proposal(id2) == old(
                    self,
                ).spec_proposal(id2),
            *final(self) == (Core {
                proposals: final(self).proposals,
                next_proposal_id: final(self).next_proposal_id,
                ..*old(self)
            }),
    {
        let ghost pre = *self;
        let id = self.next_proposal_id;
        self.next_proposal_id = id + 1;
        let stored = Proposal {
            id,
            property_id: pid,
            proposer,
            description,
            status: ProposalStatus::Open,
            yes_votes: 0,
            no_votes: 0,
            votes: Vec::new(),
        };
        let r = stored.clone();
        proof {
            assert(forall|j: int|
                0 <= j < pre.proposals@.len() ==> (#[trigger] pre.proposals@[j]).id != id);
        }
        self.proposals.push(stored);
        proof {
            assert forall|id2: u64|
                #[trigger] proposal_in(self.proposals@, id2) == if id2 == id {
                    Some(stored)
                } else {
                    proposal_in(pre.proposals@, id2)
                } by {
                lemma_proposal_push(pre.proposals@, stored, id2);
            }
            assert forall|p2: PropertyId|
                #[trigger] sum_for(self.ownership@, p2) == match property_in(
                    self.properties@,
                    p2,
                ) {
                    Some(p3) => p3.total_shares - p3.shares_available,
                    None => 0,
                } by {
                assert(sum_for(pre.ownership@, p2) == match property_in(pre.properties@, p2) {
                    Some(p3) => p3.total_shares - p3.shares_available,
                    None => 0,
                });
            }
        }
        r
    }

    /// Records `voter`'s vote on proposal `proposal_id`, weighted by the
    /// voter's current balance of the proposal's property.
    pub fn vote_on_proposal(&mut self, proposal_id: u64, voter: UserId, choice: bool) -> (r: Result<
        (),
        Error,
    >)
        requires
            old(self).wf(),
            vote_fits(*old(self), proposal_id, voter),
        ensures
            final(self).wf(),
            vote_post(*old(self), *final(self), proposal_id, voter, choice, r),
    {
        let ghost pre = *self;
        let i: usize;
        match find_proposal(&self.proposals, proposal_id) {
            None => {
                proof {
                    lemma_proposal_no_match(self.proposals@, proposal_id);
                }
                return Err(Error::NotVotable);
            },
            Some(idx) => {
                i = idx;
            },
        }
        proof {
            lemma_proposal_at_first_match(self.proposals@, i as int);
        }
        if !matches!(self.proposals[i].status, ProposalStatus::Open) {
            return Err(Error::NotVotable);
        }
        if contains_voter(&self.proposals[i].votes, voter) {
            return Err(Error::NotVotable);
        }
        let weight = amount_of(&self.ownership, self.proposals[i].property_id, voter);
        if weight == 0 {
            return Err(Error::NotVotable);
        }
        let mut p = self.proposals.remove(i);
        p.votes.push(VoteEntry { voter, choice });
        if choice {
            p.yes_votes = p.yes_votes + weight;
        } else {
            p.no_votes = p.no_votes + weight;
        }
        self.proposals.insert(i, p);
        proof {
            let q = self.proposals@[i as int];
            assert(self.proposals@ =~= pre.proposals@.update(i as int, q));
            assert forall|id2: u64|
                #[trigger] proposal_in(self.proposals@, id2) == if id2 == proposal_id {
                    Some(q)
                } else {
                    proposal_in(pre.proposals@, id2)
                } by {
                lemma_proposal_update(pre.proposals@, i as int, q, id2);
            }
            assert(unique_voters(q.votes@)) by {
                let pv = pre.proposals@[i as int].votes@;
                assert(q.votes@ == pv.push(VoteEntry { voter, choice }));
                assert(forall|j: int| 0 <= j < pv.len() ==> (#[trigger] pv[j]).voter != voter);
                assert(forall|j: int|
                    0 <= j < pv.len() ==> q.votes@[j] == pv[j]);
                assert(q.votes@[pv.len() as int].voter == voter);
            }
            assert forall|p2: PropertyId|
                #[trigger] sum_for(self.ownership@, p2) == match property_in(
                    self.properties@,
                    p2,
                ) {
                    Some(p3) => p3.total_shares - p3.shares_available,
                    None => 0,
                } by {
                assert(sum_for(pre.ownership@, p2) == match property_in(pre.properties@, p2) {
                    Some(p3) => p3.total_shares - p3.shares_available,
                    None => 0,
                });
            }
        }
        Ok(())
    }

    /// Reads all proposals about property `pid`, in submission order.
    pub fn get_proposals(&self, pid: PropertyId) -> (r: Vec<Proposal>)
        ensures
            r@.len() == proposals_for(self.proposals@, pid).len(),
            forall|k: int|
                0 <= k < r@.len() ==> proposal_eq(
                    #[trigger] r@[k],
                    proposals_for(self.proposals@, pid)[k],
                ),
    {
        let mut r: Vec<Proposal> = Vec::new();
        let mut i: usize = 0;
        proof {
            assert(self.proposals@.take(0) =~= Seq::<Proposal>::empty());
        }
        while i < self.proposals.len()
            invariant
                i <= self.proposals@.len(),
                r@.len() == proposals_for(self.proposals@.take(i as int), pid).len(),
                forall|k: int|
                    0 <= k < r@.len() ==> proposal_eq(
                        #[trigger] r@[k],
                        proposals_for(self.proposals@.take(i as int), pid)[k],
                    ),
            decreases self.proposals@.len() - i,
        {
            proof {
                assert(self.proposals@.take(i + 1 as int).drop_last() =~= self.proposals@.take(
                    i as int,
                ));
                assert(self.proposals@.take(i + 1 as int).last() == self.proposals@[i as int]);
            }
            if self.proposals[i].property_id == pid {
                r.push(self.proposals[i].clone());
            }
            i = i + 1;
        }
        proof {
            assert(self.proposals@.take(self.proposals@.len() as int) =~= self.proposals@);
        }
        r
    }

    /// Closes an open proposal by simple majority: strictly more yes-weight
    /// executes it, anything else rejects it.
    pub fn execute_proposal(&mut self, proposal_id: u64) -> (r: Result<(), Error>)
        requires
            old(self).wf(),
        ensures
            final(self).wf(),
            execute_post(*old(self), *final(self), proposal_id, r),
    {
        let ghost pre = *self;
        let i: usize;
        match find_proposal(&self.proposals, proposal_id) {
            None => {
                proof {
                    lemma_proposal_no_match(self.proposals@, proposal_id);
                }
                return Err(Error::NotExecutable);
            },
            Some(idx) => {
                i = idx;
            },
        }
        proof {
            lemma_proposal_at_first_match(self.proposals@, i as int);
        }
        if !matches!(self.proposals[i].status, ProposalStatus::Open) {
            return Err(Error::NotExecutable);
        }
        let mut p = self.proposals.remove(i);
        if p.yes_votes > p.no_votes {
            p.status = ProposalStatus::Executed;
        } else {
            p.status = ProposalStatus::Rejected;
        }
        self.proposals.insert(i, p);
        proof {
            let q = self.proposals@[i as int];
            assert(self.proposals@ =~= pre.proposals@.update(i as int, q));
            assert forall|id2: u64|
                #[trigger] proposal_in(self.proposals@, id2) == if id2 == proposal_id {
                    Some(q)
                } else {
                    proposal_in(pre.proposals@, id2)
                } by {
                lemma_proposal_update(pre.proposals@, i as int, q, id2);
            }
            assert forall|p2: PropertyId|
                #[trigger] sum_for(self.ownership@, p2) == match property_in(
                    self.properties@,
                    p2,
                ) {
                    Some(p3) => p3.total_shares - p3.shares_available,
                    None => 0,
                } by {
                assert(sum_for(pre.ownership@, p2) == match property_in(pre.properties@, p2) {
                    Some(p3) => p3.total_shares - p3.shares_available,
                    None => 0,
                });
            }
        }
        Ok(())
    }
}

} // verus!
