//! The laws of the ledger, stated over the operations' transition relations
//! and proved from them: conservation of shares, rejection without effect,
//! self-transfer neutrality, additive distribution, claim idempotence, vote
//! snapshot weights, and one vote per identity. Balances themselves are
//! `u64` values, so no operation can drive one below zero.

use vstd::prelude::*;

use crate::governance::vote_post;
use crate::income::claim_post;
use crate::income::deposit_post;
use crate::market::buy_post;
use crate::market::some_match;
use crate::shares::issue_post;
use crate::shares::transfer_post;
use crate::state::has_voted;
use crate::state::Core;
use crate::types::Error;
use crate::types::PropertyId;
use crate::types::UserId;

verus! {

/// Conservation: in every well-formed state, for every registered property,
/// the shares still available plus the sum of all holder balances equal the
/// fixed total; an unregistered id has no shares at all. Every operation of
/// the library preserves well-formedness, so this holds at all times.
pub proof fn lemma_conservation(c: Core, pid: PropertyId)
    requires
        c.wf(),
    ensures
        c.has_property(pid) ==> c.available_of(pid) + c.sum_balances(pid) == c.total_shares_of(
            pid,
        ),
        !c.has_property(pid) ==> c.sum_balances(pid) == 0,
{
}

/// A transfer that the sender's balance does not cover is rejected with
/// `InsufficientBalance` and leaves the state unchanged.
pub proof fn lemma_overdrawn_transfer_rejected(
    pre: Core,
    post: Core,
    pid: PropertyId,
    from: UserId,
    to: UserId,
    amount: u64,
    r: Result<(), Error>,
)
    requires
        transfer_post(pre, post, pid, from, to, amount, r),
        amount > pre.balance_of(pid, from),
    ensures
        r == Err::<(), Error>(Error::InsufficientBalance),
        post == pre,
{
}

/// An issuance that the property's available supply does not cover is
/// rejected with `InsufficientSupply` and leaves the state unchanged.
pub proof fn lemma_oversupply_issue_rejected(
    pre: Core,
    post: Core,
    pid: PropertyId,
    to: UserId,
    amount: u64,
    r: Result<(), Error>,
)
    requires
        issue_post(pre, post, pid, to, amount, r),
        pre.has_property(pid),
        amount > pre.available_of(pid),
    ensures
        r == Err::<(), Error>(Error::InsufficientSupply),
        post == pre,
{
}

/// A purchase that the seller's live balance does not cover is rejected
/// with `InsufficientBalance` and leaves the state — the stale listing
/// included — unchanged.
pub proof fn lemma_overdrawn_purchase_rejected(
    pre: Core,
    post: Core,
    pid: PropertyId,
    seller: UserId,
    buyer: UserId,
    amount: u64,
    r: Result<(), Error>,
)
    requires
        buy_post(pre, post, pid, seller, buyer, amount, r),
        some_match(pre.marketplace@, pid, seller, amount),
        amount > pre.balance_of(pid, seller),
    ensures
        r == Err::<(), Error>(Error::InsufficientBalance),
        post == pre,
{
}

/// A covered self-transfer succeeds and leaves every balance exactly as it
/// was.
pub proof fn lemma_self_transfer_noop(
    pre: Core,
    post: Core,
    pid: PropertyId,
    x: UserId,
    n: u64,
    r: Result<(), Error>,
)
    requires
        transfer_post(pre, post, pid, x, x, n, r),
        n <= pre.balance_of(pid, x),
    ensures
        r is Ok,
        forall|p: PropertyId, h: UserId|
            #[trigger] post.balance_of(p, h) == pre.balance_of(p, h),
{
}

/// Two successful deposits for one property accumulate every holder's
/// entitlement additively: each adds its own floor share, computed against
/// the balances at its own time (which a deposit does not change).
pub proof fn lemma_deposits_accumulate(
    s0: Core,
    s1: Core,
    s2: Core,
    pid: PropertyId,
    a1: u64,
    a2: u64,
    r1: Result<(), Error>,
    r2: Result<(), Error>,
    h: UserId,
)
    requires
        deposit_post(s0, s1, pid, a1, r1),
        r1 is Ok,
        deposit_post(s1, s2, pid, a2, r2),
        r2 is Ok,
    ensures
        s2.unclaimed_of(pid, h) == s0.unclaimed_of(pid, h) + a1 * s0.balance_of(pid, h) / (
        s0.total_shares_of(pid) as int) + a2 * s0.balance_of(pid, h) / (s0.total_shares_of(
            pid,
        ) as int),
{
    assert(s1.balance_of(pid, h) == s0.balance_of(pid, h));
    assert(s1.total_shares_of(pid) == s0.total_shares_of(pid));
}

/// A claim returns the whole entitlement and zeroes it, so a second claim
/// with no deposit in between returns 0.
pub proof fn lemma_claim_idempotent(
    s0: Core,
    s1: Core,
    s2: Core,
    pid: PropertyId,
    h: UserId,
    a1: u64,
    a2: u64,
)
    requires
        claim_post(s0, s1, pid, h, a1),
        claim_post(s1, s2, pid, h, a2),
    ensures
        a1 == s0.unclaimed_of(pid, h),
        a2 == 0,
        s2.unclaimed_of(pid, h) == 0,
{
}

/// A vote's weight is a snapshot: once recorded, a transfer of the voter's
/// shares — all of them included — changes no proposal, so the tallies keep
/// the weight the voter had when voting.
pub proof fn lemma_vote_weight_snapshot(
    s0: Core,
    s1: Core,
    s2: Core,
    proposal_id: u64,
    voter: UserId,
    choice: bool,
    r1: Result<(), Error>,
    pid: PropertyId,
    to: UserId,
    amount: u64,
    r2: Result<(), Error>,
)
    requires
        vote_post(s0, s1, proposal_id, voter, choice, r1),
        r1 is Ok,
        transfer_post(s1, s2, pid, voter, to, amount, r2),
    ensures
        s2.spec_proposal(proposal_id) == s1.spec_proposal(proposal_id),
        ({
            let p = s0.spec_proposal(proposal_id)->Some_0;
            let w = s0.balance_of(p.property_id, voter);
            let q = s2.spec_proposal(proposal_id)->Some_0;
            &&& q.yes_votes == p.yes_votes + (if choice {
                w as int
            } else {
                0
            })
            &&& q.no_votes == p.no_votes + (if choice {
                0
            } else {
                w as int
            })
        }),
{
    if r2 is Ok {
        assert(s2.proposals == s1.proposals);
    } else {
        assert(s2 == s1);
    }
}

/// One vote per identity: after an identity's vote is recorded on a
/// proposal, any further vote by it on the same proposal, with either
/// choice, fails as `NotVotable` and changes nothing.
pub proof fn lemma_one_vote_per_identity(
    s0: Core,
    s1: Core,
    s2: Core,
    proposal_id: u64,
    voter: UserId,
    c1: bool,
    c2: bool,
    r1: Result<(), Error>,
    r2: Result<(), Error>,
)
    requires
        vote_post(s0, s1, proposal_id, voter, c1, r1),
        r1 is Ok,
        vote_post(s1, s2, proposal_id, voter, c2, r2),
    ensures
        r2 == Err::<(), Error>(Error::NotVotable),
        s2 == s1,
{
    let p = s0.spec_proposal(proposal_id)->Some_0;
    let q = s1.spec_proposal(proposal_id)->Some_0;
    assert(q.votes@ == p.votes@.push(crate::types::VoteEntry { voter, choice: c1 }));
    assert(q.votes@[p.votes@.len() as int].voter == voter);
    assert(has_voted(q.votes@, voter));
}

} // verus!
