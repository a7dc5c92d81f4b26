//! The ownership ledger: issuance out of a property's supply and direct
//! transfers between holders. The transitions are captured by the relations
//! [`issue_post`] and [`transfer_post`], which the laws build on.

use vstd::prelude::*;

use crate::lookup::find_property;
use crate::lookup::lemma_property_at_first_match;
use crate::lookup::lemma_property_no_match;
use crate::lookup::lemma_property_update;
use crate::lookup::property_in;
use crate::state::Core;
use crate::table::amount_in;
use crate::table::amount_of;
use crate::table::credit;
use crate::table::debit;
use crate::table::lemma_amount_le_sum;
use crate::table::lemma_two_amounts_le_sum;
use crate::table::sum_for;
use crate::types::Error;
use crate::types::Property;
use crate::types::PropertyId;
use crate::types::UserId;

verus! {

/// How one balance changes when `amount` moves from `from` to `to` within
/// property `pid`: the debit and the credit cancel for a self-transfer.
pub open spec fn balance_after_move(
    pre: Core,
    p: PropertyId,
    h: UserId,
    pid: PropertyId,
    from: UserId,
    to: UserId,
    amount: u64,
) -> int {
    pre.balance_of(p, h) - (if p == pid && h == from {
        amount as int
    } else {
        0
    }) + (if p == pid && h == to {
        amount as int
    } else {
        0
    })
}

/// The transition of `transfer_shares(pid, from, to, amount)`: it succeeds
/// exactly when `from`'s balance covers `amount`; on success `amount` moves
/// from `from` to `to` and nothing else changes; on failure it reports
/// `InsufficientBalance` and changes nothing.
pub open spec fn transfer_post(
    pre: Core,
    post: Core,
    pid: PropertyId,
    from: UserId,
    to: UserId,
    amount: u64,
    r: Result<(), Error>,
) -> bool {
    &&& (r is Ok <==> amount <= pre.balance_of(pid, from))
    &&& (r is Err ==> r == Err::<(), Error>(Error::InsufficientBalance) && post == pre)
    &&& (r is Ok ==> {
        &&& forall|p: PropertyId, h: UserId|
            #[trigger] post.balance_of(p, h) == balance_after_move(pre, p, h, pid, from, to, amount)
        &&& forall|p: PropertyId| #[trigger] post.sum_balances(p) == pre.sum_balances(p)
        &&& post == (Core { ownership: post.ownership, ..pre })
    })
}

/// The transition of `issue_shares(pid, to, amount)`: it succeeds exactly
/// when the property exists and has `amount` shares still available; on
/// success the available supply shrinks by `amount` and `to`'s balance grows
/// by it, and nothing else changes. Failures report why and change nothing.
pub open spec fn issue_post(
    pre: Core,
    post: Core,
    pid: PropertyId,
    to: UserId,
    amount: u64,
    r: Result<(), Error>,
) -> bool {
    &&& (r is Ok <==> pre.has_property(pid) && amount <= pre.available_of(pid))
    &&& (!pre.has_property(pid) ==> r == Err::<(), Error>(Error::NotFound))
    &&& (pre.has_property(pid) && amount > pre.available_of(pid) ==> r == Err::<(), Error>(
        Error::InsufficientSupply,
    ))
    &&& (r is Err ==> post == pre)
    &&& (r is Ok ==> {
        &&& forall|p: PropertyId, h: UserId|
            #[trigger] post.balance_of(p, h) == pre.balance_of(p, h) + (if p == pid && h == to {
                amount as int
            } else {
                0
            })
        &&& post.spec_property(pid) == Some(
            (Property {
                shares_available: (pre.available_of(pid) - amount) as u64,
                ..pre.spec_property(pid)->Some_0
            }),
        )
        &&& forall|p: PropertyId|
            p != pid ==> #[trigger] post.spec_property(p) == pre.spec_property(p)
        &&& post == (Core { properties: post.properties, ownership: post.ownership, ..pre })
    })
}

impl Core {
    /// Issues `amount` shares of property `pid` out of its available supply
    /// to `to`. This is the only path by which shares enter circulation.
    pub fn issue_shares(&mut self, pid: PropertyId, to: UserId, amount: u64) -> (r: Result<
        (),
        Error,
    >)
        requires
            old(self).wf(),
        ensures
            final(self).wf(),
            issue_post(*old(self), *final(self), pid, to, amount, r),
    {
        let ghost pre = *self;
        match find_property(&self.properties, pid) {
            None => {
                proof {
                    lemma_property_no_match(self.properties@, pid);
                }
                Err(Error::NotFound)
            },
            Some(i) => {
                proof {
                    lemma_property_at_first_match(self.properties@, i as int);
                }
                if amount > self.properties[i].shares_available {
                    return Err(Error::InsufficientSupply);
                }
                let mut p = self.properties.remove(i);
                p.shares_available = p.shares_available - amount;
                self.properties.insert(i, p);
                proof {
                    let q = self.properties@[i as int];
                    assert(self.properties@ =~= pre.properties@.update(i as int, q));
                    assert forall|p2: PropertyId|
                        #[trigger] property_in(self.properties@, p2) == if p2 == pid {
                            Some(q)
                        } else {
                            property_in(pre.properties@, p2)
                        } by {
                        lemma_property_update(pre.properties@, i as int, q, p2);
                    }
                    // the credited balance stays within the total supply
                    lemma_amount_le_sum(self.ownership@, pid, to);
                }
                credit(&mut self.ownership, pid, to, amount);
                proof {
                    assert forall|p2: PropertyId|
                        #[trigger] sum_for(self.ownership@, p2) == match property_in(
                            self.properties@,
                            p2,
                        ) {
                            Some(p3) => p3.total_shares - p3.shares_available,
                            None => 0,
                        } by {
                        assert(sum_for(pre.ownership@, p2) == match property_in(
                            pre.properties@,
                            p2,
                        ) {
                            Some(p3) => p3.total_shares - p3.shares_available,
                            None => 0,
                        });
                    }
                }
                Ok(())
            },
        }
    }

    /// Moves `amount` shares of property `pid` from `from` to `to`. A
    /// self-transfer that is covered succeeds and leaves every balance as it
    /// was.
    pub fn transfer_shares(
        &mut self,
        pid: PropertyId,
        from: UserId,
        to: UserId,
        amount: u64,
    ) -> (r: Result<(), Error>)
        requires
            old(self).wf(),
        ensures
            final(self).wf(),
            transfer_post(*old(self), *final(self), pid, from, to, amount, r),
    {
        let ghost pre = *self;
        let bal = amount_of(&self.ownership, pid, from);
        if bal < amount {
            return Err(Error::InsufficientBalance);
        }
        proof {
            // the credited balance stays within the total supply
            if to != from {
                lemma_two_amounts_le_sum(self.ownership@, pid, from, to);
            }
        }
        debit(&mut self.ownership, pid, from, amount);
        credit(&mut self.ownership, pid, to, amount);
        proof {
            assert forall|p2: PropertyId|
                #[trigger] sum_for(self.ownership@, p2) == match property_in(
                    self.properties@,
                    p2,
                ) {
                    Some(p3) => p3.total_shares - p3.shares_available,
                    None => 0,
                } by {
                assert(sum_for(pre.ownership@, p2) == match property_in(pre.properties@, p2) {
                    Some(p3) => p3.total_shares - p3.shares_available,
                    None => 0,
                });
            }
        }
        Ok(())
    }

    /// Reads the share balance of `user` for property `pid`; 0 for an
    /// unknown pair.
    pub fn get_ownership(&self, pid: PropertyId, user: UserId) -> (r: u64)
        ensures
            r == self.balance_of(pid, user),
    {
        amount_of(&self.ownership, pid, user)
    }
}

} // verus!
