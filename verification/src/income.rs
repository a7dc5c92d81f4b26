//! The income distribution engine: depositing rental income for a property,
//! allocating proportional entitlements to its holders at deposit time, and
//! claiming them. Entitlements are computed once against the ownership
//! snapshot of the deposit; later transfers do not adjust them.

use vstd::prelude::*;

use vstd::arithmetic::mul::lemma_mul_inequality;

use crate::lookup::find_property;
use crate::lookup::lemma_property_at_first_match;
use crate::lookup::lemma_property_no_match;
use crate::state::Core;
use crate::state::INCOME_TOTAL_SLOT;
use crate::table::amount_in;
use crate::table::amount_of;
use crate::table::credit;
use crate::table::entry_is;
use crate::table::lemma_amount_at_first_match;
use crate::table::lemma_amount_has_entry;
use crate::table::lemma_amount_le_sum;
use crate::table::remove_entry;
use crate::table::sum_for;
use crate::table::unique_keys;
use crate::types::AmountEntry;
use crate::types::Error;
use crate::types::PropertyId;
use crate::types::UserId;

verus! {

/// Machine bounds a deposit must respect: the cumulative total and every
/// holder's entitlement stay within `u64`, and the product that the
/// proportional allocation computes fits. These are limits of the word size,
/// not of the distribution rule.
pub open spec fn deposit_fits(pre: Core, pid: PropertyId, amount: u64) -> bool {
    &&& pre.total_shares_of(pid) > 0 ==> pre.income_total_of(pid) + amount <= u64::MAX
    &&& amount * pre.total_shares_of(pid) <= u64::MAX
    &&& forall|h: UserId|
        pre.total_shares_of(pid) > 0 ==> (#[trigger] pre.unclaimed_of(pid, h)) + amount
            * pre.balance_of(pid, h) / (pre.total_shares_of(pid) as int) <= u64::MAX
}

/// Has some holder entry of `pid` with a positive balance been reached in
/// the first `k` ownership entries for holder `h`?
pub open spec fn reached(own: Seq<AmountEntry>, k: int, pid: PropertyId, h: UserId) -> bool {
    exists|j: int| 0 <= j < k && entry_is(#[trigger] own[j], pid, h) && own[j].amount > 0
}

/// The transition of `deposit_rental_income(pid, amount)`: it succeeds
/// exactly when `pid` names a property with a positive total supply; on
/// success the cumulative total grows by `amount` and every holder's
/// entitlement grows by `amount * balance / total_shares` (floor division;
/// the remainder is neither distributed nor tracked), and nothing else
/// changes. A missing or zero-supply property is reported as `NotFound` and
/// changes nothing.
pub open spec fn deposit_post(
    pre: Core,
    post: Core,
    pid: PropertyId,
    amount: u64,
    r: Result<(), Error>,
) -> bool {
    &&& (r is Ok <==> pre.total_shares_of(pid) > 0)
    &&& (r is Err ==> r == Err::<(), Error>(Error::NotFound) && post == pre)
    &&& (r is Ok ==> {
        &&& post.income_total_of(pid) == pre.income_total_of(pid) + amount
        &&& forall|p: PropertyId|
            p != pid ==> #[trigger] post.income_total_of(p) == pre.income_total_of(p)
        &&& forall|p: PropertyId, h: UserId|
            #[trigger] post.unclaimed_of(p, h) == pre.unclaimed_of(p, h) + (if p == pid {
                amount * pre.balance_of(p, h) / (pre.total_shares_of(pid) as int)
            } else {
                0
            })
        &&& post == (Core {
            income_totals: post.income_totals,
            unclaimed: post.unclaimed,
            ..pre
        })
    })
}

/// The transition of `claim_income(pid, user)`: the returned amount is the
/// whole entitlement, whose stored entry is deleted, and nothing else
/// changes. A second claim with no deposit in between therefore returns 0.
pub open spec fn claim_post(
    pre: Core,
    post: Core,
    pid: PropertyId,
    user: UserId,
    claimed: u64,
) -> bool {
    &&& claimed == pre.unclaimed_of(pid, user)
    &&& post.unclaimed_of(pid, user) == 0
    &&& forall|p: PropertyId, h: UserId|
        !(p == pid && h == user) ==> #[trigger] post.unclaimed_of(p, h) == pre.unclaimed_of(p, h)
    &&& post == (Core { unclaimed: post.unclaimed, ..pre })
}

impl Core {
    /// Deposits `amount` of rental income for property `pid` and distributes
    /// it proportionally over the current holder balances.
    pub fn deposit_rental_income(&mut self, pid: PropertyId, amount: u64) -> (r: Result<
        (),
        Error,
    >)
        requires
            old(self).wf(),
            deposit_fits(*old(self), pid, amount),
        ensures
            final(self).wf(),
            deposit_post(*old(self), *final(self), pid, amount, r),
    {
        let ghost pre = *self;
        let total: u64;
        match find_property(&self.properties, pid) {
            None => {
                proof {
                    lemma_property_no_match(self.properties@, pid);
                }
                return Err(Error::NotFound);
            },
            Some(i) => {
                proof {
                    lemma_property_at_first_match(self.properties@, i as int);
                }
                total = self.properties[i].total_shares;
            },
        }
        if total == 0 {
            return Err(Error::NotFound);
        }
        credit(&mut self.income_totals, pid, INCOME_TOTAL_SLOT, amount);
        let ghost mid = *self;
        let ghost own = self.ownership@;
        let mut k: usize = 0;
        while k < self.ownership.len()
            invariant
                k <= own.len(),
                *self == (Core { unclaimed: self.unclaimed, ..mid }),
                own == mid.ownership@,
                own == pre.ownership@,
                pre.wf(),
                mid.unclaimed@ == pre.unclaimed@,
                unique_keys(own),
                unique_keys(self.unclaimed@),
                total == pre.total_shares_of(pid),
                total > 0,
                deposit_fits(pre, pid, amount),
                forall|h: UserId| #[trigger]
                    pre.balance_of(pid, h) == amount_in(own, pid, h),
                forall|p: PropertyId, h: UserId|
                    #[trigger] amount_in(self.unclaimed@, p, h) == amount_in(pre.unclaimed@, p, h)
                        + (if p == pid && reached(own, k as int, pid, h) {
                        amount * amount_in(own, pid, h) / total as int
                    } else {
                        0
                    }),
            decreases own.len() - k,
        {
            let e = self.ownership[k];
            if e.property_id == pid && e.amount > 0 {
                proof {
                    // entry k is its key's only entry, so it carries the balance
                    assert forall|j: int| 0 <= j < k ==> !entry_is(#[trigger] own[j], pid, e.holder) by {}
                    lemma_amount_at_first_match(own, pid, e.holder, k as int);
                    assert(amount_in(own, pid, e.holder) == e.amount);
                    assert(!reached(own, k as int, pid, e.holder));
                    // the product fits: the balance is bounded by the supply
                    lemma_amount_le_sum(own, pid, e.holder);
                    assert(sum_for(pre.ownership@, pid) == pre.total_shares_of(pid)
                        - pre.available_of(pid));
                    assert(e.amount <= total);
                    lemma_mul_inequality(e.amount as int, total as int, amount as int);
                    assert(e.amount as int * amount as int <= total as int * amount as int);
                    assert(amount as int * e.amount as int <= amount as int * total as int) by (nonlinear_arith)
                        requires
                            e.amount as int * amount as int <= total as int * amount as int,
                    ;
                    assert(pre.unclaimed_of(pid, e.holder) + amount * pre.balance_of(pid, e.holder)
                        / (pre.total_shares_of(pid) as int) <= u64::MAX);
                }
                let share = amount * e.amount / total;
                let ghost before = self.unclaimed@;
                credit(&mut self.unclaimed, pid, e.holder, share);
                proof {
                    assert forall|p: PropertyId, h: UserId|
                        #[trigger] amount_in(self.unclaimed@, p, h) == amount_in(
                            pre.unclaimed@,
                            p,
                            h,
                        ) + (if p == pid && reached(own, k + 1, pid, h) {
                            amount * amount_in(own, pid, h) / total as int
                        } else {
                            0
                        }) by {
                        if p == pid && h == e.holder {
                            assert(entry_is(own[k as int], pid, h) && own[k as int].amount > 0);
                            assert(reached(own, k + 1, pid, h));
                        } else {
                            if p == pid && reached(own, k + 1, pid, h) {
                                let j = choose|j: int|
                                    0 <= j < k + 1 && entry_is(#[trigger] own[j], pid, h)
                                        && own[j].amount > 0;
                                assert(j != k);
                                assert(reached(own, k as int, pid, h));
                            }
                        }
                    }
                }
            } else {
                proof {
                    assert forall|h: UserId| #[trigger]
                        reached(own, k + 1, pid, h) implies reached(own, k as int, pid, h) by {
                        let j = choose|j: int|
                            0 <= j < k + 1 && entry_is(#[trigger] own[j], pid, h) && own[j].amount
                                > 0;
                        assert(j != k);
                    }
                }
            }
            k = k + 1;
        }
        proof {
            assert forall|p: PropertyId, h: UserId|
                #[trigger] amount_in(self.unclaimed@, p, h) == amount_in(pre.unclaimed@, p, h) + (
                if p == pid {
                    amount * amount_in(own, pid, h) / total as int
                } else {
                    0
                }) by {
                if p == pid {
                    if amount_in(own, pid, h) > 0 {
                        lemma_amount_has_entry(own, pid, h);
                        let j = choose|j: int|
                            0 <= j < own.len() && entry_is(#[trigger] own[j], pid, h)
                                && own[j].amount == amount_in(own, pid, h);
                        assert(reached(own, own.len() as int, pid, h));
                    } else {
                        if reached(own, own.len() as int, pid, h) {
                            let j = choose|j: int|
                                0 <= j < own.len() && entry_is(#[trigger] own[j], pid, h)
                                    && own[j].amount > 0;
                            assert forall|j2: int| 0 <= j2 < j ==> !entry_is(
                                #[trigger] own[j2],
                                pid,
                                h,
                            ) by {}
                            lemma_amount_at_first_match(own, pid, h, j);
                        }
                        assert(amount * amount_in(own, pid, h) / total as int == 0);
                    }
                }
            }
        }
        Ok(())
    }

    /// Claims the caller's unclaimed entitlement for property `pid`,
    /// deleting its stored entry and returning the amount claimed (0 if
    /// none).
    pub fn claim_income(&mut self, pid: PropertyId, user: UserId) -> (claimed: u64)
        requires
            old(self).wf(),
        ensures
            final(self).wf(),
            claim_post(*old(self), *final(self), pid, user, claimed),
            forall|j: int|
                0 <= j < final(self).unclaimed@.len() ==> !entry_is(
                    #[trigger] final(self).unclaimed@[j],
                    pid,
                    user,
                ),
    {
        remove_entry(&mut self.unclaimed, pid, user)
    }

    /// Reads the unclaimed entitlement of `user` for property `pid`.
    pub fn get_unclaimed_income(&self, pid: PropertyId, user: UserId) -> (r: u64)
        ensures
            r == self.unclaimed_of(pid, user),
    {
        amount_of(&self.unclaimed, pid, user)
    }
}

} // verus!
