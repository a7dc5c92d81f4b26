//! The marketplace: open sell offers and their settlement against the
//! ownership ledger. A listing reserves nothing; settlement re-checks the
//! seller's live balance, and an offer that fails that check is left in
//! place unchanged.

use vstd::prelude::*;

use crate::shares::balance_after_move;
use crate::state::Core;
use crate::table::amount_of;
use crate::table::credit;
use crate::table::debit;
use crate::table::lemma_two_amounts_le_sum;
use crate::table::sum_for;
use crate::lookup::property_in;
use crate::types::Error;
use crate::types::Listing;
use crate::types::PropertyId;
use crate::types::UserId;

verus! {

/// Does listing `l` satisfy a purchase request of `amount` shares of
/// property `pid` from `seller`?
pub open spec fn listing_matches(
    l: Listing,
    pid: PropertyId,
    seller: UserId,
    amount: u64,
) -> bool {
    l.property_id == pid && l.seller == seller && l.amount >= amount
}

/// Is `i` the first listing that satisfies the request? Settlement picks
/// offers by insertion order, not by price.
pub open spec fn first_match_at(
    s: Seq<Listing>,
    pid: PropertyId,
    seller: UserId,
    amount: u64,
    i: int,
) -> bool {
    &&& 0 <= i < s.len()
    &&& listing_matches(s[i], pid, seller, amount)
    &&& forall|j: int| 0 <= j < i ==> !listing_matches(#[trigger] s[j], pid, seller, amount)
}

/// Does any open listing satisfy the request?
pub open spec fn some_match(s: Seq<Listing>, pid: PropertyId, seller: UserId, amount: u64) -> bool {
    exists|i: int| first_match_at(s, pid, seller, amount, i)
}

/// The marketplace after the matched listing at `i` settles a purchase of
/// `amount`: an exact match removes it, a partial match shrinks it.
pub open spec fn shrink_listing_at(s: Seq<Listing>, i: int, amount: u64) -> Seq<Listing> {
    if s[i].amount == amount {
        s.remove(i)
    } else {
        s.update(i, (Listing { amount: (s[i].amount - amount) as u64, ..s[i] }))
    }
}

/// The transition of `list_shares_for_sale(pid, seller, amount, price)`: it
/// succeeds exactly when the seller's current balance covers `amount`, and
/// then appends the offer; the check is advisory only — nothing is escrowed.
/// On failure it reports `InsufficientBalance` and changes nothing.
pub open spec fn list_post(
    pre: Core,
    post: Core,
    pid: PropertyId,
    seller: UserId,
    amount: u64,
    price_per_share: u64,
    r: Result<(), Error>,
) -> bool {
    &&& (r is Ok <==> amount <= pre.balance_of(pid, seller))
    &&& (r is Err ==> r == Err::<(), Error>(Error::InsufficientBalance) && post == pre)
    &&& (r is Ok ==> {
        &&& post.marketplace@ == pre.marketplace@.push(
            Listing { property_id: pid, seller, amount, price_per_share },
        )
        &&& post == (Core { marketplace: post.marketplace, ..pre })
    })
}

/// The transition of `buy_shares(pid, seller, buyer, amount)`: the first
/// listing of `(pid, seller)` whose amount covers the request settles, if
/// the seller's live balance still covers it: the shares move to the buyer
/// and the listing shrinks or disappears. With no matching listing the
/// purchase is `NotFound`; with a match but a short balance it is
/// `InsufficientBalance` and the stale listing stays untouched.
pub open spec fn buy_post(
    pre: Core,
    post: Core,
    pid: PropertyId,
    seller: UserId,
    buyer: UserId,
    amount: u64,
    r: Result<(), Error>,
) -> bool {
    &&& (r is Ok <==> some_match(pre.marketplace@, pid, seller, amount) && amount
        <= pre.balance_of(pid, seller))
    &&& (!some_match(pre.marketplace@, pid, seller, amount) ==> r == Err::<(), Error>(
        Error::NotFound,
    ))
    &&& (some_match(pre.marketplace@, pid, seller, amount) && amount > pre.balance_of(pid, seller)
        ==> r == Err::<(), Error>(Error::InsufficientBalance))
    &&& (r is Err ==> post == pre)
    &&& (r is Ok ==> {
        &&& forall|p: PropertyId, h: UserId|
            #[trigger] post.balance_of(p, h) == balance_after_move(
                pre,
                p,
                h,
                pid,
                seller,
                buyer,
                amount,
            )
        &&& forall|p: PropertyId| #[trigger] post.sum_balances(p) == pre.sum_balances(p)
        &&& exists|i: int|
            first_match_at(pre.marketplace@, pid, seller, amount, i) && post.marketplace@
                == shrink_listing_at(pre.marketplace@, i, amount)
        &&& post == (Core {
            ownership: post.ownership,
            marketplace: post.marketplace,
            ..pre
        })
    })
}

/// Index of the first listing that satisfies the request, if any.
fn find_listing(s: &Vec<Listing>, pid: PropertyId, seller: UserId, amount: u64) -> (r: Option<
    usize,
>)
    ensures
        match r {
            Some(i) => first_match_at(s@, pid, seller, amount, i as int),
            None => forall|j: int|
                0 <= j < s@.len() ==> !listing_matches(#[trigger] s@[j], pid, seller, amount),
        },
{
    let mut i: usize = 0;
    while i < s.len()
        invariant
            i <= s@.len(),
            forall|j: int| 0 <= j < i ==> !listing_matches(#[trigger] s@[j], pid, seller, amount),
        decreases s@.len() - i,
    {
        let l = s[i];
        if l.property_id == pid && l.seller == seller && l.amount >= amount {
            return Some(i);
        }
        i = i + 1;
    }
    None
}

impl Core {
    /// Places `amount` shares of property `pid` on the marketplace for
    /// `seller` at `price_per_share` each.
    pub fn list_shares_for_sale(
        &mut self,
        pid: PropertyId,
        seller: UserId,
        amount: u64,
        price_per_share: u64,
    ) -> (r: Result<(), Error>)
        requires
            old(self).wf(),
        ensures
            final(self).wf(),
            list_post(*old(self), *final(self), pid, seller, amount, price_per_share, r),
    {
        let owned = amount_of(&self.ownership, pid, seller);
        if owned < amount {
            return Err(Error::InsufficientBalance);
        }
        self.marketplace.push(Listing { property_id: pid, seller, amount, price_per_share });
        Ok(())
    }

    /// Buys `amount` shares of property `pid` from `seller`'s first
    /// sufficient listing on behalf of `buyer`.
    pub fn buy_shares(
        &mut self,
        pid: PropertyId,
        seller: UserId,
        buyer: UserId,
        amount: u64,
    ) -> (r: Result<(), Error>)
        requires
            old(self).wf(),
        ensures
            final(self).wf(),
            buy_post(*old(self), *final(self), pid, seller, buyer, amount, r),
    {
        let ghost pre = *self;
        let i: usize;
        match find_listing(&self.marketplace, pid, seller, amount) {
            None => {
                proof {
                    assert forall|j: int|
                        0 <= j < pre.marketplace@.len() implies !first_match_at(
                        pre.marketplace@,
                        pid,
                        seller,
                        amount,
                        j,
                    ) by {}
                }
                return Err(Error::NotFound);
            },
            Some(idx) => {
                i = idx;
            },
        }
        let bal = amount_of(&self.ownership, pid, seller);
        if bal < amount {
            return Err(Error::InsufficientBalance);
        }
        proof {
            if buyer != seller {
                lemma_two_amounts_le_sum(self.ownership@, pid, seller, buyer);
            }
        }
        debit(&mut self.ownership, pid, seller, amount);
        credit(&mut self.ownership, pid, buyer, amount);
        if self.marketplace[i].amount == amount {
            self.marketplace.remove(i);
        } else {
            let l = self.marketplace[i];
            self.marketplace[i] = Listing { amount: l.amount - amount, ..l };
        }
        proof {
            assert(self.marketplace@ == shrink_listing_at(pre.marketplace@, i as int, amount));
            assert forall|p2: PropertyId|
                #[trigger] sum_for(self.ownership@, p2) == match property_in(
                    self.properties@,
                    p2,
                ) {
                    Some(p3) => p3.total_shares - p3.shares_available,
                    None => 0,
                } by {
                assert(sum_for(pre.ownership@, p2) == match property_in(pre.properties@, p2) {
                    Some(p3) => p3.total_shares - p3.shares_available,
                    None => 0,
                });
            }
        }
        Ok(())
    }

    /// Reads all open listings, in insertion order.
    pub fn get_marketplace_listings(&self) -> (r: Vec<Listing>)
        ensures
            r@ == self.marketplace@,
    {
        let mut r: Vec<Listing> = Vec::new();
        let mut i: usize = 0;
        while i < self.marketplace.len()
            invariant
                i <= self.marketplace@.len(),
                r@ == self.marketplace@.take(i as int),
            decreases self.marketplace@.len() - i,
        {
            r.push(self.marketplace[i]);
            proof {
                assert(self.marketplace@.take(i + 1 as int) =~= self.marketplace@.take(
                    i as int,
                ).push(self.marketplace@[i as int]));
            }
            i = i + 1;
        }
        proof {
            assert(self.marketplace@.take(self.marketplace@.len() as int) =~= self.marketplace@);
        }
        r
    }
}

} // verus!
