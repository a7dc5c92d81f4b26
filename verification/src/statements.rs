//! Per-holder statements: all positive share balances of an identity, and
//! all its stored income entitlement entries, each line naming the
//! property.

use vstd::prelude::*;

use crate::lookup::find_property;
use crate::lookup::lemma_property_at_first_match;
use crate::lookup::lemma_property_no_match;
use crate::state::Core;
use crate::types::AmountEntry;
use crate::types::OwnershipRecord;
use crate::types::PropertyId;
use crate::types::RentalIncomeRecord;
use crate::types::UserId;

verus! {

/// The entries of `user` with a positive amount, in table order. The
/// ownership statement reports only these: a zero balance behaves as an
/// absent entry.
pub open spec fn selected(entries: Seq<AmountEntry>, user: UserId) -> Seq<AmountEntry>
    decreases entries.len(),
{
    if entries.len() == 0 {
        Seq::empty()
    } else {
        let prev = selected(entries.drop_last(), user);
        if entries.last().holder == user && entries.last().amount > 0 {
            prev.push(entries.last())
        } else {
            prev
        }
    }
}

/// All stored entries of `user`, in table order, zero amounts included. The
/// income statement reports every stored entitlement entry: a deposit whose
/// floor share for a holder is 0 still leaves a visible zero line, while a
/// claim deletes its entry altogether.
pub open spec fn entries_of(entries: Seq<AmountEntry>, user: UserId) -> Seq<AmountEntry>
    decreases entries.len(),
{
    if entries.len() == 0 {
        Seq::empty()
    } else {
        let prev = entries_of(entries.drop_last(), user);
        if entries.last().holder == user {
            prev.push(entries.last())
        } else {
            prev
        }
    }
}

/// The name text of property `pid`; empty for an unregistered id.
pub open spec fn name_view_of(c: Core, pid: PropertyId) -> Seq<char> {
    match c.spec_property(pid) {
        Some(p) => p.name@,
        None => Seq::empty(),
    }
}

impl Core {
    /// Looks up the name of property `pid`, empty when unregistered.
    fn property_name(&self, pid: PropertyId) -> (r: String)
        ensures
            r@ == name_view_of(*self, pid),
    {
        match find_property(&self.properties, pid) {
            Some(i) => {
                proof {
                    lemma_property_at_first_match(self.properties@, i as int);
                }
                self.properties[i].name.clone()
            },
            None => {
                proof {
                    lemma_property_no_match(self.properties@, pid);
                }
                String::new()
            },
        }
    }

    /// All positive share balances of `user`, one line per property, in
    /// ledger order.
    pub fn get_ownership_statement(&self, user: UserId) -> (r: Vec<OwnershipRecord>)
        ensures
            r@.len() == selected(self.ownership@, user).len(),
            forall|k: int|
                0 <= k < r@.len() ==> {
                    let e = selected(self.ownership@, user)[k];
                    &&& (#[trigger] r@[k]).property_id == e.property_id
                    &&& r@[k].shares == e.amount
                    &&& r@[k].property_name@ == name_view_of(*self, e.property_id)
                },
    {
        let entries = &self.ownership;
        let mut r: Vec<OwnershipRecord> = Vec::new();
        let mut i: usize = 0;
        proof {
            assert(entries@.take(0) =~= Seq::<AmountEntry>::empty());
        }
        while i < entries.len()
            invariant
                i <= entries@.len(),
                entries@ == self.ownership@,
                r@.len() == selected(entries@.take(i as int), user).len(),
                forall|k: int|
                    0 <= k < r@.len() ==> {
                        let e = selected(entries@.take(i as int), user)[k];
                        &&& (#[trigger] r@[k]).property_id == e.property_id
                        &&& r@[k].shares == e.amount
                        &&& r@[k].property_name@ == name_view_of(*self, e.property_id)
                    },
            decreases entries@.len() - i,
        {
            let e = entries[i];
            proof {
                assert(entries@.take(i + 1 as int).drop_last() =~= entries@.take(i as int));
                assert(entries@.take(i + 1 as int).last() == entries@[i as int]);
            }
            if e.holder == user && e.amount > 0 {
                let name = self.property_name(e.property_id);
                r.push(
                    OwnershipRecord {
                        property_id: e.property_id,
                        property_name: name,
                        shares: e.amount,
                    },
                );
            }
            i = i + 1;
        }
        proof {
            assert(entries@.take(entries@.len() as int) =~= entries@);
        }
        r
    }

    /// All stored income entitlement entries of `user`, zero amounts
    /// included, one line per property, in table order.
    pub fn get_rental_income_statement(&self, user: UserId) -> (r: Vec<RentalIncomeRecord>)
        ensures
            r@.len() == entries_of(self.unclaimed@, user).len(),
            forall|k: int|
                0 <= k < r@.len() ==> {
                    let e = entries_of(self.unclaimed@, user)[k];
                    &&& (#[trigger] r@[k]).property_id == e.property_id
                    &&& r@[k].income == e.amount
                    &&& r@[k].property_name@ == name_view_of(*self, e.property_id)
                },
    {
        let entries = &self.unclaimed;
        let mut r: Vec<RentalIncomeRecord> = Vec::new();
        let mut i: usize = 0;
        proof {
            assert(entries@.take(0) =~= Seq::<AmountEntry>::empty());
        }
        while i < entries.len()
            invariant
                i <= entries@.len(),
                entries@ == self.unclaimed@,
                r@.len() == entries_of(entries@.take(i as int), user).len(),
                forall|k: int|
                    0 <= k < r@.len() ==> {
                        let e = entries_of(entries@.take(i as int), user)[k];
                        &&& (#[trigger] r@[k]).property_id == e.property_id
                        &&& r@[k].income == e.amount
                        &&& r@[k].property_name@ == name_view_of(*self, e.property_id)
                    },
            decreases entries@.len() - i,
        {
            let e = entries[i];
            proof {
                assert(entries@.take(i + 1 as int).drop_last() =~= entries@.take(i as int));
                assert(entries@.take(i + 1 as int).last() == entries@[i as int]);
            }
            if e.holder == user {
                let name = self.property_name(e.property_id);
                r.push(
                    RentalIncomeRecord {
                        property_id: e.property_id,
                        property_name: name,
                        income: e.amount,
                    },
                );
            }
            i = i + 1;
        }
        proof {
            assert(entries@.take(entries@.len() as int) =~= entries@);
        }
        r
    }
}

} // verus!
