//! A keyed amount table: a vector of [`AmountEntry`] values with at most one
//! entry per (property, holder) key. The spec side gives a lookup function
//! (`amount_in`), a per-property sum (`sum_for`), and the lemmas that relate
//! them under the updates the ledger performs; the exec side gives lookup,
//! credit and debit operations whose contracts speak of those functions.

use vstd::prelude::*;

use crate::types::AmountEntry;
use crate::types::PropertyId;
use crate::types::UserId;

verus! {

/// Does entry `e` carry the amount of key `(pid, holder)`?
pub open spec fn entry_is(e: AmountEntry, pid: PropertyId, holder: UserId) -> bool {
    e.property_id == pid && e.holder == holder
}

/// No two entries share a key, so a key's first match is its only match.
pub open spec fn unique_keys(s: Seq<AmountEntry>) -> bool {
    forall|i: int, j: int|
        0 <= i < j < s.len() ==> !(#[trigger] s[i].property_id == #[trigger] s[j].property_id
            && s[i].holder == s[j].holder)
}

/// The amount kept for key `(pid, holder)`: the first matching entry's
/// amount, or 0 when no entry matches — a zero balance and an absent entry
/// are indistinguishable.
pub open spec fn amount_in(s: Seq<AmountEntry>, pid: PropertyId, holder: UserId) -> u64
    decreases s.len(),
{
    if s.len() == 0 {
        0
    } else if entry_is(s[0], pid, holder) {
        s[0].amount
    } else {
        amount_in(s.drop_first(), pid, holder)
    }
}

/// The sum of the amounts of every entry of property `pid`, over all holders.
pub open spec fn sum_for(s: Seq<AmountEntry>, pid: PropertyId) -> int
    decreases s.len(),
{
    if s.len() == 0 {
        0
    } else {
        (if s[0].property_id == pid {
            s[0].amount as int
        } else {
            0
        }) + sum_for(s.drop_first(), pid)
    }
}

/// A per-property sum is a sum of non-negative amounts.
pub proof fn lemma_sum_nonneg(s: Seq<AmountEntry>, pid: PropertyId)
    ensures
        sum_for(s, pid) >= 0,
    decreases s.len(),
{
    if s.len() > 0 {
        lemma_sum_nonneg(s.drop_first(), pid);
    }
}

/// Appending an entry adds exactly its contribution to each per-property sum.
pub proof fn lemma_sum_push(s: Seq<AmountEntry>, e: AmountEntry, pid: PropertyId)
    ensures
        sum_for(s.push(e), pid) == sum_for(s, pid) + (if e.property_id == pid {
            e.amount as int
        } else {
            0
        }),
    decreases s.len(),
{
    assert(s.push(e).len() == s.len() + 1);
    if s.len() == 0 {
        assert(s.push(e)[0] == e);
        assert(s.push(e).drop_first() =~= Seq::<AmountEntry>::empty());
        assert(sum_for(Seq::<AmountEntry>::empty(), pid) == 0);
    } else {
        assert(s.push(e)[0] == s[0]);
        assert(s.push(e).drop_first() =~= s.drop_first().push(e));
        lemma_sum_push(s.drop_first(), e, pid);
    }
}

/// Replacing the entry at index `i` changes each per-property sum by the
/// difference of the two entries' contributions.
pub proof fn lemma_sum_update(s: Seq<AmountEntry>, i: int, e: AmountEntry, pid: PropertyId)
    requires
        0 <= i < s.len(),
    ensures
        sum_for(s.update(i, e), pid) == sum_for(s, pid) + (if e.property_id == pid {
            e.amount as int
        } else {
            0
        }) - (if s[i].property_id == pid {
            s[i].amount as int
        } else {
            0
        }),
    decreases s.len(),
{
    if i == 0 {
        assert(s.update(0, e).drop_first() =~= s.drop_first());
    } else {
        assert(s.update(i, e).drop_first() =~= s.drop_first().update(i - 1, e));
        lemma_sum_update(s.drop_first(), i - 1, e, pid);
    }
}

/// A single key's amount never exceeds its property's sum.
pub proof fn lemma_amount_le_sum(s: Seq<AmountEntry>, pid: PropertyId, holder: UserId)
    ensures
        amount_in(s, pid, holder) <= sum_for(s, pid),
    decreases s.len(),
{
    lemma_sum_nonneg(s, pid);
    if s.len() > 0 {
        lemma_amount_le_sum(s.drop_first(), pid, holder);
        lemma_sum_nonneg(s.drop_first(), pid);
    }
}

/// Two distinct keys of one property together never exceed its sum.
pub proof fn lemma_two_amounts_le_sum(s: Seq<AmountEntry>, pid: PropertyId, h1: UserId, h2: UserId)
    requires
        h1 != h2,
    ensures
        amount_in(s, pid, h1) + amount_in(s, pid, h2) <= sum_for(s, pid),
    decreases s.len(),
{
    lemma_sum_nonneg(s, pid);
    if s.len() > 0 {
        lemma_two_amounts_le_sum(s.drop_first(), pid, h1, h2);
        if entry_is(s[0], pid, h1) {
            lemma_amount_le_sum(s.drop_first(), pid, h2);
        } else if entry_is(s[0], pid, h2) {
            lemma_amount_le_sum(s.drop_first(), pid, h1);
        }
    }
}

/// When entry `i` is the first match of its key, the lookup returns it.
pub proof fn lemma_amount_at_first_match(s: Seq<AmountEntry>, pid: PropertyId, holder: UserId, i: int)
    requires
        0 <= i < s.len(),
        entry_is(s[i], pid, holder),
        forall|j: int| 0 <= j < i ==> !entry_is(#[trigger] s[j], pid, holder),
    ensures
        amount_in(s, pid, holder) == s[i].amount,
    decreases s.len(),
{
    if i > 0 {
        lemma_amount_at_first_match(s.drop_first(), pid, holder, i - 1);
    }
}

/// When no entry matches the key, the lookup returns 0.
pub proof fn lemma_amount_no_match(s: Seq<AmountEntry>, pid: PropertyId, holder: UserId)
    requires
        forall|j: int| 0 <= j < s.len() ==> !entry_is(#[trigger] s[j], pid, holder),
    ensures
        amount_in(s, pid, holder) == 0,
    decreases s.len(),
{
    if s.len() > 0 {
        lemma_amount_no_match(s.drop_first(), pid, holder);
    }
}

/// Appending an entry whose key was absent sets that key's amount and leaves
/// every other key's amount as it was.
pub proof fn lemma_amount_push(
    s: Seq<AmountEntry>,
    e: AmountEntry,
    pid: PropertyId,
    holder: UserId,
)
    requires
        forall|j: int| 0 <= j < s.len() ==> !entry_is(#[trigger] s[j], e.property_id, e.holder),
    ensures
        amount_in(s.push(e), pid, holder) == if entry_is(e, pid, holder) {
            e.amount
        } else {
            amount_in(s, pid, holder)
        },
    decreases s.len(),
{
    assert(s.push(e).len() == s.len() + 1);
    if s.len() == 0 {
        assert(s.push(e)[0] == e);
        assert(s.push(e).drop_first() =~= Seq::<AmountEntry>::empty());
        assert(amount_in(Seq::<AmountEntry>::empty(), pid, holder) == 0);
    } else {
        assert(s.push(e)[0] == s[0]);
        assert(s.push(e).drop_first() =~= s.drop_first().push(e));
        lemma_amount_push(s.drop_first(), e, pid, holder);
    }
}

/// Replacing the entry at index `i` by one of the same key sets that key's
/// amount and leaves every other key's amount as it was. Needs unique keys,
/// so that index `i` is the key's only match.
pub proof fn lemma_amount_update(
    s: Seq<AmountEntry>,
    i: int,
    e: AmountEntry,
    pid: PropertyId,
    holder: UserId,
)
    requires
        unique_keys(s),
        0 <= i < s.len(),
        e.property_id == s[i].property_id,
        e.holder == s[i].holder,
    ensures
        amount_in(s.update(i, e), pid, holder) == if entry_is(e, pid, holder) {
            e.amount
        } else {
            amount_in(s, pid, holder)
        },
    decreases s.len(),
{
    if i == 0 {
        assert(s.update(0, e).drop_first() =~= s.drop_first());
        if entry_is(e, pid, holder) {
            assert(entry_is(s[0], pid, holder));
        }
    } else {
        assert(s.update(i, e).drop_first() =~= s.drop_first().update(i - 1, e));
        assert(unique_keys(s.drop_first())) by {
            assert(forall|x: int, y: int|
                0 <= x < y < s.drop_first().len() ==> s.drop_first()[x] == s[x + 1]
                    && s.drop_first()[y] == s[y + 1]);
        }
        lemma_amount_update(s.drop_first(), i - 1, e, pid, holder);
        if entry_is(s[0], pid, holder) {
            assert(!entry_is(s[i], pid, holder));
            assert(!entry_is(e, pid, holder));
        }
    }
}

/// Updating an entry in place keeps the keys, and so keeps them unique.
pub proof fn lemma_unique_keys_update(s: Seq<AmountEntry>, i: int, e: AmountEntry)
    requires
        unique_keys(s),
        0 <= i < s.len(),
        e.property_id == s[i].property_id,
        e.holder == s[i].holder,
    ensures
        unique_keys(s.update(i, e)),
{
}

/// Appending an absent key keeps the keys unique.
pub proof fn lemma_unique_keys_push(s: Seq<AmountEntry>, e: AmountEntry)
    requires
        unique_keys(s),
        forall|j: int| 0 <= j < s.len() ==> !entry_is(#[trigger] s[j], e.property_id, e.holder),
    ensures
        unique_keys(s.push(e)),
{
}

/// A key with a non-zero amount has an entry carrying that amount.
pub proof fn lemma_amount_has_entry(s: Seq<AmountEntry>, pid: PropertyId, holder: UserId)
    requires
        amount_in(s, pid, holder) != 0,
    ensures
        exists|j: int|
            0 <= j < s.len() && entry_is(#[trigger] s[j], pid, holder) && s[j].amount == amount_in(
                s,
                pid,
                holder,
            ),
    decreases s.len(),
{
    if s.len() > 0 {
        if entry_is(s[0], pid, holder) {
            assert(entry_is(s[0], pid, holder) && s[0].amount == amount_in(s, pid, holder));
        } else {
            lemma_amount_has_entry(s.drop_first(), pid, holder);
            let j = choose|j: int|
                0 <= j < s.drop_first().len() && entry_is(#[trigger] s.drop_first()[j], pid, holder)
                    && s.drop_first()[j].amount == amount_in(s.drop_first(), pid, holder);
            assert(entry_is(s[j + 1], pid, holder) && s[j + 1].amount == amount_in(s, pid, holder));
        }
    }
}

/// Deleting the entry at index `i` zeroes its key's amount — with unique
/// keys it was the key's only entry — and leaves every other key's amount as
/// it was.
pub proof fn lemma_amount_remove(s: Seq<AmountEntry>, i: int, pid: PropertyId, holder: UserId)
    requires
        unique_keys(s),
        0 <= i < s.len(),
    ensures
        amount_in(s.remove(i), pid, holder) == if entry_is(s[i], pid, holder) {
            0
        } else {
            amount_in(s, pid, holder)
        },
    decreases s.len(),
{
    s.remove_ensures(i);
    if i == 0 {
        assert(s.remove(0) =~= s.drop_first());
        if entry_is(s[0], pid, holder) {
            assert forall|j: int| 0 <= j < s.drop_first().len() implies !entry_is(
                #[trigger] s.drop_first()[j],
                pid,
                holder,
            ) by {
                assert(s.drop_first()[j] == s[j + 1]);
            }
            lemma_amount_no_match(s.drop_first(), pid, holder);
        }
    } else {
        assert(s.remove(i)[0] == s[0]);
        assert(s.remove(i).drop_first() =~= s.drop_first().remove(i - 1));
        assert(unique_keys(s.drop_first())) by {
            assert(forall|x: int, y: int|
                0 <= x < y < s.drop_first().len() ==> s.drop_first()[x] == s[x + 1]
                    && s.drop_first()[y] == s[y + 1]);
        }
        lemma_amount_remove(s.drop_first(), i - 1, pid, holder);
    }
}

/// Deleting the entry at index `i` takes exactly its contribution out of
/// each per-property sum.
pub proof fn lemma_sum_remove(s: Seq<AmountEntry>, i: int, pid: PropertyId)
    requires
        0 <= i < s.len(),
    ensures
        sum_for(s.remove(i), pid) == sum_for(s, pid) - (if s[i].property_id == pid {
            s[i].amount as int
        } else {
            0
        }),
    decreases s.len(),
{
    s.remove_ensures(i);
    if i == 0 {
        assert(s.remove(0) =~= s.drop_first());
    } else {
        assert(s.remove(i)[0] == s[0]);
        assert(s.remove(i).drop_first() =~= s.drop_first().remove(i - 1));
        lemma_sum_remove(s.drop_first(), i - 1, pid);
    }
}

/// Deleting an entry keeps the remaining keys, and so keeps them unique.
pub proof fn lemma_unique_keys_remove(s: Seq<AmountEntry>, i: int)
    requires
        unique_keys(s),
        0 <= i < s.len(),
    ensures
        unique_keys(s.remove(i)),
{
    s.remove_ensures(i);
    assert forall|x: int, y: int|
        0 <= x < y < s.remove(i).len() implies !(#[trigger] s.remove(i)[x].property_id
        == #[trigger] s.remove(i)[y].property_id && s.remove(i)[x].holder == s.remove(
        i,
    )[y].holder) by {
        let x0 = if x < i {
            x
        } else {
            x + 1
        };
        let y0 = if y < i {
            y
        } else {
            y + 1
        };
        assert(s.remove(i)[x] == s[x0]);
        assert(s.remove(i)[y] == s[y0]);
    }
}

/// Index of the first entry of key `(pid, holder)`, if any.
pub fn find_entry(s: &Vec<AmountEntry>, pid: PropertyId, holder: UserId) -> (r: Option<usize>)
    ensures
        match r {
            Some(i) => i < s@.len() && entry_is(s@[i as int], pid, holder) && forall|j: int|
                0 <= j < i ==> !entry_is(#[trigger] s@[j], pid, holder),
            None => forall|j: int| 0 <= j < s@.len() ==> !entry_is(#[trigger] s@[j], pid, holder),
        },
{
    let mut i: usize = 0;
    while i < s.len()
        invariant
            i <= s@.len(),
            forall|j: int| 0 <= j < i ==> !entry_is(#[trigger] s@[j], pid, holder),
        decreases s@.len() - i,
    {
        if s[i].property_id == pid && s[i].holder == holder {
            return Some(i);
        }
        i = i + 1;
    }
    None
}

/// The amount kept for key `(pid, holder)`, 0 when the key is absent.
pub fn amount_of(s: &Vec<AmountEntry>, pid: PropertyId, holder: UserId) -> (r: u64)
    ensures
        r == amount_in(s@, pid, holder),
{
    match find_entry(s, pid, holder) {
        Some(i) => {
            proof {
                lemma_amount_at_first_match(s@, pid, holder, i as int);
            }
            s[i].amount
        },
        None => {
            proof {
                lemma_amount_no_match(s@, pid, holder);
            }
            0
        },
    }
}

/// Adds `amount` to key `(pid, holder)`, creating the entry if absent.
/// Exactly that key's amount grows, and exactly that property's sum.
pub fn credit(s: &mut Vec<AmountEntry>, pid: PropertyId, holder: UserId, amount: u64)
    requires
        unique_keys(old(s)@),
        amount_in(old(s)@, pid, holder) + amount <= u64::MAX,
    ensures
        unique_keys(final(s)@),
        forall|p: PropertyId, h: UserId|
            #[trigger] amount_in(final(s)@, p, h) == if p == pid && h == holder {
                (amount_in(old(s)@, p, h) + amount) as u64
            } else {
                amount_in(old(s)@, p, h)
            },
        forall|p: PropertyId|
            #[trigger] sum_for(final(s)@, p) == sum_for(old(s)@, p) + (if p == pid {
                amount as int
            } else {
                0
            }),
{
    let ghost pre = s@;
    match find_entry(s, pid, holder) {
        Some(i) => {
            proof {
                lemma_amount_at_first_match(pre, pid, holder, i as int);
            }
            let e = AmountEntry { property_id: pid, holder, amount: s[i].amount + amount };
            s[i] = e;
            proof {
                lemma_unique_keys_update(pre, i as int, e);
                assert forall|p: PropertyId, h: UserId|
                    #[trigger] amount_in(s@, p, h) == if p == pid && h == holder {
                        (amount_in(pre, p, h) + amount) as u64
                    } else {
                        amount_in(pre, p, h)
                    } by {
                    lemma_amount_update(pre, i as int, e, p, h);
                }
                assert forall|p: PropertyId|
                    #[trigger] sum_for(s@, p) == sum_for(pre, p) + (if p == pid {
                        amount as int
                    } else {
                        0
                    }) by {
                    lemma_sum_update(pre, i as int, e, p);
                }
            }
        },
        None => {
            proof {
                lemma_amount_no_match(pre, pid, holder);
            }
            let e = AmountEntry { property_id: pid, holder, amount };
            s.push(e);
            proof {
                lemma_unique_keys_push(pre, e);
                assert forall|p: PropertyId, h: UserId|
                    #[trigger] amount_in(s@, p, h) == if p == pid && h == holder {
                        (amount_in(pre, p, h) + amount) as u64
                    } else {
                        amount_in(pre, p, h)
                    } by {
                    lemma_amount_push(pre, e, p, h);
                }
                assert forall|p: PropertyId|
                    #[trigger] sum_for(s@, p) == sum_for(pre, p) + (if p == pid {
                        amount as int
                    } else {
                        0
                    }) by {
                    lemma_sum_push(pre, e, p);
                }
            }
        },
    }
}

/// Deletes the entry of key `(pid, holder)`, returning the amount it held
/// (0 when the key was absent). The key's amount drops to 0 by losing its
/// stored entry, exactly as a claim empties an entitlement.
pub fn remove_entry(s: &mut Vec<AmountEntry>, pid: PropertyId, holder: UserId) -> (r: u64)
    requires
        unique_keys(old(s)@),
    ensures
        unique_keys(final(s)@),
        r == amount_in(old(s)@, pid, holder),
        forall|j: int| 0 <= j < final(s)@.len() ==> !entry_is(#[trigger] final(s)@[j], pid, holder),
        forall|p: PropertyId, h: UserId|
            #[trigger] amount_in(final(s)@, p, h) == if p == pid && h == holder {
                0
            } else {
                amount_in(old(s)@, p, h)
            },
        forall|p: PropertyId|
            #[trigger] sum_for(final(s)@, p) == sum_for(old(s)@, p) - (if p == pid {
                amount_in(old(s)@, pid, holder) as int
            } else {
                0
            }),
{
    let ghost pre = s@;
    match find_entry(s, pid, holder) {
        Some(i) => {
            proof {
                lemma_amount_at_first_match(pre, pid, holder, i as int);
            }
            let a = s[i].amount;
            s.remove(i);
            proof {
                lemma_unique_keys_remove(pre, i as int);
                pre.remove_ensures(i as int);
                assert forall|j: int| 0 <= j < s@.len() implies !entry_is(
                    #[trigger] s@[j],
                    pid,
                    holder,
                ) by {
                    let j0 = if j < i {
                        j
                    } else {
                        j + 1
                    };
                    assert(s@[j] == pre[j0]);
                }
                assert forall|p: PropertyId, h: UserId|
                    #[trigger] amount_in(s@, p, h) == if p == pid && h == holder {
                        0
                    } else {
                        amount_in(pre, p, h)
                    } by {
                    lemma_amount_remove(pre, i as int, p, h);
                }
                assert forall|p: PropertyId|
                    #[trigger] sum_for(s@, p) == sum_for(pre, p) - (if p == pid {
                        amount_in(pre, pid, holder) as int
                    } else {
                        0
                    }) by {
                    lemma_sum_remove(pre, i as int, p);
                }
            }
            a
        },
        None => {
            proof {
                lemma_amount_no_match(pre, pid, holder);
            }
            0
        },
    }
}

/// Removes `amount` from key `(pid, holder)`; the key must cover it.
/// Exactly that key's amount shrinks, and exactly that property's sum.
pub fn debit(s: &mut Vec<AmountEntry>, pid: PropertyId, holder: UserId, amount: u64)
    requires
        unique_keys(old(s)@),
        amount <= amount_in(old(s)@, pid, holder),
    ensures
        unique_keys(final(s)@),
        forall|p: PropertyId, h: UserId|
            #[trigger] amount_in(final(s)@, p, h) == if p == pid && h == holder {
                (amount_in(old(s)@, p, h) - amount) as u64
            } else {
                amount_in(old(s)@, p, h)
            },
        forall|p: PropertyId|
            #[trigger] sum_for(final(s)@, p) == sum_for(old(s)@, p) - (if p == pid {
                amount as int
            } else {
                0
            }),
{
    let ghost pre = s@;
    match find_entry(s, pid, holder) {
        Some(i) => {
            proof {
                lemma_amount_at_first_match(pre, pid, holder, i as int);
            }
            let e = AmountEntry { property_id: pid, holder, amount: s[i].amount - amount };
            s[i] = e;
            proof {
                lemma_unique_keys_update(pre, i as int, e);
                assert forall|p: PropertyId, h: UserId|
                    #[trigger] amount_in(s@, p, h) == if p == pid && h == holder {
                        (amount_in(pre, p, h) - amount) as u64
                    } else {
                        amount_in(pre, p, h)
                    } by {
                    lemma_amount_update(pre, i as int, e, p, h);
                }
                assert forall|p: PropertyId|
                    #[trigger] sum_for(s@, p) == sum_for(pre, p) - (if p == pid {
                        amount as int
                    } else {
                        0
                    }) by {
                    lemma_sum_update(pre, i as int, e, p);
                }
            }
        },
        None => {
            proof {
                lemma_amount_no_match(pre, pid, holder);
                assert(amount == 0);
            }
        },
    }
}

} // verus!
