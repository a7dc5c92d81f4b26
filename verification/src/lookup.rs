//! Lookup by key in the remaining tables of the state: properties and
//! proposals by id, roles and KYC flags by identity. Each table keeps at most
//! one entry per key; roles and KYC flags fall back to an explicit default
//! when the key is absent.

use vstd::prelude::*;

use crate::types::KycEntry;
use crate::types::Property;
use crate::types::PropertyId;
use crate::types::Proposal;
use crate::types::Role;
use crate::types::RoleEntry;
use crate::types::UserId;

verus! {

/// No two properties share an id.
pub open spec fn unique_property_ids(s: Seq<Property>) -> bool {
    forall|i: int, j: int| 0 <= i < j < s.len() ==> #[trigger] s[i].id != #[trigger] s[j].id
}

/// The property with id `pid`, if registered.
pub open spec fn property_in(s: Seq<Property>, pid: PropertyId) -> Option<Property>
    decreases s.len(),
{
    if s.len() == 0 {
        None
    } else if s[0].id == pid {
        Some(s[0])
    } else {
        property_in(s.drop_first(), pid)
    }
}

/// When entry `i` is the first of its id, the lookup returns it.
pub proof fn lemma_property_at_first_match(s: Seq<Property>, i: int)
    requires
        0 <= i < s.len(),
        forall|j: int| 0 <= j < i ==> #[trigger] s[j].id != s[i].id,
    ensures
        property_in(s, s[i].id) == Some(s[i]),
    decreases s.len(),
{
    if i > 0 {
        lemma_property_at_first_match(s.drop_first(), i - 1);
    }
}

/// When no entry carries the id, the lookup returns `None`.
pub proof fn lemma_property_no_match(s: Seq<Property>, pid: PropertyId)
    requires
        forall|j: int| 0 <= j < s.len() ==> #[trigger] s[j].id != pid,
    ensures
        property_in(s, pid) == None::<Property>,
    decreases s.len(),
{
    if s.len() > 0 {
        lemma_property_no_match(s.drop_first(), pid);
    }
}

/// Appending a property with a fresh id registers it and no other.
pub proof fn lemma_property_push(s: Seq<Property>, e: Property, pid: PropertyId)
    requires
        forall|j: int| 0 <= j < s.len() ==> #[trigger] s[j].id != e.id,
    ensures
        property_in(s.push(e), pid) == if pid == e.id {
            Some(e)
        } else {
            property_in(s, pid)
        },
    decreases s.len(),
{
    assert(s.push(e).len() == s.len() + 1);
    if s.len() == 0 {
        assert(s.push(e)[0] == e);
        assert(s.push(e).drop_first() =~= Seq::<Property>::empty());
        assert(property_in(Seq::<Property>::empty(), pid) == None::<Property>);
    } else {
        assert(s.push(e)[0] == s[0]);
        assert(s.push(e).drop_first() =~= s.drop_first().push(e));
        lemma_property_push(s.drop_first(), e, pid);
    }
}

/// Replacing the property at index `i` by one with the same id changes that
/// id's lookup and no other. Needs unique ids.
pub proof fn lemma_property_update(s: Seq<Property>, i: int, e: Property, pid: PropertyId)
    requires
        unique_property_ids(s),
        0 <= i < s.len(),
        e.id == s[i].id,
    ensures
        property_in(s.update(i, e), pid) == if pid == e.id {
            Some(e)
        } else {
            property_in(s, pid)
        },
    decreases s.len(),
{
    if i == 0 {
        assert(s.update(0, e).drop_first() =~= s.drop_first());
    } else {
        assert(s.update(i, e).drop_first() =~= s.drop_first().update(i - 1, e));
        assert(unique_property_ids(s.drop_first())) by {
            assert(forall|x: int, y: int|
                0 <= x < y < s.drop_first().len() ==> s.drop_first()[x] == s[x + 1]
                    && s.drop_first()[y] == s[y + 1]);
        }
        lemma_property_update(s.drop_first(), i - 1, e, pid);
    }
}

/// Index of the property with id `pid`, if any.
pub fn find_property(s: &Vec<Property>, pid: PropertyId) -> (r: Option<usize>)
    ensures
        match r {
            Some(i) => i < s@.len() && s@[i as int].id == pid && forall|j: int|
                0 <= j < i ==> #[trigger] s@[j].id != pid,
            None => forall|j: int| 0 <= j < s@.len() ==> #[trigger] s@[j].id != pid,
        },
{
    let mut i: usize = 0;
    while i < s.len()
        invariant
            i <= s@.len(),
            forall|j: int| 0 <= j < i ==> #[trigger] s@[j].id != pid,
        decreases s@.len() - i,
    {
        if s[i].id == pid {
            return Some(i);
        }
        i = i + 1;
    }
    None
}

/// No two proposals share an id.
pub open spec fn unique_proposal_ids(s: Seq<Proposal>) -> bool {
    forall|i: int, j: int| 0 <= i < j < s.len() ==> #[trigger] s[i].id != #[trigger] s[j].id
}

/// The proposal with id `id`, if submitted.
pub open spec fn proposal_in(s: Seq<Proposal>, id: u64) -> Option<Proposal>
    decreases s.len(),
{
    if s.len() == 0 {
        None
    } else if s[0].id == id {
        Some(s[0])
    } else {
        proposal_in(s.drop_first(), id)
    }
}

/// When entry `i` is the first of its id, the lookup returns it.
pub proof fn lemma_proposal_at_first_match(s: Seq<Proposal>, i: int)
    requires
        0 <= i < s.len(),
        forall|j: int| 0 <= j < i ==> #[trigger] s[j].id != s[i].id,
    ensures
        proposal_in(s, s[i].id) == Some(s[i]),
    decreases s.len(),
{
    if i > 0 {
        lemma_proposal_at_first_match(s.drop_first(), i - 1);
    }
}

/// When no entry carries the id, the lookup returns `None`.
pub proof fn lemma_proposal_no_match(s: Seq<Proposal>, id: u64)
    requires
        forall|j: int| 0 <= j < s.len() ==> #[trigger] s[j].id != id,
    ensures
        proposal_in(s, id) == None::<Proposal>,
    decreases s.len(),
{
    if s.len() > 0 {
        lemma_proposal_no_match(s.drop_first(), id);
    }
}

/// Appending a proposal with a fresh id submits it and no other.
pub proof fn lemma_proposal_push(s: Seq<Proposal>, e: Proposal, id: u64)
    requires
        forall|j: int| 0 <= j < s.len() ==> #[trigger] s[j].id != e.id,
    ensures
        proposal_in(s.push(e), id) == if id == e.id {
            Some(e)
        } else {
            proposal_in(s, id)
        },
    decreases s.len(),
{
    assert(s.push(e).len() == s.len() + 1);
    if s.len() == 0 {
        assert(s.push(e)[0] == e);
        assert(s.push(e).drop_first() =~= Seq::<Proposal>::empty());
        assert(proposal_in(Seq::<Proposal>::empty(), id) == None::<Proposal>);
    } else {
        assert(s.push(e)[0] == s[0]);
        assert(s.push(e).drop_first() =~= s.drop_first().push(e));
        lemma_proposal_push(s.drop_first(), e, id);
    }
}

/// Replacing the proposal at index `i` by one with the same id changes that
/// id's lookup and no other. Needs unique ids.
pub proof fn lemma_proposal_update(s: Seq<Proposal>, i: int, e: Proposal, id: u64)
    requires
        unique_proposal_ids(s),
        0 <= i < s.len(),
        e.id == s[i].id,
    ensures
        proposal_in(s.update(i, e), id) == if id == e.id {
            Some(e)
        } else {
            proposal_in(s, id)
        },
    decreases s.len(),
{
    if i == 0 {
        assert(s.update(0, e).drop_first() =~= s.drop_first());
    } else {
        assert(s.update(i, e).drop_first() =~= s.drop_first().update(i - 1, e));
        assert(unique_proposal_ids(s.drop_first())) by {
            assert(forall|x: int, y: int|
                0 <= x < y < s.drop_first().len() ==> s.drop_first()[x] == s[x + 1]
                    && s.drop_first()[y] == s[y + 1]);
        }
        lemma_proposal_update(s.drop_first(), i - 1, e, id);
    }
}

/// Index of the proposal with id `id`, if any.
pub fn find_proposal(s: &Vec<Proposal>, id: u64) -> (r: Option<usize>)
    ensures
        match r {
            Some(i) => i < s@.len() && s@[i as int].id == id && forall|j: int|
                0 <= j < i ==> #[trigger] s@[j].id != id,
            None => forall|j: int| 0 <= j < s@.len() ==> #[trigger] s@[j].id != id,
        },
{
    let mut i: usize = 0;
    while i < s.len()
        invariant
            i <= s@.len(),
            forall|j: int| 0 <= j < i ==> #[trigger] s@[j].id != id,
        decreases s@.len() - i,
    {
        if s[i].id == id {
            return Some(i);
        }
        i = i + 1;
    }
    None
}

/// No two role entries name the same identity.
pub open spec fn unique_role_users(s: Seq<RoleEntry>) -> bool {
    forall|i: int, j: int| 0 <= i < j < s.len() ==> #[trigger] s[i].user != #[trigger] s[j].user
}

/// The role assigned to `user`; identities without an entry are plain users.
pub open spec fn role_in(s: Seq<RoleEntry>, user: UserId) -> Role
    decreases s.len(),
{
    if s.len() == 0 {
        Role::User
    } else if s[0].user == user {
        s[0].role
    } else {
        role_in(s.drop_first(), user)
    }
}

/// The role assigned to `user`, read from the table.
pub fn role_lookup(s: &Vec<RoleEntry>, user: UserId) -> (r: Role)
    ensures
        r == role_in(s@, user),
{
    proof {
        assert(s@.skip(0) =~= s@);
    }
    let mut i: usize = 0;
    while i < s.len()
        invariant
            i <= s@.len(),
            role_in(s@, user) == role_in(s@.skip(i as int), user),
        decreases s@.len() - i,
    {
        if s[i].user == user {
            proof {
                assert(s@.skip(i as int)[0] == s@[i as int]);
            }
            return s[i].role;
        }
        proof {
            assert(s@.skip(i as int)[0] == s@[i as int]);
            assert(s@.skip(i as int).drop_first() =~= s@.skip(i + 1 as int));
        }
        i = i + 1;
    }
    Role::User
}

/// Assigns `role` to `user`, replacing an earlier assignment if present.
/// Exactly `user`'s role changes.
pub fn assign_role(s: &mut Vec<RoleEntry>, user: UserId, role: Role)
    requires
        unique_role_users(old(s)@),
    ensures
        unique_role_users(final(s)@),
        forall|u: UserId|
            #[trigger] role_in(final(s)@, u) == if u == user {
                role
            } else {
                role_in(old(s)@, u)
            },
{
    let ghost pre = s@;
    let mut i: usize = 0;
    while i < s.len()
        invariant
            i <= s@.len(),
            s@ == pre,
            pre == old(s)@,
            unique_role_users(pre),
            forall|j: int| 0 <= j < i ==> #[trigger] s@[j].user != user,
        decreases s@.len() - i,
    {
        if s[i].user == user {
            let e = RoleEntry { user, role };
            s[i] = e;
            proof {
                assert forall|u: UserId|
                    #[trigger] role_in(s@, u) == if u == user {
                        role
                    } else {
                        role_in(pre, u)
                    } by {
                    lemma_role_update(pre, i as int, e, u);
                }
            }
            return ;
        }
        i = i + 1;
    }
    let e = RoleEntry { user, role };
    s.push(e);
    proof {
        assert forall|u: UserId|
            #[trigger] role_in(s@, u) == if u == user {
                role
            } else {
                role_in(pre, u)
            } by {
            lemma_role_push(pre, e, u);
        }
    }
}

/// Replacing the entry at index `i` by one for the same identity changes that
/// identity's role and no other. Needs unique identities.
proof fn lemma_role_update(s: Seq<RoleEntry>, i: int, e: RoleEntry, user: UserId)
    requires
        unique_role_users(s),
        0 <= i < s.len(),
        e.user == s[i].user,
    ensures
        role_in(s.update(i, e), user) == if user == e.user {
            e.role
        } else {
            role_in(s, user)
        },
    decreases s.len(),
{
    if i == 0 {
        assert(s.update(0, e).drop_first() =~= s.drop_first());
    } else {
        assert(s.update(i, e).drop_first() =~= s.drop_first().update(i - 1, e));
        assert(unique_role_users(s.drop_first())) by {
            assert(forall|x: int, y: int|
                0 <= x < y < s.drop_first().len() ==> s.drop_first()[x] == s[x + 1]
                    && s.drop_first()[y] == s[y + 1]);
        }
        lemma_role_update(s.drop_first(), i - 1, e, user);
    }
}

/// Appending an entry for an absent identity assigns its role and no other.
proof fn lemma_role_push(s: Seq<RoleEntry>, e: RoleEntry, user: UserId)
    requires
        forall|j: int| 0 <= j < s.len() ==> #[trigger] s[j].user != e.user,
    ensures
        role_in(s.push(e), user) == if user == e.user {
            e.role
        } else {
            role_in(s, user)
        },
    decreases s.len(),
{
    assert(s.push(e).len() == s.len() + 1);
    if s.len() == 0 {
        assert(s.push(e)[0] == e);
        assert(s.push(e).drop_first() =~= Seq::<RoleEntry>::empty());
        assert(role_in(Seq::<RoleEntry>::empty(), user) == Role::User);
    } else {
        assert(s.push(e)[0] == s[0]);
        assert(s.push(e).drop_first() =~= s.drop_first().push(e));
        lemma_role_push(s.drop_first(), e, user);
    }
}

/// No two KYC entries name the same identity.
pub open spec fn unique_kyc_users(s: Seq<KycEntry>) -> bool {
    forall|i: int, j: int| 0 <= i < j < s.len() ==> #[trigger] s[i].user != #[trigger] s[j].user
}

/// The KYC flag of `user`; identities without an entry are unverified.
pub open spec fn kyc_in(s: Seq<KycEntry>, user: UserId) -> bool
    decreases s.len(),
{
    if s.len() == 0 {
        false
    } else if s[0].user == user {
        s[0].verified
    } else {
        kyc_in(s.drop_first(), user)
    }
}

/// The KYC flag of `user`, read from the table.
pub fn kyc_lookup(s: &Vec<KycEntry>, user: UserId) -> (r: bool)
    ensures
        r == kyc_in(s@, user),
{
    proof {
        assert(s@.skip(0) =~= s@);
    }
    let mut i: usize = 0;
    while i < s.len()
        invariant
            i <= s@.len(),
            kyc_in(s@, user) == kyc_in(s@.skip(i as int), user),
        decreases s@.len() - i,
    {
        if s[i].user == user {
            proof {
                assert(s@.skip(i as int)[0] == s@[i as int]);
            }
            return s[i].verified;
        }
        proof {
            assert(s@.skip(i as int)[0] == s@[i as int]);
            assert(s@.skip(i as int).drop_first() =~= s@.skip(i + 1 as int));
        }
        i = i + 1;
    }
    false
}

/// Sets the KYC flag of `user`, replacing an earlier flag if present.
/// Exactly `user`'s flag changes.
pub fn assign_kyc(s: &mut Vec<KycEntry>, user: UserId, verified: bool)
    requires
        unique_kyc_users(old(s)@),
    ensures
        unique_kyc_users(final(s)@),
        forall|u: UserId|
            #[trigger] kyc_in(final(s)@, u) == if u == user {
                verified
            } else {
                kyc_in(old(s)@, u)
            },
{
    let ghost pre = s@;
    let mut i: usize = 0;
    while i < s.len()
        invariant
            i <= s@.len(),
            s@ == pre,
            pre == old(s)@,
            unique_kyc_users(pre),
            forall|j: int| 0 <= j < i ==> #[trigger] s@[j].user != user,
        decreases s@.len() - i,
    {
        if s[i].user == user {
            let e = KycEntry { user, verified };
            s[i] = e;
            proof {
                assert forall|u: UserId|
                    #[trigger] kyc_in(s@, u) == if u == user {
                        verified
                    } else {
                        kyc_in(pre, u)
                    } by {
                    lemma_kyc_update(pre, i as int, e, u);
                }
            }
            return ;
        }
        i = i + 1;
    }
    let e = KycEntry { user, verified };
    s.push(e);
    proof {
        assert forall|u: UserId|
            #[trigger] kyc_in(s@, u) == if u == user {
                verified
            } else {
                kyc_in(pre, u)
            } by {
            lemma_kyc_push(pre, e, u);
        }
    }
}

/// Replacing the entry at index `i` by one for the same identity changes that
/// identity's flag and no other. Needs unique identities.
proof fn lemma_kyc_update(s: Seq<KycEntry>, i: int, e: KycEntry, user: UserId)
    requires
        unique_kyc_users(s),
        0 <= i < s.len(),
        e.user == s[i].user,
    ensures
        kyc_in(s.update(i, e), user) == if user == e.user {
            e.verified
        } else {
            kyc_in(s, user)
        },
    decreases s.len(),
{
    if i == 0 {
        assert(s.update(0, e).drop_first() =~= s.drop_first());
    } else {
        assert(s.update(i, e).drop_first() =~= s.drop_first().update(i - 1, e));
        assert(unique_kyc_users(s.drop_first())) by {
            assert(forall|x: int, y: int|
                0 <= x < y < s.drop_first().len() ==> s.drop_first()[x] == s[x + 1]
                    && s.drop_first()[y] == s[y + 1]);
        }
        lemma_kyc_update(s.drop_first(), i - 1, e, user);
    }
}

/// Appending an entry for an absent identity sets its flag and no other.
proof fn lemma_kyc_push(s: Seq<KycEntry>, e: KycEntry, user: UserId)
    requires
        forall|j: int| 0 <= j < s.len() ==> #[trigger] s[j].user != e.user,
    ensures
        kyc_in(s.push(e), user) == if user == e.user {
            e.verified
        } else {
            kyc_in(s, user)
        },
    decreases s.len(),
{
    assert(s.push(e).len() == s.len() + 1);
    if s.len() == 0 {
        assert(s.push(e)[0] == e);
        assert(s.push(e).drop_first() =~= Seq::<KycEntry>::empty());
        assert(kyc_in(Seq::<KycEntry>::empty(), user) == false);
    } else {
        assert(s.push(e)[0] == s[0]);
        assert(s.push(e).drop_first() =~= s.drop_first().push(e));
        lemma_kyc_push(s.drop_first(), e, user);
    }
}

} // verus!
