//! The shared state of the ledger and its well-formedness invariant,
//! including the conservation law: for every registered property, the shares
//! not yet issued plus the sum of all holder balances equal the fixed total.

use vstd::prelude::*;

use crate::lookup::kyc_in;
use crate::lookup::property_in;
use crate::lookup::proposal_in;
use crate::lookup::role_in;
use crate::lookup::unique_kyc_users;
use crate::lookup::unique_property_ids;
use crate::lookup::unique_proposal_ids;
use crate::lookup::unique_role_users;
use crate::table::amount_in;
use crate::table::sum_for;
use crate::table::unique_keys;
use crate::types::AmountEntry;
use crate::types::KycEntry;
use crate::types::Listing;
use crate::types::Property;
use crate::types::PropertyId;
use crate::types::Proposal;
use crate::types::Role;
use crate::types::RoleEntry;
use crate::types::UserId;
use crate::types::VoteEntry;

verus! {

/// The reserved holder slot under which the per-property cumulative income
/// totals are kept in their keyed amount table; the totals are per property
/// alone, so the holder component of that table carries this constant.
pub const INCOME_TOTAL_SLOT: UserId = 0;

/// The whole state of the ledger: registry, ownership, marketplace, income
/// engine, governance and authorization tables. Every operation of the
/// library is an atomic transition on one `Core` value; each one requires
/// [`Core::wf`] and preserves it.
pub struct Core {
    /// Registered properties, in order of registration, ids unique.
    pub properties: Vec<Property>,
    /// The id the next registered property will receive.
    pub next_property_id: u64,
    /// Share balances: at most one entry per (property, holder).
    pub ownership: Vec<AmountEntry>,
    /// Cumulative deposited income per property, under [`INCOME_TOTAL_SLOT`].
    pub income_totals: Vec<AmountEntry>,
    /// Unclaimed income entitlements: at most one entry per (property, holder).
    pub unclaimed: Vec<AmountEntry>,
    /// Open sell offers, in order of listing.
    pub marketplace: Vec<Listing>,
    /// Governance proposals, in order of submission, ids unique.
    pub proposals: Vec<Proposal>,
    /// The id the next submitted proposal will receive.
    pub next_proposal_id: u64,
    /// Role assignments of the authorization gate; absent means `Role::User`.
    pub roles: Vec<RoleEntry>,
    /// KYC flags of the authorization gate; absent means unverified.
    pub kyc: Vec<KycEntry>,
    /// Whether the one-time admin bootstrap has been performed.
    pub bootstrapped: bool,
}

impl Core {
    /// The property registered under `pid`, if any.
    pub open spec fn spec_property(self, pid: PropertyId) -> Option<Property> {
        property_in(self.properties@, pid)
    }

    /// Is a property registered under `pid`?
    pub open spec fn has_property(self, pid: PropertyId) -> bool {
        self.spec_property(pid) is Some
    }

    /// The fixed total share supply of property `pid`, 0 if unregistered.
    pub open spec fn total_shares_of(self, pid: PropertyId) -> u64 {
        match self.spec_property(pid) {
            Some(p) => p.total_shares,
            None => 0,
        }
    }

    /// The not-yet-issued share supply of property `pid`, 0 if unregistered.
    pub open spec fn available_of(self, pid: PropertyId) -> u64 {
        match self.spec_property(pid) {
            Some(p) => p.shares_available,
            None => 0,
        }
    }

    /// The share balance of `holder` for property `pid`; 0 when absent.
    pub open spec fn balance_of(self, pid: PropertyId, holder: UserId) -> u64 {
        amount_in(self.ownership@, pid, holder)
    }

    /// The sum of all holder balances of property `pid`.
    pub open spec fn sum_balances(self, pid: PropertyId) -> int {
        sum_for(self.ownership@, pid)
    }

    /// The unclaimed income entitlement of `holder` for property `pid`.
    pub open spec fn unclaimed_of(self, pid: PropertyId, holder: UserId) -> u64 {
        amount_in(self.unclaimed@, pid, holder)
    }

    /// The cumulative income ever deposited for property `pid`.
    pub open spec fn income_total_of(self, pid: PropertyId) -> u64 {
        amount_in(self.income_totals@, pid, INCOME_TOTAL_SLOT)
    }

    /// The role of identity `user`; `Role::User` when none was assigned.
    pub open spec fn role_of(self, user: UserId) -> Role {
        role_in(self.roles@, user)
    }

    /// The KYC flag of identity `user`; unverified when none was set.
    pub open spec fn kyc_of(self, user: UserId) -> bool {
        kyc_in(self.kyc@, user)
    }

    /// The proposal submitted under `id`, if any.
    pub open spec fn spec_proposal(self, id: u64) -> Option<Proposal> {
        proposal_in(self.proposals@, id)
    }

    /// Registry part of the invariant: ids are unique, at least 1 and below
    /// the next free id, and no property has more shares available than its
    /// fixed total.
    pub open spec fn registry_wf(self) -> bool {
        &&& 1 <= self.next_property_id
        &&& unique_property_ids(self.properties@)
        &&& forall|i: int|
            0 <= i < self.properties@.len() ==> {
                &&& 1 <= (#[trigger] self.properties@[i]).id < self.next_property_id
                &&& self.properties@[i].shares_available <= self.properties@[i].total_shares
            }
    }

    /// The conservation law: for a registered property the sum of all holder
    /// balances is exactly the issued part of its supply; for an unregistered
    /// id no shares exist at all.
    pub open spec fn conservation(self) -> bool {
        forall|pid: PropertyId|
            #[trigger] sum_for(self.ownership@, pid) == match property_in(
                self.properties@,
                pid,
            ) {
                Some(p) => p.total_shares - p.shares_available,
                None => 0,
            }
    }

    /// Governance part of the invariant: proposal ids are unique, at least 1
    /// and below the next free id, and no identity appears twice in one
    /// proposal's vote list.
    pub open spec fn governance_wf(self) -> bool {
        &&& 1 <= self.next_proposal_id
        &&& unique_proposal_ids(self.proposals@)
        &&& forall|i: int|
            0 <= i < self.proposals@.len() ==> 1 <= (#[trigger] self.proposals@[i]).id
                < self.next_proposal_id
        &&& forall|i: int|
            0 <= i < self.proposals@.len() ==> unique_voters(
                (#[trigger] self.proposals@[i]).votes@,
            )
    }

    /// The whole well-formedness invariant of the state.
    pub open spec fn wf(self) -> bool {
        &&& self.registry_wf()
        &&& unique_keys(self.ownership@)
        &&& unique_keys(self.unclaimed@)
        &&& unique_keys(self.income_totals@)
        &&& self.conservation()
        &&& self.governance_wf()
        &&& unique_role_users(self.roles@)
        &&& unique_kyc_users(self.kyc@)
    }

    /// The empty state: no properties, balances, listings, income, proposals
    /// or assignments, with the bootstrap still open.
    pub fn new() -> (r: Core)
        ensures
            r.wf(),
            r.properties@.len() == 0,
            r.next_property_id == 1,
            r.ownership@.len() == 0,
            r.income_totals@.len() == 0,
            r.unclaimed@.len() == 0,
            r.marketplace@.len() == 0,
            r.proposals@.len() == 0,
            r.next_proposal_id == 1,
            r.roles@.len() == 0,
            r.kyc@.len() == 0,
            !r.bootstrapped,
            forall|pid: PropertyId, h: UserId| #[trigger] r.balance_of(pid, h) == 0,
            forall|pid: PropertyId| !(#[trigger] r.has_property(pid)),
            forall|u: UserId| #[trigger] r.role_of(u) == Role::User,
    {
        let r = Core {
            properties: Vec::new(),
            next_property_id: 1,
            ownership: Vec::new(),
            income_totals: Vec::new(),
            unclaimed: Vec::new(),
            marketplace: Vec::new(),
            proposals: Vec::new(),
            next_proposal_id: 1,
            roles: Vec::new(),
            kyc: Vec::new(),
            bootstrapped: false,
        };
        proof {
            assert forall|pid: PropertyId| #[trigger] sum_for(r.ownership@, pid) == 0 by {}
            assert forall|pid: PropertyId, h: UserId| #[trigger] r.balance_of(pid, h) == 0 by {}
        }
        r
    }
}

/// No identity appears twice in a proposal's vote list.
pub open spec fn unique_voters(s: Seq<VoteEntry>) -> bool {
    forall|i: int, j: int| 0 <= i < j < s.len() ==> #[trigger] s[i].voter != #[trigger] s[j].voter
}

/// Has `voter` already voted in the vote list `s`?
pub open spec fn has_voted(s: Seq<VoteEntry>, voter: UserId) -> bool {
    exists|i: int| 0 <= i < s.len() && (#[trigger] s[i]).voter == voter
}

} // verus!
