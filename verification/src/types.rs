//! Data types of the ledger: properties, listings, proposals, ledger entries,
//! and the error taxonomy shared by every operation.

use vstd::prelude::*;

verus! {

/// Identifier of a registered property; assigned monotonically from 1.
pub type PropertyId = u64;

/// Opaque identity token for a caller. The transport layer is responsible for
/// authenticating callers and mapping each distinct identity to a distinct
/// token; the ledger itself only compares tokens for equality.
pub type UserId = u64;

/// Role resolved for an identity by the authorization gate.
#[derive(Clone, Copy, PartialEq, Eq, Structural, Debug)]
pub enum Role {
    Admin,
    Manager,
    User,
}

/// Lifecycle status of a property.
#[derive(Clone, Copy, PartialEq, Eq, Structural, Debug)]
pub enum PropertyStatus {
    Active,
    Maintenance,
    Sold,
}

/// Lifecycle status of a governance proposal. `Open` is the only state that
/// accepts votes; `Rejected` and `Executed` are terminal. `Approved` is a
/// transient label collapsed immediately into `Executed` and is never
/// observable between operations.
#[derive(Clone, Copy, PartialEq, Eq, Structural, Debug)]
pub enum ProposalStatus {
    Open,
    Approved,
    Rejected,
    Executed,
}

/// Why an operation was refused. Every failing operation reports one of these
/// and leaves the state exactly as it was.
#[derive(Clone, Copy, PartialEq, Eq, Structural, Debug)]
pub enum Error {
    /// The referenced property, listing or proposal does not exist.
    NotFound,
    /// The actor's role does not meet the operation's required role.
    Unauthorized,
    /// The requested quantity exceeds the holder's current balance.
    InsufficientBalance,
    /// The requested quantity exceeds the property's unissued supply.
    InsufficientSupply,
    /// The one-time admin bootstrap was invoked a second time.
    AlreadyBootstrapped,
    /// The proposal cannot be voted on: unknown, not open, the voter already
    /// voted, or the voter holds no shares of the proposal's property.
    NotVotable,
    /// The proposal cannot be executed: unknown or not open.
    NotExecutable,
}

/// Free-form descriptive fields of a property; mutable, with no invariant.
pub struct PropertyMetadata {
    pub location: String,
    pub description: String,
}

impl Clone for PropertyMetadata {
    fn clone(&self) -> (r: Self)
        ensures
            r.location@ == self.location@,
            r.description@ == self.description@,
    {
        PropertyMetadata { location: self.location.clone(), description: self.description.clone() }
    }
}

/// A registered property: a fixed total share supply, the part of it not yet
/// issued to any holder, and descriptive fields.
pub struct Property {
    pub id: PropertyId,
    pub name: String,
    pub total_shares: u64,
    pub shares_available: u64,
    pub metadata: PropertyMetadata,
    pub status: PropertyStatus,
}

impl Clone for Property {
    fn clone(&self) -> (r: Self)
        ensures
            r.id == self.id,
            r.name@ == self.name@,
            r.total_shares == self.total_shares,
            r.shares_available == self.shares_available,
            r.metadata.location@ == self.metadata.location@,
            r.metadata.description@ == self.metadata.description@,
            r.status == self.status,
    {
        Property {
            id: self.id,
            name: self.name.clone(),
            total_shares: self.total_shares,
            shares_available: self.shares_available,
            metadata: self.metadata.clone(),
            status: self.status,
        }
    }
}

/// An open sell offer on the marketplace.
#[derive(Clone, Copy, PartialEq, Eq, Structural, Debug)]
pub struct Listing {
    pub property_id: PropertyId,
    pub seller: UserId,
    pub amount: u64,
    pub price_per_share: u64,
}

/// One recorded vote on a proposal: who voted and the boolean choice
/// (`true` = yes). The snapshot weight is folded into the proposal's tallies
/// at voting time and never re-read.
#[derive(Clone, Copy, PartialEq, Eq, Structural, Debug)]
pub struct VoteEntry {
    pub voter: UserId,
    pub choice: bool,
}

/// A governance proposal with share-weighted tallies and the set of
/// identities that have voted, to enforce one vote per identity.
pub struct Proposal {
    pub id: u64,
    pub property_id: PropertyId,
    pub proposer: UserId,
    pub description: String,
    pub status: ProposalStatus,
    pub yes_votes: u64,
    pub no_votes: u64,
    pub votes: Vec<VoteEntry>,
}

impl Clone for Proposal {
    fn clone(&self) -> (r: Self)
        ensures
            r.id == self.id,
            r.property_id == self.property_id,
            r.proposer == self.proposer,
            r.description@ == self.description@,
            r.status == self.status,
            r.yes_votes == self.yes_votes,
            r.no_votes == self.no_votes,
            r.votes@ == self.votes@,
    {
        Proposal {
            id: self.id,
            property_id: self.property_id,
            proposer: self.proposer,
            description: self.description.clone(),
            status: self.status,
            yes_votes: self.yes_votes,
            no_votes: self.no_votes,
            votes: copy_votes(&self.votes),
        }
    }
}

/// Copies a vote list element by element.
fn copy_votes(v: &Vec<VoteEntry>) -> (r: Vec<VoteEntry>)
    ensures
        r@ == v@,
{
    let mut r: Vec<VoteEntry> = Vec::new();
    let mut i: usize = 0;
    while i < v.len()
        invariant
            i <= v@.len(),
            r@ == v@.take(i as int),
        decreases v@.len() - i,
    {
        r.push(v[i]);
        proof {
            assert(v@.take(i + 1 as int) =~= v@.take(i as int).push(v@[i as int]));
        }
        i = i + 1;
    }
    proof {
        assert(v@.take(v@.len() as int) =~= v@);
    }
    r
}

/// One line of a holder's ownership statement.
pub struct OwnershipRecord {
    pub property_id: PropertyId,
    pub property_name: String,
    pub shares: u64,
}

/// One line of a holder's unclaimed rental-income statement.
pub struct RentalIncomeRecord {
    pub property_id: PropertyId,
    pub property_name: String,
    pub income: u64,
}

/// An entry of a keyed amount table: `key` pairs a property with a holder
/// identity, and `amount` is the non-negative quantity kept for that pair.
/// The same shape serves the ownership ledger (share balances) and the
/// income engine (unclaimed entitlements).
#[derive(Clone, Copy, PartialEq, Eq, Structural, Debug)]
pub struct AmountEntry {
    pub property_id: PropertyId,
    pub holder: UserId,
    pub amount: u64,
}

/// An entry of the role table of the authorization gate.
#[derive(Clone, Copy, PartialEq, Eq, Structural, Debug)]
pub struct RoleEntry {
    pub user: UserId,
    pub role: Role,
}

/// An entry of the KYC table of the authorization gate.
#[derive(Clone, Copy, PartialEq, Eq, Structural, Debug)]
pub struct KycEntry {
    pub user: UserId,
    pub verified: bool,
}

} // verus!
