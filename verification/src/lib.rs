//! A fractional-ownership ledger for registered properties.
//!
//! The library tracks total and available shares per property, per-holder
//! ownership balances, a marketplace of open sell offers, proportional
//! rental-income distribution with per-holder claims, and share-weighted
//! governance (proposals and votes). All state lives in a single [`Core`]
//! value; every operation is an atomic transition on it, and each public
//! operation carries a contract that pins down its effect on the state.
//!
//! [`Core`]: state::Core

pub mod auth;
pub mod governance;
pub mod income;
pub mod laws;
pub mod lookup;
pub mod market;
pub mod registry;
pub mod shares;
pub mod state;
pub mod statements;
pub mod table;
pub mod types;

pub use state::Core;
pub use types::AmountEntry;
pub use types::Error;
pub use types::Listing;
pub use types::OwnershipRecord;
pub use types::Property;
pub use types::PropertyMetadata;
pub use types::PropertyStatus;
pub use types::Proposal;
pub use types::ProposalStatus;
pub use types::KycEntry;
pub use types::RentalIncomeRecord;
pub use types::Role;
pub use types::RoleEntry;
pub use types::VoteEntry;
