use fractional_ledger::Core;
use fractional_ledger::Error;
use fractional_ledger::PropertyMetadata;
use fractional_ledger::PropertyStatus;
use fractional_ledger::Role;

fn meta(location: &str, description: &str) -> PropertyMetadata {
    PropertyMetadata { location: location.to_string(), description: description.to_string() }
}

const A: u64 = 11;
const B: u64 = 12;
const C: u64 = 13;

#[test]
fn register_sets_fields() {
    let mut core = Core::new();
    let p = core.register_property("Villa".to_string(), 100, meta("Rome", "by the sea"));
    assert_eq!(p.id, 1);
    assert_eq!(p.total_shares, 100);
    assert_eq!(p.shares_available, 100);
    assert!(matches!(p.status, PropertyStatus::Active));
    assert_eq!(p.name, "Villa");
    assert_eq!(p.metadata.location, "Rome");
    let q = core.register_property("Flat".to_string(), 0, meta("Oslo", "small"));
    assert_eq!(q.id, 2);
    assert_eq!(q.total_shares, 0);
    let got = core.get_property(1).unwrap();
    assert_eq!(got.name, "Villa");
    assert!(core.get_property(99).is_none());
}

#[test]
fn issue_and_balances() {
    let mut core = Core::new();
    core.register_property("P".to_string(), 100, meta("", ""));
    assert!(core.issue_shares(1, A, 60).is_ok());
    assert!(core.issue_shares(1, B, 40).is_ok());
    assert_eq!(core.get_ownership(1, A), 60);
    assert_eq!(core.get_ownership(1, B), 40);
    assert_eq!(core.get_ownership(1, C), 0);
    // supply exhausted
    assert_eq!(core.issue_shares(1, C, 1), Err(Error::InsufficientSupply));
    assert_eq!(core.issue_shares(7, A, 1), Err(Error::NotFound));
    let p = core.get_property(1).unwrap();
    assert_eq!(p.shares_available, 0);
}

#[test]
fn conservation_holds_through_operations() {
    let mut core = Core::new();
    core.register_property("P".to_string(), 100, meta("", ""));
    core.issue_shares(1, A, 30).unwrap();
    core.transfer_shares(1, A, B, 10).unwrap();
    core.list_shares_for_sale(1, B, 5, 2).unwrap();
    core.buy_shares(1, B, C, 5).unwrap();
    let p = core.get_property(1).unwrap();
    let held: u64 = core.get_ownership(1, A) + core.get_ownership(1, B) + core.get_ownership(1, C);
    assert_eq!(p.shares_available + held, p.total_shares);
    assert_eq!(p.shares_available, 70);
    assert_eq!(held, 30);
}

#[test]
fn transfer_rejects_overdraft_and_keeps_state() {
    let mut core = Core::new();
    core.register_property("P".to_string(), 50, meta("", ""));
    core.issue_shares(1, A, 20).unwrap();
    assert_eq!(core.transfer_shares(1, A, B, 21), Err(Error::InsufficientBalance));
    assert_eq!(core.get_ownership(1, A), 20);
    assert_eq!(core.get_ownership(1, B), 0);
}

#[test]
fn self_transfer_is_noop_success() {
    let mut core = Core::new();
    core.register_property("P".to_string(), 50, meta("", ""));
    core.issue_shares(1, A, 20).unwrap();
    assert!(core.transfer_shares(1, A, A, 15).is_ok());
    assert_eq!(core.get_ownership(1, A), 20);
    assert_eq!(core.transfer_shares(1, A, A, 21), Err(Error::InsufficientBalance));
    assert_eq!(core.get_ownership(1, A), 20);
}

#[test]
fn distribution_floors_and_accumulates() {
    let mut core = Core::new();
    core.register_property("P".to_string(), 100, meta("", ""));
    core.issue_shares(1, A, 60).unwrap();
    core.issue_shares(1, B, 40).unwrap();
    assert!(core.deposit_rental_income(1, 101).is_ok());
    // 101 * 60 / 100 = 60, 101 * 40 / 100 = 40; one unit of income is lost
    assert_eq!(core.get_unclaimed_income(1, A), 60);
    assert_eq!(core.get_unclaimed_income(1, B), 40);
    assert!(core.deposit_rental_income(1, 101).is_ok());
    assert_eq!(core.get_unclaimed_income(1, A), 120);
    assert_eq!(core.get_unclaimed_income(1, B), 80);
}

#[test]
fn deposit_on_missing_or_zero_supply_is_not_found() {
    let mut core = Core::new();
    core.register_property("Empty".to_string(), 0, meta("", ""));
    assert_eq!(core.deposit_rental_income(1, 10), Err(Error::NotFound));
    assert_eq!(core.deposit_rental_income(9, 10), Err(Error::NotFound));
}

#[test]
fn claim_is_idempotent() {
    let mut core = Core::new();
    core.register_property("P".to_string(), 10, meta("", ""));
    core.issue_shares(1, A, 10).unwrap();
    core.deposit_rental_income(1, 35).unwrap();
    assert_eq!(core.get_unclaimed_income(1, A), 35);
    assert_eq!(core.claim_income(1, A), 35);
    assert_eq!(core.claim_income(1, A), 0);
    assert_eq!(core.get_unclaimed_income(1, A), 0);
}

#[test]
fn listing_checks_balance_and_buy_settles() {
    let mut core = Core::new();
    core.register_property("P".to_string(), 100, meta("", ""));
    core.issue_shares(1, A, 10).unwrap();
    assert_eq!(core.list_shares_for_sale(1, A, 11, 3), Err(Error::InsufficientBalance));
    assert!(core.list_shares_for_sale(1, A, 10, 3).is_ok());
    let listings = core.get_marketplace_listings();
    assert_eq!(listings.len(), 1);
    assert_eq!(listings[0].amount, 10);
    assert_eq!(listings[0].price_per_share, 3);
    // partial purchase shrinks the listing
    assert!(core.buy_shares(1, A, B, 4).is_ok());
    assert_eq!(core.get_ownership(1, B), 4);
    let listings = core.get_marketplace_listings();
    assert_eq!(listings.len(), 1);
    assert_eq!(listings[0].amount, 6);
    // exact purchase removes it
    assert!(core.buy_shares(1, A, B, 6).is_ok());
    assert!(core.get_marketplace_listings().is_empty());
    assert_eq!(core.buy_shares(1, A, B, 1), Err(Error::NotFound));
}

#[test]
fn stale_listing_fails_settlement_but_stays() {
    let mut core = Core::new();
    core.register_property("P".to_string(), 100, meta("", ""));
    core.issue_shares(1, A, 10).unwrap();
    core.list_shares_for_sale(1, A, 10, 3).unwrap();
    // the seller moves the shares away after listing
    core.transfer_shares(1, A, B, 8).unwrap();
    assert_eq!(core.buy_shares(1, A, C, 5), Err(Error::InsufficientBalance));
    // the stale listing is left in place, unchanged
    let listings = core.get_marketplace_listings();
    assert_eq!(listings.len(), 1);
    assert_eq!(listings[0].amount, 10);
    assert_eq!(core.get_ownership(1, C), 0);
}

#[test]
fn roles_kyc_and_bootstrap() {
    let mut core = Core::new();
    assert!(matches!(core.get_role(A), Role::User));
    assert_eq!(core.set_role(B, Role::Manager, A), Err(Error::Unauthorized));
    assert!(core.bootstrap_admin(A).is_ok());
    assert_eq!(core.bootstrap_admin(B), Err(Error::AlreadyBootstrapped));
    assert!(matches!(core.get_role(A), Role::Admin));
    assert!(core.set_role(B, Role::Manager, A).is_ok());
    assert!(matches!(core.get_role(B), Role::Manager));
    assert!(!core.is_kyc_verified(B));
    assert_eq!(core.set_kyc_status(B, true, B), Err(Error::Unauthorized));
    assert!(core.set_kyc_status(B, true, A).is_ok());
    assert!(core.is_kyc_verified(B));
}

#[test]
fn metadata_and_status_edits_need_admin() {
    let mut core = Core::new();
    core.register_property("P".to_string(), 10, meta("old", "old"));
    assert_eq!(core.update_property_metadata(1, meta("new", "new"), A), Err(Error::Unauthorized));
    // an unknown property is reported as missing whoever the actor is
    assert_eq!(core.update_property_metadata(9, meta("new", "new"), A), Err(Error::NotFound));
    assert_eq!(core.update_property_status(9, PropertyStatus::Sold, A), Err(Error::NotFound));
    core.bootstrap_admin(A).unwrap();
    assert_eq!(core.update_property_metadata(9, meta("new", "new"), A), Err(Error::NotFound));
    assert!(core.update_property_metadata(1, meta("new", "new"), A).is_ok());
    assert_eq!(core.get_property(1).unwrap().metadata.location, "new");
    assert_eq!(core.update_property_status(9, PropertyStatus::Sold, A), Err(Error::NotFound));
    assert!(core.update_property_status(1, PropertyStatus::Maintenance, A).is_ok());
    assert!(matches!(core.get_property(1).unwrap().status, PropertyStatus::Maintenance));
}

#[test]
fn end_to_end_scenario() {
    let mut core = Core::new();
    core.register_property("Estate".to_string(), 100, meta("", ""));
    core.issue_shares(1, A, 60).unwrap();
    core.issue_shares(1, B, 40).unwrap();
    core.deposit_rental_income(1, 50).unwrap();
    assert_eq!(core.claim_income(1, A), 30);
    assert_eq!(core.claim_income(1, B), 20);
    core.list_shares_for_sale(1, A, 10, 5).unwrap();
    core.buy_shares(1, A, C, 10).unwrap();
    assert_eq!(core.get_ownership(1, A), 50);
    assert_eq!(core.get_ownership(1, B), 40);
    assert_eq!(core.get_ownership(1, C), 10);
    assert!(core.get_marketplace_listings().is_empty());
    let p = core.get_property(1).unwrap();
    assert_eq!(p.shares_available + 50 + 40 + 10, p.total_shares);
}
