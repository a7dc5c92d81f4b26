use fractional_ledger::Core;
use fractional_ledger::Error;
use fractional_ledger::PropertyMetadata;
use fractional_ledger::ProposalStatus;

fn meta() -> PropertyMetadata {
    PropertyMetadata { location: String::new(), description: String::new() }
}

const A: u64 = 21;
const B: u64 = 22;
const C: u64 = 23;

#[test]
fn submit_and_read_proposals() {
    let mut core = Core::new();
    core.register_property("P".to_string(), 100, meta());
    let p = core.submit_proposal(1, "repaint".to_string(), A);
    assert_eq!(p.id, 1);
    assert_eq!(p.property_id, 1);
    assert_eq!(p.proposer, A);
    assert!(matches!(p.status, ProposalStatus::Open));
    assert_eq!(p.yes_votes, 0);
    assert_eq!(p.no_votes, 0);
    core.submit_proposal(2, "other".to_string(), B);
    let for_one = core.get_proposals(1);
    assert_eq!(for_one.len(), 1);
    assert_eq!(for_one[0].description, "repaint");
    assert!(core.get_proposals(9).is_empty());
}

#[test]
fn vote_weights_and_one_vote_per_identity() {
    let mut core = Core::new();
    core.register_property("P".to_string(), 100, meta());
    core.issue_shares(1, A, 60).unwrap();
    core.issue_shares(1, B, 40).unwrap();
    core.submit_proposal(1, "sell".to_string(), A);
    assert!(core.vote_on_proposal(1, A, true).is_ok());
    // a second vote by the same identity fails whatever the choice
    assert_eq!(core.vote_on_proposal(1, A, true), Err(Error::NotVotable));
    assert_eq!(core.vote_on_proposal(1, A, false), Err(Error::NotVotable));
    // an identity without shares cannot vote
    assert_eq!(core.vote_on_proposal(1, C, true), Err(Error::NotVotable));
    assert!(core.vote_on_proposal(1, B, false).is_ok());
    let p = &core.get_proposals(1)[0];
    assert_eq!(p.yes_votes, 60);
    assert_eq!(p.no_votes, 40);
    // an unknown proposal is not votable
    assert_eq!(core.vote_on_proposal(9, A, true), Err(Error::NotVotable));
}

#[test]
fn vote_weight_is_a_snapshot() {
    let mut core = Core::new();
    core.register_property("P".to_string(), 100, meta());
    core.issue_shares(1, A, 10).unwrap();
    core.submit_proposal(1, "roof".to_string(), A);
    core.vote_on_proposal(1, A, true).unwrap();
    // the voter gives all shares away; the recorded tally keeps the weight
    core.transfer_shares(1, A, B, 10).unwrap();
    let p = &core.get_proposals(1)[0];
    assert_eq!(p.yes_votes, 10);
    assert_eq!(p.no_votes, 0);
    assert_eq!(core.get_ownership(1, A), 0);
}

#[test]
fn execute_applies_simple_majority() {
    let mut core = Core::new();
    core.register_property("P".to_string(), 100, meta());
    core.issue_shares(1, A, 60).unwrap();
    core.issue_shares(1, B, 40).unwrap();
    core.submit_proposal(1, "approve me".to_string(), A);
    core.vote_on_proposal(1, A, true).unwrap();
    core.vote_on_proposal(1, B, false).unwrap();
    assert!(core.execute_proposal(1).is_ok());
    assert!(matches!(core.get_proposals(1)[0].status, ProposalStatus::Executed));
    // a closed proposal can be neither voted on nor executed again
    assert_eq!(core.vote_on_proposal(1, B, true), Err(Error::NotVotable));
    assert_eq!(core.execute_proposal(1), Err(Error::NotExecutable));
    assert_eq!(core.execute_proposal(9), Err(Error::NotExecutable));
}

#[test]
fn ties_are_rejected() {
    let mut core = Core::new();
    core.register_property("P".to_string(), 100, meta());
    core.issue_shares(1, A, 50).unwrap();
    core.issue_shares(1, B, 50).unwrap();
    core.submit_proposal(1, "tie".to_string(), A);
    core.vote_on_proposal(1, A, true).unwrap();
    core.vote_on_proposal(1, B, false).unwrap();
    assert!(core.execute_proposal(1).is_ok());
    assert!(matches!(core.get_proposals(1)[0].status, ProposalStatus::Rejected));
}

#[test]
fn statements_list_positive_entries_with_names() {
    let mut core = Core::new();
    core.register_property("Villa".to_string(), 100, meta());
    core.register_property("Flat".to_string(), 50, meta());
    core.issue_shares(1, A, 30).unwrap();
    core.issue_shares(2, A, 5).unwrap();
    core.issue_shares(2, B, 5).unwrap();
    core.transfer_shares(2, A, B, 5).unwrap();
    let own = core.get_ownership_statement(A);
    assert_eq!(own.len(), 1);
    assert_eq!(own[0].property_id, 1);
    assert_eq!(own[0].property_name, "Villa");
    assert_eq!(own[0].shares, 30);
    core.deposit_rental_income(1, 10).unwrap();
    core.deposit_rental_income(2, 20).unwrap();
    let income_a = core.get_rental_income_statement(A);
    assert_eq!(income_a.len(), 1);
    assert_eq!(income_a[0].property_id, 1);
    assert_eq!(income_a[0].property_name, "Villa");
    assert_eq!(income_a[0].income, 3);
    let income_b = core.get_rental_income_statement(B);
    assert_eq!(income_b.len(), 1);
    assert_eq!(income_b[0].property_id, 2);
    assert_eq!(income_b[0].income, 4);
}

#[test]
fn income_statement_reports_zero_lines_until_claimed() {
    let mut core = Core::new();
    core.register_property("Barn".to_string(), 50, meta());
    core.issue_shares(1, A, 10).unwrap();
    core.issue_shares(1, B, 40).unwrap();
    // floor(3 * 10 / 50) = 0: the deposit leaves A a stored zero entry
    core.deposit_rental_income(1, 3).unwrap();
    let lines = core.get_rental_income_statement(A);
    assert_eq!(lines.len(), 1);
    assert_eq!(lines[0].property_id, 1);
    assert_eq!(lines[0].property_name, "Barn");
    assert_eq!(lines[0].income, 0);
    // a claim deletes the entry, zero or not
    assert_eq!(core.claim_income(1, A), 0);
    assert!(core.get_rental_income_statement(A).is_empty());
    assert_eq!(core.claim_income(1, B), 2);
    assert!(core.get_rental_income_statement(B).is_empty());
}
