use glin_escrow::account::AccountId;
use glin_escrow::escrow::{Error, GenericEscrow, MilestoneStatus, Release};
use glin_escrow::fee::split;

fn alice() -> AccountId {
    AccountId([1u8; 32])
}
fn bob() -> AccountId {
    AccountId([2u8; 32])
}
fn charlie() -> AccountId {
    AccountId([3u8; 32])
}
fn django() -> AccountId {
    AccountId([4u8; 32])
}

/// bob pays, charlie delivers, alice takes the platform fee of 2%.
fn two_milestones(oracle: Option<AccountId>) -> (GenericEscrow, u128) {
    let mut contract = GenericEscrow::new(alice(), 200);
    let created = contract
        .create_agreement(
            bob(),
            1000,
            0,
            charlie(),
            vec!["Milestone 1".into(), "Milestone 2".into()],
            vec![500, 500],
            vec![1000, 2000],
            3000,
            oracle,
        )
        .unwrap();
    (contract, created.agreement_id)
}

fn fee_amount(r: &Release) -> u128 {
    match r.fee {
        Some(t) => t.amount,
        None => 0,
    }
}

#[test]
fn create_agreement_works() {
    let mut contract = GenericEscrow::new(alice(), 200);
    let result = contract.create_agreement(
        bob(),
        1000,
        0,
        charlie(),
        vec!["Milestone 1".into(), "Milestone 2".into()],
        vec![500, 500],
        vec![1000, 2000],
        3000,
        None,
    );
    assert!(result.is_ok());
    let agreement_id = result.unwrap().agreement_id;
    assert_eq!(agreement_id, 0);

    let agreement = contract.get_agreement(agreement_id).unwrap();
    assert_eq!(agreement.client, bob());
    assert_eq!(agreement.provider, charlie());
    assert_eq!(agreement.total_amount, 1000);
}

#[test]
fn complete_milestone_works() {
    let mut contract = GenericEscrow::new(alice(), 200);
    let agreement_id = contract
        .create_agreement(
            bob(),
            1000,
            0,
            charlie(),
            vec!["Milestone 1".into()],
            vec![1000],
            vec![1000],
            3000,
            None,
        )
        .unwrap()
        .agreement_id;

    let result = contract.complete_milestone(charlie(), agreement_id, 0);
    assert!(result.is_ok());

    let milestone = contract.get_milestone(agreement_id, 0).unwrap();
    assert_eq!(milestone.status, MilestoneStatus::Completed);
}

#[test]
fn split_examples() {
    assert_eq!(split(500, 200), (10, 490));
    assert_eq!(split(500, 0), (0, 500));
    assert_eq!(split(333, 333), (11, 322));
    assert_eq!(split(0, 10000), (0, 0));
    assert_eq!(split(777, 10000), (777, 0));
}

#[test]
fn split_largest_amount() {
    let (fee, net) = split(u128::MAX, 10000);
    assert_eq!((fee, net), (u128::MAX, 0));
    let (fee, net) = split(u128::MAX, 5000);
    assert_eq!(fee, u128::MAX / 2);
    assert_eq!(fee + net, u128::MAX);
    let (fee, net) = split(u128::MAX, 1);
    assert_eq!(fee, u128::MAX / 10000);
    assert_eq!(fee + net, u128::MAX);
}

#[test]
fn happy_path() {
    let (mut contract, id) = two_milestones(None);
    assert_eq!(contract.get_milestone_count(id), 2);
    assert_eq!(contract.get_agreement(id).unwrap().total_amount, 1000);
    assert_eq!(contract.get_agreement(id).unwrap().deposited_amount, 1000);

    let ev = contract.complete_milestone(charlie(), id, 0).unwrap();
    assert_eq!(ev.amount, 500);
    assert_eq!(ev.milestone_index, 0);
    assert_eq!(contract.get_milestone(id, 0).unwrap().status, MilestoneStatus::Completed);
    assert_eq!(contract.get_milestone(id, 1).unwrap().status, MilestoneStatus::Pending);

    let rel = contract.approve_and_release(bob(), id, 0).unwrap();
    let fee = rel.fee.unwrap();
    assert_eq!(fee.to, alice());
    assert_eq!(fee.amount, 10);
    assert_eq!(rel.payout.to, charlie());
    assert_eq!(rel.payout.amount, 490);
    assert_eq!(rel.event.amount, 490);
    assert_eq!(rel.event.to, charlie());
    assert_eq!(fee_amount(&rel) + rel.payout.amount, 500);
    assert_eq!(contract.get_milestone(id, 0).unwrap().status, MilestoneStatus::Resolved);

    assert_eq!(
        contract.approve_and_release(bob(), id, 0).unwrap_err(),
        Error::InvalidMilestoneStatus
    );
}

#[test]
fn dispute_then_timeout_refund() {
    let (mut contract, id) = two_milestones(None);
    contract.complete_milestone(charlie(), id, 1).unwrap();
    let ev = contract.raise_dispute(charlie(), id, 1).unwrap();
    assert_eq!(ev.raised_by, charlie());
    assert_eq!(contract.get_milestone(id, 1).unwrap().status, MilestoneStatus::Disputed);

    assert_eq!(
        contract.resolve_dispute(bob(), 2999, id, 1, false).unwrap_err(),
        Error::DisputeTimeoutNotReached
    );
    assert_eq!(contract.get_milestone(id, 1).unwrap().status, MilestoneStatus::Disputed);

    let rel = contract.resolve_dispute(bob(), 3000, id, 1, false).unwrap();
    assert!(rel.fee.is_none());
    assert_eq!(rel.payout.to, bob());
    assert_eq!(rel.payout.amount, 500);
    assert_eq!(contract.get_milestone(id, 1).unwrap().status, MilestoneStatus::Resolved);
}

#[test]
fn payer_may_raise_dispute() {
    let (mut contract, id) = two_milestones(None);
    contract.complete_milestone(charlie(), id, 0).unwrap();
    assert!(contract.raise_dispute(bob(), id, 0).is_ok());
    assert_eq!(contract.get_milestone(id, 0).unwrap().status, MilestoneStatus::Disputed);
}

#[test]
fn arbiter_override() {
    let (mut contract, id) = two_milestones(Some(django()));
    assert!(contract.get_milestone(id, 0).unwrap().oracle_verification);
    contract.complete_milestone(charlie(), id, 0).unwrap();
    contract.raise_dispute(bob(), id, 0).unwrap();
    let rel = contract.resolve_dispute(django(), 0, id, 0, true).unwrap();
    assert_eq!(rel.fee.unwrap().amount, 10);
    assert_eq!(rel.fee.unwrap().to, alice());
    assert_eq!(rel.payout.to, charlie());
    assert_eq!(rel.payout.amount, 490);
    assert_eq!(contract.get_milestone(id, 0).unwrap().status, MilestoneStatus::Resolved);
}

#[test]
fn arbiter_may_approve() {
    let (mut contract, id) = two_milestones(Some(django()));
    contract.complete_milestone(charlie(), id, 1).unwrap();
    let rel = contract.approve_and_release(django(), id, 1).unwrap();
    assert_eq!(rel.payout.amount, 490);
}

#[test]
fn resolved_milestone_rejects_everything() {
    let (mut contract, id) = two_milestones(Some(django()));
    contract.complete_milestone(charlie(), id, 0).unwrap();
    contract.approve_and_release(bob(), id, 0).unwrap();
    let before = contract.get_milestone(id, 0).unwrap();
    assert_eq!(
        contract.complete_milestone(charlie(), id, 0).unwrap_err(),
        Error::MilestoneAlreadyCompleted
    );
    assert_eq!(
        contract.approve_and_release(django(), id, 0).unwrap_err(),
        Error::InvalidMilestoneStatus
    );
    assert_eq!(contract.raise_dispute(bob(), id, 0).unwrap_err(), Error::InvalidMilestoneStatus);
    assert_eq!(
        contract.resolve_dispute(django(), 0, id, 0, true).unwrap_err(),
        Error::InvalidMilestoneStatus
    );
    assert_eq!(contract.get_milestone(id, 0).unwrap().status, before.status);
}

#[test]
fn creation_rejects_bad_schedules() {
    let mut contract = GenericEscrow::new(alice(), 200);
    let empty = contract.create_agreement(bob(), 0, 0, charlie(), vec![], vec![], vec![], 10, None);
    assert_eq!(empty.unwrap_err(), Error::InvalidMilestoneStatus);
    let uneven = contract.create_agreement(
        bob(),
        1000,
        0,
        charlie(),
        vec!["a".into(), "b".into()],
        vec![500],
        vec![1, 2],
        10,
        None,
    );
    assert_eq!(uneven.unwrap_err(), Error::InvalidMilestoneStatus);
    let short = contract.create_agreement(
        bob(),
        999,
        0,
        charlie(),
        vec!["a".into(), "b".into()],
        vec![500, 500],
        vec![1, 2],
        10,
        None,
    );
    assert_eq!(short.unwrap_err(), Error::InsufficientFunds);
    assert!(contract.get_agreement(0).is_none());
    assert_eq!(contract.get_milestone_count(0), 0);

    let ok = contract
        .create_agreement(bob(), 1200, 7, charlie(), vec!["a".into()], vec![1000], vec![1], 10, None)
        .unwrap();
    assert_eq!(ok.agreement_id, 0);
    assert_eq!(ok.total_amount, 1000);
    let again = contract
        .create_agreement(bob(), 5, 8, charlie(), vec!["b".into()], vec![5], vec![2], 10, None)
        .unwrap();
    assert_eq!(again.agreement_id, 1);
    let a = contract.get_agreement(0).unwrap();
    assert_eq!(a.deposited_amount, 1200);
    assert_eq!(a.created_at, 7);
    assert!(a.is_active);
    let m = contract.get_milestone(1, 0).unwrap();
    assert_eq!(m.description, "b");
    assert_eq!(m.amount, 5);
    assert_eq!(m.deadline, 2);
    assert!(!m.oracle_verification);
}

#[test]
fn lookups_and_authorization() {
    let (mut contract, id) = two_milestones(None);
    assert_eq!(contract.complete_milestone(charlie(), 9, 0).unwrap_err(), Error::AgreementNotFound);
    assert_eq!(contract.complete_milestone(charlie(), id, 2).unwrap_err(), Error::MilestoneNotFound);
    assert_eq!(contract.complete_milestone(bob(), id, 0).unwrap_err(), Error::NotAuthorized);
    assert_eq!(contract.approve_and_release(bob(), id, 0).unwrap_err(), Error::InvalidMilestoneStatus);
    contract.complete_milestone(charlie(), id, 0).unwrap();
    assert_eq!(contract.approve_and_release(charlie(), id, 0).unwrap_err(), Error::NotAuthorized);
    assert_eq!(contract.raise_dispute(django(), id, 0).unwrap_err(), Error::NotAuthorized);
    assert_eq!(contract.resolve_dispute(charlie(), 5000, id, 0, true).unwrap_err(), Error::NotAuthorized);
    assert_eq!(contract.resolve_dispute(bob(), 5000, id, 0, true).unwrap_err(), Error::InvalidMilestoneStatus);
    assert_eq!(contract.raise_dispute(bob(), id, 1).unwrap_err(), Error::InvalidMilestoneStatus);
    assert!(contract.get_milestone(id, 2).is_none());
    assert!(contract.get_milestone(3, 0).is_none());
}

#[test]
fn payer_resolves_for_payee_after_timeout() {
    let (mut contract, id) = two_milestones(None);
    contract.complete_milestone(charlie(), id, 0).unwrap();
    contract.raise_dispute(bob(), id, 0).unwrap();
    let rel = contract.resolve_dispute(bob(), 4000, id, 0, true).unwrap();
    assert_eq!(rel.fee.unwrap().amount, 10);
    assert_eq!(rel.payout.to, charlie());
    assert_eq!(rel.payout.amount, 490);
}

#[test]
fn zero_fee_rate_asks_no_fee_transfer() {
    let mut contract = GenericEscrow::new(alice(), 0);
    let id = contract
        .create_agreement(bob(), 300, 0, charlie(), vec!["x".into()], vec![300], vec![9], 1, None)
        .unwrap()
        .agreement_id;
    contract.complete_milestone(charlie(), id, 0).unwrap();
    let rel = contract.approve_and_release(bob(), id, 0).unwrap();
    assert!(rel.fee.is_none());
    assert_eq!(rel.payout.amount, 300);
}

#[test]
fn releases_never_exceed_total() {
    let (mut contract, id) = two_milestones(None);
    let mut released: u128 = 0;
    for i in 0..2u32 {
        contract.complete_milestone(charlie(), id, i).unwrap();
        let rel = contract.approve_and_release(bob(), id, i).unwrap();
        released += fee_amount(&rel) + rel.payout.amount;
    }
    assert_eq!(released, contract.get_agreement(id).unwrap().total_amount);
    assert!(contract.approve_and_release(bob(), id, 0).is_err());
    assert!(contract.approve_and_release(bob(), id, 1).is_err());
}
