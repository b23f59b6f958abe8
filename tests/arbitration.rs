use glin_escrow::account::AccountId;
use glin_escrow::arbitration::{ArbitrationDAO, DisputeStatus, Error, VoteChoice};

const STAKE: u128 = 100_000_000_000_000_000_000;
const WEEK: u64 = 7 * 24 * 60 * 60 * 1000;

fn acct(n: u8) -> AccountId {
    AccountId([n; 32])
}

fn dao() -> ArbitrationDAO {
    ArbitrationDAO::new(acct(1), STAKE, WEEK, 5000)
}

#[test]
fn register_arbitrator_works() {
    let mut contract = dao();
    let result = contract.register_arbitrator(acct(2), STAKE);
    assert!(result.is_ok());

    let arbitrator = contract.get_arbitrator(acct(2)).unwrap();
    assert_eq!(arbitrator.stake, STAKE);
    assert!(arbitrator.is_active);
}

#[test]
fn create_dispute_works() {
    let mut contract = dao();
    let result = contract.create_dispute(
        acct(2),
        0,
        acct(3),
        "Contract dispute".into(),
        "ipfs://evidence".into(),
    );
    assert!(result.is_ok());
    let dispute_id = result.unwrap().dispute_id;
    assert_eq!(dispute_id, 0);

    let dispute = contract.get_dispute(dispute_id).unwrap();
    assert_eq!(dispute.claimant, acct(2));
    assert_eq!(dispute.defendant, acct(3));
    assert_eq!(dispute.status, DisputeStatus::Open);
}

#[test]
fn registration_needs_minimum_stake() {
    let mut contract = dao();
    assert_eq!(contract.register_arbitrator(acct(2), STAKE - 1).unwrap_err(), Error::InsufficientStake);
    assert!(contract.get_arbitrator(acct(2)).is_none());
    assert!(!contract.is_active_arbitrator(acct(2)));
    assert_eq!(contract.increase_arbitrator_stake(acct(2), 5).unwrap_err(), Error::NotRegisteredArbitrator);
    contract.register_arbitrator(acct(2), STAKE).unwrap();
    contract.increase_arbitrator_stake(acct(2), 5).unwrap();
    assert_eq!(contract.get_arbitrator(acct(2)).unwrap().stake, STAKE + 5);
    assert_eq!(contract.get_arbitrator(acct(2)).unwrap().reputation, 100);
    assert!(contract.is_active_arbitrator(acct(2)));
}

#[test]
fn weighted_vote_and_finalize() {
    let mut contract = dao();
    contract.register_arbitrator(acct(4), STAKE).unwrap();
    contract.register_arbitrator(acct(5), 3 * STAKE).unwrap();
    let id = contract.create_dispute(acct(2), 1000, acct(3), "d".into(), "e".into()).unwrap().dispute_id;
    assert_eq!(contract.get_dispute(id).unwrap().voting_ends_at, 1000 + WEEK);

    assert_eq!(contract.vote(acct(4), 1000, id, VoteChoice::InFavorOfClaimant).unwrap_err(), Error::InvalidDisputeStatus);
    assert_eq!(contract.start_voting(acct(6), id).unwrap_err(), Error::NotAuthorized);
    contract.start_voting(acct(3), id).unwrap();
    assert_eq!(contract.start_voting(acct(2), id).unwrap_err(), Error::InvalidDisputeStatus);

    assert_eq!(contract.vote(acct(6), 1000, id, VoteChoice::InFavorOfClaimant).unwrap_err(), Error::NotRegisteredArbitrator);
    let cast = contract.vote(acct(4), 1000, id, VoteChoice::InFavorOfClaimant).unwrap();
    assert_eq!(cast.weight, STAKE);
    assert_eq!(contract.vote(acct(4), 1001, id, VoteChoice::InFavorOfDefendant).unwrap_err(), Error::AlreadyVoted);
    assert_eq!(contract.vote(acct(5), 1001 + WEEK, id, VoteChoice::InFavorOfDefendant).unwrap_err(), Error::VotingPeriodEnded);
    contract.vote(acct(5), 1000 + WEEK, id, VoteChoice::InFavorOfDefendant).unwrap();
    assert_eq!(contract.get_vote(id, acct(4)), Some(VoteChoice::InFavorOfClaimant));
    assert_eq!(contract.get_vote(id, acct(5)), Some(VoteChoice::InFavorOfDefendant));
    assert_eq!(contract.get_vote(id, acct(6)), None);
    assert_eq!(contract.get_arbitrator(acct(5)).unwrap().disputes_participated, 1);

    let d = contract.get_dispute(id).unwrap();
    assert_eq!(d.votes_for_claimant, STAKE);
    assert_eq!(d.votes_for_defendant, 3 * STAKE);

    assert_eq!(contract.finalize_dispute(1000 + WEEK, id).unwrap_err(), Error::VotingPeriodNotEnded);
    let res = contract.finalize_dispute(1001 + WEEK, id).unwrap();
    assert_eq!(res.resolution, VoteChoice::InFavorOfDefendant);
    let d = contract.get_dispute(id).unwrap();
    assert_eq!(d.status, DisputeStatus::Resolved);
    assert_eq!(d.resolution, Some(VoteChoice::InFavorOfDefendant));
}

#[test]
fn tie_goes_to_defendant_and_quorum() {
    let mut contract = dao();
    contract.register_arbitrator(acct(4), STAKE).unwrap();
    contract.register_arbitrator(acct(5), STAKE).unwrap();
    let id = contract.create_dispute(acct(2), 0, acct(3), "d".into(), "e".into()).unwrap().dispute_id;
    let empty = contract.create_dispute(acct(2), 0, acct(3), "d".into(), "e".into()).unwrap().dispute_id;
    assert_eq!(empty, 1);
    contract.start_voting(acct(2), id).unwrap();
    contract.start_voting(acct(2), empty).unwrap();
    contract.vote(acct(4), 0, id, VoteChoice::InFavorOfClaimant).unwrap();
    contract.vote(acct(5), 0, id, VoteChoice::InFavorOfDefendant).unwrap();
    assert_eq!(contract.finalize_dispute(WEEK + 1, id).unwrap().resolution, VoteChoice::InFavorOfDefendant);
    assert_eq!(contract.finalize_dispute(WEEK + 1, empty).unwrap_err(), Error::QuorumNotReached);
    assert_eq!(contract.finalize_dispute(WEEK + 1, 9).unwrap_err(), Error::DisputeNotFound);
}

#[test]
fn one_appeal_only() {
    let mut contract = dao();
    contract.register_arbitrator(acct(4), STAKE).unwrap();
    let id = contract.create_dispute(acct(2), 0, acct(3), "d".into(), "e".into()).unwrap().dispute_id;
    assert_eq!(contract.appeal_dispute(acct(2), 0, id).unwrap_err(), Error::InvalidDisputeStatus);
    contract.start_voting(acct(2), id).unwrap();
    contract.vote(acct(4), 0, id, VoteChoice::InFavorOfClaimant).unwrap();
    contract.finalize_dispute(WEEK + 1, id).unwrap();
    assert_eq!(contract.appeal_dispute(acct(6), 0, id).unwrap_err(), Error::NotAuthorized);
    let ev = contract.appeal_dispute(acct(3), 50, id).unwrap();
    assert_eq!(ev.appellant, acct(3));
    let d = contract.get_dispute(id).unwrap();
    assert_eq!(d.status, DisputeStatus::Appealed);
    assert_eq!(d.voting_ends_at, 50 + WEEK);
    assert_eq!(d.votes_for_claimant, 0);
    assert!(!d.can_appeal);
    assert_eq!(contract.appeal_dispute(acct(3), 60, id).unwrap_err(), Error::InvalidDisputeStatus);
}
