use glin_escrow::account::AccountId;
use glin_escrow::registry::{Error, ProfessionalRegistry, ProfessionalRole};

const STAKE: u128 = 100_000_000_000_000_000_000;

fn acct(n: u8) -> AccountId {
    AccountId([n; 32])
}

#[test]
fn register_works() {
    let mut contract = ProfessionalRegistry::new(acct(1), acct(1), 1000);
    let result = contract.register(acct(2), STAKE, 0, ProfessionalRole::Lawyer, "ipfs://metadata".into());
    assert!(result.is_ok());

    let profile = contract.get_profile(acct(2)).unwrap();
    assert_eq!(profile.role, ProfessionalRole::Lawyer);
    assert_eq!(profile.reputation_score, 100);
    assert!(profile.is_active);
}

#[test]
fn submit_review_works() {
    let mut contract = ProfessionalRegistry::new(acct(1), acct(1), 1000);
    contract.register(acct(2), STAKE, 0, ProfessionalRole::Lawyer, "ipfs://metadata".into()).unwrap();

    let result = contract.submit_review(acct(3), 0, acct(2), 5, "Excellent service!".into());
    assert!(result.is_ok());
    assert_eq!(contract.get_review_count(acct(2)), 1);
}

#[test]
fn default_minimum_stakes() {
    let contract = ProfessionalRegistry::new(acct(1), acct(1), 1000);
    assert_eq!(contract.get_min_stake(ProfessionalRole::Lawyer), STAKE);
    assert_eq!(contract.get_min_stake(ProfessionalRole::Doctor), STAKE);
    assert_eq!(contract.get_min_stake(ProfessionalRole::Arbitrator), 2 * STAKE);
    assert_eq!(contract.get_min_stake(ProfessionalRole::Notary), STAKE / 2);
    assert_eq!(contract.get_min_stake(ProfessionalRole::Auditor), 3 * STAKE / 2);
    assert_eq!(contract.get_min_stake(ProfessionalRole::ConsultantOther), STAKE / 2);
}

#[test]
fn registration_errors() {
    let mut contract = ProfessionalRegistry::new(acct(1), acct(1), 1000);
    assert_eq!(
        contract.register(acct(2), STAKE - 1, 0, ProfessionalRole::Lawyer, "m".into()).unwrap_err(),
        Error::InsufficientStake
    );
    contract.register(acct(2), STAKE, 0, ProfessionalRole::Lawyer, "m".into()).unwrap();
    assert_eq!(
        contract.register(acct(2), STAKE, 0, ProfessionalRole::Notary, "m".into()).unwrap_err(),
        Error::AlreadyRegistered
    );
    assert_eq!(contract.increase_stake(acct(3), 1).unwrap_err(), Error::NotRegistered);
    assert_eq!(contract.increase_stake(acct(2), 7).unwrap().new_stake, STAKE + 7);
    assert_eq!(contract.get_profile(acct(2)).unwrap().stake_amount, STAKE + 7);
    assert_eq!(contract.get_review_count(acct(3)), 0);
}

#[test]
fn reputation_is_running_average() {
    let mut contract = ProfessionalRegistry::new(acct(1), acct(1), 1000);
    contract.register(acct(2), STAKE, 0, ProfessionalRole::Lawyer, "m".into()).unwrap();
    assert_eq!(contract.submit_review(acct(3), 0, acct(2), 0, "x".into()).unwrap_err(), Error::InvalidRating);
    assert_eq!(contract.submit_review(acct(3), 0, acct(2), 6, "x".into()).unwrap_err(), Error::InvalidRating);
    assert_eq!(contract.submit_review(acct(3), 0, acct(9), 3, "x".into()).unwrap_err(), Error::NotRegistered);
    // (100 * 0 + 3 * 20) / 1 = 60
    contract.submit_review(acct(3), 5, acct(2), 3, "ok".into()).unwrap();
    let p = contract.get_profile(acct(2)).unwrap();
    assert_eq!(p.reputation_score, 60);
    assert_eq!(p.total_jobs, 1);
    assert_eq!(p.successful_jobs, 0);
    // (60 * 1 + 5 * 20) / 2 = 80
    contract.submit_review(acct(4), 6, acct(2), 5, "great".into()).unwrap();
    let p = contract.get_profile(acct(2)).unwrap();
    assert_eq!(p.reputation_score, 80);
    assert_eq!(p.total_jobs, 2);
    assert_eq!(p.successful_jobs, 1);
    let r = contract.get_review(acct(2), 1).unwrap();
    assert_eq!(r.reviewer, acct(4));
    assert_eq!(r.rating, 5);
    assert_eq!(r.comment, "great");
    assert_eq!(r.timestamp, 6);
    assert!(contract.get_review(acct(2), 2).is_none());
}

#[test]
fn slash_and_withdraw() {
    let mut contract = ProfessionalRegistry::new(acct(1), acct(8), 1000);
    contract.register(acct(2), STAKE, 0, ProfessionalRole::Lawyer, "m".into()).unwrap();
    assert_eq!(contract.slash(acct(2), acct(2), "no".into()).unwrap_err(), Error::NotAuthorized);
    assert_eq!(contract.slash(acct(1), acct(3), "no".into()).unwrap_err(), Error::NotRegistered);
    let out = contract.slash(acct(1), acct(2), "late".into()).unwrap();
    assert_eq!(out.treasury_transfer, Some((acct(8), STAKE / 10)));
    assert_eq!(out.slashed.unwrap().reason, "late");
    assert!(out.deactivated.is_some());
    let p = contract.get_profile(acct(2)).unwrap();
    assert_eq!(p.stake_amount, STAKE - STAKE / 10);
    assert_eq!(p.reputation_score, 80);
    assert!(!p.is_active);
    assert!(!contract.is_active_professional(acct(2)));
    assert_eq!(contract.submit_review(acct(3), 0, acct(2), 3, "x".into()).unwrap_err(), Error::ProfileInactive);

    let w = contract.withdraw_stake(acct(2)).unwrap();
    assert_eq!(w.to, acct(2));
    assert_eq!(w.amount, STAKE - STAKE / 10);
    assert_eq!(contract.get_profile(acct(2)).unwrap().stake_amount, 0);
    assert_eq!(contract.withdraw_stake(acct(3)).unwrap_err(), Error::NotRegistered);
}

#[test]
fn owner_sets_minimum_stake() {
    let mut contract = ProfessionalRegistry::new(acct(1), acct(1), 0);
    assert_eq!(contract.set_min_stake(acct(2), ProfessionalRole::Doctor, 5).unwrap_err(), Error::NotAuthorized);
    assert_eq!(contract.set_min_stake(acct(1), ProfessionalRole::Doctor, 0).unwrap_err(), Error::InvalidMinStake);
    contract.set_min_stake(acct(1), ProfessionalRole::Doctor, 5).unwrap();
    assert_eq!(contract.get_min_stake(ProfessionalRole::Doctor), 5);
    contract.register(acct(2), 5, 0, ProfessionalRole::Doctor, "m".into()).unwrap();
    let out = contract.slash(acct(1), acct(2), "r".into()).unwrap();
    assert!(out.treasury_transfer.is_none());
    assert!(out.slashed.is_none());
    assert!(out.deactivated.is_none());
    assert!(contract.is_active_professional(acct(2)));
}
