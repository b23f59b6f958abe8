use vstd::prelude::*;
use crate::account::{AccountId, Balance, Timestamp};
use crate::fee::{split, fee_of};
use crate::lookup::{last_match, lemma_last_match_push, lemma_last_match_at, lemma_last_match_none, lemma_last_match_replace, lemma_last_match_other};

verus! {

/// The kinds of professional that the registry lists.
#[derive(Clone, Copy, Debug, PartialEq, Eq, Structural)]
pub enum ProfessionalRole {
    Lawyer,
    Doctor,
    Arbitrator,
    Notary,
    Auditor,
    ConsultantOther,
}

/// A listed professional, its stake and its reputation.
#[derive(Clone, Debug)]
pub struct ProfessionalProfile {
    pub account: AccountId,
    pub role: ProfessionalRole,
    pub stake_amount: Balance,
    pub reputation_score: u32,
    pub total_jobs: u32,
    pub successful_jobs: u32,
    pub registered_at: Timestamp,
    pub is_active: bool,
    pub metadata_uri: String,
}

/// A rating of a professional, from 1 to 5.
#[derive(Clone, Debug)]
pub struct Review {
    pub reviewer: AccountId,
    pub rating: u8,
    pub comment: String,
    pub timestamp: Timestamp,
}

/// A profile with the reviews it received, in order.
#[derive(Clone, Debug)]
pub struct Listing {
    pub profile: ProfessionalProfile,
    pub reviews: Vec<Review>,
}

/// Notification: a professional registered.
#[derive(Clone, Copy, Debug)]
pub struct ProfessionalRegistered {
    pub account: AccountId,
    pub role: ProfessionalRole,
    pub stake_amount: Balance,
}

/// Notification: a stake grew.
#[derive(Clone, Copy, Debug)]
pub struct StakeIncreased {
    pub account: AccountId,
    pub new_stake: Balance,
}

/// Notification: part of a stake was taken.
#[derive(Clone, Debug)]
pub struct ProfessionalSlashed {
    pub account: AccountId,
    pub slash_amount: Balance,
    pub reason: String,
}

/// Notification: a review was recorded.
#[derive(Clone, Copy, Debug)]
pub struct ReviewSubmitted {
    pub professional: AccountId,
    pub reviewer: AccountId,
    pub rating: u8,
}

/// Notification: a profile went inactive.
#[derive(Clone, Copy, Debug)]
pub struct ProfessionalDeactivated {
    pub account: AccountId,
}

/// What a slash asks of the host: the transfer of the slashed amount to the
/// treasury, when it is not zero, and the notifications to emit.
#[derive(Clone, Debug)]
pub struct Slashing {
    pub treasury_transfer: Option<(AccountId, Balance)>,
    pub slashed: Option<ProfessionalSlashed>,
    pub deactivated: Option<ProfessionalDeactivated>,
}

/// What a withdrawal asks of the host: the stake paid back, then the
/// notification.
#[derive(Clone, Copy, Debug)]
pub struct Withdrawal {
    pub to: AccountId,
    pub amount: Balance,
    pub event: ProfessionalDeactivated,
}

/// The failures of the registry. Each leaves the state untouched.
#[derive(Clone, Copy, Debug, PartialEq, Eq, Structural)]
pub enum Error {
    AlreadyRegistered,
    NotRegistered,
    InsufficientStake,
    NotAuthorized,
    InvalidRating,
    TransferFailed,
    ProfileInactive,
    InvalidMinStake,
}

/// One whole unit of the chain's currency, in its smallest unit.
pub const UNIT: u128 = 1_000_000_000_000_000_000;

/// The position of a role in the table of minimum stakes.
pub open spec fn role_slot(r: ProfessionalRole) -> int {
    match r {
        ProfessionalRole::Lawyer => 0,
        ProfessionalRole::Doctor => 1,
        ProfessionalRole::Arbitrator => 2,
        ProfessionalRole::Notary => 3,
        ProfessionalRole::Auditor => 4,
        ProfessionalRole::ConsultantOther => 5,
    }
}

fn role_index(r: ProfessionalRole) -> (i: usize)
    ensures
        i == role_slot(r),
{
    match r {
        ProfessionalRole::Lawyer => 0,
        ProfessionalRole::Doctor => 1,
        ProfessionalRole::Arbitrator => 2,
        ProfessionalRole::Notary => 3,
        ProfessionalRole::Auditor => 4,
        ProfessionalRole::ConsultantOther => 5,
    }
}

/// A listing as values: the profile and its reviews.
pub open spec fn entry_of(l: Listing) -> (ProfessionalProfile, Seq<Review>) {
    (l.profile, l.reviews@)
}

/// Selects the listing of `a`.
pub open spec fn listed(a: AccountId) -> spec_fn((ProfessionalProfile, Seq<Review>)) -> bool {
    |e: (ProfessionalProfile, Seq<Review>)| e.0.account == a
}

/// The reputation after a review of `rating`: the running average of the
/// scores, each review counting `20 * rating`, rounded down.
pub open spec fn next_reputation(score: u32, jobs: u32, rating: u8) -> int {
    (score * jobs + rating * 20) / (jobs + 1)
}

/// `p` after a review of `rating`.
pub open spec fn reviewed(p: ProfessionalProfile, rating: u8) -> ProfessionalProfile {
    ProfessionalProfile {
        reputation_score: next_reputation(p.reputation_score, p.total_jobs, rating) as u32,
        total_jobs: (p.total_jobs + 1) as u32,
        successful_jobs: if rating >= 4 {
            (p.successful_jobs + 1) as u32
        } else {
            p.successful_jobs
        },
        ..p
    }
}

/// The professionals, their reviews, and the registry's settings.
#[derive(Clone, Debug)]
pub struct ProfessionalRegistry {
    /// The last listing of an account is its listing.
    pub professionals: Vec<Listing>,
    /// The minimum stake of each role, in the order of `role_slot`.
    pub min_stake: Vec<Balance>,
    /// The share of a stake that a slash takes, in basis points.
    pub slash_percentage_bps: u16,
    pub owner: AccountId,
    pub slash_treasury: AccountId,
}

impl ProfessionalRegistry {
    /// Every role has a minimum stake; a slash takes at most the whole stake.
    pub open spec fn wf(&self) -> bool {
        &&& self.min_stake@.len() == 6
        &&& self.slash_percentage_bps <= 10000
        &&& forall|i: int| 0 <= i < self.professionals@.len() ==> (#[trigger] self.professionals@[i]).reviews@.len() <= u32::MAX
    }

    /// The listings as values.
    pub open spec fn entries(&self) -> Seq<(ProfessionalProfile, Seq<Review>)> {
        self.professionals@.map_values(|l: Listing| entry_of(l))
    }

    pub open spec fn entry(&self, a: AccountId) -> Option<(ProfessionalProfile, Seq<Review>)> {
        last_match(self.entries(), listed(a))
    }

    pub open spec fn profile_of(&self, a: AccountId) -> Option<ProfessionalProfile> {
        match self.entry(a) {
            Some(e) => Some(e.0),
            None => None,
        }
    }

    pub open spec fn reviews_of(&self, a: AccountId) -> Seq<Review> {
        match self.entry(a) {
            Some(e) => e.1,
            None => Seq::empty(),
        }
    }

    pub open spec fn min_stake_of(&self, r: ProfessionalRole) -> Balance {
        self.min_stake@[role_slot(r)]
    }

    /// Only the listing of `a` differs between `self` and `other`, which
    /// holds `e`.
    pub open spec fn changed_only(&self, other: &ProfessionalRegistry, a: AccountId, e: (ProfessionalProfile, Seq<Review>)) -> bool {
        &&& forall|b: AccountId| #[trigger] self.entry(b) == if b == a {
            Some(e)
        } else {
            other.entry(b)
        }
        &&& self.min_stake == other.min_stake
        &&& self.slash_percentage_bps == other.slash_percentage_bps
        &&& self.owner == other.owner
        &&& self.slash_treasury == other.slash_treasury
    }

    /// The failure of `submit_review`, if any.
    pub open spec fn review_failure(&self, professional: AccountId, rating: u8) -> Option<Error> {
        if !(1 <= rating <= 5) {
            Some(Error::InvalidRating)
        } else if self.entry(professional) is None {
            Some(Error::NotRegistered)
        } else if !self.entry(professional).unwrap().0.is_active {
            Some(Error::ProfileInactive)
        } else {
            None
        }
    }

    /// A registry with no professional; the minimum stakes are 100 units
    /// for lawyers and doctors, 200 for arbitrators, 50 for notaries and
    /// other consultants, 150 for auditors.
    pub fn new(owner: AccountId, slash_treasury: AccountId, slash_percentage_bps: u16) -> (r: Self)
        requires
            slash_percentage_bps <= 10000,
        ensures
            r.wf(),
            r.professionals@.len() == 0,
            r.min_stake_of(ProfessionalRole::Lawyer) == 100 * UNIT,
            r.min_stake_of(ProfessionalRole::Doctor) == 100 * UNIT,
            r.min_stake_of(ProfessionalRole::Arbitrator) == 200 * UNIT,
            r.min_stake_of(ProfessionalRole::Notary) == 50 * UNIT,
            r.min_stake_of(ProfessionalRole::Auditor) == 150 * UNIT,
            r.min_stake_of(ProfessionalRole::ConsultantOther) == 50 * UNIT,
            r.slash_percentage_bps == slash_percentage_bps,
            r.owner == owner,
            r.slash_treasury == slash_treasury,
    {
        let min_stake = vec![100 * UNIT, 100 * UNIT, 200 * UNIT, 50 * UNIT, 150 * UNIT, 50 * UNIT];
        ProfessionalRegistry {
            professionals: Vec::new(),
            min_stake,
            slash_percentage_bps,
            owner,
            slash_treasury,
        }
    }

    /// `caller` lists itself in `role` with the `stake` it transferred,
    /// which must reach the role's minimum; an account is listed once.
    pub fn register(
        &mut self,
        caller: AccountId,
        stake: Balance,
        now: Timestamp,
        role: ProfessionalRole,
        metadata_uri: String,
    ) -> (r: Result<ProfessionalRegistered, Error>)
        requires
            old(self).wf(),
        ensures
            final(self).wf(),
            match r {
                Ok(ev) => {
                    &&& old(self).entry(caller) is None
                    &&& stake >= old(self).min_stake_of(role)
                    &&& ev == (ProfessionalRegistered { account: caller, role, stake_amount: stake })
                    &&& final(self).changed_only(
                        old(self),
                        caller,
                        (
                            ProfessionalProfile {
                                account: caller,
                                role,
                                stake_amount: stake,
                                reputation_score: 100,
                                total_jobs: 0,
                                successful_jobs: 0,
                                registered_at: now,
                                is_active: true,
                                metadata_uri,
                            },
                            Seq::empty(),
                        ),
                    )
                },
                Err(e) => {
                    &&& e == if old(self).entry(caller) is Some {
                        Error::AlreadyRegistered
                    } else {
                        Error::InsufficientStake
                    }
                    &&& old(self).entry(caller) is None ==> stake < old(self).min_stake_of(role)
                    &&& *final(self) == *old(self)
                },
            },
    {
        if self.find(caller).is_some() {
            return Err(Error::AlreadyRegistered);
        }
        if stake < self.min_stake[role_index(role)] {
            return Err(Error::InsufficientStake);
        }
        let profile = ProfessionalProfile {
            account: caller,
            role,
            stake_amount: stake,
            reputation_score: 100,
            total_jobs: 0,
            successful_jobs: 0,
            registered_at: now,
            is_active: true,
            metadata_uri,
        };
        let listing = Listing { profile, reviews: Vec::new() };
        self.professionals.push(listing);
        proof {
            let x = entry_of(self.professionals@.last());
            assert(self.entries() =~= old(self).entries().push(x));
            assert forall|b: AccountId| #[trigger] self.entry(b) == if b == caller {
                Some(x)
            } else {
                old(self).entry(b)
            } by {
                lemma_last_match_push(old(self).entries(), x, listed(b));
            }
            assert(x.1 =~= Seq::<Review>::empty());
        }
        Ok(ProfessionalRegistered { account: caller, role, stake_amount: stake })
    }

    /// Adds `additional_stake` to the stake of `caller`.
    pub fn increase_stake(&mut self, caller: AccountId, additional_stake: Balance) -> (r: Result<StakeIncreased, Error>)
        requires
            old(self).wf(),
            old(self).entry(caller) is Some ==> old(self).entry(caller).unwrap().0.stake_amount + additional_stake
                <= u128::MAX,
        ensures
            final(self).wf(),
            match r {
                Ok(ev) => {
                    let (p, rs) = old(self).entry(caller).unwrap();
                    let stake = (p.stake_amount + additional_stake) as u128;
                    &&& old(self).entry(caller) is Some
                    &&& ev == (StakeIncreased { account: caller, new_stake: stake })
                    &&& final(self).changed_only(old(self), caller, (ProfessionalProfile { stake_amount: stake, ..p }, rs))
                },
                Err(e) => {
                    &&& old(self).entry(caller) is None
                    &&& e == Error::NotRegistered
                    &&& *final(self) == *old(self)
                },
            },
    {
        let i = match self.find(caller) {
            None => {
                return Err(Error::NotRegistered);
            },
            Some(i) => i,
        };
        let stake = self.professionals[i].profile.stake_amount + additional_stake;
        self.professionals[i].profile.stake_amount = stake;
        proof {
            Self::lemma_replaced(old(self), self, i as int, caller);
        }
        Ok(StakeIncreased { account: caller, new_stake: stake })
    }

    /// `caller` rates the active professional `professional` from 1 to 5;
    /// the review is kept and the reputation becomes the running average.
    pub fn submit_review(
        &mut self,
        caller: AccountId,
        now: Timestamp,
        professional: AccountId,
        rating: u8,
        comment: String,
    ) -> (r: Result<ReviewSubmitted, Error>)
        requires
            old(self).wf(),
            old(self).review_failure(professional, rating) is None ==> {
                let (p, rs) = old(self).entry(professional).unwrap();
                &&& rs.len() < u32::MAX
                &&& p.reputation_score * p.total_jobs + rating * 20 <= u32::MAX
                &&& p.total_jobs < u32::MAX
                &&& rating >= 4 ==> p.successful_jobs < u32::MAX
            },
        ensures
            final(self).wf(),
            match r {
                Ok(ev) => {
                    let (p, rs) = old(self).entry(professional).unwrap();
                    &&& old(self).review_failure(professional, rating) is None
                    &&& ev == (ReviewSubmitted { professional, reviewer: caller, rating })
                    &&& final(self).changed_only(
                        old(self),
                        professional,
                        (
                            reviewed(p, rating),
                            rs.push(Review { reviewer: caller, rating, comment, timestamp: now }),
                        ),
                    )
                },
                Err(e) => {
                    &&& old(self).review_failure(professional, rating) == Some(e)
                    &&& *final(self) == *old(self)
                },
            },
    {
        if rating < 1 || rating > 5 {
            return Err(Error::InvalidRating);
        }
        let i = match self.find(professional) {
            None => {
                return Err(Error::NotRegistered);
            },
            Some(i) => i,
        };
        if !self.professionals[i].profile.is_active {
            return Err(Error::ProfileInactive);
        }
        let score = self.professionals[i].profile.reputation_score;
        let jobs = self.professionals[i].profile.total_jobs;
        let weighted_current = score * jobs;
        let weighted_new = (rating as u32) * 20;
        let reputation = (weighted_current + weighted_new) / (jobs + 1);
        self.professionals[i].reviews.push(Review { reviewer: caller, rating, comment, timestamp: now });
        self.professionals[i].profile.reputation_score = reputation;
        self.professionals[i].profile.total_jobs = jobs + 1;
        if rating >= 4 {
            self.professionals[i].profile.successful_jobs = self.professionals[i].profile.successful_jobs + 1;
        }
        proof {
            Self::lemma_replaced(old(self), self, i as int, professional);
        }
        Ok(ReviewSubmitted { professional, reviewer: caller, rating })
    }

    /// The owner takes the configured share of the stake of `professional`
    /// for the treasury and lowers its reputation by 20 (not below 0); a
    /// stake left under the role's minimum deactivates the profile.
    pub fn slash(&mut self, caller: AccountId, professional: AccountId, reason: String) -> (r: Result<Slashing, Error>)
        requires
            old(self).wf(),
        ensures
            final(self).wf(),
            match r {
                Ok(out) => {
                    let (p, rs) = old(self).entry(professional).unwrap();
                    let amount = fee_of(p.stake_amount as int, old(self).slash_percentage_bps as int);
                    let stake = (p.stake_amount - amount) as u128;
                    let below = stake < old(self).min_stake_of(p.role);
                    &&& caller == old(self).owner
                    &&& old(self).entry(professional) is Some
                    &&& out.treasury_transfer == if amount > 0 {
                        Some((old(self).slash_treasury, amount as u128))
                    } else {
                        None
                    }
                    &&& out.slashed == if amount > 0 {
                        Some(ProfessionalSlashed { account: professional, slash_amount: amount as u128, reason })
                    } else {
                        None
                    }
                    &&& out.deactivated == if below {
                        Some(ProfessionalDeactivated { account: professional })
                    } else {
                        None
                    }
                    &&& final(self).changed_only(
                        old(self),
                        professional,
                        (
                            ProfessionalProfile {
                                stake_amount: stake,
                                reputation_score: if p.reputation_score >= 20 {
                                    (p.reputation_score - 20) as u32
                                } else {
                                    0
                                },
                                is_active: p.is_active && !below,
                                ..p
                            },
                            rs,
                        ),
                    )
                },
                Err(e) => {
                    &&& e == if caller != old(self).owner {
                        Error::NotAuthorized
                    } else {
                        Error::NotRegistered
                    }
                    &&& caller == old(self).owner ==> old(self).entry(professional) is None
                    &&& *final(self) == *old(self)
                },
            },
    {
        if !(caller == self.owner) {
            return Err(Error::NotAuthorized);
        }
        let i = match self.find(professional) {
            None => {
                return Err(Error::NotRegistered);
            },
            Some(i) => i,
        };
        let (amount, stake) = split(self.professionals[i].profile.stake_amount, self.slash_percentage_bps);
        let mut treasury_transfer = None;
        let mut slashed = None;
        if amount > 0 {
            self.professionals[i].profile.stake_amount = stake;
            treasury_transfer = Some((self.slash_treasury, amount));
            slashed = Some(ProfessionalSlashed { account: professional, slash_amount: amount, reason });
        }
        self.professionals[i].profile.reputation_score = self.professionals[i].profile.reputation_score.saturating_sub(20);
        let mut deactivated = None;
        let role = self.professionals[i].profile.role;
        if stake < self.min_stake[role_index(role)] {
            self.professionals[i].profile.is_active = false;
            deactivated = Some(ProfessionalDeactivated { account: professional });
        }
        proof {
            Self::lemma_replaced(old(self), self, i as int, professional);
        }
        Ok(Slashing { treasury_transfer, slashed, deactivated })
    }

    /// `caller` takes its whole stake back, which deactivates its profile.
    pub fn withdraw_stake(&mut self, caller: AccountId) -> (r: Result<Withdrawal, Error>)
        requires
            old(self).wf(),
        ensures
            final(self).wf(),
            match r {
                Ok(w) => {
                    let (p, rs) = old(self).entry(caller).unwrap();
                    &&& old(self).entry(caller) is Some
                    &&& w == (Withdrawal {
                        to: caller,
                        amount: p.stake_amount,
                        event: ProfessionalDeactivated { account: caller },
                    })
                    &&& final(self).changed_only(
                        old(self),
                        caller,
                        (ProfessionalProfile { stake_amount: 0, is_active: false, ..p }, rs),
                    )
                },
                Err(e) => {
                    &&& old(self).entry(caller) is None
                    &&& e == Error::NotRegistered
                    &&& *final(self) == *old(self)
                },
            },
    {
        let i = match self.find(caller) {
            None => {
                return Err(Error::NotRegistered);
            },
            Some(i) => i,
        };
        let amount = self.professionals[i].profile.stake_amount;
        self.professionals[i].profile.stake_amount = 0;
        self.professionals[i].profile.is_active = false;
        proof {
            Self::lemma_replaced(old(self), self, i as int, caller);
        }
        Ok(Withdrawal { to: caller, amount, event: ProfessionalDeactivated { account: caller } })
    }

    /// The owner sets the minimum stake of `role` to a non-zero `amount`.
    pub fn set_min_stake(&mut self, caller: AccountId, role: ProfessionalRole, amount: Balance) -> (r: Result<(), Error>)
        requires
            old(self).wf(),
        ensures
            final(self).wf(),
            match r {
                Ok(_) => {
                    &&& caller == old(self).owner
                    &&& amount != 0
                    &&& final(self).min_stake@ == old(self).min_stake@.update(role_slot(role), amount)
                    &&& final(self).professionals == old(self).professionals
                    &&& final(self).slash_percentage_bps == old(self).slash_percentage_bps
                    &&& final(self).owner == old(self).owner
                    &&& final(self).slash_treasury == old(self).slash_treasury
                },
                Err(e) => {
                    &&& e == if caller != old(self).owner {
                        Error::NotAuthorized
                    } else {
                        Error::InvalidMinStake
                    }
                    &&& caller == old(self).owner ==> amount == 0
                    &&& *final(self) == *old(self)
                },
            },
    {
        if !(caller == self.owner) {
            return Err(Error::NotAuthorized);
        }
        if amount == 0 {
            return Err(Error::InvalidMinStake);
        }
        let k = role_index(role);
        self.min_stake[k] = amount;
        Ok(())
    }

    /// The profile of `account`, if it is listed.
    pub fn get_profile(&self, account: AccountId) -> (r: Option<ProfessionalProfile>)
        ensures
            r == self.profile_of(account),
    {
        match self.find(account) {
            Some(i) => Some(copy_profile(&self.professionals[i].profile)),
            None => None,
        }
    }

    /// Review `review_index` of `professional`, if there is one.
    pub fn get_review(&self, professional: AccountId, review_index: u32) -> (r: Option<Review>)
        ensures
            r == if review_index < self.reviews_of(professional).len() {
                Some(self.reviews_of(professional)[review_index as int])
            } else {
                None
            },
    {
        match self.find(professional) {
            Some(i) => {
                if (review_index as usize) < self.professionals[i].reviews.len() {
                    let rv = &self.professionals[i].reviews[review_index as usize];
                    Some(Review {
                        reviewer: rv.reviewer,
                        rating: rv.rating,
                        comment: rv.comment.clone(),
                        timestamp: rv.timestamp,
                    })
                } else {
                    None
                }
            },
            None => None,
        }
    }

    /// The number of reviews of `professional`; 0 for one not listed.
    pub fn get_review_count(&self, professional: AccountId) -> (r: u32)
        requires
            self.wf(),
        ensures
            r == self.reviews_of(professional).len(),
    {
        match self.find(professional) {
            Some(i) => self.professionals[i].reviews.len() as u32,
            None => 0,
        }
    }

    /// The minimum stake of `role`.
    pub fn get_min_stake(&self, role: ProfessionalRole) -> (r: Balance)
        requires
            self.wf(),
        ensures
            r == self.min_stake_of(role),
    {
        self.min_stake[role_index(role)]
    }

    /// Whether `account` is listed and active.
    pub fn is_active_professional(&self, account: AccountId) -> (r: bool)
        ensures
            r == (self.profile_of(account) is Some && self.profile_of(account).unwrap().is_active),
    {
        match self.find(account) {
            Some(i) => self.professionals[i].profile.is_active,
            None => false,
        }
    }

    /// The position of the listing of `a`, if it has one.
    fn find(&self, a: AccountId) -> (r: Option<usize>)
        ensures
            match r {
                Some(i) => {
                    &&& i < self.professionals@.len()
                    &&& self.professionals@[i as int].profile.account == a
                    &&& forall|j: int| i < j < self.professionals@.len() ==> (#[trigger] self.professionals@[j]).profile.account != a
                    &&& self.entry(a) == Some(entry_of(self.professionals@[i as int]))
                },
                None => self.entry(a) is None,
            },
    {
        let mut i = self.professionals.len();
        while i > 0
            invariant
                i <= self.professionals@.len(),
                forall|j: int| i <= j < self.professionals@.len() ==> (#[trigger] self.professionals@[j]).profile.account != a,
            decreases i,
        {
            i = i - 1;
            if self.professionals[i].profile.account == a {
                proof {
                    assert forall|j: int| i < j < self.entries().len() implies !listed(a)(#[trigger] self.entries()[j]) by {
                        assert(self.professionals@[j].profile.account != a);
                    }
                    lemma_last_match_at(self.entries(), i as int, listed(a));
                }
                return Some(i);
            }
        }
        proof {
            assert forall|j: int| 0 <= j < self.entries().len() implies !listed(a)(#[trigger] self.entries()[j]) by {
                assert(self.professionals@[j].profile.account != a);
            }
            lemma_last_match_none(self.entries(), listed(a));
        }
        None
    }

    /// After listing `i`, the last one of its account, was changed in
    /// place, its account finds the new entry and other accounts what they
    /// found before.
    proof fn lemma_replaced(before: &ProfessionalRegistry, after: &ProfessionalRegistry, i: int, a: AccountId)
        requires
            0 <= i < before.professionals@.len(),
            before.professionals@[i].profile.account == a,
            forall|j: int| i < j < before.professionals@.len() ==> (#[trigger] before.professionals@[j]).profile.account != a,
            after.professionals@.len() == before.professionals@.len(),
            after.professionals@[i].profile.account == a,
            forall|j: int| 0 <= j < before.professionals@.len() && j != i ==> #[trigger] after.professionals@[j] == before.professionals@[j],
        ensures
            forall|b: AccountId| #[trigger] after.entry(b) == if b == a {
                Some(entry_of(after.professionals@[i]))
            } else {
                before.entry(b)
            },
    {
        let s = before.entries();
        let x = entry_of(after.professionals@[i]);
        assert(after.entries() =~= s.update(i, x));
        assert forall|j: int| i < j < s.len() implies !listed(a)(#[trigger] s[j]) by {
            assert(before.professionals@[j].profile.account != a);
        }
        lemma_last_match_replace(s, i, x, listed(a));
        assert forall|b: AccountId| b != a implies #[trigger] last_match(s.update(i, x), listed(b)) == last_match(s, listed(b)) by {
            lemma_last_match_other(s, i, x, listed(b));
        }
    }
}

fn copy_profile(p: &ProfessionalProfile) -> (r: ProfessionalProfile)
    ensures
        r == *p,
{
    ProfessionalProfile {
        account: p.account,
        role: p.role,
        stake_amount: p.stake_amount,
        reputation_score: p.reputation_score,
        total_jobs: p.total_jobs,
        successful_jobs: p.successful_jobs,
        registered_at: p.registered_at,
        is_active: p.is_active,
        metadata_uri: p.metadata_uri.clone(),
    }
}

} // verus!
