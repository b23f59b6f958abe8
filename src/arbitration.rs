use vstd::prelude::*;
use crate::account::{AccountId, Balance, Timestamp};
use crate::lookup::{last_match, lemma_last_match_push, lemma_last_match_at, lemma_last_match_none, lemma_last_match_replace, lemma_last_match_other};

verus! {

/// Where a dispute stands.
#[derive(Clone, Copy, Debug, PartialEq, Eq, Structural)]
pub enum DisputeStatus {
    Open,
    Voting,
    Resolved,
    Appealed,
    /// Declared for later use; no operation leads here.
    Cancelled,
}

/// The side that a vote, or a resolution, favours.
#[derive(Clone, Copy, Debug, PartialEq, Eq, Structural)]
pub enum VoteChoice {
    InFavorOfClaimant,
    InFavorOfDefendant,
}

/// A dispute between a claimant and a defendant, decided by stake-weighted
/// votes of the arbitrators.
#[derive(Clone, Debug)]
pub struct Dispute {
    pub dispute_id: u128,
    pub claimant: AccountId,
    pub defendant: AccountId,
    pub description: String,
    pub evidence_uri: String,
    pub status: DisputeStatus,
    pub created_at: Timestamp,
    pub voting_ends_at: Timestamp,
    pub votes_for_claimant: Balance,
    pub votes_for_defendant: Balance,
    pub resolution: Option<VoteChoice>,
    pub can_appeal: bool,
}

/// A registered arbitrator; its stake is the weight of its votes.
#[derive(Clone, Copy, Debug)]
pub struct Arbitrator {
    pub account: AccountId,
    pub stake: Balance,
    pub disputes_participated: u32,
    pub disputes_resolved: u32,
    pub reputation: u32,
    pub is_active: bool,
}

/// A vote cast on a dispute, with the weight it carried.
#[derive(Clone, Copy, Debug)]
pub struct Vote {
    pub dispute_id: u128,
    pub arbitrator: AccountId,
    pub choice: VoteChoice,
    pub weight: Balance,
}

/// Notification: a dispute was opened.
#[derive(Clone, Copy, Debug)]
pub struct DisputeCreated {
    pub dispute_id: u128,
    pub claimant: AccountId,
    pub defendant: AccountId,
}

/// Notification: an arbitrator voted.
#[derive(Clone, Copy, Debug)]
pub struct VoteCast {
    pub dispute_id: u128,
    pub arbitrator: AccountId,
    pub vote: VoteChoice,
    pub weight: Balance,
}

/// Notification: a dispute was decided.
#[derive(Clone, Copy, Debug)]
pub struct DisputeResolved {
    pub dispute_id: u128,
    pub resolution: VoteChoice,
}

/// Notification: an arbitrator registered.
#[derive(Clone, Copy, Debug)]
pub struct ArbitratorRegistered {
    pub account: AccountId,
    pub stake: Balance,
}

/// Notification: a decision was appealed.
#[derive(Clone, Copy, Debug)]
pub struct DisputeAppealed {
    pub dispute_id: u128,
    pub appellant: AccountId,
}

/// The failures of the arbitration body. Each leaves the state untouched.
#[derive(Clone, Copy, Debug, PartialEq, Eq, Structural)]
pub enum Error {
    DisputeNotFound,
    NotAuthorized,
    InsufficientStake,
    InvalidDisputeStatus,
    VotingPeriodEnded,
    VotingPeriodNotEnded,
    AlreadyVoted,
    NotRegisteredArbitrator,
    QuorumNotReached,
    DisputeCannotBeAppealed,
    TransferFailed,
}

/// Selects the records of `a`.
pub open spec fn of_account(a: AccountId) -> spec_fn(Arbitrator) -> bool {
    |x: Arbitrator| x.account == a
}

/// Selects the vote of `a` on dispute `d`.
pub open spec fn vote_key(d: u128, a: AccountId) -> spec_fn(Vote) -> bool {
    |v: Vote| v.dispute_id == d && v.arbitrator == a
}

/// The record that a new arbitrator starts with.
pub open spec fn new_arbitrator(account: AccountId, stake: Balance) -> Arbitrator {
    Arbitrator {
        account,
        stake,
        disputes_participated: 0,
        disputes_resolved: 0,
        reputation: 100,
        is_active: true,
    }
}

/// `d` with its status set.
pub open spec fn with_dispute_status(d: Dispute, s: DisputeStatus) -> Dispute {
    Dispute { status: s, ..d }
}

/// `d` with `weight` added to the side that `choice` favours.
pub open spec fn tallied(d: Dispute, choice: VoteChoice, weight: Balance) -> Dispute {
    match choice {
        VoteChoice::InFavorOfClaimant => Dispute {
            votes_for_claimant: (d.votes_for_claimant + weight) as u128,
            ..d
        },
        VoteChoice::InFavorOfDefendant => Dispute {
            votes_for_defendant: (d.votes_for_defendant + weight) as u128,
            ..d
        },
    }
}

/// The side with strictly more weight wins; a tie goes to the defendant.
pub open spec fn winner(d: Dispute) -> VoteChoice {
    if d.votes_for_claimant > d.votes_for_defendant {
        VoteChoice::InFavorOfClaimant
    } else {
        VoteChoice::InFavorOfDefendant
    }
}

/// `d` reopened for a second and last round of voting, ending at `ends`.
pub open spec fn appealed(d: Dispute, ends: Timestamp) -> Dispute {
    Dispute {
        status: DisputeStatus::Appealed,
        voting_ends_at: ends,
        votes_for_claimant: 0,
        votes_for_defendant: 0,
        can_appeal: false,
        ..d
    }
}

/// The disputes, the arbitrators and their votes, and the body's settings.
#[derive(Clone, Debug)]
pub struct ArbitrationDAO {
    /// The id that the next dispute gets.
    pub next_dispute_id: u128,
    /// Dispute `i` has id `i`.
    pub disputes: Vec<Dispute>,
    /// The last record of an account is its arbitrator record.
    pub arbitrators: Vec<Arbitrator>,
    /// Every vote cast, at most one for each dispute and arbitrator.
    pub votes: Vec<Vote>,
    pub min_arbitrator_stake: Balance,
    /// The length of a voting round, in milliseconds.
    pub voting_period: u64,
    /// Quorum, in basis points; a round needs at least one vote.
    pub quorum_bps: u16,
    pub owner: AccountId,
}

impl ArbitrationDAO {
    pub open spec fn wf(&self) -> bool {
        &&& self.next_dispute_id == self.disputes@.len()
        &&& forall|i: int| 0 <= i < self.disputes@.len() ==> #[trigger] self.disputes@[i].dispute_id == i
    }

    pub open spec fn has_dispute(&self, id: u128) -> bool {
        id < self.disputes@.len()
    }

    pub open spec fn dispute(&self, id: u128) -> Dispute {
        self.disputes@[id as int]
    }

    pub open spec fn arbitrator_of(&self, a: AccountId) -> Option<Arbitrator> {
        last_match(self.arbitrators@, of_account(a))
    }

    pub open spec fn vote_of(&self, d: u128, a: AccountId) -> Option<Vote> {
        last_match(self.votes@, vote_key(d, a))
    }

    /// The settings and the disputes are those of `other`.
    pub open spec fn same_settings(&self, other: &ArbitrationDAO) -> bool {
        &&& self.min_arbitrator_stake == other.min_arbitrator_stake
        &&& self.voting_period == other.voting_period
        &&& self.quorum_bps == other.quorum_bps
        &&& self.owner == other.owner
    }

    /// The failure of `start_voting`, if any.
    pub open spec fn start_failure(&self, caller: AccountId, id: u128) -> Option<Error> {
        if !self.has_dispute(id) {
            Some(Error::DisputeNotFound)
        } else if caller != self.dispute(id).claimant && caller != self.dispute(id).defendant {
            Some(Error::NotAuthorized)
        } else if self.dispute(id).status != DisputeStatus::Open {
            Some(Error::InvalidDisputeStatus)
        } else {
            None
        }
    }

    /// The failure of `vote`, if any.
    pub open spec fn vote_failure(&self, caller: AccountId, now: Timestamp, id: u128) -> Option<Error> {
        if self.arbitrator_of(caller) is None || !self.arbitrator_of(caller).unwrap().is_active {
            Some(Error::NotRegisteredArbitrator)
        } else if !self.has_dispute(id) {
            Some(Error::DisputeNotFound)
        } else if self.dispute(id).status != DisputeStatus::Voting {
            Some(Error::InvalidDisputeStatus)
        } else if now > self.dispute(id).voting_ends_at {
            Some(Error::VotingPeriodEnded)
        } else if self.vote_of(id, caller) is Some {
            Some(Error::AlreadyVoted)
        } else {
            None
        }
    }

    /// The failure of `finalize_dispute`, if any.
    pub open spec fn finalize_failure(&self, now: Timestamp, id: u128) -> Option<Error> {
        if !self.has_dispute(id) {
            Some(Error::DisputeNotFound)
        } else if self.dispute(id).status != DisputeStatus::Voting {
            Some(Error::InvalidDisputeStatus)
        } else if now <= self.dispute(id).voting_ends_at {
            Some(Error::VotingPeriodNotEnded)
        } else if self.dispute(id).votes_for_claimant + self.dispute(id).votes_for_defendant == 0 {
            Some(Error::QuorumNotReached)
        } else {
            None
        }
    }

    /// The failure of `appeal_dispute`, if any.
    pub open spec fn appeal_failure(&self, caller: AccountId, id: u128) -> Option<Error> {
        if !self.has_dispute(id) {
            Some(Error::DisputeNotFound)
        } else if caller != self.dispute(id).claimant && caller != self.dispute(id).defendant {
            Some(Error::NotAuthorized)
        } else if self.dispute(id).status != DisputeStatus::Resolved {
            Some(Error::InvalidDisputeStatus)
        } else if !self.dispute(id).can_appeal {
            Some(Error::DisputeCannotBeAppealed)
        } else {
            None
        }
    }

    /// A body with no dispute and no arbitrator.
    pub fn new(owner: AccountId, min_arbitrator_stake: Balance, voting_period_ms: u64, quorum_bps: u16) -> (r: Self)
        ensures
            r.wf(),
            r.disputes@.len() == 0,
            r.arbitrators@.len() == 0,
            r.votes@.len() == 0,
            r.min_arbitrator_stake == min_arbitrator_stake,
            r.voting_period == voting_period_ms,
            r.quorum_bps == quorum_bps,
            r.owner == owner,
    {
        ArbitrationDAO {
            next_dispute_id: 0,
            disputes: Vec::new(),
            arbitrators: Vec::new(),
            votes: Vec::new(),
            min_arbitrator_stake,
            voting_period: voting_period_ms,
            quorum_bps,
            owner,
        }
    }

    /// `caller` becomes an arbitrator with the `stake` it transferred, which
    /// must reach the minimum; a former record of `caller` is replaced.
    pub fn register_arbitrator(&mut self, caller: AccountId, stake: Balance) -> (r: Result<ArbitratorRegistered, Error>)
        requires
            old(self).wf(),
        ensures
            final(self).wf(),
            match r {
                Ok(ev) => {
                    &&& stake >= old(self).min_arbitrator_stake
                    &&& ev == (ArbitratorRegistered { account: caller, stake })
                    &&& forall|b: AccountId| #[trigger] final(self).arbitrator_of(b) == if b == caller {
                        Some(new_arbitrator(caller, stake))
                    } else {
                        old(self).arbitrator_of(b)
                    }
                    &&& final(self).disputes == old(self).disputes
                    &&& final(self).votes == old(self).votes
                    &&& final(self).same_settings(old(self))
                },
                Err(e) => {
                    &&& stake < old(self).min_arbitrator_stake
                    &&& e == Error::InsufficientStake
                    &&& *final(self) == *old(self)
                },
            },
    {
        if stake < self.min_arbitrator_stake {
            return Err(Error::InsufficientStake);
        }
        let record = Arbitrator {
            account: caller,
            stake,
            disputes_participated: 0,
            disputes_resolved: 0,
            reputation: 100,
            is_active: true,
        };
        self.put_arbitrator(record);
        Ok(ArbitratorRegistered { account: caller, stake })
    }

    /// Adds `additional_stake` to the stake of the arbitrator `caller`.
    pub fn increase_arbitrator_stake(&mut self, caller: AccountId, additional_stake: Balance) -> (r: Result<(), Error>)
        requires
            old(self).wf(),
            old(self).arbitrator_of(caller) is Some ==> old(self).arbitrator_of(caller).unwrap().stake
                + additional_stake <= u128::MAX,
        ensures
            final(self).wf(),
            match r {
                Ok(_) => {
                    let x = old(self).arbitrator_of(caller).unwrap();
                    &&& old(self).arbitrator_of(caller) is Some
                    &&& forall|b: AccountId| #[trigger] final(self).arbitrator_of(b) == if b == caller {
                        Some(Arbitrator { stake: (x.stake + additional_stake) as u128, ..x })
                    } else {
                        old(self).arbitrator_of(b)
                    }
                    &&& final(self).disputes == old(self).disputes
                    &&& final(self).votes == old(self).votes
                    &&& final(self).same_settings(old(self))
                },
                Err(e) => {
                    &&& old(self).arbitrator_of(caller) is None
                    &&& e == Error::NotRegisteredArbitrator
                    &&& *final(self) == *old(self)
                },
            },
    {
        match self.find_arbitrator(caller) {
            None => Err(Error::NotRegisteredArbitrator),
            Some(i) => {
                let mut x = self.arbitrators[i];
                x.stake = x.stake + additional_stake;
                self.put_arbitrator(x);
                Ok(())
            },
        }
    }

    /// `caller` opens a dispute against `defendant`; voting may run until
    /// one voting period after `now`. This always succeeds.
    pub fn create_dispute(
        &mut self,
        caller: AccountId,
        now: Timestamp,
        defendant: AccountId,
        description: String,
        evidence_uri: String,
    ) -> (r: Result<DisputeCreated, Error>)
        requires
            old(self).wf(),
            now + old(self).voting_period <= u64::MAX,
        ensures
            final(self).wf(),
            r == Ok::<DisputeCreated, Error>(
                DisputeCreated { dispute_id: old(self).next_dispute_id, claimant: caller, defendant },
            ),
            final(self).disputes@ == old(self).disputes@.push(
                (Dispute {
                    dispute_id: old(self).next_dispute_id,
                    claimant: caller,
                    defendant,
                    description,
                    evidence_uri,
                    status: DisputeStatus::Open,
                    created_at: now,
                    voting_ends_at: (now + old(self).voting_period) as u64,
                    votes_for_claimant: 0,
                    votes_for_defendant: 0,
                    resolution: None,
                    can_appeal: true,
                }),
            ),
            final(self).next_dispute_id == old(self).next_dispute_id + 1,
            final(self).arbitrators == old(self).arbitrators,
            final(self).votes == old(self).votes,
            final(self).same_settings(old(self)),
    {
        // The counter equals the number of disputes, a `usize`, so it cannot overflow.
        let _count = self.disputes.len();
        let dispute_id = self.next_dispute_id;
        self.next_dispute_id = dispute_id + 1;
        let voting_ends_at = now + self.voting_period;
        self.disputes.push(
            Dispute {
                dispute_id,
                claimant: caller,
                defendant,
                description,
                evidence_uri,
                status: DisputeStatus::Open,
                created_at: now,
                voting_ends_at,
                votes_for_claimant: 0,
                votes_for_defendant: 0,
                resolution: None,
                can_appeal: true,
            },
        );
        Ok(DisputeCreated { dispute_id, claimant: caller, defendant })
    }

    /// A party to an open dispute puts it to the vote.
    pub fn start_voting(&mut self, caller: AccountId, dispute_id: u128) -> (r: Result<(), Error>)
        requires
            old(self).wf(),
        ensures
            final(self).wf(),
            match r {
                Ok(_) => {
                    &&& old(self).start_failure(caller, dispute_id) is None
                    &&& final(self).disputes@ == old(self).disputes@.update(
                        dispute_id as int,
                        with_dispute_status(old(self).dispute(dispute_id), DisputeStatus::Voting),
                    )
                    &&& final(self).next_dispute_id == old(self).next_dispute_id
                    &&& final(self).arbitrators == old(self).arbitrators
                    &&& final(self).votes == old(self).votes
                    &&& final(self).same_settings(old(self))
                },
                Err(e) => {
                    &&& old(self).start_failure(caller, dispute_id) == Some(e)
                    &&& *final(self) == *old(self)
                },
            },
    {
        if dispute_id >= self.disputes.len() as u128 {
            return Err(Error::DisputeNotFound);
        }
        let i = dispute_id as usize;
        let d = &self.disputes[i];
        if !(caller == d.claimant) && !(caller == d.defendant) {
            return Err(Error::NotAuthorized);
        }
        if d.status != DisputeStatus::Open {
            return Err(Error::InvalidDisputeStatus);
        }
        self.disputes[i].status = DisputeStatus::Voting;
        proof {
            assert(self.disputes@ =~= old(self).disputes@.update(
                dispute_id as int,
                with_dispute_status(old(self).dispute(dispute_id), DisputeStatus::Voting),
            ));
        }
        Ok(())
    }

    /// The arbitrator `caller` votes on a dispute under vote, once, with its
    /// stake as weight.
    pub fn vote(&mut self, caller: AccountId, now: Timestamp, dispute_id: u128, choice: VoteChoice) -> (r: Result<VoteCast, Error>)
        requires
            old(self).wf(),
            old(self).vote_failure(caller, now, dispute_id) is None ==> {
                let d = old(self).dispute(dispute_id);
                let w = old(self).arbitrator_of(caller).unwrap().stake;
                &&& d.votes_for_claimant + w <= u128::MAX
                &&& d.votes_for_defendant + w <= u128::MAX
                &&& old(self).arbitrator_of(caller).unwrap().disputes_participated < u32::MAX
            },
        ensures
            final(self).wf(),
            match r {
                Ok(ev) => {
                    let x = old(self).arbitrator_of(caller).unwrap();
                    &&& old(self).vote_failure(caller, now, dispute_id) is None
                    &&& ev == (VoteCast { dispute_id, arbitrator: caller, vote: choice, weight: x.stake })
                    &&& final(self).disputes@ == old(self).disputes@.update(
                        dispute_id as int,
                        tallied(old(self).dispute(dispute_id), choice, x.stake),
                    )
                    &&& final(self).votes@ == old(self).votes@.push(
                        (Vote { dispute_id, arbitrator: caller, choice, weight: x.stake }),
                    )
                    &&& forall|b: AccountId| #[trigger] final(self).arbitrator_of(b) == if b == caller {
                        Some(Arbitrator { disputes_participated: (x.disputes_participated + 1) as u32, ..x })
                    } else {
                        old(self).arbitrator_of(b)
                    }
                    &&& final(self).next_dispute_id == old(self).next_dispute_id
                    &&& final(self).same_settings(old(self))
                },
                Err(e) => {
                    &&& old(self).vote_failure(caller, now, dispute_id) == Some(e)
                    &&& *final(self) == *old(self)
                },
            },
    {
        let k = match self.find_arbitrator(caller) {
            None => {
                return Err(Error::NotRegisteredArbitrator);
            },
            Some(k) => k,
        };
        let mut x = self.arbitrators[k];
        if !x.is_active {
            return Err(Error::NotRegisteredArbitrator);
        }
        if dispute_id >= self.disputes.len() as u128 {
            return Err(Error::DisputeNotFound);
        }
        let i = dispute_id as usize;
        if self.disputes[i].status != DisputeStatus::Voting {
            return Err(Error::InvalidDisputeStatus);
        }
        if now > self.disputes[i].voting_ends_at {
            return Err(Error::VotingPeriodEnded);
        }
        if self.has_voted(dispute_id, caller) {
            return Err(Error::AlreadyVoted);
        }
        let weight = x.stake;
        let ghost votes = self.votes@;
        self.votes.push(Vote { dispute_id, arbitrator: caller, choice, weight });
        match choice {
            VoteChoice::InFavorOfClaimant => {
                self.disputes[i].votes_for_claimant = self.disputes[i].votes_for_claimant + weight;
            },
            VoteChoice::InFavorOfDefendant => {
                self.disputes[i].votes_for_defendant = self.disputes[i].votes_for_defendant + weight;
            },
        }
        proof {
            assert(self.disputes@ =~= old(self).disputes@.update(
                dispute_id as int,
                tallied(old(self).dispute(dispute_id), choice, weight),
            ));
        }
        x.disputes_participated = x.disputes_participated + 1;
        self.put_arbitrator(x);
        Ok(VoteCast { dispute_id, arbitrator: caller, vote: choice, weight })
    }

    /// Closes the vote on a dispute once its period is over: the side with
    /// more weight wins, a tie going to the defendant.
    pub fn finalize_dispute(&mut self, now: Timestamp, dispute_id: u128) -> (r: Result<DisputeResolved, Error>)
        requires
            old(self).wf(),
            old(self).has_dispute(dispute_id) ==> old(self).dispute(dispute_id).votes_for_claimant
                + old(self).dispute(dispute_id).votes_for_defendant <= u128::MAX,
        ensures
            final(self).wf(),
            match r {
                Ok(ev) => {
                    let d = old(self).dispute(dispute_id);
                    &&& old(self).finalize_failure(now, dispute_id) is None
                    &&& ev == (DisputeResolved { dispute_id, resolution: winner(d) })
                    &&& final(self).disputes@ == old(self).disputes@.update(
                        dispute_id as int,
                        Dispute { status: DisputeStatus::Resolved, resolution: Some(winner(d)), ..d },
                    )
                    &&& final(self).next_dispute_id == old(self).next_dispute_id
                    &&& final(self).arbitrators == old(self).arbitrators
                    &&& final(self).votes == old(self).votes
                    &&& final(self).same_settings(old(self))
                },
                Err(e) => {
                    &&& old(self).finalize_failure(now, dispute_id) == Some(e)
                    &&& *final(self) == *old(self)
                },
            },
    {
        if dispute_id >= self.disputes.len() as u128 {
            return Err(Error::DisputeNotFound);
        }
        let i = dispute_id as usize;
        let d = &self.disputes[i];
        if d.status != DisputeStatus::Voting {
            return Err(Error::InvalidDisputeStatus);
        }
        if now <= d.voting_ends_at {
            return Err(Error::VotingPeriodNotEnded);
        }
        let total_votes = d.votes_for_claimant + d.votes_for_defendant;
        if total_votes == 0 {
            return Err(Error::QuorumNotReached);
        }
        let resolution = if d.votes_for_claimant > d.votes_for_defendant {
            VoteChoice::InFavorOfClaimant
        } else {
            VoteChoice::InFavorOfDefendant
        };
        self.disputes[i].status = DisputeStatus::Resolved;
        self.disputes[i].resolution = Some(resolution);
        proof {
            let d = old(self).dispute(dispute_id);
            assert(self.disputes@ =~= old(self).disputes@.update(
                dispute_id as int,
                Dispute { status: DisputeStatus::Resolved, resolution: Some(winner(d)), ..d },
            ));
        }
        Ok(DisputeResolved { dispute_id, resolution })
    }

    /// A party appeals a decided dispute, once: the tallies start again and
    /// voting may run until one voting period after `now`.
    pub fn appeal_dispute(&mut self, caller: AccountId, now: Timestamp, dispute_id: u128) -> (r: Result<DisputeAppealed, Error>)
        requires
            old(self).wf(),
            old(self).appeal_failure(caller, dispute_id) is None ==> now + old(self).voting_period <= u64::MAX,
        ensures
            final(self).wf(),
            match r {
                Ok(ev) => {
                    &&& old(self).appeal_failure(caller, dispute_id) is None
                    &&& ev == (DisputeAppealed { dispute_id, appellant: caller })
                    &&& final(self).disputes@ == old(self).disputes@.update(
                        dispute_id as int,
                        appealed(old(self).dispute(dispute_id), (now + old(self).voting_period) as u64),
                    )
                    &&& final(self).next_dispute_id == old(self).next_dispute_id
                    &&& final(self).arbitrators == old(self).arbitrators
                    &&& final(self).votes == old(self).votes
                    &&& final(self).same_settings(old(self))
                },
                Err(e) => {
                    &&& old(self).appeal_failure(caller, dispute_id) == Some(e)
                    &&& *final(self) == *old(self)
                },
            },
    {
        if dispute_id >= self.disputes.len() as u128 {
            return Err(Error::DisputeNotFound);
        }
        let i = dispute_id as usize;
        let d = &self.disputes[i];
        if !(caller == d.claimant) && !(caller == d.defendant) {
            return Err(Error::NotAuthorized);
        }
        if d.status != DisputeStatus::Resolved {
            return Err(Error::InvalidDisputeStatus);
        }
        if !d.can_appeal {
            return Err(Error::DisputeCannotBeAppealed);
        }
        let ends = now + self.voting_period;
        self.disputes[i].status = DisputeStatus::Appealed;
        self.disputes[i].voting_ends_at = ends;
        self.disputes[i].votes_for_claimant = 0;
        self.disputes[i].votes_for_defendant = 0;
        self.disputes[i].can_appeal = false;
        proof {
            assert(self.disputes@ =~= old(self).disputes@.update(
                dispute_id as int,
                appealed(old(self).dispute(dispute_id), ends),
            ));
        }
        Ok(DisputeAppealed { dispute_id, appellant: caller })
    }

    /// The dispute with id `dispute_id`, if there is one.
    pub fn get_dispute(&self, dispute_id: u128) -> (r: Option<Dispute>)
        ensures
            r == if self.has_dispute(dispute_id) {
                Some(self.dispute(dispute_id))
            } else {
                None
            },
    {
        if dispute_id < self.disputes.len() as u128 {
            Some(copy_dispute(&self.disputes[dispute_id as usize]))
        } else {
            None
        }
    }

    /// The arbitrator record of `account`, if there is one.
    pub fn get_arbitrator(&self, account: AccountId) -> (r: Option<Arbitrator>)
        ensures
            r == self.arbitrator_of(account),
    {
        match self.find_arbitrator(account) {
            Some(i) => Some(self.arbitrators[i]),
            None => None,
        }
    }

    /// How `arbitrator` voted on dispute `dispute_id`, if it did.
    pub fn get_vote(&self, dispute_id: u128, arbitrator: AccountId) -> (r: Option<VoteChoice>)
        ensures
            r == match self.vote_of(dispute_id, arbitrator) {
                Some(v) => Some(v.choice),
                None => None,
            },
    {
        let mut i = self.votes.len();
        while i > 0
            invariant
                i <= self.votes@.len(),
                forall|j: int| i <= j < self.votes@.len() ==> !vote_key(dispute_id, arbitrator)(#[trigger] self.votes@[j]),
            decreases i,
        {
            i = i - 1;
            let v = &self.votes[i];
            if v.dispute_id == dispute_id && v.arbitrator == arbitrator {
                proof {
                    lemma_last_match_at(self.votes@, i as int, vote_key(dispute_id, arbitrator));
                }
                return Some(v.choice);
            }
        }
        proof {
            lemma_last_match_none(self.votes@, vote_key(dispute_id, arbitrator));
        }
        None
    }

    /// Whether `account` is a registered, active arbitrator.
    pub fn is_active_arbitrator(&self, account: AccountId) -> (r: bool)
        ensures
            r == (self.arbitrator_of(account) is Some && self.arbitrator_of(account).unwrap().is_active),
    {
        match self.find_arbitrator(account) {
            Some(i) => self.arbitrators[i].is_active,
            None => false,
        }
    }

    /// The position of the record of `a`, if it has one.
    fn find_arbitrator(&self, a: AccountId) -> (r: Option<usize>)
        ensures
            match r {
                Some(i) => {
                    &&& i < self.arbitrators@.len()
                    &&& self.arbitrators@[i as int].account == a
                    &&& forall|j: int| i < j < self.arbitrators@.len() ==> (#[trigger] self.arbitrators@[j]).account != a
                    &&& self.arbitrator_of(a) == Some(self.arbitrators@[i as int])
                },
                None => self.arbitrator_of(a) is None,
            },
    {
        let mut i = self.arbitrators.len();
        while i > 0
            invariant
                i <= self.arbitrators@.len(),
                forall|j: int| i <= j < self.arbitrators@.len() ==> (#[trigger] self.arbitrators@[j]).account != a,
            decreases i,
        {
            i = i - 1;
            if self.arbitrators[i].account == a {
                proof {
                    lemma_last_match_at(self.arbitrators@, i as int, of_account(a));
                }
                return Some(i);
            }
        }
        proof {
            lemma_last_match_none(self.arbitrators@, of_account(a));
        }
        None
    }

    /// Stores `x` as the record of its account.
    fn put_arbitrator(&mut self, x: Arbitrator)
        ensures
            forall|b: AccountId| #[trigger] final(self).arbitrator_of(b) == if b == x.account {
                Some(x)
            } else {
                old(self).arbitrator_of(b)
            },
            final(self).disputes == old(self).disputes,
            final(self).votes == old(self).votes,
            final(self).next_dispute_id == old(self).next_dispute_id,
            final(self).same_settings(old(self)),
    {
        match self.find_arbitrator(x.account) {
            Some(i) => {
                let ghost s = self.arbitrators@;
                self.arbitrators[i] = x;
                proof {
                    assert(self.arbitrators@ == s.update(i as int, x));
                    lemma_last_match_replace(s, i as int, x, of_account(x.account));
                    assert forall|b: AccountId| b != x.account implies #[trigger] last_match(
                        s.update(i as int, x),
                        of_account(b),
                    ) == last_match(s, of_account(b)) by {
                        lemma_last_match_other(s, i as int, x, of_account(b));
                    }
                }
            },
            None => {
                let ghost s = self.arbitrators@;
                self.arbitrators.push(x);
                proof {
                    assert forall|b: AccountId| #[trigger] last_match(s.push(x), of_account(b)) == if b == x.account {
                        Some(x)
                    } else {
                        last_match(s, of_account(b))
                    } by {
                        lemma_last_match_push(s, x, of_account(b));
                    }
                }
            },
        }
    }

    /// Whether `a` voted on dispute `d`.
    fn has_voted(&self, d: u128, a: AccountId) -> (r: bool)
        ensures
            r == self.vote_of(d, a) is Some,
    {
        let mut i = self.votes.len();
        while i > 0
            invariant
                i <= self.votes@.len(),
                forall|j: int| i <= j < self.votes@.len() ==> !vote_key(d, a)(#[trigger] self.votes@[j]),
            decreases i,
        {
            i = i - 1;
            let v = &self.votes[i];
            if v.dispute_id == d && v.arbitrator == a {
                proof {
                    lemma_last_match_at(self.votes@, i as int, vote_key(d, a));
                }
                return true;
            }
        }
        proof {
            lemma_last_match_none(self.votes@, vote_key(d, a));
        }
        false
    }
}

fn copy_dispute(d: &Dispute) -> (r: Dispute)
    ensures
        r == *d,
{
    Dispute {
        dispute_id: d.dispute_id,
        claimant: d.claimant,
        defendant: d.defendant,
        description: d.description.clone(),
        evidence_uri: d.evidence_uri.clone(),
        status: d.status,
        created_at: d.created_at,
        voting_ends_at: d.voting_ends_at,
        votes_for_claimant: d.votes_for_claimant,
        votes_for_defendant: d.votes_for_defendant,
        resolution: d.resolution,
        can_appeal: d.can_appeal,
    }
}

} // verus!
