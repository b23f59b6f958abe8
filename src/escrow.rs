use vstd::prelude::*;
use crate::account::{AccountId, Balance, Timestamp};
use crate::fee::{split, fee_of, lemma_fee_at_most_amount};

verus! {

/// Where a milestone stands in its lifecycle.
#[derive(Clone, Copy, Debug, PartialEq, Eq, Structural)]
pub enum MilestoneStatus {
    Pending,
    Completed,
    Disputed,
    Resolved,
    /// Declared for later use; no operation leads here.
    Cancelled,
}

/// One transition of the milestone table:
/// `Pending -> Completed -> {Resolved, Disputed}`, `Disputed -> Resolved`.
pub open spec fn is_step(from: MilestoneStatus, to: MilestoneStatus) -> bool {
    (from == MilestoneStatus::Pending && to == MilestoneStatus::Completed)
        || (from == MilestoneStatus::Completed && to == MilestoneStatus::Resolved)
        || (from == MilestoneStatus::Completed && to == MilestoneStatus::Disputed)
        || (from == MilestoneStatus::Disputed && to == MilestoneStatus::Resolved)
}

/// The position of a status along `Pending, Completed, Disputed, Resolved`.
pub open spec fn stage(s: MilestoneStatus) -> int {
    match s {
        MilestoneStatus::Pending => 0,
        MilestoneStatus::Completed => 1,
        MilestoneStatus::Disputed => 2,
        MilestoneStatus::Resolved => 3,
        MilestoneStatus::Cancelled => 4,
    }
}

/// `to` is reached from `from` by zero or more steps of the table.
pub open spec fn reaches(from: MilestoneStatus, to: MilestoneStatus) -> bool {
    from == to || (to != MilestoneStatus::Cancelled && stage(from) < stage(to))
}

/// One deliverable of an agreement.
#[derive(Clone, Debug)]
pub struct Milestone {
    pub description: String,
    pub amount: Balance,
    pub status: MilestoneStatus,
    pub deadline: Timestamp,
    pub oracle_verification: bool,
}

/// A payer (`client`) and a payee (`provider`) with the value held for them.
#[derive(Clone, Copy, Debug)]
pub struct Agreement {
    pub client: AccountId,
    pub provider: AccountId,
    pub total_amount: Balance,
    /// What the payer put into custody at creation. Releases do not lower
    /// it: it records the deposit, not what remains held.
    pub deposited_amount: Balance,
    pub created_at: Timestamp,
    pub dispute_timeout: Timestamp,
    /// The arbiter, who may approve and resolve at any time.
    pub oracle: Option<AccountId>,
    /// Set at creation; no operation clears it.
    pub is_active: bool,
}

/// Notification: an agreement was created.
#[derive(Clone, Copy, Debug)]
pub struct AgreementCreated {
    pub agreement_id: u128,
    pub client: AccountId,
    pub provider: AccountId,
    pub total_amount: Balance,
}

/// Notification: the payee declared a milestone delivered.
#[derive(Clone, Copy, Debug)]
pub struct MilestoneCompleted {
    pub agreement_id: u128,
    pub milestone_index: u32,
    pub amount: Balance,
}

/// Notification: a completed milestone went into dispute.
#[derive(Clone, Copy, Debug)]
pub struct DisputeRaised {
    pub agreement_id: u128,
    pub milestone_index: u32,
    pub raised_by: AccountId,
}

/// Notification: value left custody for `to`.
#[derive(Clone, Copy, Debug)]
pub struct FundsReleased {
    pub agreement_id: u128,
    pub to: AccountId,
    pub amount: Balance,
}

/// A movement of value that the host is asked to perform.
#[derive(Clone, Copy, Debug)]
pub struct Transfer {
    pub to: AccountId,
    pub amount: Balance,
}

/// What a release asks of the host: the platform's fee, when it is not zero,
/// then the payout; and the notification to emit once both succeeded.
#[derive(Clone, Copy, Debug)]
pub struct Release {
    pub fee: Option<Transfer>,
    pub payout: Transfer,
    pub event: FundsReleased,
}

/// The recoverable failures of the engine. Each leaves the state untouched.
#[derive(Clone, Copy, Debug, PartialEq, Eq, Structural)]
pub enum Error {
    AgreementNotFound,
    MilestoneNotFound,
    NotAuthorized,
    InsufficientFunds,
    InvalidMilestoneStatus,
    AgreementNotActive,
    MilestoneAlreadyCompleted,
    DisputeTimeoutNotReached,
    TransferFailed,
}

/// The sum of a sequence of amounts.
pub open spec fn sum_of(s: Seq<u128>) -> int
    decreases s.len(),
{
    if s.len() == 0 {
        0
    } else {
        sum_of(s.drop_last()) + s.last()
    }
}

/// The sum of the amounts of a schedule.
pub open spec fn total_of(ms: Seq<Milestone>) -> int
    decreases ms.len(),
{
    if ms.len() == 0 {
        0
    } else {
        total_of(ms.drop_last()) + ms.last().amount
    }
}

/// The sum of the amounts of a schedule that were paid out, to either party.
pub open spec fn released_of(ms: Seq<Milestone>) -> int
    decreases ms.len(),
{
    if ms.len() == 0 {
        0
    } else {
        released_of(ms.drop_last()) + if ms.last().status == MilestoneStatus::Resolved {
            ms.last().amount as int
        } else {
            0
        }
    }
}

/// The schedule that a new agreement starts with: every milestone `Pending`.
pub open spec fn fresh_schedule(
    descriptions: Seq<String>,
    amounts: Seq<u128>,
    deadlines: Seq<u64>,
    verified: bool,
) -> Seq<Milestone> {
    Seq::new(
        amounts.len(),
        |i: int|
            Milestone {
                description: descriptions[i],
                amount: amounts[i],
                status: MilestoneStatus::Pending,
                deadline: deadlines[i],
                oracle_verification: verified,
            },
    )
}

/// The failure that `create_agreement` reports, if any.
pub open spec fn create_failure(
    n_descriptions: int,
    amounts: Seq<u128>,
    n_deadlines: int,
    transferred: u128,
) -> Option<Error> {
    if n_descriptions != amounts.len() || n_descriptions != n_deadlines || n_descriptions == 0 {
        Some(Error::InvalidMilestoneStatus)
    } else if transferred < sum_of(amounts) {
        Some(Error::InsufficientFunds)
    } else {
        None
    }
}

/// `m` with its status replaced.
pub open spec fn with_status(m: Milestone, s: MilestoneStatus) -> Milestone {
    Milestone {
        description: m.description,
        amount: m.amount,
        status: s,
        deadline: m.deadline,
        oracle_verification: m.oracle_verification,
    }
}

/// `caller` is the arbiter of `a`.
pub open spec fn is_oracle(a: Agreement, caller: AccountId) -> bool {
    a.oracle == Some(caller)
}

/// The release of `amount` to `to`, less a fee at `bps` for the platform.
pub open spec fn release_of(
    agreement_id: u128,
    platform: AccountId,
    to: AccountId,
    amount: u128,
    bps: u16,
) -> Release {
    let fee = fee_of(amount as int, bps as int);
    let net = (amount - fee) as u128;
    Release {
        fee: if fee > 0 {
            Some(Transfer { to: platform, amount: fee as u128 })
        } else {
            None
        },
        payout: Transfer { to, amount: net },
        event: FundsReleased { agreement_id, to, amount: net },
    }
}

/// Over every milestone, `after` is `before` with statuses moved forward along
/// the table, and agreements only added.
pub open spec fn advances(before: &GenericEscrow, after: &GenericEscrow) -> bool {
    &&& before.agreements@.len() <= after.agreements@.len()
    &&& forall|i: int|
        0 <= i < before.agreements@.len() ==> #[trigger] after.agreements@[i]
            == before.agreements@[i]
    &&& forall|i: int|
        0 <= i < before.agreements@.len() ==> #[trigger] after.schedules()[i].len()
            == before.schedules()[i].len()
    &&& forall|i: int, j: int|
        0 <= i < before.agreements@.len() && 0 <= j < before.schedules()[i].len() ==> {
            let m = before.schedules()[i][j];
            let n = #[trigger] after.schedules()[i][j];
            n == with_status(m, n.status) && reaches(m.status, n.status)
        }
}

/// Every agreement with its schedule, the rate of the platform's fee and the
/// account that receives it.
#[derive(Clone, Debug)]
pub struct GenericEscrow {
    /// The id that the next agreement gets.
    pub next_agreement_id: u128,
    /// Agreement `i` has id `i`.
    pub agreements: Vec<Agreement>,
    /// The schedule of agreement `i`; its length is the milestone count.
    pub milestones: Vec<Vec<Milestone>>,
    /// Platform fee, in basis points.
    pub platform_fee_bps: u16,
    pub platform_account: AccountId,
}

impl GenericEscrow {
    /// The schedules, agreement by agreement.
    pub open spec fn schedules(&self) -> Seq<Seq<Milestone>> {
        self.milestones@.map_values(|v: Vec<Milestone>| v@)
    }

    pub open spec fn has_agreement(&self, id: u128) -> bool {
        id < self.agreements@.len()
    }

    pub open spec fn agreement(&self, id: u128) -> Agreement {
        self.agreements@[id as int]
    }

    pub open spec fn schedule(&self, id: u128) -> Seq<Milestone> {
        self.schedules()[id as int]
    }

    pub open spec fn has_milestone(&self, id: u128, index: u32) -> bool {
        self.has_agreement(id) && index < self.schedule(id).len()
    }

    pub open spec fn milestone(&self, id: u128, index: u32) -> Milestone {
        self.schedule(id)[index as int]
    }

    /// The schedules once milestone `index` of agreement `id` is set to `s`.
    pub open spec fn schedules_with(&self, id: u128, index: u32, s: MilestoneStatus) -> Seq<
        Seq<Milestone>,
    > {
        self.schedules().update(
            id as int,
            self.schedule(id).update(index as int, with_status(self.milestone(id, index), s)),
        )
    }

    /// Ids are dense from 0; every schedule is non-empty, its count fits in
    /// `u32`, its amounts add up to the agreement's total, and the deposit
    /// covers that total; the fee rate is at most 100%.
    pub open spec fn wf(&self) -> bool {
        &&& self.next_agreement_id == self.agreements@.len()
        &&& self.milestones@.len() == self.agreements@.len()
        &&& self.platform_fee_bps <= 10000
        &&& forall|i: int|
            0 <= i < self.agreements@.len() ==> {
                &&& 0 < (#[trigger] self.milestones@[i])@.len() <= u32::MAX
                &&& self.agreements@[i].total_amount == total_of(self.milestones@[i]@)
                &&& self.agreements@[i].deposited_amount >= self.agreements@[i].total_amount
            }
    }

    /// Only the statuses of the schedules may differ between `self` and `other`.
    pub open spec fn same_but_schedules(&self, other: &GenericEscrow) -> bool {
        &&& self.next_agreement_id == other.next_agreement_id
        &&& self.agreements@ == other.agreements@
        &&& self.milestones@.len() == other.milestones@.len()
        &&& self.platform_fee_bps == other.platform_fee_bps
        &&& self.platform_account == other.platform_account
    }

    /// The failure that `complete_milestone` reports, if any.
    pub open spec fn complete_failure(&self, caller: AccountId, id: u128, index: u32) -> Option<
        Error,
    > {
        if !self.has_agreement(id) {
            Some(Error::AgreementNotFound)
        } else if caller != self.agreement(id).provider {
            Some(Error::NotAuthorized)
        } else if !self.agreement(id).is_active {
            Some(Error::AgreementNotActive)
        } else if !self.has_milestone(id, index) {
            Some(Error::MilestoneNotFound)
        } else if self.milestone(id, index).status != MilestoneStatus::Pending {
            Some(Error::MilestoneAlreadyCompleted)
        } else {
            None
        }
    }

    /// The failure that `approve_and_release` reports, if any.
    pub open spec fn approve_failure(&self, caller: AccountId, id: u128, index: u32) -> Option<
        Error,
    > {
        if !self.has_agreement(id) {
            Some(Error::AgreementNotFound)
        } else if caller != self.agreement(id).client && !is_oracle(self.agreement(id), caller) {
            Some(Error::NotAuthorized)
        } else if !self.agreement(id).is_active {
            Some(Error::AgreementNotActive)
        } else if !self.has_milestone(id, index) {
            Some(Error::MilestoneNotFound)
        } else if self.milestone(id, index).status != MilestoneStatus::Completed {
            Some(Error::InvalidMilestoneStatus)
        } else {
            None
        }
    }

    /// The failure that `raise_dispute` reports, if any.
    pub open spec fn dispute_failure(&self, caller: AccountId, id: u128, index: u32) -> Option<
        Error,
    > {
        if !self.has_agreement(id) {
            Some(Error::AgreementNotFound)
        } else if caller != self.agreement(id).client && caller != self.agreement(id).provider {
            Some(Error::NotAuthorized)
        } else if !self.has_milestone(id, index) {
            Some(Error::MilestoneNotFound)
        } else if self.milestone(id, index).status != MilestoneStatus::Completed {
            Some(Error::InvalidMilestoneStatus)
        } else {
            None
        }
    }

    /// The failure that `resolve_dispute` reports, if any: the arbiter may
    /// resolve at any time, the payer once the dispute timeout is reached.
    pub open spec fn resolve_failure(
        &self,
        caller: AccountId,
        now: Timestamp,
        id: u128,
        index: u32,
    ) -> Option<Error> {
        if !self.has_agreement(id) {
            Some(Error::AgreementNotFound)
        } else if !is_oracle(self.agreement(id), caller) && caller != self.agreement(id).client {
            Some(Error::NotAuthorized)
        } else if !is_oracle(self.agreement(id), caller) && now < self.agreement(
            id,
        ).dispute_timeout {
            Some(Error::DisputeTimeoutNotReached)
        } else if !self.has_milestone(id, index) {
            Some(Error::MilestoneNotFound)
        } else if self.milestone(id, index).status != MilestoneStatus::Disputed {
            Some(Error::InvalidMilestoneStatus)
        } else {
            None
        }
    }

    /// A directory with no agreement, whose releases pay `platform_fee_bps`
    /// basis points to `platform_account`.
    pub fn new(platform_account: AccountId, platform_fee_bps: u16) -> (r: Self)
        requires
            platform_fee_bps <= 10000,
        ensures
            r.wf(),
            r.agreements@.len() == 0,
            r.platform_account == platform_account,
            r.platform_fee_bps == platform_fee_bps,
    {
        GenericEscrow {
            next_agreement_id: 0,
            agreements: Vec::new(),
            milestones: Vec::new(),
            platform_fee_bps,
            platform_account,
        }
    }

    /// The agreement with id `agreement_id`, if there is one.
    pub fn get_agreement(&self, agreement_id: u128) -> (r: Option<Agreement>)
        ensures
            r == if self.has_agreement(agreement_id) {
                Some(self.agreement(agreement_id))
            } else {
                None
            },
    {
        if agreement_id < self.agreements.len() as u128 {
            Some(self.agreements[agreement_id as usize])
        } else {
            None
        }
    }

    /// Milestone `milestone_index` of agreement `agreement_id`, if there is one.
    pub fn get_milestone(&self, agreement_id: u128, milestone_index: u32) -> (r: Option<Milestone>)
        requires
            self.wf(),
        ensures
            r == if self.has_milestone(agreement_id, milestone_index) {
                Some(self.milestone(agreement_id, milestone_index))
            } else {
                None
            },
    {
        if agreement_id < self.milestones.len() as u128 {
            let schedule = &self.milestones[agreement_id as usize];
            if (milestone_index as usize) < schedule.len() {
                return Some(copy_milestone(&schedule[milestone_index as usize]));
            }
        }
        None
    }

    /// The number of milestones of agreement `agreement_id`; 0 for none.
    pub fn get_milestone_count(&self, agreement_id: u128) -> (r: u32)
        requires
            self.wf(),
        ensures
            r == if self.has_agreement(agreement_id) {
                self.schedule(agreement_id).len()
            } else {
                0
            },
    {
        if agreement_id < self.milestones.len() as u128 {
            self.milestones[agreement_id as usize].len() as u32
        } else {
            0
        }
    }

    /// Opens an agreement between `caller` (the payer, who has put
    /// `transferred` into custody) and `provider`, with one milestone per
    /// description, all `Pending`. The schedule's length is checked first,
    /// then that the deposit covers its total; nothing is stored on failure.
    pub fn create_agreement(
        &mut self,
        caller: AccountId,
        transferred: Balance,
        now: Timestamp,
        provider: AccountId,
        milestone_descriptions: Vec<String>,
        milestone_amounts: Vec<Balance>,
        milestone_deadlines: Vec<Timestamp>,
        dispute_timeout: Timestamp,
        oracle: Option<AccountId>,
    ) -> (r: Result<AgreementCreated, Error>)
        requires
            old(self).wf(),
            milestone_descriptions.len() <= u32::MAX,
            milestone_amounts.len() == milestone_descriptions.len() ==> sum_of(milestone_amounts@)
                <= u128::MAX,
        ensures
            final(self).wf(),
            advances(old(self), final(self)),
            match r {
                Ok(ev) => {
                    let total = sum_of(milestone_amounts@) as u128;
                    &&& create_failure(
                        milestone_descriptions.len() as int,
                        milestone_amounts@,
                        milestone_deadlines.len() as int,
                        transferred,
                    ) is None
                    &&& ev == (AgreementCreated {
                        agreement_id: old(self).next_agreement_id,
                        client: caller,
                        provider,
                        total_amount: total,
                    })
                    &&& final(self).agreements@ == old(self).agreements@.push(
                        (Agreement {
                            client: caller,
                            provider,
                            total_amount: total,
                            deposited_amount: transferred,
                            created_at: now,
                            dispute_timeout,
                            oracle,
                            is_active: true,
                        }),
                    )
                    &&& final(self).schedules() == old(self).schedules().push(
                        fresh_schedule(
                            milestone_descriptions@,
                            milestone_amounts@,
                            milestone_deadlines@,
                            oracle is Some,
                        ),
                    )
                    &&& final(self).next_agreement_id == old(self).next_agreement_id + 1
                    &&& final(self).platform_fee_bps == old(self).platform_fee_bps
                    &&& final(self).platform_account == old(self).platform_account
                },
                Err(e) => {
                    &&& create_failure(
                        milestone_descriptions.len() as int,
                        milestone_amounts@,
                        milestone_deadlines.len() as int,
                        transferred,
                    ) == Some(e)
                    &&& *final(self) == *old(self)
                },
            },
    {
        let count = milestone_descriptions.len();
        if count != milestone_amounts.len() || count != milestone_deadlines.len() || count == 0 {
            return Err(Error::InvalidMilestoneStatus);
        }
        let verified = oracle.is_some();
        let ghost fresh = fresh_schedule(
            milestone_descriptions@,
            milestone_amounts@,
            milestone_deadlines@,
            verified,
        );
        let mut schedule: Vec<Milestone> = Vec::new();
        let mut total: u128 = 0;
        let mut i: usize = 0;
        while i < count
            invariant
                count == milestone_descriptions.len(),
                count == milestone_amounts.len(),
                count == milestone_deadlines.len(),
                sum_of(milestone_amounts@) <= u128::MAX,
                0 <= i <= count,
                fresh == fresh_schedule(
                    milestone_descriptions@,
                    milestone_amounts@,
                    milestone_deadlines@,
                    verified,
                ),
                schedule@ == fresh.take(i as int),
                total == sum_of(milestone_amounts@.take(i as int)),
                total == total_of(schedule@),
            decreases count - i,
        {
            proof {
                lemma_prefix_sum_le(milestone_amounts@, i + 1);
                assert(milestone_amounts@.take(i + 1).drop_last() =~= milestone_amounts@.take(
                    i as int,
                ));
            }
            let m = Milestone {
                description: milestone_descriptions[i].clone(),
                amount: milestone_amounts[i],
                status: MilestoneStatus::Pending,
                deadline: milestone_deadlines[i],
                oracle_verification: verified,
            };
            total = total + milestone_amounts[i];
            proof {
                assert(schedule@.push(m).drop_last() =~= schedule@);
                assert(fresh.take(i + 1) =~= fresh.take(i as int).push(m));
            }
            schedule.push(m);
            i = i + 1;
        }
        proof {
            assert(milestone_amounts@.take(count as int) =~= milestone_amounts@);
            assert(fresh.take(count as int) =~= fresh);
        }
        if transferred < total {
            return Err(Error::InsufficientFunds);
        }
        // The counter equals the number of agreements, a `usize`, so it cannot overflow.
        let n = self.agreements.len();
        let agreement_id = self.next_agreement_id;
        self.next_agreement_id = agreement_id + 1;
        self.agreements.push(
            Agreement {
                client: caller,
                provider,
                total_amount: total,
                deposited_amount: transferred,
                created_at: now,
                dispute_timeout,
                oracle,
                is_active: true,
            },
        );
        self.milestones.push(schedule);
        proof {
            assert(self.schedules() =~= old(self).schedules().push(fresh));
            assert(self.milestones@[n as int]@ == fresh);
            assert forall|k: int| 0 <= k < self.agreements@.len() implies {
                &&& 0 < (#[trigger] self.milestones@[k])@.len() <= u32::MAX
                &&& self.agreements@[k].total_amount == total_of(self.milestones@[k]@)
                &&& self.agreements@[k].deposited_amount >= self.agreements@[k].total_amount
            } by {
                if k < n {
                    assert(self.milestones@[k] == old(self).milestones@[k]);
                }
            }
            assert forall|k: int| 0 <= k < old(self).agreements@.len() implies
                #[trigger] self.schedules()[k] == old(self).schedules()[k] by {}
        }
        Ok(AgreementCreated { agreement_id, client: caller, provider, total_amount: total })
    }

    /// Sets the status of milestone `index` of agreement `id` to `s`.
    fn set_status(&mut self, id: usize, index: usize, s: MilestoneStatus)
        requires
            old(self).wf(),
            old(self).has_milestone(id as u128, index as u32),
            index <= u32::MAX,
            reaches(old(self).milestone(id as u128, index as u32).status, s),
        ensures
            final(self).wf(),
            final(self).schedules() == old(self).schedules_with(id as u128, index as u32, s),
            final(self).same_but_schedules(old(self)),
            advances(old(self), final(self)),
    {
        proof {
            assert(self.milestones@[id as int]@ == self.schedules()[id as int]);
        }
        self.milestones[id][index].status = s;
        proof {
            let (a, b) = (id as u128, index as u32);
            assert(self.milestones@[id as int]@ =~= old(self).schedule(a).update(
                index as int,
                with_status(old(self).milestone(a, b), s),
            ));
            lemma_update_status(old(self).schedule(a), index as int, s);
            assert(self.schedules() =~= old(self).schedules_with(a, b, s));
            assert forall|i: int| 0 <= i < self.agreements@.len() implies {
                &&& 0 < (#[trigger] self.milestones@[i])@.len() <= u32::MAX
                &&& self.agreements@[i].total_amount == total_of(self.milestones@[i]@)
                &&& self.agreements@[i].deposited_amount >= self.agreements@[i].total_amount
            } by {
                assert(self.milestones@[i]@ == self.schedules()[i]);
                assert(old(self).milestones@[i]@ == old(self).schedules()[i]);
            }
        }
    }

    /// The payee declares milestone `milestone_index` delivered:
    /// `Pending -> Completed`.
    pub fn complete_milestone(&mut self, caller: AccountId, agreement_id: u128, milestone_index: u32) -> (r: Result<MilestoneCompleted, Error>)
        requires
            old(self).wf(),
        ensures
            final(self).wf(),
            advances(old(self), final(self)),
            match r {
                Ok(ev) => {
                    &&& old(self).complete_failure(caller, agreement_id, milestone_index) is None
                    &&& final(self).schedules() == old(self).schedules_with(agreement_id, milestone_index, MilestoneStatus::Completed)
                    &&& final(self).same_but_schedules(old(self))
                    &&& ev == (MilestoneCompleted {
                        agreement_id,
                        milestone_index,
                        amount: old(self).milestone(agreement_id, milestone_index).amount,
                    })
                },
                Err(e) => {
                    &&& old(self).complete_failure(caller, agreement_id, milestone_index) == Some(e)
                    &&& *final(self) == *old(self)
                },
            },
    {
        if agreement_id >= self.agreements.len() as u128 {
            return Err(Error::AgreementNotFound);
        }
        let agreement = self.agreements[agreement_id as usize];
        if !(caller == agreement.provider) {
            return Err(Error::NotAuthorized);
        }
        if !agreement.is_active {
            return Err(Error::AgreementNotActive);
        }
        if milestone_index as usize >= self.milestones[agreement_id as usize].len() {
            return Err(Error::MilestoneNotFound);
        }
        let m = &self.milestones[agreement_id as usize][milestone_index as usize];
        if m.status != MilestoneStatus::Pending {
            return Err(Error::MilestoneAlreadyCompleted);
        }
        let amount = m.amount;
        self.set_status(agreement_id as usize, milestone_index as usize, MilestoneStatus::Completed);
        Ok(MilestoneCompleted { agreement_id, milestone_index, amount })
    }

    /// The payer or the arbiter accepts a completed milestone:
    /// `Completed -> Resolved`, and its amount goes to the payee, less the
    /// platform's fee.
    pub fn approve_and_release(&mut self, caller: AccountId, agreement_id: u128, milestone_index: u32) -> (r: Result<Release, Error>)
        requires
            old(self).wf(),
        ensures
            final(self).wf(),
            advances(old(self), final(self)),
            match r {
                Ok(rel) => {
                    &&& old(self).approve_failure(caller, agreement_id, milestone_index) is None
                    &&& final(self).schedules() == old(self).schedules_with(agreement_id, milestone_index, MilestoneStatus::Resolved)
                    &&& final(self).same_but_schedules(old(self))
                    &&& rel == release_of(
                        agreement_id,
                        old(self).platform_account,
                        old(self).agreement(agreement_id).provider,
                        old(self).milestone(agreement_id, milestone_index).amount,
                        old(self).platform_fee_bps,
                    )
                },
                Err(e) => {
                    &&& old(self).approve_failure(caller, agreement_id, milestone_index) == Some(e)
                    &&& *final(self) == *old(self)
                },
            },
    {
        if agreement_id >= self.agreements.len() as u128 {
            return Err(Error::AgreementNotFound);
        }
        let agreement = self.agreements[agreement_id as usize];
        if !(caller == agreement.client) && !oracle_is(&agreement, caller) {
            return Err(Error::NotAuthorized);
        }
        if !agreement.is_active {
            return Err(Error::AgreementNotActive);
        }
        if milestone_index as usize >= self.milestones[agreement_id as usize].len() {
            return Err(Error::MilestoneNotFound);
        }
        let m = &self.milestones[agreement_id as usize][milestone_index as usize];
        if m.status != MilestoneStatus::Completed {
            return Err(Error::InvalidMilestoneStatus);
        }
        let amount = m.amount;
        self.set_status(agreement_id as usize, milestone_index as usize, MilestoneStatus::Resolved);
        Ok(make_release(agreement_id, self.platform_account, agreement.provider, amount, self.platform_fee_bps))
    }

    /// The payer or the payee contests a completed milestone:
    /// `Completed -> Disputed`.
    pub fn raise_dispute(&mut self, caller: AccountId, agreement_id: u128, milestone_index: u32) -> (r: Result<DisputeRaised, Error>)
        requires
            old(self).wf(),
        ensures
            final(self).wf(),
            advances(old(self), final(self)),
            match r {
                Ok(ev) => {
                    &&& old(self).dispute_failure(caller, agreement_id, milestone_index) is None
                    &&& final(self).schedules() == old(self).schedules_with(agreement_id, milestone_index, MilestoneStatus::Disputed)
                    &&& final(self).same_but_schedules(old(self))
                    &&& ev == (DisputeRaised { agreement_id, milestone_index, raised_by: caller })
                },
                Err(e) => {
                    &&& old(self).dispute_failure(caller, agreement_id, milestone_index) == Some(e)
                    &&& *final(self) == *old(self)
                },
            },
    {
        if agreement_id >= self.agreements.len() as u128 {
            return Err(Error::AgreementNotFound);
        }
        let agreement = self.agreements[agreement_id as usize];
        if !(caller == agreement.client) && !(caller == agreement.provider) {
            return Err(Error::NotAuthorized);
        }
        if milestone_index as usize >= self.milestones[agreement_id as usize].len() {
            return Err(Error::MilestoneNotFound);
        }
        if self.milestones[agreement_id as usize][milestone_index as usize].status != MilestoneStatus::Completed {
            return Err(Error::InvalidMilestoneStatus);
        }
        self.set_status(agreement_id as usize, milestone_index as usize, MilestoneStatus::Disputed);
        Ok(DisputeRaised { agreement_id, milestone_index, raised_by: caller })
    }

    /// Ends a dispute: `Disputed -> Resolved`. With `release_to_provider` the
    /// payee is paid, less the platform's fee; otherwise the payer gets the
    /// whole amount back. The arbiter may do this at any time, the payer once
    /// `now` has reached the agreement's dispute timeout.
    pub fn resolve_dispute(
        &mut self,
        caller: AccountId,
        now: Timestamp,
        agreement_id: u128,
        milestone_index: u32,
        release_to_provider: bool,
    ) -> (r: Result<Release, Error>)
        requires
            old(self).wf(),
        ensures
            final(self).wf(),
            advances(old(self), final(self)),
            match r {
                Ok(rel) => {
                    &&& old(self).resolve_failure(caller, now, agreement_id, milestone_index) is None
                    &&& final(self).schedules() == old(self).schedules_with(agreement_id, milestone_index, MilestoneStatus::Resolved)
                    &&& final(self).same_but_schedules(old(self))
                    &&& rel == release_of(
                        agreement_id,
                        old(self).platform_account,
                        if release_to_provider {
                            old(self).agreement(agreement_id).provider
                        } else {
                            old(self).agreement(agreement_id).client
                        },
                        old(self).milestone(agreement_id, milestone_index).amount,
                        if release_to_provider { old(self).platform_fee_bps } else { 0 },
                    )
                },
                Err(e) => {
                    &&& old(self).resolve_failure(caller, now, agreement_id, milestone_index) == Some(e)
                    &&& *final(self) == *old(self)
                },
            },
    {
        if agreement_id >= self.agreements.len() as u128 {
            return Err(Error::AgreementNotFound);
        }
        let agreement = self.agreements[agreement_id as usize];
        if !oracle_is(&agreement, caller) {
            if !(caller == agreement.client) {
                return Err(Error::NotAuthorized);
            }
            if now < agreement.dispute_timeout {
                return Err(Error::DisputeTimeoutNotReached);
            }
        }
        if milestone_index as usize >= self.milestones[agreement_id as usize].len() {
            return Err(Error::MilestoneNotFound);
        }
        let m = &self.milestones[agreement_id as usize][milestone_index as usize];
        if m.status != MilestoneStatus::Disputed {
            return Err(Error::InvalidMilestoneStatus);
        }
        let amount = m.amount;
        self.set_status(agreement_id as usize, milestone_index as usize, MilestoneStatus::Resolved);
        let (recipient, bps) = if release_to_provider {
            (agreement.provider, self.platform_fee_bps)
        } else {
            (agreement.client, 0u16)
        };
        Ok(make_release(agreement_id, self.platform_account, recipient, amount, bps))
    }
}

/// Whether `caller` is the arbiter of `a`.
fn oracle_is(a: &Agreement, caller: AccountId) -> (r: bool)
    ensures
        r == is_oracle(*a, caller),
{
    match a.oracle {
        Some(o) => o == caller,
        None => false,
    }
}

fn make_release(agreement_id: u128, platform: AccountId, to: AccountId, amount: u128, bps: u16) -> (r: Release)
    requires
        bps <= 10000,
    ensures
        r == release_of(agreement_id, platform, to, amount, bps),
{
    let (fee, net) = split(amount, bps);
    let fee_transfer = if fee > 0 {
        Some(Transfer { to: platform, amount: fee })
    } else {
        None
    };
    Release {
        fee: fee_transfer,
        payout: Transfer { to, amount: net },
        event: FundsReleased { agreement_id, to, amount: net },
    }
}

proof fn lemma_prefix_sum_le(s: Seq<u128>, i: int)
    requires
        0 <= i <= s.len(),
    ensures
        sum_of(s.take(i)) <= sum_of(s),
    decreases s.len() - i,
{
    if i == s.len() {
        assert(s.take(i) =~= s);
    } else {
        lemma_prefix_sum_le(s, i + 1);
        assert(s.take(i + 1).drop_last() =~= s.take(i));
    }
}

proof fn lemma_update_status(ms: Seq<Milestone>, j: int, s: MilestoneStatus)
    requires
        0 <= j < ms.len(),
    ensures
        total_of(ms.update(j, with_status(ms[j], s))) == total_of(ms),
        released_of(ms.update(j, with_status(ms[j], s))) == released_of(ms) - (if ms[j].status
            == MilestoneStatus::Resolved {
            ms[j].amount as int
        } else {
            0
        }) + (if s == MilestoneStatus::Resolved {
            ms[j].amount as int
        } else {
            0
        }),
    decreases ms.len(),
{
    let u = ms.update(j, with_status(ms[j], s));
    if j == ms.len() - 1 {
        assert(u.drop_last() =~= ms.drop_last());
    } else {
        lemma_update_status(ms.drop_last(), j, s);
        assert(u.drop_last() =~= ms.drop_last().update(j, with_status(ms[j], s)));
    }
}

/// The fee part of a release: zero when no fee transfer is asked for.
pub open spec fn fee_paid(rel: Release) -> int {
    match rel.fee {
        Some(t) => t.amount as int,
        None => 0,
    }
}

/// What was paid out of an agreement, to the payee and back to the payer
/// together, never exceeds the agreement's total, which is the sum of its
/// schedule's amounts and is covered by the deposit.
pub proof fn lemma_custody_bounded(e: &GenericEscrow, id: u128)
    requires
        e.wf(),
        e.has_agreement(id),
    ensures
        e.agreement(id).total_amount == total_of(e.schedule(id)),
        e.agreement(id).deposited_amount >= e.agreement(id).total_amount,
        0 <= released_of(e.schedule(id)) <= e.agreement(id).total_amount,
{
    assert(e.milestones@[id as int]@ == e.schedule(id));
    lemma_released_within(e.schedule(id));
}

/// A release moves exactly the milestone's amount, fee and payout together,
/// and the amount paid out of its agreement grows by just that amount: a
/// milestone that was not yet resolved is counted once.
pub proof fn lemma_release_accounted(
    before: &GenericEscrow,
    after: &GenericEscrow,
    id: u128,
    index: u32,
    rel: Release,
    to: AccountId,
    bps: u16,
)
    requires
        before.wf(),
        before.has_milestone(id, index),
        before.milestone(id, index).status != MilestoneStatus::Resolved,
        after.schedules() == before.schedules_with(id, index, MilestoneStatus::Resolved),
        bps <= 10000,
        rel == release_of(id, before.platform_account, to, before.milestone(id, index).amount, bps),
    ensures
        fee_paid(rel) + rel.payout.amount == before.milestone(id, index).amount,
        rel.payout.to == to,
        released_of(after.schedule(id)) == released_of(before.schedule(id)) + before.milestone(
            id,
            index,
        ).amount,
{
    let amount = before.milestone(id, index).amount;
    lemma_fee_at_most_amount(amount as int, bps as int);
    lemma_update_status(before.schedule(id), index as int, MilestoneStatus::Resolved);
}

/// Statuses only move forward: two runs of operations, each of which moves
/// every milestone along the table, together move every milestone along it.
pub proof fn lemma_advances_transitive(a: &GenericEscrow, b: &GenericEscrow, c: &GenericEscrow)
    requires
        advances(a, b),
        advances(b, c),
    ensures
        advances(a, c),
{
    assert forall|i: int, j: int|
        0 <= i < a.agreements@.len() && 0 <= j < a.schedules()[i].len() implies {
            let m = a.schedules()[i][j];
            let n = #[trigger] c.schedules()[i][j];
            n == with_status(m, n.status) && reaches(m.status, n.status)
        } by {
        assert(b.schedules()[i].len() == a.schedules()[i].len());
        let _ = b.schedules()[i][j];
    }
}

/// Each status that a milestone can reach is reached by steps of the table
/// alone: a first step, then what remains.
pub proof fn lemma_reaches_by_steps(from: MilestoneStatus, to: MilestoneStatus)
    requires
        reaches(from, to),
        from != to,
    ensures
        is_step(from, to) || exists|m: MilestoneStatus| is_step(from, m) && #[trigger] reaches(m, to),
{
    if from == MilestoneStatus::Pending && to != MilestoneStatus::Completed {
        assert(is_step(from, MilestoneStatus::Completed) && reaches(MilestoneStatus::Completed, to));
    } else if from == MilestoneStatus::Completed && to == MilestoneStatus::Resolved {
        assert(is_step(from, to));
    }
}

/// A resolved milestone stays resolved: every operation on it fails, and
/// so, by their contracts, leaves the state as it was. A caller who passes
/// the operation's authorization check is told that the status does not
/// allow it.
pub proof fn lemma_resolved_is_final(
    e: &GenericEscrow,
    caller: AccountId,
    now: Timestamp,
    id: u128,
    index: u32,
)
    requires
        e.wf(),
        e.has_milestone(id, index),
        e.milestone(id, index).status == MilestoneStatus::Resolved,
    ensures
        e.complete_failure(caller, id, index) is Some,
        e.approve_failure(caller, id, index) is Some,
        e.dispute_failure(caller, id, index) is Some,
        e.resolve_failure(caller, now, id, index) is Some,
        caller == e.agreement(id).provider && e.agreement(id).is_active ==> e.complete_failure(
            caller,
            id,
            index,
        ) == Some(Error::MilestoneAlreadyCompleted),
        (caller == e.agreement(id).client || is_oracle(e.agreement(id), caller)) && e.agreement(
            id,
        ).is_active ==> e.approve_failure(caller, id, index) == Some(
            Error::InvalidMilestoneStatus,
        ),
        caller == e.agreement(id).client || caller == e.agreement(id).provider
            ==> e.dispute_failure(caller, id, index) == Some(Error::InvalidMilestoneStatus),
        is_oracle(e.agreement(id), caller) || (caller == e.agreement(id).client && now
            >= e.agreement(id).dispute_timeout) ==> e.resolve_failure(caller, now, id, index)
            == Some(Error::InvalidMilestoneStatus),
{
}

proof fn lemma_released_within(ms: Seq<Milestone>)
    ensures
        0 <= released_of(ms) <= total_of(ms),
    decreases ms.len(),
{
    if ms.len() > 0 {
        lemma_released_within(ms.drop_last());
    }
}

fn copy_milestone(m: &Milestone) -> (r: Milestone)
    ensures
        r == *m,
{
    Milestone {
        description: m.description.clone(),
        amount: m.amount,
        status: m.status,
        deadline: m.deadline,
        oracle_verification: m.oracle_verification,
    }
}

} // verus!
