//! Closing a year: what is assessed, what each member gets, and what is carried forward.

use super::distribution::{AllocationModel, AnnualAllocation, AnnualDistributionSchedule};
use super::lot::{ForfeitureLot, LotLifecycle};
use super::membership::MemberModel;
use super::payable::{MemberPayable, PayableModel};
use super::program::{FinancialProgram, ProgramModel};
use super::records::{allocation_models, lemma_model_keys, payable_models, RecordsModel};
use super::scope::FinancialScope;
use super::terms::ProgramError;
use crate::bytes::{be_bytes, push_all, push_be, push_text, utf8};
use crate::crypto::{digest_id, id_of};
use crate::ledger::{balance_in, obligation, with_transfer, Account, LedgerBatch, Transfer};
use crate::maps::{
    holds, keys_in_order, keys_of, lemma_sorted_keys, lookup, put, sorted_keys, take,
};
use crate::primitives::amounts::{CanonicalTime, Money, SettlementUnit};
use crate::primitives::ids::{
    AllocationId, AnnualDistributionId, FinancialEventId, MemberId, PaymentOperationId,
};
use std::collections::BTreeMap;
use vstd::prelude::*;

verus! {

/// What the identifier of an allocation is made of.
pub open spec fn allocation_bytes(
    scope: FinancialScope,
    unit: SettlementUnit,
    distribution: AnnualDistributionId,
    member: MemberId,
) -> Seq<u8> {
    utf8("cs-mail/member-allocation/v2"@) + scope.canonical() + be_bytes(unit.0 as nat, 4)
        + be_bytes(distribution.0 as nat, 16) + be_bytes(member.0 as nat, 16)
}

/// The identifier of a member's allocation in a distribution.
pub open spec fn member_allocation_id(
    scope: FinancialScope,
    unit: SettlementUnit,
    distribution: AnnualDistributionId,
    member: MemberId,
) -> AllocationId {
    AllocationId(digest_id(allocation_bytes(scope, unit, distribution, member)))
}

fn allocation_id(
    scope: FinancialScope,
    unit: SettlementUnit,
    distribution: AnnualDistributionId,
    member: MemberId,
) -> (id: AllocationId)
    ensures
        id == member_allocation_id(scope, unit, distribution, member),
{
    let mut bytes: Vec<u8> = Vec::new();
    push_text(&mut bytes, "cs-mail/member-allocation/v2");
    push_all(&mut bytes, scope.canonical_bytes().as_slice());
    push_be(&mut bytes, unit.0 as u128, 4);
    push_be(&mut bytes, distribution.0, 16);
    push_be(&mut bytes, member.0, 16);
    assert(bytes@ =~= allocation_bytes(scope, unit, distribution, member));
    AllocationId(id_of(bytes.as_slice()))
}

/// The members under the first `n` keys who qualify.
pub open spec fn qualified_among(
    members: Map<u128, MemberModel>,
    keys: Seq<u128>,
    n: nat,
    schedule: AnnualDistributionSchedule,
) -> Seq<MemberId>
    decreases n,
{
    if n == 0 {
        Seq::empty()
    } else {
        let before = qualified_among(members, keys, (n - 1) as nat, schedule);
        let member = members[keys[n - 1]];
        if member.qualified(schedule) {
            before.push(member.id)
        } else {
            before
        }
    }
}

/// The sources under the first `n` keys that were cleared before a cutoff and not assessed since.
pub open spec fn eligible_among(
    funding: Map<u128, ForfeitureLot>,
    keys: Seq<u128>,
    n: nat,
    cutoff: CanonicalTime,
) -> Seq<PaymentOperationId>
    decreases n,
{
    if n == 0 {
        Seq::empty()
    } else {
        let before = eligible_among(funding, keys, (n - 1) as nat, cutoff);
        let lot = funding[keys[n - 1]];
        if lot.eligible(cutoff) {
            before.push(lot.source.id)
        } else {
            before
        }
    }
}

/// Amounts assessed so far: by rate cohort, in all, and the transfers that release them.
pub ghost struct Assessment {
    pub cohorts: Map<u128, (u16, Money)>,
    pub newly_eligible: Money,
    pub transfers: Seq<Transfer>,
}

/// The assessment with one more lot, or why it fails.
pub open spec fn assess_lot(so_far: Assessment, lot: ForfeitureLot) -> Result<
    Assessment,
    ProgramError,
> {
    let version = lot.source.terms.policy_version.0 as u128;
    let rate = lot.source.terms.corporate_basis_points;
    let amount = lot.source.amount;
    let (known, sum) = if so_far.cohorts.contains_key(version) {
        so_far.cohorts[version]
    } else {
        (rate, Money(0))
    };
    if known != rate {
        Err(ProgramError::InvalidPolicy)
    } else if sum.0 + amount.0 > u64::MAX || so_far.newly_eligible.0 + amount.0 > u64::MAX {
        Err(ProgramError::ArithmeticOverflow)
    } else {
        Ok(
            Assessment {
                cohorts: so_far.cohorts.insert(version, (rate, Money((sum.0 + amount.0) as u64))),
                newly_eligible: Money((so_far.newly_eligible.0 + amount.0) as u64),
                transfers: with_transfer(
                    so_far.transfers,
                    Account::PendingForfeiture(lot.source.id),
                    Account::RestrictedMemberFunds,
                    amount,
                ),
            },
        )
    }
}

/// The first `n` sources assessed in turn.
pub open spec fn assess_sources(
    funding: Map<u128, ForfeitureLot>,
    sources: Seq<PaymentOperationId>,
    n: nat,
) -> Result<Assessment, ProgramError>
    decreases n,
{
    if n == 0 {
        Ok(
            Assessment {
                cohorts: Map::empty(),
                newly_eligible: Money(0),
                transfers: Seq::empty(),
            },
        )
    } else {
        match assess_sources(funding, sources, (n - 1) as nat) {
            Err(e) => Err(e),
            Ok(so_far) => assess_lot(so_far, funding[sources[n - 1].0]),
        }
    }
}

/// The company's part of a cohort, rounded down.
pub open spec fn cohort_share(cohort: (u16, Money)) -> int {
    cohort.1.0 * cohort.0 as int / 10_000
}

/// The company's part of the cohorts under the first `n` keys.
pub open spec fn corporate_among(cohorts: Map<u128, (u16, Money)>, keys: Seq<u128>, n: nat) -> int
    decreases n,
{
    if n == 0 {
        0
    } else {
        corporate_among(cohorts, keys, (n - 1) as nat) + cohort_share(cohorts[keys[n - 1]])
    }
}

/// The company's part, rounded down once per rate cohort.
pub open spec fn corporate_total(cohorts: Map<u128, (u16, Money)>) -> int {
    let keys = sorted_keys(cohorts);
    corporate_among(cohorts, keys, keys.len())
}

/// Allocations made so far, and the transfers that fund them.
pub ghost struct Allotment {
    pub payables: Map<u128, PayableModel>,
    pub transfers: Seq<Transfer>,
}

impl ProgramModel {
    /// The allocation of one member.
    pub open spec fn share_of(
        self,
        schedule: AnnualDistributionSchedule,
        member: MemberId,
        each: Money,
    ) -> PayableModel {
        PayableModel {
            id: member_allocation_id(self.scope, self.unit, schedule.id, member),
            member,
            distribution: schedule.id,
            amount: each,
            terms: schedule.payment,
            scope: self.scope,
            unit: self.unit,
            payment: None,
            correction: None,
        }
    }

    /// The allocations of the first `n` members, made in turn.
    pub open spec fn allot(
        self,
        schedule: AnnualDistributionSchedule,
        members: Seq<MemberId>,
        n: nat,
        each: Money,
        transfers: Seq<Transfer>,
    ) -> Result<Allotment, ProgramError>
        decreases n,
    {
        if n == 0 {
            Ok(Allotment { payables: Map::empty(), transfers })
        } else {
            match self.allot(schedule, members, (n - 1) as nat, each, transfers) {
                Err(e) => Err(e),
                Ok(so_far) => {
                    let payable = self.share_of(schedule, members[n - 1], each);
                    if self.records.payables.contains_key(payable.id.0)
                        || so_far.payables.contains_key(payable.id.0) {
                        Err(ProgramError::DuplicateConflict)
                    } else {
                        match payable.check(self.scope, self.unit) {
                            Err(e) => Err(e),
                            Ok(()) => Ok(
                                Allotment {
                                    payables: so_far.payables.insert(payable.id.0, payable),
                                    transfers: with_transfer(
                                        so_far.transfers,
                                        Account::RestrictedMemberFunds,
                                        Account::MemberPayable(payable.id),
                                        each,
                                    ),
                                },
                            ),
                        }
                    }
                },
            }
        }
    }

    /// Some earlier period is still open.
    pub open spec fn earlier_period_open(self, schedule: AnnualDistributionSchedule) -> bool {
        exists|k: u128| #[trigger]
            self.records.schedules.contains_key(k) && self.records.schedules[k].cutoff.0
                <= schedule.start.0 && !self.records.annual_allocations.contains_key(
                self.records.schedules[k].id.0,
            )
    }

    /// The members who take part.
    pub open spec fn participants(self, schedule: AnnualDistributionSchedule) -> Seq<MemberId> {
        let keys = sorted_keys(self.records.members);
        qualified_among(self.records.members, keys, keys.len(), schedule)
    }

    /// The sources that are assessed.
    pub open spec fn sources(self, schedule: AnnualDistributionSchedule) -> Seq<PaymentOperationId> {
        let keys = sorted_keys(self.records.funding);
        eligible_among(self.records.funding, keys, keys.len(), schedule.cutoff)
    }

    /// The lots after the eligible ones are assessed.
    pub open spec fn assessed_funding(self, schedule: AnnualDistributionSchedule) -> Map<
        u128,
        ForfeitureLot,
    > {
        Map::new(
            |k: u128| self.records.funding.contains_key(k),
            |k: u128|
                if self.records.funding[k].eligible(schedule.cutoff) {
                    self.records.funding[k].assessed(schedule.id)->Ok_0
                } else {
                    self.records.funding[k]
                },
        )
    }

    /// The result of closing a year.
    pub open spec fn closing(
        self,
        schedule: AnnualDistributionSchedule,
        at: CanonicalTime,
        assessment: Assessment,
    ) -> AllocationModel {
        let members = self.participants(schedule);
        let corporate = corporate_total(assessment.cohorts);
        let contribution = assessment.newly_eligible.0 - corporate;
        let available = obligation(self.ledger.balances, Account::RestrictedMemberFunds).0
            + contribution;
        let n = members.len() as int;
        AllocationModel {
            schedule,
            finalized_at: at,
            members,
            funding: self.sources(schedule),
            newly_eligible: assessment.newly_eligible,
            corporate_share: Money(corporate as u64),
            member_contribution: Money(contribution as u64),
            each: Money(
                (if n == 0 {
                    0
                } else {
                    available / n
                }) as u64,
            ),
            remainder: Money(
                (if n == 0 {
                    available
                } else {
                    available % n
                }) as u64,
            ),
        }
    }

    /// The program after a year is closed under a schedule, before its revision is counted.
    pub open spec fn closed(self, schedule: AnnualDistributionSchedule, at: CanonicalTime) -> Result<
        (Self, AllocationModel),
        ProgramError,
    > {
        let sources = self.sources(schedule);
        if at.0 < schedule.cutoff.0 {
            Err(ProgramError::TooEarly)
        } else if self.earlier_period_open(schedule) {
            Err(ProgramError::ClosedPeriod)
        } else {
            match assess_sources(self.records.funding, sources, sources.len()) {
                Err(e) => Err(e),
                Ok(assessment) => {
                    let corporate = corporate_total(assessment.cohorts);
                    let contribution = assessment.newly_eligible.0 - corporate;
                    let restricted = obligation(
                        self.ledger.balances,
                        Account::RestrictedMemberFunds,
                    );
                    if corporate > assessment.newly_eligible.0 || restricted.0 + contribution
                        > u64::MAX {
                        Err(ProgramError::ArithmeticOverflow)
                    } else {
                        let result = self.closing(schedule, at, assessment);
                        let released = with_transfer(
                            assessment.transfers,
                            Account::RestrictedMemberFunds,
                            Account::CorporatePoolRevenue,
                            result.corporate_share,
                        );
                        let recipients = if result.each.0 == 0 {
                            0
                        } else {
                            result.members.len()
                        };
                        match self.allot(schedule, result.members, recipients, result.each, released) {
                            Err(e) => Err(e),
                            Ok(allotment) => {
                                let changed = ProgramModel {
                                    records: RecordsModel {
                                        funding: self.assessed_funding(schedule),
                                        payables: self.records.payables.union_prefer_right(
                                            allotment.payables,
                                        ),
                                        annual_allocations: self.records.annual_allocations.insert(
                                            schedule.id.0,
                                            result,
                                        ),
                                        ..self.records
                                    },
                                    ..self
                                };
                                match changed.posting(
                                    at,
                                    FinancialEventId(schedule.id.0),
                                    allotment.transfers,
                                ) {
                                    Err(e) => Err(e),
                                    Ok(next) => Ok((next, result)),
                                }
                            },
                        }
                    }
                },
            }
        }
    }

    /// The program after a year is finalized, and the result.
    pub open spec fn finalized(self, id: AnnualDistributionId, at: CanonicalTime) -> Result<
        (Self, AllocationModel),
        ProgramError,
    > {
        if !self.complete {
            Err(ProgramError::IncompleteSnapshot)
        } else if self.records.annual_allocations.contains_key(id.0) {
            Ok((self, self.records.annual_allocations[id.0]))
        } else if at.0 < self.last_event_at.0 {
            Err(ProgramError::TimeRegression)
        } else if !self.records.schedules.contains_key(id.0) {
            Err(ProgramError::MissingRecord)
        } else {
            match self.closed(self.records.schedules[id.0], at) {
                Err(e) => Err(e),
                Ok((next, result)) => if self.revision == u64::MAX {
                    Err(ProgramError::ArithmeticOverflow)
                } else {
                    Ok((next.stamped(at), result))
                },
            }
        }
    }
}

proof fn lemma_assess_sticks(
    funding: Map<u128, ForfeitureLot>,
    sources: Seq<PaymentOperationId>,
    i: nat,
    n: nat,
)
    requires
        i <= n,
        assess_sources(funding, sources, i) is Err,
    ensures
        assess_sources(funding, sources, n) == assess_sources(funding, sources, i),
    decreases n,
{
    if i < n {
        lemma_assess_sticks(funding, sources, i, (n - 1) as nat);
    }
}

proof fn lemma_allot_sticks(
    program: ProgramModel,
    schedule: AnnualDistributionSchedule,
    members: Seq<MemberId>,
    i: nat,
    n: nat,
    each: Money,
    transfers: Seq<Transfer>,
)
    requires
        i <= n,
        program.allot(schedule, members, i, each, transfers) is Err,
    ensures
        program.allot(schedule, members, n, each, transfers) == program.allot(
            schedule,
            members,
            i,
            each,
            transfers,
        ),
    decreases n,
{
    if i < n {
        lemma_allot_sticks(program, schedule, members, i, (n - 1) as nat, each, transfers);
    }
}

pub(crate) proof fn lemma_corporate_grows(
    cohorts: Map<u128, (u16, Money)>,
    keys: Seq<u128>,
    i: nat,
    n: nat,
)
    requires
        i <= n,
    ensures
        0 <= corporate_among(cohorts, keys, i) <= corporate_among(cohorts, keys, n),
    decreases n,
{
    if n > 0 {
        let cohort = cohorts[keys[n - 1]];
        assert(cohort.1.0 * cohort.0 as int >= 0) by (nonlinear_arith)
            requires
                cohort.1.0 >= 0,
                cohort.0 >= 0,
        ;
        if i < n {
            lemma_corporate_grows(cohorts, keys, i, (n - 1) as nat);
        } else {
            lemma_corporate_grows(cohorts, keys, (n - 1) as nat, (n - 1) as nat);
        }
    }
}

/// Each eligible source is in the map, distinct from the others, and eligible.
pub(crate) proof fn lemma_eligible(
    funding: Map<u128, ForfeitureLot>,
    keys: Seq<u128>,
    n: nat,
    cutoff: CanonicalTime,
)
    requires
        n <= keys.len(),
        keys_in_order(keys, funding),
        forall|id: u128| #[trigger] funding.contains_key(id) ==> funding[id].source.id.0 == id,
    ensures
        ({
            let list = eligible_among(funding, keys, n, cutoff);
            &&& list.no_duplicates()
            &&& forall|i: int|
                0 <= i < list.len() ==> funding.contains_key((#[trigger] list[i]).0)
                    && funding[list[i].0].eligible(cutoff)
            &&& forall|i: int|
                0 <= i < list.len() ==> exists|j: int|
                    0 <= j < n && keys[j] == (#[trigger] list[i]).0
            &&& forall|j: int|
                0 <= j < n && funding[#[trigger] keys[j]].eligible(cutoff) ==> list.contains(
                    PaymentOperationId(keys[j]),
                )
        }),
    decreases n,
{
    if n > 0 {
        lemma_eligible(funding, keys, (n - 1) as nat, cutoff);
        let before = eligible_among(funding, keys, (n - 1) as nat, cutoff);
        let list = eligible_among(funding, keys, n, cutoff);
        let key = keys[n - 1];
        assert(funding.contains_key(key));
        if funding[key].eligible(cutoff) {
            assert forall|i: int| 0 <= i < before.len() implies (#[trigger] before[i]).0 != key by {
                let j = choose|j: int| 0 <= j < n - 1 && keys[j] == before[i].0;
                assert(keys[j] < keys[n - 1]);
            }
            assert forall|i: int| 0 <= i < list.len() implies exists|j: int|
                0 <= j < n && keys[j] == (#[trigger] list[i]).0 by {
                if i < before.len() {
                    let j = choose|j: int| 0 <= j < n - 1 && keys[j] == before[i].0;
                    assert(keys[j] == list[i].0);
                } else {
                    assert(keys[n - 1] == list[i].0);
                }
            }
            assert forall|j: int|
                0 <= j < n && funding[#[trigger] keys[j]].eligible(cutoff) implies list.contains(
                PaymentOperationId(keys[j]),
            ) by {
                if j < n - 1 {
                    let i = choose|i: int|
                        0 <= i < before.len() && before[i] == PaymentOperationId(keys[j]);
                    assert(list[i] == PaymentOperationId(keys[j]));
                } else {
                    assert(list[list.len() - 1] == PaymentOperationId(key));
                }
            }
        } else {
            assert forall|i: int| 0 <= i < list.len() implies exists|j: int|
                0 <= j < n && keys[j] == (#[trigger] list[i]).0 by {
                let j = choose|j: int| 0 <= j < n - 1 && keys[j] == before[i].0;
                assert(keys[j] == list[i].0);
            }
        }
    }
}

impl FinancialProgram {
    fn qualifying_members(&self, schedule: &AnnualDistributionSchedule) -> (members: Vec<MemberId>)
        ensures
            members@ == self@.participants(*schedule),
    {
        let keys = keys_of(&self.records.members);
        let ghost models = self@.records.members;
        proof {
            lemma_model_keys(keys@, self.records.members@, models);
        }
        let mut members: Vec<MemberId> = Vec::new();
        let mut i: usize = 0;
        while i < keys.len()
            invariant
                models == self@.records.members,
                keys_in_order(keys@, self.records.members@),
                keys@ == sorted_keys(models),
                0 <= i <= keys@.len(),
                members@ == qualified_among(models, keys@, i as nat, *schedule),
            decreases keys@.len() - i,
        {
            assert(self.records.members@.contains_key(keys@[i as int]));
            match lookup(&self.records.members, keys[i]) {
                Some(member) => {
                    if member.qualifies(schedule) {
                        members.push(member.id);
                    }
                },
                None => {},
            }
            i += 1;
        }
        members
    }

    fn eligible_sources(&self, schedule: &AnnualDistributionSchedule) -> (sources: Vec<
        PaymentOperationId,
    >)
        ensures
            sources@ == self@.sources(*schedule),
    {
        let keys = keys_of(&self.records.funding);
        let ghost lots = self@.records.funding;
        let mut sources: Vec<PaymentOperationId> = Vec::new();
        let mut i: usize = 0;
        while i < keys.len()
            invariant
                lots == self.records.funding@,
                keys_in_order(keys@, lots),
                keys@ == sorted_keys(lots),
                0 <= i <= keys@.len(),
                sources@ == eligible_among(lots, keys@, i as nat, schedule.cutoff),
            decreases keys@.len() - i,
        {
            assert(lots.contains_key(keys@[i as int]));
            match lookup(&self.records.funding, keys[i]) {
                Some(lot) => {
                    if lot.eligible_at(schedule.cutoff) {
                        sources.push(lot.source.id);
                    }
                },
                None => {},
            }
            i += 1;
        }
        sources
    }

    fn has_open_earlier_period(&self, schedule: &AnnualDistributionSchedule) -> (open: bool)
        ensures
            open == self@.earlier_period_open(*schedule),
    {
        let keys = keys_of(&self.records.schedules);
        let ghost model = self@.records;
        let mut i: usize = 0;
        while i < keys.len()
            invariant
                model == self@.records,
                keys_in_order(keys@, self.records.schedules@),
                0 <= i <= keys@.len(),
                forall|j: int|
                    0 <= j < i ==> !(model.schedules[#[trigger] keys@[j]].cutoff.0
                        <= schedule.start.0 && !model.annual_allocations.contains_key(
                        model.schedules[keys@[j]].id.0,
                    )),
            decreases keys@.len() - i,
        {
            assert(self.records.schedules@.contains_key(keys@[i as int]));
            match lookup(&self.records.schedules, keys[i]) {
                Some(other) => {
                    if other.cutoff.0 <= schedule.start.0 && !holds(
                        &self.records.annual_allocations,
                        other.id.0,
                    ) {
                        assert(model.schedules.contains_key(keys@[i as int]));
                        return true;
                    }
                },
                None => {},
            }
            i += 1;
        }
        proof {
            assert forall|k: u128| #[trigger] model.schedules.contains_key(k) implies !(
            model.schedules[k].cutoff.0 <= schedule.start.0
                && !model.annual_allocations.contains_key(model.schedules[k].id.0)) by {
                let j = choose|j: int| 0 <= j < keys@.len() && keys@[j] == k;
                assert(keys@[j] == k);
            }
        }
        false
    }

    fn assess_funding(&self, sources: &Vec<PaymentOperationId>, batch: &mut LedgerBatch) -> (result:
        Result<(Money, Money, Money), ProgramError>)
        requires
            old(batch).transfers@ == Seq::<Transfer>::empty(),
            forall|i: int|
                0 <= i < sources@.len() ==> self@.records.funding.contains_key(
                    (#[trigger] sources@[i]).0,
                ) && self@.records.funding[sources@[i].0].source.id == sources@[i],
        ensures
            match assess_sources(self@.records.funding, sources@, sources@.len()) {
                Err(e) => result == Err::<(Money, Money, Money), ProgramError>(e),
                Ok(assessment) => {
                    let corporate = corporate_total(assessment.cohorts);
                    if corporate > assessment.newly_eligible.0 {
                        result == Err::<(Money, Money, Money), ProgramError>(
                            ProgramError::ArithmeticOverflow,
                        )
                    } else {
                        &&& result == Ok::<(Money, Money, Money), ProgramError>(
                            (
                                assessment.newly_eligible,
                                Money(corporate as u64),
                                Money((assessment.newly_eligible.0 - corporate) as u64),
                            ),
                        )
                        &&& 0 <= corporate
                        &&& final(batch).transfers@ == with_transfer(
                            assessment.transfers,
                            Account::RestrictedMemberFunds,
                            Account::CorporatePoolRevenue,
                            Money(corporate as u64),
                        )
                    }
                },
            },
    {
        let ghost lots = self@.records.funding;
        let mut new = Money::zero();
        // Round once per immutable rate cohort, leaving fractional corporate units for members.
        let mut cohorts: BTreeMap<u128, (u16, Money)> = BTreeMap::new();
        let mut i: usize = 0;
        while i < sources.len()
            invariant
                lots == self.records.funding@,
                0 <= i <= sources@.len(),
                forall|j: int|
                    0 <= j < sources@.len() ==> lots.contains_key((#[trigger] sources@[j]).0)
                        && lots[sources@[j].0].source.id == sources@[j],
                assess_sources(lots, sources@, i as nat) == Ok::<Assessment, ProgramError>(
                    Assessment {
                        cohorts: cohorts@,
                        newly_eligible: new,
                        transfers: batch.transfers@,
                    },
                ),
            decreases sources@.len() - i,
        {
            let id = sources[i];
            assert(lots.contains_key(sources@[i as int].0));
            let lot = match lookup(&self.records.funding, id.0) {
                Some(lot) => *lot,
                None => return Err(ProgramError::MissingRecord),
            };
            let version: u128 = lot.source.terms.policy_version.0 as u128;
            let rate: u16 = lot.source.terms.corporate_basis_points;
            let (known, sum) = match lookup(&cohorts, version) {
                Some(group) => *group,
                None => (rate, Money::zero()),
            };
            if known != rate {
                proof {
                    lemma_assess_sticks(lots, sources@, (i + 1) as nat, sources@.len());
                }
                return Err(ProgramError::InvalidPolicy);
            }
            let sum = match sum.checked_add(lot.source.amount) {
                Some(sum) => sum,
                None => {
                    proof {
                        lemma_assess_sticks(lots, sources@, (i + 1) as nat, sources@.len());
                    }
                    return Err(ProgramError::ArithmeticOverflow);
                },
            };
            let next = match new.checked_add(lot.source.amount) {
                Some(next) => next,
                None => {
                    proof {
                        lemma_assess_sticks(lots, sources@, (i + 1) as nat, sources@.len());
                    }
                    return Err(ProgramError::ArithmeticOverflow);
                },
            };
            put(&mut cohorts, version, (rate, sum));
            new = next;
            batch.transfer(
                Account::PendingForfeiture(id),
                Account::RestrictedMemberFunds,
                lot.source.amount,
            );
            i += 1;
        }
        let ghost assessment = assess_sources(lots, sources@, sources@.len())->Ok_0;
        let keys = keys_of(&cohorts);
        let mut corporate = Money::zero();
        let mut k: usize = 0;
        while k < keys.len()
            invariant
                keys_in_order(keys@, cohorts@),
                keys@ == sorted_keys(cohorts@),
                lots == self.records.funding@,
                assess_sources(lots, sources@, sources@.len()) == Ok::<Assessment, ProgramError>(
                    assessment,
                ),
                assessment.cohorts == cohorts@,
                assessment.newly_eligible == new,
                0 <= k <= keys@.len(),
                corporate.0 as int == corporate_among(cohorts@, keys@, k as nat),
            decreases keys@.len() - k,
        {
            assert(cohorts@.contains_key(keys@[k as int]));
            match lookup(&cohorts, keys[k]) {
                Some(group) => {
                    let amount: u128 = group.1.0 as u128;
                    let rate: u128 = group.0 as u128;
                    proof {
                        assert(amount * rate <= 0xffff_ffff_ffff_ffff * 0xffff) by (nonlinear_arith)
                            requires
                                0 <= amount <= 0xffff_ffff_ffff_ffff,
                                0 <= rate <= 0xffff,
                        ;
                        lemma_corporate_grows(cohorts@, keys@, (k + 1) as nat, keys@.len());
                    }
                    let share: u128 = amount * rate / 10_000;
                    assert(share as int == cohort_share(*group));
                    if share > 18446744073709551615 {
                        return Err(ProgramError::ArithmeticOverflow);
                    }
                    match corporate.checked_add(Money(share as u64)) {
                        Some(sum) => {
                            corporate = sum;
                        },
                        None => return Err(ProgramError::ArithmeticOverflow),
                    }
                },
                None => {},
            }
            k += 1;
        }
        let contribution = match new.checked_sub(corporate) {
            Some(contribution) => contribution,
            None => return Err(ProgramError::ArithmeticOverflow),
        };
        batch.transfer(
            Account::RestrictedMemberFunds,
            Account::CorporatePoolRevenue,
            corporate,
        );
        Ok((new, corporate, contribution))
    }

    /// Makes the allocations of a distribution, and adds the transfers that fund them.
    fn allocate(
        &self,
        schedule: &AnnualDistributionSchedule,
        members: &Vec<MemberId>,
        each: Money,
        batch: &mut LedgerBatch,
    ) -> (result: Result<BTreeMap<u128, MemberPayable>, ProgramError>)
        ensures
            ({
                let n = if each.0 == 0 {
                    0
                } else {
                    members@.len()
                };
                match self@.allot(*schedule, members@, n, each, old(batch).transfers@) {
                    Err(e) => result == Err::<BTreeMap<u128, MemberPayable>, ProgramError>(e),
                    Ok(allotment) => result matches Ok(fresh) && payable_models(fresh@)
                        == allotment.payables && final(batch).transfers@ == allotment.transfers,
                }
            }),
    {
        let mut fresh: BTreeMap<u128, MemberPayable> = BTreeMap::new();
        let ghost transfers = batch.transfers@;
        assert(payable_models(fresh@) =~= Map::empty());
        if each.is_zero() {
            return Ok(fresh);
        }
        let mut i: usize = 0;
        while i < members.len()
            invariant
                0 <= i <= members@.len(),
                each.0 != 0,
                transfers == old(batch).transfers@,
                self@.allot(*schedule, members@, i as nat, each, transfers) == Ok::<
                    Allotment,
                    ProgramError,
                >(
                    Allotment {
                        payables: payable_models(fresh@),
                        transfers: batch.transfers@,
                    },
                ),
            decreases members@.len() - i,
        {
            let member = members[i];
            let id = allocation_id(self.scope, self.unit, schedule.id, member);
            let ghost n = members@.len();
            if holds(&self.records.payables, id.0) || holds(&fresh, id.0) {
                proof {
                    lemma_allot_sticks(self@, *schedule, members@, (i + 1) as nat, n, each, transfers);
                }
                return Err(ProgramError::DuplicateConflict);
            }
            let payable = match MemberPayable::new(
                id,
                member,
                schedule.id,
                each,
                schedule.payment,
                self.scope,
                self.unit,
                None,
            ) {
                Ok(payable) => payable,
                Err(e) => {
                    proof {
                        lemma_allot_sticks(
                            self@,
                            *schedule,
                            members@,
                            (i + 1) as nat,
                            n,
                            each,
                            transfers,
                        );
                    }
                    return Err(e);
                },
            };
            let ghost known = fresh@;
            put(&mut fresh, id.0, payable);
            assert(payable_models(fresh@) =~= payable_models(known).insert(id.0, payable@));
            batch.transfer(Account::RestrictedMemberFunds, Account::MemberPayable(id), each);
            i += 1;
        }
        Ok(fresh)
    }

    /// Marks the given sources as assessed.
    fn mark_assessed(&mut self, sources: &Vec<PaymentOperationId>, schedule: &AnnualDistributionSchedule)
        requires
            old(self)@.records.sound(),
            sources@ == old(self)@.sources(*schedule),
        ensures
            final(self)@ == (ProgramModel {
                records: RecordsModel {
                    funding: old(self)@.assessed_funding(*schedule),
                    ..old(self)@.records
                },
                ..old(self)@
            }),
            final(self).revision == old(self).revision,
    {
        let ghost before = self@;
        let ghost lots = before.records.funding;
        let ghost keys = sorted_keys(lots);
        let ghost marked = before.assessed_funding(*schedule);
        proof {
            lemma_sorted_keys(lots);
            lemma_eligible(lots, keys, keys.len(), schedule.cutoff);
        }
        let mut i: usize = 0;
        while i < sources.len()
            invariant
                0 <= i <= sources@.len(),
                sources@.no_duplicates(),
                lots == before.records.funding,
                marked == before.assessed_funding(*schedule),
                forall|j: int|
                    0 <= j < sources@.len() ==> lots.contains_key((#[trigger] sources@[j]).0)
                        && lots[sources@[j].0].eligible(schedule.cutoff),
                self@ == (ProgramModel {
                    records: RecordsModel { funding: self.records.funding@, ..before.records },
                    ..before
                }),
                self.revision == old(self).revision,
                self.records.funding@.dom() == lots.dom(),
                forall|k: u128| #[trigger]
                    lots.contains_key(k) ==> self.records.funding@[k] == (if sources@.take(
                        i as int,
                    ).contains(PaymentOperationId(k)) {
                        marked[k]
                    } else {
                        lots[k]
                    }),
            decreases sources@.len() - i,
        {
            let id = sources[i];
            assert(lots.contains_key(sources@[i as int].0));
            assert(self.records.funding@.dom().contains(id.0));
            let ghost now = self.records.funding@;
            proof {
                assert(!sources@.take(i as int).contains(id)) by {
                    if sources@.take(i as int).contains(id) {
                        let j = choose|j: int| 0 <= j < i && sources@.take(i as int)[j] == id;
                        assert(sources@[j] == sources@[i as int]);
                    }
                }
            }
            match lookup(&self.records.funding, id.0) {
                Some(found) => {
                    let mut lot = *found;
                    assert(lot == lots[id.0]);
                    if lot.assess(schedule.id).is_ok() {
                        assert(lot == marked[id.0]);
                        put(&mut self.records.funding, id.0, lot);
                    }
                },
                None => {},
            }
            proof {
                assert(self.records.funding@ == now.insert(id.0, marked[id.0]));
                assert(self.records.funding@.dom() =~= lots.dom());
                assert forall|k: u128| #[trigger] lots.contains_key(k) implies self.records.funding@[k]
                    == (if sources@.take(i + 1).contains(PaymentOperationId(k)) {
                    marked[k]
                } else {
                    lots[k]
                }) by {
                    let (p, q) = (sources@.take(i as int), sources@.take(i + 1));
                    assert(q =~= p.push(id));
                    if p.contains(PaymentOperationId(k)) {
                        let j = choose|j: int| 0 <= j < p.len() && p[j] == PaymentOperationId(k);
                        assert(q[j] == PaymentOperationId(k));
                    }
                    assert(q[i as int] == id);
                    if q.contains(PaymentOperationId(k)) && k != id.0 {
                        let j = choose|j: int| 0 <= j < q.len() && q[j] == PaymentOperationId(k);
                        assert(p[j] == PaymentOperationId(k));
                    }
                }
            }
            i += 1;
        }
        proof {
            assert(sources@.take(i as int) =~= sources@);
            assert forall|k: u128| #[trigger] marked.contains_key(k) implies self.records.funding@[k]
                == marked[k] by {
                assert(lots.contains_key(k));
                let j = choose|j: int| 0 <= j < keys.len() && keys[j] == k;
                assert(keys[j] == k);
                if !lots[k].eligible(schedule.cutoff) {
                    if sources@.contains(PaymentOperationId(k)) {
                        let m = choose|m: int|
                            0 <= m < sources@.len() && sources@[m] == PaymentOperationId(k);
                        assert(lots[sources@[m].0].eligible(schedule.cutoff));
                    }
                }
            }
            assert(self.records.funding@ =~= marked);
        }
    }

    /// Adds new allocations to the records.
    fn add_payables(&mut self, fresh: BTreeMap<u128, MemberPayable>)
        ensures
            final(self)@ == (ProgramModel {
                records: RecordsModel {
                    payables: old(self)@.records.payables.union_prefer_right(
                        payable_models(fresh@),
                    ),
                    ..old(self)@.records
                },
                ..old(self)@
            }),
            final(self).revision == old(self).revision,
    {
        let keys = keys_of(&fresh);
        let ghost all = fresh@;
        let ghost before = self@;
        let mut rest = fresh;
        let mut i: usize = 0;
        while i < keys.len()
            invariant
                keys_in_order(keys@, all),
                0 <= i <= keys@.len(),
                self@ == (ProgramModel {
                    records: RecordsModel {
                        payables: payable_models(self.records.payables@),
                        ..before.records
                    },
                    ..before
                }),
                self.revision == old(self).revision,
                forall|k: u128| #[trigger]
                    rest@.contains_key(k) <==> all.contains_key(k) && !keys@.take(
                        i as int,
                    ).contains(k),
                forall|k: u128| #[trigger] rest@.contains_key(k) ==> rest@[k] == all[k],
                forall|k: u128| #[trigger]
                    self@.records.payables.contains_key(k) <==> before.records.payables.contains_key(
                        k,
                    ) || keys@.take(i as int).contains(k),
                forall|k: u128| #[trigger]
                    self@.records.payables.contains_key(k) ==> self@.records.payables[k] == (
                    if keys@.take(i as int).contains(k) {
                        all[k]@
                    } else {
                        before.records.payables[k]
                    }),
            decreases keys@.len() - i,
        {
            let key: u128 = keys[i];
            let ghost (p, q) = (keys@.take(i as int), keys@.take(i + 1));
            proof {
                assert(q =~= p.push(key));
                assert forall|k: u128| q.contains(k) <==> p.contains(k) || k == key by {
                    if p.contains(k) {
                        let j = choose|j: int| 0 <= j < p.len() && p[j] == k;
                        assert(q[j] == k);
                    }
                    assert(q[i as int] == key);
                    if q.contains(k) && k != key {
                        let j = choose|j: int| 0 <= j < q.len() && q[j] == k;
                        assert(p[j] == k);
                    }
                }
                assert(!p.contains(key)) by {
                    if p.contains(key) {
                        let j = choose|j: int| 0 <= j < p.len() && p[j] == key;
                        assert(keys@[j] < keys@[i as int]);
                    }
                }
                assert(all.contains_key(keys@[i as int]));
                assert(rest@.contains_key(key));
            }
            let ghost now = self.records.payables@;
            let ghost known = self@.records.payables;
            let ghost left = rest@;
            match take(&mut rest, key) {
                Some(payable) => {
                    put(&mut self.records.payables, key, payable);
                },
                None => {},
            }
            proof {
                assert(self.records.payables@ == now.insert(key, all[key]));
                assert(known == payable_models(now));
                assert(self@.records.payables =~= known.insert(key, all[key]@));
                assert forall|k: u128| #[trigger] rest@.contains_key(k) <==> all.contains_key(k)
                    && !q.contains(k) by {
                    assert(left.contains_key(k) <==> all.contains_key(k) && !p.contains(k));
                }
                assert forall|k: u128| #[trigger] rest@.contains_key(k) implies rest@[k] == all[k] by {
                    assert(left.contains_key(k));
                }
                assert forall|k: u128| #[trigger] self@.records.payables.contains_key(k) <==> before.records.payables.contains_key(
                    k,
                ) || q.contains(k) by {
                    assert(known.contains_key(k)
                        <==> before.records.payables.contains_key(k) || p.contains(k));
                }
                assert forall|k: u128| #[trigger] self@.records.payables.contains_key(k) implies self@.records.payables[k]
                    == (if q.contains(k) {
                    all[k]@
                } else {
                    before.records.payables[k]
                }) by {
                    if k != key {
                        assert(known.contains_key(k));
                    }
                }
            }
            i += 1;
        }
        proof {
            assert(keys@.take(i as int) =~= keys@);
            let union = before.records.payables.union_prefer_right(payable_models(all));
            assert forall|k: u128| keys@.contains(k) <==> all.contains_key(k) by {
                if keys@.contains(k) {
                    let j = choose|j: int| 0 <= j < keys@.len() && keys@[j] == k;
                    assert(all.contains_key(keys@[j]));
                }
            }
            assert forall|k: u128| #[trigger] union.contains_key(k) <==> self@.records.payables.contains_key(
                k,
            ) by {}
            assert(self@.records.payables =~= union);
        }
    }

    /// Freezes funding, equal allocations, assessment marks, and carryforward atomically. Early or
    /// out-of-order closure and arithmetic failures are refused; a closed year is answered with
    /// its result.
    pub fn finalize_annual_distribution(&mut self, id: AnnualDistributionId, at: CanonicalTime) -> (result:
        Result<AnnualAllocation, ProgramError>)
        requires
            old(self)@.records.sound(),
        ensures
            match old(self)@.finalized(id, at) {
                Ok((next, allocation)) => result matches Ok(r) && r@ == allocation && final(self)@
                    == next && next.records.sound(),
                Err(e) => result == Err::<AnnualAllocation, ProgramError>(e) && *final(self)
                    == *old(self),
            },
    {
        if !self.complete {
            return Err(ProgramError::IncompleteSnapshot);
        }
        match lookup(&self.records.annual_allocations, id.0) {
            Some(allocation) => {
                assert(self@.records.annual_allocations.contains_key(id.0));
                return Ok(allocation.clone());
            },
            None => {},
        }
        if at.0 < self.last_event_at.0 {
            return Err(ProgramError::TimeRegression);
        }
        let schedule = match lookup(&self.records.schedules, id.0) {
            Some(schedule) => *schedule,
            None => return Err(ProgramError::MissingRecord),
        };
        assert(self@.records.schedules.contains_key(id.0));
        if at.0 < schedule.cutoff.0 {
            return Err(ProgramError::TooEarly);
        }
        if self.has_open_earlier_period(&schedule) {
            return Err(ProgramError::ClosedPeriod);
        }
        let members = self.qualifying_members(&schedule);
        let funding = self.eligible_sources(&schedule);
        proof {
            let lots = self@.records.funding;
            let keys = sorted_keys(lots);
            lemma_sorted_keys(lots);
            lemma_eligible(lots, keys, keys.len(), schedule.cutoff);
            assert forall|i: int| 0 <= i < funding@.len() implies lots.contains_key(
                (#[trigger] funding@[i]).0,
            ) && lots[funding@[i].0].source.id == funding@[i] by {
                assert(lots[funding@[i].0].source.id.0 == funding@[i].0);
            }
        }
        let mut batch = LedgerBatch::new();
        let (new, corporate, contribution) = match self.assess_funding(&funding, &mut batch) {
            Ok(amounts) => amounts,
            Err(e) => return Err(e),
        };
        let restricted = self.ledger.balance(Account::RestrictedMemberFunds);
        let available = match restricted.checked_add(contribution) {
            Some(available) => available,
            None => return Err(ProgramError::ArithmeticOverflow),
        };
        let n: u64 = members.len() as u64;
        let each = Money(
            if n == 0 {
                0
            } else {
                available.0 / n
            },
        );
        let remainder = Money(
            if n == 0 {
                available.0
            } else {
                available.0 % n
            },
        );
        let fresh = match self.allocate(&schedule, &members, each, &mut batch) {
            Ok(fresh) => fresh,
            Err(e) => return Err(e),
        };
        let ledger = match self.ledger.view.apply(&batch) {
            Ok(ledger) => ledger,
            Err(e) => return Err(ProgramError::Ledger(e)),
        };
        if self.revision == u64::MAX {
            return Err(ProgramError::ArithmeticOverflow);
        }
        let ghost before = self@;
        let ghost (next, outcome) = before.finalized(id, at)->Ok_0;
        self.mark_assessed(&funding, &schedule);
        self.add_payables(fresh);
        let result = AnnualAllocation {
            schedule,
            finalized_at: at,
            members,
            funding,
            newly_eligible: new,
            corporate_share: corporate,
            member_contribution: contribution,
            each,
            remainder,
        };
        assert(result@ == outcome);
        let stored = result.clone();
        proof {
            assert(allocation_models(self.records.annual_allocations@.insert(id.0, stored))
                =~= allocation_models(self.records.annual_allocations@).insert(id.0, stored@));
        }
        put(&mut self.records.annual_allocations, id.0, stored);
        self.enter(at, FinancialEventId(schedule.id.0), batch, ledger);
        self.stamp(at);
        proof {
            lemma_closing_keeps_soundness(before, schedule, at);
        }
        Ok(result)
    }
}

/// New allocations have no payment yet.
proof fn lemma_allotment_fresh(
    program: ProgramModel,
    schedule: AnnualDistributionSchedule,
    members: Seq<MemberId>,
    n: nat,
    each: Money,
    transfers: Seq<Transfer>,
)
    requires
        program.allot(schedule, members, n, each, transfers) is Ok,
    ensures
        forall|k: u128| #[trigger]
            program.allot(schedule, members, n, each, transfers)->Ok_0.payables.contains_key(k)
                ==> program.allot(schedule, members, n, each, transfers)->Ok_0.payables[k].payment
                is None,
    decreases n,
{
    if n > 0 {
        lemma_allotment_fresh(program, schedule, members, (n - 1) as nat, each, transfers);
    }
}

pub(crate) proof fn lemma_closing_keeps_soundness(
    program: ProgramModel,
    schedule: AnnualDistributionSchedule,
    at: CanonicalTime,
)
    requires
        program.records.sound(),
        program.closed(schedule, at) is Ok,
    ensures
        program.closed(schedule, at)->Ok_0.0.records.sound(),
{
    let (next, result) = program.closed(schedule, at)->Ok_0;
    let sources = program.sources(schedule);
    let assessment = assess_sources(program.records.funding, sources, sources.len())->Ok_0;
    let released = with_transfer(
        assessment.transfers,
        Account::RestrictedMemberFunds,
        Account::CorporatePoolRevenue,
        result.corporate_share,
    );
    let recipients = if result.each.0 == 0 {
        0
    } else {
        result.members.len()
    };
    lemma_allotment_fresh(program, schedule, result.members, recipients, result.each, released);
    assert forall|id: u128| #[trigger] next.records.funding.contains_key(id) implies next.records.funding[id].source.id.0
        == id && next.records.funding[id].source.terms.valid() by {
        assert(program.records.funding.contains_key(id));
    }
    assert forall|id: u128| #[trigger] next.records.payables.contains_key(id) implies next.records.payables[id].started() by {
        let fresh = program.allot(schedule, result.members, recipients, result.each, released)->Ok_0.payables;
        if !fresh.contains_key(id) {
            assert(program.records.payables.contains_key(id));
        }
    }
}

/// A year's close adds up: the company's part and the members' make the newly eligible amount, and
/// equal shares and the remainder make what was available to members.
pub proof fn closing_adds_up(
    program: ProgramModel,
    schedule: AnnualDistributionSchedule,
    at: CanonicalTime,
)
    requires
        program.closed(schedule, at) is Ok,
    ensures
        ({
            let (next, result) = program.closed(schedule, at)->Ok_0;
            let n = result.members.len();
            let restricted = obligation(program.ledger.balances, Account::RestrictedMemberFunds);
            &&& result.corporate_share.0 + result.member_contribution.0 == result.newly_eligible.0
            &&& result.each.0 * n + result.remainder.0 == restricted.0
                + result.member_contribution.0
            &&& (n > 0 ==> result.remainder.0 < n)
            &&& (n == 0 ==> result.each.0 == 0)
        }),
{
    let (next, result) = program.closed(schedule, at)->Ok_0;
    let sources = program.sources(schedule);
    let assessment = assess_sources(program.records.funding, sources, sources.len())->Ok_0;
    let keys = sorted_keys(assessment.cohorts);
    lemma_corporate_grows(assessment.cohorts, keys, 0, keys.len());
    let n = result.members.len() as int;
    let available = obligation(program.ledger.balances, Account::RestrictedMemberFunds).0
        + result.member_contribution.0;
    if n > 0 {
        vstd::arithmetic::div_mod::lemma_fundamental_div_mod(available as int, n);
        assert(n * (available as int / n) == (available as int / n) * n) by (nonlinear_arith);
        assert(available as int / n <= available) by (nonlinear_arith)
            requires
                n > 0,
                available >= 0,
        ;
        assert(available as int / n >= 0) by (nonlinear_arith)
            requires
                n > 0,
                available >= 0,
        ;
        assert(0 <= available as int % n < n) by (nonlinear_arith)
            requires
                n > 0,
        ;
    }
}

/// A year that has been finalized stays as it is: asking again, at any time, gives the same result
/// and changes nothing.
pub proof fn finalizing_is_idempotent(
    program: ProgramModel,
    id: AnnualDistributionId,
    at: CanonicalTime,
    later: CanonicalTime,
)
    requires
        program.records.sound(),
        program.finalized(id, at) is Ok,
    ensures
        ({
            let (next, result) = program.finalized(id, at)->Ok_0;
            next.finalized(id, later) == Ok::<(ProgramModel, AllocationModel), ProgramError>(
                (next, result),
            )
        }),
{
}

/// Each source is assessed once: what one year assessed is eligible in no other.
pub proof fn sources_are_assessed_once(
    program: ProgramModel,
    schedule: AnnualDistributionSchedule,
    at: CanonicalTime,
    other: AnnualDistributionSchedule,
    i: int,
)
    requires
        program.records.sound(),
        program.closed(schedule, at) is Ok,
        0 <= i < program.sources(schedule).len(),
    ensures
        ({
            let next = program.closed(schedule, at)->Ok_0.0;
            let source = program.sources(schedule)[i];
            &&& next.records.funding.contains_key(source.0)
            &&& next.records.funding[source.0].lifecycle is Assessed
            &&& !next.sources(other).contains(source)
        }),
{
    let next = program.closed(schedule, at)->Ok_0.0;
    let source = program.sources(schedule)[i];
    let lots = program.records.funding;
    lemma_sorted_keys(lots);
    lemma_eligible(lots, sorted_keys(lots), sorted_keys(lots).len(), schedule.cutoff);
    lemma_closing_keeps_soundness(program, schedule, at);
    let after = next.records.funding;
    lemma_sorted_keys(after);
    lemma_eligible(after, sorted_keys(after), sorted_keys(after).len(), other.cutoff);
    if next.sources(other).contains(source) {
        let j = choose|j: int| 0 <= j < next.sources(other).len() && next.sources(other)[j] == source;
        assert(after[next.sources(other)[j].0].eligible(other.cutoff));
    }
}

/// The amounts of cohorts below a bound on the policy version.
spec fn amounts_below(cohorts: Map<u128, (u16, Money)>, bound: int) -> int
    decreases bound,
{
    if bound <= 0 {
        0
    } else {
        amounts_below(cohorts, bound - 1) + if cohorts.contains_key((bound - 1) as u128) {
            cohorts[(bound - 1) as u128].1.0 as int
        } else {
            0
        }
    }
}

proof fn lemma_amounts_insert(
    cohorts: Map<u128, (u16, Money)>,
    key: u128,
    cohort: (u16, Money),
    bound: int,
)
    requires
        0 <= bound <= u128::MAX + 1,
    ensures
        amounts_below(cohorts.insert(key, cohort), bound) == amounts_below(cohorts, bound) + (
        if key < bound {
            cohort.1.0 - (if cohorts.contains_key(key) {
                cohorts[key].1.0 as int
            } else {
                0
            })
        } else {
            0
        }),
    decreases bound,
{
    if bound > 0 {
        lemma_amounts_insert(cohorts, key, cohort, bound - 1);
    }
}

proof fn lemma_shares_below(
    cohorts: Map<u128, (u16, Money)>,
    keys: Seq<u128>,
    bound: int,
)
    requires
        0 <= bound <= u128::MAX + 1,
        crate::maps::increasing(keys),
        forall|i: int| 0 <= i < keys.len() ==> cohorts.contains_key(#[trigger] keys[i]) && keys[i] < bound,
        forall|k: u128| #[trigger] cohorts.contains_key(k) && k < bound ==> keys.contains(k),
        forall|k: u128| #[trigger] cohorts.contains_key(k) ==> cohorts[k].0 <= 10_000,
    ensures
        corporate_among(cohorts, keys, keys.len()) <= amounts_below(cohorts, bound),
    decreases bound,
{
    if bound > 0 {
        let top = (bound - 1) as u128;
        if cohorts.contains_key(top) {
            let i = choose|i: int| 0 <= i < keys.len() && keys[i] == top;
            let n = keys.len() - 1;
            if i < n {
                assert(keys[i] < keys[n]);
            }
            let rest = keys.drop_last();
            assert forall|k: u128| #[trigger] cohorts.contains_key(k) && k < bound - 1 implies rest.contains(
                k,
            ) by {
                let j = choose|j: int| 0 <= j < keys.len() && keys[j] == k;
                assert(rest[j] == k);
            }
            assert forall|j: int| 0 <= j < rest.len() implies cohorts.contains_key(
                #[trigger] rest[j],
            ) && rest[j] < bound - 1 by {
                assert(keys[j] < keys[n]);
            }
            lemma_shares_below(cohorts, rest, bound - 1);
            lemma_corporate_prefix(cohorts, keys, rest, n as nat);
            let cohort = cohorts[top];
            assert(cohort.1.0 * cohort.0 as int <= cohort.1.0 * 10_000) by (nonlinear_arith)
                requires
                    cohort.0 <= 10_000,
                    cohort.1.0 >= 0,
            ;
        } else {
            assert forall|j: int| 0 <= j < keys.len() implies cohorts.contains_key(
                #[trigger] keys[j],
            ) && keys[j] < bound - 1 by {
                assert(keys[j] != top);
            }
            lemma_shares_below(cohorts, keys, bound - 1);
        }
    } else {
        if keys.len() > 0 {
            assert(keys[0] < bound);
        }
    }
}

pub(crate) proof fn lemma_corporate_prefix(
    cohorts: Map<u128, (u16, Money)>,
    a: Seq<u128>,
    b: Seq<u128>,
    n: nat,
)
    requires
        n <= a.len(),
        n <= b.len(),
        forall|i: int| 0 <= i < n ==> a[i] == b[i],
    ensures
        corporate_among(cohorts, a, n) == corporate_among(cohorts, b, n),
    decreases n,
{
    if n > 0 {
        lemma_corporate_prefix(cohorts, a, b, (n - 1) as nat);
    }
}

proof fn lemma_assessment_sums(
    funding: Map<u128, ForfeitureLot>,
    sources: Seq<PaymentOperationId>,
    n: nat,
)
    requires
        n <= sources.len(),
        forall|i: int|
            0 <= i < sources.len() ==> funding.contains_key((#[trigger] sources[i]).0)
                && funding[sources[i].0].source.terms.valid(),
        assess_sources(funding, sources, n) is Ok,
    ensures
        ({
            let a = assess_sources(funding, sources, n)->Ok_0;
            &&& amounts_below(a.cohorts, u128::MAX + 1) == a.newly_eligible.0
            &&& forall|k: u128| #[trigger] a.cohorts.contains_key(k) ==> a.cohorts[k].0 <= 10_000
        }),
    decreases n,
{
    if n == 0 {
        lemma_no_amounts(u128::MAX + 1);
    } else {
        lemma_assessment_sums(funding, sources, (n - 1) as nat);
        let before = assess_sources(funding, sources, (n - 1) as nat)->Ok_0;
        let lot = funding[sources[n - 1].0];
        let version = lot.source.terms.policy_version.0 as u128;
        let after = assess_sources(funding, sources, n)->Ok_0;
        assert(funding.contains_key(sources[n - 1].0));
        lemma_amounts_insert(before.cohorts, version, after.cohorts[version], u128::MAX + 1);
    }
}

proof fn lemma_no_amounts(bound: int)
    ensures
        amounts_below(Map::empty(), bound) == 0,
    decreases bound,
{
    if bound > 0 {
        lemma_no_amounts(bound - 1);
    }
}

/// The company's part never exceeds what was assessed: rounding down once per rate cohort leaves
/// the fractions, and everything else, to the members.
pub proof fn members_keep_the_rest(program: ProgramModel, schedule: AnnualDistributionSchedule)
    requires
        program.records.sound(),
        assess_sources(
            program.records.funding,
            program.sources(schedule),
            program.sources(schedule).len(),
        ) is Ok,
    ensures
        ({
            let sources = program.sources(schedule);
            let a = assess_sources(program.records.funding, sources, sources.len())->Ok_0;
            0 <= corporate_total(a.cohorts) <= a.newly_eligible.0
        }),
{
    let lots = program.records.funding;
    let sources = program.sources(schedule);
    let a = assess_sources(lots, sources, sources.len())->Ok_0;
    lemma_sorted_keys(lots);
    lemma_eligible(lots, sorted_keys(lots), sorted_keys(lots).len(), schedule.cutoff);
    lemma_assessment_sums(lots, sources, sources.len());
    let keys = sorted_keys(a.cohorts);
    lemma_sorted_keys(a.cohorts);
    lemma_shares_below(a.cohorts, keys, u128::MAX + 1);
    lemma_corporate_grows(a.cohorts, keys, 0, keys.len());
}

/// A correction leaves every distribution, every source and the restricted carryforward as they
/// were, and is charged to the company.
pub proof fn corrections_leave_distributions_alone(
    program: ProgramModel,
    event: FinancialEventId,
    member: MemberId,
    distribution: AnnualDistributionId,
    amount: Money,
    reason: Seq<char>,
    at: CanonicalTime,
)
    requires
        program.compensated(event, member, distribution, amount, reason, at) is Ok,
    ensures
        ({
            let next = program.compensated(event, member, distribution, amount, reason, at)->Ok_0;
            &&& next.records.annual_allocations == program.records.annual_allocations
            &&& next.records.funding == program.records.funding
            &&& balance_in(next.ledger.balances, Account::RestrictedMemberFunds) == balance_in(
                program.ledger.balances,
                Account::RestrictedMemberFunds,
            )
            &&& balance_in(next.ledger.balances, Account::CorporateLossClearing) == balance_in(
                program.ledger.balances,
                Account::CorporateLossClearing,
            ) - amount.0
        }),
{
    let payable = program.correction(event, member, distribution, amount);
    let ts = with_transfer(
        Seq::empty(),
        Account::CorporateLossClearing,
        Account::MemberPayable(payable.id),
        amount,
    );
    let (s, revision) = (program.ledger.balances, program.ledger.revision);
    assert(crate::ledger::posted(s, revision, ts) is Ok);
    reveal_with_fuel(crate::ledger::net, 3);
    crate::ledger::posting_changes_balances(s, revision, ts, Account::RestrictedMemberFunds);
    crate::ledger::posting_changes_balances(s, revision, ts, Account::CorporateLossClearing);
}

/// A reversal, once noted, touches no ledger balance, no allocation and no finalized distribution;
/// an assessed source stays assessed.
pub proof fn reversals_claw_nothing_back(
    program: ProgramModel,
    id: PaymentOperationId,
    at: CanonicalTime,
)
    requires
        program.reversal_noted(id, at) is Ok,
    ensures
        ({
            let next = program.reversal_noted(id, at)->Ok_0;
            &&& next.ledger == program.ledger
            &&& next.records.payables == program.records.payables
            &&& next.records.annual_allocations == program.records.annual_allocations
            &&& (program.records.funding[id.0].lifecycle is Assessed && program.records.funding[id.0].source.id
                == id ==> next.records.funding[id.0] == program.records.funding[id.0])
            &&& (!(program.records.funding[id.0].lifecycle is Assessed)
                && program.records.funding[id.0].source.id == id
                ==> next.records.funding[id.0].lifecycle == (LotLifecycle::Pending { held: true }))
        }),
{
}

/// A program restored from one storage owner closes no year, enrolls no member, publishes no
/// schedule and compensates nobody.
pub proof fn incomplete_programs_decide_nothing(
    program: ProgramModel,
    id: AnnualDistributionId,
    schedule: AnnualDistributionSchedule,
    member: MemberId,
    digest: [u8; 32],
    status: super::terms::MembershipStatus,
    event: FinancialEventId,
    amount: Money,
    reason: Seq<char>,
    at: CanonicalTime,
)
    requires
        !program.complete,
    ensures
        program.finalized(id, at) == Err::<(ProgramModel, AllocationModel), ProgramError>(
            ProgramError::IncompleteSnapshot,
        ),
        program.enrolled(member, digest, status, at) == Err::<ProgramModel, ProgramError>(
            ProgramError::IncompleteSnapshot,
        ),
        program.published(schedule, at) == Err::<ProgramModel, ProgramError>(
            ProgramError::IncompleteSnapshot,
        ),
        program.compensated(event, member, id, amount, reason, at) == Err::<
            ProgramModel,
            ProgramError,
        >(ProgramError::IncompleteSnapshot),
{
}

/// Recording a forfeiture again, exactly as it was, changes nothing.
pub proof fn forfeitures_are_recorded_once(
    program: ProgramModel,
    source: super::lot::Forfeiture,
    at: CanonicalTime,
    later: CanonicalTime,
)
    requires
        program.forfeited(source, at) is Ok,
    ensures
        ({
            let next = program.forfeited(source, at)->Ok_0;
            next.forfeited(source, later) == Ok::<ProgramModel, ProgramError>(next)
        }),
{
}

/// Confirming a payout again with the same receipt changes nothing.
pub proof fn payouts_are_confirmed_once(
    program: ProgramModel,
    id: AllocationId,
    receipt: super::payments::SignedPaymentEvidence,
    key: [u8; 32],
    at: CanonicalTime,
    later: CanonicalTime,
)
    requires
        program.payout_confirmed(id, receipt, key, at) is Ok,
    ensures
        ({
            let next = program.payout_confirmed(id, receipt, key, at)->Ok_0;
            next.payout_confirmed(id, receipt, key, later) == Ok::<ProgramModel, ProgramError>(next)
        }),
{
    let payable = program.records.payables[id.0];
    let payment = payable.payment->Some_0;
    super::execution::receipts_are_idempotent(payment, receipt, key);
    let next = program.payout_confirmed(id, receipt, key, at)->Ok_0;
    let (again, transfers) = payable.receipted(receipt, key)->Ok_0;
    assert(next.records.payables[id.0] == again);
}

} // verus!
