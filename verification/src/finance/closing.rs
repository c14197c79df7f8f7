//! What closing a year of the members' program comes to, for members, sources and the ledger.

use super::annual::{
    assess_sources, corporate_among, eligible_among, lemma_corporate_grows,
    lemma_corporate_prefix, lemma_eligible, qualified_among,
};
use super::distribution::AnnualDistributionSchedule;
use super::lot::{ForfeitureLot, LotLifecycle};
use super::membership::MemberModel;
use super::program::ProgramModel;
use crate::ledger::{
    balance_in, lemma_net_with, net, posting_changes_balances, with_transfer, Account, Transfer,
};
use crate::maps::{keys_in_order, lemma_sorted_keys, sorted_keys};
use crate::primitives::amounts::{CanonicalTime, Money};
use crate::primitives::ids::{AnnualDistributionId, MemberId, PaymentOperationId};
use vstd::prelude::*;

verus! {

proof fn lemma_qualified(
    members: Map<u128, MemberModel>,
    keys: Seq<u128>,
    n: nat,
    schedule: AnnualDistributionSchedule,
)
    requires
        n <= keys.len(),
        keys_in_order(keys, members),
        forall|id: u128| #[trigger] members.contains_key(id) ==> members[id].id.0 == id,
    ensures
        ({
            let list = qualified_among(members, keys, n, schedule);
            &&& list.no_duplicates()
            &&& forall|i: int|
                0 <= i < list.len() ==> members.contains_key((#[trigger] list[i]).0)
                    && members[list[i].0].qualified(schedule)
            &&& forall|i: int|
                0 <= i < list.len() ==> exists|j: int|
                    0 <= j < n && keys[j] == (#[trigger] list[i]).0
            &&& forall|j: int|
                0 <= j < n && members[#[trigger] keys[j]].qualified(schedule) ==> list.contains(
                    MemberId(keys[j]),
                )
        }),
    decreases n,
{
    if n > 0 {
        lemma_qualified(members, keys, (n - 1) as nat, schedule);
        let before = qualified_among(members, keys, (n - 1) as nat, schedule);
        let list = qualified_among(members, keys, n, schedule);
        let key = keys[n - 1];
        assert(members.contains_key(key));
        if members[key].qualified(schedule) {
            assert forall|i: int| 0 <= i < before.len() implies (#[trigger] before[i]).0 != key by {
                let j = choose|j: int| 0 <= j < n - 1 && keys[j] == before[i].0;
                assert(keys[j] < keys[n - 1]);
            }
            assert forall|i: int| 0 <= i < list.len() implies exists|j: int|
                0 <= j < n && keys[j] == (#[trigger] list[i]).0 by {
                if i < before.len() {
                    let j = choose|j: int| 0 <= j < n - 1 && keys[j] == before[i].0;
                    assert(keys[j] == list[i].0);
                } else {
                    assert(keys[n - 1] == list[i].0);
                }
            }
            assert forall|j: int|
                0 <= j < n && members[#[trigger] keys[j]].qualified(schedule) implies list.contains(
                MemberId(keys[j]),
            ) by {
                if j < n - 1 {
                    let i = choose|i: int| 0 <= i < before.len() && before[i] == MemberId(keys[j]);
                    assert(list[i] == MemberId(keys[j]));
                } else {
                    assert(list[list.len() - 1] == MemberId(key));
                }
            }
        } else {
            assert forall|i: int| 0 <= i < list.len() implies exists|j: int|
                0 <= j < n && keys[j] == (#[trigger] list[i]).0 by {
                let j = choose|j: int| 0 <= j < n - 1 && keys[j] == before[i].0;
                assert(keys[j] == list[i].0);
            }
        }
    }
}

/// A member takes part in a year exactly if the last change of status before the cutoff leaves the
/// member opted in, verified and not suspended, the member joined at least the minimum tenure before
/// the cutoff, and was active on at least the minimum number of days of the year. Nobody else takes
/// part, and nobody twice.
pub proof fn members_take_part_by_standing_tenure_and_activity(
    program: ProgramModel,
    id: AnnualDistributionId,
    at: CanonicalTime,
    k: u128,
)
    requires
        program.records.sound(),
        !program.records.annual_allocations.contains_key(id.0),
        program.finalized(id, at) is Ok,
    ensures
        ({
            let result = program.finalized(id, at)->Ok_0.1;
            let year = program.records.schedules[id.0];
            let m = program.records.members[k];
            &&& result.members.no_duplicates()
            &&& result.members.contains(MemberId(k)) <==> {
                &&& program.records.members.contains_key(k)
                &&& exists|i: int|
                    0 <= i < m.changes.len() && (#[trigger] m.changes[i]).0.0 < year.cutoff.0 && (
                    forall|j: int|
                        i < j < m.changes.len() ==> (#[trigger] m.changes[j]).0.0 >= year.cutoff.0)
                        && m.changes[i].1.opted_in && m.changes[i].1.verified
                        && !m.changes[i].1.suspended
                &&& m.joined_at.0 + year.eligibility.minimum_tenure.0 <= year.cutoff.0
                &&& m.activity_days.filter(
                    |day: u64|
                        year.start.0 as int / 86_400_000 <= day && day < year.cutoff.0 as int
                            / 86_400_000,
                ).len() >= year.eligibility.minimum_active_days
            }
        }),
{
    let result = program.finalized(id, at)->Ok_0.1;
    let year = program.records.schedules[id.0];
    let members = program.records.members;
    let keys = sorted_keys(members);
    lemma_sorted_keys(members);
    lemma_qualified(members, keys, keys.len(), year);
    assert(result.members == qualified_among(members, keys, keys.len(), year));
    let m = members[k];
    assert(m.activity_days.filter(
        |day: u64|
            year.start.0 as int / 86_400_000 <= day && day < year.cutoff.0 as int / 86_400_000,
    ) =~= m.activity_days.filter(
        |day: u64|
            (year.start.0 / super::terms::DAY_MILLIS) as u64 <= day < (year.cutoff.0
                / super::terms::DAY_MILLIS) as u64,
    ));
    let stands = exists|i: int|
        0 <= i < m.changes.len() && (#[trigger] m.changes[i]).0.0 < year.cutoff.0 && (forall|
            j: int,
        |
            i < j < m.changes.len() ==> (#[trigger] m.changes[j]).0.0 >= year.cutoff.0)
            && m.changes[i].1.opted_in && m.changes[i].1.verified && !m.changes[i].1.suspended;
    if stands {
        let i = choose|i: int|
            0 <= i < m.changes.len() && (#[trigger] m.changes[i]).0.0 < year.cutoff.0 && (forall|
                j: int,
            |
                i < j < m.changes.len() ==> (#[trigger] m.changes[j]).0.0 >= year.cutoff.0)
                && m.changes[i].1.opted_in && m.changes[i].1.verified && !m.changes[i].1.suspended;
        assert(m.last_before(year.cutoff, i));
    }
    if m.eligible(year.cutoff) {
        let i = choose|i: int|
            #[trigger] m.last_before(year.cutoff, i) && m.changes[i].1.in_good_standing();
        assert(m.changes[i].0.0 < year.cutoff.0);
    }
    assert(stands <==> m.eligible(year.cutoff));
    if result.members.contains(MemberId(k)) {
        let i = choose|i: int| 0 <= i < result.members.len() && result.members[i] == MemberId(k);
        assert(members[result.members[i].0].qualified(year));
    }
    if members.contains_key(k) && m.qualified(year) {
        let j = choose|j: int| 0 <= j < keys.len() && keys[j] == k;
        assert(members[keys[j]].qualified(year));
    }
}

/// The amounts of some sources.
pub open spec fn amounts_of(funding: Map<u128, ForfeitureLot>, sources: Seq<PaymentOperationId>) -> int
    decreases sources.len(),
{
    if sources.len() == 0 {
        0
    } else {
        amounts_of(funding, sources.drop_last()) + funding[sources.last().0].source.amount.0
    }
}

/// The amounts of those of some sources that were forfeited under one version of the policy, each
/// weighed with its rate in basis points.
pub open spec fn weighed(
    funding: Map<u128, ForfeitureLot>,
    sources: Seq<PaymentOperationId>,
    version: int,
) -> int
    decreases sources.len(),
{
    if sources.len() == 0 {
        0
    } else {
        let source = funding[sources.last().0].source;
        weighed(funding, sources.drop_last(), version) + if source.terms.policy_version.0 == version {
            source.amount.0 * source.terms.corporate_basis_points as int
        } else {
            0
        }
    }
}

/// The company's part of some sources under the policy versions below a bound: their rates in basis
/// points, rounded down to whole units once for each version.
pub open spec fn company_part(
    funding: Map<u128, ForfeitureLot>,
    sources: Seq<PaymentOperationId>,
    bound: int,
) -> int
    decreases bound,
{
    if bound <= 0 {
        0
    } else {
        company_part(funding, sources, bound - 1) + weighed(funding, sources, bound - 1) / 10_000
    }
}

proof fn lemma_weighed(
    funding: Map<u128, ForfeitureLot>,
    sources: Seq<PaymentOperationId>,
    n: nat,
    v: u128,
)
    requires
        n <= sources.len(),
        assess_sources(funding, sources, n) is Ok,
    ensures
        ({
            let cohorts = assess_sources(funding, sources, n)->Ok_0.cohorts;
            let all = weighed(funding, sources.take(n as int), v as int);
            if cohorts.contains_key(v) {
                cohorts[v].1.0 * cohorts[v].0 as int == all && v <= u64::MAX
            } else {
                all == 0
            }
        }),
    decreases n,
{
    if n > 0 {
        lemma_weighed(funding, sources, (n - 1) as nat, v);
        assert(sources.take(n as int).drop_last() =~= sources.take(n - 1));
        let before = assess_sources(funding, sources, (n - 1) as nat)->Ok_0.cohorts;
        let source = funding[sources[n - 1].0].source;
        let rate = source.terms.corporate_basis_points as int;
        if source.terms.policy_version.0 as u128 == v {
            let sum = if before.contains_key(v) {
                before[v].1.0 as int
            } else {
                0
            };
            assert((sum + source.amount.0) * rate == sum * rate + source.amount.0 * rate)
                by (nonlinear_arith);
        }
    }
}

proof fn lemma_company_part(
    funding: Map<u128, ForfeitureLot>,
    sources: Seq<PaymentOperationId>,
    keys: Seq<u128>,
    bound: int,
)
    requires
        assess_sources(funding, sources, sources.len()) is Ok,
        0 <= bound <= u128::MAX + 1,
        crate::maps::increasing(keys),
        forall|i: int|
            0 <= i < keys.len() ==> assess_sources(
                funding,
                sources,
                sources.len(),
            )->Ok_0.cohorts.contains_key(#[trigger] keys[i]) && keys[i] < bound,
        forall|k: u128| #[trigger]
            assess_sources(funding, sources, sources.len())->Ok_0.cohorts.contains_key(k) && k
                < bound ==> keys.contains(k),
    ensures
        corporate_among(
            assess_sources(funding, sources, sources.len())->Ok_0.cohorts,
            keys,
            keys.len(),
        ) == company_part(funding, sources, bound),
    decreases bound,
{
    let cohorts = assess_sources(funding, sources, sources.len())->Ok_0.cohorts;
    if bound > 0 {
        let top = (bound - 1) as u128;
        lemma_weighed(funding, sources, sources.len(), top);
        assert(sources.take(sources.len() as int) =~= sources);
        if cohorts.contains_key(top) {
            let i = choose|i: int| 0 <= i < keys.len() && keys[i] == top;
            let n = keys.len() - 1;
            if i < n {
                assert(keys[i] < keys[n]);
            }
            let rest = keys.drop_last();
            assert forall|k: u128| #[trigger] cohorts.contains_key(k) && k < bound
                - 1 implies rest.contains(k) by {
                let j = choose|j: int| 0 <= j < keys.len() && keys[j] == k;
                assert(rest[j] == k);
            }
            assert forall|j: int| 0 <= j < rest.len() implies cohorts.contains_key(
                #[trigger] rest[j],
            ) && rest[j] < bound - 1 by {
                assert(keys[j] < keys[n]);
            }
            lemma_company_part(funding, sources, rest, bound - 1);
            lemma_corporate_prefix(cohorts, keys, rest, n as nat);
        } else {
            assert forall|j: int| 0 <= j < keys.len() implies cohorts.contains_key(
                #[trigger] keys[j],
            ) && keys[j] < bound - 1 by {
                assert(keys[j] != top);
            }
            lemma_company_part(funding, sources, keys, bound - 1);
        }
    } else {
        if keys.len() > 0 {
            assert(keys[0] < bound);
        }
    }
}

proof fn lemma_no_part(
    funding: Map<u128, ForfeitureLot>,
    sources: Seq<PaymentOperationId>,
    bound: int,
)
    requires
        assess_sources(funding, sources, sources.len()) is Ok,
        0x1_0000_0000_0000_0000 <= bound <= u128::MAX + 1,
    ensures
        company_part(funding, sources, bound) == company_part(
            funding,
            sources,
            0x1_0000_0000_0000_0000,
        ),
    decreases bound,
{
    if bound > 0x1_0000_0000_0000_0000 {
        lemma_no_part(funding, sources, bound - 1);
        lemma_weighed(funding, sources, sources.len(), (bound - 1) as u128);
        assert(sources.take(sources.len() as int) =~= sources);
    }
}

proof fn lemma_assessed_sum(
    funding: Map<u128, ForfeitureLot>,
    sources: Seq<PaymentOperationId>,
    n: nat,
)
    requires
        n <= sources.len(),
        assess_sources(funding, sources, n) is Ok,
    ensures
        assess_sources(funding, sources, n)->Ok_0.newly_eligible.0 == amounts_of(
            funding,
            sources.take(n as int),
        ),
    decreases n,
{
    if n > 0 {
        lemma_assessed_sum(funding, sources, (n - 1) as nat);
        assert(sources.take(n as int).drop_last() =~= sources.take(n - 1));
    }
}

/// A year assesses exactly the sources that were cleared before its cutoff and not assessed yet, each
/// once and in full. From then on they are assessed in that year, and all others stay as they were.
pub proof fn cleared_sources_are_assessed_in_full(
    program: ProgramModel,
    id: AnnualDistributionId,
    at: CanonicalTime,
    k: u128,
)
    requires
        program.records.sound(),
        !program.records.annual_allocations.contains_key(id.0),
        program.finalized(id, at) is Ok,
    ensures
        ({
            let (next, result) = program.finalized(id, at)->Ok_0;
            let year = program.records.schedules[id.0];
            let (before, after) = (program.records.funding, next.records.funding);
            &&& result.funding.no_duplicates()
            &&& result.funding.contains(PaymentOperationId(k)) <==> before.contains_key(k) && (
            before[k].lifecycle matches LotLifecycle::Cleared(clearance) && clearance.at.0
                < year.cutoff.0)
            &&& result.newly_eligible.0 == amounts_of(before, result.funding)
            &&& after.contains_key(k) <==> before.contains_key(k)
            &&& before.contains_key(k) ==> after[k].source == before[k].source
                && after[k].lifecycle == (match before[k].lifecycle {
                LotLifecycle::Cleared(clearance) => if clearance.at.0 < year.cutoff.0 {
                    LotLifecycle::Assessed { clearance, distribution: id }
                } else {
                    before[k].lifecycle
                },
                _ => before[k].lifecycle,
            })
        }),
{
    let (next, result) = program.finalized(id, at)->Ok_0;
    let year = program.records.schedules[id.0];
    let lots = program.records.funding;
    let keys = sorted_keys(lots);
    lemma_sorted_keys(lots);
    lemma_eligible(lots, keys, keys.len(), year.cutoff);
    assert(result.funding == eligible_among(lots, keys, keys.len(), year.cutoff));
    lemma_assessed_sum(lots, result.funding, result.funding.len());
    assert(result.funding.take(result.funding.len() as int) =~= result.funding);
    if result.funding.contains(PaymentOperationId(k)) {
        let i = choose|i: int|
            0 <= i < result.funding.len() && result.funding[i] == PaymentOperationId(k);
        assert(lots[result.funding[i].0].eligible(year.cutoff));
    }
    if lots.contains_key(k) && lots[k].eligible(year.cutoff) {
        let j = choose|j: int| 0 <= j < keys.len() && keys[j] == k;
        assert(lots[keys[j]].eligible(year.cutoff));
    }
}

/// The company takes its part of what is assessed, at the rate that each source was forfeited under
/// and rounded down once for each version of the policy; the rest, with what was carried forward, is
/// the members', in equal shares as large as whole units allow.
pub proof fn the_company_takes_its_rate_and_members_share_the_rest(
    program: ProgramModel,
    id: AnnualDistributionId,
    at: CanonicalTime,
)
    requires
        program.records.sound(),
        !program.records.annual_allocations.contains_key(id.0),
        program.finalized(id, at) is Ok,
        0 <= balance_in(program.ledger.balances, Account::RestrictedMemberFunds) <= u64::MAX,
    ensures
        ({
            let result = program.finalized(id, at)->Ok_0.1;
            let n = result.members.len();
            let carried = balance_in(program.ledger.balances, Account::RestrictedMemberFunds);
            &&& result.schedule == program.records.schedules[id.0]
            &&& result.finalized_at == at
            &&& at.0 >= program.records.schedules[id.0].cutoff.0
            &&& result.corporate_share.0 == company_part(
                program.records.funding,
                result.funding,
                0x1_0000_0000_0000_0000,
            )
            &&& result.member_contribution.0 == result.newly_eligible.0 - result.corporate_share.0
            &&& result.each.0 * n + result.remainder.0 == carried + result.member_contribution.0
            &&& n > 0 ==> result.remainder.0 < n
            &&& n == 0 ==> result.each.0 == 0
        }),
{
    let (next, result) = program.finalized(id, at)->Ok_0;
    let schedule = program.records.schedules[id.0];
    super::annual::closing_adds_up(program, schedule, at);
    let sources = program.sources(schedule);
    let cohorts = assess_sources(program.records.funding, sources, sources.len())->Ok_0.cohorts;
    let keys = sorted_keys(cohorts);
    lemma_sorted_keys(cohorts);
    lemma_company_part(program.records.funding, sources, keys, u128::MAX + 1);
    lemma_no_part(program.records.funding, sources, u128::MAX + 1);
    lemma_corporate_grows(cohorts, keys, 0, keys.len());
}

proof fn lemma_allotted(
    program: ProgramModel,
    schedule: AnnualDistributionSchedule,
    members: Seq<MemberId>,
    n: nat,
    each: Money,
    transfers: Seq<Transfer>,
    a: Account,
)
    requires
        n <= members.len(),
        program.allot(schedule, members, n, each, transfers) is Ok,
    ensures
        ({
            let made = program.allot(schedule, members, n, each, transfers)->Ok_0;
            &&& forall|k: u128| #[trigger]
                made.payables.contains_key(k) ==> !program.records.payables.contains_key(k)
                    && made.payables[k].id.0 == k && exists|i: int|
                    0 <= i < n && made.payables[k] == program.share_of(
                        schedule,
                        #[trigger] members[i],
                        each,
                    )
            &&& forall|i: int|
                0 <= i < n ==> {
                    let share = program.share_of(schedule, #[trigger] members[i], each);
                    made.payables.contains_key(share.id.0) && made.payables[share.id.0] == share
                }
            &&& net(made.transfers, made.transfers.len(), a) == net(transfers, transfers.len(), a) + (
            if a matches Account::MemberPayable(p) && made.payables.contains_key(p.0) {
                each.0 as int
            } else {
                0
            }) - (if a is RestrictedMemberFunds {
                n * each.0
            } else {
                0
            })
        }),
    decreases n,
{
    if n > 0 {
        lemma_allotted(program, schedule, members, (n - 1) as nat, each, transfers, a);
        let before = program.allot(schedule, members, (n - 1) as nat, each, transfers)->Ok_0;
        let made = program.allot(schedule, members, n, each, transfers)->Ok_0;
        let payable = program.share_of(schedule, members[n - 1], each);
        lemma_net_with(
            before.transfers,
            Account::RestrictedMemberFunds,
            Account::MemberPayable(payable.id),
            each,
            a,
        );
        assert((n - 1) * each.0 + each.0 == n * each.0) by (nonlinear_arith);
        assert forall|k: u128| #[trigger]
            made.payables.contains_key(k) implies !program.records.payables.contains_key(k)
            && made.payables[k].id.0 == k && exists|i: int|
            0 <= i < n && made.payables[k] == program.share_of(
                schedule,
                #[trigger] members[i],
                each,
            ) by {
            if k == payable.id.0 {
                assert(made.payables[k] == program.share_of(schedule, members[n - 1], each));
            } else {
                assert(before.payables.contains_key(k));
                let i = choose|i: int|
                    0 <= i < n - 1 && before.payables[k] == program.share_of(
                        schedule,
                        #[trigger] members[i],
                        each,
                    );
                assert(made.payables[k] == program.share_of(schedule, members[i], each));
            }
        }
    }
}

proof fn lemma_released(
    funding: Map<u128, ForfeitureLot>,
    sources: Seq<PaymentOperationId>,
    n: nat,
    a: Account,
)
    requires
        n <= sources.len(),
        sources.no_duplicates(),
        forall|i: int|
            0 <= i < sources.len() ==> funding[(#[trigger] sources[i]).0].source.id == sources[i],
        assess_sources(funding, sources, n) is Ok,
    ensures
        ({
            let made = assess_sources(funding, sources, n)->Ok_0;
            net(made.transfers, made.transfers.len(), a) == if a is RestrictedMemberFunds {
                made.newly_eligible.0 as int
            } else if a matches Account::PendingForfeiture(p) && sources.take(n as int).contains(p) {
                -(funding[a->PendingForfeiture_0.0].source.amount.0 as int)
            } else {
                0
            }
        }),
    decreases n,
{
    if n > 0 {
        lemma_released(funding, sources, (n - 1) as nat, a);
        let before = assess_sources(funding, sources, (n - 1) as nat)->Ok_0;
        let source = funding[sources[n - 1].0].source;
        lemma_net_with(
            before.transfers,
            Account::PendingForfeiture(source.id),
            Account::RestrictedMemberFunds,
            source.amount,
            a,
        );
        let now = sources.take(n as int);
        let earlier = sources.take(n - 1);
        assert(now =~= earlier.push(sources[n - 1]));
        if a is PendingForfeiture {
            let p = a->PendingForfeiture_0;
            if earlier.contains(p) {
                let i = choose|i: int| 0 <= i < earlier.len() && earlier[i] == p;
                assert(now[i] == p);
                assert(sources[i] == p);
                assert(p != sources[n - 1]);
            } else if p == sources[n - 1] {
                assert(now[n - 1] == p);
            } else {
                if now.contains(p) {
                    let i = choose|i: int| 0 <= i < now.len() && now[i] == p;
                    assert(earlier[i] == p);
                }
            }
        }
    }
}

/// Each member who takes part is owed one equal share of the year, under the year's payment terms;
/// nobody else is owed anything more, and what was owed before stays as it was.
pub proof fn each_participant_is_owed_one_share(
    program: ProgramModel,
    id: AnnualDistributionId,
    at: CanonicalTime,
)
    requires
        program.records.sound(),
        !program.records.annual_allocations.contains_key(id.0),
        program.finalized(id, at) is Ok,
    ensures
        ({
            let (next, result) = program.finalized(id, at)->Ok_0;
            let year = program.records.schedules[id.0];
            let old_payables = program.records.payables;
            let payables = next.records.payables;
            &&& forall|k: u128| #[trigger]
                old_payables.contains_key(k) ==> payables.contains_key(k) && payables[k]
                    == old_payables[k]
            &&& forall|k: u128| #[trigger]
                payables.contains_key(k) && !old_payables.contains_key(k) ==> {
                    &&& result.members.contains(payables[k].member)
                    &&& payables[k].id.0 == k
                    &&& payables[k].amount == result.each
                    &&& payables[k].amount.0 > 0
                    &&& payables[k].distribution == year.id
                    &&& payables[k].terms == year.payment
                    &&& payables[k].scope == program.scope
                    &&& payables[k].unit == program.unit
                    &&& payables[k].payment is None
                    &&& payables[k].correction is None
                }
            &&& forall|j: u128, k: u128|
                #![trigger payables.contains_key(j), payables.contains_key(k)]
                payables.contains_key(j) && !old_payables.contains_key(j) && payables.contains_key(
                    k,
                ) && !old_payables.contains_key(k) && payables[j].member == payables[k].member
                    ==> j == k
            &&& result.each.0 > 0 ==> forall|i: int|
                0 <= i < result.members.len() ==> exists|k: u128| #[trigger]
                    payables.contains_key(k) && !old_payables.contains_key(k) && payables[k].member
                        == #[trigger] result.members[i]
        }),
{
    let (next, result) = program.finalized(id, at)->Ok_0;
    let year = program.records.schedules[id.0];
    let sources = program.sources(year);
    let assessment = assess_sources(program.records.funding, sources, sources.len())->Ok_0;
    let released = with_transfer(
        assessment.transfers,
        Account::RestrictedMemberFunds,
        Account::CorporatePoolRevenue,
        result.corporate_share,
    );
    let n: nat = if result.each.0 == 0 {
        0
    } else {
        result.members.len()
    };
    lemma_allotted(program, year, result.members, n, result.each, released, Account::ProcessingRevenue);
    let made = program.allot(year, result.members, n, result.each, released)->Ok_0.payables;
    let payables = next.records.payables;
    if result.each.0 > 0 {
        assert forall|i: int| 0 <= i < result.members.len() implies exists|k: u128| #[trigger]
            payables.contains_key(k) && !program.records.payables.contains_key(k)
                && payables[k].member == #[trigger] result.members[i] by {
            let k = program.share_of(year, result.members[i], result.each).id.0;
            assert(made.contains_key(k));
            assert(payables.contains_key(k) && payables[k].member == result.members[i]);
        }
    }
}

/// What a year's close does to the ledger: each assessed source is released in full, the company's
/// part is its revenue, each new share is owed to its member, the remainder stays restricted for
/// members, and no other account changes.
pub proof fn closing_moves_only_what_it_assesses(
    program: ProgramModel,
    id: AnnualDistributionId,
    at: CanonicalTime,
    a: Account,
)
    requires
        program.records.sound(),
        !program.records.annual_allocations.contains_key(id.0),
        program.finalized(id, at) is Ok,
        0 <= balance_in(program.ledger.balances, Account::RestrictedMemberFunds) <= u64::MAX,
    ensures
        ({
            let (next, result) = program.finalized(id, at)->Ok_0;
            let before = balance_in(program.ledger.balances, a);
            let after = balance_in(next.ledger.balances, a);
            match a {
                Account::RestrictedMemberFunds => after == result.remainder.0,
                Account::CorporatePoolRevenue => after == before + result.corporate_share.0,
                Account::PendingForfeiture(source) => after == before - if result.funding.contains(
                    source,
                ) {
                    program.records.funding[source.0].source.amount.0 as int
                } else {
                    0
                },
                Account::MemberPayable(share) => after == before
                    + if next.records.payables.contains_key(share.0)
                    && !program.records.payables.contains_key(share.0) {
                    result.each.0 as int
                } else {
                    0
                },
                _ => after == before,
            }
        }),
{
    let (next, result) = program.finalized(id, at)->Ok_0;
    let year = program.records.schedules[id.0];
    let sources = program.sources(year);
    let assessment = assess_sources(program.records.funding, sources, sources.len())->Ok_0;
    let released = with_transfer(
        assessment.transfers,
        Account::RestrictedMemberFunds,
        Account::CorporatePoolRevenue,
        result.corporate_share,
    );
    let n: nat = if result.each.0 == 0 {
        0
    } else {
        result.members.len()
    };
    let keys = sorted_keys(program.records.funding);
    lemma_sorted_keys(program.records.funding);
    lemma_eligible(program.records.funding, keys, keys.len(), year.cutoff);
    lemma_released(program.records.funding, sources, sources.len(), a);
    assert(sources.take(sources.len() as int) =~= sources);
    lemma_net_with(
        assessment.transfers,
        Account::RestrictedMemberFunds,
        Account::CorporatePoolRevenue,
        result.corporate_share,
        a,
    );
    lemma_allotted(program, year, result.members, n, result.each, released, a);
    let made = program.allot(year, result.members, n, result.each, released)->Ok_0;
    posting_changes_balances(program.ledger.balances, program.ledger.revision, made.transfers, a);
    super::annual::closing_adds_up(program, year, at);
    assert(result.members.len() * result.each.0 == result.each.0 * result.members.len())
        by (nonlinear_arith);
    assert(0 * result.each.0 == 0);
}

/// Who is not in good standing gets nothing: a member whose last change of status before the cutoff
/// leaves the member suspended, not verified or not opted in, or who had no status by then, is not
/// among the year's members, and no share is owed to that member for the year.
pub proof fn who_is_not_in_good_standing_gets_nothing(
    program: ProgramModel,
    id: AnnualDistributionId,
    at: CanonicalTime,
    k: u128,
)
    requires
        program.records.sound(),
        !program.records.annual_allocations.contains_key(id.0),
        program.finalized(id, at) is Ok,
        ({
            let m = program.records.members[k];
            let cutoff = program.records.schedules[id.0].cutoff;
            forall|i: int|
                0 <= i < m.changes.len() && (#[trigger] m.changes[i]).0.0 < cutoff.0 && (forall|
                    j: int,
                |
                    i < j < m.changes.len() ==> (#[trigger] m.changes[j]).0.0 >= cutoff.0)
                    ==> m.changes[i].1.suspended || !m.changes[i].1.verified
                    || !m.changes[i].1.opted_in
        }),
    ensures
        ({
            let (next, result) = program.finalized(id, at)->Ok_0;
            &&& !result.members.contains(MemberId(k))
            &&& forall|p: u128| #[trigger]
                next.records.payables.contains_key(p) && !program.records.payables.contains_key(p)
                    ==> next.records.payables[p].member != MemberId(k)
        }),
{
    members_take_part_by_standing_tenure_and_activity(program, id, at, k);
    each_participant_is_owed_one_share(program, id, at);
}

/// Years are closed in their order and not before their cutoff: a year that is newly closed has every
/// year that ended by its start closed before it, and a year that is not over is refused as too
/// early.
pub proof fn years_are_closed_in_order(
    program: ProgramModel,
    id: AnnualDistributionId,
    at: CanonicalTime,
    k: u128,
)
    requires
        !program.records.annual_allocations.contains_key(id.0),
    ensures
        ({
            let result = program.finalized(id, at);
            let year = program.records.schedules[id.0];
            let other = program.records.schedules[k];
            &&& result is Ok ==> {
                &&& program.complete
                &&& at.0 >= program.last_event_at.0
                &&& program.records.schedules.contains_key(id.0)
                &&& at.0 >= year.cutoff.0
                &&& program.records.schedules.contains_key(k) && other.cutoff.0 <= year.start.0
                    ==> program.records.annual_allocations.contains_key(other.id.0)
                &&& result->Ok_0.0.revision == program.revision + 1
                &&& result->Ok_0.0.last_event_at == at
                &&& result->Ok_0.0.records.members == program.records.members
                &&& result->Ok_0.0.records.schedules == program.records.schedules
            }
            &&& program.complete && at.0 >= program.last_event_at.0
                && program.records.schedules.contains_key(id.0) && at.0 < year.cutoff.0 ==> result
                == Err::<
                (ProgramModel, super::distribution::AllocationModel),
                super::terms::ProgramError,
            >(super::terms::ProgramError::TooEarly)
        }),
{
}

} // verus!
