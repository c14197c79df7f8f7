//! What each change of the members' program comes to, for its records and its ledger.

use super::bank::BankVerification;
use super::distribution::AnnualDistributionSchedule;
use super::lot::{Forfeiture, LotLifecycle};
use super::payments::{PaymentKind, SignedPaymentEvidence};
use super::program::ProgramModel;
use super::records::{records_fault, JournalModel, ProgramMetadata, RecordsModel};
use super::terms::{MembershipStatus, ProgramError};
use crate::bytes::utf8;
use crate::ledger::{balance_in, net, posting_changes_balances, total, Account, LedgerModel};
use crate::primitives::amounts::{CanonicalTime, Money};
use crate::primitives::ids::{
    AllocationId, AnnualDistributionId, FinancialEventId, MemberId, PaymentOperationId,
};
use vstd::prelude::*;

verus! {

/// All but the members of two programs agree, apart from revision and time.
pub open spec fn only_members_differ(a: ProgramModel, b: ProgramModel) -> bool {
    &&& a.scope == b.scope && a.unit == b.unit && a.complete == b.complete
    &&& a.ledger == b.ledger && a.journal == b.journal
    &&& a.records.funding == b.records.funding && a.records.payables == b.records.payables
    &&& a.records.schedules == b.records.schedules
    &&& a.records.annual_allocations == b.records.annual_allocations
}

/// All but the forfeited lots of two programs agree, apart from revision, time, ledger and journal.
pub open spec fn only_lots_differ(a: ProgramModel, b: ProgramModel) -> bool {
    &&& a.scope == b.scope && a.unit == b.unit && a.complete == b.complete
    &&& a.records.members == b.records.members && a.records.payables == b.records.payables
    &&& a.records.schedules == b.records.schedules
    &&& a.records.annual_allocations == b.records.annual_allocations
}

/// All but what is owed to members agrees in two programs, apart from revision, time, ledger and
/// journal.
pub open spec fn only_payables_differ(a: ProgramModel, b: ProgramModel) -> bool {
    &&& a.scope == b.scope && a.unit == b.unit && a.complete == b.complete
    &&& a.records.members == b.records.members && a.records.funding == b.records.funding
    &&& a.records.schedules == b.records.schedules
    &&& a.records.annual_allocations == b.records.annual_allocations
}

/// A member is enrolled under a free identifier and with an identity of the member's own, from the
/// time of enrolment, with the status given and no activity yet. Nobody else changes.
pub proof fn enrolment_adds_one_member(
    program: ProgramModel,
    id: MemberId,
    identity: [u8; 32],
    status: MembershipStatus,
    at: CanonicalTime,
    k: u128,
)
    ensures
        ({
            let result = program.enrolled(id, identity, status, at);
            let next = result->Ok_0;
            let taken = program.records.members.contains_key(id.0) || exists|m: u128| #[trigger]
                program.records.members.contains_key(m)
                    && program.records.members[m].identity_digest == identity;
            let nameless = forall|i: int| 0 <= i < 32 ==> identity@[i] == 0;
            &&& result is Ok <==> program.complete && at.0 >= program.last_event_at.0 && !taken
                && !nameless && program.revision < u64::MAX
            &&& program.complete && at.0 >= program.last_event_at.0 && (taken || nameless)
                ==> result == Err::<ProgramModel, ProgramError>(ProgramError::DuplicateConflict)
            &&& result is Ok ==> {
                let m = next.records.members[id.0];
                &&& next.records.members.contains_key(id.0)
                &&& m.id == id
                &&& m.identity_digest == identity
                &&& m.joined_at == at
                &&& m.changes.len() == 1 && m.changes[0].0 == at && m.changes[0].1 == status
                &&& forall|day: u64| !(#[trigger] m.activity_days.contains(day))
                &&& k != id.0 ==> (next.records.members.contains_key(k)
                    <==> program.records.members.contains_key(k)) && next.records.members[k]
                    == program.records.members[k]
                &&& only_members_differ(program, next)
                &&& next.revision == program.revision + 1
                &&& next.last_event_at == at
            }
        }),
{
}

/// A change of status is the last of the member's changes, at its time; the earlier ones, and all
/// else of the member, stay as they were.
pub proof fn status_changes_are_appended(
    program: ProgramModel,
    id: MemberId,
    status: MembershipStatus,
    at: CanonicalTime,
    k: u128,
)
    ensures
        ({
            let result = program.membership_set(id, status, at);
            let next = result->Ok_0;
            let was = program.records.members[id.0];
            let is = next.records.members[id.0];
            &&& result is Ok <==> program.records.members.contains_key(id.0) && at.0
                >= program.last_event_at.0 && program.revision < u64::MAX
            &&& result is Ok ==> {
                &&& next.records.members.contains_key(id.0)
                &&& is.changes.len() == was.changes.len() + 1
                &&& is.changes.last().0 == at && is.changes.last().1 == status
                &&& forall|i: int|
                    0 <= i < was.changes.len() ==> #[trigger] is.changes[i] == was.changes[i]
                &&& is.id == was.id && is.identity_digest == was.identity_digest && is.joined_at
                    == was.joined_at && is.activity_days == was.activity_days
                &&& k != id.0 ==> (next.records.members.contains_key(k)
                    <==> program.records.members.contains_key(k)) && next.records.members[k]
                    == program.records.members[k]
                &&& only_members_differ(program, next)
                &&& next.revision == program.revision + 1
                &&& next.last_event_at == at
            }
        }),
{
}

/// Activity counts for the day that its time falls on: a day of 86 400 000 milliseconds.
pub proof fn activity_counts_for_its_day(
    program: ProgramModel,
    id: MemberId,
    at: CanonicalTime,
    k: u128,
    day: u64,
)
    ensures
        ({
            let result = program.activity_recorded(id, at);
            let next = result->Ok_0;
            let was = program.records.members[id.0];
            let is = next.records.members[id.0];
            &&& result is Ok <==> program.records.members.contains_key(id.0) && at.0
                >= program.last_event_at.0 && program.revision < u64::MAX
            &&& result is Ok ==> {
                &&& next.records.members.contains_key(id.0)
                &&& is.activity_days.contains(day) <==> was.activity_days.contains(day) || (day
                    * 86_400_000 <= at.0 && at.0 < (day + 1) * 86_400_000)
                &&& is.id == was.id && is.identity_digest == was.identity_digest && is.joined_at
                    == was.joined_at && is.changes == was.changes
                &&& k != id.0 ==> (next.records.members.contains_key(k)
                    <==> program.records.members.contains_key(k)) && next.records.members[k]
                    == program.records.members[k]
                &&& only_members_differ(program, next)
                &&& next.revision == program.revision + 1
                &&& next.last_event_at == at
            }
        }),
{
    let t = at.0 as int;
    let d = day as int;
    assert(t / 86_400_000 == d <==> d * 86_400_000 <= t && t < (d + 1) * 86_400_000);
}

/// A new forfeiture is taken in as a pending lot, held exactly if it is to be reviewed, and its
/// amount moves from the clearing account of its capture to that of the pending lot, and nowhere
/// else.
pub proof fn forfeitures_become_pending_lots(
    program: ProgramModel,
    source: Forfeiture,
    at: CanonicalTime,
    k: u128,
    a: Account,
)
    requires
        !program.records.funding.contains_key(source.id.0),
        program.forfeited(source, at) is Ok,
    ensures
        ({
            let next = program.forfeited(source, at)->Ok_0;
            let lot = next.records.funding[source.id.0];
            let moved = balance_in(next.ledger.balances, a) - balance_in(
                program.ledger.balances,
                a,
            );
            &&& source.terms.corporate_basis_points <= 10_000
            &&& source.terms.scope == program.scope
            &&& source.unit == program.unit
            &&& source.forfeited_at.0 <= at.0
            &&& next.records.funding.contains_key(source.id.0)
            &&& lot.source == source
            &&& lot.lifecycle == LotLifecycle::Pending { held: source.requires_review }
            &&& k != source.id.0 ==> (next.records.funding.contains_key(k)
                <==> program.records.funding.contains_key(k)) && next.records.funding[k]
                == program.records.funding[k]
            &&& only_lots_differ(program, next)
            &&& next.revision == program.revision + 1
            &&& next.last_event_at.0 >= at.0 && next.last_event_at.0 >= program.last_event_at.0
            &&& next.last_event_at == at || next.last_event_at == program.last_event_at
            &&& match a {
                Account::ProgramClearing(p) => moved == if p == source.id {
                    -(source.amount.0 as int)
                } else {
                    0
                },
                Account::PendingForfeiture(p) => moved == if p == source.id {
                    source.amount.0 as int
                } else {
                    0
                },
                _ => moved == 0,
            }
        }),
{
    let next = program.forfeited(source, at)->Ok_0;
    let ts = next.journal.last().transfers;
    posting_changes_balances(program.ledger.balances, program.ledger.revision, ts, a);
    reveal_with_fuel(net, 3);
}

/// A lot that no distribution has assessed can be held and let go again, which takes any clearance
/// back; no money moves.
pub proof fn holds_stop_lots(
    program: ProgramModel,
    id: PaymentOperationId,
    hold: bool,
    at: CanonicalTime,
    k: u128,
)
    ensures
        ({
            let result = program.hold_set(id, hold, at);
            let next = result->Ok_0;
            let was = program.records.funding[id.0];
            &&& result is Ok <==> program.records.funding.contains_key(id.0) && !(
            was.lifecycle is Assessed) && at.0 >= program.last_event_at.0 && program.revision
                < u64::MAX
            &&& result is Ok && was.source.id == id ==> {
                &&& next.records.funding.contains_key(id.0)
                &&& next.records.funding[id.0].source == was.source
                &&& next.records.funding[id.0].lifecycle == LotLifecycle::Pending { held: hold }
                &&& k != id.0 ==> (next.records.funding.contains_key(k)
                    <==> program.records.funding.contains_key(k)) && next.records.funding[k]
                    == program.records.funding[k]
                &&& only_lots_differ(program, next)
                &&& next.ledger == program.ledger && next.journal == program.journal
                &&& next.revision == program.revision + 1
                &&& next.last_event_at == at
            }
        }),
{
}

/// A lot is cleared only on evidence, when it is not held nor assessed, and not before the maturity
/// delay after its forfeiture is over; the clearance notes when and on what evidence. No money
/// moves.
pub proof fn lots_clear_when_mature(
    program: ProgramModel,
    id: PaymentOperationId,
    evidence: FinancialEventId,
    at: CanonicalTime,
    k: u128,
)
    ensures
        ({
            let result = program.maturity_cleared(id, evidence, at);
            let next = result->Ok_0;
            let was = program.records.funding[id.0];
            let mature = was.source.forfeited_at.0 + was.source.terms.maturity_delay.0;
            let free = was.lifecycle == (LotLifecycle::Pending { held: false })
                || was.lifecycle is Cleared;
            &&& result is Ok <==> program.records.funding.contains_key(id.0) && free && evidence.0
                != 0 && mature <= at.0 && at.0 >= program.last_event_at.0 && program.revision
                < u64::MAX
            &&& result is Ok && was.source.id == id ==> {
                let is = next.records.funding[id.0];
                &&& next.records.funding.contains_key(id.0)
                &&& is.source == was.source
                &&& is.lifecycle is Cleared
                &&& is.lifecycle->Cleared_0.at == at
                &&& is.lifecycle->Cleared_0.evidence == evidence
                &&& k != id.0 ==> (next.records.funding.contains_key(k)
                    <==> program.records.funding.contains_key(k)) && next.records.funding[k]
                    == program.records.funding[k]
                &&& only_lots_differ(program, next)
                &&& next.ledger == program.ledger && next.journal == program.journal
                &&& next.revision == program.revision + 1
                &&& next.last_event_at == at
            }
        }),
{
}

/// A reversal holds the lot of the reversed capture where no distribution has assessed it yet, and
/// leaves it alone where one has. No money moves.
pub proof fn reversals_hold_what_is_not_assessed(
    program: ProgramModel,
    id: PaymentOperationId,
    at: CanonicalTime,
    k: u128,
)
    ensures
        ({
            let result = program.reversal_noted(id, at);
            let next = result->Ok_0;
            let was = program.records.funding[id.0];
            &&& result is Ok <==> program.records.funding.contains_key(id.0) && program.revision
                < u64::MAX
            &&& result is Ok && was.source.id == id ==> {
                let is = next.records.funding[id.0];
                &&& next.records.funding.contains_key(id.0)
                &&& is.source == was.source
                &&& was.lifecycle is Assessed ==> is.lifecycle == was.lifecycle
                &&& !(was.lifecycle is Assessed) ==> is.lifecycle == LotLifecycle::Pending {
                    held: true,
                }
                &&& k != id.0 ==> (next.records.funding.contains_key(k)
                    <==> program.records.funding.contains_key(k)) && next.records.funding[k]
                    == program.records.funding[k]
                &&& only_lots_differ(program, next)
                &&& next.ledger == program.ledger && next.journal == program.journal
                &&& next.revision == program.revision + 1
                &&& next.last_event_at.0 >= at.0 && next.last_event_at.0 >= program.last_event_at.0
            }
        }),
{
}

/// Years are published in advance, each once, and never two that share a time; a year asks for some
/// activity. Nothing else changes.
pub proof fn published_years_share_no_time(
    program: ProgramModel,
    schedule: AnnualDistributionSchedule,
    at: CanonicalTime,
    k: u128,
    t: int,
)
    requires
        !program.records.schedules.contains_key(schedule.id.0),
        program.published(schedule, at) is Ok,
    ensures
        ({
            let next = program.published(schedule, at)->Ok_0;
            let other = program.records.schedules[k];
            &&& program.complete
            &&& at.0 >= program.last_event_at.0
            &&& at.0 <= schedule.start.0
            &&& schedule.start.0 < schedule.cutoff.0
            &&& schedule.eligibility.minimum_active_days > 0
            &&& program.records.schedules.contains_key(k) ==> !(other.start.0 <= t && t
                < other.cutoff.0 && schedule.start.0 <= t && t < schedule.cutoff.0)
            &&& next.records.schedules.contains_key(schedule.id.0)
            &&& next.records.schedules[schedule.id.0] == schedule
            &&& k != schedule.id.0 ==> (next.records.schedules.contains_key(k)
                <==> program.records.schedules.contains_key(k)) && next.records.schedules[k]
                == program.records.schedules[k]
            &&& next.records.members == program.records.members
            &&& next.records.funding == program.records.funding
            &&& next.records.payables == program.records.payables
            &&& next.records.annual_allocations == program.records.annual_allocations
            &&& next.ledger == program.ledger && next.journal == program.journal
            &&& next.scope == program.scope && next.unit == program.unit && next.complete
                == program.complete
            &&& next.revision == program.revision + 1
            &&& next.last_event_at == at
        }),
{
}

/// A correction owes a member of the program an amount more, at the company's loss, for a year that
/// was closed and under that year's payment terms. Everything else that is owed stays.
pub proof fn corrections_are_the_companys_loss(
    program: ProgramModel,
    event: FinancialEventId,
    member: MemberId,
    distribution: AnnualDistributionId,
    amount: Money,
    reason: Seq<char>,
    at: CanonicalTime,
    a: Account,
)
    requires
        program.compensated(event, member, distribution, amount, reason, at) is Ok,
    ensures
        ({
            let next = program.compensated(event, member, distribution, amount, reason, at)->Ok_0;
            let moved = balance_in(next.ledger.balances, a) - balance_in(
                program.ledger.balances,
                a,
            );
            &&& program.complete
            &&& at.0 >= program.last_event_at.0
            &&& event.0 != 0
            &&& amount.0 > 0
            &&& reason.len() > 0
            &&& program.records.members.contains_key(member.0)
            &&& program.records.annual_allocations.contains_key(distribution.0)
            &&& only_payables_differ(program, next)
            &&& next.revision == program.revision + 1
            &&& next.last_event_at == at
            &&& exists|p: u128| #[trigger]
                next.records.payables.contains_key(p) && !program.records.payables.contains_key(p)
                    && {
                    let owed = next.records.payables[p];
                    &&& owed.id.0 == p
                    &&& owed.member == member
                    &&& owed.distribution == distribution
                    &&& owed.amount == amount
                    &&& owed.terms
                        == program.records.annual_allocations[distribution.0].schedule.payment
                    &&& owed.scope == program.scope
                    &&& owed.unit == program.unit
                    &&& owed.payment is None
                    &&& owed.correction == Some(event)
                    &&& forall|k: u128|
                        k != p ==> (#[trigger] next.records.payables.contains_key(k)
                            <==> program.records.payables.contains_key(k))
                            && next.records.payables[k] == program.records.payables[k]
                    &&& match a {
                        Account::CorporateLossClearing => moved == -(amount.0 as int),
                        Account::MemberPayable(q) => moved == if q.0 == p {
                            amount.0 as int
                        } else {
                            0
                        },
                        _ => moved == 0,
                    }
                }
        }),
{
    let next = program.compensated(event, member, distribution, amount, reason, at)->Ok_0;
    let p = program.correction(event, member, distribution, amount).id.0;
    assert(reason.len() > 0);
    let ts = next.journal.last().transfers;
    posting_changes_balances(program.ledger.balances, program.ledger.revision, ts, a);
    reveal_with_fuel(net, 3);
    assert(next.records.payables.contains_key(p));
}

/// A payout that is prepared changes nothing but the allocation that it pays, moves no money, and
/// is for the whole of what that allocation owes its member.
pub proof fn payouts_are_of_what_is_owed(
    program: ProgramModel,
    id: AllocationId,
    bank: BankVerification,
    at: CanonicalTime,
    k: u128,
)
    requires
        program.payment_prepared(id, bank, at) is Ok,
        program.records.payables[id.0].check(program.scope, program.unit) is Ok,
    ensures
        ({
            let (next, operation) = program.payment_prepared(id, bank, at)->Ok_0;
            let owed = program.records.payables[id.0];
            &&& program.records.payables.contains_key(id.0)
            &&& at.0 >= program.last_event_at.0
            &&& at.0 >= owed.terms.due_at.0
            &&& bank.member == owed.member
            &&& operation matches Some(o) ==> o.amount == owed.amount && o.unit == program.unit
                && o.scope == program.scope && o.destination == bank.bank_token && o.kind
                == PaymentKind::MemberPayout { allocation: owed.id }
            &&& next.records.payables.contains_key(id.0)
            &&& next.records.payables[id.0].amount == owed.amount
            &&& next.records.payables[id.0].member == owed.member
            &&& k != id.0 ==> (next.records.payables.contains_key(k)
                <==> program.records.payables.contains_key(k)) && next.records.payables[k]
                == program.records.payables[k]
            &&& only_payables_differ(program, next)
            &&& next.ledger == program.ledger && next.journal == program.journal
            &&& next.revision == program.revision + 1
            &&& next.last_event_at == at
        }),
{
    super::payable::payouts_go_to_the_member_when_due(program.records.payables[id.0], bank, at);
}

/// A receipt for a payout takes what is paid off what the member is owed as the payment settles,
/// puts it back as the payment is reversed, and otherwise leaves every balance alone.
pub proof fn payout_receipts_move_what_is_owed(
    program: ProgramModel,
    id: AllocationId,
    receipt: SignedPaymentEvidence,
    key: [u8; 32],
    at: CanonicalTime,
    k: u128,
    a: Account,
)
    requires
        program.payout_confirmed(id, receipt, key, at) is Ok,
        program.records.payables[id.0].payment is Some,
        program.records.payables[id.0].payment->Some_0.consistent(),
        program.records.payables[id.0].id == id,
    ensures
        ({
            let next = program.payout_confirmed(id, receipt, key, at)->Ok_0;
            let owed = program.records.payables[id.0];
            let was = owed.payment->Some_0.attempts.last().state;
            let is = next.records.payables[id.0].payment->Some_0.attempts.last().state;
            let paid: int = if is is Settled && !(was is Settled) {
                owed.amount.0 as int
            } else if is is Reversed && !(was is Reversed) {
                -(owed.amount.0 as int)
            } else {
                0
            };
            let moved = balance_in(next.ledger.balances, a) - balance_in(
                program.ledger.balances,
                a,
            );
            &&& program.records.payables.contains_key(id.0)
            &&& next.records.payables.contains_key(id.0)
            &&& moved == match a {
                Account::MemberPayable(p) => if p == id {
                    -paid
                } else {
                    0
                },
                Account::ProcessorClearing => paid,
                _ => 0,
            }
            &&& k != id.0 ==> (next.records.payables.contains_key(k)
                <==> program.records.payables.contains_key(k)) && next.records.payables[k]
                == program.records.payables[k]
            &&& only_payables_differ(program, next)
        }),
{
    let next = program.payout_confirmed(id, receipt, key, at)->Ok_0;
    let owed = program.records.payables[id.0];
    super::payable::payout_receipts_settle_what_is_owed(owed, receipt, key);
    let (payable, transfers) = owed.receipted(receipt, key)->Ok_0;
    reveal_with_fuel(net, 3);
    if payable != owed && transfers.len() != 0 {
        posting_changes_balances(
            program.ledger.balances,
            program.ledger.revision,
            transfers,
            a,
        );
    }
    if payable == owed {
        let payment = owed.payment->Some_0;
        let (again, change) = payment.recorded(receipt, key)->Ok_0;
        super::execution::value_is_supplied_once(payment, receipt, key);
    }
}

/// A correction says why: its reason has something in it that is not white space, and is at most two
/// thousand bytes long.
pub proof fn corrections_say_why(
    program: ProgramModel,
    event: FinancialEventId,
    member: MemberId,
    distribution: AnnualDistributionId,
    amount: Money,
    reason: Seq<char>,
    at: CanonicalTime,
)
    requires
        program.compensated(event, member, distribution, amount, reason, at) is Ok,
    ensures
        utf8(reason).len() <= 2000,
        exists|i: int|
            0 <= i < reason.len() && {
                let u = #[trigger] reason[i] as u32;
                !((0x09 <= u && u <= 0x0d) || u == 0x20 || u == 0x85 || u == 0xa0 || u == 0x1680 || (
                0x2000 <= u && u <= 0x200a) || u == 0x2028 || u == 0x2029 || u == 0x202f || u
                    == 0x205f || u == 0x3000)
            },
{
    let i = choose|i: int|
        0 <= i < reason.len() && !super::program::white_space(#[trigger] reason[i]);
    assert(!super::program::white_space(reason[i]));
}

/// A program is taken in as it was stored: only with a ledger in its unit, whose balances make
/// nothing together, and with records without a fault; and then with all of what was stored.
pub proof fn programs_are_restored_as_stored(
    metadata: ProgramMetadata,
    records: RecordsModel,
    ledger: LedgerModel,
    journal: Seq<JournalModel>,
    complete: bool,
)
    requires
        ProgramModel::restored(metadata, records, ledger, journal, complete) is Ok,
    ensures
        ({
            let program = ProgramModel::restored(metadata, records, ledger, journal, complete)->Ok_0;
            &&& ledger.unit == metadata.unit
            &&& total(ledger.balances) == 0
            &&& records_fault(metadata, records, ledger.balances) is None
            &&& program.scope == metadata.scope
            &&& program.unit == metadata.unit
            &&& program.revision == metadata.revision
            &&& program.last_event_at == metadata.last_event_at
            &&& program.complete == complete
            &&& program.ledger == ledger
            &&& program.records == records
            &&& program.journal == journal
        }),
{
}

} // verus!
