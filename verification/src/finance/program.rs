//! The company-owned member program: forfeited amounts, members, schedules and allocations.

use super::bank::{BankVerification, VerifiedBankAccount};
use super::distribution::{AnnualAllocation, AnnualDistributionSchedule};
use super::lot::{Forfeiture, ForfeitureLot, LotLifecycle};
use super::membership::{Member, MemberModel};
use super::payable::{MemberPayable, PayableModel};
use super::payments::{PaymentOperation, SignedPaymentEvidence};
use super::records::{
    check_records, faultless_records_are_sound, lemma_model_keys, no_records, payable_models, records_fault, JournalModel,
    ProgramJournalEntry, ProgramMetadata, ProgramOwner, ProgramRecords, RecordsModel,
};
use super::scope::FinancialScope;
use super::terms::{IntentionalActivity, MembershipStatus, ProgramError, DAY_MILLIS};
use crate::bytes::{be_bytes, is_zero_32, push_all, push_be, push_text, same_32, utf8, zero_32};
use crate::crypto::{digest_id, id_of};
use crate::ledger::{
    audit, with_transfer, Account, LedgerBatch, LedgerModel, LedgerState, LedgerView, Transfer,
};
use crate::maps::{add_day, holds, keys_in_order, keys_of, lookup, put, sorted_keys};
use crate::primitives::amounts::{CanonicalTime, Money, SettlementUnit};
use crate::primitives::ids::{
    AllocationId, AnnualDistributionId, FinancialEventId, MemberId, PaymentOperationId,
};
use std::collections::BTreeSet;
use vstd::prelude::*;

verus! {

#[derive(Debug, PartialEq, Eq)]
pub struct FinancialProgram {
    pub scope: FinancialScope,
    pub unit: SettlementUnit,
    pub revision: u64,
    pub complete: bool,
    pub ledger: LedgerState,
    pub records: ProgramRecords,
    pub journal: Vec<ProgramJournalEntry>,
    pub last_event_at: CanonicalTime,
}

pub ghost struct ProgramModel {
    pub scope: FinancialScope,
    pub unit: SettlementUnit,
    pub revision: u64,
    pub complete: bool,
    pub ledger: LedgerModel,
    pub records: RecordsModel,
    pub journal: Seq<JournalModel>,
    pub last_event_at: CanonicalTime,
}

/// Journal entries by their models.
pub open spec fn journal_models(entries: Seq<ProgramJournalEntry>) -> Seq<JournalModel> {
    Seq::new(entries.len(), |i: int| entries[i]@)
}

fn copy_journal(entries: &Vec<ProgramJournalEntry>) -> (copy: Vec<ProgramJournalEntry>)
    ensures
        journal_models(copy@) == journal_models(entries@),
{
    let mut copy: Vec<ProgramJournalEntry> = Vec::new();
    let mut i: usize = 0;
    while i < entries.len()
        invariant
            0 <= i <= entries@.len(),
            copy@.len() == i,
            forall|j: int| 0 <= j < i ==> (#[trigger] copy@[j])@ == entries@[j]@,
        decreases entries@.len() - i,
    {
        copy.push(entries[i].clone());
        i += 1;
    }
    assert(journal_models(copy@) =~= journal_models(entries@));
    copy
}

impl Clone for FinancialProgram {
    fn clone(&self) -> (copy: Self)
        ensures
            copy@ == self@,
    {
        FinancialProgram {
            scope: self.scope,
            unit: self.unit,
            revision: self.revision,
            complete: self.complete,
            ledger: self.ledger.clone(),
            records: self.records.clone(),
            journal: copy_journal(&self.journal),
            last_event_at: self.last_event_at,
        }
    }
}

impl View for FinancialProgram {
    type V = ProgramModel;

    open spec fn view(&self) -> ProgramModel {
        ProgramModel {
            scope: self.scope,
            unit: self.unit,
            revision: self.revision,
            complete: self.complete,
            ledger: self.ledger.view@,
            records: self.records@,
            journal: journal_models(self.journal@),
            last_event_at: self.last_event_at,
        }
    }
}

/// A program without records.
pub open spec fn empty_program(scope: FinancialScope, unit: SettlementUnit) -> ProgramModel {
    ProgramModel {
        scope,
        unit,
        revision: 0,
        complete: true,
        ledger: LedgerModel { revision: 0, unit, balances: Seq::empty() },
        records: no_records(),
        journal: Seq::empty(),
        last_event_at: CanonicalTime(0),
    }
}

/// The later of two times.
pub open spec fn later(a: CanonicalTime, b: CanonicalTime) -> CanonicalTime {
    if a.0 >= b.0 {
        a
    } else {
        b
    }
}

/// A code point with the Unicode property White_Space.
pub open spec fn white_space(c: char) -> bool {
    let u = c as u32;
    (0x09 <= u <= 0x0d) || u == 0x20 || u == 0x85 || u == 0xa0 || u == 0x1680 || (0x2000 <= u
        <= 0x200a) || u == 0x2028 || u == 0x2029 || u == 0x202f || u == 0x205f || u == 0x3000
}

/// Nothing but white space.
pub open spec fn blank(text: Seq<char>) -> bool {
    forall|i: int| 0 <= i < text.len() ==> white_space(#[trigger] text[i])
}

/// What the identifier of a correction is made of.
pub open spec fn correction_bytes(
    scope: FinancialScope,
    unit: SettlementUnit,
    event: FinancialEventId,
) -> Seq<u8> {
    utf8("cs-mail/member-correction/v2"@) + scope.canonical() + be_bytes(unit.0 as nat, 4)
        + be_bytes(event.0 as nat, 16)
}

/// The identifier of a correction.
pub open spec fn correction_id(
    scope: FinancialScope,
    unit: SettlementUnit,
    event: FinancialEventId,
) -> AllocationId {
    AllocationId(digest_id(correction_bytes(scope, unit, event)))
}

impl ProgramModel {
    /// The program with one more change, at a time.
    pub open spec fn stamped(self, at: CanonicalTime) -> Self {
        ProgramModel { revision: (self.revision + 1) as u64, last_event_at: at, ..self }
    }

    /// A change that takes effect as a whole: refused if time would go back, if the change itself
    /// is refused, or if there is no further revision.
    pub open spec fn atomic(self, at: CanonicalTime, changed: Result<Self, ProgramError>) -> Result<
        Self,
        ProgramError,
    > {
        if at.0 < self.last_event_at.0 {
            Err(ProgramError::TimeRegression)
        } else {
            match changed {
                Err(e) => Err(e),
                Ok(next) => if self.revision == u64::MAX {
                    Err(ProgramError::ArithmeticOverflow)
                } else {
                    Ok(next.stamped(at))
                },
            }
        }
    }

    /// The program with transfers posted and entered in the journal.
    pub open spec fn posting(
        self,
        at: CanonicalTime,
        cause: FinancialEventId,
        transfers: Seq<Transfer>,
    ) -> Result<Self, ProgramError> {
        match self.ledger.applied(transfers) {
            Err(e) => Err(ProgramError::Ledger(e)),
            Ok(ledger) => Ok(
                ProgramModel {
                    ledger,
                    journal: self.journal.push(JournalModel { at, cause, transfers }),
                    ..self
                },
            ),
        }
    }

    pub open spec fn with_lot(self, lot: ForfeitureLot) -> Self {
        ProgramModel {
            records: RecordsModel {
                funding: self.records.funding.insert(lot.source.id.0, lot),
                ..self.records
            },
            ..self
        }
    }

    pub open spec fn with_member(self, id: u128, member: MemberModel) -> Self {
        ProgramModel {
            records: RecordsModel {
                members: self.records.members.insert(id, member),
                ..self.records
            },
            ..self
        }
    }

    pub open spec fn with_payable(self, id: u128, payable: PayableModel) -> Self {
        ProgramModel {
            records: RecordsModel {
                payables: self.records.payables.insert(id, payable),
                ..self.records
            },
            ..self
        }
    }

    /// The program after a forfeiture is recorded.
    pub open spec fn forfeited(self, source: Forfeiture, at: CanonicalTime) -> Result<
        Self,
        ProgramError,
    > {
        if self.records.funding.contains_key(source.id.0) {
            if self.records.funding[source.id.0].source == source {
                Ok(self)
            } else {
                Err(ProgramError::DuplicateConflict)
            }
        } else {
            let lot = ForfeitureLot {
                source,
                lifecycle: LotLifecycle::Pending { held: source.requires_review },
            };
            let transfers = with_transfer(
                Seq::empty(),
                Account::ProgramClearing(source.id),
                Account::PendingForfeiture(source.id),
                source.amount,
            );
            self.atomic(
                later(at, self.last_event_at),
                if !source.terms.valid() || source.terms.scope != self.scope || source.unit
                    != self.unit || source.forfeited_at.0 > at.0 {
                    Err(ProgramError::InvalidPolicy)
                } else {
                    self.with_lot(lot).posting(at, FinancialEventId(source.id.0), transfers)
                },
            )
        }
    }

    /// The program after a lot has changed.
    pub open spec fn lot_changed(
        self,
        id: PaymentOperationId,
        lot: Result<ForfeitureLot, ProgramError>,
    ) -> Result<Self, ProgramError> {
        if !self.records.funding.contains_key(id.0) {
            Err(ProgramError::MissingRecord)
        } else {
            match lot {
                Err(e) => Err(e),
                Ok(next) => Ok(self.with_lot(next)),
            }
        }
    }

    /// The program after a review hold is set or lifted.
    pub open spec fn hold_set(self, id: PaymentOperationId, hold: bool, at: CanonicalTime) -> Result<
        Self,
        ProgramError,
    > {
        self.atomic(at, self.lot_changed(id, self.records.funding[id.0].held(hold)))
    }

    /// The program after a lot is cleared as mature.
    pub open spec fn maturity_cleared(
        self,
        id: PaymentOperationId,
        evidence: FinancialEventId,
        at: CanonicalTime,
    ) -> Result<Self, ProgramError> {
        self.atomic(at, self.lot_changed(id, self.records.funding[id.0].cleared(evidence, at)))
    }

    /// The program after a reversal of a contribution is noted.
    pub open spec fn reversal_noted(self, id: PaymentOperationId, at: CanonicalTime) -> Result<
        Self,
        ProgramError,
    > {
        let lot = self.records.funding[id.0];
        self.atomic(
            later(at, self.last_event_at),
            self.lot_changed(
                id,
                if lot.lifecycle is Assessed {
                    Ok(lot)
                } else {
                    lot.held(true)
                },
            ),
        )
    }

    /// Some member has this identity.
    pub open spec fn identity_known(self, digest: [u8; 32]) -> bool {
        exists|k: u128| #[trigger]
            self.records.members.contains_key(k) && self.records.members[k].identity_digest
                == digest
    }

    /// The program after a member is enrolled.
    pub open spec fn enrolled(
        self,
        id: MemberId,
        identity_digest: [u8; 32],
        status: MembershipStatus,
        at: CanonicalTime,
    ) -> Result<Self, ProgramError> {
        if !self.complete {
            Err(ProgramError::IncompleteSnapshot)
        } else {
            let member = MemberModel {
                id,
                identity_digest,
                joined_at: at,
                changes: seq![(at, status)],
                activity_days: Set::empty(),
            };
            self.atomic(
                at,
                if zero_32(identity_digest) || self.records.members.contains_key(id.0)
                    || self.identity_known(identity_digest) {
                    Err(ProgramError::DuplicateConflict)
                } else {
                    Ok(self.with_member(id.0, member))
                },
            )
        }
    }

    /// The program after a member's status changes.
    pub open spec fn membership_set(
        self,
        id: MemberId,
        status: MembershipStatus,
        at: CanonicalTime,
    ) -> Result<Self, ProgramError> {
        let member = self.records.members[id.0];
        self.atomic(
            at,
            if !self.records.members.contains_key(id.0) {
                Err(ProgramError::MissingRecord)
            } else {
                Ok(
                    self.with_member(
                        id.0,
                        MemberModel { changes: member.changes.push((at, status)), ..member },
                    ),
                )
            },
        )
    }

    /// The program after a day of activity is recorded.
    pub open spec fn activity_recorded(self, id: MemberId, at: CanonicalTime) -> Result<
        Self,
        ProgramError,
    > {
        let member = self.records.members[id.0];
        self.atomic(
            at,
            if !self.records.members.contains_key(id.0) {
                Err(ProgramError::MissingRecord)
            } else {
                Ok(
                    self.with_member(
                        id.0,
                        MemberModel {
                            activity_days: member.activity_days.insert(
                                (at.0 / DAY_MILLIS) as u64,
                            ),
                            ..member
                        },
                    ),
                )
            },
        )
    }

    /// Some schedule overlaps this one.
    pub open spec fn overlapped(self, schedule: AnnualDistributionSchedule) -> bool {
        exists|k: u128| #[trigger]
            self.records.schedules.contains_key(k) && self.records.schedules[k].start.0
                < schedule.cutoff.0 && schedule.start.0 < self.records.schedules[k].cutoff.0
    }

    /// The program after a schedule is published.
    pub open spec fn published(self, schedule: AnnualDistributionSchedule, at: CanonicalTime) -> Result<
        Self,
        ProgramError,
    > {
        if !self.complete {
            Err(ProgramError::IncompleteSnapshot)
        } else if self.records.schedules.contains_key(schedule.id.0) {
            if self.records.schedules[schedule.id.0] == schedule {
                Ok(self)
            } else {
                Err(ProgramError::DuplicateConflict)
            }
        } else {
            self.atomic(
                at,
                if !schedule.calendar_year() || at.0 > schedule.start.0 || schedule.start.0
                    >= schedule.cutoff.0 || schedule.eligibility.minimum_active_days == 0
                    || self.overlapped(schedule) {
                    Err(ProgramError::InvalidPolicy)
                } else {
                    Ok(
                        ProgramModel {
                            records: RecordsModel {
                                schedules: self.records.schedules.insert(schedule.id.0, schedule),
                                ..self.records
                            },
                            ..self
                        },
                    )
                },
            )
        }
    }

    /// The program after a payment is prepared, and the operation to carry out.
    pub open spec fn payment_prepared(
        self,
        id: AllocationId,
        bank: BankVerification,
        at: CanonicalTime,
    ) -> Result<(Self, Option<PaymentOperation>), ProgramError> {
        if at.0 < self.last_event_at.0 {
            Err(ProgramError::TimeRegression)
        } else if !self.records.payables.contains_key(id.0) {
            Err(ProgramError::MissingRecord)
        } else {
            match self.records.payables[id.0].prepared(bank, at) {
                Err(e) => Err(e),
                Ok((payable, operation)) => if self.revision == u64::MAX {
                    Err(ProgramError::ArithmeticOverflow)
                } else {
                    Ok((self.with_payable(id.0, payable).stamped(at), operation))
                },
            }
        }
    }

    /// The program after a receipt for a payout.
    pub open spec fn payout_confirmed(
        self,
        id: AllocationId,
        receipt: SignedPaymentEvidence,
        key: [u8; 32],
        at: CanonicalTime,
    ) -> Result<Self, ProgramError> {
        if !self.records.payables.contains_key(id.0) {
            Err(ProgramError::MissingRecord)
        } else {
            match self.records.payables[id.0].receipted(receipt, key) {
                Err(e) => Err(e),
                Ok((payable, transfers)) => if payable == self.records.payables[id.0] {
                    Ok(self)
                } else {
                    let changed = self.with_payable(id.0, payable);
                    self.atomic(
                        at,
                        if transfers.len() == 0 {
                            Ok(changed)
                        } else {
                            changed.posting(at, receipt.evidence.event_id, transfers)
                        },
                    )
                },
            }
        }
    }

    /// The new allocation that a correction makes.
    pub open spec fn correction(
        self,
        event: FinancialEventId,
        member: MemberId,
        distribution: AnnualDistributionId,
        amount: Money,
    ) -> PayableModel {
        PayableModel {
            id: correction_id(self.scope, self.unit, event),
            member,
            distribution,
            amount,
            terms: self.records.annual_allocations[distribution.0].schedule.payment,
            scope: self.scope,
            unit: self.unit,
            payment: None,
            correction: Some(event),
        }
    }

    /// The program after a member is compensated.
    pub open spec fn compensated(
        self,
        event: FinancialEventId,
        member: MemberId,
        distribution: AnnualDistributionId,
        amount: Money,
        reason: Seq<char>,
        at: CanonicalTime,
    ) -> Result<Self, ProgramError> {
        if !self.complete {
            Err(ProgramError::IncompleteSnapshot)
        } else {
            let payable = self.correction(event, member, distribution, amount);
            let transfers = with_transfer(
                Seq::empty(),
                Account::CorporateLossClearing,
                Account::MemberPayable(payable.id),
                amount,
            );
            self.atomic(
                at,
                if event.0 == 0 || amount.0 == 0 || blank(reason) || utf8(reason).len() > 2000
                    || !self.records.members.contains_key(member.0)
                    || !self.records.annual_allocations.contains_key(distribution.0) {
                    Err(ProgramError::InvalidPolicy)
                } else if self.records.payables.contains_key(payable.id.0) {
                    Err(ProgramError::DuplicateConflict)
                } else {
                    match payable.check(self.scope, self.unit) {
                        Err(e) => Err(e),
                        Ok(()) => self.with_payable(payable.id.0, payable).posting(
                            at,
                            event,
                            transfers,
                        ),
                    }
                },
            )
        }
    }

    /// What restoring a program from its parts gives.
    pub open spec fn restored(
        metadata: ProgramMetadata,
        records: RecordsModel,
        ledger: LedgerModel,
        journal: Seq<JournalModel>,
        complete: bool,
    ) -> Result<Self, ProgramError> {
        if ledger.unit != metadata.unit {
            Err(ProgramError::InvalidPolicy)
        } else {
            match audit(ledger.balances) {
                Err(e) => Err(ProgramError::Ledger(e)),
                Ok(_) => match records_fault(metadata, records, ledger.balances) {
                    Some(e) => Err(e),
                    None => Ok(
                        ProgramModel {
                            scope: metadata.scope,
                            unit: metadata.unit,
                            revision: metadata.revision,
                            complete,
                            ledger,
                            records,
                            journal,
                            last_event_at: metadata.last_event_at,
                        },
                    ),
                },
            }
        }
    }
}

/// Whether a text has nothing but white space in it.
pub fn is_blank(text: &str) -> (result: bool)
    ensures
        result == blank(text@),
{
    let mut i: usize = 0;
    let n: usize = text.unicode_len();
    while i < n
        invariant
            n == text@.len(),
            0 <= i <= n,
            forall|j: int| 0 <= j < i ==> white_space(#[trigger] text@[j]),
        decreases n - i,
    {
        let c = text.get_char(i);
        let u = c as u32;
        if !((0x09 <= u && u <= 0x0d) || u == 0x20 || u == 0x85 || u == 0xa0 || u == 0x1680 || (
        0x2000 <= u && u <= 0x200a) || u == 0x2028 || u == 0x2029 || u == 0x202f || u == 0x205f
            || u == 0x3000) {
            assert(!white_space(text@[i as int]));
            return false;
        }
        i += 1;
    }
    true
}


fn max_time(a: CanonicalTime, b: CanonicalTime) -> (time: CanonicalTime)
    ensures
        time == later(a, b),
{
    if a.0 >= b.0 {
        a
    } else {
        b
    }
}

proof fn lemma_journal_push(entries: Seq<ProgramJournalEntry>, entry: ProgramJournalEntry)
    ensures
        journal_models(entries.push(entry)) == journal_models(entries).push(entry@),
{
    assert(journal_models(entries.push(entry)) =~= journal_models(entries).push(entry@));
}

/// Putting in a record puts in its model.
proof fn lemma_put_member(map: Map<u128, Member>, id: u128, member: Member)
    ensures
        super::records::member_models(map.insert(id, member)) == super::records::member_models(
            map,
        ).insert(id, member@),
{
    assert(super::records::member_models(map.insert(id, member))
        =~= super::records::member_models(map).insert(id, member@));
}

proof fn lemma_put_payable(map: Map<u128, MemberPayable>, id: u128, payable: MemberPayable)
    ensures
        payable_models(map.insert(id, payable)) == payable_models(map).insert(id, payable@),
{
    assert(payable_models(map.insert(id, payable)) =~= payable_models(map).insert(id, payable@));
}

impl FinancialProgram {
    pub fn scope(&self) -> (scope: FinancialScope)
        ensures
            scope == self@.scope,
    {
        self.scope
    }

    pub fn unit(&self) -> (unit: SettlementUnit)
        ensures
            unit == self@.unit,
    {
        self.unit
    }

    pub fn revision(&self) -> (revision: u64)
        ensures
            revision == self@.revision,
    {
        self.revision
    }

    /// Restores a single selected owner; complete-program operations refuse this view.
    /// Inconsistent stored owner records and ledger values are refused.
    pub fn restore_owner(metadata: ProgramMetadata, owner: ProgramOwner, ledger: LedgerView) -> (result:
        Result<Self, ProgramError>)
        ensures
            match ProgramModel::restored(metadata, owner.records(), ledger@, Seq::empty(), false) {
                Ok(model) => result matches Ok(program) && program@ == model
                    && model.records.sound(),
                Err(e) => result == Err::<Self, ProgramError>(e),
            },
    {
        let mut records = ProgramRecords::default();
        let ghost wanted = owner.records();
        match owner {
            ProgramOwner::Metadata => {},
            ProgramOwner::Funding(id, value) => {
                if let Some(lot) = value {
                    put(&mut records.funding, id.0, lot);
                }
            },
            ProgramOwner::Member(id, value) => {
                if let Some(member) = value {
                    proof {
                        lemma_put_member(records.members@, id.0, member);
                    }
                    put(&mut records.members, id.0, member);
                }
            },
            ProgramOwner::Payable(id, value) => {
                if let Some(payable) = value {
                    proof {
                        lemma_put_payable(records.payables@, id.0, payable);
                    }
                    put(&mut records.payables, id.0, payable);
                }
            },
        }
        assert(records@ == wanted);
        let journal: Vec<ProgramJournalEntry> = Vec::new();
        assert(journal_models(journal@) =~= Seq::empty());
        match Self::restore(metadata, records, ledger, journal) {
            Ok(restored) => {
                let mut program = restored;
                program.complete = false;
                Ok(program)
            },
            Err(e) => Err(e),
        }
    }

    pub fn new(scope: FinancialScope, unit: SettlementUnit) -> (program: Self)
        ensures
            program@ == empty_program(scope, unit),
            program@.records.sound(),
    {
        let program = FinancialProgram {
            scope,
            unit,
            revision: 0,
            complete: true,
            ledger: LedgerState::new(unit),
            records: ProgramRecords::default(),
            journal: Vec::new(),
            last_event_at: CanonicalTime(0),
        };
        assert(program@.journal =~= Seq::empty());
        program
    }

    pub fn metadata(&self) -> (metadata: ProgramMetadata)
        ensures
            metadata == (ProgramMetadata {
                scope: self@.scope,
                unit: self@.unit,
                revision: self@.revision,
                last_event_at: self@.last_event_at,
            }),
    {
        ProgramMetadata {
            scope: self.scope,
            unit: self.unit,
            revision: self.revision,
            last_event_at: self.last_event_at,
        }
    }

    pub fn records(&self) -> (records: &ProgramRecords)
        ensures
            records@ == self@.records,
            *records == self.records,
    {
        &self.records
    }

    /// Assembles selected owners under the adapter's program lock. Journal history is loaded only
    /// for an audit snapshot; transitions start with an empty new-entry list. Invalid ledger
    /// balances, a mismatched unit and inconsistent records are refused.
    pub fn restore(
        metadata: ProgramMetadata,
        records: ProgramRecords,
        ledger: LedgerView,
        journal: Vec<ProgramJournalEntry>,
    ) -> (result: Result<Self, ProgramError>)
        ensures
            match ProgramModel::restored(
                metadata,
                records@,
                ledger@,
                journal_models(journal@),
                true,
            ) {
                Ok(model) => result matches Ok(program) && program@ == model
                    && model.records.sound(),
                Err(e) => result == Err::<Self, ProgramError>(e),
            },
    {
        if ledger.unit != metadata.unit {
            return Err(ProgramError::InvalidPolicy);
        }
        match ledger.total_value() {
            Err(e) => return Err(ProgramError::Ledger(e)),
            Ok(total) => {
                if total != Money(0) {
                    return Err(ProgramError::InvalidPayment);
                }
            },
        }
        match check_records(&metadata, &records, &ledger) {
            Some(e) => return Err(e),
            None => {},
        }
        proof {
            faultless_records_are_sound(metadata, records@, ledger.balances@);
        }
        Ok(
            FinancialProgram {
                scope: metadata.scope,
                unit: metadata.unit,
                revision: metadata.revision,
                complete: true,
                ledger: LedgerState::from_view(ledger),
                records,
                journal,
                last_event_at: metadata.last_event_at,
            },
        )
    }

    /// Takes a stored program back in, complete or not.
    pub fn restore_stored(
        metadata: ProgramMetadata,
        complete: bool,
        records: ProgramRecords,
        ledger: LedgerView,
        journal: Vec<ProgramJournalEntry>,
    ) -> (result: Result<Self, ProgramError>)
        ensures
            match ProgramModel::restored(
                metadata,
                records@,
                ledger@,
                journal_models(journal@),
                complete,
            ) {
                Ok(model) => result matches Ok(program) && program@ == model
                    && model.records.sound(),
                Err(e) => result == Err::<Self, ProgramError>(e),
            },
    {
        match Self::restore(metadata, records, ledger, journal) {
            Ok(restored) => {
                let mut program = restored;
                program.complete = complete;
                Ok(program)
            },
            Err(e) => Err(e),
        }
    }

    pub fn ledger(&self) -> (ledger: LedgerView)
        ensures
            ledger@ == self@.ledger,
    {
        self.ledger.view()
    }

    /// The allocations to members, in the order of their identifiers.
    pub fn payables(&self) -> (payables: Vec<&MemberPayable>)
        ensures
            ({
                let keys = sorted_keys(self@.records.payables);
                &&& payables@.len() == keys.len()
                &&& forall|i: int|
                    0 <= i < keys.len() ==> (#[trigger] payables@[i])@
                        == self@.records.payables[keys[i]]
            }),
    {
        let keys = keys_of(&self.records.payables);
        proof {
            lemma_model_keys(keys@, self.records.payables@, self@.records.payables);
        }
        let mut payables: Vec<&MemberPayable> = Vec::new();
        let mut i: usize = 0;
        while i < keys.len()
            invariant
                keys_in_order(keys@, self.records.payables@),
                keys@ == sorted_keys(self@.records.payables),
                0 <= i <= keys@.len(),
                payables@.len() == i,
                forall|j: int|
                    0 <= j < i ==> (#[trigger] payables@[j])@
                        == self@.records.payables[keys@[j]],
            decreases keys@.len() - i,
        {
            assert(self.records.payables@.contains_key(keys@[i as int]));
            match lookup(&self.records.payables, keys[i]) {
                Some(payable) => {
                    payables.push(payable);
                },
                None => {},
            }
            i += 1;
        }
        payables
    }

    pub fn distribution(&self, id: AnnualDistributionId) -> (allocation: Option<&AnnualAllocation>)
        ensures
            match allocation {
                Some(a) => self@.records.annual_allocations.contains_key(id.0)
                    && self@.records.annual_allocations[id.0] == a@,
                None => !self@.records.annual_allocations.contains_key(id.0),
            },
    {
        lookup(&self.records.annual_allocations, id.0)
    }

    pub fn journal(&self) -> (journal: &[ProgramJournalEntry])
        ensures
            journal_models(journal@) == self@.journal,
    {
        self.journal.as_slice()
    }

    /// Ingests a contribution exported atomically by a terminal request. Exact replay is
    /// harmless. Conflicting contributions, units, terms, or timing are refused.
    pub fn record_forfeiture(&mut self, source: Forfeiture, at: CanonicalTime) -> (result: Result<
        (),
        ProgramError,
    >)
        requires
            old(self)@.records.sound(),
        ensures
            match old(self)@.forfeited(source, at) {
                Ok(next) => result is Ok && final(self)@ == next && next.records.sound(),
                Err(e) => result == Err::<(), ProgramError>(e) && *final(self) == *old(self),
            },
    {
        match lookup(&self.records.funding, source.id.0) {
            Some(known) => {
                return if known.source.same(&source) {
                    Ok(())
                } else {
                    Err(ProgramError::DuplicateConflict)
                };
            },
            None => {},
        }
        let stamp = max_time(at, self.last_event_at);
        match source.terms.validate() {
            Ok(()) => {},
            Err(e) => return Err(e),
        }
        if !source.terms.scope.same(&self.scope) || source.unit != self.unit
            || source.forfeited_at.0 > at.0 {
            return Err(ProgramError::InvalidPolicy);
        }
        let mut batch = LedgerBatch::new();
        batch.transfer(
            Account::ProgramClearing(source.id),
            Account::PendingForfeiture(source.id),
            source.amount,
        );
        let ledger = match self.ledger.view.apply(&batch) {
            Ok(ledger) => ledger,
            Err(e) => return Err(ProgramError::Ledger(e)),
        };
        if self.revision == u64::MAX {
            return Err(ProgramError::ArithmeticOverflow);
        }
        let lot = ForfeitureLot {
            source,
            lifecycle: LotLifecycle::Pending { held: source.requires_review },
        };
        self.enter(at, FinancialEventId(source.id.0), batch, ledger);
        put(&mut self.records.funding, source.id.0, lot);
        self.stamp(stamp);
        Ok(())
    }

    /// Takes over a ledger and enters the batch that led to it in the journal.
    pub(crate) fn enter(
        &mut self,
        at: CanonicalTime,
        cause: FinancialEventId,
        batch: LedgerBatch,
        ledger: LedgerView,
    )
        ensures
            final(self)@ == (ProgramModel {
                ledger: ledger@,
                journal: old(self)@.journal.push(
                    JournalModel { at, cause, transfers: batch.transfers@ },
                ),
                ..old(self)@
            }),
            final(self).records == old(self).records,
            final(self).revision == old(self).revision,
    {
        let entry = ProgramJournalEntry { at, cause, batch };
        proof {
            lemma_journal_push(self.journal@, entry);
        }
        self.ledger = LedgerState::from_view(ledger);
        self.journal.push(entry);
    }

    pub(crate) fn stamp(&mut self, at: CanonicalTime)
        requires
            old(self).revision < u64::MAX,
        ensures
            final(self)@ == old(self)@.stamped(at),
    {
        self.revision = self.revision + 1;
        self.last_event_at = at;
    }

    /// Records a financial review hold; assessed funds cannot be silently clawed back. Requires an
    /// unassessed contribution and canonical ordering.
    pub fn set_hold(&mut self, id: PaymentOperationId, hold: bool, at: CanonicalTime) -> (result:
        Result<(), ProgramError>)
        requires
            old(self)@.records.sound(),
        ensures
            match old(self)@.hold_set(id, hold, at) {
                Ok(next) => result is Ok && final(self)@ == next && next.records.sound(),
                Err(e) => result == Err::<(), ProgramError>(e) && *final(self) == *old(self),
            },
    {
        if at.0 < self.last_event_at.0 {
            return Err(ProgramError::TimeRegression);
        }
        let mut lot = match lookup(&self.records.funding, id.0) {
            Some(lot) => *lot,
            None => return Err(ProgramError::MissingRecord),
        };
        match lot.set_hold(hold) {
            Ok(()) => {},
            Err(e) => return Err(e),
        }
        if self.revision == u64::MAX {
            return Err(ProgramError::ArithmeticOverflow);
        }
        put(&mut self.records.funding, id.0, lot);
        self.stamp(at);
        Ok(())
    }

    /// An authorized review attests that settlement and refund/dispute reserves are resolved. Held,
    /// immature, already assessed, or unidentified evidence is refused.
    pub fn clear_maturity(
        &mut self,
        id: PaymentOperationId,
        evidence: FinancialEventId,
        at: CanonicalTime,
    ) -> (result: Result<(), ProgramError>)
        requires
            old(self)@.records.sound(),
        ensures
            match old(self)@.maturity_cleared(id, evidence, at) {
                Ok(next) => result is Ok && final(self)@ == next && next.records.sound(),
                Err(e) => result == Err::<(), ProgramError>(e) && *final(self) == *old(self),
            },
    {
        if at.0 < self.last_event_at.0 {
            return Err(ProgramError::TimeRegression);
        }
        let mut lot = match lookup(&self.records.funding, id.0) {
            Some(lot) => *lot,
            None => return Err(ProgramError::MissingRecord),
        };
        match lot.clear(evidence, at) {
            Ok(()) => {},
            Err(e) => return Err(e),
        }
        if self.revision == u64::MAX {
            return Err(ProgramError::ArithmeticOverflow);
        }
        put(&mut self.records.funding, id.0, lot);
        self.stamp(at);
        Ok(())
    }

    /// Provider reversal evidence blocks an unassessed lot without clawing back member rights.
    /// Requires a known contribution.
    pub fn note_reversal(&mut self, id: PaymentOperationId, at: CanonicalTime) -> (result: Result<
        (),
        ProgramError,
    >)
        requires
            old(self)@.records.sound(),
        ensures
            match old(self)@.reversal_noted(id, at) {
                Ok(next) => result is Ok && final(self)@ == next && next.records.sound(),
                Err(e) => result == Err::<(), ProgramError>(e) && *final(self) == *old(self),
            },
    {
        let stamp = max_time(at, self.last_event_at);
        let mut lot = match lookup(&self.records.funding, id.0) {
            Some(lot) => *lot,
            None => return Err(ProgramError::MissingRecord),
        };
        if !matches!(lot.lifecycle, LotLifecycle::Assessed { .. }) {
            match lot.set_hold(true) {
                Ok(()) => {},
                Err(e) => return Err(e),
            }
        }
        if self.revision == u64::MAX {
            return Err(ProgramError::ArithmeticOverflow);
        }
        put(&mut self.records.funding, id.0, lot);
        self.stamp(stamp);
        Ok(())
    }

    fn knows_identity(&self, digest: &[u8; 32]) -> (known: bool)
        ensures
            known == self@.identity_known(*digest),
    {
        let keys = keys_of(&self.records.members);
        let mut i: usize = 0;
        while i < keys.len()
            invariant
                keys_in_order(keys@, self.records.members@),
                0 <= i <= keys@.len(),
                forall|j: int|
                    0 <= j < i ==> self.records.members@[#[trigger] keys@[j]].identity_digest
                        != *digest,
            decreases keys@.len() - i,
        {
            assert(self.records.members@.contains_key(keys@[i as int]));
            match lookup(&self.records.members, keys[i]) {
                Some(member) => {
                    if same_32(&member.identity_digest, digest) {
                        assert(self@.records.members.contains_key(keys@[i as int]));
                        return true;
                    }
                },
                None => {},
            }
            i += 1;
        }
        proof {
            assert forall|k: u128| #[trigger] self@.records.members.contains_key(k) implies self@.records.members[k].identity_digest
                != *digest by {
                assert(self.records.members@.contains_key(k));
                let j = choose|j: int| 0 <= j < keys@.len() && keys@[j] == k;
                assert(self.records.members@[keys@[j]].identity_digest != *digest);
            }
        }
        false
    }

    /// Enrolls one verified-person identity digest; aliases cannot create additional membership.
    /// Duplicate identifiers, duplicate identities, and backdated membership are refused.
    pub fn enroll(
        &mut self,
        id: MemberId,
        identity_digest: [u8; 32],
        status: MembershipStatus,
        at: CanonicalTime,
    ) -> (result: Result<(), ProgramError>)
        requires
            old(self)@.records.sound(),
        ensures
            match old(self)@.enrolled(id, identity_digest, status, at) {
                Ok(next) => result is Ok && final(self)@ == next && next.records.sound(),
                Err(e) => result == Err::<(), ProgramError>(e) && *final(self) == *old(self),
            },
    {
        if !self.complete {
            return Err(ProgramError::IncompleteSnapshot);
        }
        if at.0 < self.last_event_at.0 {
            return Err(ProgramError::TimeRegression);
        }
        if is_zero_32(&identity_digest) || holds(&self.records.members, id.0)
            || self.knows_identity(&identity_digest) {
            return Err(ProgramError::DuplicateConflict);
        }
        if self.revision == u64::MAX {
            return Err(ProgramError::ArithmeticOverflow);
        }
        let mut changes: Vec<(CanonicalTime, MembershipStatus)> = Vec::new();
        changes.push((at, status));
        let member = Member {
            id,
            identity_digest,
            joined_at: at,
            changes,
            activity_days: BTreeSet::new(),
        };
        proof {
            assert(member@.changes =~= seq![(at, status)]);
            lemma_put_member(self.records.members@, id.0, member);
        }
        put(&mut self.records.members, id.0, member);
        self.stamp(at);
        Ok(())
    }

    /// Changes a member's status. Requires an enrolled member and canonical ordering.
    pub fn set_membership(&mut self, id: MemberId, status: MembershipStatus, at: CanonicalTime) -> (result:
        Result<(), ProgramError>)
        requires
            old(self)@.records.sound(),
        ensures
            match old(self)@.membership_set(id, status, at) {
                Ok(next) => result is Ok && final(self)@ == next && next.records.sound(),
                Err(e) => result == Err::<(), ProgramError>(e) && final(self)@ == old(self)@,
            },
    {
        if at.0 < self.last_event_at.0 {
            return Err(ProgramError::TimeRegression);
        }
        let mut member = match lookup(&self.records.members, id.0) {
            Some(member) => member.clone(),
            None => return Err(ProgramError::MissingRecord),
        };
        if self.revision == u64::MAX {
            return Err(ProgramError::ArithmeticOverflow);
        }
        assert(self@.records.members.contains_key(id.0));
        member.changes.push((at, status));
        proof {
            lemma_put_member(self.records.members@, id.0, member);
        }
        put(&mut self.records.members, id.0, member);
        self.stamp(at);
        Ok(())
    }

    /// Records only the UTC day of authenticated intentional use, never correspondents or content.
    /// Requires an enrolled member and non-backdated evidence.
    pub fn record_activity(&mut self, id: MemberId, _kind: IntentionalActivity, at: CanonicalTime) -> (result:
        Result<(), ProgramError>)
        requires
            old(self)@.records.sound(),
        ensures
            match old(self)@.activity_recorded(id, at) {
                Ok(next) => result is Ok && final(self)@ == next && next.records.sound(),
                Err(e) => result == Err::<(), ProgramError>(e) && final(self)@ == old(self)@,
            },
    {
        if at.0 < self.last_event_at.0 {
            return Err(ProgramError::TimeRegression);
        }
        let mut member = match lookup(&self.records.members, id.0) {
            Some(member) => member.clone(),
            None => return Err(ProgramError::MissingRecord),
        };
        if self.revision == u64::MAX {
            return Err(ProgramError::ArithmeticOverflow);
        }
        assert(self@.records.members.contains_key(id.0));
        add_day(&mut member.activity_days, at.0 / DAY_MILLIS);
        proof {
            lemma_put_member(self.records.members@, id.0, member);
        }
        put(&mut self.records.members, id.0, member);
        self.stamp(at);
        Ok(())
    }

    fn overlaps(&self, schedule: &AnnualDistributionSchedule) -> (overlapping: bool)
        ensures
            overlapping == self@.overlapped(*schedule),
    {
        let keys = keys_of(&self.records.schedules);
        let mut i: usize = 0;
        while i < keys.len()
            invariant
                keys_in_order(keys@, self.records.schedules@),
                0 <= i <= keys@.len(),
                forall|j: int|
                    0 <= j < i ==> !(self.records.schedules@[#[trigger] keys@[j]].start.0
                        < schedule.cutoff.0 && schedule.start.0
                        < self.records.schedules@[keys@[j]].cutoff.0),
            decreases keys@.len() - i,
        {
            assert(self.records.schedules@.contains_key(keys@[i as int]));
            match lookup(&self.records.schedules, keys[i]) {
                Some(other) => {
                    if other.start.0 < schedule.cutoff.0 && schedule.start.0 < other.cutoff.0 {
                        assert(self@.records.schedules.contains_key(keys@[i as int]));
                        return true;
                    }
                },
                None => {},
            }
            i += 1;
        }
        proof {
            assert forall|k: u128| #[trigger] self@.records.schedules.contains_key(k) implies !(
            self@.records.schedules[k].start.0 < schedule.cutoff.0 && schedule.start.0
                < self@.records.schedules[k].cutoff.0) by {
                let j = choose|j: int| 0 <= j < keys@.len() && keys@[j] == k;
                assert(keys@[j] == k);
            }
        }
        false
    }

    /// Publishes an immutable calendar and eligibility policy before the period begins. Late
    /// publication, overlapping annual periods, and changed definitions are refused.
    pub fn publish_annual_distribution(
        &mut self,
        schedule: AnnualDistributionSchedule,
        at: CanonicalTime,
    ) -> (result: Result<(), ProgramError>)
        requires
            old(self)@.records.sound(),
        ensures
            match old(self)@.published(schedule, at) {
                Ok(next) => result is Ok && final(self)@ == next && next.records.sound(),
                Err(e) => result == Err::<(), ProgramError>(e) && *final(self) == *old(self),
            },
    {
        if !self.complete {
            return Err(ProgramError::IncompleteSnapshot);
        }
        match lookup(&self.records.schedules, schedule.id.0) {
            Some(known) => {
                return if *known == schedule {
                    Ok(())
                } else {
                    Err(ProgramError::DuplicateConflict)
                };
            },
            None => {},
        }
        if at.0 < self.last_event_at.0 {
            return Err(ProgramError::TimeRegression);
        }
        if !schedule.is_calendar_year() || at.0 > schedule.start.0 || schedule.start.0
            >= schedule.cutoff.0 || schedule.eligibility.minimum_active_days == 0 || self.overlaps(
            &schedule,
        ) {
            return Err(ProgramError::InvalidPolicy);
        }
        if self.revision == u64::MAX {
            return Err(ProgramError::ArithmeticOverflow);
        }
        put(&mut self.records.schedules, schedule.id.0, schedule);
        self.stamp(at);
        Ok(())
    }

    /// Prepares one due allocation using the account's verified bank association. The wrong
    /// beneficiary, premature execution, and an unresolved recovery state are refused.
    pub fn prepare_member_payment(
        &mut self,
        id: AllocationId,
        bank: &VerifiedBankAccount,
        at: CanonicalTime,
    ) -> (result: Result<Option<PaymentOperation>, ProgramError>)
        requires
            old(self)@.records.sound(),
        ensures
            match old(self)@.payment_prepared(id, bank.proven(), at) {
                Ok((next, operation)) => result == Ok::<Option<PaymentOperation>, ProgramError>(
                    operation,
                ) && final(self)@ == next && next.records.sound(),
                Err(e) => result == Err::<Option<PaymentOperation>, ProgramError>(e) && *final(self)
                    == *old(self),
            },
    {
        if at.0 < self.last_event_at.0 {
            return Err(ProgramError::TimeRegression);
        }
        let mut payable = match lookup(&self.records.payables, id.0) {
            Some(payable) => payable.clone(),
            None => return Err(ProgramError::MissingRecord),
        };
        assert(self@.records.payables.contains_key(id.0));
        let operation = match payable.prepare(bank, at) {
            Ok(operation) => operation,
            Err(e) => return Err(e),
        };
        if self.revision == u64::MAX {
            return Err(ProgramError::ArithmeticOverflow);
        }
        proof {
            lemma_put_payable(self.records.payables@, id.0, payable);
        }
        put(&mut self.records.payables, id.0, payable);
        self.stamp(at);
        Ok(operation)
    }

    /// Discharges a fixed payable only after verified provider confirmation. Unauthenticated,
    /// mismatched, or unsupported evidence is refused; a repeated receipt changes nothing.
    pub fn confirm_payout(
        &mut self,
        id: AllocationId,
        receipt: &SignedPaymentEvidence,
        key: &[u8; 32],
        at: CanonicalTime,
    ) -> (result: Result<(), ProgramError>)
        requires
            old(self)@.records.sound(),
        ensures
            match old(self)@.payout_confirmed(id, *receipt, *key, at) {
                Ok(next) => result is Ok && final(self)@ == next && next.records.sound(),
                Err(e) => result == Err::<(), ProgramError>(e) && *final(self) == *old(self),
            },
    {
        let mut payable = match lookup(&self.records.payables, id.0) {
            Some(payable) => payable.clone(),
            None => return Err(ProgramError::MissingRecord),
        };
        assert(self@.records.payables.contains_key(id.0));
        let ghost previous = payable@;
        let replayed = match &payable.payment {
            Some(payment) => holds(&payment.events, receipt.evidence.event_id.0),
            None => false,
        };
        let batch = match payable.record_receipt(receipt, key) {
            Ok(batch) => batch,
            Err(e) => return Err(e),
        };
        if replayed {
            assert(payable@ == previous);
            return Ok(());
        }
        proof {
            assert(payable@.payment->Some_0.events.contains_key(receipt.evidence.event_id.0));
            assert(payable@ != previous);
        }
        if at.0 < self.last_event_at.0 {
            return Err(ProgramError::TimeRegression);
        }
        proof {
            lemma_put_payable(self.records.payables@, id.0, payable);
        }
        if batch.transfers.len() == 0 {
            if self.revision == u64::MAX {
                return Err(ProgramError::ArithmeticOverflow);
            }
            put(&mut self.records.payables, id.0, payable);
        } else {
            let ledger = match self.ledger.view.apply(&batch) {
                Ok(ledger) => ledger,
                Err(e) => return Err(ProgramError::Ledger(e)),
            };
            if self.revision == u64::MAX {
                return Err(ProgramError::ArithmeticOverflow);
            }
            self.enter(at, receipt.evidence.event_id, batch, ledger);
            put(&mut self.records.payables, id.0, payable);
        }
        self.stamp(at);
        Ok(())
    }

    /// Adds a separately authorized, company-funded correction without rewriting a distribution.
    /// Requires an existing member, finalized distribution, unique cause, and a bounded
    /// explanation.
    pub fn compensate_member(
        &mut self,
        event: FinancialEventId,
        member: MemberId,
        distribution: AnnualDistributionId,
        amount: Money,
        reason: &str,
        at: CanonicalTime,
    ) -> (result: Result<(), ProgramError>)
        requires
            old(self)@.records.sound(),
        ensures
            match old(self)@.compensated(event, member, distribution, amount, reason@, at) {
                Ok(next) => result is Ok && final(self)@ == next && next.records.sound(),
                Err(e) => result == Err::<(), ProgramError>(e) && *final(self) == *old(self),
            },
    {
        if !self.complete {
            return Err(ProgramError::IncompleteSnapshot);
        }
        if at.0 < self.last_event_at.0 {
            return Err(ProgramError::TimeRegression);
        }
        if event.0 == 0 || amount.is_zero() || is_blank(reason) || reason.as_bytes().len() > 2000
            || !holds(&self.records.members, member.0) {
            return Err(ProgramError::InvalidPolicy);
        }
        let terms = match lookup(&self.records.annual_allocations, distribution.0) {
            Some(allocation) => allocation.schedule.payment,
            None => return Err(ProgramError::InvalidPolicy),
        };
        assert(self@.records.annual_allocations.contains_key(distribution.0));
        let mut bytes: Vec<u8> = Vec::new();
        push_text(&mut bytes, "cs-mail/member-correction/v2");
        push_all(&mut bytes, self.scope.canonical_bytes().as_slice());
        push_be(&mut bytes, self.unit.0 as u128, 4);
        push_be(&mut bytes, event.0, 16);
        assert(bytes@ =~= correction_bytes(self.scope, self.unit, event));
        let id = AllocationId(id_of(bytes.as_slice()));
        if holds(&self.records.payables, id.0) {
            return Err(ProgramError::DuplicateConflict);
        }
        let payable = match MemberPayable::new(
            id,
            member,
            distribution,
            amount,
            terms,
            self.scope,
            self.unit,
            Some(event),
        ) {
            Ok(payable) => payable,
            Err(e) => return Err(e),
        };
        assert(payable@ == self@.correction(event, member, distribution, amount));
        let mut batch = LedgerBatch::new();
        batch.transfer(Account::CorporateLossClearing, Account::MemberPayable(id), amount);
        let ledger = match self.ledger.view.apply(&batch) {
            Ok(ledger) => ledger,
            Err(e) => return Err(ProgramError::Ledger(e)),
        };
        if self.revision == u64::MAX {
            return Err(ProgramError::ArithmeticOverflow);
        }
        proof {
            lemma_put_payable(self.records.payables@, id.0, payable);
        }
        self.enter(at, event, batch, ledger);
        put(&mut self.records.payables, id.0, payable);
        self.stamp(at);
        Ok(())
    }
}

/// Every person is a member at most once.
pub open spec fn people_distinct(program: ProgramModel) -> bool {
    forall|j: u128, k: u128|
        program.records.members.contains_key(j) && program.records.members.contains_key(k)
            && program.records.members[j].identity_digest
            == program.records.members[k].identity_digest ==> j == k
}

/// A person who is a member cannot be enrolled again, under that account or another, and whatever
/// befalls the members, every person stays a member at most once.
pub proof fn people_are_members_once(
    program: ProgramModel,
    id: MemberId,
    identity_digest: [u8; 32],
    status: MembershipStatus,
    at: CanonicalTime,
)
    requires
        people_distinct(program),
    ensures
        program.identity_known(identity_digest) ==> program.enrolled(
            id,
            identity_digest,
            status,
            at,
        ) is Err,
        program.enrolled(id, identity_digest, status, at) matches Ok(next) ==> people_distinct(next)
            && next.enrolled(id, identity_digest, status, at) is Err,
        program.membership_set(id, status, at) matches Ok(next) ==> people_distinct(next),
        program.activity_recorded(id, at) matches Ok(next) ==> people_distinct(next),
{
    if program.enrolled(id, identity_digest, status, at) is Ok {
        let next = program.enrolled(id, identity_digest, status, at)->Ok_0;
        assert forall|j: u128, k: u128|
            next.records.members.contains_key(j) && next.records.members.contains_key(k)
                && next.records.members[j].identity_digest
                == next.records.members[k].identity_digest implies j == k by {
            if j != id.0 {
                assert(program.records.members.contains_key(j));
            }
            if k != id.0 {
                assert(program.records.members.contains_key(k));
            }
        }
    }
}

} // verus!
