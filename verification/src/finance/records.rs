//! The independent records of a financial program and what must hold of them.

use super::distribution::{AllocationModel, AnnualAllocation, AnnualDistributionSchedule};
use super::lot::{ForfeitureLot, LotLifecycle};
use super::membership::{Member, MemberModel};
use super::payable::{MemberPayable, PayableModel};
use super::scope::FinancialScope;
use super::terms::ProgramError;
use crate::bytes::{is_zero_32, same_32, zero_32};
use crate::ledger::{
    balance_in, obligation, Account, Balances, LedgerBatch, LedgerView, Transfer,
};
use crate::maps::{
    add_member, keys_in_order, keys_of, lemma_keys_unique, lemma_sorted_keys, lookup, sorted_keys,
};
use crate::primitives::amounts::{CanonicalTime, SettlementUnit};
use crate::primitives::ids::{
    AllocationId, FinancialEventId, MemberId, PaymentOperationId,
};
use std::collections::{BTreeMap, BTreeSet};
use vstd::prelude::*;

verus! {

#[derive(Debug, PartialEq, Eq)]
pub struct ProgramJournalEntry {
    pub at: CanonicalTime,
    pub cause: FinancialEventId,
    pub batch: LedgerBatch,
}

pub ghost struct JournalModel {
    pub at: CanonicalTime,
    pub cause: FinancialEventId,
    pub transfers: Seq<Transfer>,
}

impl View for ProgramJournalEntry {
    type V = JournalModel;

    open spec fn view(&self) -> JournalModel {
        JournalModel { at: self.at, cause: self.cause, transfers: self.batch.transfers@ }
    }
}

impl Clone for ProgramJournalEntry {
    fn clone(&self) -> (copy: Self)
        ensures
            copy@ == self@,
    {
        ProgramJournalEntry {
            at: self.at,
            cause: self.cause,
            batch: LedgerBatch { transfers: self.batch.transfers.clone() },
        }
    }
}

/// Explicit storage boundary: independent records, not an opaque whole-program document. Each map
/// is keyed by the number of the identifier that its records bear.
#[derive(Debug, PartialEq, Eq)]
pub struct ProgramRecords {
    pub funding: BTreeMap<u128, ForfeitureLot>,
    pub members: BTreeMap<u128, Member>,
    pub schedules: BTreeMap<u128, AnnualDistributionSchedule>,
    pub annual_allocations: BTreeMap<u128, AnnualAllocation>,
    pub payables: BTreeMap<u128, MemberPayable>,
}

pub ghost struct RecordsModel {
    pub funding: Map<u128, ForfeitureLot>,
    pub members: Map<u128, MemberModel>,
    pub schedules: Map<u128, AnnualDistributionSchedule>,
    pub annual_allocations: Map<u128, AllocationModel>,
    pub payables: Map<u128, PayableModel>,
}

pub open spec fn member_models(map: Map<u128, Member>) -> Map<u128, MemberModel> {
    Map::new(|id: u128| map.contains_key(id), |id: u128| map[id]@)
}

pub open spec fn allocation_models(map: Map<u128, AnnualAllocation>) -> Map<u128, AllocationModel> {
    Map::new(|id: u128| map.contains_key(id), |id: u128| map[id]@)
}

pub open spec fn payable_models(map: Map<u128, MemberPayable>) -> Map<u128, PayableModel> {
    Map::new(|id: u128| map.contains_key(id), |id: u128| map[id]@)
}

impl View for ProgramRecords {
    type V = RecordsModel;

    open spec fn view(&self) -> RecordsModel {
        RecordsModel {
            funding: self.funding@,
            members: member_models(self.members@),
            schedules: self.schedules@,
            annual_allocations: allocation_models(self.annual_allocations@),
            payables: payable_models(self.payables@),
        }
    }
}

impl Clone for ProgramRecords {
    fn clone(&self) -> (copy: Self)
        ensures
            copy@ == self@,
    {
        ProgramRecords {
            funding: self.funding.clone(),
            members: self.members.clone(),
            schedules: self.schedules.clone(),
            annual_allocations: self.annual_allocations.clone(),
            payables: self.payables.clone(),
        }
    }
}

/// No records.
pub open spec fn no_records() -> RecordsModel {
    RecordsModel {
        funding: Map::empty(),
        members: Map::empty(),
        schedules: Map::empty(),
        annual_allocations: Map::empty(),
        payables: Map::empty(),
    }
}

impl Default for ProgramRecords {
    fn default() -> (records: Self)
        ensures
            records@ == no_records(),
    {
        let records = ProgramRecords {
            funding: BTreeMap::new(),
            members: BTreeMap::new(),
            schedules: BTreeMap::new(),
            annual_allocations: BTreeMap::new(),
            payables: BTreeMap::new(),
        };
        assert(records@.members =~= Map::empty());
        assert(records@.annual_allocations =~= Map::empty());
        assert(records@.payables =~= Map::empty());
        records
    }
}

impl RecordsModel {
    /// Every record is filed under its own identifier, no corporate rate exceeds the whole, and a
    /// payment that has been set up has an attempt.
    pub open spec fn sound(self) -> bool {
        &&& forall|id: u128| #[trigger] self.funding.contains_key(id) ==> self.funding[id].source.id.0
            == id && self.funding[id].source.terms.valid()
        &&& forall|id: u128| #[trigger] self.members.contains_key(id) ==> self.members[id].id.0 == id
        &&& forall|id: u128| #[trigger] self.schedules.contains_key(id) ==> self.schedules[id].id.0
            == id
        &&& forall|id: u128| #[trigger] self.payables.contains_key(id) ==> self.payables[id].started()
    }
}

#[derive(Clone, Copy, Debug, PartialEq, Eq)]
pub struct ProgramMetadata {
    pub scope: FinancialScope,
    pub unit: SettlementUnit,
    pub revision: u64,
    pub last_event_at: CanonicalTime,
}

/// The selected storage owner is explicit; omitted owners cannot be used for allocation.
pub enum ProgramOwner {
    Metadata,
    Funding(PaymentOperationId, Option<ForfeitureLot>),
    Member(MemberId, Option<Member>),
    Payable(AllocationId, Option<MemberPayable>),
}

impl ProgramOwner {
    /// The records of one owner alone.
    pub open spec fn records(self) -> RecordsModel {
        match self {
            ProgramOwner::Funding(id, Some(lot)) => RecordsModel {
                funding: Map::empty().insert(id.0, lot),
                ..no_records()
            },
            ProgramOwner::Member(id, Some(member)) => RecordsModel {
                members: Map::empty().insert(id.0, member@),
                ..no_records()
            },
            ProgramOwner::Payable(id, Some(payable)) => RecordsModel {
                payables: Map::empty().insert(id.0, payable@),
                ..no_records()
            },
            _ => no_records(),
        }
    }
}

/// The first fault under the first `n` keys, in order.
pub open spec fn first_fault(
    keys: Seq<u128>,
    n: nat,
    fault: spec_fn(u128) -> Option<ProgramError>,
) -> Option<ProgramError>
    decreases n,
{
    if n == 0 {
        None
    } else {
        match first_fault(keys, (n - 1) as nat, fault) {
            Some(e) => Some(e),
            None => fault(keys[n - 1]),
        }
    }
}

pub proof fn lemma_fault_sticks(
    keys: Seq<u128>,
    i: nat,
    n: nat,
    fault: spec_fn(u128) -> Option<ProgramError>,
)
    requires
        i <= n,
        first_fault(keys, i, fault) is Some,
    ensures
        first_fault(keys, n, fault) == first_fault(keys, i, fault),
    decreases n,
{
    if i < n {
        lemma_fault_sticks(keys, i, (n - 1) as nat, fault);
    }
}

/// Times that never go back.
pub open spec fn in_time_order(
    changes: Seq<(CanonicalTime, super::terms::MembershipStatus)>,
) -> bool {
    forall|i: int| 0 <= i < changes.len() - 1 ==> (#[trigger] changes[i]).0.0 <= changes[i + 1].0.0
}

/// What is wrong with a member's record.
pub open spec fn member_fault(members: Map<u128, MemberModel>, id: u128) -> Option<ProgramError> {
    let member = members[id];
    if member.id.0 == id && !zero_32(member.identity_digest) && (forall|k: u128| #[trigger]
        members.contains_key(k) && k < id ==> members[k].identity_digest
            != member.identity_digest) && member.changes.len() > 0 && (forall|i: int|
        0 <= i < member.changes.len() ==> (#[trigger] member.changes[i]).0.0 >= member.joined_at.0)
        && in_time_order(member.changes) {
        None
    } else {
        Some(ProgramError::InvalidPolicy)
    }
}

/// What is wrong with a forfeited lot.
pub open spec fn lot_fault(metadata: ProgramMetadata, lot: ForfeitureLot, id: u128) -> Option<
    ProgramError,
> {
    let clearance = match lot.lifecycle {
        LotLifecycle::Pending { .. } => None,
        LotLifecycle::Cleared(c) => Some(c),
        LotLifecycle::Assessed { clearance: c, .. } => Some(c),
    };
    if lot.source.id.0 != id || lot.source.unit != metadata.unit || lot.source.terms.scope
        != metadata.scope || lot.source.amount.0 == 0 || !lot.source.terms.valid() {
        Some(ProgramError::InvalidPolicy)
    } else if clearance matches Some(c) && (c.evidence.0 == 0 || lot.source.matures_at() > u64::MAX
        || c.at.0 < lot.source.matures_at()) {
        Some(ProgramError::InsufficientEvidence)
    } else {
        None
    }
}

/// What is wrong with an allocation to a member.
pub open spec fn payable_fault(
    metadata: ProgramMetadata,
    balances: Balances,
    payable: PayableModel,
    id: u128,
) -> Option<ProgramError> {
    match payable.check(metadata.scope, metadata.unit) {
        Err(e) => Some(e),
        Ok(()) => if payable.id.0 != id || obligation(
            balances,
            Account::MemberPayable(AllocationId(id)),
        ) != payable.outstanding() {
            Some(ProgramError::InvalidPayment)
        } else {
            None
        },
    }
}

/// What is wrong with a schedule.
pub open spec fn schedule_fault(schedule: AnnualDistributionSchedule, id: u128) -> Option<
    ProgramError,
> {
    if schedule.id.0 == id && schedule.calendar_year() {
        None
    } else {
        Some(ProgramError::InvalidPolicy)
    }
}

/// What is wrong with a finalized distribution.
pub open spec fn allocation_fault(allocation: AllocationModel, id: u128) -> Option<ProgramError> {
    let n = allocation.members.len();
    if allocation.schedule.id.0 == id && allocation.schedule.calendar_year()
        && allocation.finalized_at.0 >= allocation.schedule.cutoff.0 && allocation.corporate_share.0
        + allocation.member_contribution.0 == allocation.newly_eligible.0
        && allocation.members.no_duplicates() && allocation.funding.no_duplicates()
        && allocation.each.0 * n + allocation.remainder.0 <= u64::MAX && (n == 0
        ==> allocation.each.0 == 0) && (n > 0 ==> allocation.remainder.0 < n) {
        None
    } else {
        Some(ProgramError::InvalidPolicy)
    }
}

/// The first fault in the records of a program, record by record.
pub open spec fn records_fault(
    metadata: ProgramMetadata,
    records: RecordsModel,
    balances: Balances,
) -> Option<ProgramError> {
    let (mk, fk, pk, sk, ak) = (
        sorted_keys(records.members),
        sorted_keys(records.funding),
        sorted_keys(records.payables),
        sorted_keys(records.schedules),
        sorted_keys(records.annual_allocations),
    );
    let members = first_fault(mk, mk.len(), |id: u128| member_fault(records.members, id));
    let funding = first_fault(
        fk,
        fk.len(),
        |id: u128| lot_fault(metadata, records.funding[id], id),
    );
    let payables = first_fault(
        pk,
        pk.len(),
        |id: u128| payable_fault(metadata, balances, records.payables[id], id),
    );
    let schedules = first_fault(
        sk,
        sk.len(),
        |id: u128| schedule_fault(records.schedules[id], id),
    );
    let allocations = first_fault(
        ak,
        ak.len(),
        |id: u128| allocation_fault(records.annual_allocations[id], id),
    );
    if members is Some {
        members
    } else if funding is Some {
        funding
    } else if payables is Some {
        payables
    } else if schedules is Some {
        schedules
    } else {
        allocations
    }
}

/// The keys of a map are those of its models.
pub proof fn lemma_model_keys<V, M>(keys: Seq<u128>, map: Map<u128, V>, models: Map<u128, M>)
    requires
        keys_in_order(keys, map),
        forall|k: u128| #[trigger] map.contains_key(k) <==> models.contains_key(k),
    ensures
        keys_in_order(keys, models),
        keys == sorted_keys(models),
{
    assert forall|k: u128| #[trigger] models.contains_key(k) implies keys.contains(k) by {
        assert(map.contains_key(k));
    }
    lemma_keys_unique(keys, sorted_keys(models), models);
}

fn member_is_valid(members: &BTreeMap<u128, Member>, keys: &Vec<u128>, at: usize) -> (valid: bool)
    requires
        keys_in_order(keys@, members@),
        at < keys@.len(),
    ensures
        valid == (member_fault(member_models(members@), keys@[at as int]) is None),
        !valid ==> member_fault(member_models(members@), keys@[at as int]) == Some(
            ProgramError::InvalidPolicy,
        ),
{
    let id: u128 = keys[at];
    let ghost models = member_models(members@);
    let member = match lookup(members, id) {
        Some(member) => member,
        None => return false,
    };
    assert(models[id] == member@);
    if id != member.id.0 || is_zero_32(&member.identity_digest) || member.changes.len() == 0 {
        return false;
    }
    let mut j: usize = 0;
    while j < at
        invariant
            keys_in_order(keys@, members@),
            models == member_models(members@),
            0 <= j <= at < keys@.len(),
            id == keys@[at as int],
            members@.contains_key(id),
            *member == members@[id],
            forall|k: int|
                0 <= k < j ==> models[#[trigger] keys@[k]].identity_digest
                    != member.identity_digest,
        decreases at - j,
    {
        assert(members@.contains_key(keys@[j as int]));
        match lookup(members, keys[j]) {
            Some(other) => {
                if same_32(&other.identity_digest, &member.identity_digest) {
                    assert(models.contains_key(keys@[j as int]) && keys@[j as int] < id);
                    assert(models[keys@[j as int]].identity_digest == models[id].identity_digest);
                    return false;
                }
            },
            None => {},
        }
        j += 1;
    }
    proof {
        assert forall|k: u128| #[trigger] models.contains_key(k) && k < id implies models[k].identity_digest
            != member.identity_digest by {
            assert(members@.contains_key(k));
            let i = choose|i: int| 0 <= i < keys@.len() && keys@[i] == k;
            if i >= at {
                if i > at {
                    assert(keys@[at as int] < keys@[i]);
                }
            }
            assert(models[keys@[i]].identity_digest != member.identity_digest);
        }
    }
    let mut i: usize = 0;
    while i < member.changes.len()
        invariant
            0 <= i <= member.changes@.len(),
            models == member_models(members@),
            members@.contains_key(id),
            *member == members@[id],
            id == keys@[at as int],
            at < keys@.len(),
            forall|k: int| 0 <= k < i ==> (#[trigger] member.changes@[k]).0.0 >= member.joined_at.0,
            forall|k: int|
                0 <= k < i - 1 ==> (#[trigger] member.changes@[k]).0.0 <= member.changes@[k
                    + 1].0.0,
        decreases member.changes@.len() - i,
    {
        if member.changes[i].0.0 < member.joined_at.0 {
            assert(models[id].changes[i as int].0.0 < models[id].joined_at.0);
            return false;
        }
        if i > 0 && member.changes[i - 1].0.0 > member.changes[i].0.0 {
            assert(models[id].changes[i - 1].0.0 > models[id].changes[i - 1 + 1].0.0);
            assert(!in_time_order(models[id].changes));
            return false;
        }
        i += 1;
    }
    assert(in_time_order(models[id].changes));
    true
}

fn distinct(ids: &Vec<u128>) -> (result: bool)
    ensures
        result == ids@.no_duplicates(),
{
    let mut seen: BTreeSet<u128> = BTreeSet::new();
    let mut i: usize = 0;
    while i < ids.len()
        invariant
            0 <= i <= ids@.len(),
            forall|k: u128|
                seen@.contains(k) <==> exists|j: int| 0 <= j < i && #[trigger] ids@[j] == k,
            forall|j: int, k: int| 0 <= j < k < i ==> ids@[j] != ids@[k],
        decreases ids@.len() - i,
    {
        let ghost known = seen@;
        if !add_member(&mut seen, ids[i]) {
            let ghost j = choose|j: int| 0 <= j < i && #[trigger] ids@[j] == ids@[i as int];
            assert(ids@[j] == ids@[i as int]);
            return false;
        }
        proof {
            assert forall|k: u128| seen@.contains(k) <==> exists|j: int|
                0 <= j < i + 1 && #[trigger] ids@[j] == k by {
                if known.contains(k) {
                    let j = choose|j: int| 0 <= j < i && #[trigger] ids@[j] == k;
                    assert(0 <= j < i + 1 && ids@[j] == k);
                }
                if k == ids@[i as int] {
                    assert(0 <= i < i + 1 && ids@[i as int] == k);
                }
            }
        }
        i += 1;
    }
    true
}

fn member_numbers(ids: &Vec<MemberId>) -> (numbers: Vec<u128>)
    ensures
        numbers@.no_duplicates() == ids@.no_duplicates(),
{
    let mut numbers: Vec<u128> = Vec::new();
    let mut i: usize = 0;
    while i < ids.len()
        invariant
            0 <= i <= ids@.len(),
            numbers@.len() == i,
            forall|j: int| 0 <= j < i ==> numbers@[j] == (#[trigger] ids@[j]).0,
        decreases ids@.len() - i,
    {
        numbers.push(ids[i].0);
        i += 1;
    }
    proof {
        if numbers@.no_duplicates() {
            assert forall|j: int, k: int| 0 <= j < ids@.len() && 0 <= k < ids@.len() && j != k implies ids@[j]
                != ids@[k] by {
                assert(numbers@[j] != numbers@[k]);
            }
        }
        if ids@.no_duplicates() {
            assert forall|j: int, k: int|
                0 <= j < numbers@.len() && 0 <= k < numbers@.len() && j != k implies numbers@[j]
                != numbers@[k] by {
                assert(ids@[j] != ids@[k]);
            }
        }
    }
    numbers
}

fn source_numbers(ids: &Vec<PaymentOperationId>) -> (numbers: Vec<u128>)
    ensures
        numbers@.no_duplicates() == ids@.no_duplicates(),
{
    let mut numbers: Vec<u128> = Vec::new();
    let mut i: usize = 0;
    while i < ids.len()
        invariant
            0 <= i <= ids@.len(),
            numbers@.len() == i,
            forall|j: int| 0 <= j < i ==> numbers@[j] == (#[trigger] ids@[j]).0,
        decreases ids@.len() - i,
    {
        numbers.push(ids[i].0);
        i += 1;
    }
    proof {
        if numbers@.no_duplicates() {
            assert forall|j: int, k: int| 0 <= j < ids@.len() && 0 <= k < ids@.len() && j != k implies ids@[j]
                != ids@[k] by {
                assert(numbers@[j] != numbers@[k]);
            }
        }
        if ids@.no_duplicates() {
            assert forall|j: int, k: int|
                0 <= j < numbers@.len() && 0 <= k < numbers@.len() && j != k implies numbers@[j]
                != numbers@[k] by {
                assert(ids@[j] != ids@[k]);
            }
        }
    }
    numbers
}

fn check_lot(metadata: &ProgramMetadata, lot: &ForfeitureLot, id: u128) -> (fault: Option<
    ProgramError,
>)
    ensures
        fault == lot_fault(*metadata, *lot, id),
{
    if id != lot.source.id.0 || lot.source.unit != metadata.unit || !lot.source.terms.scope.same(
        &metadata.scope,
    ) || lot.source.amount.is_zero() || lot.source.terms.validate().is_err() {
        return Some(ProgramError::InvalidPolicy);
    }
    let clearance = match lot.lifecycle {
        LotLifecycle::Pending { .. } => return None,
        LotLifecycle::Cleared(c) => c,
        LotLifecycle::Assessed { clearance: c, .. } => c,
    };
    let mature = lot.source.forfeited_at.checked_add(lot.source.terms.maturity_delay);
    let early = match mature {
        Some(time) => clearance.at.0 < time.0,
        None => true,
    };
    if clearance.evidence.0 == 0 || early {
        Some(ProgramError::InsufficientEvidence)
    } else {
        None
    }
}

fn check_payable(
    metadata: &ProgramMetadata,
    ledger: &LedgerView,
    payable: &MemberPayable,
    id: u128,
) -> (fault: Option<ProgramError>)
    ensures
        fault == payable_fault(*metadata, ledger.balances@, payable@, id),
{
    match payable.validate(metadata.scope, metadata.unit) {
        Err(e) => Some(e),
        Ok(()) => {
            if id != payable.id().0 || ledger.balance(Account::MemberPayable(AllocationId(id)))
                != payable.outstanding() {
                Some(ProgramError::InvalidPayment)
            } else {
                None
            }
        },
    }
}

fn check_allocation(allocation: &AnnualAllocation, id: u128) -> (fault: Option<ProgramError>)
    ensures
        fault == allocation_fault(allocation@, id),
{
    let contributed = allocation.corporate_share.checked_add(allocation.member_contribution);
    let adds_up = match contributed {
        Some(sum) => sum == allocation.newly_eligible,
        None => false,
    };
    if id != allocation.schedule.id.0 || !allocation.schedule.is_calendar_year()
        || allocation.finalized_at.0 < allocation.schedule.cutoff.0 || !adds_up {
        return Some(ProgramError::InvalidPolicy);
    }
    let members = member_numbers(&allocation.members);
    let sources = source_numbers(&allocation.funding);
    if !distinct(&members) || !distinct(&sources) {
        return Some(ProgramError::InvalidPolicy);
    }
    let count: u128 = allocation.members.len() as u128;
    let each: u128 = allocation.each.0 as u128;
    assert(each * count <= 0xffff_ffff_ffff_ffff * 0xffff_ffff_ffff_ffff) by (nonlinear_arith)
        requires
            0 <= each <= 0xffff_ffff_ffff_ffff,
            0 <= count <= 0xffff_ffff_ffff_ffff,
    ;
    let total: u128 = each * count + allocation.remainder.0 as u128;
    if total > 18446744073709551615 || (count == 0 && !allocation.each.is_zero()) || (count > 0
        && allocation.remainder.0 as u128 >= count) {
        return Some(ProgramError::InvalidPolicy);
    }
    None
}

proof fn lemma_no_fault(keys: Seq<u128>, n: nat, fault: spec_fn(u128) -> Option<ProgramError>, i: int)
    requires
        first_fault(keys, n, fault) is None,
        0 <= i < n,
    ensures
        fault(keys[i]) is None,
    decreases n,
{
    if i < n - 1 {
        lemma_no_fault(keys, (n - 1) as nat, fault, i);
    }
}

proof fn lemma_no_fault_under<V>(
    map: Map<u128, V>,
    fault: spec_fn(u128) -> Option<ProgramError>,
    id: u128,
)
    requires
        first_fault(sorted_keys(map), sorted_keys(map).len(), fault) is None,
        map.contains_key(id),
    ensures
        fault(id) is None,
{
    lemma_sorted_keys(map);
    let keys = sorted_keys(map);
    let i = choose|i: int| 0 <= i < keys.len() && keys[i] == id;
    lemma_no_fault(keys, keys.len(), fault, i);
}

/// Records without a fault are sound, and have every person as a member at most once.
pub proof fn faultless_records_are_sound(
    metadata: ProgramMetadata,
    records: RecordsModel,
    balances: Balances,
)
    requires
        records_fault(metadata, records, balances) is None,
    ensures
        records.sound(),
        forall|j: u128, k: u128|
            #![trigger records.members.contains_key(j), records.members.contains_key(k)]
            records.members.contains_key(j) && records.members.contains_key(k)
                && records.members[j].identity_digest == records.members[k].identity_digest ==> j
                == k,
{
    assert forall|j: u128, k: u128|
        #![trigger records.members.contains_key(j), records.members.contains_key(k)]
        records.members.contains_key(j) && records.members.contains_key(k)
            && records.members[j].identity_digest == records.members[k].identity_digest implies j
        == k by {
        lemma_no_fault_under(records.members, |id: u128| member_fault(records.members, id), j);
        lemma_no_fault_under(records.members, |id: u128| member_fault(records.members, id), k);
    }
    assert forall|id: u128| #[trigger] records.funding.contains_key(id) implies
        records.funding[id].source.id.0 == id && records.funding[id].source.terms.valid() by {
        lemma_no_fault_under(
            records.funding,
            |id: u128| lot_fault(metadata, records.funding[id], id),
            id,
        );
    }
    assert forall|id: u128| #[trigger] records.members.contains_key(id) implies
        records.members[id].id.0 == id by {
        lemma_no_fault_under(records.members, |id: u128| member_fault(records.members, id), id);
    }
    assert forall|id: u128| #[trigger] records.schedules.contains_key(id) implies
        records.schedules[id].id.0 == id by {
        lemma_no_fault_under(
            records.schedules,
            |id: u128| schedule_fault(records.schedules[id], id),
            id,
        );
    }
    assert forall|id: u128| #[trigger] records.payables.contains_key(id) implies
        records.payables[id].started() by {
        lemma_no_fault_under(
            records.payables,
            |id: u128| payable_fault(metadata, balances, records.payables[id], id),
            id,
        );
    }
}

/// The first fault in the records of a program.
pub fn check_records(
    metadata: &ProgramMetadata,
    records: &ProgramRecords,
    ledger: &LedgerView,
) -> (fault: Option<ProgramError>)
    ensures
        fault == records_fault(*metadata, records@, ledger.balances@),
{
    let ghost model = records@;
    let ghost balances = ledger.balances@;
    let keys = keys_of(&records.members);
    let ghost members = |id: u128| member_fault(model.members, id);
    proof {
        lemma_model_keys(keys@, records.members@, model.members);
    }
    let mut i: usize = 0;
    while i < keys.len()
        invariant
            model == records@,
            keys_in_order(keys@, records.members@),
            members == (|id: u128| member_fault(model.members, id)),
            keys@ == sorted_keys(model.members),
            0 <= i <= keys@.len(),
            first_fault(keys@, i as nat, members) is None,
        decreases keys@.len() - i,
    {
        if !member_is_valid(&records.members, &keys, i) {
            proof {
                lemma_fault_sticks(keys@, (i + 1) as nat, keys@.len(), members);
            }
            return Some(ProgramError::InvalidPolicy);
        }
        i += 1;
    }
    let keys = keys_of(&records.funding);
    let ghost funding = |id: u128| lot_fault(*metadata, model.funding[id], id);
    let mut i: usize = 0;
    while i < keys.len()
        invariant
            model == records@,
            first_fault(
                sorted_keys(model.members),
                sorted_keys(model.members).len(),
                |id: u128| member_fault(model.members, id),
            ) is None,
            keys_in_order(keys@, records.funding@),
            funding == (|id: u128| lot_fault(*metadata, model.funding[id], id)),
            keys@ == sorted_keys(model.funding),
            0 <= i <= keys@.len(),
            first_fault(keys@, i as nat, funding) is None,
        decreases keys@.len() - i,
    {
        let id: u128 = keys[i];
        assert(records.funding@.contains_key(keys@[i as int]));
        match lookup(&records.funding, id) {
            Some(lot) => {
                match check_lot(metadata, lot, id) {
                    Some(e) => {
                        proof {
                            lemma_fault_sticks(keys@, (i + 1) as nat, keys@.len(), funding);
                        }
                        return Some(e);
                    },
                    None => {},
                }
            },
            None => {},
        }
        i += 1;
    }
    let keys = keys_of(&records.payables);
    let ghost payables = |id: u128| payable_fault(*metadata, balances, model.payables[id], id);
    proof {
        lemma_model_keys(keys@, records.payables@, model.payables);
    }
    let mut i: usize = 0;
    while i < keys.len()
        invariant
            model == records@,
            balances == ledger.balances@,
            first_fault(
                sorted_keys(model.members),
                sorted_keys(model.members).len(),
                |id: u128| member_fault(model.members, id),
            ) is None,
            first_fault(
                sorted_keys(model.funding),
                sorted_keys(model.funding).len(),
                |id: u128| lot_fault(*metadata, model.funding[id], id),
            ) is None,
            keys_in_order(keys@, records.payables@),
            payables == (|id: u128| payable_fault(*metadata, balances, model.payables[id], id)),
            keys@ == sorted_keys(model.payables),
            0 <= i <= keys@.len(),
            first_fault(keys@, i as nat, payables) is None,
        decreases keys@.len() - i,
    {
        let id: u128 = keys[i];
        assert(records.payables@.contains_key(keys@[i as int]));
        match lookup(&records.payables, id) {
            Some(payable) => {
                match check_payable(metadata, ledger, payable, id) {
                    Some(e) => {
                        proof {
                            lemma_fault_sticks(keys@, (i + 1) as nat, keys@.len(), payables);
                        }
                        return Some(e);
                    },
                    None => {},
                }
            },
            None => {},
        }
        i += 1;
    }
    let keys = keys_of(&records.schedules);
    let ghost schedules = |id: u128| schedule_fault(model.schedules[id], id);
    let mut i: usize = 0;
    while i < keys.len()
        invariant
            model == records@,
            balances == ledger.balances@,
            first_fault(
                sorted_keys(model.members),
                sorted_keys(model.members).len(),
                |id: u128| member_fault(model.members, id),
            ) is None,
            first_fault(
                sorted_keys(model.funding),
                sorted_keys(model.funding).len(),
                |id: u128| lot_fault(*metadata, model.funding[id], id),
            ) is None,
            first_fault(
                sorted_keys(model.payables),
                sorted_keys(model.payables).len(),
                |id: u128| payable_fault(*metadata, balances, model.payables[id], id),
            ) is None,
            keys_in_order(keys@, records.schedules@),
            schedules == (|id: u128| schedule_fault(model.schedules[id], id)),
            keys@ == sorted_keys(model.schedules),
            0 <= i <= keys@.len(),
            first_fault(keys@, i as nat, schedules) is None,
        decreases keys@.len() - i,
    {
        let id: u128 = keys[i];
        assert(records.schedules@.contains_key(keys@[i as int]));
        match lookup(&records.schedules, id) {
            Some(schedule) => {
                if id != schedule.id.0 || !schedule.is_calendar_year() {
                    proof {
                        lemma_fault_sticks(keys@, (i + 1) as nat, keys@.len(), schedules);
                    }
                    return Some(ProgramError::InvalidPolicy);
                }
            },
            None => {},
        }
        i += 1;
    }
    let keys = keys_of(&records.annual_allocations);
    let ghost allocations = |id: u128| allocation_fault(model.annual_allocations[id], id);
    proof {
        lemma_model_keys(keys@, records.annual_allocations@, model.annual_allocations);
    }
    let mut i: usize = 0;
    while i < keys.len()
        invariant
            model == records@,
            balances == ledger.balances@,
            first_fault(
                sorted_keys(model.members),
                sorted_keys(model.members).len(),
                |id: u128| member_fault(model.members, id),
            ) is None,
            first_fault(
                sorted_keys(model.funding),
                sorted_keys(model.funding).len(),
                |id: u128| lot_fault(*metadata, model.funding[id], id),
            ) is None,
            first_fault(
                sorted_keys(model.payables),
                sorted_keys(model.payables).len(),
                |id: u128| payable_fault(*metadata, balances, model.payables[id], id),
            ) is None,
            first_fault(
                sorted_keys(model.schedules),
                sorted_keys(model.schedules).len(),
                |id: u128| schedule_fault(model.schedules[id], id),
            ) is None,
            keys_in_order(keys@, records.annual_allocations@),
            allocations == (|id: u128| allocation_fault(model.annual_allocations[id], id)),
            keys@ == sorted_keys(model.annual_allocations),
            0 <= i <= keys@.len(),
            first_fault(keys@, i as nat, allocations) is None,
        decreases keys@.len() - i,
    {
        let id: u128 = keys[i];
        assert(records.annual_allocations@.contains_key(keys@[i as int]));
        match lookup(&records.annual_allocations, id) {
            Some(allocation) => {
                match check_allocation(allocation, id) {
                    Some(e) => {
                        proof {
                            lemma_fault_sticks(keys@, (i + 1) as nat, keys@.len(), allocations);
                        }
                        return Some(e);
                    },
                    None => {},
                }
            },
            None => {},
        }
        i += 1;
    }
    None
}

/// Records that are taken in are those of members who can be: each filed under the member's own
/// number, with an identity, and with changes of status from joining on and in the order of time.
pub proof fn restored_members_can_be(
    metadata: ProgramMetadata,
    records: RecordsModel,
    balances: Balances,
    id: u128,
    i: int,
)
    requires
        records_fault(metadata, records, balances) is None,
        records.members.contains_key(id),
    ensures
        ({
            let m = records.members[id];
            &&& m.id.0 == id
            &&& exists|b: int| 0 <= b < 32 && m.identity_digest@[b] != 0
            &&& m.changes.len() > 0
            &&& 0 <= i < m.changes.len() ==> m.changes[i].0.0 >= m.joined_at.0
            &&& 0 <= i < m.changes.len() - 1 ==> m.changes[i].0.0 <= m.changes[i + 1].0.0
        }),
{
    lemma_no_fault_under(records.members, |k: u128| member_fault(records.members, k), id);
    assert(!zero_32(records.members[id].identity_digest));
}

/// Forfeited lots that are taken in are the program's own, in its unit and scope, of some amount and
/// at no more than the whole rate; and what was cleared or assessed was cleared on evidence, not
/// before the maturity delay was over.
pub proof fn restored_lots_can_be(
    metadata: ProgramMetadata,
    records: RecordsModel,
    balances: Balances,
    id: u128,
)
    requires
        records_fault(metadata, records, balances) is None,
        records.funding.contains_key(id),
    ensures
        ({
            let lot = records.funding[id];
            let mature = lot.source.forfeited_at.0 + lot.source.terms.maturity_delay.0;
            &&& lot.source.id.0 == id
            &&& lot.source.unit == metadata.unit
            &&& lot.source.terms.scope == metadata.scope
            &&& lot.source.amount.0 > 0
            &&& lot.source.terms.corporate_basis_points <= 10_000
            &&& match lot.lifecycle {
                LotLifecycle::Pending { .. } => true,
                LotLifecycle::Cleared(c) => c.evidence.0 != 0 && c.at.0 >= mature,
                LotLifecycle::Assessed { clearance: c, .. } => c.evidence.0 != 0 && c.at.0
                    >= mature,
            }
        }),
{
    lemma_no_fault_under(
        records.funding,
        |k: u128| lot_fault(metadata, records.funding[k], k),
        id,
    );
}

/// Allocations that are taken in are the program's own, in its unit and scope and due after their
/// year; what the ledger owes on each is its amount, or nothing once it is paid.
pub proof fn restored_allocations_are_owed(
    metadata: ProgramMetadata,
    records: RecordsModel,
    balances: Balances,
    id: u128,
)
    requires
        records_fault(metadata, records, balances) is None,
        records.payables.contains_key(id),
    ensures
        ({
            let p = records.payables[id];
            let held = balance_in(balances, Account::MemberPayable(AllocationId(id)));
            let paid = p.payment is Some && p.payment->Some_0.attempts.last().state is Settled;
            &&& p.id.0 == id && id != 0
            &&& p.member.0 != 0
            &&& p.scope == metadata.scope
            &&& p.unit == metadata.unit
            &&& 0 <= held <= u64::MAX ==> held == if paid {
                0
            } else {
                p.amount.0 as int
            }
            &&& p.payment matches Some(payment) ==> {
                let o = payment.attempts.last().operation;
                &&& o.amount == p.amount && o.unit == p.unit && o.scope == p.scope
                &&& o.kind == crate::finance::payments::PaymentKind::MemberPayout {
                    allocation: p.id,
                }
            }
        }),
{
    lemma_no_fault_under(
        records.payables,
        |k: u128| payable_fault(metadata, balances, records.payables[k], k),
        id,
    );
}

/// Finalized years that are taken in add up, name nobody and no source twice, and were not finalized
/// before their cutoff.
pub proof fn restored_years_add_up(
    metadata: ProgramMetadata,
    records: RecordsModel,
    balances: Balances,
    id: u128,
)
    requires
        records_fault(metadata, records, balances) is None,
        records.annual_allocations.contains_key(id),
    ensures
        ({
            let a = records.annual_allocations[id];
            let n = a.members.len();
            &&& a.schedule.id.0 == id
            &&& a.finalized_at.0 >= a.schedule.cutoff.0
            &&& a.corporate_share.0 + a.member_contribution.0 == a.newly_eligible.0
            &&& a.members.no_duplicates()
            &&& a.funding.no_duplicates()
            &&& n > 0 ==> a.remainder.0 < n
            &&& n == 0 ==> a.each.0 == 0
            &&& a.each.0 * n + a.remainder.0 <= u64::MAX
        }),
{
    lemma_no_fault_under(
        records.annual_allocations,
        |k: u128| allocation_fault(records.annual_allocations[k], k),
        id,
    );
}

} // verus!
