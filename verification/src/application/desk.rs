//! The billing desk: offers, collections and payouts over the books of accounts.

use super::billing::{
    no_writes, sources_sound, writes_sound, BillingContext, BillingContextModel, BillingDecision,
    BillingScope, BillingWrites, CollectionJournal, CollectionWork, JournalModel, WritesModel,
};
use super::book::{
    find_token, lemma_token, put_entry, token_at, token_from, with_entry, AccountBook, BookModel, EntryModel,
    ProductAccount,
};
use super::errors::EngineError;
use crate::billing::commands::{BillingCommand, SignedBillingCommand};
use crate::billing::offer::{BillingError, ServiceOffer};
use crate::bytes::{is_zero_32, same_32, zero_32};
use crate::finance::bank::BankVerification;
use crate::finance::funding::FundingModel;
use crate::finance::payments::{PaymentOperation, SignedPaymentEvidence};
use crate::maps::{
    holds_pair, keys_in_order, keys_of, lookup, lookup_pair, put, put_pair, sorted_keys,
};
use crate::primitives::amounts::{CanonicalTime, SettlementUnit};
use crate::primitives::ids::{
    BillingAccountId, PaymentOperationId, ServiceContractId,
};
use crate::protocol::SecurityError;
use std::collections::BTreeMap;
use vstd::prelude::*;

verus! {

/// Whom the deployment settles with, and who vouches for banks.
#[derive(Clone, Copy, PartialEq, Eq)]
pub struct PaymentArrangement {
    pub unit: SettlementUnit,
    pub processor: [u8; 32],
    pub authority: [u8; 32],
}

/// What the desk keeps beside the books.
pub struct BillingDesk {
    pub arrangement: Option<PaymentArrangement>,
    pub offers: BTreeMap<u128, ServiceOffer>,
    pub commands: BTreeMap<(u128, u128), (SignedBillingCommand, Vec<PaymentOperation>)>,
    pub journal: BTreeMap<(u128, u128), CollectionJournal>,
    pub collections: BTreeMap<u128, CollectionWork>,
    pub payouts: BTreeMap<u128, PaymentOperation>,
}

pub ghost struct DeskModel {
    pub arrangement: Option<PaymentArrangement>,
    pub offers: Map<u128, ServiceOffer>,
    pub commands: Map<(u128, u128), (SignedBillingCommand, Seq<PaymentOperation>)>,
    pub journal: Map<(u128, u128), JournalModel>,
    pub collections: Map<u128, CollectionWork>,
    pub payouts: Map<u128, PaymentOperation>,
}

pub open spec fn told(
    commands: Map<(u128, u128), (SignedBillingCommand, Vec<PaymentOperation>)>,
) -> Map<(u128, u128), (SignedBillingCommand, Seq<PaymentOperation>)> {
    commands.map_values(|entry: (SignedBillingCommand, Vec<PaymentOperation>)| (entry.0, entry.1@))
}

impl View for BillingDesk {
    type V = DeskModel;

    open spec fn view(&self) -> DeskModel {
        DeskModel {
            arrangement: self.arrangement,
            offers: self.offers@,
            commands: told(self.commands@),
            journal: self.journal@.map_values(|entry: CollectionJournal| entry@),
            collections: self.collections@,
            payouts: self.payouts@,
        }
    }
}

/// The first of some product accounts that has a billing account.
pub open spec fn owner_from(
    accounts: Map<u128, ProductAccount>,
    ids: Seq<u128>,
    billing: BillingAccountId,
    i: int,
) -> Option<u128>
    decreases ids.len() - i,
{
    if i >= ids.len() {
        None
    } else if accounts[ids[i]].account.billing == billing {
        Some(ids[i])
    } else {
        owner_from(accounts, ids, billing, i + 1)
    }
}

/// Whose billing account it is.
pub open spec fn owner_of(accounts: Map<u128, ProductAccount>, billing: BillingAccountId) -> Option<
    u128,
> {
    owner_from(accounts, sorted_keys(accounts), billing, 0)
}

fn find_owner(accounts: &BTreeMap<u128, ProductAccount>, billing: BillingAccountId) -> (owner: Option<
    u128,
>)
    ensures
        owner == owner_of(accounts@, billing),
{
    let ids = keys_of(accounts);
    let mut i: usize = 0;
    while i < ids.len()
        invariant
            keys_in_order(ids@, accounts@),
            ids@ == sorted_keys(accounts@),
            0 <= i <= ids@.len(),
            owner_of(accounts@, billing) == owner_from(accounts@, ids@, billing, i as int),
        decreases ids@.len() - i,
    {
        assert(accounts@.contains_key(ids@[i as int]));
        match lookup(accounts, ids[i]) {
            Some(held) => {
                if held.account.billing() == billing {
                    return Some(ids[i]);
                }
            },
            None => {},
        }
        i += 1;
    }
    None
}

impl BillingDesk {
    /// A desk with nothing on it.
    pub fn new() -> (desk: Self)
        ensures
            desk@ == (DeskModel {
                arrangement: None,
                offers: Map::empty(),
                commands: Map::empty(),
                journal: Map::empty(),
                collections: Map::empty(),
                payouts: Map::empty(),
            }),
    {
        let desk = BillingDesk {
            arrangement: None,
            offers: BTreeMap::new(),
            commands: BTreeMap::new(),
            journal: BTreeMap::new(),
            collections: BTreeMap::new(),
            payouts: BTreeMap::new(),
        };
        assert(desk@.commands =~= Map::empty());
        assert(desk@.journal =~= Map::empty());
        desk
    }

    /// Fixes trusted payment configuration. Empty keys and a conflicting configuration are refused,
    /// the books' own bank authority included.
    pub fn configure_payment_arrangement(
        &mut self,
        book: &AccountBook,
        unit: SettlementUnit,
        processor: [u8; 32],
        authority: [u8; 32],
    ) -> (result: Result<(), EngineError>)
        ensures
            ({
                let arrangement = PaymentArrangement { unit, processor, authority };
                let conflict = zero_32(processor) || zero_32(authority) || (old(
                    self)@.arrangement matches Some(held) && held != arrangement) || (
                book@.bank_key matches Some(key) && key != authority);
                if conflict {
                    result == Err::<(), EngineError>(EngineError::Billing(BillingError::Conflict))
                        && final(self)@ == old(self)@
                } else {
                    result is Ok && final(self)@ == (DeskModel {
                        arrangement: Some(arrangement),
                        ..old(self)@
                    })
                }
            }),
    {
        if is_zero_32(&processor) || is_zero_32(&authority) {
            return Err(EngineError::Billing(BillingError::Conflict));
        }
        match &self.arrangement {
            Some(held) => {
                if held.unit != unit || !same_32(&held.processor, &processor) || !same_32(
                    &held.authority,
                    &authority,
                ) {
                    return Err(EngineError::Billing(BillingError::Conflict));
                }
            },
            None => {},
        }
        match &book.bank_key {
            Some(key) => {
                if !same_32(key, &authority) {
                    return Err(EngineError::Billing(BillingError::Conflict));
                }
            },
            None => {},
        }
        self.arrangement = Some(PaymentArrangement { unit, processor, authority });
        Ok(())
    }

    /// Publishes an offer. Changed content for an already published offer version is refused.
    pub fn publish_service_offer(&mut self, offer: &ServiceOffer) -> (result: Result<
        (),
        EngineError,
    >)
        ensures
            ({
                let version = offer.version.0 as u128;
                if old(self)@.offers.contains_key(version) && old(self)@.offers[version] != *offer {
                    result == Err::<(), EngineError>(EngineError::Billing(BillingError::Conflict))
                        && final(self)@ == old(self)@
                } else {
                    result is Ok && final(self)@ == (DeskModel {
                        offers: old(self)@.offers.insert(version, *offer),
                        ..old(self)@
                    })
                }
            }),
    {
        let version: u128 = offer.version().0 as u128;
        match lookup(&self.offers, version) {
            Some(held) => {
                if *held != *offer {
                    return Err(EngineError::Billing(BillingError::Conflict));
                }
            },
            None => {},
        }
        put(&mut self.offers, version, *offer);
        Ok(())
    }
}

/// The books and the desk.
pub ghost struct DeskedModel {
    pub book: BookModel,
    pub desk: DeskModel,
}

/// Every billing account and every funding source can have come about.
pub open spec fn book_sound(book: BookModel) -> bool {
    &&& forall|id: u128| #[trigger]
        book.billing_accounts.contains_key(id) ==> book.billing_accounts[id].sound()
            && book.billing_accounts[id].bank.account.0 == id
    &&& sources_sound(book.funding_sources)
}

impl DeskedModel {
    /// Why nothing can be decided for a billing account, if so.
    pub open spec fn context_fault(self, scope: BillingScope) -> Option<EngineError> {
        let (account, offer) = (scope.account, scope.offer);
        let owner = owner_of(self.book.product_accounts, account);
        if !self.book.billing_accounts.contains_key(account.0) || owner is None
            || !self.book.managed.contains_key(owner->Some_0) || self.desk.arrangement is None {
            Some(EngineError::Billing(BillingError::MissingRecord))
        } else if self.book.billing_accounts[account.0].bank.unit
            != self.desk.arrangement->Some_0.unit {
            Some(EngineError::Billing(BillingError::Conflict))
        } else if (offer matches Some(version) && !self.desk.offers.contains_key(
            version.0 as u128,
        )) || !self.book.billing_ledgers.contains_key(account.0) {
            Some(EngineError::Billing(BillingError::MissingRecord))
        } else {
            None
        }
    }

    /// What a decision for a billing account may look at.
    pub open spec fn context(
        self,
        scope: BillingScope,
        signer: Result<[u8; 32], SecurityError>,
    ) -> BillingContextModel {
        let account = scope.account;
        let owner = owner_of(self.book.product_accounts, account)->Some_0;
        BillingContextModel {
            account: self.book.billing_accounts[account.0],
            control: self.book.managed[owner].state.control,
            signer,
            processor: self.desk.arrangement->Some_0.processor,
            bank_authority: self.desk.arrangement->Some_0.authority,
            offer: match scope.offer {
                Some(version) => Some(self.desk.offers[version.0 as u128]),
                None => None,
            },
            sources: self.book.funding_sources,
            ledger: self.book.billing_ledgers[account.0],
            prior: match scope.command {
                Some(key) => if self.desk.commands.contains_key((account.0, key.0)) {
                    Some(self.desk.commands[(account.0, key.0)])
                } else {
                    None
                },
                None => None,
            },
        }
    }

    /// Why a decision's writes are refused, if they are: they are to be about a funding source that
    /// the account has, and a receipt or a command is entered once.
    pub open spec fn writes_fault(self, account: BillingAccountId, writes: WritesModel) -> Option<
        EngineError,
    > {
        let held = token_at(self.book.funding_sources, (writes.source->Some_0).token);
        if writes.source is Some && held is None {
            Some(EngineError::Billing(BillingError::MissingRecord))
        } else if writes.source is Some && self.book.funding_sources[held->Some_0].owner
            != account {
            Some(EngineError::VersionConflict)
        } else if (writes.journal matches Some(journal) && self.desk.journal.contains_key(
            (account.0, journal.evidence.event_id.0),
        )) || (writes.command matches Some(entry) && self.desk.commands.contains_key(
            (account.0, entry.0.idempotency_key.0),
        )) {
            Some(EngineError::DuplicateConflict)
        } else {
            None
        }
    }

    /// The books and the desk with a decision's writes, all of them.
    pub open spec fn with_writes(self, account: BillingAccountId, writes: WritesModel) -> Self {
        DeskedModel {
            book: BookModel {
                billing_accounts: match writes.account {
                    Some(next) => self.book.billing_accounts.insert(account.0, next),
                    None => self.book.billing_accounts,
                },
                funding_sources: match writes.source {
                    Some(source) => with_entry(self.book.funding_sources, source),
                    None => self.book.funding_sources,
                },
                billing_ledgers: match writes.ledger {
                    Some(ledger) => self.book.billing_ledgers.insert(account.0, ledger),
                    None => self.book.billing_ledgers,
                },
                ..self.book
            },
            desk: DeskModel {
                journal: match writes.journal {
                    Some(journal) => self.desk.journal.insert(
                        (account.0, journal.evidence.event_id.0),
                        journal,
                    ),
                    None => self.desk.journal,
                },
                collections: match writes.work {
                    Some(work) => self.desk.collections.insert(work.operation.0, work),
                    None => self.desk.collections,
                },
                commands: match writes.command {
                    Some(entry) => self.desk.commands.insert(
                        (account.0, entry.0.idempotency_key.0),
                        entry,
                    ),
                    None => self.desk.commands,
                },
                ..self.desk
            },
        }
    }

    /// The books and the desk after a decision's writes, or why they are refused.
    pub open spec fn written(self, account: BillingAccountId, writes: WritesModel) -> Result<
        Self,
        EngineError,
    > {
        match self.writes_fault(account, writes) {
            Some(e) => Err(e),
            None => Ok(self.with_writes(account, writes)),
        }
    }

    /// What a decision is answered, and the books and the desk after it. A decision that is
    /// refused, or whose writes are, leaves them as they are, and so does one without writes.
    pub open spec fn settled<T>(
        self,
        account: BillingAccountId,
        decision: Result<BillingDecision<T>, EngineError>,
    ) -> (Result<T, EngineError>, Self) {
        match decision {
            Err(e) => (Err(e), self),
            Ok(decided) => match decided.written() {
                None => (Ok(decided.answer()), self),
                Some(writes) => match self.written(account, writes) {
                    Err(e) => (Err(e), self),
                    Ok(next) => (Ok(decided.answer()), next),
                },
            },
        }
    }
}

/// Loads what a decision for a billing account may look at.
fn load<'a>(
    book: &'a AccountBook,
    desk: &'a BillingDesk,
    scope: BillingScope,
    signer: Result<[u8; 32], SecurityError>,
) -> (result: Result<BillingContext<'a>, EngineError>)
    ensures
        ({
            let all = DeskedModel { book: book@, desk: desk@ };
            match all.context_fault(scope) {
                Some(e) => result == Err::<BillingContext<'a>, EngineError>(e),
                None => result matches Ok(context) && context@ == all.context(scope, signer),
            }
        }),
{
    let account = scope.account;
    let held = match lookup(&book.billing_accounts, account.0) {
        Some(held) => held,
        None => return Err(EngineError::Billing(BillingError::MissingRecord)),
    };
    assert(book@.billing_accounts[account.0] == held@);
    let owner: u128 = match find_owner(&book.product_accounts, account) {
        Some(owner) => owner,
        None => return Err(EngineError::Billing(BillingError::MissingRecord)),
    };
    let managed = match lookup(&book.managed, owner) {
        Some(managed) => managed,
        None => return Err(EngineError::Billing(BillingError::MissingRecord)),
    };
    assert(book@.managed[owner] == managed@);
    let arrangement = match &desk.arrangement {
        Some(arrangement) => arrangement,
        None => return Err(EngineError::Billing(BillingError::MissingRecord)),
    };
    if held.unit() != arrangement.unit {
        return Err(EngineError::Billing(BillingError::Conflict));
    }
    let offered = match scope.offer {
        Some(version) => match lookup(&desk.offers, version.0 as u128) {
            Some(found) => Some(*found),
            None => return Err(EngineError::Billing(BillingError::MissingRecord)),
        },
        None => None,
    };
    let ledger = match lookup(&book.billing_ledgers, account.0) {
        Some(ledger) => ledger,
        None => return Err(EngineError::Billing(BillingError::MissingRecord)),
    };
    assert(book@.billing_ledgers[account.0] == ledger@);
    let prior = match scope.command {
        Some(command) => {
            let key = (account.0, command.0);
            let found = lookup_pair(&desk.commands, key);
            assert(match found {
                Some(entry) => desk@.commands[key] == (entry.0, entry.1@),
                None => true,
            });
            found
        },
        None => None,
    };
    Ok(
        BillingContext {
            account: held,
            control: &managed.state.control,
            signer,
            processor: arrangement.processor,
            bank_authority: arrangement.authority,
            offer: offered,
            sources: &book.funding_sources,
            ledger,
            prior,
        },
    )
}

/// Writes what was decided for a billing account, all of it or nothing.
fn write(
    book: &mut AccountBook,
    desk: &mut BillingDesk,
    account: BillingAccountId,
    writes: BillingWrites,
) -> (result: Result<(), EngineError>)
    ensures
        match (DeskedModel { book: old(book)@, desk: old(desk)@ }).written(account, writes@) {
            Err(e) => result == Err::<(), EngineError>(e) && final(book)@ == old(book)@
                && final(desk)@ == old(desk)@,
            Ok(next) => result is Ok && final(book)@ == next.book && final(desk)@ == next.desk,
        },
{
    let ghost (shelf, counter) = (book@, desk@);
    match &writes.source {
        Some(source) => match find_token(&book.funding_sources, &source.token) {
            Some(i) => {
                assert(shelf.funding_sources[i as int] == book.funding_sources@[i as int]@);
                if book.funding_sources[i].owner != account {
                    return Err(EngineError::VersionConflict);
                }
            },
            None => return Err(EngineError::Billing(BillingError::MissingRecord)),
        },
        None => {},
    }
    match &writes.journal {
        Some(journal) => {
            if holds_pair(&desk.journal, (account.0, journal.receipt.evidence.event_id.0)) {
                return Err(EngineError::DuplicateConflict);
            }
        },
        None => {},
    }
    match &writes.command {
        Some(entry) => {
            if holds_pair(&desk.commands, (account.0, entry.0.idempotency_key.0)) {
                return Err(EngineError::DuplicateConflict);
            }
        },
        None => {},
    }
    match writes.account {
        Some(next) => {
            put(&mut book.billing_accounts, account.0, next);
            assert(book@.billing_accounts =~= shelf.billing_accounts.insert(account.0, next@));
        },
        None => {},
    }
    match writes.source {
        Some(source) => put_entry(&mut book.funding_sources, source),
        None => {},
    }
    match writes.ledger {
        Some(ledger) => {
            put(&mut book.billing_ledgers, account.0, ledger);
            assert(book@.billing_ledgers =~= shelf.billing_ledgers.insert(account.0, ledger@));
        },
        None => {},
    }
    match writes.journal {
        Some(journal) => {
            let entry = (account.0, journal.receipt.evidence.event_id.0);
            put_pair(&mut desk.journal, entry, journal);
            assert(desk@.journal =~= counter.journal.insert(entry, journal@));
        },
        None => {},
    }
    match writes.work {
        Some(work) => put(&mut desk.collections, work.operation.0, work),
        None => {},
    }
    match writes.command {
        Some(entry) => {
            let key = (account.0, entry.0.idempotency_key.0);
            put_pair(&mut desk.commands, key, entry);
            assert(desk@.commands =~= counter.commands.insert(key, (entry.0, entry.1@)));
        },
        None => {},
    }
    Ok(())
}

/// Sound writes keep the books sound.
proof fn lemma_written_sound(all: DeskedModel, account: BillingAccountId, writes: WritesModel)
    requires
        book_sound(all.book),
        all.book.billing_accounts.contains_key(account.0),
        writes_sound(Some(writes), all.book.billing_accounts[account.0]),
        all.written(account, writes) is Ok,
    ensures
        book_sound(all.written(account, writes)->Ok_0.book),
{
    let after = all.written(account, writes)->Ok_0.book;
    match writes.source {
        Some(entry) => {
            super::book::lemma_token(all.book.funding_sources, entry.token, 0);
            assert forall|i: int| 0 <= i < after.funding_sources.len() implies (
            #[trigger] after.funding_sources[i]).source.sound() by {
                if after.funding_sources[i] != entry {
                    assert(after.funding_sources[i] == all.book.funding_sources[i]);
                }
            }
        },
        None => {},
    }
    assert forall|id: u128| #[trigger] after.billing_accounts.contains_key(id) implies
        after.billing_accounts[id].sound() && after.billing_accounts[id].bank.account.0 == id by {
        assert(all.book.billing_accounts.contains_key(id));
    }
}

/// What a command is about.
pub open spec fn command_scope(signed: SignedBillingCommand) -> BillingScope {
    BillingScope {
        account: signed.account,
        command: Some(signed.idempotency_key),
        offer: match signed.command {
            BillingCommand::PurchaseService { offer } => Some(offer),
            _ => None,
        },
    }
}

/// What is about an account alone.
pub open spec fn account_scope(account: BillingAccountId) -> BillingScope {
    BillingScope { account, command: None, offer: None }
}

/// Carries out what was decided for a billing account: all of its writes together, or nothing.
fn settle<T>(
    book: &mut AccountBook,
    desk: &mut BillingDesk,
    account: BillingAccountId,
    decision: Result<BillingDecision<T>, EngineError>,
) -> (result: Result<T, EngineError>)
    requires
        old(book)@.billing_accounts.contains_key(account.0),
    ensures
        (result, DeskedModel { book: final(book)@, desk: final(desk)@ }) == (DeskedModel {
            book: old(book)@,
            desk: old(desk)@,
        }).settled(account, decision),
        book_sound(old(book)@) && (decision matches Ok(decided) ==> writes_sound(
            decided.written(),
            old(book)@.billing_accounts[account.0],
        )) ==> book_sound(final(book)@),
{
    let ghost all = DeskedModel { book: book@, desk: desk@ };
    let (outcome, writes) = match decision {
        Ok(decided) => decided.into_parts(),
        Err(e) => return Err(e),
    };
    match writes {
        Some(writes) => {
            let ghost made = writes@;
            match write(book, desk, account, writes) {
                Ok(()) => {},
                Err(e) => return Err(e),
            }
            proof {
                if book_sound(all.book) && writes_sound(
                    Some(made),
                    all.book.billing_accounts[account.0],
                ) {
                    lemma_written_sound(all, account, made);
                }
            }
        },
        None => {},
    }
    Ok(outcome)
}

/// One billing transaction: loads what a decision may look at, has it made once, and carries it out
/// whole. Nothing is decided where a record is missing, and nothing changes unless all is written.
pub fn billing<T, F: FnOnce(BillingContext<'_>) -> Result<BillingDecision<T>, EngineError>>(
    book: &mut AccountBook,
    desk: &mut BillingDesk,
    scope: BillingScope,
    signer: Result<[u8; 32], SecurityError>,
    decide: F,
) -> (result: Result<T, EngineError>)
    requires
        forall|context: BillingContext<'_>|
            context@ == (DeskedModel { book: old(book)@, desk: old(desk)@ }).context(scope, signer)
                ==> call_requires(decide, (context,)),
    ensures
        ({
            let before = DeskedModel { book: old(book)@, desk: old(desk)@ };
            let after = DeskedModel { book: final(book)@, desk: final(desk)@ };
            match before.context_fault(scope) {
                Some(e) => result == Err::<T, EngineError>(e) && after == before,
                None => exists|
                    context: BillingContext<'_>,
                    decision: Result<BillingDecision<T>, EngineError>,
                | #[trigger]
                    call_ensures(decide, (context,), decision) && context@ == before.context(
                        scope,
                        signer,
                    ) && (result, after) == before.settled(scope.account, decision),
            }
        }),
{
    let context = match load(book, desk, scope, signer) {
        Ok(context) => context,
        Err(e) => return Err(e),
    };
    let decision = decide(context);
    settle(book, desk, scope.account, decision)
}

impl DeskedModel {
    /// What a billing command is answered, and the books and the desk after it; or why it is
    /// refused.
    pub open spec fn commanded(
        self,
        signed: SignedBillingCommand,
        signer: Result<[u8; 32], SecurityError>,
        at: CanonicalTime,
    ) -> Result<(Seq<PaymentOperation>, Self), EngineError> {
        let scope = command_scope(signed);
        match self.context_fault(scope) {
            Some(e) => Err(e),
            None => match self.context(scope, signer).commanded(signed, at) {
                Err(e) => Err(e),
                Ok((outcome, None)) => Ok((outcome, self)),
                Ok((outcome, Some(writes))) => match self.written(signed.account, writes) {
                    Err(e) => Err(e),
                    Ok(next) => Ok((outcome, next)),
                },
            },
        }
    }

    /// The collection that is authorized for dispatch, and the books and the desk after that.
    pub open spec fn dispatched(
        self,
        account: BillingAccountId,
        contract: ServiceContractId,
        operation: PaymentOperationId,
        at: CanonicalTime,
    ) -> Result<(Option<PaymentOperation>, Self), EngineError> {
        match self.context_fault(account_scope(account)) {
            Some(e) => Err(e),
            None => match self.context(
                account_scope(account),
                Err(SecurityError::KeyRefused),
            ).dispatched(contract, operation, at) {
                Err(e) => Err(e),
                Ok((outcome, source)) => match self.written(
                    account,
                    WritesModel { source, ..no_writes() },
                ) {
                    Err(e) => Err(e),
                    Ok(next) => Ok((outcome, next)),
                },
            },
        }
    }

    /// The books and the desk after a receipt.
    pub open spec fn confirmed(
        self,
        account: BillingAccountId,
        contract: ServiceContractId,
        receipt: SignedPaymentEvidence,
        at: CanonicalTime,
    ) -> Result<Self, EngineError> {
        match self.context_fault(account_scope(account)) {
            Some(e) => Err(e),
            None => match self.context(
                account_scope(account),
                Err(SecurityError::KeyRefused),
            ).confirmed(contract, receipt, at) {
                Err(e) => Err(e),
                Ok(writes) => self.written(account, writes),
            },
        }
    }

    /// The books and the desk after a bank was verified anew.
    pub open spec fn reverified(self, evidence: BankVerification) -> Result<Self, EngineError> {
        match self.context_fault(account_scope(evidence.account)) {
            Some(e) => Err(e),
            None => match self.context(
                account_scope(evidence.account),
                Err(SecurityError::KeyRefused),
            ).reverified(evidence) {
                Err(e) => Err(e),
                Ok(source) => self.written(
                    evidence.account,
                    WritesModel { source: Some(source), ..no_writes() },
                ),
            },
        }
    }
}

/// Carries out a billing command, with all that it changes, or refuses and changes nothing. An
/// exact retry is answered as before.
pub fn execute_command(
    book: &mut AccountBook,
    desk: &mut BillingDesk,
    signed: SignedBillingCommand,
    signer: Result<[u8; 32], SecurityError>,
    at: CanonicalTime,
) -> (result: Result<Vec<PaymentOperation>, EngineError>)
    requires
        book_sound(old(book)@),
    ensures
        book_sound(final(book)@),
        match (DeskedModel { book: old(book)@, desk: old(desk)@ }).commanded(signed, signer, at) {
            Err(e) => result == Err::<Vec<PaymentOperation>, EngineError>(e) && final(book)@
                == old(book)@ && final(desk)@ == old(desk)@,
            Ok((outcome, next)) => result matches Ok(operations) && operations@ == outcome
                && final(book)@ == next.book && final(desk)@ == next.desk,
        },
{
    let ghost all = DeskedModel { book: book@, desk: desk@ };
    let account = signed.account;
    let scope = BillingScope {
        account,
        command: Some(signed.idempotency_key),
        offer: match signed.command {
            BillingCommand::PurchaseService { offer } => Some(offer),
            _ => None,
        },
    };
    let context = match load(book, desk, scope, signer) {
        Ok(context) => context,
        Err(e) => return Err(e),
    };
    let decision = context.execute_command(signed, at);
    settle(book, desk, account, decision)
}

/// Authorizes a collection for dispatch, if it still stands.
pub fn authorize_dispatch(
    book: &mut AccountBook,
    desk: &mut BillingDesk,
    account: BillingAccountId,
    contract: ServiceContractId,
    operation: PaymentOperationId,
    at: CanonicalTime,
) -> (result: Result<Option<PaymentOperation>, EngineError>)
    requires
        book_sound(old(book)@),
    ensures
        book_sound(final(book)@),
        match (DeskedModel { book: old(book)@, desk: old(desk)@ }).dispatched(
            account,
            contract,
            operation,
            at,
        ) {
            Err(e) => result == Err::<Option<PaymentOperation>, EngineError>(e) && final(book)@
                == old(book)@ && final(desk)@ == old(desk)@,
            Ok((outcome, next)) => result == Ok::<Option<PaymentOperation>, EngineError>(outcome)
                && final(book)@ == next.book && final(desk)@ == next.desk,
        },
{
    let ghost all = DeskedModel { book: book@, desk: desk@ };
    let context = match load(
        book,
        desk,
        BillingScope { account, command: None, offer: None },
        Err(SecurityError::KeyRefused),
    ) {
        Ok(context) => context,
        Err(e) => return Err(e),
    };
    let decision = context.authorize_dispatch(contract, operation, at);
    settle(book, desk, account, decision)
}

/// Takes a receipt in, with all that it posts, or refuses it and changes nothing.
pub fn confirm_payment(
    book: &mut AccountBook,
    desk: &mut BillingDesk,
    account: BillingAccountId,
    contract: ServiceContractId,
    receipt: &SignedPaymentEvidence,
    at: CanonicalTime,
) -> (result: Result<(), EngineError>)
    requires
        book_sound(old(book)@),
    ensures
        book_sound(final(book)@),
        match (DeskedModel { book: old(book)@, desk: old(desk)@ }).confirmed(
            account,
            contract,
            *receipt,
            at,
        ) {
            Err(e) => result == Err::<(), EngineError>(e) && final(book)@ == old(book)@
                && final(desk)@ == old(desk)@,
            Ok(next) => result is Ok && final(book)@ == next.book && final(desk)@ == next.desk,
        },
{
    let ghost all = DeskedModel { book: book@, desk: desk@ };
    let context = match load(
        book,
        desk,
        BillingScope { account, command: None, offer: None },
        Err(SecurityError::KeyRefused),
    ) {
        Ok(context) => context,
        Err(e) => return Err(e),
    };
    let decision = context.confirm_payment(contract, receipt, at);
    settle(book, desk, account, decision)
}

/// Lifts a restriction on fresh evidence of the same association.
pub fn reverify_funding(
    book: &mut AccountBook,
    desk: &mut BillingDesk,
    evidence: &BankVerification,
) -> (result: Result<(), EngineError>)
    requires
        book_sound(old(book)@),
    ensures
        book_sound(final(book)@),
        match (DeskedModel { book: old(book)@, desk: old(desk)@ }).reverified(*evidence) {
            Err(e) => result == Err::<(), EngineError>(e) && final(book)@ == old(book)@
                && final(desk)@ == old(desk)@,
            Ok(next) => result is Ok && final(book)@ == next.book && final(desk)@ == next.desk,
        },
{
    let ghost all = DeskedModel { book: book@, desk: desk@ };
    let account = evidence.account;
    let context = match load(
        book,
        desk,
        BillingScope { account, command: None, offer: None },
        Err(SecurityError::KeyRefused),
    ) {
        Ok(context) => context,
        Err(e) => return Err(e),
    };
    let decision = context.reverify_funding(evidence);
    settle(book, desk, account, decision)
}

/// An exact retry of a command, under the same authority, is answered as before and changes
/// nothing.
pub proof fn billing_retries_are_answered_as_before(
    all: DeskedModel,
    signed: SignedBillingCommand,
    signer: Result<[u8; 32], SecurityError>,
    at: CanonicalTime,
    later: CanonicalTime,
)
    requires
        all.commanded(signed, signer, at) is Ok,
        signed.command != BillingCommand::Inspect,
    ensures
        ({
            let (outcome, next) = all.commanded(signed, signer, at)->Ok_0;
            next.commanded(signed, signer, later) == Ok::<
                (Seq<PaymentOperation>, DeskedModel),
                EngineError,
            >((outcome, next))
        }),
{
}

/// A source that took a receipt in takes it in again, and is left as it was.
proof fn lemma_source_again(source: FundingModel, receipt: SignedPaymentEvidence, key: [u8; 32])
    requires
        source.recorded(receipt, key) is Ok,
    ensures
        source.recorded(receipt, key)->Ok_0.recorded(receipt, key) == source.recorded(receipt, key),
{
    let id = receipt.evidence.operation_id.0;
    let next = source.recorded(receipt, key)->Ok_0;
    crate::finance::execution::receipts_are_idempotent(source.attempts[id], receipt, key);
    assert(next.attempts.insert(id, next.attempts[id]) =~= next.attempts);
}

proof fn lemma_entry_found(entries: Seq<EntryModel>, entry: EntryModel, from: int)
    requires
        0 <= from,
        token_from(entries, entry.token, from) is Some,
    ensures
        ({
            let i = token_from(entries, entry.token, from)->Some_0;
            &&& from <= i < entries.len()
            &&& token_from(entries.update(i, entry), entry.token, from) == Some(i)
        }),
    decreases entries.len() - from,
{
    if from < entries.len() && entries[from].token != entry.token {
        lemma_entry_found(entries, entry, from + 1);
    }
}

/// A receipt counts once: it is taken in again, changes nothing, and posts nothing.
pub proof fn receipts_post_once(
    all: DeskedModel,
    account: BillingAccountId,
    contract: ServiceContractId,
    receipt: SignedPaymentEvidence,
    at: CanonicalTime,
    later: CanonicalTime,
)
    requires
        at.0 <= later.0,
        all.confirmed(account, contract, receipt, at) is Ok,
    ensures
        ({
            let next = all.confirmed(account, contract, receipt, at)->Ok_0;
            next.confirmed(account, contract, receipt, later) == Ok::<DeskedModel, EngineError>(
                next,
            )
        }),
{
    let before = all.book.billing_accounts[account.0];
    let held = before.contracts[contract.0];
    let key = held.processor_key;
    crate::billing::account::collections_count_once(before, contract, receipt, at, later);
    let next = all.confirmed(account, contract, receipt, at)->Ok_0;
    let after = next.book.billing_accounts[account.0];
    let id = receipt.evidence.operation_id;
    crate::finance::execution::attempts_are_kept(held.collection, receipt, key, id, id);
    crate::finance::execution::lemma_recorded_operations(held.collection, receipt, key);
    let k = held.collection.find(id)->Some_0;
    crate::finance::execution::lemma_find(held.collection, id);
    let token = held.collection.attempts[k].operation.destination;
    let i = token_at(all.book.funding_sources, token)->Some_0;
    let source = all.book.funding_sources[i].source;
    lemma_token(all.book.funding_sources, token, 0);
    lemma_source_again(source, receipt, key);
    let entry = EntryModel {
        source: source.recorded(receipt, key)->Ok_0,
        ..all.book.funding_sources[i]
    };
    lemma_entry_found(all.book.funding_sources, entry, 0);
    assert(next.book.funding_sources == all.book.funding_sources.update(i, entry));
    assert(next.book.funding_sources.update(i, entry) =~= next.book.funding_sources);
    assert(next.book.billing_accounts.insert(account.0, after) =~= next.book.billing_accounts);
    assert(after.contracts[contract.0].processor_key == key);
    assert(after.contracts[contract.0].collection.find(id) == Some(k));
    assert(after.contracts[contract.0].collection.attempts[k].operation.destination == token);
}

/// Billing transactions are whole: whatever was decided, an answer that is an error leaves books and
/// desk as they were, and so does a decision without writes; any other answer comes with all that
/// was decided, stored together.
pub proof fn transactions_are_whole<T>(
    all: DeskedModel,
    account: BillingAccountId,
    decision: Result<BillingDecision<T>, EngineError>,
)
    ensures
        ({
            let (answer, after) = all.settled(account, decision);
            &&& answer is Err ==> after == all
            &&& decision matches Err(e) ==> answer == Err::<T, EngineError>(e)
            &&& decision matches Ok(decided) ==> match decided.written() {
                None => answer == Ok::<T, EngineError>(decided.answer()) && after == all,
                Some(writes) => match all.writes_fault(account, writes) {
                    Some(e) => answer == Err::<T, EngineError>(e),
                    None => {
                        &&& answer == Ok::<T, EngineError>(decided.answer())
                        &&& after == all.with_writes(account, writes)
                        &&& writes.account matches Some(next) ==> after.book.billing_accounts
                            == all.book.billing_accounts.insert(account.0, next)
                        &&& writes.source matches Some(entry) ==> token_at(
                            after.book.funding_sources,
                            entry.token,
                        ) matches Some(i) && after.book.funding_sources[i] == entry
                        &&& writes.ledger matches Some(ledger) ==> after.book.billing_ledgers
                            == all.book.billing_ledgers.insert(account.0, ledger)
                        &&& writes.journal matches Some(journal) ==> after.desk.journal
                            == all.desk.journal.insert(
                            (account.0, journal.evidence.event_id.0),
                            journal,
                        )
                        &&& writes.work matches Some(work) ==> after.desk.collections
                            == all.desk.collections.insert(work.operation.0, work)
                        &&& writes.command matches Some(entry) ==> after.desk.commands
                            == all.desk.commands.insert(
                            (account.0, entry.0.idempotency_key.0),
                            entry,
                        )
                    },
                },
            }
        }),
{
    if let Ok(decided) = decision {
        if let Some(writes) = decided.written() {
            if writes.source is Some && all.writes_fault(account, writes) is None {
                lemma_entry_found(all.book.funding_sources, writes.source->Some_0, 0);
            }
        }
    }
}

} // verus!
