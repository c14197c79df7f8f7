//! The books of accounts: who enrolled, who owns which key, persona and bank, and what was done.

use super::confirmations::{file, find, named, place, Confirmation, Operation, OperationState};
use super::desk::book_sound;
use super::enrollment::{
    activation_fault, begin, commit, parse_number, parsed, reservation_check, ActivationContext,
    ActivationFacts, EnrollmentRecords, PendingEnrollment, ReservationContext, SignedDecision,
};
use super::errors::{ContractError, EngineError};
use super::operations::{
    command_keys, entered, event_keys,
    added_persona, apply_identity_change, command_outcome, event_outcome, execute_command, key_of,
    rebound_source, recovered_claim, registered_claim, AccountEffectRecords, AccountState,
    BankChangeContext, BankChangeModel, CommandContext, EventFacts, IdentityChange, KeyFacts,
    SecurityContext, SignedSecurityEvent, StateModel,
};
use crate::accounts::account::{Account, EnrollmentInput};
use crate::accounts::control::{AccountControl, ControlModel, SignedAccountCommand};
use crate::accounts::keys::KeyClaim;
use crate::billing::account::{BillingAccount, BillingModel};
use crate::billing::offer::BillingError;
use crate::bytes::{same_32, utf8};
use crate::finance::bank::BankVerification;
use crate::finance::funding::{FundingModel, FundingSource};
use crate::finance::scope::FinancialScope;
use crate::ledger::{LedgerModel, LedgerView};
use crate::maps::{holds, is_member, keys_of, lookup, put, take};
use crate::primitives::amounts::CanonicalTime;
use crate::primitives::ids::{AccountId, BillingAccountId, OperationalKeyRef, ProtocolIdentity};
use crate::protocol::SecurityError;
use std::collections::BTreeMap;
use vstd::prelude::*;

verus! {

/// An account under management, with the commands and events that it has seen.
pub struct ManagedAccount {
    pub state: AccountState,
    pub version: u64,
    pub events: BTreeMap<u128, SignedSecurityEvent>,
    pub commands: BTreeMap<u128, (SignedAccountCommand, AccountControl)>,
}

pub ghost struct ManagedModel {
    pub state: StateModel,
    pub version: u64,
    pub events: Map<u128, SignedSecurityEvent>,
    pub commands: Map<u128, (SignedAccountCommand, ControlModel)>,
}

pub open spec fn command_models(
    commands: Map<u128, (SignedAccountCommand, AccountControl)>,
) -> Map<u128, (SignedAccountCommand, ControlModel)> {
    commands.map_values(|entry: (SignedAccountCommand, AccountControl)| (entry.0, entry.1@))
}

impl View for ManagedAccount {
    type V = ManagedModel;

    open spec fn view(&self) -> ManagedModel {
        ManagedModel {
            state: self.state@,
            version: self.version,
            events: self.events@,
            commands: command_models(self.commands@),
        }
    }
}

/// A product account, with the limit that its funding has.
pub struct ProductAccount {
    pub account: Account,
    pub maximum_unresolved: u32,
}

/// A funding source and whose it is.
pub struct FundingEntry {
    pub token: [u8; 32],
    pub owner: BillingAccountId,
    pub source: FundingSource,
}

pub ghost struct EntryModel {
    pub token: [u8; 32],
    pub owner: BillingAccountId,
    pub source: FundingModel,
}

impl View for FundingEntry {
    type V = EntryModel;

    open spec fn view(&self) -> EntryModel {
        EntryModel { token: self.token, owner: self.owner, source: self.source@ }
    }
}

pub open spec fn funding_models(entries: Seq<FundingEntry>) -> Seq<EntryModel> {
    Seq::new(entries.len(), |i: int| entries[i]@)
}

/// The first entry of a bank token, from one on.
pub open spec fn token_from(entries: Seq<EntryModel>, token: [u8; 32], i: int) -> Option<int>
    decreases entries.len() - i,
{
    if i >= entries.len() {
        None
    } else if entries[i].token == token {
        Some(i)
    } else {
        token_from(entries, token, i + 1)
    }
}

/// The entry of a bank token.
pub open spec fn token_at(entries: Seq<EntryModel>, token: [u8; 32]) -> Option<int> {
    token_from(entries, token, 0)
}

pub proof fn lemma_token(entries: Seq<EntryModel>, token: [u8; 32], from: int)
    requires
        0 <= from,
    ensures
        match token_from(entries, token, from) {
            Some(i) => from <= i < entries.len() && entries[i].token == token,
            None => forall|i: int|
                from <= i < entries.len() ==> (#[trigger] entries[i]).token != token,
        },
    decreases entries.len() - from,
{
    if from < entries.len() {
        lemma_token(entries, token, from + 1);
    }
}

/// The entries with one under its token, in place of an earlier one.
pub open spec fn with_entry(entries: Seq<EntryModel>, entry: EntryModel) -> Seq<EntryModel> {
    match token_at(entries, entry.token) {
        Some(i) => entries.update(i, entry),
        None => entries.push(entry),
    }
}

/// Finds the entry of a bank token.
pub fn find_token(entries: &Vec<FundingEntry>, token: &[u8; 32]) -> (index: Option<usize>)
    ensures
        match index {
            Some(i) => token_at(funding_models(entries@), *token) == Some(i as int) && i
                < entries@.len() && entries@[i as int].token == *token,
            None => token_at(funding_models(entries@), *token) is None,
        },
{
    let mut i: usize = 0;
    while i < entries.len()
        invariant
            0 <= i <= entries@.len(),
            token_at(funding_models(entries@), *token) == token_from(
                funding_models(entries@),
                *token,
                i as int,
            ),
        decreases entries@.len() - i,
    {
        assert(funding_models(entries@)[i as int] == entries@[i as int]@);
        if same_32(&entries[i].token, token) {
            return Some(i);
        }
        i += 1;
    }
    None
}

/// Puts an entry under its token, in place of an earlier one.
pub fn put_entry(entries: &mut Vec<FundingEntry>, entry: FundingEntry)
    ensures
        funding_models(final(entries)@) == with_entry(funding_models(old(entries)@), entry@),
{
    let ghost before = entries@;
    match find_token(entries, &entry.token) {
        Some(i) => {
            entries.set(i, entry);
            assert(funding_models(entries@) =~= funding_models(before).update(i as int, entry@));
        },
        None => {
            entries.push(entry);
            assert(funding_models(entries@) =~= funding_models(before).push(entry@));
        },
    }
}

/// The books: enrollment operations, key claims, managed accounts, and what the accounts hold.
pub struct AccountBook {
    pub scope: FinancialScope,
    pub bank_key: Option<[u8; 32]>,
    pub operations: Vec<Operation>,
    pub keys: BTreeMap<u128, KeyClaim>,
    pub managed: BTreeMap<u128, ManagedAccount>,
    pub product_accounts: BTreeMap<u128, ProductAccount>,
    pub billing_accounts: BTreeMap<u128, BillingAccount>,
    pub funding_sources: Vec<FundingEntry>,
    pub billing_ledgers: BTreeMap<u128, LedgerView>,
}

pub ghost struct BookModel {
    pub scope: FinancialScope,
    pub bank_key: Option<[u8; 32]>,
    pub operations: Seq<Operation>,
    pub keys: Map<u128, KeyClaim>,
    pub managed: Map<u128, ManagedModel>,
    pub product_accounts: Map<u128, ProductAccount>,
    pub billing_accounts: Map<u128, BillingModel>,
    pub funding_sources: Seq<EntryModel>,
    pub billing_ledgers: Map<u128, LedgerModel>,
}

impl View for AccountBook {
    type V = BookModel;

    open spec fn view(&self) -> BookModel {
        BookModel {
            scope: self.scope,
            bank_key: self.bank_key,
            operations: self.operations@,
            keys: self.keys@,
            managed: self.managed@.map_values(|account: ManagedAccount| account@),
            product_accounts: self.product_accounts@,
            billing_accounts: self.billing_accounts@.map_values(|account: BillingAccount| account@),
            funding_sources: funding_models(self.funding_sources@),
            billing_ledgers: self.billing_ledgers@.map_values(|ledger: LedgerView| ledger@),
        }
    }
}

impl BookModel {
    /// Some managed account has a persona, other than the excepted one.
    pub open spec fn persona_managed(self, persona: ProtocolIdentity, except: Option<u128>) -> bool {
        exists|id: u128| #[trigger]
            self.managed.contains_key(id) && Some(id) != except
                && self.managed[id].state.control.personas.contains(persona.0)
    }

    /// What an input asks for is spoken for.
    pub open spec fn spoken_for(self, input: EnrollmentInput) -> bool {
        ||| exists|i: int|
            0 <= i < self.operations.len() && input.conflicts(
                &(#[trigger] self.operations[i]).pending.input,
            )
        ||| self.keys.contains_key(input.key_ref.0)
        ||| self.persona_managed(input.persona, None)
    }

    /// The attempt that there is under an operation's name.
    pub open spec fn prior(self, operation: Seq<char>) -> Option<PendingEnrollment> {
        match named(self.operations, operation) {
            Some(i) => Some(self.operations[i].pending),
            None => None,
        }
    }

    /// Whether a reservation is refused; if it is not, whether it is new.
    pub open spec fn reservation(
        self,
        operation: Seq<char>,
        input: EnrollmentInput,
        fresh: Result<PendingEnrollment, ContractError>,
    ) -> Result<bool, EngineError> {
        match self.bank_key {
            None => Err(EngineError::Contract(ContractError::Unavailable)),
            Some(bank_key) => if input.bank.scope != self.scope {
                Err(EngineError::Contract(ContractError::Context))
            } else {
                match reservation_check(self.prior(operation), bank_key, input) {
                    Err(e) => Err(e),
                    Ok(()) => if self.prior(operation) is Some {
                        Ok(false)
                    } else {
                        match fresh {
                            Err(e) => Err(EngineError::Contract(e)),
                            Ok(_) => if self.spoken_for(input) {
                                Err(EngineError::Contract(ContractError::Conflict))
                            } else {
                                Ok(true)
                            },
                        }
                    },
                }
            },
        }
    }

    /// The books with a new reservation.
    pub open spec fn reserved(
        self,
        operation: Operation,
        claim: KeyClaim,
        key_ref: OperationalKeyRef,
    ) -> Self {
        BookModel {
            keys: self.keys.insert(key_ref.0, claim),
            operations: self.operations.insert(
                place(self.operations, operation.name@),
                operation,
            ),
            ..self
        }
    }

    /// Why an activation is refused, if it is; none also where it was committed before.
    pub open spec fn commitment_fault(self, decision: SignedDecision, facts: ActivationFacts) -> Option<
        EngineError,
    > {
        match named(self.operations, decision.operation@) {
            None => Some(EngineError::Contract(ContractError::Invalid)),
            Some(i) => {
                let operation = self.operations[i];
                let key = operation.pending.input.key_ref.0;
                match self.bank_key {
                    None => Some(EngineError::Contract(ContractError::Unavailable)),
                    Some(bank_key) => if !self.keys.contains_key(key) {
                        Some(EngineError::Contract(ContractError::Invalid))
                    } else {
                        match operation.state {
                            OperationState::Active { decision: before, .. } => if before.alike(
                                &decision,
                            ) {
                                None
                            } else {
                                Some(EngineError::Contract(ContractError::Conflict))
                            },
                            OperationState::AwaitingEvidence => match activation_fault(
                                operation.pending,
                                bank_key,
                                self.keys[key],
                                facts,
                            ) {
                                Some(e) => Some(e),
                                None => if self.taken(operation.pending, facts) {
                                    Some(EngineError::Contract(ContractError::Conflict))
                                } else {
                                    None
                                },
                            },
                        }
                    },
                }
            },
        }
    }

    /// The identity has an account already, or the billing account is there.
    pub open spec fn taken(self, pending: PendingEnrollment, facts: ActivationFacts) -> bool {
        let product = super::enrollment::activated(pending, facts.digests, facts.verified)->Ok_0;
        ||| exists|id: u128| #[trigger]
            self.product_accounts.contains_key(id)
                && self.product_accounts[id].account.binding.alike(&product.binding)
        ||| self.billing_accounts.contains_key(pending.input.bank.account.0)
    }

    /// The books with a newly active account.
    pub open spec fn enrolled(self, i: int, decision: SignedDecision, records: EnrollmentRecords) -> Self {
        let operation = self.operations[i];
        let pending = operation.pending;
        let billing = records.billing@.bank.account;
        BookModel {
            billing_ledgers: self.billing_ledgers.insert(billing.0, records.ledger@),
            funding_sources: with_entry(
                self.funding_sources,
                EntryModel {
                    token: records.source@.token,
                    owner: billing,
                    source: records.source@,
                },
            ),
            billing_accounts: self.billing_accounts.insert(billing.0, records.billing@),
            product_accounts: self.product_accounts.insert(
                pending.account.0,
                ProductAccount {
                    account: records.product,
                    maximum_unresolved: pending.input.maximum_unresolved,
                },
            ),
            keys: self.keys.insert(pending.input.key_ref.0, records.key_claim),
            managed: self.managed.insert(
                pending.account.0,
                ManagedModel {
                    state: StateModel {
                        control: records.control@,
                        registry: records.registry@,
                        product: pending.intent.product@,
                    },
                    version: 1,
                    events: Map::empty(),
                    commands: Map::empty(),
                },
            ),
            operations: self.operations.update(
                i,
                Operation {
                    state: OperationState::Active {
                        decision,
                        confirmation: Confirmation::Pending(records.at),
                    },
                    ..operation
                },
            ),
            ..self
        }
    }
}

impl AccountBook {
    /// Empty books.
    pub fn new(scope: FinancialScope) -> (book: Self)
        ensures
            book@ == (BookModel {
                scope,
                bank_key: None,
                operations: Seq::empty(),
                keys: Map::empty(),
                managed: Map::empty(),
                product_accounts: Map::empty(),
                billing_accounts: Map::empty(),
                funding_sources: Seq::empty(),
                billing_ledgers: Map::empty(),
            }),
            book_sound(book@),
    {
        let book = AccountBook {
            scope,
            bank_key: None,
            operations: Vec::new(),
            keys: BTreeMap::new(),
            managed: BTreeMap::new(),
            product_accounts: BTreeMap::new(),
            billing_accounts: BTreeMap::new(),
            funding_sources: Vec::new(),
            billing_ledgers: BTreeMap::new(),
        };
        assert(book@.managed =~= Map::empty());
        assert(book@.billing_accounts =~= Map::empty());
        assert(book@.billing_ledgers =~= Map::empty());
        assert(book@.funding_sources =~= Seq::empty());
        book
    }

    /// Pins deployment trust once. Reconfiguration is refused.
    pub fn configure(&mut self, bank_key: [u8; 32]) -> (result: Result<(), EngineError>)
        ensures
            if old(self)@.bank_key is Some {
                result == Err::<(), EngineError>(EngineError::Contract(ContractError::Conflict))
                    && *final(self) == *old(self)
            } else {
                result is Ok && final(self)@ == (BookModel {
                    bank_key: Some(bank_key),
                    ..old(self)@
                })
            },
            book_sound(old(self)@) ==> book_sound(final(self)@),
    {
        if self.bank_key.is_some() {
            return Err(EngineError::Contract(ContractError::Conflict));
        }
        self.bank_key = Some(bank_key);
        Ok(())
    }

    fn is_persona_managed(&self, persona: ProtocolIdentity, except: Option<u128>) -> (found: bool)
        ensures
            found == self@.persona_managed(persona, except),
    {
        let ids = keys_of(&self.managed);
        let mut i: usize = 0;
        while i < ids.len()
            invariant
                crate::maps::keys_in_order(ids@, self.managed@),
                0 <= i <= ids@.len(),
                forall|j: int|
                    0 <= j < i ==> !(Some(#[trigger] ids@[j]) != except
                        && self@.managed[ids@[j]].state.control.personas.contains(persona.0)),
            decreases ids@.len() - i,
        {
            assert(self.managed@.contains_key(ids@[i as int]));
            match lookup(&self.managed, ids[i]) {
                Some(account) => {
                    assert(self@.managed[ids@[i as int]] == account@);
                    if Some(ids[i]) != except && is_member(
                        account.state.control.personas(),
                        persona.0,
                    ) {
                        assert(self@.managed.contains_key(ids@[i as int]));
                        return true;
                    }
                },
                None => {},
            }
            i += 1;
        }
        assert forall|id: u128| #[trigger]
            self@.managed.contains_key(id) && Some(id) != except implies !self@.managed[id].state.control.personas.contains(persona.0) by {
            assert(self.managed@.contains_key(id));
            let j = choose|j: int| 0 <= j < ids@.len() && ids@[j] == id;
            assert(ids@[j] == id);
        }
        false
    }

    fn is_spoken_for(&self, input: &EnrollmentInput) -> (found: bool)
        ensures
            found == self@.spoken_for(*input),
    {
        let mut i: usize = 0;
        while i < self.operations.len()
            invariant
                0 <= i <= self.operations@.len(),
                forall|j: int|
                    0 <= j < i ==> !input.conflicts(&(#[trigger] self@.operations[j]).pending.input),
            decreases self.operations@.len() - i,
        {
            if input.conflicts_with(self.operations[i].pending.input()) {
                assert(input.conflicts(&self@.operations[i as int].pending.input));
                return true;
            }
            i += 1;
        }
        holds(&self.keys, input.key_ref.0) || self.is_persona_managed(input.persona, None)
    }

    /// Reserves unique ownership for an enrollment. An exact retry gets the attempt that there is;
    /// `fresh` is the attempt that anything new becomes.
    pub fn reserve(
        &mut self,
        operation: &str,
        input: &EnrollmentInput,
        fresh: Result<PendingEnrollment, ContractError>,
    ) -> (result: Result<PendingEnrollment, EngineError>)
        ensures
            match old(self)@.reservation(operation@, *input, fresh) {
                Err(e) => result == Err::<PendingEnrollment, EngineError>(e) && final(self)@
                    == old(self)@,
                Ok(false) => result matches Ok(pending) && pending.alike(
                    &old(self)@.prior(operation@)->Some_0,
                ) && final(self)@ == old(self)@,
                Ok(true) => result matches Ok(pending) && pending.alike(&fresh->Ok_0)
                    && exists|filed: Operation, claim: KeyClaim|
                    {
                        &&& final(self)@ == #[trigger] old(self)@.reserved(
                            filed,
                            claim,
                            input.key_ref,
                        )
                        &&& filed.name@ == operation@
                        &&& filed.pending == fresh->Ok_0
                        &&& filed.state is AwaitingEvidence
                        &&& filed.generation == 0
                        &&& claim matches KeyClaim::Reserved {
                            enrollment,
                            intended_owner,
                            actor,
                            key,
                        } && enrollment@ == operation@ && intended_owner == fresh->Ok_0.account
                            && actor == input.actor && key == input.initial_key
                    },
            },
            book_sound(old(self)@) ==> book_sound(final(self)@),
    {
        let bank_key = match self.bank_key {
            Some(bank_key) => bank_key,
            None => return Err(EngineError::Contract(ContractError::Unavailable)),
        };
        if !input.bank.scope.same(&self.scope) {
            return Err(EngineError::Contract(ContractError::Context));
        }
        match find(&self.operations, operation) {
            Some(i) => {
                let prior = self.operations[i].pending.clone();
                begin(ReservationContext { prior: Some(prior), bank_key }, input, fresh)
            },
            None => {
                let pending = match begin(
                    ReservationContext { prior: None, bank_key },
                    input,
                    fresh,
                ) {
                    Ok(pending) => pending,
                    Err(e) => return Err(e),
                };
                if self.is_spoken_for(input) {
                    return Err(EngineError::Contract(ContractError::Conflict));
                }
                let claim = KeyClaim::Reserved {
                    enrollment: operation.to_owned(),
                    intended_owner: pending.account(),
                    actor: input.actor,
                    key: input.initial_key,
                };
                let copy = pending.clone();
                let filed = Operation {
                    name: operation.to_owned(),
                    pending,
                    state: OperationState::AwaitingEvidence,
                    generation: 0,
                };
                let ghost (new, made) = (filed, claim);
                put(&mut self.keys, input.key_ref.0, claim);
                file(&mut self.operations, filed);
                assert(self@ == old(self)@.reserved(new, made, input.key_ref));
                Ok(copy)
            },
        }
    }

    /// The attempt under an operation's name. Unknown operations are refused.
    pub fn pending(&self, operation: &str) -> (result: Result<PendingEnrollment, EngineError>)
        ensures
            match self@.prior(operation@) {
                Some(pending) => result matches Ok(found) && found.alike(&pending),
                None => result == Err::<PendingEnrollment, EngineError>(
                    EngineError::Contract(ContractError::Invalid),
                ),
            },
    {
        match find(&self.operations, operation) {
            Some(i) => Ok(self.operations[i].pending.clone()),
            None => Err(EngineError::Contract(ContractError::Invalid)),
        }
    }

    /// Puts a renewed attempt in place of an attempt. Committed attempts are refused; `renewed` is
    /// what renewal makes of the attempt that there is.
    pub fn renewal(
        &mut self,
        operation: &str,
        renewed: Result<PendingEnrollment, ContractError>,
    ) -> (result: Result<PendingEnrollment, EngineError>)
        ensures
            match old(self)@.renewal_fault(operation@, renewed) {
                Some(e) => result == Err::<PendingEnrollment, EngineError>(e) && final(self)@
                    == old(self)@,
                None => {
                    let i = named(old(self)@.operations, operation@)->Some_0;
                    result matches Ok(pending) && pending.alike(&renewed->Ok_0) && final(self)@ == (
                    BookModel {
                        operations: old(self)@.operations.update(
                            i,
                            Operation {
                                pending: renewed->Ok_0,
                                ..old(self)@.operations[i]
                            },
                        ),
                        ..old(self)@
                    })
                },
            },
            book_sound(old(self)@) ==> book_sound(final(self)@),
    {
        let i = match find(&self.operations, operation) {
            Some(i) => i,
            None => return Err(EngineError::Contract(ContractError::Invalid)),
        };
        if !matches!(self.operations[i].state, OperationState::AwaitingEvidence) {
            return Err(EngineError::Contract(ContractError::Conflict));
        }
        let pending = match renewed {
            Ok(pending) => pending,
            Err(e) => return Err(EngineError::Contract(e)),
        };
        let copy = pending.clone();
        let ghost before = self.operations@;
        let old_operation = self.operations.remove(i);
        self.operations.insert(
            i,
            Operation {
                name: old_operation.name,
                pending,
                state: old_operation.state,
                generation: old_operation.generation,
            },
        );
        assert(self.operations@ =~= before.update(
            i as int,
            Operation { pending: renewed->Ok_0, ..before[i as int] },
        ));
        Ok(copy)
    }

    fn is_bound(&self, product: &Account) -> (found: bool)
        ensures
            found == exists|id: u128| #[trigger]
                self@.product_accounts.contains_key(id)
                    && self@.product_accounts[id].account.binding.alike(&product.binding),
    {
        let ids = keys_of(&self.product_accounts);
        let mut i: usize = 0;
        while i < ids.len()
            invariant
                crate::maps::keys_in_order(ids@, self.product_accounts@),
                0 <= i <= ids@.len(),
                forall|j: int|
                    0 <= j < i ==> !self@.product_accounts[#[trigger] ids@[j]].account.binding.alike(
                        &product.binding,
                    ),
            decreases ids@.len() - i,
        {
            assert(self.product_accounts@.contains_key(ids@[i as int]));
            match lookup(&self.product_accounts, ids[i]) {
                Some(held) => {
                    if held.account.binding().same(product.binding()) {
                        assert(self@.product_accounts.contains_key(ids@[i as int]));
                        return true;
                    }
                },
                None => {},
            }
            i += 1;
        }
        assert forall|id: u128| #[trigger]
            self@.product_accounts.contains_key(id) implies !self@.product_accounts[id].account.binding.alike(&product.binding) by {
            let j = choose|j: int| 0 <= j < ids@.len() && ids@[j] == id;
            assert(ids@[j] == id);
        }
        false
    }

    fn enter(&mut self, i: usize, decision: SignedDecision, records: EnrollmentRecords)
        requires
            i < old(self)@.operations.len(),
        ensures
            final(self)@ == old(self)@.enrolled(i as int, decision, records),
    {
        let ghost before = self@;
        let operation = self.operations.remove(i);
        let billing = records.billing.id();
        let pending = operation.pending;
        let id = pending.account();
        let key_ref = pending.input().key_ref;
        let maximum_unresolved: u32 = pending.input().maximum_unresolved;
        let product = pending.intent().product.clone();
        put(&mut self.billing_ledgers, billing.0, records.ledger);
        assert(self.billing_ledgers@.map_values(|ledger: LedgerView| ledger@)
            =~= before.billing_ledgers.insert(billing.0, records.ledger@));
        put_entry(
            &mut self.funding_sources,
            FundingEntry { token: records.source.token, owner: billing, source: records.source },
        );
        put(&mut self.billing_accounts, billing.0, records.billing);
        assert(self.billing_accounts@.map_values(|account: BillingAccount| account@)
            =~= before.billing_accounts.insert(billing.0, records.billing@));
        put(
            &mut self.product_accounts,
            id.0,
            ProductAccount { account: records.product, maximum_unresolved },
        );
        put(&mut self.keys, key_ref.0, records.key_claim);
        let account = ManagedAccount {
            state: AccountState {
                control: records.control,
                registry: records.registry,
                product,
            },
            version: 1,
            events: BTreeMap::new(),
            commands: BTreeMap::new(),
        };
        assert(account@.commands =~= Map::empty());
        put(&mut self.managed, id.0, account);
        assert(self.managed@.map_values(|account: ManagedAccount| account@)
            =~= before.managed.insert(id.0, account@));
        self.operations.insert(
            i,
            Operation {
                name: operation.name,
                pending,
                state: OperationState::Active {
                    decision,
                    confirmation: Confirmation::Pending(records.at),
                },
                generation: operation.generation,
            },
        );
        assert(self.operations@ =~= before.enrolled(i as int, decision, records).operations);
    }

    /// Activates an account under a decision, with all that belongs to it, or refuses and changes
    /// nothing. An exact retry changes nothing either.
    pub fn activation(
        &mut self,
        decision: SignedDecision,
        facts: ActivationFacts,
        at: CanonicalTime,
    ) -> (result: Result<AccountId, EngineError>)
        ensures
            match old(self)@.commitment_fault(decision, facts) {
                Some(e) => result == Err::<AccountId, EngineError>(e) && final(self)@
                    == old(self)@,
                None => {
                    let i = named(old(self)@.operations, decision.operation@)->Some_0;
                    let pending = old(self)@.operations[i].pending;
                    &&& result == Ok::<AccountId, EngineError>(pending.account)
                    &&& if old(self)@.operations[i].state is Active {
                        final(self)@ == old(self)@
                    } else {
                        exists|records: EnrollmentRecords|
                            {
                                &&& final(self)@ == #[trigger] old(self)@.enrolled(
                                    i,
                                    decision,
                                    records,
                                )
                                &&& records.created_from(
                                    pending,
                                    old(self)@.bank_key->Some_0,
                                    facts,
                                    at,
                                )
                            }
                    }
                },
            },
            book_sound(old(self)@) ==> book_sound(final(self)@),
    {
        let i = match find(&self.operations, decision.operation.as_str()) {
            Some(i) => i,
            None => return Err(EngineError::Contract(ContractError::Invalid)),
        };
        let bank_key = match self.bank_key {
            Some(bank_key) => bank_key,
            None => return Err(EngineError::Contract(ContractError::Unavailable)),
        };
        let operation = &self.operations[i];
        let key_claim = match lookup(&self.keys, operation.pending.input().key_ref.0) {
            Some(claim) => claim.clone(),
            None => return Err(EngineError::Contract(ContractError::Invalid)),
        };
        let prior = match &operation.state {
            OperationState::AwaitingEvidence => None,
            OperationState::Active { decision, .. } => Some(decision.clone()),
        };
        let ghost pending = operation.pending;
        let context = ActivationContext {
            pending: operation.pending.clone(),
            prior,
            bank_key,
            key_claim,
        };
        proof {
            lemma_alike_activation(context.pending, pending, bank_key, context.key_claim, facts);
        }
        let (id, records) = match commit(&context, &decision, facts, at) {
            Ok(made) => made.into_parts(),
            Err(e) => return Err(e),
        };
        match records {
            Some(records) => {
                proof {
                    lemma_alike_records(records, context.pending, pending, bank_key, facts, at);
                }
                if self.is_bound(&records.product) || holds(
                    &self.billing_accounts,
                    records.billing.id().0,
                ) {
                    return Err(EngineError::Contract(ContractError::Conflict));
                }
                proof {
                    if book_sound(self@) {
                        lemma_enrolled_sound(self@, i as int, decision, records, facts, at);
                    }
                }
                self.enter(i, decision, records);
            },
            None => {},
        }
        Ok(id)
    }
}

impl BookModel {
    /// Why a renewal is refused, if it is.
    pub open spec fn renewal_fault(
        self,
        operation: Seq<char>,
        renewed: Result<PendingEnrollment, ContractError>,
    ) -> Option<EngineError> {
        match named(self.operations, operation) {
            None => Some(EngineError::Contract(ContractError::Invalid)),
            Some(i) => if self.operations[i].state is Active {
                Some(EngineError::Contract(ContractError::Conflict))
            } else {
                match renewed {
                    Err(e) => Some(EngineError::Contract(e)),
                    Ok(_) => None,
                }
            },
        }
    }
}

impl BookModel {
    /// Why effects on an account are refused, if they are: the key is claimed, the persona is
    /// another's, or the bank is.
    pub open spec fn effects_fault(
        self,
        id: AccountId,
        key: Option<OperationalKeyRef>,
        persona: Option<ProtocolIdentity>,
        bank: Option<([u8; 32], BillingAccountId)>,
    ) -> Option<EngineError> {
        if key matches Some(reference) && self.keys.contains_key(reference.0) {
            Some(EngineError::Security(SecurityError::DuplicateKey))
        } else if persona matches Some(added) && (self.persona_managed(added, Some(id.0))
            || self.persona_reserved(added, id)) {
            Some(EngineError::Contract(ContractError::Conflict))
        } else if bank matches Some((token, owner)) && (self.token_reserved(token, id) || (token_at(
            self.funding_sources,
            token,
        ) matches Some(i) && self.funding_sources[i].owner != owner)) {
            Some(EngineError::Contract(ContractError::Conflict))
        } else {
            None
        }
    }

    /// Another account's enrollment reserved a persona.
    pub open spec fn persona_reserved(self, persona: ProtocolIdentity, id: AccountId) -> bool {
        exists|i: int|
            0 <= i < self.operations.len() && (#[trigger] self.operations[i]).pending.account != id
                && self.operations[i].pending.input.persona == persona
    }

    /// Another account's enrollment reserved a bank.
    pub open spec fn token_reserved(self, token: [u8; 32], id: AccountId) -> bool {
        exists|i: int|
            0 <= i < self.operations.len() && (#[trigger] self.operations[i]).pending.account != id
                && self.operations[i].pending.input.bank.bank_token == token
    }

    /// The books after effects on an account. A funding source that is there stays as it is.
    pub open spec fn effected(self, id: AccountId, records: AccountEffectRecords) -> Self {
        BookModel {
            keys: match records.key {
                Some((reference, claim)) => self.keys.insert(reference.0, claim),
                None => self.keys,
            },
            funding_sources: match records.bank {
                Some((account, source)) => if token_at(self.funding_sources, source@.token)
                    is Some {
                    self.funding_sources
                } else {
                    self.funding_sources.push(
                        EntryModel {
                            token: source@.token,
                            owner: account@.bank.account,
                            source: source@,
                        },
                    )
                },
                None => self.funding_sources,
            },
            billing_accounts: match records.bank {
                Some((account, _)) => self.billing_accounts.insert(
                    account@.bank.account.0,
                    account@,
                ),
                None => self.billing_accounts,
            },
            managed: self.managed.insert(
                id.0,
                ManagedModel { state: records.state@, ..self.managed[id.0] },
            ),
            ..self
        }
    }

    /// What is known of an earlier command under a key.
    pub open spec fn prior_command(self, signed: SignedAccountCommand) -> Option<
        SignedAccountCommand,
    > {
        let commands = self.managed[signed.account.0].commands;
        if commands.contains_key(signed.idempotency_key.0) {
            Some(commands[signed.idempotency_key.0].0)
        } else {
            None
        }
    }

    /// What a command leaves of its account, or why it is refused; none where it was decided
    /// before.
    pub open spec fn commanded(self, signed: SignedAccountCommand, facts: KeyFacts) -> Result<
        Option<ControlModel>,
        EngineError,
    > {
        if !self.managed.contains_key(signed.account.0) {
            Err(EngineError::Contract(ContractError::Invalid))
        } else {
            match command_outcome(
                self.managed[signed.account.0].state,
                self.prior_command(signed),
                signed,
                facts,
            ) {
                Err(e) => Err(e),
                Ok(None) => Ok(None),
                Ok(Some(next)) => match self.effects_fault(
                    signed.account,
                    match registered_claim(signed) {
                        Some((reference, _)) => Some(reference),
                        None => None,
                    },
                    added_persona(signed),
                    None,
                ) {
                    Some(e) => Err(e),
                    None => Ok(Some(next)),
                },
            }
        }
    }

    /// The books after a command.
    pub open spec fn after_command(
        self,
        signed: SignedAccountCommand,
        next: ControlModel,
        at: CanonicalTime,
    ) -> Self {
        let account = self.managed[signed.account.0];
        BookModel {
            keys: match registered_claim(signed) {
                Some((reference, claim)) => self.keys.insert(reference.0, claim),
                None => self.keys,
            },
            managed: self.managed.insert(
                signed.account.0,
                ManagedModel {
                    state: StateModel {
                        control: next,
                        registry: entered(account.state.registry, command_keys(signed), at),
                        ..account.state
                    },
                    commands: account.commands.insert(signed.idempotency_key.0, (signed, next)),
                    ..account
                },
            ),
            ..self
        }
    }
}

impl AccountBook {
    fn is_persona_reserved(&self, persona: ProtocolIdentity, id: AccountId) -> (found: bool)
        ensures
            found == self@.persona_reserved(persona, id),
    {
        let mut i: usize = 0;
        while i < self.operations.len()
            invariant
                0 <= i <= self.operations@.len(),
                forall|j: int|
                    0 <= j < i ==> !((#[trigger] self@.operations[j]).pending.account != id
                        && self@.operations[j].pending.input.persona == persona),
            decreases self.operations@.len() - i,
        {
            let pending = &self.operations[i].pending;
            if pending.account() != id && pending.input().persona == persona {
                assert(self@.operations[i as int].pending.account != id);
                return true;
            }
            i += 1;
        }
        false
    }

    fn is_token_reserved(&self, token: &[u8; 32], id: AccountId) -> (found: bool)
        ensures
            found == self@.token_reserved(*token, id),
    {
        let mut i: usize = 0;
        while i < self.operations.len()
            invariant
                0 <= i <= self.operations@.len(),
                forall|j: int|
                    0 <= j < i ==> !((#[trigger] self@.operations[j]).pending.account != id
                        && self@.operations[j].pending.input.bank.bank_token == *token),
            decreases self.operations@.len() - i,
        {
            let pending = &self.operations[i].pending;
            if pending.account() != id && same_32(&pending.input().bank.bank_token, token) {
                assert(self@.operations[i as int].pending.account != id);
                return true;
            }
            i += 1;
        }
        false
    }

    /// Applies the effects of a decision on an account, all of them or none.
    fn apply_effects(&mut self, id: AccountId, records: AccountEffectRecords) -> (result: Result<
        (),
        EngineError,
    >)
        requires
            old(self)@.managed.contains_key(id.0),
        ensures
            match old(self)@.effects_fault(
                id,
                match records.key {
                    Some((reference, _)) => Some(reference),
                    None => None,
                },
                records.persona,
                match records.bank {
                    Some((account, source)) => Some((source@.token, account@.bank.account)),
                    None => None,
                },
            ) {
                Some(e) => result == Err::<(), EngineError>(e) && final(self)@ == old(self)@,
                None => result is Ok && final(self)@ == old(self)@.effected(id, records),
            },
    {
        let ghost before = self@;
        match &records.key {
            Some((reference, _)) => {
                if holds(&self.keys, reference.0) {
                    return Err(EngineError::Security(SecurityError::DuplicateKey));
                }
            },
            None => {},
        }
        match records.persona {
            Some(persona) => {
                if self.is_persona_managed(persona, Some(id.0)) || self.is_persona_reserved(
                    persona,
                    id,
                ) {
                    return Err(EngineError::Contract(ContractError::Conflict));
                }
            },
            None => {},
        }
        let mut known = false;
        match &records.bank {
            Some((account, source)) => {
                if self.is_token_reserved(&source.token, id) {
                    return Err(EngineError::Contract(ContractError::Conflict));
                }
                match find_token(&self.funding_sources, &source.token) {
                    Some(i) => {
                        assert(self@.funding_sources[i as int] == self.funding_sources@[i as int]@);
                        if self.funding_sources[i].owner != account.id() {
                            return Err(EngineError::Contract(ContractError::Conflict));
                        }
                        known = true;
                    },
                    None => {},
                }
            },
            None => {},
        }
        match records.key {
            Some((reference, claim)) => put(&mut self.keys, reference.0, claim),
            None => {},
        }
        match records.bank {
            Some((account, source)) => {
                let owner = account.id();
                if !known {
                    let ghost entries = self.funding_sources@;
                    let entry = FundingEntry { token: source.token, owner, source };
                    self.funding_sources.push(entry);
                    assert(funding_models(self.funding_sources@) =~= funding_models(entries).push(
                        entry@,
                    ));
                }
                put(&mut self.billing_accounts, owner.0, account);
                assert(self.billing_accounts@.map_values(|account: BillingAccount| account@)
                    =~= before.billing_accounts.insert(owner.0, account@));
            },
            None => {},
        }
        match take(&mut self.managed, id.0) {
            Some(account) => {
                let ghost was = account@;
                assert(was == before.managed[id.0]);
                let next = ManagedAccount {
                    state: records.state,
                    version: account.version,
                    events: account.events,
                    commands: account.commands,
                };
                put(&mut self.managed, id.0, next);
                assert(self.managed@.map_values(|account: ManagedAccount| account@)
                    =~= before.managed.insert(
                    id.0,
                    ManagedModel { state: records.state@, ..was },
                ));
            },
            None => {},
        }
        Ok(())
    }

    fn record_command(&mut self, signed: SignedAccountCommand, outcome: &AccountControl)
        requires
            old(self)@.managed.contains_key(signed.account.0),
        ensures
            final(self)@ == (BookModel {
                managed: old(self)@.managed.insert(
                    signed.account.0,
                    ManagedModel {
                        commands: old(self)@.managed[signed.account.0].commands.insert(
                            signed.idempotency_key.0,
                            (signed, outcome@),
                        ),
                        ..old(self)@.managed[signed.account.0]
                    },
                ),
                ..old(self)@
            }),
    {
        let ghost before = self@;
        let id: u128 = signed.account.0;
        match take(&mut self.managed, id) {
            Some(account) => {
                let ghost was = account@;
                assert(was == before.managed[id]);
                let mut commands = account.commands;
                let ghost told = commands@;
                put(&mut commands, signed.idempotency_key.0, (signed, outcome.clone()));
                assert(command_models(commands@) =~= command_models(told).insert(
                    signed.idempotency_key.0,
                    (signed, outcome@),
                ));
                let next = ManagedAccount {
                    state: account.state,
                    version: account.version,
                    events: account.events,
                    commands,
                };
                put(&mut self.managed, id, next);
                assert(self@.managed =~= before.managed.insert(id, next@));
            },
            None => {},
        }
    }

    /// Carries out an account command, with all that it changes, or refuses and changes nothing.
    /// An exact retry is answered as before.
    pub fn command(&mut self, signed: SignedAccountCommand, facts: &KeyFacts, at: CanonicalTime) -> (result:
        Result<AccountControl, EngineError>)
        ensures
            match old(self)@.commanded(signed, *facts) {
                Err(e) => result == Err::<AccountControl, EngineError>(e) && final(self)@
                    == old(self)@,
                Ok(None) => result matches Ok(control) && control@
                    == old(self)@.managed[signed.account.0].commands[signed.idempotency_key.0].1
                    && final(self)@ == old(self)@,
                Ok(Some(next)) => result matches Ok(control) && control@ == next && final(self)@
                    == old(self)@.after_command(signed, next, at),
            },
            book_sound(old(self)@) ==> book_sound(final(self)@),
    {
        let ghost before = self@;
        let account = match lookup(&self.managed, signed.account.0) {
            Some(account) => account,
            None => return Err(EngineError::Contract(ContractError::Invalid)),
        };
        assert(before.managed[signed.account.0] == account@);
        let prior = match lookup(&account.commands, signed.idempotency_key.0) {
            Some((command, control)) => Some((command.clone(), control.clone())),
            None => None,
        };
        let context = CommandContext { state: account.state.clone(), prior };
        let (outcome, effects) = match execute_command(context, &signed, facts, at) {
            Ok(decision) => decision.into_parts(),
            Err(e) => return Err(e),
        };
        match effects {
            Some(effects) => {
                let records = effects.into_records();
                let ghost carried = records;
                match self.apply_effects(signed.account, records) {
                    Ok(()) => {},
                    Err(e) => return Err(e),
                }
                self.record_command(signed, &outcome);
                proof {
                    assert(carried.state@.control == outcome@);
                    assert(self@.managed =~= before.after_command(signed, outcome@, at).managed);
                }
            },
            None => {},
        }
        Ok(outcome)
    }
}

impl BookModel {
    /// Why nothing is known that an event could be about, if so.
    pub open spec fn event_context_fault(self, event: SignedSecurityEvent, bank: bool) -> Option<
        EngineError,
    > {
        match parsed(utf8(event.account@)) {
            None => Some(EngineError::Contract(ContractError::Invalid)),
            Some(id) => if !self.managed.contains_key(id) || !self.product_accounts.contains_key(
                id,
            ) {
                Some(EngineError::Contract(ContractError::Invalid))
            } else if self.bank_key is None {
                Some(EngineError::Contract(ContractError::Unavailable))
            } else if bank && !self.billing_accounts.contains_key(
                self.product_accounts[id].account.billing.0,
            ) {
                Some(EngineError::Contract(ContractError::Invalid))
            } else {
                None
            },
        }
    }

    /// What a decision on an event knows of the bank that is to change.
    pub open spec fn bank_change(
        self,
        id: u128,
        bank: Option<BankVerification>,
        rebound: Result<BillingAccount, BillingError>,
    ) -> Option<BankChangeModel> {
        let product = self.product_accounts[id];
        if bank is Some {
            Some(
                BankChangeModel {
                    account: self.billing_accounts[product.account.billing.0],
                    rebound: match rebound {
                        Ok(account) => Ok(account@),
                        Err(e) => Err(e),
                    },
                    authority: self.bank_key->Some_0,
                    maximum_unresolved: product.maximum_unresolved,
                },
            )
        } else {
            None
        }
    }

    /// The event that was applied at a version, if one was.
    pub open spec fn prior_event(self, id: u128, version: u64) -> Option<SignedSecurityEvent> {
        if self.managed[id].events.contains_key(version as u128) {
            Some(self.managed[id].events[version as u128])
        } else {
            None
        }
    }

    /// What an event leaves of its account, or why it is refused; none where it was applied before.
    pub open spec fn notified(
        self,
        event: SignedSecurityEvent,
        bank: Option<BankVerification>,
        rebound: Result<BillingAccount, BillingError>,
        facts: EventFacts,
    ) -> Result<
        Option<(ControlModel, Option<(OperationalKeyRef, ProtocolIdentity)>)>,
        EngineError,
    > {
        match self.event_context_fault(event, bank is Some) {
            Some(e) => Err(e),
            None => {
                let id = parsed(utf8(event.account@))->Some_0;
                let account = self.managed[id];
                match event_outcome(
                    account.state,
                    self.product_accounts[id].account.binding.subject_ref@,
                    account.version,
                    self.prior_event(id, event.security_version),
                    self.bank_change(id, bank, rebound),
                    bank,
                    event,
                    facts,
                ) {
                    Err(e) => Err(e),
                    Ok(None) => Ok(None),
                    Ok(Some((next, recovered))) => match self.effects_fault(
                        AccountId(id),
                        key_of(recovered),
                        None,
                        match event.change {
                            IdentityChange::RebindBank => Some(
                                (bank->Some_0.bank_token, rebound->Ok_0@.bank.account),
                            ),
                            _ => None,
                        },
                    ) {
                        Some(e) => Err(e),
                        None => Ok(Some((next, recovered))),
                    },
                }
            },
        }
    }

    /// The books after an event.
    pub open spec fn after_event(
        self,
        event: SignedSecurityEvent,
        bank: Option<BankVerification>,
        rebound: Result<BillingAccount, BillingError>,
        facts: EventFacts,
        next: ControlModel,
        recovered: Option<(OperationalKeyRef, ProtocolIdentity)>,
        at: CanonicalTime,
    ) -> Self {
        let id = parsed(utf8(event.account@))->Some_0;
        let account = self.managed[id];
        let source = rebound_source(bank->Some_0, self.product_accounts[id].maximum_unresolved);
        let held = rebound->Ok_0@;
        BookModel {
            keys: match recovered_claim(event, recovered) {
                Some((reference, claim)) => self.keys.insert(reference.0, claim),
                None => self.keys,
            },
            funding_sources: if event.change is RebindBank && token_at(
                self.funding_sources,
                source.token,
            ) is None {
                self.funding_sources.push(
                    EntryModel { token: source.token, owner: held.bank.account, source },
                )
            } else {
                self.funding_sources
            },
            billing_accounts: if event.change is RebindBank {
                self.billing_accounts.insert(held.bank.account.0, held)
            } else {
                self.billing_accounts
            },
            managed: self.managed.insert(
                id,
                ManagedModel {
                    state: StateModel {
                        control: next,
                        registry: entered(
                            account.state.registry,
                            event_keys(event, recovered, facts),
                            at,
                        ),
                        ..account.state
                    },
                    version: event.security_version,
                    events: account.events.insert(event.security_version as u128, event),
                    ..account
                },
            ),
            ..self
        }
    }
}

/// Where a product has got to in an account's identity events.
#[derive(Debug)]
pub struct IdentitySecurityCursor {
    pub product: String,
    pub subject: String,
    pub version: u64,
}

impl AccountBook {
    fn record_event(&mut self, id: u128, event: SignedSecurityEvent)
        requires
            old(self)@.managed.contains_key(id),
        ensures
            final(self)@ == (BookModel {
                managed: old(self)@.managed.insert(
                    id,
                    ManagedModel {
                        version: event.security_version,
                        events: old(self)@.managed[id].events.insert(
                            event.security_version as u128,
                            event,
                        ),
                        ..old(self)@.managed[id]
                    },
                ),
                ..old(self)@
            }),
    {
        let ghost before = self@;
        match take(&mut self.managed, id) {
            Some(account) => {
                let ghost was = account@;
                assert(was == before.managed[id]);
                let version: u64 = event.security_version;
                let mut events = account.events;
                put(&mut events, version as u128, event);
                let next = ManagedAccount {
                    state: account.state,
                    version,
                    events,
                    commands: account.commands,
                };
                put(&mut self.managed, id, next);
                assert(self@.managed =~= before.managed.insert(id, next@));
            },
            None => {},
        }
    }

    /// Applies an identity event, with all that it changes, or refuses and changes nothing. An
    /// exact replay changes nothing either. `rebound` is the account's billing account once it is
    /// bound to the new bank, or why it cannot be.
    pub fn security_change(
        &mut self,
        event: SignedSecurityEvent,
        bank: &Option<BankVerification>,
        rebound: Result<BillingAccount, BillingError>,
        facts: &EventFacts,
        at: CanonicalTime,
    ) -> (result: Result<(), EngineError>)
        ensures
            match old(self)@.notified(event, *bank, rebound, *facts) {
                Err(e) => result == Err::<(), EngineError>(e) && final(self)@ == old(self)@,
                Ok(None) => result is Ok && final(self)@ == old(self)@,
                Ok(Some((next, recovered))) => result is Ok && final(self)@
                    == old(self)@.after_event(event, *bank, rebound, *facts, next, recovered, at),
            },
            book_sound(old(self)@) && (rebound matches Ok(account) ==> account@.sound())
                ==> book_sound(final(self)@),
    {
        let ghost before = self@;
        let id: u128 = match parse_number(event.account.as_str()) {
            Some(number) => number,
            None => return Err(EngineError::Contract(ContractError::Invalid)),
        };
        let managed = match lookup(&self.managed, id) {
            Some(managed) => managed,
            None => return Err(EngineError::Contract(ContractError::Invalid)),
        };
        assert(before.managed[id] == managed@);
        let product = match lookup(&self.product_accounts, id) {
            Some(product) => product,
            None => return Err(EngineError::Contract(ContractError::Invalid)),
        };
        let authority = match self.bank_key {
            Some(authority) => authority,
            None => return Err(EngineError::Contract(ContractError::Unavailable)),
        };
        let change = if bank.is_some() {
            match lookup(&self.billing_accounts, product.account.billing().0) {
                Some(account) => {
                    assert(before.billing_accounts[product.account.billing.0] == account@);
                    Some(
                        BankChangeContext {
                            account: account.clone(),
                            rebound,
                            authority,
                            maximum_unresolved: product.maximum_unresolved,
                        },
                    )
                },
                None => return Err(EngineError::Contract(ContractError::Invalid)),
            }
        } else {
            None
        };
        let prior = match lookup(&managed.events, event.security_version as u128) {
            Some(prior) => Some(prior.clone()),
            None => None,
        };
        let context = SecurityContext {
            state: managed.state.clone(),
            subject: product.account.binding().subject_ref().to_owned(),
            version: managed.version,
            prior,
            bank: change,
        };
        let (_, effects) = match apply_identity_change(context, &event, bank, facts, at) {
            Ok(decision) => decision.into_parts(),
            Err(e) => return Err(e),
        };
        match effects {
            Some(effects) => {
                let records = effects.into_records();
                let ghost carried = records;
                match self.apply_effects(AccountId(id), records) {
                    Ok(()) => {},
                    Err(e) => return Err(e),
                }
                let ghost applied = self@;
                self.record_event(id, event);
                proof {
                    let (next, recovered) = before.notified(event, *bank, rebound, *facts)->Ok_0->Some_0;
                    let after = before.after_event(event, *bank, rebound, *facts, next, recovered, at);
                    assert(carried.state@ == (StateModel {
                        control: next,
                        registry: after.managed[id].state.registry,
                        ..before.managed[id].state
                    }));
                    assert(self@.managed =~= after.managed);
                    assert(self@.keys =~= after.keys);
                    assert(self@.billing_accounts =~= after.billing_accounts);
                    assert(self@.funding_sources =~= after.funding_sources);
                    if book_sound(before) && (rebound is Ok ==> rebound->Ok_0@.sound()) {
                        lemma_event_sound(before, event, *bank, rebound, *facts, at);
                    }
                }
            },
            None => {},
        }
        Ok(())
    }

    /// Where the product has got to in an account's identity events. Unknown accounts are refused.
    pub fn security_cursor(&self, account: AccountId) -> (result: Result<
        IdentitySecurityCursor,
        EngineError,
    >)
        ensures
            if self@.product_accounts.contains_key(account.0) && self@.managed.contains_key(
                account.0,
            ) {
                let binding = self@.product_accounts[account.0].account.binding;
                result matches Ok(cursor) && cursor.product@ == binding.product@ && cursor.subject@
                    == binding.subject_ref@ && cursor.version == self@.managed[account.0].version
            } else {
                result == Err::<IdentitySecurityCursor, EngineError>(
                    EngineError::Contract(ContractError::Invalid),
                )
            },
    {
        let product = match lookup(&self.product_accounts, account.0) {
            Some(product) => product,
            None => return Err(EngineError::Contract(ContractError::Invalid)),
        };
        let managed = match lookup(&self.managed, account.0) {
            Some(managed) => managed,
            None => return Err(EngineError::Contract(ContractError::Invalid)),
        };
        assert(self@.managed[account.0] == managed@);
        let binding = product.account.binding();
        Ok(
            IdentitySecurityCursor {
                product: binding.product().to_owned(),
                subject: binding.subject_ref().to_owned(),
                version: managed.version,
            },
        )
    }
}

/// A copy of an attempt is activated as the attempt is.
proof fn lemma_alike_activation(
    copy: PendingEnrollment,
    pending: PendingEnrollment,
    bank_key: [u8; 32],
    claim: KeyClaim,
    facts: ActivationFacts,
)
    requires
        copy.alike(&pending),
    ensures
        activation_fault(copy, bank_key, claim, facts) == activation_fault(
            pending,
            bank_key,
            claim,
            facts,
        ),
        super::enrollment::activated(copy, facts.digests, facts.verified)
            == super::enrollment::activated(pending, facts.digests, facts.verified),
{
    assert(copy.input.bank.statement() == pending.input.bank.statement());
    assert(copy.input.bank.verdict(bank_key) == pending.input.bank.verdict(bank_key));
}

proof fn lemma_alike_records(
    records: EnrollmentRecords,
    copy: PendingEnrollment,
    pending: PendingEnrollment,
    bank_key: [u8; 32],
    facts: ActivationFacts,
    at: CanonicalTime,
)
    requires
        copy.alike(&pending),
        records.created_from(copy, bank_key, facts, at),
    ensures
        records.created_from(pending, bank_key, facts, at),
{
    lemma_alike_activation(copy, pending, bank_key, records.key_claim, facts);
}

/// An activated account keeps the books sound.
proof fn lemma_enrolled_sound(
    book: BookModel,
    i: int,
    decision: SignedDecision,
    records: EnrollmentRecords,
    facts: ActivationFacts,
    at: CanonicalTime,
)
    requires
        book_sound(book),
        book.bank_key is Some,
        activation_fault(
            book.operations[i].pending,
            book.bank_key->Some_0,
            book.keys[book.operations[i].pending.input.key_ref.0],
            facts,
        ) is None,
        records.created_from(book.operations[i].pending, book.bank_key->Some_0, facts, at),
    ensures
        book_sound(book.enrolled(i, decision, records)),
{
    let pending = book.operations[i].pending;
    let after = book.enrolled(i, decision, records);
    assert(pending.input.bank.verdict(book.bank_key->Some_0) is Ok);
    assert(pending.input.valid());
    assert(records.source@.sound());
    assert(records.billing@.sound());
    let entry = EntryModel {
        token: records.source@.token,
        owner: records.billing@.bank.account,
        source: records.source@,
    };
    lemma_token(book.funding_sources, entry.token, 0);
    assert forall|j: int| 0 <= j < after.funding_sources.len() implies (
    #[trigger] after.funding_sources[j]).source.sound() by {
        if after.funding_sources[j] != entry {
            assert(after.funding_sources[j] == book.funding_sources[j]);
        }
    }
    assert forall|id: u128| #[trigger] after.billing_accounts.contains_key(id) implies
        after.billing_accounts[id].sound() && after.billing_accounts[id].bank.account.0 == id by {
        if id != pending.input.bank.account.0 {
            assert(book.billing_accounts.contains_key(id));
        }
    }
}

/// An applied event keeps the books sound.
proof fn lemma_event_sound(
    book: BookModel,
    event: SignedSecurityEvent,
    bank: Option<BankVerification>,
    rebound: Result<BillingAccount, BillingError>,
    facts: EventFacts,
    at: CanonicalTime,
)
    requires
        book_sound(book),
        rebound matches Ok(account) ==> account@.sound(),
        book.notified(event, bank, rebound, facts) is Ok,
        book.notified(event, bank, rebound, facts)->Ok_0 is Some,
    ensures
        ({
            let (next, recovered) = book.notified(event, bank, rebound, facts)->Ok_0->Some_0;
            book_sound(book.after_event(event, bank, rebound, facts, next, recovered, at))
        }),
{
    let (next, recovered) = book.notified(event, bank, rebound, facts)->Ok_0->Some_0;
    let after = book.after_event(event, bank, rebound, facts, next, recovered, at);
    let id = parsed(utf8(event.account@))->Some_0;
    if event.change is RebindBank {
        let held = rebound->Ok_0@;
        let source = rebound_source(bank->Some_0, book.product_accounts[id].maximum_unresolved);
        assert(bank->Some_0.verdict(book.bank_key->Some_0) is Ok);
        assert(source.sound());
        assert forall|j: int| 0 <= j < after.funding_sources.len() implies (
        #[trigger] after.funding_sources[j]).source.sound() by {
            if j < book.funding_sources.len() {
                assert(after.funding_sources[j] == book.funding_sources[j]);
            }
        }
        assert forall|a: u128| #[trigger] after.billing_accounts.contains_key(a) implies
            after.billing_accounts[a].sound() && after.billing_accounts[a].bank.account.0 == a by {
            if a != held.bank.account.0 {
                assert(book.billing_accounts.contains_key(a));
            }
        }
    }
}

} // verus!
