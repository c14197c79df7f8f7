//! Billing use cases, decided from what a store has loaded; no database and no provider.

use super::book::{find_token, funding_models, token_at, EntryModel, FundingEntry};
use super::errors::EngineError;
use crate::accounts::control::{AccountControl, AccountStatus, ControlModel};
use crate::billing::account::{BillingAccount, BillingModel};
use crate::billing::commands::{BillingCommand, SignedBillingCommand};
use crate::billing::offer::{BillingError, ServiceOffer};
use crate::bytes::same_32;
use crate::crypto::ed25519_accepts_strictly;
use crate::finance::bank::BankVerification;
use crate::finance::execution::PaymentState;
use crate::finance::funding::FundingModel;
use crate::finance::payments::{PaymentError, PaymentOperation, SignedPaymentEvidence};
use crate::ledger::{
    balance_in, net, posting_changes_balances, Account, LedgerBatch, LedgerModel, LedgerView, Transfer,
};
use crate::maps::lookup;
use crate::primitives::amounts::CanonicalTime;
use crate::primitives::ids::{
    BillingAccountId, IdempotencyKey, PaymentOperationId, ServiceContractId,
};
use crate::primitives::versions::PolicyVersion;
use crate::protocol::SecurityError;
use vstd::prelude::*;

verus! {

/// What a decision is about: an account, the command whose earlier outcome counts, and the offer
/// that is purchased.
#[derive(Clone, Copy, Debug, PartialEq, Eq)]
pub struct BillingScope {
    pub account: BillingAccountId,
    pub command: Option<IdempotencyKey>,
    pub offer: Option<PolicyVersion>,
}

/// What a billing decision may look at. `signer` is what the key registry of the owning account
/// says of the command's key at the time of the decision.
pub struct BillingContext<'a> {
    pub account: &'a BillingAccount,
    pub control: &'a AccountControl,
    pub signer: Result<[u8; 32], SecurityError>,
    pub processor: [u8; 32],
    pub bank_authority: [u8; 32],
    pub offer: Option<ServiceOffer>,
    pub sources: &'a Vec<FundingEntry>,
    pub ledger: &'a LedgerView,
    pub prior: Option<&'a (SignedBillingCommand, Vec<PaymentOperation>)>,
}

pub ghost struct BillingContextModel {
    pub account: BillingModel,
    pub control: ControlModel,
    pub signer: Result<[u8; 32], SecurityError>,
    pub processor: [u8; 32],
    pub bank_authority: [u8; 32],
    pub offer: Option<ServiceOffer>,
    pub sources: Seq<EntryModel>,
    pub ledger: LedgerModel,
    pub prior: Option<(SignedBillingCommand, Seq<PaymentOperation>)>,
}

impl<'a> View for BillingContext<'a> {
    type V = BillingContextModel;

    open spec fn view(&self) -> BillingContextModel {
        BillingContextModel {
            account: self.account@,
            control: self.control@,
            signer: self.signer,
            processor: self.processor,
            bank_authority: self.bank_authority,
            offer: self.offer,
            sources: funding_models(self.sources@),
            ledger: self.ledger@,
            prior: match self.prior {
                Some(entry) => Some((entry.0, entry.1@)),
                None => None,
            },
        }
    }
}

/// A collection that is to be dispatched, and from when on.
#[derive(Clone, Copy, Debug, PartialEq, Eq, Structural)]
pub struct CollectionWork {
    pub account: BillingAccountId,
    pub contract: ServiceContractId,
    pub operation: PaymentOperationId,
    pub at: CanonicalTime,
}

/// A receipt with what it posted.
pub struct CollectionJournal {
    pub receipt: SignedPaymentEvidence,
    pub postings: LedgerBatch,
    pub at: CanonicalTime,
}

pub ghost struct JournalModel {
    pub evidence: crate::finance::payments::PaymentEvidence,
    pub signature: Seq<u8>,
    pub postings: Seq<Transfer>,
    pub at: CanonicalTime,
}

impl View for CollectionJournal {
    type V = JournalModel;

    open spec fn view(&self) -> JournalModel {
        JournalModel {
            evidence: self.receipt.evidence,
            signature: self.receipt.signature@,
            postings: self.postings.transfers@,
            at: self.at,
        }
    }
}

/// What a decision has a store write, all of it or nothing.
pub struct BillingWrites {
    pub account: Option<BillingAccount>,
    pub source: Option<FundingEntry>,
    pub ledger: Option<LedgerView>,
    pub journal: Option<CollectionJournal>,
    pub work: Option<CollectionWork>,
    pub command: Option<(SignedBillingCommand, Vec<PaymentOperation>)>,
}

pub ghost struct WritesModel {
    pub account: Option<BillingModel>,
    pub source: Option<EntryModel>,
    pub ledger: Option<LedgerModel>,
    pub journal: Option<JournalModel>,
    pub work: Option<CollectionWork>,
    pub command: Option<(SignedBillingCommand, Seq<PaymentOperation>)>,
}

/// Nothing to write.
pub open spec fn no_writes() -> WritesModel {
    WritesModel {
        account: None,
        source: None,
        ledger: None,
        journal: None,
        work: None,
        command: None,
    }
}

impl View for BillingWrites {
    type V = WritesModel;

    open spec fn view(&self) -> WritesModel {
        WritesModel {
            account: match self.account {
                Some(account) => Some(account@),
                None => None,
            },
            source: match self.source {
                Some(source) => Some(source@),
                None => None,
            },
            ledger: match self.ledger {
                Some(ledger) => Some(ledger@),
                None => None,
            },
            journal: match self.journal {
                Some(journal) => Some(journal@),
                None => None,
            },
            work: self.work,
            command: match self.command {
                Some(entry) => Some((entry.0, entry.1@)),
                None => None,
            },
        }
    }
}

/// Construction by the use cases alone prevents treating arbitrary values as a decision.
pub struct BillingDecision<T> {
    outcome: T,
    writes: Option<BillingWrites>,
}

impl<T> BillingDecision<T> {
    pub closed spec fn answer(&self) -> T {
        self.outcome
    }

    pub closed spec fn brings(&self) -> Option<BillingWrites> {
        self.writes
    }

    /// What is written, if anything is.
    pub open spec fn written(&self) -> Option<WritesModel> {
        match self.brings() {
            Some(writes) => Some(writes@),
            None => None,
        }
    }

    pub fn into_parts(self) -> (parts: (T, Option<BillingWrites>))
        ensures
            parts == (self.answer(), self.brings()),
    {
        (self.outcome, self.writes)
    }
}

/// All that is on record can have come about.
pub open spec fn sources_sound(sources: Seq<EntryModel>) -> bool {
    forall|i: int| 0 <= i < sources.len() ==> (#[trigger] sources[i]).source.sound()
}

/// What is written can have come about, and stays with the same bank.
pub open spec fn writes_sound(writes: Option<WritesModel>, account: BillingModel) -> bool {
    writes matches Some(made) ==> {
        &&& made.account matches Some(next) ==> next.sound() && next.bank == account.bank
        &&& made.source matches Some(entry) ==> entry.source.sound()
    }
}

pub open spec fn refused(e: BillingError) -> EngineError {
    EngineError::Billing(e)
}

impl BillingContextModel {
    /// The account's own funding source for a bank.
    pub open spec fn source(self, token: [u8; 32]) -> Option<int> {
        match token_at(self.sources, token) {
            Some(i) => if self.sources[i].owner == self.account.bank.account {
                Some(i)
            } else {
                None
            },
            None => None,
        }
    }

    /// The source of a bank after something was done with it, or why it was not.
    pub open spec fn with_source(
        self,
        token: [u8; 32],
        done: spec_fn(FundingModel) -> Result<FundingModel, PaymentError>,
    ) -> Result<EntryModel, EngineError> {
        match self.source(token) {
            None => Err(refused(BillingError::Payment(PaymentError::FundingRestricted))),
            Some(i) => match done(self.sources[i].source) {
                Err(e) => Err(refused(BillingError::Payment(e))),
                Ok(source) => Ok(EntryModel { source, ..self.sources[i] }),
            },
        }
    }

    /// Why a command does not have the account's authority, if it does not.
    pub open spec fn authority_fault(self, signed: SignedBillingCommand) -> Option<EngineError> {
        if !self.control.managers.contains(signed.operational_key.0) {
            Some(refused(BillingError::Conflict))
        } else {
            match self.signer {
                Err(e) => Some(EngineError::Security(e)),
                Ok(key) => if !ed25519_accepts_strictly(
                    key@,
                    signed.statement(),
                    signed.signature@,
                ) || self.account.bank.scope != signed.scope {
                    Some(refused(BillingError::Conflict))
                } else {
                    None
                },
            }
        }
    }

    /// The account after a command, with the contract, the collection, and when it is due.
    pub open spec fn contracted(self, command: BillingCommand, at: CanonicalTime) -> Result<
        (BillingModel, ServiceContractId, PaymentOperation, CanonicalTime),
        EngineError,
    > {
        match command {
            BillingCommand::Inspect => Err(refused(BillingError::Conflict)),
            BillingCommand::PurchaseService { .. } => if self.control.status
                != AccountStatus::Active {
                Err(refused(BillingError::ServiceNotCovered))
            } else {
                match self.offer {
                    None => Err(refused(BillingError::MissingRecord)),
                    Some(offer) => if at.0 >= offer.period.end.0 {
                        Err(refused(BillingError::InvalidSchedule))
                    } else {
                        match self.account.purchased(offer, self.processor) {
                            Err(e) => Err(refused(e)),
                            Ok((next, contract)) => Ok(
                                (
                                    next,
                                    contract,
                                    next.contracts[contract.0].collection.current(),
                                    offer.collect_at,
                                ),
                            ),
                        }
                    },
                }
            },
            BillingCommand::RetryCollection { contract } => match self.account.retried(contract) {
                Err(e) => Err(refused(e)),
                Ok((next, operation)) => Ok(
                    (next, contract, operation, next.contracts[contract.0].offer.collect_at),
                ),
            },
        }
    }

    /// What a command is answered and what it writes; nothing where it was decided before or only
    /// inspects.
    pub open spec fn commanded(self, signed: SignedBillingCommand, at: CanonicalTime) -> Result<
        (Seq<PaymentOperation>, Option<WritesModel>),
        EngineError,
    > {
        match self.authority_fault(signed) {
            Some(e) => Err(e),
            None => match self.prior {
                Some((before, outcome)) => if before.alike(&signed) {
                    Ok((outcome, None))
                } else {
                    Err(EngineError::DuplicateConflict)
                },
                None => if signed.command == BillingCommand::Inspect {
                    Ok((Seq::empty(), None))
                } else if self.account.revision != signed.expected_revision {
                    Err(EngineError::VersionConflict)
                } else {
                    match self.contracted(signed.command, at) {
                        Err(e) => Err(e),
                        Ok((account, contract, operation, collect_at)) => match self.with_source(
                            operation.destination,
                            |source: FundingModel| source.reserved(operation),
                        ) {
                            Err(e) => Err(e),
                            Ok(source) => Ok(
                                (
                                    seq![operation],
                                    Some(
                                        WritesModel {
                                            account: Some(account),
                                            source: Some(source),
                                            ledger: None,
                                            journal: None,
                                            work: Some(
                                                CollectionWork {
                                                    account: signed.account,
                                                    contract,
                                                    operation: operation.id,
                                                    at: crate::capabilities::lane::later(
                                                        at,
                                                        collect_at,
                                                    ),
                                                },
                                            ),
                                            command: Some((signed, seq![operation])),
                                        },
                                    ),
                                ),
                            ),
                        },
                    }
                },
            },
        }
    }

    /// The collection that is authorized for dispatch, if it still stands, and the source with it.
    pub open spec fn dispatched(
        self,
        contract: ServiceContractId,
        operation: PaymentOperationId,
        at: CanonicalTime,
    ) -> Result<(Option<PaymentOperation>, Option<EntryModel>), EngineError> {
        if !self.account.contracts.contains_key(contract.0) {
            Err(refused(BillingError::MissingRecord))
        } else {
            let held = self.account.contracts[contract.0];
            let current = held.collection.current();
            if at.0 < held.offer.collect_at.0 {
                Err(refused(BillingError::TooEarly))
            } else if held.collection.state() == PaymentState::Pending && current.id == operation {
                match self.with_source(
                    current.destination,
                    |source: FundingModel| source.authorized(operation),
                ) {
                    Err(e) => Err(e),
                    Ok(source) => Ok((Some(current), Some(source))),
                }
            } else {
                Ok((None, None))
            }
        }
    }

    /// What a receipt writes: always the source's record of it, and the account, the ledger and the
    /// journal where it changes the account.
    pub open spec fn confirmed(
        self,
        contract: ServiceContractId,
        receipt: SignedPaymentEvidence,
        at: CanonicalTime,
    ) -> Result<WritesModel, EngineError> {
        if !self.account.contracts.contains_key(contract.0) {
            Err(refused(BillingError::MissingRecord))
        } else {
            let held = self.account.contracts[contract.0];
            match held.collection.find(receipt.evidence.operation_id) {
                None => Err(refused(BillingError::MissingRecord)),
                Some(k) => {
                    let token = held.collection.attempts[k].operation.destination;
                    match self.account.recorded(contract, receipt, at) {
                        Err(e) => Err(refused(e)),
                        Ok((account, postings)) => match self.with_source(
                            token,
                            |source: FundingModel| source.recorded(receipt, held.processor_key),
                        ) {
                            Err(e) => Err(e),
                            Ok(source) => if account.revision == self.account.revision {
                                Ok(
                                    WritesModel {
                                        account: Some(account),
                                        source: Some(source),
                                        ..no_writes()
                                    },
                                )
                            } else {
                                match self.ledger.applied(postings) {
                                    Err(e) => Err(EngineError::Ledger(e)),
                                    Ok(ledger) => Ok(
                                        WritesModel {
                                            account: Some(account),
                                            source: Some(source),
                                            ledger: Some(ledger),
                                            journal: Some(
                                                JournalModel {
                                                    evidence: receipt.evidence,
                                                    signature: receipt.signature@,
                                                    postings,
                                                    at,
                                                },
                                            ),
                                            work: None,
                                            command: None,
                                        },
                                    ),
                                }
                            },
                        },
                    }
                },
            }
        }
    }

    /// The source after its bank was verified anew: the same person's bank, with later evidence.
    pub open spec fn reverified(self, evidence: BankVerification) -> Result<
        EntryModel,
        EngineError,
    > {
        let held = self.account.bank;
        match evidence.verdict(self.bank_authority) {
            Err(e) => Err(refused(BillingError::Payment(e))),
            Ok(()) => if held.person != evidence.person || held.bank_token != evidence.bank_token
                || held.member != evidence.member || held.scope != evidence.scope || held.unit
                != evidence.unit {
                Err(refused(BillingError::Conflict))
            } else {
                self.with_source(
                    evidence.bank_token,
                    |source: FundingModel| if evidence.bank_token != source.token
                        || evidence.version <= source.verification {
                        Err(PaymentError::InvalidOperation)
                    } else {
                        Ok(
                            FundingModel {
                                verification: evidence.version,
                                restricted: false,
                                ..source
                            },
                        )
                    },
                )
            },
        }
    }
}

impl<'a> BillingContext<'a> {
    fn own_source(&self, token: &[u8; 32]) -> (result: Result<FundingEntry, EngineError>)
        ensures
            match self@.source(*token) {
                Some(i) => result matches Ok(entry) && entry@ == self@.sources[i] && 0 <= i
                    < self@.sources.len(),
                None => result == Err::<FundingEntry, EngineError>(
                    refused(BillingError::Payment(PaymentError::FundingRestricted)),
                ),
            },
    {
        match find_token(self.sources, token) {
            Some(i) => {
                let entry = &self.sources[i];
                assert(self@.sources[i as int] == entry@);
                if entry.owner == self.account.id() {
                    Ok(
                        FundingEntry {
                            token: entry.token,
                            owner: entry.owner,
                            source: entry.source.clone(),
                        },
                    )
                } else {
                    Err(
                        EngineError::Billing(
                            BillingError::Payment(PaymentError::FundingRestricted),
                        ),
                    )
                }
            },
            None => Err(
                EngineError::Billing(BillingError::Payment(PaymentError::FundingRestricted)),
            ),
        }
    }

    fn contract_for(&self, command: BillingCommand, at: CanonicalTime) -> (result: Result<
        (BillingAccount, ServiceContractId, PaymentOperation, CanonicalTime),
        EngineError,
    >)
        requires
            self@.account.sound(),
        ensures
            match self@.contracted(command, at) {
                Ok((account, contract, operation, collect_at)) => result matches Ok(made)
                    && made.0@ == account && made.1 == contract && made.2 == operation && made.3
                    == collect_at && account.sound() && account.bank == self@.account.bank,
                Err(e) => result == Err::<
                    (BillingAccount, ServiceContractId, PaymentOperation, CanonicalTime),
                    EngineError,
                >(e),
            },
    {
        let mut account = self.account.clone();
        match command {
            BillingCommand::Inspect => Err(EngineError::Billing(BillingError::Conflict)),
            BillingCommand::PurchaseService { .. } => {
                if !self.control.allows_service() {
                    return Err(EngineError::Billing(BillingError::ServiceNotCovered));
                }
                let offer = match self.offer {
                    Some(offer) => offer,
                    None => return Err(EngineError::Billing(BillingError::MissingRecord)),
                };
                if at.0 >= offer.period().end().0 {
                    return Err(EngineError::Billing(BillingError::InvalidSchedule));
                }
                let contract = match account.purchase(&offer, self.processor) {
                    Ok(contract) => contract,
                    Err(e) => return Err(EngineError::Billing(e)),
                };
                assert(account@.contracts.contains_key(contract.0));
                assert(account@.owns(contract.0));
                match lookup(account.contracts(), contract.0) {
                    Some(held) => {
                        assert(account@.contracts[contract.0] == held@);
                        let operation = *held.collection().current();
                        Ok((account, contract, operation, offer.collect_at()))
                    },
                    None => Err(EngineError::Billing(BillingError::MissingRecord)),
                }
            },
            BillingCommand::RetryCollection { contract } => {
                let operation = match account.retry_collection(contract) {
                    Ok(operation) => operation,
                    Err(e) => return Err(EngineError::Billing(e)),
                };
                assert(account@.contracts.contains_key(contract.0));
                match lookup(account.contracts(), contract.0) {
                    Some(held) => {
                        assert(account@.contracts[contract.0] == held@);
                        let collect_at = held.offer().collect_at();
                        Ok((account, contract, operation, collect_at))
                    },
                    None => Err(EngineError::Billing(BillingError::MissingRecord)),
                }
            },
        }
    }

    /// Decides a billing command. Invalid signatures, authority, revisions, service eligibility and
    /// funding are refused; an exact retry is answered as before.
    pub fn execute_command(&self, signed: SignedBillingCommand, at: CanonicalTime) -> (result:
        Result<BillingDecision<Vec<PaymentOperation>>, EngineError>)
        requires
            self@.account.sound(),
            sources_sound(self@.sources),
        ensures
            match self@.commanded(signed, at) {
                Ok((outcome, writes)) => result matches Ok(decision) && decision.answer()@
                    == outcome && decision.written() == writes,
                Err(e) => result == Err::<BillingDecision<Vec<PaymentOperation>>, EngineError>(e),
            },
            result matches Ok(decision) ==> writes_sound(decision.written(), self@.account),
    {
        if !self.control.is_manager(signed.operational_key) {
            return Err(EngineError::Billing(BillingError::Conflict));
        }
        let key = match self.signer {
            Ok(key) => key,
            Err(e) => return Err(EngineError::Security(e)),
        };
        match signed.verify(&key) {
            Ok(()) => {},
            Err(e) => return Err(EngineError::Billing(e)),
        }
        if !self.account.scope().same(&signed.scope) {
            return Err(EngineError::Billing(BillingError::Conflict));
        }
        match self.prior {
            Some(entry) => {
                if !entry.0.same(&signed) {
                    return Err(EngineError::DuplicateConflict);
                }
                let outcome = entry.1.clone();
                assert(outcome@ =~= entry.1@);
                return Ok(BillingDecision { outcome, writes: None });
            },
            None => {},
        }
        if signed.command == BillingCommand::Inspect {
            let outcome: Vec<PaymentOperation> = Vec::new();
            return Ok(BillingDecision { outcome, writes: None });
        }
        if self.account.revision() != signed.expected_revision {
            return Err(EngineError::VersionConflict);
        }
        let account = signed.account;
        let (next, contract, operation, collect_at) = match self.contract_for(
            signed.command,
            at,
        ) {
            Ok(made) => made,
            Err(e) => return Err(e),
        };
        let mut entry = match self.own_source(&operation.destination) {
            Ok(entry) => entry,
            Err(e) => return Err(e),
        };
        match entry.source.reserve(&operation) {
            Ok(()) => {},
            Err(e) => return Err(EngineError::Billing(BillingError::Payment(e))),
        }
        let mut outcome: Vec<PaymentOperation> = Vec::new();
        outcome.push(operation);
        assert(outcome@ =~= seq![operation]);
        let told = outcome.clone();
        assert(told@ =~= outcome@);
        let due = if at.0 >= collect_at.0 {
            at
        } else {
            collect_at
        };
        Ok(
            BillingDecision {
                outcome,
                writes: Some(
                    BillingWrites {
                        account: Some(next),
                        source: Some(entry),
                        ledger: None,
                        journal: None,
                        work: Some(
                            CollectionWork {
                                account,
                                contract,
                                operation: operation.id,
                                at: due,
                            },
                        ),
                        command: Some((signed, told)),
                    },
                ),
            },
        )
    }

    /// Authorizes a collection for dispatch, if it still stands. Early dispatch, missing contracts
    /// and restricted funding are refused.
    pub fn authorize_dispatch(
        &self,
        contract: ServiceContractId,
        operation: PaymentOperationId,
        at: CanonicalTime,
    ) -> (result: Result<BillingDecision<Option<PaymentOperation>>, EngineError>)
        requires
            self@.account.sound(),
            sources_sound(self@.sources),
        ensures
            match self@.dispatched(contract, operation, at) {
                Ok((outcome, source)) => result matches Ok(decision) && decision.answer()
                    == outcome && decision.written() == Some(
                    WritesModel { source, ..no_writes() },
                ),
                Err(e) => result == Err::<BillingDecision<Option<PaymentOperation>>, EngineError>(
                    e,
                ),
            },
            result matches Ok(decision) ==> writes_sound(decision.written(), self@.account),
    {
        let held = match lookup(self.account.contracts(), contract.0) {
            Some(held) => held,
            None => return Err(EngineError::Billing(BillingError::MissingRecord)),
        };
        assert(self@.account.contracts.contains_key(contract.0));
        assert(self@.account.contracts[contract.0] == held@);
        assert(self@.account.owns(contract.0));
        if at.0 < held.offer().collect_at().0 {
            return Err(EngineError::Billing(BillingError::TooEarly));
        }
        let outcome = match held.collection().pending() {
            Some(pending) => if pending.id == operation {
                Some(*pending)
            } else {
                None
            },
            None => None,
        };
        let mut source: Option<FundingEntry> = None;
        match outcome {
            Some(current) => {
                let mut entry = match self.own_source(&current.destination) {
                    Ok(entry) => entry,
                    Err(e) => return Err(e),
                };
                match entry.source.authorize_dispatch(current.id) {
                    Ok(()) => {},
                    Err(e) => return Err(EngineError::Billing(BillingError::Payment(e))),
                }
                source = Some(entry);
            },
            None => {},
        }
        Ok(
            BillingDecision {
                outcome,
                writes: Some(
                    BillingWrites {
                        account: None,
                        source,
                        ledger: None,
                        journal: None,
                        work: None,
                        command: None,
                    },
                ),
            },
        )
    }

    /// Takes a receipt in. Unbound evidence and invalid payment, funding or ledger transitions are
    /// refused; a receipt that changes nothing posts nothing.
    pub fn confirm_payment(
        &self,
        contract: ServiceContractId,
        receipt: &SignedPaymentEvidence,
        at: CanonicalTime,
    ) -> (result: Result<BillingDecision<()>, EngineError>)
        requires
            self@.account.sound(),
            sources_sound(self@.sources),
        ensures
            match self@.confirmed(contract, *receipt, at) {
                Ok(writes) => result matches Ok(decision) && decision.written() == Some(writes),
                Err(e) => result == Err::<BillingDecision<()>, EngineError>(e),
            },
            result matches Ok(decision) ==> writes_sound(decision.written(), self@.account),
    {
        let held = match lookup(self.account.contracts(), contract.0) {
            Some(held) => held,
            None => return Err(EngineError::Billing(BillingError::MissingRecord)),
        };
        assert(self@.account.contracts[contract.0] == held@);
        let operation = match held.collection().operation(receipt.evidence.operation_id) {
            Some(operation) => *operation,
            None => return Err(EngineError::Billing(BillingError::MissingRecord)),
        };
        let key = *held.processor_key();
        let mut account = self.account.clone();
        let postings = match account.record_collection(contract, receipt, at) {
            Ok(postings) => postings,
            Err(e) => return Err(EngineError::Billing(e)),
        };
        let mut entry = match self.own_source(&operation.destination) {
            Ok(entry) => entry,
            Err(e) => return Err(e),
        };
        match entry.source.record(receipt, &key) {
            Ok(()) => {},
            Err(e) => return Err(EngineError::Billing(BillingError::Payment(e))),
        }
        let changed = account.revision() != self.account.revision();
        let mut ledger: Option<LedgerView> = None;
        let mut journal: Option<CollectionJournal> = None;
        if changed {
            match self.ledger.apply(&postings) {
                Ok(next) => {
                    ledger = Some(next);
                },
                Err(e) => return Err(EngineError::Ledger(e)),
            }
            journal = Some(CollectionJournal { receipt: receipt.clone(), postings, at });
        }
        Ok(
            BillingDecision {
                outcome: (),
                writes: Some(
                    BillingWrites {
                        account: Some(account),
                        source: Some(entry),
                        ledger,
                        journal,
                        work: None,
                        command: None,
                    },
                ),
            },
        )
    }

    /// Lifts a restriction on fresh evidence of the same association. Invalid authority, a changed
    /// identity or bank association and stale evidence are refused.
    pub fn reverify_funding(&self, evidence: &BankVerification) -> (result: Result<
        BillingDecision<()>,
        EngineError,
    >)
        requires
            sources_sound(self@.sources),
        ensures
            match self@.reverified(*evidence) {
                Ok(source) => result matches Ok(decision) && decision.written() == Some(
                    WritesModel { source: Some(source), ..no_writes() },
                ),
                Err(e) => result == Err::<BillingDecision<()>, EngineError>(e),
            },
            result matches Ok(decision) ==> writes_sound(decision.written(), self@.account),
    {
        let bank = match evidence.verify(&self.bank_authority) {
            Ok(bank) => bank,
            Err(e) => return Err(EngineError::Billing(BillingError::Payment(e))),
        };
        let held = self.account.bank().evidence();
        if !same_32(&held.person, &evidence.person) || !same_32(
            &held.bank_token,
            &evidence.bank_token,
        ) || held.member != evidence.member || !self.account.scope().same(&evidence.scope)
            || self.account.unit() != evidence.unit {
            return Err(EngineError::Billing(BillingError::Conflict));
        }
        let mut entry = match self.own_source(&evidence.bank_token) {
            Ok(entry) => entry,
            Err(e) => return Err(e),
        };
        match entry.source.reverify(&bank) {
            Ok(()) => {},
            Err(e) => return Err(EngineError::Billing(BillingError::Payment(e))),
        }
        Ok(
            BillingDecision {
                outcome: (),
                writes: Some(
                    BillingWrites {
                        account: None,
                        source: Some(entry),
                        ledger: None,
                        journal: None,
                        work: None,
                        command: None,
                    },
                ),
            },
        )
    }
}

/// An entry is one of the sources on record, of the account's own, for a bank.
pub open spec fn own_entry(context: BillingContextModel, token: [u8; 32], i: int) -> bool {
    &&& 0 <= i < context.sources.len()
    &&& context.sources[i].token == token
    &&& context.sources[i].owner == context.account.bank.account
}

proof fn lemma_own_entry(context: BillingContextModel, token: [u8; 32])
    requires
        context.source(token) is Some,
    ensures
        own_entry(context, token, context.source(token)->Some_0),
{
    super::book::lemma_token(context.sources, token, 0);
}

/// A command is decided only under the strict signature of a key that manages the account, in the
/// scope of its bank. One that was decided before is answered as it was, if it is the same; an
/// inspection writes nothing; and any other names the account's present revision.
pub proof fn billing_takes_a_managers_signature(
    context: BillingContextModel,
    signed: SignedBillingCommand,
    at: CanonicalTime,
)
    requires
        context.commanded(signed, at) is Ok,
    ensures
        ({
            let (answer, writes) = context.commanded(signed, at)->Ok_0;
            &&& context.control.managers.contains(signed.operational_key.0)
            &&& context.signer is Ok
            &&& ed25519_accepts_strictly(
                context.signer->Ok_0@,
                signed.statement(),
                signed.signature@,
            )
            &&& context.account.bank.scope == signed.scope
            &&& context.prior is Some ==> writes is None && answer == context.prior->Some_0.1
                && context.prior->Some_0.0.alike(&signed)
            &&& context.prior is None && signed.command is Inspect ==> writes is None
                && answer.len() == 0
            &&& context.prior is None && !(signed.command is Inspect) ==> writes is Some
                && signed.expected_revision == context.account.revision
        }),
{
}

/// What a new purchase does: service is bought only by an active account and before its period
/// ends; the price of the offer is reserved with the account's own source for its bank; nothing is
/// posted; and the collection is due no earlier than it was published to be, and no earlier than now.
pub proof fn purchases_reserve_the_price(
    context: BillingContextModel,
    signed: SignedBillingCommand,
    at: CanonicalTime,
)
    requires
        context.commanded(signed, at) is Ok,
        context.prior is None,
        signed.command is PurchaseService,
    ensures
        ({
            let (answer, writes) = context.commanded(signed, at)->Ok_0;
            let made = writes->Some_0;
            let offer = context.offer->Some_0;
            let work = made.work->Some_0;
            let contract = made.account->Some_0.contracts[work.contract.0];
            &&& context.control.status == AccountStatus::Active
            &&& context.offer is Some
            &&& at.0 < offer.period.end.0
            &&& made.account is Some
            &&& made.account->Some_0.contracts.contains_key(work.contract.0)
            &&& contract.offer == offer
            &&& contract.processor_key == context.processor
            &&& answer.len() == 1
            &&& answer[0] == contract.collection.attempts.last().operation
            &&& made.ledger is None && made.journal is None
            &&& made.work is Some
            &&& work.account == signed.account
            &&& work.operation == answer[0].id
            &&& work.at.0 >= at.0 && work.at.0 >= offer.collect_at.0
            &&& work.at == at || work.at == offer.collect_at
            &&& made.command == Some((signed, answer))
            &&& made.source is Some
            &&& exists|i: int|
                own_entry(context, answer[0].destination, i) && made.source->Some_0.token
                    == context.sources[i].token && made.source->Some_0.owner
                    == context.sources[i].owner && context.sources[i].source.reserved(answer[0])
                    == Ok::<FundingModel, PaymentError>(made.source->Some_0.source)
        }),
{
    let answer = context.commanded(signed, at)->Ok_0.0;
    lemma_own_entry(context, answer[0].destination);
}

/// A retry reserves one more attempt of the same contract, with the account's own source for the
/// same bank, and posts nothing.
pub proof fn retries_reserve_another_attempt(
    context: BillingContextModel,
    signed: SignedBillingCommand,
    at: CanonicalTime,
)
    requires
        context.commanded(signed, at) is Ok,
        context.prior is None,
        signed.command is RetryCollection,
    ensures
        ({
            let (answer, writes) = context.commanded(signed, at)->Ok_0;
            let made = writes->Some_0;
            let work = made.work->Some_0;
            let id = signed.command->contract;
            let was = context.account.contracts[id.0];
            let is = made.account->Some_0.contracts[id.0];
            &&& context.account.contracts.contains_key(id.0)
            &&& made.account is Some
            &&& is.offer == was.offer
            &&& is.settlement == was.settlement
            &&& is.collection.attempts.len() == was.collection.attempts.len() + 1
            &&& was.collection.attempts.last().state is Failed
                || was.collection.attempts.last().state is Voided
            &&& answer.len() == 1
            &&& answer[0] == is.collection.attempts.last().operation
            &&& answer[0].amount == was.collection.attempts.last().operation.amount
            &&& made.ledger is None && made.journal is None
            &&& made.work is Some
            &&& work.contract == id
            &&& work.operation == answer[0].id
            &&& work.at.0 >= at.0 && work.at.0 >= was.offer.collect_at.0
            &&& work.at == at || work.at == was.offer.collect_at
            &&& made.command == Some((signed, answer))
            &&& made.source is Some
        }),
{
}

/// A collection is dispatched only when it is due, and only as long as the attempt that is asked for
/// is the last one and open; the source on record has to authorize it. Otherwise nothing happens.
pub proof fn collections_are_dispatched_when_due(
    context: BillingContextModel,
    contract: ServiceContractId,
    operation: PaymentOperationId,
    at: CanonicalTime,
)
    ensures
        ({
            let result = context.dispatched(contract, operation, at);
            let (sent, entry) = result->Ok_0;
            let known = context.account.contracts.contains_key(contract.0);
            let held = context.account.contracts[contract.0];
            let last = held.collection.attempts.last();
            let open = last.state is Pending && last.operation.id == operation;
            &&& !known ==> result is Err
            &&& result == Err::<(Option<PaymentOperation>, Option<EntryModel>), EngineError>(
                EngineError::Billing(BillingError::TooEarly),
            ) <==> known && at.0 < held.offer.collect_at.0
            &&& result is Ok ==> {
                &&& at.0 >= held.offer.collect_at.0
                &&& sent is Some <==> open
                &&& entry is Some <==> open
                &&& open ==> sent == Some(last.operation) && exists|i: int|
                    own_entry(context, last.operation.destination, i) && entry->Some_0.token
                        == context.sources[i].token && entry->Some_0.owner
                        == context.sources[i].owner && context.sources[i].source.authorized(
                        operation,
                    ) == Ok::<FundingModel, PaymentError>(entry->Some_0.source)
            }
        }),
{
    let held = context.account.contracts[contract.0];
    let result = context.dispatched(contract, operation, at);
    if result is Ok && result->Ok_0.0 is Some {
        lemma_own_entry(context, held.collection.current().destination);
    }
}

/// A receipt that is taken in is recorded with the source that its attempt was drawn on, whether or
/// not it changes the account; the ledger and the journal are written exactly where it does, and the
/// ledger by exactly what the contract's receipt moves.
pub proof fn receipts_are_booked_whole(
    context: BillingContextModel,
    contract: ServiceContractId,
    receipt: SignedPaymentEvidence,
    at: CanonicalTime,
    a: Account,
)
    requires
        context.confirmed(contract, receipt, at) is Ok,
    ensures
        ({
            let made = context.confirmed(contract, receipt, at)->Ok_0;
            let (account, ts) = context.account.recorded(contract, receipt, at)->Ok_0;
            let changed = account.revision != context.account.revision;
            &&& context.account.contracts.contains_key(contract.0)
            &&& context.account.recorded(contract, receipt, at) is Ok
            &&& made.account == Some(account)
            &&& made.source is Some
            &&& made.command is None && made.work is None
            &&& made.ledger is Some <==> changed
            &&& made.journal is Some <==> changed
            &&& changed ==> {
                &&& made.journal->Some_0.evidence == receipt.evidence
                &&& made.journal->Some_0.postings == ts
                &&& made.journal->Some_0.at == at
                &&& balance_in(made.ledger->Some_0.balances, a) == balance_in(
                    context.ledger.balances,
                    a,
                ) + net(ts, ts.len(), a)
            }
        }),
{
    let made = context.confirmed(contract, receipt, at)->Ok_0;
    let (account, ts) = context.account.recorded(contract, receipt, at)->Ok_0;
    if account.revision != context.account.revision {
        posting_changes_balances(context.ledger.balances, context.ledger.revision, ts, a);
    }
}

/// A source is verified anew only on evidence of the authority, for the same person, bank, member,
/// scope and unit, and of a later version; that alone lifts a restriction, and nothing else of the
/// source changes.
pub proof fn later_evidence_lifts_a_restriction(
    context: BillingContextModel,
    evidence: BankVerification,
)
    requires
        context.reverified(evidence) is Ok,
    ensures
        ({
            let entry = context.reverified(evidence)->Ok_0;
            &&& ed25519_accepts_strictly(
                context.bank_authority@,
                evidence.statement(),
                evidence.signature@,
            )
            &&& evidence.person == context.account.bank.person
            &&& evidence.bank_token == context.account.bank.bank_token
            &&& evidence.member == context.account.bank.member
            &&& evidence.scope == context.account.bank.scope
            &&& evidence.unit == context.account.bank.unit
            &&& exists|i: int|
                own_entry(context, evidence.bank_token, i) && {
                    let was = #[trigger] context.sources[i];
                    &&& evidence.version > was.source.verification
                    &&& entry.token == was.token && entry.owner == was.owner
                    &&& entry.source.verification == evidence.version
                    &&& !entry.source.restricted
                    &&& entry.source.token == was.source.token
                    &&& entry.source.maximum_unresolved == was.source.maximum_unresolved
                    &&& entry.source.attempts == was.source.attempts
                    &&& entry.source.dispatched == was.source.dispatched
                }
        }),
{
    lemma_own_entry(context, evidence.bank_token);
    let i = context.source(evidence.bank_token)->Some_0;
    assert(own_entry(context, evidence.bank_token, i));
    let was = context.sources[i];
}

} // verus!
