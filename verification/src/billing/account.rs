//! A billing account: a verified bank account and the contracts purchased on it.

use super::contract::{
    collections_stay_consistent, operation_bytes, operation_id, retries_keep_the_purchase,
    ContractModel, ServiceContract, ServiceSettlement,
};
use super::offer::{BillingError, ServiceOffer, ServicePeriod};
use crate::bytes::{is_zero_32, same_32, text_bytes, utf8, zero_32};
use crate::crypto::digest_id;
use crate::finance::bank::{BankModel, BankVerification, VerifiedBankAccount};
use crate::finance::execution::{
    first_attempt, new_payments_are_consistent, settled_evidence_settles, value_is_supplied_once,
    PaymentExecution,
};
use crate::finance::payments::{
    PaymentError, PaymentKind, PaymentOperation, PaymentOutcome, SignedPaymentEvidence,
};
use crate::finance::scope::FinancialScope;
use crate::ledger::{LedgerBatch, Transfer};
use crate::maps::{
    holds, keys_in_order, keys_of, lemma_keys_unique, lemma_sorted_keys, lookup, put, sorted_keys,
};
use crate::primitives::amounts::{CanonicalTime, SettlementUnit};
use crate::primitives::ids::{
    BillingAccountId, MemberId, PaymentOperationId, ServiceContractId,
};
use std::collections::BTreeMap;
use vstd::prelude::*;

verus! {

#[derive(Clone, Copy, Debug, PartialEq, Eq, Structural)]
pub enum AccountStatus {
    Open,
    Closed,
}

#[derive(Debug, PartialEq, Eq)]
pub struct BillingAccount {
    pub bank: VerifiedBankAccount,
    pub revision: u64,
    pub status: AccountStatus,
    pub contracts: BTreeMap<u128, ServiceContract>,
}

pub ghost struct BillingModel {
    pub bank: BankModel,
    pub authority: [u8; 32],
    pub revision: u64,
    pub status: AccountStatus,
    pub contracts: Map<u128, ContractModel>,
}

pub open spec fn contract_models(map: Map<u128, ServiceContract>) -> Map<u128, ContractModel> {
    Map::new(|id: u128| map.contains_key(id), |id: u128| map[id]@)
}

impl View for BillingAccount {
    type V = BillingModel;

    open spec fn view(&self) -> BillingModel {
        BillingModel {
            bank: self.bank.proven()@,
            authority: self.bank.vouched_by(),
            revision: self.revision,
            status: self.status,
            contracts: contract_models(self.contracts@),
        }
    }
}

impl BillingModel {
    /// A contract is filed under its identifier, is consistent, and collects from this account's
    /// bank.
    pub open spec fn owns(self, id: u128) -> bool {
        let contract = self.contracts[id];
        let operation = contract.collection.current();
        &&& contract.check() is Ok
        &&& contract.id.0 == id
        &&& operation.scope == self.bank.scope
        &&& operation.unit == self.bank.unit
        &&& operation.destination == self.bank.bank_token
    }

    /// No two contracts are for overlapping periods.
    pub open spec fn disjoint(self) -> bool {
        forall|a: u128, b: u128| #[trigger]
            self.contracts.contains_key(a) && #[trigger] self.contracts.contains_key(b) && a != b
                ==> !self.contracts[a].offer.period.overlaps(self.contracts[b].offer.period)
    }

    /// What is wrong with a contract on record, if anything is.
    pub open spec fn contract_fault(self, id: u128) -> Option<BillingError> {
        match self.contracts[id].check() {
            Err(e) => Some(e),
            Ok(()) => if self.owns(id) {
                None
            } else {
                Some(BillingError::Conflict)
            },
        }
    }

    /// The first fault among the contracts under the first `n` keys.
    pub open spec fn first_fault(self, keys: Seq<u128>, n: nat) -> Option<BillingError>
        decreases n,
    {
        if n == 0 {
            None
        } else {
            match self.first_fault(keys, (n - 1) as nat) {
                Some(e) => Some(e),
                None => self.contract_fault(keys[n - 1]),
            }
        }
    }

    /// What is wrong with the record, if anything is: the first contract, in the order of their
    /// identifiers, that cannot have come about, or periods that overlap.
    pub open spec fn fault(self) -> Option<BillingError> {
        let keys = sorted_keys(self.contracts);
        match self.first_fault(keys, keys.len()) {
            Some(e) => Some(e),
            None => if self.disjoint() {
                None
            } else {
                Some(BillingError::Conflict)
            },
        }
    }

    /// The record of an account as it can come about.
    pub open spec fn sound(self) -> bool {
        &&& forall|id: u128| #[trigger] self.contracts.contains_key(id) ==> self.owns(id)
        &&& self.disjoint()
    }

    pub open spec fn covered(self, at: CanonicalTime) -> bool {
        self.status == AccountStatus::Open && exists|id: u128| #[trigger]
            self.contracts.contains_key(id) && self.contracts[id].covered(at)
    }

    /// Some contract is for an overlapping period.
    pub open spec fn overlapped(self, offer: ServiceOffer) -> bool {
        exists|id: u128| #[trigger]
            self.contracts.contains_key(id) && self.contracts[id].offer.period.overlaps(
                offer.period,
            )
    }

    /// The identifier of the contract for an offer's period.
    pub open spec fn contract_id(self, offer: ServiceOffer) -> ServiceContractId {
        ServiceContractId(
            digest_id(
                operation_bytes(
                    self.bank.scope,
                    utf8("service-contract"@),
                    self.bank.account.0,
                    offer.period.start.0 as u128,
                ),
            ),
        )
    }

    /// The collection of an offer's price.
    pub open spec fn collection(self, offer: ServiceOffer) -> PaymentOperation {
        PaymentOperation {
            scope: self.bank.scope,
            id: PaymentOperationId(self.contract_id(offer).0),
            kind: PaymentKind::Capture,
            amount: offer.price,
            unit: self.bank.unit,
            destination: self.bank.bank_token,
        }
    }

    /// The account after a purchase, with the contract's identifier; or why there is none.
    pub open spec fn purchased(self, offer: ServiceOffer, processor_key: [u8; 32]) -> Result<
        (Self, ServiceContractId),
        BillingError,
    > {
        let id = self.contract_id(offer);
        if self.status != AccountStatus::Open || offer.unit != self.bank.unit || zero_32(
            processor_key,
        ) {
            Err(BillingError::Conflict)
        } else if self.contracts.contains_key(id.0) {
            if self.contracts[id.0].offer == offer && self.contracts[id.0].processor_key
                == processor_key {
                Ok((self, id))
            } else {
                Err(BillingError::Conflict)
            }
        } else if self.overlapped(offer) {
            Err(BillingError::Conflict)
        } else if !self.collection(offer).valid() {
            Err(BillingError::Payment(PaymentError::InvalidOperation))
        } else if self.revision == u64::MAX {
            Err(BillingError::Overflow)
        } else {
            let contract = ContractModel {
                id,
                offer,
                processor_key,
                collection: first_attempt(self.collection(offer)),
                settlement: ServiceSettlement::Unfunded,
            };
            Ok(
                (
                    BillingModel {
                        revision: (self.revision + 1) as u64,
                        contracts: self.contracts.insert(id.0, contract),
                        ..self
                    },
                    id,
                ),
            )
        }
    }

    /// The account after a further attempt to collect.
    pub open spec fn retried(self, id: ServiceContractId) -> Result<
        (Self, PaymentOperation),
        BillingError,
    > {
        if self.status != AccountStatus::Open {
            Err(BillingError::Conflict)
        } else if !self.contracts.contains_key(id.0) {
            Err(BillingError::MissingRecord)
        } else {
            match self.contracts[id.0].retried() {
                Err(e) => Err(e),
                Ok(contract) => if self.revision == u64::MAX {
                    Err(BillingError::Overflow)
                } else {
                    Ok(
                        (
                            BillingModel {
                                revision: (self.revision + 1) as u64,
                                contracts: self.contracts.insert(id.0, contract),
                                ..self
                            },
                            contract.collection.current(),
                        ),
                    )
                },
            }
        }
    }

    /// The account after it is closed.
    pub open spec fn closed(self) -> Result<Self, BillingError> {
        if self.status == AccountStatus::Closed {
            Ok(self)
        } else if self.revision == u64::MAX {
            Err(BillingError::Overflow)
        } else {
            Ok(
                BillingModel {
                    revision: (self.revision + 1) as u64,
                    status: AccountStatus::Closed,
                    ..self
                },
            )
        }
    }

    /// The account after a receipt, with the transfers that go with it.
    pub open spec fn recorded(
        self,
        id: ServiceContractId,
        receipt: SignedPaymentEvidence,
        at: CanonicalTime,
    ) -> Result<(Self, Seq<Transfer>), BillingError> {
        if !self.contracts.contains_key(id.0) {
            Err(BillingError::MissingRecord)
        } else {
            match self.contracts[id.0].recorded(receipt, at) {
                Err(e) => Err(e),
                Ok((contract, transfers)) => if contract == self.contracts[id.0] {
                    Ok((self, transfers))
                } else if self.revision == u64::MAX {
                    Err(BillingError::Overflow)
                } else {
                    Ok(
                        (
                            BillingModel {
                                revision: (self.revision + 1) as u64,
                                contracts: self.contracts.insert(id.0, contract),
                                ..self
                            },
                            transfers,
                        ),
                    )
                },
            }
        }
    }
}

proof fn lemma_first_fault(model: BillingModel, keys: Seq<u128>, i: nat, n: nat)
    requires
        i <= n,
        model.first_fault(keys, i) is Some,
    ensures
        model.first_fault(keys, n) == model.first_fault(keys, i),
    decreases n,
{
    if i < n {
        lemma_first_fault(model, keys, i, (n - 1) as nat);
    }
}

proof fn lemma_faultless(model: BillingModel, keys: Seq<u128>, n: nat, i: int)
    requires
        model.first_fault(keys, n) is None,
        0 <= i < n,
    ensures
        model.owns(keys[i]),
    decreases n,
{
    if i < n - 1 {
        lemma_faultless(model, keys, (n - 1) as nat, i);
    }
}

proof fn lemma_put_contract(map: Map<u128, ServiceContract>, id: u128, contract: ServiceContract)
    ensures
        contract_models(map.insert(id, contract)) == contract_models(map).insert(id, contract@),
{
    assert(contract_models(map.insert(id, contract)) =~= contract_models(map).insert(
        id,
        contract@,
    ));
}

impl BillingAccount {
    pub fn new(bank: VerifiedBankAccount) -> (account: Self)
        ensures
            account@ == (BillingModel {
                bank: bank.proven()@,
                authority: bank.vouched_by(),
                revision: 0,
                status: AccountStatus::Open,
                contracts: Map::empty(),
            }),
            account@.sound(),
    {
        let account = BillingAccount {
            bank,
            revision: 0,
            status: AccountStatus::Open,
            contracts: BTreeMap::new(),
        };
        assert(account@.contracts =~= Map::empty());
        account
    }

    pub fn id(&self) -> (id: BillingAccountId)
        ensures
            id == self@.bank.account,
    {
        self.bank.evidence().account
    }

    pub fn scope(&self) -> (scope: FinancialScope)
        ensures
            scope == self@.bank.scope,
    {
        self.bank.evidence().scope
    }

    pub fn unit(&self) -> (unit: SettlementUnit)
        ensures
            unit == self@.bank.unit,
    {
        self.bank.evidence().unit
    }

    pub fn member(&self) -> (member: MemberId)
        ensures
            member == self@.bank.member,
    {
        self.bank.evidence().member
    }

    pub fn bank(&self) -> (bank: &VerifiedBankAccount)
        ensures
            *bank == self.bank,
            bank.proven()@ == self@.bank,
            bank.vouched_by() == self@.authority,
    {
        &self.bank
    }

    pub fn revision(&self) -> (revision: u64)
        ensures
            revision == self@.revision,
    {
        self.revision
    }

    pub fn status(&self) -> (status: AccountStatus)
        ensures
            status == self@.status,
    {
        self.status
    }

    /// The contracts by the number of their identifiers.
    pub fn contracts(&self) -> (contracts: &BTreeMap<u128, ServiceContract>)
        ensures
            *contracts == self.contracts,
            contract_models(contracts@) == self@.contracts,
    {
        &self.contracts
    }

    pub fn covers(&self, at: CanonicalTime) -> (covered: bool)
        ensures
            covered == self@.covered(at),
    {
        if self.status != AccountStatus::Open {
            return false;
        }
        let keys = keys_of(&self.contracts);
        let mut i: usize = 0;
        while i < keys.len()
            invariant
                self.status == AccountStatus::Open,
                keys_in_order(keys@, self.contracts@),
                0 <= i <= keys@.len(),
                forall|j: int| 0 <= j < i ==> !self@.contracts[#[trigger] keys@[j]].covered(at),
            decreases keys@.len() - i,
        {
            assert(self.contracts@.contains_key(keys@[i as int]));
            match lookup(&self.contracts, keys[i]) {
                Some(contract) => {
                    if contract.covers(at) {
                        assert(self@.contracts.contains_key(keys@[i as int]));
                        return true;
                    }
                },
                None => {},
            }
            i += 1;
        }
        proof {
            assert forall|id: u128| #[trigger] self@.contracts.contains_key(id) implies !self@.contracts[id].covered(
                at,
            ) by {
                assert(self.contracts@.contains_key(id));
                let j = choose|j: int| 0 <= j < keys@.len() && keys@[j] == id;
                assert(!self@.contracts[keys@[j]].covered(at));
            }
        }
        false
    }

    /// Closes the account; existing obligations remain intact. Only revision overflow is refused.
    pub fn close(&mut self) -> (result: Result<(), BillingError>)
        ensures
            match old(self)@.closed() {
                Ok(next) => result is Ok && final(self)@ == next,
                Err(e) => result == Err::<(), BillingError>(e) && *final(self) == *old(self),
            },
            old(self)@.sound() ==> final(self)@.sound(),
    {
        if self.status == AccountStatus::Open {
            match self.bump() {
                Ok(()) => {},
                Err(e) => return Err(e),
            }
            self.status = AccountStatus::Closed;
            proof {
                lemma_same_contracts(old(self)@, self@);
            }
        }
        Ok(())
    }

    fn bump(&mut self) -> (result: Result<(), BillingError>)
        ensures
            if old(self).revision == u64::MAX {
                result == Err::<(), BillingError>(BillingError::Overflow) && *final(self) == *old(
                    self)
            } else {
                result is Ok && *final(self) == (BillingAccount {
                    revision: (old(self).revision + 1) as u64,
                    ..*old(self)
                })
            },
    {
        match self.revision.checked_add(1) {
            Some(next) => {
                self.revision = next;
                Ok(())
            },
            None => Err(BillingError::Overflow),
        }
    }

    fn overlaps(&self, offer: &ServiceOffer) -> (overlapping: bool)
        ensures
            overlapping == self@.overlapped(*offer),
    {
        let keys = keys_of(&self.contracts);
        let mut i: usize = 0;
        while i < keys.len()
            invariant
                keys_in_order(keys@, self.contracts@),
                0 <= i <= keys@.len(),
                forall|j: int|
                    0 <= j < i ==> !self@.contracts[#[trigger] keys@[j]].offer.period.overlaps(
                        offer.period,
                    ),
            decreases keys@.len() - i,
        {
            assert(self.contracts@.contains_key(keys@[i as int]));
            match lookup(&self.contracts, keys[i]) {
                Some(contract) => {
                    if contract.offer.period.start.0 < offer.period.end.0 && offer.period.start.0
                        < contract.offer.period.end.0 {
                        assert(self@.contracts.contains_key(keys@[i as int]));
                        return true;
                    }
                },
                None => {},
            }
            i += 1;
        }
        proof {
            assert forall|id: u128| #[trigger] self@.contracts.contains_key(id) implies !self@.contracts[id].offer.period.overlaps(
                offer.period,
            ) by {
                assert(self.contracts@.contains_key(id));
                let j = choose|j: int| 0 <= j < keys@.len() && keys@[j] == id;
                assert(!self@.contracts[keys@[j]].offer.period.overlaps(offer.period));
            }
        }
        false
    }

    /// Purchases a year of service. Closure, overlapping service periods, changed contract terms,
    /// and invalid processor authority are refused; repeating a purchase gives the same contract.
    pub fn purchase(&mut self, offer: &ServiceOffer, processor_key: [u8; 32]) -> (result: Result<
        ServiceContractId,
        BillingError,
    >)
        requires
            old(self)@.sound(),
        ensures
            match old(self)@.purchased(*offer, processor_key) {
                Ok((next, id)) => result == Ok::<ServiceContractId, BillingError>(id) && final(
                    self)@ == next && next.sound(),
                Err(e) => result == Err::<ServiceContractId, BillingError>(e) && *final(self)
                    == *old(self),
            },
    {
        if self.status != AccountStatus::Open || offer.unit != self.unit() || is_zero_32(
            &processor_key,
        ) {
            return Err(BillingError::Conflict);
        }
        let purpose = text_bytes("service-contract");
        let id = ServiceContractId(
            operation_id(
                self.scope(),
                purpose.as_slice(),
                self.id().0,
                offer.period.start.0 as u128,
            ).0,
        );
        match lookup(&self.contracts, id.0) {
            Some(known) => {
                assert(self@.contracts.contains_key(id.0));
                return if known.offer == *offer && same_32(&known.processor_key, &processor_key) {
                    Ok(id)
                } else {
                    Err(BillingError::Conflict)
                };
            },
            None => {},
        }
        if self.overlaps(offer) {
            return Err(BillingError::Conflict);
        }
        let operation = PaymentOperation {
            scope: self.scope(),
            id: PaymentOperationId(id.0),
            kind: PaymentKind::Capture,
            amount: offer.price,
            unit: self.unit(),
            destination: self.bank.evidence().bank_token,
        };
        let collection = match PaymentExecution::new(operation) {
            Ok(collection) => collection,
            Err(e) => return Err(BillingError::Payment(e)),
        };
        let contract = ServiceContract {
            id,
            offer: *offer,
            processor_key,
            collection,
            settlement: ServiceSettlement::Unfunded,
        };
        match self.bump() {
            Ok(()) => {},
            Err(e) => return Err(e),
        }
        proof {
            lemma_put_contract(self.contracts@, id.0, contract);
        }
        put(&mut self.contracts, id.0, contract);
        proof {
            lemma_purchase_sound(old(self)@, *offer, processor_key);
        }
        Ok(id)
    }

    /// Starts a further attempt to collect. A closed account, an unknown contract, and collection
    /// without definitive failure are refused.
    pub fn retry_collection(&mut self, id: ServiceContractId) -> (result: Result<
        PaymentOperation,
        BillingError,
    >)
        requires
            old(self)@.sound(),
        ensures
            match old(self)@.retried(id) {
                Ok((next, operation)) => result == Ok::<PaymentOperation, BillingError>(operation)
                    && final(self)@ == next && next.sound(),
                Err(e) => result == Err::<PaymentOperation, BillingError>(e) && *final(self)
                    == *old(self),
            },
    {
        if self.status != AccountStatus::Open {
            return Err(BillingError::Conflict);
        }
        let mut contract = match lookup(&self.contracts, id.0) {
            Some(contract) => contract.clone(),
            None => return Err(BillingError::MissingRecord),
        };
        proof {
            assert(self@.contracts.contains_key(id.0));
            assert(self@.owns(id.0));
        }
        let operation = match contract.retry() {
            Ok(operation) => operation,
            Err(e) => return Err(e),
        };
        match self.bump() {
            Ok(()) => {},
            Err(e) => return Err(e),
        }
        proof {
            lemma_put_contract(self.contracts@, id.0, contract);
        }
        put(&mut self.contracts, id.0, contract);
        proof {
            retries_keep_the_purchase(old(self)@.contracts[id.0]);
            lemma_replaced_sound(old(self)@, self@, id.0, contract@);
        }
        Ok(operation)
    }

    /// Takes in a receipt. Unknown contracts, early confirmation, contradictory evidence, and
    /// revision overflow are refused; a repeated receipt changes nothing.
    pub fn record_collection(
        &mut self,
        id: ServiceContractId,
        receipt: &SignedPaymentEvidence,
        at: CanonicalTime,
    ) -> (result: Result<LedgerBatch, BillingError>)
        requires
            old(self)@.sound(),
        ensures
            match old(self)@.recorded(id, *receipt, at) {
                Ok((next, transfers)) => result matches Ok(batch) && batch.transfers@ == transfers
                    && final(self)@ == next && next.sound(),
                Err(e) => result == Err::<LedgerBatch, BillingError>(e) && *final(self) == *old(
                    self),
            },
    {
        let mut contract = match lookup(&self.contracts, id.0) {
            Some(contract) => contract.clone(),
            None => return Err(BillingError::MissingRecord),
        };
        proof {
            assert(self@.contracts.contains_key(id.0));
            assert(self@.owns(id.0));
        }
        let ghost previous = contract@;
        let replayed = holds(&contract.collection.events, receipt.evidence.event_id.0);
        let batch = match contract.record(receipt, at) {
            Ok(batch) => batch,
            Err(e) => return Err(e),
        };
        if replayed {
            assert(contract@ == previous);
            return Ok(batch);
        }
        proof {
            assert(contract@.collection.events.contains_key(receipt.evidence.event_id.0));
            assert(contract@ != previous);
        }
        match self.bump() {
            Ok(()) => {},
            Err(e) => return Err(e),
        }
        proof {
            lemma_put_contract(self.contracts@, id.0, contract);
        }
        put(&mut self.contracts, id.0, contract);
        proof {
            collections_stay_consistent(old(self)@.contracts[id.0], *receipt, at);
            lemma_replaced_sound(old(self)@, self@, id.0, contract@);
        }
        Ok(batch)
    }

    /// Takes a stored account back in, if it is one that can have come about.
    pub fn restore(
        bank: BankVerification,
        verification_authority: [u8; 32],
        revision: u64,
        status: AccountStatus,
        contracts: BTreeMap<u128, ServiceContract>,
    ) -> (result: Result<Self, BillingError>)
        ensures
            ({
                let model = BillingModel {
                    bank: bank@,
                    authority: verification_authority,
                    revision,
                    status,
                    contracts: contract_models(contracts@),
                };
                &&& match bank.verdict(verification_authority) {
                    Err(e) => result == Err::<Self, BillingError>(BillingError::Payment(e)),
                    Ok(()) => match model.fault() {
                        Some(e) => result == Err::<Self, BillingError>(e),
                        None => result matches Ok(account) && account@ == model,
                    },
                }
                &&& result is Ok ==> model.sound()
            }),
    {
        let ghost model = BillingModel {
            bank: bank@,
            authority: verification_authority,
            revision,
            status,
            contracts: contract_models(contracts@),
        };
        let verified = match bank.verify(&verification_authority) {
            Ok(verified) => verified,
            Err(e) => return Err(BillingError::Payment(e)),
        };
        let keys = keys_of(&contracts);
        proof {
            lemma_sorted_keys(model.contracts);
            lemma_keys_unique(keys@, sorted_keys(model.contracts), model.contracts);
        }
        let mut i: usize = 0;
        while i < keys.len()
            invariant
                model == (BillingModel {
                    bank: bank@,
                    authority: verification_authority,
                    revision,
                    status,
                    contracts: contract_models(contracts@),
                }),
                bank.verdict(verification_authority) is Ok,
                keys_in_order(keys@, contracts@),
                keys@ == sorted_keys(model.contracts),
                0 <= i <= keys@.len(),
                model.first_fault(keys@, i as nat) is None,
            decreases keys@.len() - i,
        {
            let id: u128 = keys[i];
            assert(contracts@.contains_key(keys@[i as int]));
            assert(model.contracts.contains_key(id));
            proof {
                if model.contract_fault(id) is Some {
                    lemma_first_fault(model, keys@, (i + 1) as nat, keys@.len());
                }
            }
            match lookup(&contracts, id) {
                Some(contract) => {
                    match contract.validate() {
                        Ok(()) => {},
                        Err(e) => return Err(e),
                    }
                    let operation = contract.collection.current();
                    if id != contract.id.0 || !operation.scope.same(&bank.scope) || operation.unit
                        != bank.unit || !same_32(&operation.destination, &bank.bank_token) {
                        return Err(BillingError::Conflict);
                    }
                },
                None => return Err(BillingError::MissingRecord),
            }
            i += 1;
        }
        proof {
            assert forall|id: u128| #[trigger] model.contracts.contains_key(id) implies model.owns(
                id,
            ) by {
                assert(contracts@.contains_key(id));
                let j = choose|j: int| 0 <= j < keys@.len() && keys@[j] == id;
                lemma_faultless(model, keys@, keys@.len(), j);
            }
        }
        if !periods_disjoint(&contracts, &keys) {
            return Err(BillingError::Conflict);
        }
        Ok(BillingAccount { bank: verified, revision, status, contracts })
    }
}

impl Clone for BillingAccount {
    fn clone(&self) -> (copy: Self)
        ensures
            copy@ == self@,
    {
        BillingAccount {
            bank: self.bank.clone(),
            revision: self.revision,
            status: self.status,
            contracts: self.contracts.clone(),
        }
    }
}

fn periods_disjoint(contracts: &BTreeMap<u128, ServiceContract>, keys: &Vec<u128>) -> (disjoint: bool)
    requires
        keys_in_order(keys@, contracts@),
    ensures
        disjoint == (forall|a: u128, b: u128| #[trigger]
            contract_models(contracts@).contains_key(a) && #[trigger] contract_models(
                contracts@,
            ).contains_key(b) && a != b ==> !contract_models(contracts@)[a].offer.period.overlaps(
                contract_models(contracts@)[b].offer.period,
            )),
{
    let ghost models = contract_models(contracts@);
    let mut i: usize = 0;
    while i < keys.len()
        invariant
            models == contract_models(contracts@),
            keys_in_order(keys@, contracts@),
            0 <= i <= keys@.len(),
            forall|p: int, q: int|
                0 <= p < q < i ==> !models[#[trigger] keys@[p]].offer.period.overlaps(
                    models[#[trigger] keys@[q]].offer.period,
                ),
        decreases keys@.len() - i,
    {
        let mut j: usize = 0;
        while j < i
            invariant
                models == contract_models(contracts@),
                keys_in_order(keys@, contracts@),
                0 <= j <= i < keys@.len(),
                forall|p: int|
                    0 <= p < j ==> !models[#[trigger] keys@[p]].offer.period.overlaps(
                        models[keys@[i as int]].offer.period,
                    ),
            decreases i - j,
        {
            assert(contracts@.contains_key(keys@[i as int]));
            assert(contracts@.contains_key(keys@[j as int]));
            match (lookup(contracts, keys[j]), lookup(contracts, keys[i])) {
                (Some(a), Some(b)) => {
                    if a.offer.period.start.0 < b.offer.period.end.0 && b.offer.period.start.0
                        < a.offer.period.end.0 {
                        proof {
                            let (x, y) = (keys@[j as int], keys@[i as int]);
                            assert(x < y);
                            assert(models.contains_key(x) && models.contains_key(y));
                            assert(models[x].offer.period.overlaps(models[y].offer.period));
                        }
                        return false;
                    }
                },
                _ => {},
            }
            j += 1;
        }
        i += 1;
    }
    proof {
        assert forall|a: u128, b: u128| #[trigger]
            models.contains_key(a) && #[trigger] models.contains_key(b) && a != b implies !models[a].offer.period.overlaps(
            models[b].offer.period,
        ) by {
            assert(contracts@.contains_key(a) && contracts@.contains_key(b));
            let p = choose|p: int| 0 <= p < keys@.len() && keys@[p] == a;
            let q = choose|q: int| 0 <= q < keys@.len() && keys@[q] == b;
            if p < q {
                assert(!models[keys@[p]].offer.period.overlaps(models[keys@[q]].offer.period));
            } else {
                assert(!models[keys@[q]].offer.period.overlaps(models[keys@[p]].offer.period));
            }
        }
    }
    true
}

proof fn lemma_same_contracts(a: BillingModel, b: BillingModel)
    requires
        a.bank == b.bank,
        a.contracts == b.contracts,
    ensures
        a.sound() ==> b.sound(),
{
    if a.sound() {
        assert forall|id: u128| #[trigger] b.contracts.contains_key(id) implies b.owns(id) by {
            assert(a.contracts.contains_key(id));
            assert(a.owns(id));
        }
        assert forall|x: u128, y: u128| #[trigger]
            b.contracts.contains_key(x) && #[trigger] b.contracts.contains_key(y) && x != y implies !b.contracts[x].offer.period.overlaps(
            b.contracts[y].offer.period,
        ) by {
            assert(a.contracts.contains_key(x) && a.contracts.contains_key(y));
        }
    }
}

proof fn lemma_replaced_sound(a: BillingModel, b: BillingModel, id: u128, contract: ContractModel)
    requires
        a.sound(),
        a.contracts.contains_key(id),
        b.bank == a.bank,
        b.contracts == a.contracts.insert(id, contract),
        contract.check() is Ok,
        contract.id == a.contracts[id].id,
        contract.offer == a.contracts[id].offer,
        contract.collection.current().scope == a.contracts[id].collection.current().scope,
        contract.collection.current().unit == a.contracts[id].collection.current().unit,
        contract.collection.current().destination
            == a.contracts[id].collection.current().destination,
    ensures
        b.sound(),
{
    assert(a.owns(id));
    assert forall|k: u128| #[trigger] b.contracts.contains_key(k) implies b.owns(k) by {
        assert(a.contracts.contains_key(k));
        assert(a.owns(k));
    }
    assert forall|x: u128, y: u128| #[trigger]
        b.contracts.contains_key(x) && #[trigger] b.contracts.contains_key(y) && x != y implies !b.contracts[x].offer.period.overlaps(
        b.contracts[y].offer.period,
    ) by {
        assert(a.contracts.contains_key(x) && a.contracts.contains_key(y));
    }
}

proof fn lemma_purchase_sound(account: BillingModel, offer: ServiceOffer, processor_key: [u8; 32])
    requires
        account.sound(),
        account.purchased(offer, processor_key) is Ok,
    ensures
        account.purchased(offer, processor_key)->Ok_0.0.sound(),
{
    let (next, id) = account.purchased(offer, processor_key)->Ok_0;
    if !account.contracts.contains_key(id.0) {
        let operation = account.collection(offer);
        new_payments_are_consistent(operation);
        let contract = next.contracts[id.0];
        reveal_with_fuel(crate::finance::execution::attempt_index, 3);
        assert(contract.collection.find(PaymentOperationId(id.0)) == Some(0int));
        assert(contract.check() is Ok);
        assert forall|k: u128| #[trigger] next.contracts.contains_key(k) implies next.owns(k) by {
            if k != id.0 {
                assert(account.contracts.contains_key(k));
                assert(account.owns(k));
            }
        }
        assert forall|x: u128, y: u128| #[trigger]
            next.contracts.contains_key(x) && #[trigger] next.contracts.contains_key(y) && x != y implies !next.contracts[x].offer.period.overlaps(
            next.contracts[y].offer.period,
        ) by {
            if x != id.0 {
                assert(account.contracts.contains_key(x));
            }
            if y != id.0 {
                assert(account.contracts.contains_key(y));
            }
        }
    }
}

/// Purchasing the same offer again gives the same contract and changes nothing.
pub proof fn purchases_are_idempotent(
    account: BillingModel,
    offer: ServiceOffer,
    processor_key: [u8; 32],
)
    requires
        account.purchased(offer, processor_key) is Ok,
    ensures
        ({
            let (next, id) = account.purchased(offer, processor_key)->Ok_0;
            next.purchased(offer, processor_key) == Ok::<
                (BillingModel, ServiceContractId),
                BillingError,
            >((next, id))
        }),
{
}

/// Taking in a receipt again changes nothing and moves no value.
pub proof fn collections_count_once(
    account: BillingModel,
    id: ServiceContractId,
    receipt: SignedPaymentEvidence,
    at: CanonicalTime,
    later: CanonicalTime,
)
    requires
        at.0 <= later.0,
        account.recorded(id, receipt, at) is Ok,
    ensures
        ({
            let next = account.recorded(id, receipt, at)->Ok_0.0;
            next.recorded(id, receipt, later) == Ok::<(BillingModel, Seq<Transfer>), BillingError>(
                (next, Seq::empty()),
            )
        }),
{
    let contract = account.contracts[id.0];
    crate::finance::execution::receipts_are_idempotent(
        contract.collection,
        receipt,
        contract.processor_key,
    );
}

/// A closed account covers nothing, sells nothing and retries nothing, but still takes in receipts.
pub proof fn closed_accounts_only_settle(
    account: BillingModel,
    at: CanonicalTime,
    offer: ServiceOffer,
    processor_key: [u8; 32],
    id: ServiceContractId,
)
    requires
        account.status == AccountStatus::Closed,
    ensures
        !account.covered(at),
        account.purchased(offer, processor_key) is Err,
        account.retried(id) is Err,
{
}

/// One account is another after a purchase, a further attempt to collect, a receipt or its closing.
pub open spec fn follows(a: BillingModel, b: BillingModel) -> bool {
    ||| exists|offer: ServiceOffer, processor_key: [u8; 32]| #[trigger]
        a.purchased(offer, processor_key) matches Ok((next, _)) && next == b
    ||| exists|id: ServiceContractId| #[trigger] a.retried(id) matches Ok((next, _)) && next == b
    ||| exists|id: ServiceContractId, receipt: SignedPaymentEvidence, at: CanonicalTime| #[trigger]
        a.recorded(id, receipt, at) matches Ok((next, _)) && next == b
    ||| a.closed() == Ok::<BillingModel, BillingError>(b)
}

proof fn lemma_retry_sound(account: BillingModel, id: ServiceContractId)
    requires
        account.sound(),
        account.retried(id) is Ok,
    ensures
        account.retried(id)->Ok_0.0.sound(),
{
    let next = account.retried(id)->Ok_0.0;
    assert(account.owns(id.0));
    retries_keep_the_purchase(account.contracts[id.0]);
    lemma_replaced_sound(account, next, id.0, next.contracts[id.0]);
}

proof fn lemma_receipt_sound(
    account: BillingModel,
    id: ServiceContractId,
    receipt: SignedPaymentEvidence,
    at: CanonicalTime,
)
    requires
        account.sound(),
        account.recorded(id, receipt, at) is Ok,
    ensures
        account.recorded(id, receipt, at)->Ok_0.0.sound(),
{
    let next = account.recorded(id, receipt, at)->Ok_0.0;
    assert(account.owns(id.0));
    if next != account {
        collections_stay_consistent(account.contracts[id.0], receipt, at);
        lemma_replaced_sound(account, next, id.0, next.contracts[id.0]);
    }
}

/// What happens to an account keeps it sound, keeps what was purchased, and never moves the time
/// from which a contract was paid for: a paid contract stays paid from then on until its payment
/// is reversed, and is not paid again after that.
pub proof fn payments_stand_until_reversed(
    before: BillingModel,
    after: BillingModel,
    id: ServiceContractId,
)
    requires
        before.sound(),
        before.contracts.contains_key(id.0),
        follows(before, after),
    ensures
        after.sound(),
        after.contracts.contains_key(id.0),
        after.contracts[id.0].offer == before.contracts[id.0].offer,
        before.status == AccountStatus::Closed ==> after.status == AccountStatus::Closed,
        before.contracts[id.0].settlement matches ServiceSettlement::Funded { at } ==> {
            ||| after.contracts[id.0].settlement == (ServiceSettlement::Funded { at })
            ||| after.contracts[id.0].settlement == (ServiceSettlement::Reversed { funded_at: at })
        },
        before.contracts[id.0].settlement is Reversed ==> after.contracts[id.0].settlement
            == before.contracts[id.0].settlement,
{
    assert(before.owns(id.0));
    if exists|offer: ServiceOffer, processor_key: [u8; 32]| #[trigger]
        before.purchased(offer, processor_key) matches Ok((next, _)) && next == after {
        let (offer, processor_key) = choose|offer: ServiceOffer, processor_key: [u8; 32]| #[trigger]
            before.purchased(offer, processor_key) matches Ok((next, _)) && next == after;
        lemma_purchase_sound(before, offer, processor_key);
    } else if exists|c: ServiceContractId| #[trigger]
        before.retried(c) matches Ok((next, _)) && next == after {
        let c = choose|c: ServiceContractId| #[trigger]
            before.retried(c) matches Ok((next, _)) && next == after;
        lemma_retry_sound(before, c);
        assert(before.owns(c.0));
    } else if before.closed() == Ok::<BillingModel, BillingError>(after) {
        lemma_same_contracts(before, after);
    } else {
        let (c, receipt, at) = choose|
            c: ServiceContractId,
            receipt: SignedPaymentEvidence,
            at: CanonicalTime,
        | #[trigger]
            before.recorded(c, receipt, at) matches Ok((next, _)) && next == after;
        lemma_receipt_sound(before, c, receipt, at);
        if c.0 == id.0 {
            let held = before.contracts[id.0];
            value_is_supplied_once(held.collection, receipt, held.processor_key);
        }
    }
}

/// The receipt that first settles a contract's price pays for it from the time it is taken in.
proof fn lemma_first_settlement(
    account: BillingModel,
    id: ServiceContractId,
    receipt: SignedPaymentEvidence,
    paid: CanonicalTime,
)
    requires
        account.sound(),
        account.contracts.contains_key(id.0),
        account.contracts[id.0].settlement is Unfunded,
        receipt.evidence.outcome == PaymentOutcome::Settled,
        account.recorded(id, receipt, paid) is Ok,
    ensures
        ({
            let next = account.recorded(id, receipt, paid)->Ok_0.0;
            &&& next.sound()
            &&& next.contracts.contains_key(id.0)
            &&& next.contracts[id.0].offer == account.contracts[id.0].offer
            &&& next.contracts[id.0].settlement == (ServiceSettlement::Funded { at: paid })
        }),
{
    assert(account.owns(id.0));
    lemma_receipt_sound(account, id, receipt, paid);
    let held = account.contracts[id.0];
    settled_evidence_settles(held.collection, receipt, held.processor_key);
}

/// Service runs from payment on, within the period that was paid for. Whatever has happened to the
/// account since a contract's price was first settled, and as long as that payment is not reversed:
/// an open account covers a time outside its other contracts' periods exactly if the time is
/// within the contract's period and not before the payment. So paying in advance starts no service
/// early, and paying late covers from then on. A closed account covers nothing.
pub proof fn service_runs_from_payment(
    history: Seq<BillingModel>,
    id: ServiceContractId,
    receipt: SignedPaymentEvidence,
    paid: CanonicalTime,
    t: CanonicalTime,
)
    requires
        history.len() >= 2,
        history[0].sound(),
        history[0].contracts.contains_key(id.0),
        history[0].contracts[id.0].settlement is Unfunded,
        receipt.evidence.outcome == PaymentOutcome::Settled,
        history[0].recorded(id, receipt, paid) matches Ok((next, _)) && next == history[1],
        forall|i: int|
            1 <= i < history.len() - 1 ==> follows(#[trigger] history[i], history[i + 1]),
        !(history.last().contracts[id.0].settlement is Reversed),
        forall|other: u128| #[trigger]
            history.last().contracts.contains_key(other) && other != id.0
                ==> !history.last().contracts[other].offer.period.includes(t),
    ensures
        ({
            let (account, period) = (history.last(), history[0].contracts[id.0].offer.period);
            &&& account.status == AccountStatus::Open ==> (account.covered(t) <==> paid.0 <= t.0
                && period.start.0 <= t.0 < period.end.0)
            &&& account.status == AccountStatus::Closed ==> !account.covered(t)
        }),
{
    lemma_first_settlement(history[0], id, receipt, paid);
    lemma_since_settlement(history, id, paid, (history.len() - 1) as nat);
    let account = history.last();
    let contract = account.contracts[id.0];
    assert(contract.covered(t) <==> paid.0 <= t.0 && contract.offer.period.includes(t));
    if account.covered(t) {
        let other = choose|other: u128| #[trigger]
            account.contracts.contains_key(other) && account.contracts[other].covered(t);
        assert(other == id.0);
    }
}

proof fn lemma_since_settlement(
    history: Seq<BillingModel>,
    id: ServiceContractId,
    paid: CanonicalTime,
    n: nat,
)
    requires
        1 <= n < history.len(),
        history[1].sound(),
        history[1].contracts.contains_key(id.0),
        history[1].contracts[id.0].offer == history[0].contracts[id.0].offer,
        history[1].contracts[id.0].settlement == (ServiceSettlement::Funded { at: paid }),
        forall|i: int|
            1 <= i < history.len() - 1 ==> follows(#[trigger] history[i], history[i + 1]),
    ensures
        history[n as int].sound(),
        history[n as int].contracts.contains_key(id.0),
        history[n as int].contracts[id.0].offer == history[0].contracts[id.0].offer,
        history[n as int].contracts[id.0].settlement == (ServiceSettlement::Funded { at: paid })
            || history[n as int].contracts[id.0].settlement is Reversed,
    decreases n,
{
    if n > 1 {
        lemma_since_settlement(history, id, paid, (n - 1) as nat);
        assert(follows(history[n - 1], history[n as int]));
        payments_stand_until_reversed(history[n - 1], history[n as int], id);
    }
}

/// A time lies within both of two periods.
pub open spec fn shared(p: ServicePeriod, q: ServicePeriod, t: int) -> bool {
    p.start.0 <= t && t < p.end.0 && q.start.0 <= t && t < q.end.0
}

/// No time is paid for twice: after a purchase on an account whose contracts share no time, no
/// time lies within the periods of two different contracts.
pub proof fn contracts_share_no_time(
    account: BillingModel,
    offer: ServiceOffer,
    processor_key: [u8; 32],
    a: u128,
    b: u128,
    t: int,
)
    requires
        account.purchased(offer, processor_key) is Ok,
        forall|i: u128, j: u128, at: int|
            account.contracts.contains_key(i) && account.contracts.contains_key(j) && i != j
                ==> !(#[trigger] shared(
                account.contracts[i].offer.period,
                account.contracts[j].offer.period,
                at,
            )),
    ensures
        ({
            let contracts = account.purchased(offer, processor_key)->Ok_0.0.contracts;
            let (p, q) = (contracts[a].offer.period, contracts[b].offer.period);
            contracts.contains_key(a) && contracts.contains_key(b) && a != b ==> !(p.start.0 <= t
                && t < p.end.0 && q.start.0 <= t && t < q.end.0)
        }),
{
    let (next, id) = account.purchased(offer, processor_key)->Ok_0;
    if next.contracts.contains_key(a) && next.contracts.contains_key(b) && a != b {
        if account.contracts.contains_key(a) && account.contracts.contains_key(b) {
            assert(next.contracts[a] == account.contracts[a]);
            assert(next.contracts[b] == account.contracts[b]);
            assert(!shared(
                account.contracts[a].offer.period,
                account.contracts[b].offer.period,
                t,
            ));
        } else if account.contracts.contains_key(a) {
            assert(next.contracts[a] == account.contracts[a]);
            assert(!account.contracts[a].offer.period.overlaps(offer.period));
        } else {
            assert(account.contracts.contains_key(b));
            assert(!account.contracts[b].offer.period.overlaps(offer.period));
        }
    }
}

/// The contracts of a sound account share no time, and after a purchase none do.
pub proof fn sound_accounts_share_no_time(
    account: BillingModel,
    offer: ServiceOffer,
    processor_key: [u8; 32],
    a: u128,
    b: u128,
    t: int,
)
    requires
        account.sound(),
        account.purchased(offer, processor_key) is Ok,
        a != b,
    ensures
        ({
            let contracts = account.purchased(offer, processor_key)->Ok_0.0.contracts;
            let (p, q) = (contracts[a].offer.period, contracts[b].offer.period);
            contracts.contains_key(a) && contracts.contains_key(b) ==> !(p.start.0 <= t && t
                < p.end.0 && q.start.0 <= t && t < q.end.0)
        }),
        ({
            let (p, q) = (account.contracts[a].offer.period, account.contracts[b].offer.period);
            account.contracts.contains_key(a) && account.contracts.contains_key(b) ==> !(p.start.0
                <= t && t < p.end.0 && q.start.0 <= t && t < q.end.0)
        }),
{
    assert forall|i: u128, j: u128, at: int|
        account.contracts.contains_key(i) && account.contracts.contains_key(j) && i
            != j implies !(#[trigger] shared(
        account.contracts[i].offer.period,
        account.contracts[j].offer.period,
        at,
    )) by {
        assert(!account.contracts[i].offer.period.overlaps(account.contracts[j].offer.period));
    }
    contracts_share_no_time(account, offer, processor_key, a, b, t);
    if account.contracts.contains_key(a) && account.contracts.contains_key(b) {
        assert(!shared(account.contracts[a].offer.period, account.contracts[b].offer.period, t));
    }
}

/// A period that nobody paid for can be bought: on an open account, in its unit and under a known
/// processor, a purchase that is not made already is a conflict exactly if its period shares some
/// time with that of a contract.
pub proof fn purchases_conflict_by_shared_time(
    account: BillingModel,
    offer: ServiceOffer,
    processor_key: [u8; 32],
)
    requires
        account.status == AccountStatus::Open,
        offer.unit == account.bank.unit,
        exists|i: int| 0 <= i < 32 && processor_key@[i] != 0,
        !account.contracts.contains_key(account.contract_id(offer).0),
        offer.period.start.0 < offer.period.end.0,
        forall|k: u128| #[trigger]
            account.contracts.contains_key(k) ==> account.contracts[k].offer.period.start.0
                < account.contracts[k].offer.period.end.0,
    ensures
        account.purchased(offer, processor_key) == Err::<
            (BillingModel, ServiceContractId),
            BillingError,
        >(BillingError::Conflict) <==> exists|k: u128, t: int|
            account.contracts.contains_key(k) && #[trigger] shared(
                account.contracts[k].offer.period,
                offer.period,
                t,
            ),
{
    if account.overlapped(offer) {
        let k = choose|k: u128| #[trigger]
            account.contracts.contains_key(k) && account.contracts[k].offer.period.overlaps(
                offer.period,
            );
        let p = account.contracts[k].offer.period;
        let t: int = if p.start.0 >= offer.period.start.0 {
            p.start.0 as int
        } else {
            offer.period.start.0 as int
        };
        assert(shared(p, offer.period, t));
    } else {
        assert forall|k: u128, t: int| account.contracts.contains_key(k) implies !(
        #[trigger] shared(account.contracts[k].offer.period, offer.period, t)) by {
            assert(!account.contracts[k].offer.period.overlaps(offer.period));
        }
    }
}

/// A purchase is for the offer as published, collects its price from the account's bank in the
/// account's unit, and buys nothing until that is paid. It touches no other contract.
pub proof fn purchases_are_for_the_offer(
    account: BillingModel,
    offer: ServiceOffer,
    processor_key: [u8; 32],
)
    requires
        account.purchased(offer, processor_key) is Ok,
    ensures
        ({
            let (next, id) = account.purchased(offer, processor_key)->Ok_0;
            let contract = next.contracts[id.0];
            &&& account.status == AccountStatus::Open
            &&& offer.unit == account.bank.unit
            &&& exists|i: int| 0 <= i < 32 && processor_key@[i] != 0
            &&& next.contracts.contains_key(id.0)
            &&& contract.offer == offer
            &&& contract.processor_key == processor_key
            &&& forall|k: u128|
                k != id.0 ==> (#[trigger] next.contracts.contains_key(k)
                    <==> account.contracts.contains_key(k)) && next.contracts[k]
                    == account.contracts[k]
            &&& next.bank == account.bank
            &&& next.authority == account.authority
            &&& next.status == account.status
            &&& account.contracts.contains_key(id.0) ==> next == account
            &&& !account.contracts.contains_key(id.0) ==> {
                let operation = contract.collection.current();
                &&& next.revision == account.revision + 1
                &&& contract.id == id
                &&& contract.settlement == ServiceSettlement::Unfunded
                &&& operation.amount == offer.price
                &&& operation.unit == account.bank.unit
                &&& operation.scope == account.bank.scope
                &&& operation.destination == account.bank.bank_token
                &&& operation.kind == PaymentKind::Capture
                &&& operation.id.0 == id.0
            }
        }),
{
    let (next, id) = account.purchased(offer, processor_key)->Ok_0;
    assert(exists|i: int| 0 <= i < 32 && processor_key@[i] != 0);
    assert forall|k: u128| k != id.0 implies (#[trigger] next.contracts.contains_key(k)
        <==> account.contracts.contains_key(k)) && next.contracts[k] == account.contracts[k] by {}
}

/// An account covers a time exactly if it is open and a contract whose period has that time in it
/// is paid for, and was before that time or at it.
pub proof fn accounts_cover_what_is_paid(account: BillingModel, at: CanonicalTime)
    ensures
        account.covered(at) <==> account.status == AccountStatus::Open && exists|k: u128| #[trigger]
            account.contracts.contains_key(k) && account.contracts[k].offer.period.start.0 <= at.0
                && at.0 < account.contracts[k].offer.period.end.0
                && match account.contracts[k].settlement {
                ServiceSettlement::Funded { at: paid } => paid.0 <= at.0,
                _ => false,
            },
{
}

/// Closing an account ends its cover at every time and leaves its contracts to be settled; a closed
/// account neither sells nor tries to collect again.
pub proof fn closing_ends_cover(
    account: BillingModel,
    at: CanonicalTime,
    offer: ServiceOffer,
    processor_key: [u8; 32],
    id: ServiceContractId,
)
    requires
        account.closed() is Ok,
    ensures
        ({
            let next = account.closed()->Ok_0;
            &&& next.status == AccountStatus::Closed
            &&& next.contracts == account.contracts
            &&& next.bank == account.bank
            &&& next.authority == account.authority
            &&& next.revision == if account.status == AccountStatus::Closed {
                account.revision as int
            } else {
                account.revision + 1
            }
            &&& !next.covered(at)
            &&& next.purchased(offer, processor_key) is Err
            &&& next.retried(id) is Err
        }),
{
}

/// A receipt is for one contract of the account: it changes that contract as the contract takes the
/// receipt, no other, and nothing else but the revision.
pub proof fn receipts_are_for_one_contract(
    account: BillingModel,
    id: ServiceContractId,
    receipt: SignedPaymentEvidence,
    at: CanonicalTime,
    k: u128,
)
    requires
        account.recorded(id, receipt, at) is Ok,
    ensures
        ({
            let (next, transfers) = account.recorded(id, receipt, at)->Ok_0;
            &&& account.contracts.contains_key(id.0)
            &&& account.contracts[id.0].recorded(receipt, at) == Ok::<
                (ContractModel, Seq<Transfer>),
                BillingError,
            >((next.contracts[id.0], transfers))
            &&& k != id.0 ==> (next.contracts.contains_key(k) <==> account.contracts.contains_key(k))
                && next.contracts[k] == account.contracts[k]
            &&& next.bank == account.bank && next.authority == account.authority && next.status
                == account.status
            &&& next.revision == account.revision <==> next.contracts[id.0]
                == account.contracts[id.0]
            &&& next.revision == account.revision || next.revision == account.revision + 1
        }),
{
}

/// A further attempt to collect is for one contract of an open account, whose last attempt failed or
/// was voided, and changes no other.
pub proof fn retries_are_for_one_contract(account: BillingModel, id: ServiceContractId, k: u128)
    requires
        account.retried(id) is Ok,
    ensures
        ({
            let (next, operation) = account.retried(id)->Ok_0;
            let was = account.contracts[id.0];
            let is = next.contracts[id.0];
            &&& account.status == AccountStatus::Open
            &&& account.contracts.contains_key(id.0) && next.contracts.contains_key(id.0)
            &&& was.collection.attempts.last().state is Failed
                || was.collection.attempts.last().state is Voided
            &&& is.collection.attempts.len() == was.collection.attempts.len() + 1
            &&& is.collection.attempts.last().operation == operation
            &&& is.offer == was.offer && is.settlement == was.settlement && is.id == was.id
            &&& operation.amount == was.collection.attempts.last().operation.amount
            &&& operation.destination == was.collection.attempts.last().operation.destination
            &&& k != id.0 ==> (next.contracts.contains_key(k) <==> account.contracts.contains_key(k))
                && next.contracts[k] == account.contracts[k]
            &&& next.revision == account.revision + 1
            &&& next.bank == account.bank && next.status == account.status
        }),
{
}

/// A sound account has each contract under its own identifier, consistent, with a price collected
/// from the account's own bank in its scope and unit; and what the contract says of the payment is
/// what the collection shows.
pub proof fn sound_accounts_collect_from_their_bank(account: BillingModel, k: u128)
    requires
        account.sound(),
        account.contracts.contains_key(k),
    ensures
        ({
            let contract = account.contracts[k];
            let last = contract.collection.attempts.last();
            &&& contract.id.0 == k && k != 0
            &&& last.operation.amount == contract.offer.price
            &&& last.operation.unit == account.bank.unit
            &&& last.operation.scope == account.bank.scope
            &&& last.operation.destination == account.bank.bank_token
            &&& last.operation.kind == PaymentKind::Capture
            &&& exists|i: int| 0 <= i < 32 && contract.processor_key@[i] != 0
            &&& match contract.settlement {
                ServiceSettlement::Unfunded => last.state is Pending || last.state is Failed
                    || last.state is Voided,
                ServiceSettlement::Funded { at } => last.state is Settled && at.0
                    >= contract.offer.collect_at.0,
                ServiceSettlement::Reversed { funded_at } => last.state is Reversed && funded_at.0
                    >= contract.offer.collect_at.0,
            }
        }),
{
    assert(account.owns(k));
    assert(!zero_32(account.contracts[k].processor_key));
}

} // verus!
