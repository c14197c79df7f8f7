//! Signed commands of a billing account's holder.

use super::offer::BillingError;
use crate::bytes::{push_all, push_text, text_bytes, utf8};
use crate::crypto::{ed25519_accepts_strictly, ed25519_signature, sign, verify_strict};
use crate::finance::scope::FinancialScope;
use crate::json::{json_number, push_number};
use crate::primitives::ids::{
    BillingAccountId, IdempotencyKey, OperationalKeyRef, ServiceContractId,
};
use crate::primitives::versions::PolicyVersion;
use vstd::prelude::*;

verus! {

#[derive(Clone, Copy, Debug, PartialEq, Eq, Structural)]
pub enum BillingCommand {
    Inspect,
    PurchaseService { offer: PolicyVersion },
    RetryCollection { contract: ServiceContractId },
}

impl BillingCommand {
    pub open spec fn json(self) -> Seq<u8> {
        match self {
            BillingCommand::Inspect => utf8("\"Inspect\""@),
            BillingCommand::PurchaseService { offer } => utf8("{\"PurchaseService\":{\"offer\":"@)
                + json_number(offer.0 as nat) + utf8("}}"@),
            BillingCommand::RetryCollection { contract } => utf8(
                "{\"RetryCollection\":{\"contract\":"@,
            ) + json_number(contract.0 as nat) + utf8("}}"@),
        }
    }

    fn json_bytes(self) -> (bytes: Vec<u8>)
        ensures
            bytes@ == self.json(),
    {
        match self {
            BillingCommand::Inspect => text_bytes("\"Inspect\""),
            BillingCommand::PurchaseService { offer } => {
                let mut out = text_bytes("{\"PurchaseService\":{\"offer\":");
                push_number(&mut out, offer.0 as u128);
                push_text(&mut out, "}}");
                out
            },
            BillingCommand::RetryCollection { contract } => {
                let mut out = text_bytes("{\"RetryCollection\":{\"contract\":");
                push_number(&mut out, contract.0);
                push_text(&mut out, "}}");
                out
            },
        }
    }
}

#[derive(Debug, PartialEq, Eq)]
pub struct SignedBillingCommand {
    pub account: BillingAccountId,
    pub operational_key: OperationalKeyRef,
    pub scope: FinancialScope,
    pub expected_revision: u64,
    pub idempotency_key: IdempotencyKey,
    pub command: BillingCommand,
    pub signature: Vec<u8>,
}

impl Clone for SignedBillingCommand {
    fn clone(&self) -> (copy: Self)
        ensures
            copy.alike(self),
    {
        SignedBillingCommand {
            account: self.account,
            operational_key: self.operational_key,
            scope: self.scope,
            expected_revision: self.expected_revision,
            idempotency_key: self.idempotency_key,
            command: self.command,
            signature: crate::bytes::copy_bytes(&self.signature),
        }
    }
}

impl SignedBillingCommand {
    pub open spec fn alike(&self, other: &Self) -> bool {
        &&& self.account == other.account
        &&& self.operational_key == other.operational_key
        &&& self.scope == other.scope
        &&& self.expected_revision == other.expected_revision
        &&& self.idempotency_key == other.idempotency_key
        &&& self.command == other.command
        &&& self.signature@ == other.signature@
    }

    /// Whether two signed commands are the same.
    pub fn same(&self, other: &Self) -> (same: bool)
        ensures
            same == self.alike(other),
    {
        self.account == other.account && self.operational_key == other.operational_key
            && self.scope.same(&other.scope) && self.expected_revision == other.expected_revision
            && self.idempotency_key == other.idempotency_key && self.command == other.command
            && crate::bytes::same_bytes(self.signature.as_slice(), other.signature.as_slice())
    }

    /// What the holder signs: everything but the signature, as a JSON array.
    pub open spec fn statement(&self) -> Seq<u8> {
        utf8("[\"cs-mail/billing-command/v3\","@) + json_number(self.operational_key.0 as nat)
            + utf8(","@) + json_number(self.account.0 as nat) + utf8(","@) + self.scope.json()
            + utf8(","@) + json_number(self.expected_revision as nat) + utf8(","@) + json_number(
            self.idempotency_key.0 as nat,
        ) + utf8(","@) + self.command.json() + utf8("]"@)
    }

    fn bytes(&self) -> (bytes: Vec<u8>)
        ensures
            bytes@ == self.statement(),
    {
        let mut out = text_bytes("[\"cs-mail/billing-command/v3\",");
        push_number(&mut out, self.operational_key.0);
        push_text(&mut out, ",");
        push_number(&mut out, self.account.0);
        push_text(&mut out, ",");
        self.scope.push_json(&mut out);
        push_text(&mut out, ",");
        push_number(&mut out, self.expected_revision as u128);
        push_text(&mut out, ",");
        push_number(&mut out, self.idempotency_key.0);
        push_text(&mut out, ",");
        push_all(&mut out, self.command.json_bytes().as_slice());
        push_text(&mut out, "]");
        out
    }

    /// Signs a command; signing never fails.
    pub fn sign(
        account: BillingAccountId,
        operational_key: OperationalKeyRef,
        scope: FinancialScope,
        expected_revision: u64,
        idempotency_key: IdempotencyKey,
        command: BillingCommand,
        secret: &[u8; 32],
    ) -> (result: Result<Self, BillingError>)
        ensures
            result matches Ok(signed) && signed.account == account && signed.operational_key
                == operational_key && signed.scope == scope && signed.expected_revision
                == expected_revision && signed.idempotency_key == idempotency_key && signed.command
                == command && signed.signature@ == ed25519_signature(secret@, signed.statement()),
    {
        let mut signed = SignedBillingCommand {
            account,
            operational_key,
            scope,
            expected_revision,
            idempotency_key,
            command,
            signature: Vec::new(),
        };
        let bytes = signed.bytes();
        let ghost statement = signed.statement();
        signed.signature = sign(secret, bytes.as_slice());
        assert(signed.statement() == statement);
        Ok(signed)
    }

    /// Refuses a command not authorized by the selected account authority.
    pub fn verify(&self, key: &[u8; 32]) -> (result: Result<(), BillingError>)
        ensures
            result == (if ed25519_accepts_strictly(key@, self.statement(), self.signature@) {
                Ok(())
            } else {
                Err(BillingError::Conflict)
            }),
    {
        let bytes = self.bytes();
        if verify_strict(key, bytes.as_slice(), self.signature.as_slice()) {
            Ok(())
        } else {
            Err(BillingError::Conflict)
        }
    }
}

} // verus!
