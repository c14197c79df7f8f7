//! Bank-linked account evidence. Verification authority is configured by the host.

use super::payments::PaymentError;
use super::scope::FinancialScope;
use crate::bytes::{copy_bytes, is_zero_32, push_all, push_text, same_32, same_bytes, utf8, zero_32};
use crate::crypto::{ed25519_accepts_strictly, ed25519_signature, sign, verify_strict};
use crate::json::{json_bytes, json_number, push_byte_array, push_number};
use crate::primitives::amounts::SettlementUnit;
use crate::primitives::ids::{BillingAccountId, MemberId};
use vstd::prelude::*;

verus! {

impl FinancialScope {
    /// The scope as a JSON object.
    pub open spec fn json(self) -> Seq<u8> {
        utf8("{\"deployment_domain\":"@) + json_bytes(self.deployment_domain@) + utf8(
            ",\"operator\":"@,
        ) + json_number(self.operator.0 as nat) + utf8(",\"program\":"@) + json_number(
            self.program.0 as nat,
        ) + utf8(",\"payment_account\":"@) + json_bytes(self.payment_account@) + utf8(
            ",\"protocol_version\":"@,
        ) + json_number(self.protocol_version.0 as nat) + utf8("}"@)
    }

    /// Appends the scope as a JSON object.
    pub fn push_json(self, out: &mut Vec<u8>)
        ensures
            final(out)@ == old(out)@ + self.json(),
    {
        let mut text: Vec<u8> = Vec::new();
        push_text(&mut text, "{\"deployment_domain\":");
        assert(text@ =~= utf8("{\"deployment_domain\":"@));
        push_byte_array(&mut text, self.deployment_domain.as_slice());
        push_text(&mut text, ",\"operator\":");
        push_number(&mut text, self.operator.0);
        push_text(&mut text, ",\"program\":");
        push_number(&mut text, self.program.0);
        push_text(&mut text, ",\"payment_account\":");
        push_byte_array(&mut text, self.payment_account.as_slice());
        push_text(&mut text, ",\"protocol_version\":");
        push_number(&mut text, self.protocol_version.0 as u128);
        push_text(&mut text, "}");
        push_all(out, text.as_slice());
    }
}

#[derive(Debug, PartialEq, Eq)]
pub struct BankVerification {
    pub scope: FinancialScope,
    pub account: BillingAccountId,
    pub member: MemberId,
    pub person: [u8; 32],
    pub bank_token: [u8; 32],
    pub unit: SettlementUnit,
    pub version: u64,
    pub signature: Vec<u8>,
}

pub ghost struct BankModel {
    pub scope: FinancialScope,
    pub account: BillingAccountId,
    pub member: MemberId,
    pub person: [u8; 32],
    pub bank_token: [u8; 32],
    pub unit: SettlementUnit,
    pub version: u64,
    pub signature: Seq<u8>,
}

impl View for BankVerification {
    type V = BankModel;

    open spec fn view(&self) -> BankModel {
        BankModel {
            scope: self.scope,
            account: self.account,
            member: self.member,
            person: self.person,
            bank_token: self.bank_token,
            unit: self.unit,
            version: self.version,
            signature: self.signature@,
        }
    }
}

impl BankVerification {
    /// What the verification authority signs: everything but the signature, as a JSON array.
    pub open spec fn statement(&self) -> Seq<u8> {
        utf8("[\"cs-mail/bank-association/v1\","@) + self.scope.json() + utf8(","@) + json_number(
            self.account.0 as nat,
        ) + utf8(","@) + json_number(self.member.0 as nat) + utf8(","@) + json_bytes(self.person@)
            + utf8(","@) + json_bytes(self.bank_token@) + utf8(","@) + json_number(
            self.unit.0 as nat,
        ) + utf8(","@) + json_number(self.version as nat) + utf8("]"@)
    }

    /// Every identifying field is there.
    pub open spec fn complete(&self) -> bool {
        &&& self.account.0 != 0
        &&& self.member.0 != 0
        &&& !zero_32(self.person)
        &&& !zero_32(self.bank_token)
        &&& self.version != 0
    }

    /// The verdict on the association under an authority's key.
    pub open spec fn verdict(&self, authority: [u8; 32]) -> Result<(), PaymentError> {
        if !self.complete() {
            Err(PaymentError::InvalidOperation)
        } else if !ed25519_accepts_strictly(authority@, self.statement(), self.signature@) {
            Err(PaymentError::InvalidSignature)
        } else {
            Ok(())
        }
    }

    /// The same content, and the same signature.
    pub open spec fn alike(&self, other: &Self) -> bool {
        &&& self.same_content(other)
        &&& self.signature@ == other.signature@
    }

    pub open spec fn same_content(&self, other: &Self) -> bool {
        &&& self.scope == other.scope
        &&& self.account == other.account
        &&& self.member == other.member
        &&& self.person == other.person
        &&& self.bank_token == other.bank_token
        &&& self.unit == other.unit
        &&& self.version == other.version
    }

    fn bytes(&self) -> (bytes: Vec<u8>)
        ensures
            bytes@ == self.statement(),
    {
        let mut out: Vec<u8> = Vec::new();
        push_text(&mut out, "[\"cs-mail/bank-association/v1\",");
        self.scope.push_json(&mut out);
        push_text(&mut out, ",");
        push_number(&mut out, self.account.0);
        push_text(&mut out, ",");
        push_number(&mut out, self.member.0);
        push_text(&mut out, ",");
        push_byte_array(&mut out, self.person.as_slice());
        push_text(&mut out, ",");
        push_byte_array(&mut out, self.bank_token.as_slice());
        push_text(&mut out, ",");
        push_number(&mut out, self.unit.0 as u128);
        push_text(&mut out, ",");
        push_number(&mut out, self.version as u128);
        push_text(&mut out, "]");
        assert(out@ =~= self.statement());
        out
    }

    /// Signs the association; signing never fails.
    pub fn sign(self, secret: &[u8; 32]) -> (result: Result<Self, PaymentError>)
        ensures
            result matches Ok(signed) && signed.same_content(&self) && signed.signature@
                == ed25519_signature(secret@, self.statement()),
    {
        let bytes = self.bytes();
        let mut signed = self;
        signed.signature = sign(secret, bytes.as_slice());
        Ok(signed)
    }

    /// Refuses missing identity fields, and signatures that the authority did not make of this
    /// content.
    pub fn verify(&self, authority: &[u8; 32]) -> (result: Result<VerifiedBankAccount, PaymentError>)
        ensures
            !self.complete() ==> result == Err::<VerifiedBankAccount, PaymentError>(
                PaymentError::InvalidOperation,
            ),
            self.complete() && !ed25519_accepts_strictly(
                authority@,
                self.statement(),
                self.signature@,
            ) ==> result == Err::<VerifiedBankAccount, PaymentError>(
                PaymentError::InvalidSignature,
            ),
            self.complete() && ed25519_accepts_strictly(
                authority@,
                self.statement(),
                self.signature@,
            ) ==> (result matches Ok(bank) && bank.proven().alike(self) && bank.vouched_by()
                == *authority && bank.sound()),
    {
        if self.account.0 == 0 || self.member.0 == 0 || is_zero_32(&self.person) || is_zero_32(
            &self.bank_token,
        ) || self.version == 0 {
            return Err(PaymentError::InvalidOperation);
        }
        let bytes = self.bytes();
        if !verify_strict(authority, bytes.as_slice(), self.signature.as_slice()) {
            return Err(PaymentError::InvalidSignature);
        }
        Ok(VerifiedBankAccount { evidence: self.clone(), authority: *authority })
    }


    /// Whether two associations and their signatures are the same.
    pub fn same(&self, other: &Self) -> (same: bool)
        ensures
            same == self.alike(other),
    {
        self.scope.same(&other.scope) && self.account == other.account && self.member
            == other.member && same_32(&self.person, &other.person) && same_32(
            &self.bank_token,
            &other.bank_token,
        ) && self.unit == other.unit && self.version == other.version && same_bytes(
            self.signature.as_slice(),
            other.signature.as_slice(),
        )
    }
}

impl Clone for BankVerification {
    fn clone(&self) -> (copy: Self)
        ensures
            copy.alike(self),
    {
        BankVerification {
            scope: self.scope,
            account: self.account,
            member: self.member,
            person: self.person,
            bank_token: self.bank_token,
            unit: self.unit,
            version: self.version,
            signature: copy_bytes(&self.signature),
        }
    }
}

/// A verifier-produced capability, never read from caller data: the authority signed the evidence,
/// and the evidence is complete.
#[derive(Debug, PartialEq, Eq)]
pub struct VerifiedBankAccount {
    evidence: BankVerification,
    authority: [u8; 32],
}

impl VerifiedBankAccount {
    pub closed spec fn proven(&self) -> BankVerification {
        self.evidence
    }

    pub closed spec fn vouched_by(&self) -> [u8; 32] {
        self.authority
    }

    /// The authority signed the evidence, and the evidence is complete.
    pub open spec fn sound(&self) -> bool {
        &&& self.proven().complete()
        &&& ed25519_accepts_strictly(
            self.vouched_by()@,
            self.proven().statement(),
            self.proven().signature@,
        )
    }

    #[verifier::type_invariant]
    spec fn always_sound(self) -> bool {
        self.sound()
    }

    pub open spec fn alike(&self, other: &Self) -> bool {
        self.proven().alike(&other.proven()) && self.vouched_by() == other.vouched_by()
    }

    pub fn evidence(&self) -> (evidence: &BankVerification)
        ensures
            *evidence == self.proven(),
            self.sound(),
    {
        proof {
            use_type_invariant(self);
        }
        &self.evidence
    }

    pub fn authority(&self) -> (authority: &[u8; 32])
        ensures
            *authority == self.vouched_by(),
    {
        &self.authority
    }
}

impl Clone for VerifiedBankAccount {
    fn clone(&self) -> (copy: Self)
        ensures
            copy.alike(self),
    {
        proof {
            use_type_invariant(self);
        }
        VerifiedBankAccount { evidence: self.evidence.clone(), authority: self.authority }
    }
}

/// Bank evidence counts only if it names its account, member, person, bank and version, and the
/// authority signed it.
pub proof fn evidence_is_complete_and_vouched_for(bank: BankVerification, authority: [u8; 32])
    ensures
        bank.verdict(authority) is Ok <==> {
            &&& bank.account.0 != 0
            &&& bank.member.0 != 0
            &&& bank.version > 0
            &&& exists|i: int| 0 <= i < 32 && bank.person@[i] != 0
            &&& exists|i: int| 0 <= i < 32 && bank.bank_token@[i] != 0
            &&& ed25519_accepts_strictly(authority@, bank.statement(), bank.signature@)
        },
{
    assert(zero_32(bank.person) <==> !exists|i: int| 0 <= i < 32 && bank.person@[i] != 0);
    assert(zero_32(bank.bank_token) <==> !exists|i: int| 0 <= i < 32 && bank.bank_token@[i] != 0);
}

} // verus!
