//! A recipient's control over a lane that was granted.

use super::grant::CapabilityError;
use crate::bytes::{
    be_bytes, lemma_spans, lemma_tail_32, lemma_tail_be, lemma_tail_byte, push_32, push_be,
    text_bytes, utf8,
};
use crate::crypto::{ed25519_accepts, ed25519_key_valid, is_public_key, verify};
use crate::primitives::ids::{
    IdempotencyKey, LaneId, OperationalKeyRef, ProtocolIdentity, ProviderRef,
};
use crate::primitives::versions::{ProtocolVersion, Version};
use vstd::prelude::*;

verus! {

#[derive(Clone, Copy, Debug, PartialEq, Eq, Structural)]
pub enum LaneControlAction {
    Reconfirm,
    Revoke,
}

#[derive(Clone, Copy, Debug, PartialEq, Eq)]
pub struct LaneControl {
    pub lane_id: LaneId,
    pub recipient: ProtocolIdentity,
    pub action: LaneControlAction,
    pub expected_version: Version,
    pub idempotency_key: IdempotencyKey,
    pub protocol_version: ProtocolVersion,
    pub deployment_domain: [u8; 32],
    pub intended_provider: ProviderRef,
    pub recipient_operational_key: OperationalKeyRef,
}

impl LaneControl {
    pub open spec fn action_byte(&self) -> u8 {
        match self.action {
            LaneControlAction::Reconfirm => 0,
            LaneControlAction::Revoke => 1,
        }
    }

    /// The canonical representation that a recipient signs.
    pub open spec fn canonical(&self) -> Seq<u8> {
        utf8("cs-mail/lane-control/v1"@) + be_bytes(self.lane_id.0 as nat, 16) + be_bytes(
            self.recipient.0 as nat,
            16,
        ) + seq![self.action_byte()] + be_bytes(self.expected_version.0 as nat, 8) + be_bytes(
            self.idempotency_key.0 as nat,
            16,
        ) + be_bytes(self.protocol_version.0 as nat, 2) + self.deployment_domain@ + be_bytes(
            self.intended_provider.0 as nat,
            16,
        ) + be_bytes(self.recipient_operational_key.0 as nat, 16)
    }

    pub fn signing_bytes(&self) -> (bytes: Vec<u8>)
        ensures
            bytes@ == self.canonical(),
    {
        let mut bytes = text_bytes("cs-mail/lane-control/v1");
        push_be(&mut bytes, self.lane_id.0, 16);
        push_be(&mut bytes, self.recipient.0, 16);
        let ghost addressed = bytes@;
        bytes.push(
            match self.action {
                LaneControlAction::Reconfirm => 0,
                LaneControlAction::Revoke => 1,
            },
        );
        assert(bytes@ =~= addressed + seq![self.action_byte()]);
        push_be(&mut bytes, self.expected_version.0 as u128, 8);
        push_be(&mut bytes, self.idempotency_key.0, 16);
        push_be(&mut bytes, self.protocol_version.0 as u128, 2);
        push_32(&mut bytes, &self.deployment_domain);
        push_be(&mut bytes, self.intended_provider.0, 16);
        push_be(&mut bytes, self.recipient_operational_key.0, 16);
        bytes
    }
}

/// What a recipient signs determines the control in every part, action and version among them.
pub proof fn controls_are_bound(a: LaneControl, b: LaneControl)
    requires
        a.canonical() == b.canonical(),
    ensures
        a == b,
{
    lemma_spans();
    let tag = utf8("cs-mail/lane-control/v1"@);
    let (a1, b1) = (
        tag + be_bytes(a.lane_id.0 as nat, 16),
        tag + be_bytes(b.lane_id.0 as nat, 16),
    );
    let (a2, b2) = (
        a1 + be_bytes(a.recipient.0 as nat, 16),
        b1 + be_bytes(b.recipient.0 as nat, 16),
    );
    let (a3, b3) = (a2 + seq![a.action_byte()], b2 + seq![b.action_byte()]);
    let (a4, b4) = (
        a3 + be_bytes(a.expected_version.0 as nat, 8),
        b3 + be_bytes(b.expected_version.0 as nat, 8),
    );
    let (a5, b5) = (
        a4 + be_bytes(a.idempotency_key.0 as nat, 16),
        b4 + be_bytes(b.idempotency_key.0 as nat, 16),
    );
    let (a6, b6) = (
        a5 + be_bytes(a.protocol_version.0 as nat, 2),
        b5 + be_bytes(b.protocol_version.0 as nat, 2),
    );
    let (a7, b7) = (a6 + a.deployment_domain@, b6 + b.deployment_domain@);
    let (a8, b8) = (
        a7 + be_bytes(a.intended_provider.0 as nat, 16),
        b7 + be_bytes(b.intended_provider.0 as nat, 16),
    );
    lemma_tail_be(
        a8,
        a.recipient_operational_key.0 as nat,
        b8,
        b.recipient_operational_key.0 as nat,
        16,
    );
    lemma_tail_be(a7, a.intended_provider.0 as nat, b7, b.intended_provider.0 as nat, 16);
    lemma_tail_32(a6, a.deployment_domain, b6, b.deployment_domain);
    lemma_tail_be(a5, a.protocol_version.0 as nat, b5, b.protocol_version.0 as nat, 2);
    lemma_tail_be(a4, a.idempotency_key.0 as nat, b4, b.idempotency_key.0 as nat, 16);
    lemma_tail_be(a3, a.expected_version.0 as nat, b3, b.expected_version.0 as nat, 8);
    lemma_tail_byte(a2, a.action_byte(), b2, b.action_byte());
    lemma_tail_be(a1, a.recipient.0 as nat, b1, b.recipient.0 as nat, 16);
    lemma_tail_be(tag, a.lane_id.0 as nat, tag, b.lane_id.0 as nat, 16);
}

#[derive(Clone, Copy, Debug, PartialEq, Eq)]
pub struct SignedLaneControl {
    pub control: LaneControl,
    pub signature: [u8; 64],
}

impl SignedLaneControl {
    /// Verifies a recipient lane-control signature. Malformed keys and invalid signatures are
    /// refused.
    pub fn verify(&self, recipient_key: &[u8; 32]) -> (result: Result<(), CapabilityError>)
        ensures
            result == (if !ed25519_key_valid(recipient_key@) {
                Err(CapabilityError::InvalidPublicKey)
            } else if !ed25519_accepts(recipient_key@, self.control.canonical(), self.signature@) {
                Err(CapabilityError::InvalidSignature)
            } else {
                Ok(())
            }),
    {
        if !is_public_key(recipient_key) {
            return Err(CapabilityError::InvalidPublicKey);
        }
        let bytes = self.control.signing_bytes();
        if verify(recipient_key, bytes.as_slice(), self.signature.as_slice()) {
            Ok(())
        } else {
            Err(CapabilityError::InvalidSignature)
        }
    }
}

/// The numbers under which actions on a lane are written.
pub proof fn actions_are_numbered(control: LaneControl)
    ensures
        control.action_byte() == 0 <==> control.action == LaneControlAction::Reconfirm,
        control.action_byte() == 1 <==> control.action == LaneControlAction::Revoke,
{
}

} // verus!
