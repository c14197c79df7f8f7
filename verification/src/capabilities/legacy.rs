//! Admission of legacy mail whose origin a gateway has authenticated.

use super::admission::{AdmissionAuthentication, BondFreeAdmission};
use super::grant::CapabilityError;
use super::lane::LaneEvidence;
use crate::adapters::dmarc::{DmarcError, LegacyDmarcEvidence, VerifiedDomain};
use crate::adapters::domain::{synthetic_bytes, within, DomainIdentity};
use crate::crypto::digest_id;
use crate::primitives::amounts::{CanonicalTime, MessageValidityUntil};
use crate::primitives::declarations::{
    DeclarationAuthority, DeclaredPurpose, MessageDeclarations, OriginDeclaration, OriginMode,
    PayloadSchema,
};
use crate::primitives::ids::{
    ContentRef, DeliveryIntentRef, IdempotencyKey, LaneId, MessageId, ProtocolIdentity, ProviderRef,
};
use crate::primitives::versions::{ProtocolVersion, WireVersion};
use vstd::prelude::*;

verus! {

#[derive(Clone, Debug, PartialEq, Eq)]
pub struct LegacyBondFreeAdmission {
    pub sender: ProtocolIdentity,
    pub recipient: ProtocolIdentity,
    pub message_id: MessageId,
    pub content_ref: ContentRef,
    pub delivery_intent_ref: DeliveryIntentRef,
    pub purpose: DeclaredPurpose,
    pub payload_schema: Option<PayloadSchema>,
    pub message_valid_until: MessageValidityUntil,
    pub capability: Option<LaneId>,
    pub idempotency_key: IdempotencyKey,
    pub protocol_version: ProtocolVersion,
    pub deployment_domain: [u8; 32],
    pub intended_provider: ProviderRef,
    /// Authenticated domain used for the stable legacy sender identity.
    pub sender_domain: DomainIdentity,
}

impl LegacyBondFreeAdmission {
    /// The sender is the identity of its domain in this deployment.
    pub open spec fn sender_fits(&self, mapping_version: u16) -> bool {
        self.sender.0 == digest_id(
            synthetic_bytes(self.deployment_domain@, mapping_version, self.sender_domain.0@),
        )
    }

    /// The admission that verified evidence makes of the request. Its origin is that of legacy
    /// mail, for which the provider answers; it needs no lane.
    pub open spec fn admitted(&self, verification: VerifiedDomain) -> BondFreeAdmission {
        BondFreeAdmission {
            wire_version: WireVersion(1),
            sender: self.sender,
            recipient: self.recipient,
            message_id: self.message_id,
            content_ref: self.content_ref,
            delivery_intent_ref: self.delivery_intent_ref,
            declarations: MessageDeclarations {
                purpose: self.purpose,
                payload_schema: self.payload_schema,
                origin: OriginDeclaration {
                    mode: OriginMode::LegacyOrUnspecified,
                    authority: DeclarationAuthority::LegacyGateway(self.intended_provider),
                },
            },
            message_valid_until: self.message_valid_until,
            capability: self.capability,
            evidence: Some(
                LaneEvidence::Legacy(
                    LegacyDmarcEvidence {
                        format_version: 1,
                        lane_domain: self.sender_domain,
                        verification,
                    },
                ),
            ),
            idempotency_key: self.idempotency_key,
            protocol_version: self.protocol_version,
            deployment_domain: self.deployment_domain,
            intended_provider: self.intended_provider,
            authentication: AdmissionAuthentication::LegacyDmarc,
        }
    }
}

/// Evidence issued only by the gateway verification path, never read from a request.
pub struct VerifiedLegacyAdmission {
    admission: BondFreeAdmission,
}

impl VerifiedLegacyAdmission {
    pub closed spec fn proven(&self) -> BondFreeAdmission {
        self.admission
    }

    pub fn admission(&self) -> (admission: &BondFreeAdmission)
        ensures
            *admission == self.proven(),
    {
        &self.admission
    }
}

/// Authenticates legacy origin and binds its declared sender to the selected domain, given what the
/// DMARC verifier made of the message received at this time. DMARC failure, inconsistent evidence
/// time and mismatched sender identity are refused.
pub fn verify_legacy_admission(
    received_at: CanonicalTime,
    outcome: Result<VerifiedDomain, DmarcError>,
    request: &LegacyBondFreeAdmission,
    mapping_version: u16,
) -> (result: Result<VerifiedLegacyAdmission, CapabilityError>)
    ensures
        match outcome {
            Err(_) => result == Err::<VerifiedLegacyAdmission, CapabilityError>(
                CapabilityError::NotAuthorized,
            ),
            Ok(verification) => if verification.evaluated_at != received_at || !request.sender_fits(
                mapping_version,
            ) {
                result == Err::<VerifiedLegacyAdmission, CapabilityError>(
                    CapabilityError::ScopeMismatch,
                )
            } else if !within(verification.author_domain.0@, request.sender_domain.0@) {
                result == Err::<VerifiedLegacyAdmission, CapabilityError>(
                    CapabilityError::NotAuthorized,
                )
            } else {
                result matches Ok(verified) && verified.proven() == request.admitted(verification)
            },
        },
{
    let verification = match outcome {
        Ok(verification) => verification,
        Err(_) => return Err(CapabilityError::NotAuthorized),
    };
    if verification.evaluated_at != received_at
        || request.sender_domain.synthetic_protocol_identity(
        &request.deployment_domain,
        mapping_version,
    ) != request.sender {
        return Err(CapabilityError::ScopeMismatch);
    }
    let evidence = match LegacyDmarcEvidence::new(request.sender_domain.clone(), verification) {
        Ok(evidence) => evidence,
        Err(_) => return Err(CapabilityError::NotAuthorized),
    };
    Ok(
        VerifiedLegacyAdmission {
            admission: BondFreeAdmission {
                wire_version: WireVersion(1),
                sender: request.sender,
                recipient: request.recipient,
                message_id: request.message_id,
                content_ref: request.content_ref,
                delivery_intent_ref: request.delivery_intent_ref,
                declarations: MessageDeclarations {
                    purpose: request.purpose.clone(),
                    payload_schema: match &request.payload_schema {
                        Some(schema) => Some(schema.clone()),
                        None => None,
                    },
                    origin: OriginDeclaration {
                        mode: OriginMode::LegacyOrUnspecified,
                        authority: DeclarationAuthority::LegacyGateway(request.intended_provider),
                    },
                },
                message_valid_until: request.message_valid_until,
                capability: request.capability,
                evidence: Some(LaneEvidence::Legacy(evidence)),
                idempotency_key: request.idempotency_key,
                protocol_version: request.protocol_version,
                deployment_domain: request.deployment_domain,
                intended_provider: request.intended_provider,
                authentication: AdmissionAuthentication::LegacyDmarc,
            },
        },
    )
}

/// A legacy admission makes no claim of how a message came about, and its provider answers for it.
pub proof fn legacy_origin_is_honest(
    request: LegacyBondFreeAdmission,
    verification: VerifiedDomain,
)
    ensures
        request.admitted(verification).declarations.origin_supported(),
        request.admitted(verification).authority_agrees(),
        request.admitted(verification).declarations.origin.mode == OriginMode::LegacyOrUnspecified,
        request.admitted(verification).capability == request.capability,
{
}

/// What verified evidence makes of a legacy request: an admission of the same message between the
/// same two, within the same scope, authenticated by its domain, with the domain and the evidence
/// stated as they were found.
pub proof fn legacy_admissions_are_what_was_requested(
    request: LegacyBondFreeAdmission,
    verification: VerifiedDomain,
)
    ensures
        ({
            let admission = request.admitted(verification);
            &&& admission.wire_version.0 == 1
            &&& admission.sender == request.sender
            &&& admission.recipient == request.recipient
            &&& admission.message_id == request.message_id
            &&& admission.content_ref == request.content_ref
            &&& admission.delivery_intent_ref == request.delivery_intent_ref
            &&& admission.declarations.purpose == request.purpose
            &&& admission.declarations.payload_schema == request.payload_schema
            &&& admission.declarations.origin.mode == OriginMode::LegacyOrUnspecified
            &&& admission.declarations.origin.authority == DeclarationAuthority::LegacyGateway(
                request.intended_provider,
            )
            &&& admission.message_valid_until == request.message_valid_until
            &&& admission.capability == request.capability
            &&& admission.idempotency_key == request.idempotency_key
            &&& admission.protocol_version == request.protocol_version
            &&& admission.deployment_domain == request.deployment_domain
            &&& admission.intended_provider == request.intended_provider
            &&& admission.authentication is LegacyDmarc
            &&& admission.evidence is Some
            &&& admission.evidence->Some_0 is Legacy
            &&& admission.evidence->Some_0->Legacy_0.lane_domain == request.sender_domain
            &&& admission.evidence->Some_0->Legacy_0.verification == verification
        }),
{
}

} // verus!
