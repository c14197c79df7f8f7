use cs_mail::adapters::dmarc::{
    DmarcAlignment, DmarcError, DmarcErrorKind, DmarcPass, LegacyDmarcEvidence, VerifiedDomain,
};
use cs_mail::adapters::domain::DomainIdentity;
use cs_mail::capabilities::admission::{
    AdmissionAuthentication, BondFreeAdmission, SignedBondFreeAdmission,
};
use cs_mail::capabilities::book::LaneBook;
use cs_mail::capabilities::control::{LaneControl, LaneControlAction, SignedLaneControl};
use cs_mail::capabilities::grant::{
    CapabilityError, DeclarationAuthorityConstraint, LaneGrant, LaneMode, LaneSubject, RateLimit,
    SignedLaneGrant,
};
use cs_mail::capabilities::lane::{Lane, LaneEvidence, LaneHorizonEffect, LaneState};
use cs_mail::capabilities::legacy::{verify_legacy_admission, LegacyBondFreeAdmission};
use cs_mail::primitives::amounts::{CanonicalTime, Duration, MessageValidityUntil};
use cs_mail::primitives::declarations::{
    DeclarationAuthority, DeclaredPurpose, KnownPurpose, MessageDeclarations, OriginDeclaration,
    OriginMode,
};
use cs_mail::primitives::ids::{
    ContentRef, DeliveryIntentRef, IdempotencyKey, LaneId, MessageId, OperationalKeyRef,
    ProtocolIdentity, ProviderRef,
};
use cs_mail::primitives::schedule::{ScheduleChange, ScheduleTask};
use cs_mail::primitives::versions::{ProtocolVersion, Version, WireVersion};
use ed25519_dalek::{Signer, SigningKey};

fn signed_grant() -> (SignedLaneGrant, [u8; 32]) {
    let signing = SigningKey::from_bytes(&[7; 32]);
    let grant = LaneGrant {
        id: LaneId(1),
        subject: LaneSubject::LegacyDomain(DomainIdentity::parse_ascii("bank.com").unwrap()),
        sender: ProtocolIdentity(2),
        recipient: ProtocolIdentity(3),
        protocol_version: ProtocolVersion(2),
        deployment_domain: [3; 32],
        intended_provider: ProviderRef(4),
        recipient_operational_key: OperationalKeyRef(5),
        purpose: DeclaredPurpose::Known(KnownPurpose::Transactional),
        origin: Some(OriginMode::LegacyOrUnspecified),
        declaration_authority: DeclarationAuthorityConstraint::LegacyGateway,
        lifetime: Duration(1_000),
        rate_limit: RateLimit {
            max_messages: 1,
            interval: Duration(100),
        },
        mode: LaneMode::Expiring,
        issued_at: CanonicalTime(10),
        not_before: CanonicalTime(10),
        not_after: CanonicalTime(10_000),
        version: Version(1),
    };
    let signature = signing.sign(&grant.signing_bytes().unwrap()).to_bytes();
    (
        SignedLaneGrant { grant, signature },
        signing.verifying_key().to_bytes(),
    )
}

fn evidence() -> LaneEvidence {
    LaneEvidence::Legacy(
        LegacyDmarcEvidence::new(
            DomainIdentity::parse_ascii("bank.com").unwrap(),
            VerifiedDomain::passed(
                DomainIdentity::parse_ascii("alerts.e.bank.com").unwrap(),
                Some(DmarcPass {
                    alignment: DmarcAlignment::Relaxed,
                }),
                None,
                CanonicalTime(20),
            )
            .unwrap(),
        )
        .unwrap(),
    )
}

fn legacy_declarations() -> MessageDeclarations {
    MessageDeclarations {
        purpose: DeclaredPurpose::Known(KnownPurpose::Transactional),
        origin: OriginDeclaration {
            mode: OriginMode::LegacyOrUnspecified,
            authority: DeclarationAuthority::LegacyGateway(ProviderRef(4)),
        },
        payload_schema: None,
    }
}

#[test]
fn recipient_signature_domain_evidence_and_rate_are_enforced() {
    let (signed, key) = signed_grant();
    let mut lane = Lane::from_grant(signed.grant.clone()).unwrap();
    signed.verify(&key).unwrap();
    assert!(
        !lane
            .consume(
                MessageId(1),
                Some(LaneId(1)),
                &legacy_declarations(),
                &evidence(),
                CanonicalTime(20),
            )
            .unwrap()
    );
    assert!(
        lane.consume(
            MessageId(1),
            Some(LaneId(1)),
            &legacy_declarations(),
            &evidence(),
            CanonicalTime(21),
        )
        .unwrap()
    );
    assert_eq!(
        lane.consume(
            MessageId(2),
            Some(LaneId(1)),
            &legacy_declarations(),
            &evidence(),
            CanonicalTime(22),
        ),
        Err(CapabilityError::RateLimitExceeded)
    );
}

#[test]
fn expiring_lane_requires_reconfirmation_at_horizon() {
    let (signed, _) = signed_grant();
    let mut lane = Lane::from_grant(signed.grant).unwrap();
    assert_eq!(
        lane.reach_horizon(CanonicalTime(1_010)).unwrap(),
        LaneHorizonEffect::ReconfirmationRequired
    );
    assert_eq!(
        lane.authorizes(
            ProtocolIdentity(2),
            ProtocolIdentity(3),
            Some(LaneId(1)),
            &legacy_declarations(),
            &evidence(),
            CanonicalTime(1_010)
        ),
        Err(CapabilityError::NotAuthorized)
    );
    lane.reconfirm(CanonicalTime(1_011)).unwrap();
    lane.authorizes(
        ProtocolIdentity(2),
        ProtocolIdentity(3),
        Some(LaneId(1)),
        &legacy_declarations(),
        &evidence(),
        CanonicalTime(1_011),
    )
    .unwrap();
}

#[test]
fn declaration_scope_mismatch_does_not_consume_lane_allowance() {
    let (signed, _) = signed_grant();
    let mut lane = Lane::from_grant(signed.grant).unwrap();
    let mut wrong_purpose = legacy_declarations();
    wrong_purpose.purpose = DeclaredPurpose::Known(KnownPurpose::Personal);

    assert_eq!(
        lane.consume(
            MessageId(1),
            Some(LaneId(1)),
            &wrong_purpose,
            &evidence(),
            CanonicalTime(20),
        ),
        Err(CapabilityError::ScopeMismatch)
    );
    assert_eq!(lane.messages_in_rate_window, 0);
    assert!(
        !lane
            .consume(
                MessageId(1),
                Some(LaneId(1)),
                &legacy_declarations(),
                &evidence(),
                CanonicalTime(20),
            )
            .unwrap()
    );
    assert_eq!(lane.messages_in_rate_window, 1);
}

#[test]
fn bond_free_admission_signature_covers_scope_and_evidence() {
    let signing = SigningKey::from_bytes(&[8; 32]);
    let admission = BondFreeAdmission {
        wire_version: WireVersion(1),
        sender: ProtocolIdentity(2),
        recipient: ProtocolIdentity(3),
        message_id: MessageId(4),
        content_ref: ContentRef(5),
        delivery_intent_ref: DeliveryIntentRef(6),
        declarations: MessageDeclarations {
            purpose: DeclaredPurpose::Known(KnownPurpose::Transactional),
            origin: OriginDeclaration {
                mode: OriginMode::AutomatedSystem,
                authority: DeclarationAuthority::NativeSender(OperationalKeyRef(11)),
            },
            payload_schema: None,
        },
        message_valid_until: MessageValidityUntil(CanonicalTime(100)),
        capability: Some(LaneId(1)),
        evidence: Some(evidence()),
        idempotency_key: IdempotencyKey(7),
        protocol_version: ProtocolVersion(2),
        deployment_domain: [9; 32],
        intended_provider: ProviderRef(10),
        authentication: AdmissionAuthentication::NativeKey(OperationalKeyRef(11)),
    };
    let signed = SignedBondFreeAdmission {
        signature: signing.sign(&admission.signing_bytes().unwrap()).to_bytes(),
        admission: admission.clone(),
    };
    signed.verify(&signing.verifying_key().to_bytes()).unwrap();
    let mut altered = signed;
    altered.admission.intended_provider = ProviderRef(12);
    assert_eq!(
        altered.verify(&signing.verifying_key().to_bytes()),
        Err(CapabilityError::InvalidSignature)
    );

    let mut altered_origin = BondFreeAdmission {
        intended_provider: ProviderRef(10),
        ..admission.clone()
    };
    altered_origin.declarations.origin.mode = OriginMode::AutonomousAgent;
    let altered_origin = SignedBondFreeAdmission {
        admission: altered_origin,
        signature: signing.sign(&admission.signing_bytes().unwrap()).to_bytes(),
    };
    assert_eq!(
        altered_origin.verify(&signing.verifying_key().to_bytes()),
        Err(CapabilityError::InvalidSignature)
    );
}

#[test]
fn lane_control_signature_covers_action_and_version() {
    let signing = SigningKey::from_bytes(&[6; 32]);
    let control = LaneControl {
        lane_id: LaneId(1),
        recipient: ProtocolIdentity(3),
        action: LaneControlAction::Revoke,
        expected_version: Version(2),
        idempotency_key: IdempotencyKey(13),
        protocol_version: ProtocolVersion(2),
        deployment_domain: [3; 32],
        intended_provider: ProviderRef(4),
        recipient_operational_key: OperationalKeyRef(5),
    };
    let mut signed = SignedLaneControl {
        signature: signing.sign(&control.signing_bytes()).to_bytes(),
        control,
    };
    signed.verify(&signing.verifying_key().to_bytes()).unwrap();
    signed.control.action = LaneControlAction::Reconfirm;
    assert_eq!(
        signed.verify(&signing.verifying_key().to_bytes()),
        Err(CapabilityError::InvalidSignature)
    );
}
fn passed() -> Result<VerifiedDomain, DmarcError> {
    Ok(VerifiedDomain::passed(
        DomainIdentity::parse_ascii("alerts.example.com").unwrap(),
        Some(DmarcPass {
            alignment: DmarcAlignment::Relaxed,
        }),
        None,
        CanonicalTime(1),
    )
    .unwrap())
}

#[test]
fn verified_legacy_identity_and_origin_do_not_require_a_lane() {
    let domain = DomainIdentity::parse_ascii("example.com").unwrap();
    let mut request = LegacyBondFreeAdmission {
        sender: domain.synthetic_protocol_identity(&[7; 32], 1),
        recipient: ProtocolIdentity(2),
        message_id: MessageId(1),
        content_ref: ContentRef(1),
        delivery_intent_ref: DeliveryIntentRef(1),
        purpose: DeclaredPurpose::Known(KnownPurpose::Transactional),
        payload_schema: None,
        message_valid_until: MessageValidityUntil(CanonicalTime(100)),
        capability: None,
        idempotency_key: IdempotencyKey(1),
        protocol_version: ProtocolVersion(2),
        deployment_domain: [7; 32],
        intended_provider: ProviderRef(30),
        sender_domain: domain,
    };
    let proof = verify_legacy_admission(CanonicalTime(1), passed(), &request, 1)
    .unwrap();
    assert_eq!(proof.admission().capability, None);
    assert_eq!(
        proof.admission().declarations.origin,
        OriginDeclaration {
            mode: OriginMode::LegacyOrUnspecified,
            authority: DeclarationAuthority::LegacyGateway(ProviderRef(30))
        }
    );
    request.sender = ProtocolIdentity(999);
    assert!(
        verify_legacy_admission(CanonicalTime(1), passed(), &request, 1).is_err()
    );
    request.sender_domain = DomainIdentity::parse_ascii("another.example").unwrap();
    request.sender = request
        .sender_domain
        .synthetic_protocol_identity(&[7; 32], 1);
    assert!(
        verify_legacy_admission(CanonicalTime(1), passed(), &request, 1).is_err()
    );
}

#[test]
fn a_failed_dmarc_verdict_admits_nothing() {
    let domain = DomainIdentity::parse_ascii("example.com").unwrap();
    let request = LegacyBondFreeAdmission {
        sender: domain.synthetic_protocol_identity(&[7; 32], 1),
        recipient: ProtocolIdentity(2),
        message_id: MessageId(1),
        content_ref: ContentRef(1),
        delivery_intent_ref: DeliveryIntentRef(1),
        purpose: DeclaredPurpose::Known(KnownPurpose::Transactional),
        payload_schema: None,
        message_valid_until: MessageValidityUntil(CanonicalTime(100)),
        capability: None,
        idempotency_key: IdempotencyKey(1),
        protocol_version: ProtocolVersion(2),
        deployment_domain: [7; 32],
        intended_provider: ProviderRef(30),
        sender_domain: domain,
    };
    for kind in [
        DmarcErrorKind::Temporary,
        DmarcErrorKind::Failed,
        DmarcErrorKind::Malformed,
    ] {
        assert!(
            verify_legacy_admission(
                CanonicalTime(1),
                Err(DmarcError::new(kind, "no")),
                &request,
                1
            )
            .is_err()
        );
    }
    assert!(verify_legacy_admission(CanonicalTime(2), passed(), &request, 1).is_err());
}

#[test]
fn revoked_lanes_stay_revoked() {
    let (signed, _) = signed_grant();
    let mut lane = Lane::from_grant(signed.grant).unwrap();
    lane.revoke().unwrap();
    assert_eq!(lane.state, LaneState::Revoked);
    let _ = lane.reconfirm(CanonicalTime(20));
    let _ = lane.reach_horizon(CanonicalTime(1_010));
    assert_eq!(lane.state, LaneState::Revoked);
    assert!(!lane.provides_relationship_access(CanonicalTime(20)));
}

#[test]
fn lane_books_are_bounded_and_grants_replay() {
    let (signed, key) = signed_grant();
    let mut book = LaneBook::new(1);
    let first = book.grant(signed.clone(), &key, IdempotencyKey(1)).unwrap();
    assert_eq!(
        first,
        ScheduleChange::Schedule {
            task: ScheduleTask::LaneHorizon(LaneId(1)),
            at: CanonicalTime(1_010),
        }
    );
    assert_eq!(
        book.grant(signed.clone(), &key, IdempotencyKey(1)),
        Ok(first)
    );
    let mut other = signed.clone();
    other.grant.id = LaneId(2);
    let signing = SigningKey::from_bytes(&[7; 32]);
    other.signature = signing
        .sign(&other.grant.signing_bytes().unwrap())
        .to_bytes();
    assert!(book.grant(other, &key, IdempotencyKey(2)).is_err());
    assert!(book.lane(LaneId(1)).is_some() && book.lane(LaneId(2)).is_none());
}

fn signed_again(grant: LaneGrant) -> SignedLaneGrant {
    let signing = SigningKey::from_bytes(&[7; 32]);
    let signature = signing.sign(&grant.signing_bytes().unwrap()).to_bytes();
    SignedLaneGrant { grant, signature }
}

#[test]
fn lane_books_name_why_a_grant_is_refused() {
    let (signed, key) = signed_grant();
    let mut book = LaneBook::new(1);
    book.grant(signed.clone(), &key, IdempotencyKey(1)).unwrap();
    let mut other = signed.grant.clone();
    other.id = LaneId(2);
    assert_eq!(
        book.grant(signed_again(other.clone()), &key, IdempotencyKey(1)),
        Err(CapabilityError::DuplicateConflict)
    );
    assert_eq!(
        book.grant(signed_again(other), &key, IdempotencyKey(2)),
        Err(CapabilityError::CapacityExceeded)
    );
    let mut changed = signed.grant.clone();
    changed.lifetime = Duration(2_000);
    assert_eq!(
        book.grant(signed_again(changed), &key, IdempotencyKey(3)),
        Err(CapabilityError::DuplicateConflict)
    );
    assert!(book.grant(signed, &key, IdempotencyKey(4)).is_ok());
}

#[test]
fn a_lane_starts_only_from_a_verified_grant() {
    let (signed, key) = signed_grant();
    let lane = Lane::from_verified_grant(&signed, &key).unwrap();
    assert_eq!(lane.horizon_at, CanonicalTime(1_010));
    assert!(lane.is_current(CanonicalTime(1_009)));
    assert!(!lane.is_current(CanonicalTime(1_010)));
    assert_eq!(
        lane.schedule_change(),
        ScheduleChange::Schedule {
            task: ScheduleTask::LaneHorizon(LaneId(1)),
            at: CanonicalTime(1_010),
        }
    );
    let mut altered = signed.clone();
    altered.grant.recipient = ProtocolIdentity(9);
    assert!(matches!(
        Lane::from_verified_grant(&altered, &key),
        Err(CapabilityError::InvalidSignature)
    ));
    let mut invalid = [0; 32];
    invalid[0] = 2;
    assert!(matches!(
        Lane::from_verified_grant(&signed, &invalid),
        Err(CapabilityError::InvalidPublicKey)
    ));
    let mut empty = signed.grant.clone();
    empty.lifetime = Duration(0);
    assert!(matches!(
        Lane::from_grant(empty),
        Err(CapabilityError::InvalidGrant)
    ));
    let mut endless = signed.grant.clone();
    endless.lifetime = Duration(u64::MAX);
    endless.not_after = CanonicalTime(u64::MAX);
    assert!(matches!(
        Lane::from_grant(endless),
        Err(CapabilityError::ArithmeticOverflow)
    ));
}

#[test]
fn admissions_keep_to_their_wire_version_and_authority() {
    let mut admission = BondFreeAdmission {
        wire_version: WireVersion(2),
        sender: ProtocolIdentity(2),
        recipient: ProtocolIdentity(3),
        message_id: MessageId(4),
        content_ref: ContentRef(5),
        delivery_intent_ref: DeliveryIntentRef(6),
        declarations: MessageDeclarations {
            purpose: DeclaredPurpose::Unspecified,
            origin: OriginDeclaration {
                mode: OriginMode::HumanInitiated,
                authority: DeclarationAuthority::NativeSender(OperationalKeyRef(11)),
            },
            payload_schema: None,
        },
        message_valid_until: MessageValidityUntil(CanonicalTime(100)),
        capability: None,
        evidence: None,
        idempotency_key: IdempotencyKey(7),
        protocol_version: ProtocolVersion(2),
        deployment_domain: [9; 32],
        intended_provider: ProviderRef(10),
        authentication: AdmissionAuthentication::NativeKey(OperationalKeyRef(11)),
    };
    assert_eq!(
        admission.validate(),
        Err(CapabilityError::UnsupportedWireVersion)
    );
    admission.wire_version = WireVersion(1);
    assert_eq!(admission.validate(), Ok(()));
    admission.authentication = AdmissionAuthentication::NativeKey(OperationalKeyRef(12));
    assert_eq!(
        admission.validate(),
        Err(CapabilityError::InvalidDeclaration)
    );
}
