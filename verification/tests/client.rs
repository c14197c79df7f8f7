use cs_mail::client::{
    DefaultPresentationPolicy, NativeClient, PresentationDisposition, PresentationPolicy,
    PresentationPolicyInput, SigningScope,
};
use cs_mail::content::binding::ContentBinding;
use cs_mail::content::certificate::ContentCertificateDigest;
use cs_mail::primitives::amounts::{CanonicalTime, MessageValidityUntil};
use cs_mail::primitives::declarations::{
    DeclarationAuthority, DeclaredPurpose, KnownPurpose, MessageDeclarations, OriginDeclaration,
    OriginMode,
};
use cs_mail::primitives::ids::{
    ContentKeyRef, ContentRef, MessageId, OperationalKeyRef, ProtocolIdentity, ProviderRef,
};
use cs_mail::primitives::references::{ContentScopeRef, RelationshipRef};
use cs_mail::primitives::versions::{ContentKeyVersion, ProtocolVersion, WireVersion};
use cs_mail::protocol::{ActorRef, SecurityError};
use ed25519_dalek::SigningKey;

struct DigestPersonal;

impl PresentationPolicy for DigestPersonal {
    fn decide(&self, input: &PresentationPolicyInput<'_>) -> PresentationDisposition {
        if input.declarations.purpose == DeclaredPurpose::Known(KnownPurpose::Personal) {
            PresentationDisposition::Digest
        } else {
            PresentationDisposition::Inbox
        }
    }
}

#[test]
fn clients_exchange_only_ciphertext_through_provider_records() {
    let alice = NativeClient::new(
        ActorRef::Sender(ProtocolIdentity(1)),
        OperationalKeyRef(1),
        &[1; 32],
        ContentKeyRef(1),
    );
    let bob = NativeClient::new(
        ActorRef::Recipient(ProtocolIdentity(2)),
        OperationalKeyRef(2),
        &[2; 32],
        ContentKeyRef(2),
    );
    let record = alice
        .encrypt_for(
            bob.content_public_key(),
            ContentBinding {
                wire_version: WireVersion(1),
                content_ref: ContentRef(3),
                message_id: MessageId(4),
                sender: ProtocolIdentity(1),
                recipient: ProtocolIdentity(2),
                protocol_version: ProtocolVersion(1),
                relationship: RelationshipRef::from_u128_for_test(5),
                content_scope: ContentScopeRef::from_u128_for_test(6),
                sender_certificate: ContentCertificateDigest([7; 32]),
                declarations: MessageDeclarations {
                    purpose: DeclaredPurpose::Known(KnownPurpose::Personal),
                    origin: OriginDeclaration {
                        mode: OriginMode::HumanInitiated,
                        authority: DeclarationAuthority::NativeSender(OperationalKeyRef(1)),
                    },
                    payload_schema: None,
                },
                message_valid_until: MessageValidityUntil(CanonicalTime(8)),
                capability: None,
            },
            b"private message",
            CanonicalTime(1),
            CanonicalTime(10),
        )
        .unwrap();
    assert!(
        !record
            .envelope
            .ciphertext
            .windows(7)
            .any(|part| part == b"private")
    );
    assert_eq!(
        bob.decrypt(alice.content_public_key(), &record).unwrap(),
        b"private message"
    );

    assert_eq!(
        NativeClient::presentation_disposition(&DigestPersonal, &record),
        PresentationDisposition::Digest
    );
    assert_eq!(
        NativeClient::presentation_disposition(&DefaultPresentationPolicy, &record),
        PresentationDisposition::Inbox
    );
}

#[test]
fn only_senders_certify_their_content_keys() {
    let scope = || SigningScope {
        deployment_domain: [3; 32],
        intended_provider: ProviderRef(4),
        relationship: RelationshipRef::from_u128_for_test(5),
    };
    let alice = NativeClient::new(
        ActorRef::Sender(ProtocolIdentity(1)),
        OperationalKeyRef(7),
        &[1; 32],
        ContentKeyRef(9),
    );
    let certificate = alice
        .certify_content_key(
            scope(),
            ProtocolVersion(2),
            ContentKeyVersion(6),
            CanonicalTime(10),
            CanonicalTime(20),
        )
        .unwrap();
    assert_eq!(certificate.wire_version, WireVersion(1));
    assert_eq!(certificate.owner, ProtocolIdentity(1));
    assert_eq!(certificate.operational_key, OperationalKeyRef(7));
    assert_eq!(certificate.intended_provider, ProviderRef(4));
    assert_eq!(certificate.content_key_version, ContentKeyVersion(6));
    assert_eq!(certificate.key, alice.content_public_key());
    assert_eq!(certificate.valid_until, CanonicalTime(20));
    assert_eq!(
        alice.operational_verifying_key(),
        SigningKey::from_bytes(&[1; 32]).verifying_key().to_bytes()
    );
    let bob = NativeClient::new(
        ActorRef::Recipient(ProtocolIdentity(2)),
        OperationalKeyRef(8),
        &[2; 32],
        ContentKeyRef(10),
    );
    assert!(matches!(
        bob.certify_content_key(
            scope(),
            ProtocolVersion(2),
            ContentKeyVersion(6),
            CanonicalTime(10),
            CanonicalTime(20),
        ),
        Err(SecurityError::SigningScopeMismatch)
    ));
}
