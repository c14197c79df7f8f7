use cs_mail::content::binding::{
    binding_bytes, message_declaration_digest, ContentBinding, ContentError,
};
use cs_mail::content::certificate::{
    content_key_certificate_bytes, content_key_certificate_digest, ContentCertificateDigest,
    ContentKeyCertificate, EndpointPublicKey,
};
use cs_mail::content::cipher::{decrypt, encrypt, EndpointSecretKey};
use cs_mail::content::encoding::{public_key_json, record_json};
use cs_mail::primitives::amounts::{CanonicalTime, MessageValidityUntil};
use cs_mail::primitives::declarations::{
    DeclarationAuthority, DeclaredPurpose, KnownPurpose, MessageDeclarations, OriginDeclaration,
    OriginMode,
};
use cs_mail::primitives::ids::{
    ContentKeyRef, ContentRef, LaneId, MessageId, OperationalKeyRef, ProtocolIdentity, ProviderRef,
};
use cs_mail::primitives::references::{ContentScopeRef, RelationshipRef};
use cs_mail::primitives::versions::{ContentKeyVersion, ProtocolVersion, WireVersion};
use sha2::{Digest, Sha256};

fn binding() -> ContentBinding {
    ContentBinding {
        wire_version: WireVersion(1),
        content_ref: ContentRef(1),
        message_id: MessageId(2),
        sender: ProtocolIdentity(3),
        recipient: ProtocolIdentity(4),
        protocol_version: ProtocolVersion(1),
        relationship: RelationshipRef::from_u128_for_test(5),
        content_scope: ContentScopeRef::from_u128_for_test(6),
        sender_certificate: ContentCertificateDigest([7; 32]),
        declarations: MessageDeclarations {
            purpose: DeclaredPurpose::Known(
                KnownPurpose::Personal,
            ),
            origin: OriginDeclaration {
                mode: OriginMode::HumanInitiated,
                authority: DeclarationAuthority::NativeSender(
                    OperationalKeyRef(7),
                ),
            },
            payload_schema: None,
        },
        message_valid_until: MessageValidityUntil(CanonicalTime(50)),
        capability: None,
    }
}

#[test]
fn only_target_endpoint_can_decrypt() {
    let (sender_secret, sender_public) = EndpointSecretKey::generate(ContentKeyRef(8));
    let (recipient_secret, recipient_public) = EndpointSecretKey::generate(ContentKeyRef(9));
    let (other_secret, _) = EndpointSecretKey::generate(ContentKeyRef(10));
    let record = encrypt(
        &sender_secret,
        recipient_public,
        binding(),
        b"subject and body",
        CanonicalTime(1),
        CanonicalTime(100),
    )
    .unwrap();
    assert_eq!(
        decrypt(&recipient_secret, sender_public, &record).unwrap(),
        b"subject and body"
    );
    assert_eq!(
        decrypt(&other_secret, sender_public, &record),
        Err(ContentError::WrongRecipientKey)
    );
}

#[test]
fn content_and_binding_tampering_fail_authentication() {
    let (sender_secret, sender_public) = EndpointSecretKey::generate(ContentKeyRef(8));
    let (secret, public) = EndpointSecretKey::generate(ContentKeyRef(9));
    let record = encrypt(
        &sender_secret,
        public,
        binding(),
        b"message",
        CanonicalTime(1),
        CanonicalTime(100),
    )
    .unwrap();

    let mut changed_content = record.clone();
    changed_content.envelope.ciphertext[0] ^= 1;
    assert_eq!(
        decrypt(&secret, sender_public, &changed_content),
        Err(ContentError::InvalidCiphertext)
    );

    let mut changed_binding = record.clone();
    changed_binding.binding.recipient = ProtocolIdentity(99);
    assert_eq!(
        decrypt(&secret, sender_public, &changed_binding),
        Err(ContentError::InvalidCiphertext)
    );

    let mut changed_declaration = record.clone();
    changed_declaration.binding.declarations.purpose =
        DeclaredPurpose::Known(
            KnownPurpose::Transactional,
        );
    assert_eq!(
        decrypt(&secret, sender_public, &changed_declaration),
        Err(ContentError::InvalidCiphertext)
    );

    let mut changed_validity = record.clone();
    changed_validity.binding.message_valid_until = MessageValidityUntil(CanonicalTime(49));
    assert_eq!(
        decrypt(&secret, sender_public, &changed_validity),
        Err(ContentError::InvalidCiphertext)
    );

    let mut changed_capability = record;
    changed_capability.binding.capability = Some(LaneId(1));
    assert_eq!(
        decrypt(&secret, sender_public, &changed_capability),
        Err(ContentError::InvalidCiphertext)
    );
}
#[test]
fn encryption_refuses_each_fault() {
    let (sender, _) = EndpointSecretKey::generate(ContentKeyRef(8));
    let (_, public) = EndpointSecretKey::generate(ContentKeyRef(9));
    let fault = |binding, from, until| {
        encrypt(
            &sender,
            public,
            binding,
            b"message",
            CanonicalTime(from),
            CanonicalTime(until),
        )
        .err()
    };
    assert_eq!(fault(binding(), 1, 100), None);
    assert_eq!(
        fault(binding(), 100, 100),
        Some(ContentError::InvalidLifetime)
    );
    assert_eq!(
        fault(binding(), 50, 100),
        Some(ContentError::InvalidLifetime)
    );
    let mut other_wire = binding();
    other_wire.wire_version = WireVersion(2);
    assert_eq!(
        fault(other_wire, 1, 100),
        Some(ContentError::UnsupportedWireVersion)
    );
    let mut dishonest = binding();
    dishonest.declarations.origin.authority = DeclarationAuthority::LegacyGateway(ProviderRef(1));
    assert_eq!(
        fault(dishonest, 1, 100),
        Some(ContentError::InvalidDeclaration)
    );
    let unusable = EndpointPublicKey {
        reference: ContentKeyRef(9),
        bytes: [0; 32],
    };
    assert_eq!(
        encrypt(
            &sender,
            unusable,
            binding(),
            b"message",
            CanonicalTime(1),
            CanonicalTime(100)
        )
        .err(),
        Some(ContentError::InvalidPublicKey)
    );
    assert_eq!(
        encrypt(
            &sender,
            public,
            binding(),
            &vec![0; 32 * 1024 * 1024 + 1],
            CanonicalTime(1),
            CanonicalTime(100)
        )
        .err(),
        Some(ContentError::PlaintextTooLarge)
    );
}

#[test]
fn restored_secrets_open_what_was_sealed_to_their_public_half() {
    let (secret, public) = EndpointSecretKey::from_secret_bytes(ContentKeyRef(5), &[3; 32]).unwrap();
    let (again, same) = EndpointSecretKey::from_secret_bytes(ContentKeyRef(5), &[3; 32]).unwrap();
    assert_eq!(public, same);
    assert_ne!(public.bytes, [3; 32]);
    let (sender, sender_public) = EndpointSecretKey::generate(ContentKeyRef(8));
    let record = encrypt(
        &sender,
        public,
        binding(),
        b"kept",
        CanonicalTime(1),
        CanonicalTime(100),
    )
    .unwrap();
    assert_eq!(decrypt(&secret, sender_public, &record).unwrap(), b"kept");
    assert_eq!(decrypt(&again, sender_public, &record).unwrap(), b"kept");
}

#[test]
fn every_part_of_a_binding_is_authenticated() {
    let bytes = binding_bytes(&binding()).unwrap();
    let mut changed = Vec::new();
    let mut other = binding();
    other.content_ref = ContentRef(9);
    changed.push(other);
    let mut other = binding();
    other.content_scope = ContentScopeRef::from_u128_for_test(7);
    changed.push(other);
    let mut other = binding();
    other.sender_certificate = ContentCertificateDigest([8; 32]);
    changed.push(other);
    let mut other = binding();
    other.capability = Some(LaneId(0));
    changed.push(other);
    for other in changed {
        assert_ne!(binding_bytes(&other).unwrap(), bytes);
    }
    let digest = message_declaration_digest(&binding().declarations).unwrap();
    let expected: [u8; 32] =
        Sha256::digest(binding().declarations.canonical_bytes().unwrap()).into();
    assert_eq!(digest.0, expected);
}

#[test]
fn certificates_are_digested_field_by_field() {
    let certificate = ContentKeyCertificate {
        wire_version: WireVersion(1),
        protocol_version: ProtocolVersion(2),
        deployment_domain: [3; 32],
        intended_provider: ProviderRef(4),
        relationship: RelationshipRef::from_u128_for_test(5),
        owner: ProtocolIdentity(6),
        operational_key: OperationalKeyRef(7),
        content_key_version: ContentKeyVersion(8),
        key: EndpointPublicKey {
            reference: ContentKeyRef(9),
            bytes: [10; 32],
        },
        valid_from: CanonicalTime(11),
        valid_until: CanonicalTime(12),
    };
    let bytes = content_key_certificate_bytes(&certificate);
    let expected: [u8; 32] = Sha256::digest(&bytes).into();
    assert_eq!(content_key_certificate_digest(&certificate).0, expected);
    let mut later = certificate;
    later.valid_until = CanonicalTime(13);
    assert_ne!(content_key_certificate_bytes(&later), bytes);
}

#[test]
fn records_are_written_as_compact_json() {
    let (sender, _) = EndpointSecretKey::generate(ContentKeyRef(8));
    let (_, public) = EndpointSecretKey::generate(ContentKeyRef(9));
    let record = encrypt(
        &sender,
        public,
        binding(),
        b"message",
        CanonicalTime(1),
        CanonicalTime(100),
    )
    .unwrap();
    let value: serde_json::Value = serde_json::from_slice(&record_json(&record)).unwrap();
    assert_eq!(value["binding"]["message_id"], 2);
    assert_eq!(
        value["binding"]["declarations"]["purpose"]["Known"],
        "Personal"
    );
    assert_eq!(
        value["binding"]["declarations"]["origin"]["authority"]["NativeSender"],
        7
    );
    assert!(value["binding"]["capability"].is_null());
    assert_eq!(
        value["envelope"]["suite"],
        "HpkeX25519HkdfSha256ChaCha20Poly1305V1"
    );
    assert_eq!(
        value["envelope"]["ciphertext"].as_array().unwrap().len(),
        record.envelope.ciphertext.len()
    );
    assert_eq!(value["expires_at"], 100);
    let key = EndpointPublicKey {
        reference: ContentKeyRef(2),
        bytes: [1; 32],
    };
    let expected = format!(
        "{{\"reference\":2,\"bytes\":[{}1]}}",
        "1,".repeat(31)
    );
    assert_eq!(public_key_json(&key), expected.into_bytes());
}
