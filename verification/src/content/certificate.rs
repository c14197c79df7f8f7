//! Certificates of endpoint content keys.

use crate::bytes::{
    be_bytes, lemma_spans, lemma_tail_32, lemma_tail_be, push_32, push_be, text_bytes, utf8,
};
use crate::crypto::{sha256, sha256_of};
use crate::primitives::amounts::CanonicalTime;
use crate::primitives::ids::{ContentKeyRef, OperationalKeyRef, ProtocolIdentity, ProviderRef};
use crate::primitives::references::RelationshipRef;
use crate::primitives::versions::{ContentKeyVersion, ProtocolVersion, WireVersion};
use vstd::prelude::*;

verus! {

#[derive(Clone, Copy, Debug, PartialEq, Eq)]
pub struct EndpointPublicKey {
    pub reference: ContentKeyRef,
    pub bytes: [u8; 32],
}

impl EndpointPublicKey {
    /// Whether two keys are the same.
    pub fn same(&self, other: &Self) -> (same: bool)
        ensures
            same == (*self == *other),
    {
        self.reference == other.reference && crate::bytes::same_32(&self.bytes, &other.bytes)
    }
}

#[derive(Clone, Copy, PartialEq, Eq)]
pub struct ContentKeyCertificate {
    pub wire_version: WireVersion,
    pub protocol_version: ProtocolVersion,
    pub deployment_domain: [u8; 32],
    pub intended_provider: ProviderRef,
    pub relationship: RelationshipRef,
    pub owner: ProtocolIdentity,
    pub operational_key: OperationalKeyRef,
    pub content_key_version: ContentKeyVersion,
    pub key: EndpointPublicKey,
    pub valid_from: CanonicalTime,
    pub valid_until: CanonicalTime,
}

#[derive(Clone, Copy, Debug, PartialEq, Eq)]
pub struct ContentCertificateDigest(pub [u8; 32]);

impl ContentKeyCertificate {
    /// The canonical representation that an owner signs.
    pub open spec fn canonical(self) -> Seq<u8> {
        utf8("cs-mail/content-key-certificate/v1"@) + be_bytes(self.wire_version.0 as nat, 2)
            + be_bytes(self.protocol_version.0 as nat, 2) + self.deployment_domain@ + be_bytes(
            self.intended_provider.0 as nat,
            16,
        ) + be_bytes(self.relationship.derivation_version as nat, 2) + self.relationship.bytes@
            + be_bytes(self.owner.0 as nat, 16) + be_bytes(self.operational_key.0 as nat, 16)
            + be_bytes(self.content_key_version.0 as nat, 8) + be_bytes(
            self.key.reference.0 as nat,
            16,
        ) + self.key.bytes@ + be_bytes(self.valid_from.0 as nat, 8) + be_bytes(
            self.valid_until.0 as nat,
            8,
        )
    }
}

pub fn content_key_certificate_bytes(certificate: &ContentKeyCertificate) -> (bytes: Vec<u8>)
    ensures
        bytes@ == certificate.canonical(),
{
    let mut bytes = text_bytes("cs-mail/content-key-certificate/v1");
    push_be(&mut bytes, certificate.wire_version.0 as u128, 2);
    push_be(&mut bytes, certificate.protocol_version.0 as u128, 2);
    push_32(&mut bytes, &certificate.deployment_domain);
    push_be(&mut bytes, certificate.intended_provider.0, 16);
    push_be(&mut bytes, certificate.relationship.derivation_version as u128, 2);
    push_32(&mut bytes, &certificate.relationship.bytes);
    push_be(&mut bytes, certificate.owner.0, 16);
    push_be(&mut bytes, certificate.operational_key.0, 16);
    push_be(&mut bytes, certificate.content_key_version.0 as u128, 8);
    push_be(&mut bytes, certificate.key.reference.0, 16);
    push_32(&mut bytes, &certificate.key.bytes);
    push_be(&mut bytes, certificate.valid_from.0 as u128, 8);
    push_be(&mut bytes, certificate.valid_until.0 as u128, 8);
    bytes
}

pub fn content_key_certificate_digest(certificate: &ContentKeyCertificate) -> (digest:
    ContentCertificateDigest)
    ensures
        digest.0@ == sha256_of(certificate.canonical()),
{
    let bytes = content_key_certificate_bytes(certificate);
    ContentCertificateDigest(sha256(bytes.as_slice()))
}

/// What an owner signs determines the certificate in every part.
pub proof fn certificates_are_bound(a: ContentKeyCertificate, b: ContentKeyCertificate)
    requires
        a.canonical() == b.canonical(),
    ensures
        a == b,
{
    lemma_spans();
    let t = utf8("cs-mail/content-key-certificate/v1"@);
    let (a1, b1) = (
        t + be_bytes(a.wire_version.0 as nat, 2),
        t + be_bytes(b.wire_version.0 as nat, 2),
    );
    let (a2, b2) = (
        a1 + be_bytes(a.protocol_version.0 as nat, 2),
        b1 + be_bytes(b.protocol_version.0 as nat, 2),
    );
    let (a3, b3) = (a2 + a.deployment_domain@, b2 + b.deployment_domain@);
    let (a4, b4) = (
        a3 + be_bytes(a.intended_provider.0 as nat, 16),
        b3 + be_bytes(b.intended_provider.0 as nat, 16),
    );
    let (a5, b5) = (
        a4 + be_bytes(a.relationship.derivation_version as nat, 2),
        b4 + be_bytes(b.relationship.derivation_version as nat, 2),
    );
    let (a6, b6) = (a5 + a.relationship.bytes@, b5 + b.relationship.bytes@);
    let (a7, b7) = (a6 + be_bytes(a.owner.0 as nat, 16), b6 + be_bytes(b.owner.0 as nat, 16));
    let (a8, b8) = (
        a7 + be_bytes(a.operational_key.0 as nat, 16),
        b7 + be_bytes(b.operational_key.0 as nat, 16),
    );
    let (a9, b9) = (
        a8 + be_bytes(a.content_key_version.0 as nat, 8),
        b8 + be_bytes(b.content_key_version.0 as nat, 8),
    );
    let (a10, b10) = (
        a9 + be_bytes(a.key.reference.0 as nat, 16),
        b9 + be_bytes(b.key.reference.0 as nat, 16),
    );
    let (a11, b11) = (a10 + a.key.bytes@, b10 + b.key.bytes@);
    let (a12, b12) = (
        a11 + be_bytes(a.valid_from.0 as nat, 8),
        b11 + be_bytes(b.valid_from.0 as nat, 8),
    );
    lemma_tail_be(a12, a.valid_until.0 as nat, b12, b.valid_until.0 as nat, 8);
    lemma_tail_be(a11, a.valid_from.0 as nat, b11, b.valid_from.0 as nat, 8);
    lemma_tail_32(a10, a.key.bytes, b10, b.key.bytes);
    lemma_tail_be(a9, a.key.reference.0 as nat, b9, b.key.reference.0 as nat, 16);
    lemma_tail_be(a8, a.content_key_version.0 as nat, b8, b.content_key_version.0 as nat, 8);
    lemma_tail_be(a7, a.operational_key.0 as nat, b7, b.operational_key.0 as nat, 16);
    lemma_tail_be(a6, a.owner.0 as nat, b6, b.owner.0 as nat, 16);
    lemma_tail_32(a5, a.relationship.bytes, b5, b.relationship.bytes);
    lemma_tail_be(
        a4,
        a.relationship.derivation_version as nat,
        b4,
        b.relationship.derivation_version as nat,
        2,
    );
    lemma_tail_be(a3, a.intended_provider.0 as nat, b3, b.intended_provider.0 as nat, 16);
    lemma_tail_32(a2, a.deployment_domain, b2, b.deployment_domain);
    lemma_tail_be(a1, a.protocol_version.0 as nat, b1, b.protocol_version.0 as nat, 2);
    lemma_tail_be(t, a.wire_version.0 as nat, t, b.wire_version.0 as nat, 2);
}

} // verus!
