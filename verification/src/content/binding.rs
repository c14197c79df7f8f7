//! What a ciphertext is bound to.

use super::certificate::ContentCertificateDigest;
use crate::bytes::{
    be_bytes, lemma_be_delimits, lemma_be_len, lemma_byte_delimits, lemma_spans, lemma_split,
    lemma_tail_32, lemma_tail_be, push_32, push_all, push_be, text_bytes, utf8,
};
use crate::crypto::{sha256, sha256_of};
use crate::primitives::amounts::MessageValidityUntil;
use crate::primitives::declarations::{
    declarations_delimit_themselves, MessageDeclarationDigest, MessageDeclarations,
};
use crate::primitives::ids::{ContentRef, LaneId, MessageId, ProtocolIdentity};
use crate::primitives::references::{ContentScopeRef, RelationshipRef};
use crate::primitives::versions::{ProtocolVersion, WireVersion};
use vstd::prelude::*;

verus! {

#[derive(Clone, Copy, Debug, PartialEq, Eq, Structural)]
pub enum ContentError {
    PlaintextTooLarge,
    InvalidPublicKey,
    WrongRecipientKey,
    InvalidCiphertext,
    InvalidLifetime,
    InvalidDeclaration,
    UnsupportedWireVersion,
}

impl ContentError {
    pub open spec fn message(self) -> Seq<char> {
        match self {
            ContentError::PlaintextTooLarge => "native content exceeds the size limit"@,
            ContentError::InvalidPublicKey => "invalid endpoint content public key"@,
            ContentError::WrongRecipientKey => "ciphertext targets another endpoint key"@,
            ContentError::InvalidCiphertext => "content authentication failed"@,
            ContentError::InvalidLifetime => "content expiry must follow creation"@,
            ContentError::InvalidDeclaration => "message declarations are invalid"@,
            ContentError::UnsupportedWireVersion => {
                "message binding wire version is unsupported"@
            },
        }
    }

    /// The error in words.
    pub fn text(&self) -> (text: &'static str)
        ensures
            text@ == self.message(),
    {
        match self {
            ContentError::PlaintextTooLarge => "native content exceeds the size limit",
            ContentError::InvalidPublicKey => "invalid endpoint content public key",
            ContentError::WrongRecipientKey => "ciphertext targets another endpoint key",
            ContentError::InvalidCiphertext => "content authentication failed",
            ContentError::InvalidLifetime => "content expiry must follow creation",
            ContentError::InvalidDeclaration => "message declarations are invalid",
            ContentError::UnsupportedWireVersion => "message binding wire version is unsupported",
        }
    }
}

#[derive(PartialEq, Eq)]
pub struct ContentBinding {
    pub wire_version: WireVersion,
    pub content_ref: ContentRef,
    pub message_id: MessageId,
    pub sender: ProtocolIdentity,
    pub recipient: ProtocolIdentity,
    pub protocol_version: ProtocolVersion,
    pub relationship: RelationshipRef,
    pub content_scope: ContentScopeRef,
    pub sender_certificate: ContentCertificateDigest,
    pub declarations: MessageDeclarations,
    pub message_valid_until: MessageValidityUntil,
    pub capability: Option<LaneId>,
}

impl Clone for ContentBinding {
    fn clone(&self) -> (copy: Self)
        ensures
            copy == *self,
    {
        ContentBinding {
            wire_version: self.wire_version,
            content_ref: self.content_ref,
            message_id: self.message_id,
            sender: self.sender,
            recipient: self.recipient,
            protocol_version: self.protocol_version,
            relationship: self.relationship,
            content_scope: self.content_scope,
            sender_certificate: self.sender_certificate,
            declarations: self.declarations.clone(),
            message_valid_until: self.message_valid_until,
            capability: self.capability,
        }
    }
}

pub open spec fn capability_bytes(capability: Option<LaneId>) -> Seq<u8> {
    match capability {
        Some(lane) => seq![1u8] + be_bytes(lane.0 as nat, 16),
        None => seq![0u8],
    }
}

impl ContentBinding {
    /// Whether the binding is one that content can have, and if not, why.
    pub open spec fn check(&self) -> Result<(), ContentError> {
        if self.wire_version != WireVersion(1) {
            Err(ContentError::UnsupportedWireVersion)
        } else if self.declarations.check() is Err {
            Err(ContentError::InvalidDeclaration)
        } else {
            Ok(())
        }
    }

    /// Which content this is, and whose.
    pub open spec fn heading(&self) -> Seq<u8> {
        utf8("cs-mail/content-binding/v2"@) + be_bytes(self.wire_version.0 as nat, 2) + be_bytes(
            self.content_ref.0 as nat,
            16,
        ) + be_bytes(self.message_id.0 as nat, 16) + be_bytes(self.sender.0 as nat, 16) + be_bytes(
            self.recipient.0 as nat,
            16,
        ) + be_bytes(self.protocol_version.0 as nat, 2) + be_bytes(
            self.relationship.derivation_version as nat,
            2,
        ) + self.relationship.bytes@ + be_bytes(self.content_scope.derivation_version as nat, 2)
            + self.content_scope.bytes@ + self.sender_certificate.0@
    }

    /// The canonical representation that a ciphertext authenticates.
    pub open spec fn canonical(&self) -> Seq<u8> {
        self.heading() + self.declarations.canonical() + be_bytes(
            self.message_valid_until.0.0 as nat,
            8,
        ) + capability_bytes(self.capability)
    }

    pub open spec fn alike(&self, other: &Self) -> bool {
        &&& self.wire_version == other.wire_version
        &&& self.content_ref == other.content_ref
        &&& self.message_id == other.message_id
        &&& self.sender == other.sender
        &&& self.recipient == other.recipient
        &&& self.protocol_version == other.protocol_version
        &&& self.relationship == other.relationship
        &&& self.content_scope == other.content_scope
        &&& self.sender_certificate == other.sender_certificate
        &&& self.declarations.alike(&other.declarations)
        &&& self.message_valid_until == other.message_valid_until
        &&& self.capability == other.capability
    }
}

/// Refuses other wire versions and malformed declarations.
pub fn validate_binding(binding: &ContentBinding) -> (result: Result<(), ContentError>)
    ensures
        result == binding.check(),
{
    if binding.wire_version != WireVersion(1) {
        return Err(ContentError::UnsupportedWireVersion);
    }
    if binding.declarations.validate().is_err() {
        return Err(ContentError::InvalidDeclaration);
    }
    Ok(())
}

fn heading_bytes(binding: &ContentBinding) -> (bytes: Vec<u8>)
    ensures
        bytes@ == binding.heading(),
{
    let mut bytes = text_bytes("cs-mail/content-binding/v2");
    push_be(&mut bytes, binding.wire_version.0 as u128, 2);
    push_be(&mut bytes, binding.content_ref.0, 16);
    push_be(&mut bytes, binding.message_id.0, 16);
    push_be(&mut bytes, binding.sender.0, 16);
    push_be(&mut bytes, binding.recipient.0, 16);
    push_be(&mut bytes, binding.protocol_version.0 as u128, 2);
    push_be(&mut bytes, binding.relationship.derivation_version as u128, 2);
    push_32(&mut bytes, &binding.relationship.bytes);
    push_be(&mut bytes, binding.content_scope.derivation_version as u128, 2);
    push_32(&mut bytes, &binding.content_scope.bytes);
    push_32(&mut bytes, &binding.sender_certificate.0);
    bytes
}

/// The binding as a ciphertext authenticates it. A malformed binding is refused.
pub fn binding_bytes(binding: &ContentBinding) -> (result: Result<Vec<u8>, ContentError>)
    ensures
        match binding.check() {
            Ok(()) => result matches Ok(bytes) && bytes@ == binding.canonical(),
            Err(e) => result == Err::<Vec<u8>, ContentError>(e),
        },
{
    match validate_binding(binding) {
        Ok(()) => {},
        Err(e) => return Err(e),
    }
    let mut bytes = heading_bytes(binding);
    match binding.declarations.canonical_bytes() {
        Ok(declared) => push_all(&mut bytes, declared.as_slice()),
        Err(_) => return Err(ContentError::InvalidDeclaration),
    }
    push_be(&mut bytes, binding.message_valid_until.0.0 as u128, 8);
    let ghost before = bytes@;
    match binding.capability {
        Some(lane) => {
            bytes.push(1);
            push_be(&mut bytes, lane.0, 16);
        },
        None => {
            bytes.push(0);
        },
    }
    assert(bytes@ =~= before + capability_bytes(binding.capability));
    Ok(bytes)
}

/// Computes the canonical declaration digest fixed by contact terms and admission. An invalid
/// declaration set is refused.
pub fn message_declaration_digest(declarations: &MessageDeclarations) -> (result: Result<
    MessageDeclarationDigest,
    ContentError,
>)
    ensures
        match declarations.check() {
            Ok(()) => result matches Ok(digest) && digest.0@ == sha256_of(declarations.canonical()),
            Err(_) => result == Err::<MessageDeclarationDigest, ContentError>(
                ContentError::InvalidDeclaration,
            ),
        },
{
    match declarations.canonical_bytes() {
        Ok(bytes) => Ok(MessageDeclarationDigest(sha256(bytes.as_slice()))),
        Err(_) => Err(ContentError::InvalidDeclaration),
    }
}

proof fn lemma_headings(a: ContentBinding, b: ContentBinding)
    requires
        a.heading() == b.heading(),
    ensures
        a.wire_version == b.wire_version && a.content_ref == b.content_ref && a.message_id
            == b.message_id && a.sender == b.sender && a.recipient == b.recipient
            && a.protocol_version == b.protocol_version && a.relationship == b.relationship
            && a.content_scope == b.content_scope && a.sender_certificate == b.sender_certificate,
{
    lemma_spans();
    let t = utf8("cs-mail/content-binding/v2"@);
    let (a1, b1) = (
        t + be_bytes(a.wire_version.0 as nat, 2),
        t + be_bytes(b.wire_version.0 as nat, 2),
    );
    let (a2, b2) = (
        a1 + be_bytes(a.content_ref.0 as nat, 16),
        b1 + be_bytes(b.content_ref.0 as nat, 16),
    );
    let (a3, b3) = (
        a2 + be_bytes(a.message_id.0 as nat, 16),
        b2 + be_bytes(b.message_id.0 as nat, 16),
    );
    let (a4, b4) = (a3 + be_bytes(a.sender.0 as nat, 16), b3 + be_bytes(b.sender.0 as nat, 16));
    let (a5, b5) = (
        a4 + be_bytes(a.recipient.0 as nat, 16),
        b4 + be_bytes(b.recipient.0 as nat, 16),
    );
    let (a6, b6) = (
        a5 + be_bytes(a.protocol_version.0 as nat, 2),
        b5 + be_bytes(b.protocol_version.0 as nat, 2),
    );
    let (a7, b7) = (
        a6 + be_bytes(a.relationship.derivation_version as nat, 2),
        b6 + be_bytes(b.relationship.derivation_version as nat, 2),
    );
    let (a8, b8) = (a7 + a.relationship.bytes@, b7 + b.relationship.bytes@);
    let (a9, b9) = (
        a8 + be_bytes(a.content_scope.derivation_version as nat, 2),
        b8 + be_bytes(b.content_scope.derivation_version as nat, 2),
    );
    let (a10, b10) = (a9 + a.content_scope.bytes@, b9 + b.content_scope.bytes@);
    lemma_tail_32(a10, a.sender_certificate.0, b10, b.sender_certificate.0);
    lemma_tail_32(a9, a.content_scope.bytes, b9, b.content_scope.bytes);
    lemma_tail_be(
        a8,
        a.content_scope.derivation_version as nat,
        b8,
        b.content_scope.derivation_version as nat,
        2,
    );
    lemma_tail_32(a7, a.relationship.bytes, b7, b.relationship.bytes);
    lemma_tail_be(
        a6,
        a.relationship.derivation_version as nat,
        b6,
        b.relationship.derivation_version as nat,
        2,
    );
    lemma_tail_be(a5, a.protocol_version.0 as nat, b5, b.protocol_version.0 as nat, 2);
    lemma_tail_be(a4, a.recipient.0 as nat, b4, b.recipient.0 as nat, 16);
    lemma_tail_be(a3, a.sender.0 as nat, b3, b.sender.0 as nat, 16);
    lemma_tail_be(a2, a.message_id.0 as nat, b2, b.message_id.0 as nat, 16);
    lemma_tail_be(a1, a.content_ref.0 as nat, b1, b.content_ref.0 as nat, 16);
    lemma_tail_be(t, a.wire_version.0 as nat, t, b.wire_version.0 as nat, 2);
}

proof fn lemma_capability(a: Option<LaneId>, b: Option<LaneId>)
    requires
        capability_bytes(a) == capability_bytes(b),
    ensures
        a == b,
{
    lemma_spans();
    let (p, q) = (capability_bytes(a), capability_bytes(b));
    assert(p[0] == q[0]);
    match (a, b) {
        (Some(l), Some(m)) => {
            lemma_byte_delimits(1, be_bytes(l.0 as nat, 16), 1, be_bytes(m.0 as nat, 16));
            crate::bytes::lemma_be_injective(l.0 as nat, m.0 as nat, 16);
        },
        (Some(l), None) => {
            assert(p[0] == 1);
        },
        (None, Some(m)) => {
            assert(q[0] == 1);
        },
        _ => {},
    }
}

/// What a ciphertext authenticates determines its binding in every part: no field can be changed
/// without changing what is authenticated.
pub proof fn bindings_are_bound(a: ContentBinding, b: ContentBinding)
    requires
        a.check() is Ok,
        b.check() is Ok,
        a.canonical() == b.canonical(),
    ensures
        a.alike(&b),
{
    broadcast use lemma_be_len;

    lemma_spans();
    let (av, bv) = (
        be_bytes(a.message_valid_until.0.0 as nat, 8),
        be_bytes(b.message_valid_until.0.0 as nat, 8),
    );
    let (ac, bc) = (capability_bytes(a.capability), capability_bytes(b.capability));
    let (ad, bd) = (a.declarations.canonical(), b.declarations.canonical());
    assert(a.canonical() =~= a.heading() + (ad + (av + ac)));
    assert(b.canonical() =~= b.heading() + (bd + (bv + bc)));
    let t = utf8("cs-mail/content-binding/v2"@);
    assert(a.heading().len() == t.len() + 168);
    assert(b.heading().len() == t.len() + 168);
    lemma_split(a.heading(), ad + (av + ac), b.heading(), bd + (bv + bc));
    lemma_headings(a, b);
    declarations_delimit_themselves(a.declarations, av + ac, b.declarations, bv + bc);
    lemma_be_delimits(
        a.message_valid_until.0.0 as nat,
        ac,
        b.message_valid_until.0.0 as nat,
        bc,
        8,
    );
    lemma_capability(a.capability, b.capability);
}

} // verus!
