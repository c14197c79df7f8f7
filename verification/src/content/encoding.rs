//! Encrypted records as signed requests write them out.

use super::binding::ContentBinding;
use super::certificate::EndpointPublicKey;
use super::cipher::{CiphertextEnvelope, ContentCipherSuite, EncryptedContentRecord};
use crate::bytes::{push_all, push_text, same_32, text_bytes, utf8};
use crate::json::{
    json_bytes, json_number, json_optional, json_string, push_byte_array, push_number,
    push_optional, push_string,
};
use crate::primitives::declarations::{
    DeclarationAuthority, DeclaredPurpose, ExtensionCriticality, KnownPurpose, MessageDeclarations,
    NamespacedIdentifier, OriginDeclaration, OriginMode, PayloadSchema,
};
use crate::primitives::ids::{ContentKeyRef, LaneId};
use crate::primitives::amounts::CanonicalTime;
use vstd::prelude::*;

verus! {

pub ghost struct EnvelopeModel {
    pub suite: ContentCipherSuite,
    pub sender_key: ContentKeyRef,
    pub recipient_key: ContentKeyRef,
    pub encapsulated_key: Seq<u8>,
    pub ciphertext: Seq<u8>,
}

impl View for CiphertextEnvelope {
    type V = EnvelopeModel;

    open spec fn view(&self) -> EnvelopeModel {
        EnvelopeModel {
            suite: self.suite,
            sender_key: self.sender_key,
            recipient_key: self.recipient_key,
            encapsulated_key: self.encapsulated_key@,
            ciphertext: self.ciphertext@,
        }
    }
}

pub ghost struct SealedModel {
    pub binding: ContentBinding,
    pub envelope: EnvelopeModel,
    pub created_at: CanonicalTime,
    pub expires_at: CanonicalTime,
}

impl View for EncryptedContentRecord {
    type V = SealedModel;

    open spec fn view(&self) -> SealedModel {
        SealedModel {
            binding: self.binding,
            envelope: self.envelope@,
            created_at: self.created_at,
            expires_at: self.expires_at,
        }
    }
}

impl ContentBinding {
    /// Whether two bindings are the same.
    pub fn same(&self, other: &Self) -> (same: bool)
        ensures
            same == self.alike(other),
    {
        self.wire_version == other.wire_version && self.content_ref == other.content_ref
            && self.message_id == other.message_id && self.sender == other.sender && self.recipient
            == other.recipient && self.protocol_version == other.protocol_version
            && self.relationship.same(&other.relationship) && self.content_scope.same(
            &other.content_scope,
        ) && same_32(&self.sender_certificate.0, &other.sender_certificate.0)
            && self.declarations.same(&other.declarations) && self.message_valid_until
            == other.message_valid_until && self.capability == other.capability
    }
}

impl NamespacedIdentifier {
    pub open spec fn json(&self) -> Seq<u8> {
        utf8("{\"namespace\":"@) + json_string(self.namespace@) + utf8(",\"name\":"@) + json_string(
            self.name@,
        ) + utf8(",\"version\":"@) + json_number(self.version as nat) + utf8("}"@)
    }
}

fn identifier_json(identifier: &NamespacedIdentifier) -> (bytes: Vec<u8>)
    ensures
        bytes@ == identifier.json(),
{
    let mut out = text_bytes("{\"namespace\":");
    push_string(&mut out, identifier.namespace.as_str());
    push_text(&mut out, ",\"name\":");
    push_string(&mut out, identifier.name.as_str());
    push_text(&mut out, ",\"version\":");
    push_number(&mut out, identifier.version as u128);
    push_text(&mut out, "}");
    out
}

impl DeclaredPurpose {
    pub open spec fn json(&self) -> Seq<u8> {
        match self {
            DeclaredPurpose::Unspecified => utf8("\"Unspecified\""@),
            DeclaredPurpose::Known(purpose) => match purpose {
                KnownPurpose::Personal => utf8("{\"Known\":\"Personal\"}"@),
                KnownPurpose::Transactional => utf8("{\"Known\":\"Transactional\"}"@),
                KnownPurpose::Request => utf8("{\"Known\":\"Request\"}"@),
                KnownPurpose::Bulk => utf8("{\"Known\":\"Bulk\"}"@),
            },
            DeclaredPurpose::Extension(identifier) => utf8("{\"Extension\":"@) + identifier.json()
                + utf8("}"@),
        }
    }
}

fn purpose_json(purpose: &DeclaredPurpose) -> (bytes: Vec<u8>)
    ensures
        bytes@ == purpose.json(),
{
    match purpose {
        DeclaredPurpose::Unspecified => text_bytes("\"Unspecified\""),
        DeclaredPurpose::Known(known) => match known {
            KnownPurpose::Personal => text_bytes("{\"Known\":\"Personal\"}"),
            KnownPurpose::Transactional => text_bytes("{\"Known\":\"Transactional\"}"),
            KnownPurpose::Request => text_bytes("{\"Known\":\"Request\"}"),
            KnownPurpose::Bulk => text_bytes("{\"Known\":\"Bulk\"}"),
        },
        DeclaredPurpose::Extension(identifier) => {
            let mut out = text_bytes("{\"Extension\":");
            push_all(&mut out, identifier_json(identifier).as_slice());
            push_text(&mut out, "}");
            out
        },
    }
}

impl OriginMode {
    pub open spec fn json(self) -> Seq<u8> {
        match self {
            OriginMode::HumanInitiated => utf8("\"HumanInitiated\""@),
            OriginMode::AgentDraftHumanApproved => utf8("\"AgentDraftHumanApproved\""@),
            OriginMode::AutonomousAgent => utf8("\"AutonomousAgent\""@),
            OriginMode::AutomatedSystem => utf8("\"AutomatedSystem\""@),
            OriginMode::LegacyOrUnspecified => utf8("\"LegacyOrUnspecified\""@),
        }
    }
}

fn push_mode(out: &mut Vec<u8>, mode: OriginMode)
    ensures
        final(out)@ == old(out)@ + mode.json(),
{
    match mode {
        OriginMode::HumanInitiated => push_text(out, "\"HumanInitiated\""),
        OriginMode::AgentDraftHumanApproved => push_text(out, "\"AgentDraftHumanApproved\""),
        OriginMode::AutonomousAgent => push_text(out, "\"AutonomousAgent\""),
        OriginMode::AutomatedSystem => push_text(out, "\"AutomatedSystem\""),
        OriginMode::LegacyOrUnspecified => push_text(out, "\"LegacyOrUnspecified\""),
    }
}

impl DeclarationAuthority {
    pub open spec fn json(self) -> Seq<u8> {
        match self {
            DeclarationAuthority::NativeSender(key) => utf8("{\"NativeSender\":"@) + json_number(
                key.0 as nat,
            ) + utf8("}"@),
            DeclarationAuthority::LegacyGateway(provider) => utf8("{\"LegacyGateway\":"@)
                + json_number(provider.0 as nat) + utf8("}"@),
        }
    }
}

fn authority_json(authority: DeclarationAuthority) -> (bytes: Vec<u8>)
    ensures
        bytes@ == authority.json(),
{
    match authority {
        DeclarationAuthority::NativeSender(key) => {
            let mut out = text_bytes("{\"NativeSender\":");
            push_number(&mut out, key.0);
            push_text(&mut out, "}");
            out
        },
        DeclarationAuthority::LegacyGateway(provider) => {
            let mut out = text_bytes("{\"LegacyGateway\":");
            push_number(&mut out, provider.0);
            push_text(&mut out, "}");
            out
        },
    }
}

impl OriginDeclaration {
    pub open spec fn json(self) -> Seq<u8> {
        utf8("{\"mode\":"@) + self.mode.json() + utf8(",\"authority\":"@) + self.authority.json()
            + utf8("}"@)
    }
}

impl PayloadSchema {
    pub open spec fn json(&self) -> Seq<u8> {
        utf8("{\"id\":"@) + self.id.json() + (match self.criticality {
            ExtensionCriticality::NonCritical => utf8(",\"criticality\":\"NonCritical\"}"@),
            ExtensionCriticality::Critical => utf8(",\"criticality\":\"Critical\"}"@),
        })
    }
}

pub open spec fn schema_json(schema: Option<PayloadSchema>) -> Seq<u8> {
    match schema {
        Some(present) => present.json(),
        None => utf8("null"@),
    }
}

impl MessageDeclarations {
    /// The declarations as a JSON object.
    pub open spec fn json(&self) -> Seq<u8> {
        utf8("{\"purpose\":"@) + self.purpose.json() + utf8(",\"origin\":"@) + self.origin.json()
            + utf8(",\"payload_schema\":"@) + schema_json(self.payload_schema) + utf8("}"@)
    }
}

fn origin_json(origin: OriginDeclaration) -> (bytes: Vec<u8>)
    ensures
        bytes@ == origin.json(),
{
    let mut out = text_bytes("{\"mode\":");
    push_mode(&mut out, origin.mode);
    push_text(&mut out, ",\"authority\":");
    push_all(&mut out, authority_json(origin.authority).as_slice());
    push_text(&mut out, "}");
    out
}

fn payload_json(schema: &Option<PayloadSchema>) -> (bytes: Vec<u8>)
    ensures
        bytes@ == schema_json(*schema),
{
    match schema {
        Some(present) => {
            let mut out = text_bytes("{\"id\":");
            push_all(&mut out, identifier_json(&present.id).as_slice());
            match present.criticality {
                ExtensionCriticality::NonCritical => {
                    push_text(&mut out, ",\"criticality\":\"NonCritical\"}");
                },
                ExtensionCriticality::Critical => {
                    push_text(&mut out, ",\"criticality\":\"Critical\"}");
                },
            }
            out
        },
        None => text_bytes("null"),
    }
}

fn declarations_json(declarations: &MessageDeclarations) -> (bytes: Vec<u8>)
    ensures
        bytes@ == declarations.json(),
{
    let mut out = text_bytes("{\"purpose\":");
    push_all(&mut out, purpose_json(&declarations.purpose).as_slice());
    push_text(&mut out, ",\"origin\":");
    push_all(&mut out, origin_json(declarations.origin).as_slice());
    push_text(&mut out, ",\"payload_schema\":");
    push_all(&mut out, payload_json(&declarations.payload_schema).as_slice());
    push_text(&mut out, "}");
    out
}

/// A derived reference as a JSON object.
pub open spec fn reference_json(version: u16, bytes: Seq<u8>) -> Seq<u8> {
    utf8("{\"derivation_version\":"@) + json_number(version as nat) + utf8(",\"bytes\":"@)
        + json_bytes(bytes) + utf8("}"@)
}

fn reference_bytes(version: u16, bytes: &[u8; 32]) -> (json: Vec<u8>)
    ensures
        json@ == reference_json(version, bytes@),
{
    let mut out = text_bytes("{\"derivation_version\":");
    push_number(&mut out, version as u128);
    push_text(&mut out, ",\"bytes\":");
    push_byte_array(&mut out, bytes.as_slice());
    push_text(&mut out, "}");
    out
}

pub open spec fn lane_number(capability: Option<LaneId>) -> Option<u128> {
    match capability {
        Some(lane) => Some(lane.0),
        None => None,
    }
}

impl ContentBinding {
    /// Whose content the binding speaks of, as the first fields of a JSON object.
    pub open spec fn json_heading(&self) -> Seq<u8> {
        utf8("{\"wire_version\":"@) + json_number(self.wire_version.0 as nat) + utf8(
            ",\"content_ref\":"@,
        ) + json_number(self.content_ref.0 as nat) + utf8(",\"message_id\":"@) + json_number(
            self.message_id.0 as nat,
        ) + utf8(",\"sender\":"@) + json_number(self.sender.0 as nat) + utf8(",\"recipient\":"@)
            + json_number(self.recipient.0 as nat) + utf8(",\"protocol_version\":"@) + json_number(
            self.protocol_version.0 as nat,
        )
    }

    /// The binding as a JSON object.
    pub open spec fn json(&self) -> Seq<u8> {
        self.json_heading() + utf8(",\"relationship\":"@) + reference_json(
            self.relationship.derivation_version,
            self.relationship.bytes@,
        ) + utf8(",\"content_scope\":"@) + reference_json(
            self.content_scope.derivation_version,
            self.content_scope.bytes@,
        ) + utf8(",\"sender_certificate\":"@) + json_bytes(self.sender_certificate.0@) + utf8(
            ",\"declarations\":"@,
        ) + self.declarations.json() + utf8(",\"message_valid_until\":"@) + json_number(
            self.message_valid_until.0.0 as nat,
        ) + utf8(",\"capability\":"@) + json_optional(lane_number(self.capability)) + utf8("}"@)
    }
}

fn binding_heading(binding: &ContentBinding) -> (bytes: Vec<u8>)
    ensures
        bytes@ == binding.json_heading(),
{
    let mut out = text_bytes("{\"wire_version\":");
    push_number(&mut out, binding.wire_version.0 as u128);
    push_text(&mut out, ",\"content_ref\":");
    push_number(&mut out, binding.content_ref.0);
    push_text(&mut out, ",\"message_id\":");
    push_number(&mut out, binding.message_id.0);
    push_text(&mut out, ",\"sender\":");
    push_number(&mut out, binding.sender.0);
    push_text(&mut out, ",\"recipient\":");
    push_number(&mut out, binding.recipient.0);
    push_text(&mut out, ",\"protocol_version\":");
    push_number(&mut out, binding.protocol_version.0 as u128);
    out
}

fn binding_json(binding: &ContentBinding) -> (bytes: Vec<u8>)
    ensures
        bytes@ == binding.json(),
{
    let mut out = binding_heading(binding);
    push_text(&mut out, ",\"relationship\":");
    push_all(
        &mut out,
        reference_bytes(
            binding.relationship.derivation_version,
            &binding.relationship.bytes,
        ).as_slice(),
    );
    push_text(&mut out, ",\"content_scope\":");
    push_all(
        &mut out,
        reference_bytes(
            binding.content_scope.derivation_version,
            &binding.content_scope.bytes,
        ).as_slice(),
    );
    push_text(&mut out, ",\"sender_certificate\":");
    push_byte_array(&mut out, binding.sender_certificate.0.as_slice());
    push_text(&mut out, ",\"declarations\":");
    push_all(&mut out, declarations_json(&binding.declarations).as_slice());
    push_text(&mut out, ",\"message_valid_until\":");
    push_number(&mut out, binding.message_valid_until.0.0 as u128);
    push_text(&mut out, ",\"capability\":");
    let capability: Option<u128> = match binding.capability {
        Some(lane) => Some(lane.0),
        None => None,
    };
    push_optional(&mut out, capability);
    push_text(&mut out, "}");
    out
}

impl EnvelopeModel {
    /// The envelope as a JSON object; there is one suite.
    pub open spec fn json(self) -> Seq<u8> {
        utf8("{\"suite\":\"HpkeX25519HkdfSha256ChaCha20Poly1305V1\",\"sender_key\":"@)
            + json_number(self.sender_key.0 as nat) + utf8(",\"recipient_key\":"@) + json_number(
            self.recipient_key.0 as nat,
        ) + utf8(",\"encapsulated_key\":"@) + json_bytes(self.encapsulated_key) + utf8(
            ",\"ciphertext\":"@,
        ) + json_bytes(self.ciphertext) + utf8("}"@)
    }
}

fn envelope_json(envelope: &CiphertextEnvelope) -> (bytes: Vec<u8>)
    ensures
        bytes@ == envelope@.json(),
{
    let mut out = text_bytes("{\"suite\":\"HpkeX25519HkdfSha256ChaCha20Poly1305V1\",\"sender_key\":");
    push_number(&mut out, envelope.sender_key.0);
    push_text(&mut out, ",\"recipient_key\":");
    push_number(&mut out, envelope.recipient_key.0);
    push_text(&mut out, ",\"encapsulated_key\":");
    push_byte_array(&mut out, envelope.encapsulated_key.as_slice());
    push_text(&mut out, ",\"ciphertext\":");
    push_byte_array(&mut out, envelope.ciphertext.as_slice());
    push_text(&mut out, "}");
    out
}

impl SealedModel {
    /// The record as a JSON object.
    #[verifier::opaque]
    pub open spec fn json(self) -> Seq<u8> {
        utf8("{\"binding\":"@) + self.binding.json() + utf8(",\"envelope\":"@)
            + self.envelope.json() + utf8(",\"created_at\":"@) + json_number(
            self.created_at.0 as nat,
        ) + utf8(",\"expires_at\":"@) + json_number(self.expires_at.0 as nat) + utf8("}"@)
    }
}

/// An encrypted record as JSON.
pub fn record_json(record: &EncryptedContentRecord) -> (bytes: Vec<u8>)
    ensures
        bytes@ == record@.json(),
{
    reveal(SealedModel::json);
    let mut out = text_bytes("{\"binding\":");
    push_all(&mut out, binding_json(&record.binding).as_slice());
    push_text(&mut out, ",\"envelope\":");
    push_all(&mut out, envelope_json(&record.envelope).as_slice());
    push_text(&mut out, ",\"created_at\":");
    push_number(&mut out, record.created_at.0 as u128);
    push_text(&mut out, ",\"expires_at\":");
    push_number(&mut out, record.expires_at.0 as u128);
    push_text(&mut out, "}");
    out
}

impl EndpointPublicKey {
    /// The key as a JSON object.
    pub open spec fn json(self) -> Seq<u8> {
        utf8("{\"reference\":"@) + json_number(self.reference.0 as nat) + utf8(",\"bytes\":"@)
            + json_bytes(self.bytes@) + utf8("}"@)
    }
}

/// A public key as JSON.
pub fn public_key_json(key: &EndpointPublicKey) -> (bytes: Vec<u8>)
    ensures
        bytes@ == key.json(),
{
    let mut out = text_bytes("{\"reference\":");
    push_number(&mut out, key.reference.0);
    push_text(&mut out, ",\"bytes\":");
    push_byte_array(&mut out, key.bytes.as_slice());
    push_text(&mut out, "}");
    out
}

} // verus!
