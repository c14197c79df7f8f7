//! Encoded content determines what it holds: nothing in a record can be changed without changing its
//! encoding.

use super::binding::ContentBinding;
use super::certificate::EndpointPublicKey;
use super::encoding::{lane_number, reference_json, schema_json, EnvelopeModel, SealedModel};
use crate::bytes::{lemma_array_32, utf8};
use crate::lines::{
    differ, lemma_byte_values, lemma_lines, lemma_values_injective, line, Line,
};
use crate::primitives::declarations::{
    schemas_alike, DeclarationAuthority, DeclaredPurpose, ExtensionCriticality, KnownPurpose,
    MessageDeclarations, NamespacedIdentifier, OriginDeclaration, OriginMode, PayloadSchema,
};
use vstd::prelude::*;

verus! {

/// What tells one origin from another.
proof fn lemma_mode_heads()
    ensures
        utf8("\"HumanInitiated\""@).len() > 5,
        utf8("\"HumanInitiated\""@)[1] == 0x48,
        utf8("\"HumanInitiated\""@)[2] == 0x75,
        utf8("\"HumanInitiated\""@)[5] == 0x6e,
        utf8("\"AgentDraftHumanApproved\""@).len() > 5,
        utf8("\"AgentDraftHumanApproved\""@)[1] == 0x41,
        utf8("\"AgentDraftHumanApproved\""@)[2] == 0x67,
        utf8("\"AgentDraftHumanApproved\""@)[5] == 0x74,
        utf8("\"AutonomousAgent\""@).len() > 5,
        utf8("\"AutonomousAgent\""@)[1] == 0x41,
        utf8("\"AutonomousAgent\""@)[2] == 0x75,
        utf8("\"AutonomousAgent\""@)[5] == 0x6e,
        utf8("\"AutomatedSystem\""@).len() > 5,
        utf8("\"AutomatedSystem\""@)[1] == 0x41,
        utf8("\"AutomatedSystem\""@)[2] == 0x75,
        utf8("\"AutomatedSystem\""@)[5] == 0x6d,
        utf8("\"LegacyOrUnspecified\""@).len() > 5,
        utf8("\"LegacyOrUnspecified\""@)[1] == 0x4c,
        utf8("\"LegacyOrUnspecified\""@)[2] == 0x65,
        utf8("\"LegacyOrUnspecified\""@)[5] == 0x63,
{
    reveal_strlit("\"HumanInitiated\"");
    reveal_strlit("\"AgentDraftHumanApproved\"");
    reveal_strlit("\"AutonomousAgent\"");
    reveal_strlit("\"AutomatedSystem\"");
    reveal_strlit("\"LegacyOrUnspecified\"");
    vstd::utf8::is_ascii_chars_encode_utf8("\"HumanInitiated\""@);
    vstd::utf8::is_ascii_chars_encode_utf8("\"AgentDraftHumanApproved\""@);
    vstd::utf8::is_ascii_chars_encode_utf8("\"AutonomousAgent\""@);
    vstd::utf8::is_ascii_chars_encode_utf8("\"AutomatedSystem\""@);
    vstd::utf8::is_ascii_chars_encode_utf8("\"LegacyOrUnspecified\""@);
}

/// What tells one authority from another.
proof fn lemma_authority_heads()
    ensures
        utf8("{\"NativeSender\":"@).len() > 2,
        utf8("{\"NativeSender\":"@)[2] == 0x4e,
        utf8("{\"LegacyGateway\":"@).len() > 2,
        utf8("{\"LegacyGateway\":"@)[2] == 0x4c,
{
    reveal_strlit("{\"NativeSender\":");
    reveal_strlit("{\"LegacyGateway\":");
    vstd::utf8::is_ascii_chars_encode_utf8("{\"NativeSender\":"@);
    vstd::utf8::is_ascii_chars_encode_utf8("{\"LegacyGateway\":"@);
}

/// What tells one purpose from another.
proof fn lemma_purpose_heads()
    ensures
        utf8("\"Unspecified\""@).len() > 10,
        utf8("\"Unspecified\""@)[2] == 0x6e,
        utf8("\"Unspecified\""@)[10] == 0x65,
        utf8("{\"Known\":\"Personal\"}"@).len() > 10,
        utf8("{\"Known\":\"Personal\"}"@)[2] == 0x4b,
        utf8("{\"Known\":\"Personal\"}"@)[10] == 0x50,
        utf8("{\"Known\":\"Transactional\"}"@).len() > 10,
        utf8("{\"Known\":\"Transactional\"}"@)[2] == 0x4b,
        utf8("{\"Known\":\"Transactional\"}"@)[10] == 0x54,
        utf8("{\"Known\":\"Request\"}"@).len() > 10,
        utf8("{\"Known\":\"Request\"}"@)[2] == 0x4b,
        utf8("{\"Known\":\"Request\"}"@)[10] == 0x52,
        utf8("{\"Known\":\"Bulk\"}"@).len() > 10,
        utf8("{\"Known\":\"Bulk\"}"@)[2] == 0x4b,
        utf8("{\"Known\":\"Bulk\"}"@)[10] == 0x42,
        utf8("{\"Extension\":"@).len() > 10,
        utf8("{\"Extension\":"@)[2] == 0x45,
        utf8("{\"Extension\":"@)[10] == 0x6e,
{
    reveal_strlit("\"Unspecified\"");
    reveal_strlit("{\"Known\":\"Personal\"}");
    reveal_strlit("{\"Known\":\"Transactional\"}");
    reveal_strlit("{\"Known\":\"Request\"}");
    reveal_strlit("{\"Known\":\"Bulk\"}");
    reveal_strlit("{\"Extension\":");
    vstd::utf8::is_ascii_chars_encode_utf8("\"Unspecified\""@);
    vstd::utf8::is_ascii_chars_encode_utf8("{\"Known\":\"Personal\"}"@);
    vstd::utf8::is_ascii_chars_encode_utf8("{\"Known\":\"Transactional\"}"@);
    vstd::utf8::is_ascii_chars_encode_utf8("{\"Known\":\"Request\"}"@);
    vstd::utf8::is_ascii_chars_encode_utf8("{\"Known\":\"Bulk\"}"@);
    vstd::utf8::is_ascii_chars_encode_utf8("{\"Extension\":"@);
}

/// What tells one criticality from another.
proof fn lemma_criticality_heads()
    ensures
        utf8(",\"criticality\":\"NonCritical\"}"@).len() > 16,
        utf8(",\"criticality\":\"NonCritical\"}"@)[16] == 0x4e,
        utf8(",\"criticality\":\"Critical\"}"@).len() > 16,
        utf8(",\"criticality\":\"Critical\"}"@)[16] == 0x43,
{
    reveal_strlit(",\"criticality\":\"NonCritical\"}");
    reveal_strlit(",\"criticality\":\"Critical\"}");
    vstd::utf8::is_ascii_chars_encode_utf8(",\"criticality\":\"NonCritical\"}"@);
    vstd::utf8::is_ascii_chars_encode_utf8(",\"criticality\":\"Critical\"}"@);
}

/// What tells a schema from none.
proof fn lemma_schema_heads()
    ensures
        utf8("null"@).len() > 0,
        utf8("null"@)[0] == 0x6e,
        utf8("{\"id\":"@).len() > 0,
        utf8("{\"id\":"@)[0] == 0x7b,
{
    reveal_strlit("null");
    reveal_strlit("{\"id\":");
    vstd::utf8::is_ascii_chars_encode_utf8("null"@);
    vstd::utf8::is_ascii_chars_encode_utf8("{\"id\":"@);
}

/// What ends a number in a binding.
proof fn lemma_ends()
    ensures
        utf8("}"@).len() > 0 && utf8("}"@)[0] == 0x7d,
        utf8(",\"bytes\":"@).len() > 0 && utf8(",\"bytes\":"@)[0] == 0x2c,
        utf8(",\"content_ref\":"@).len() > 0 && utf8(",\"content_ref\":"@)[0] == 0x2c,
        utf8(",\"message_id\":"@).len() > 0 && utf8(",\"message_id\":"@)[0] == 0x2c,
        utf8(",\"sender\":"@).len() > 0 && utf8(",\"sender\":"@)[0] == 0x2c,
        utf8(",\"recipient\":"@).len() > 0 && utf8(",\"recipient\":"@)[0] == 0x2c,
        utf8(",\"protocol_version\":"@).len() > 0 && utf8(",\"protocol_version\":"@)[0] == 0x2c,
        utf8(",\"relationship\":"@).len() > 0 && utf8(",\"relationship\":"@)[0] == 0x2c,
        utf8(",\"capability\":"@).len() > 0 && utf8(",\"capability\":"@)[0] == 0x2c,
{
    reveal_strlit("}");
    reveal_strlit(",\"bytes\":");
    reveal_strlit(",\"content_ref\":");
    reveal_strlit(",\"message_id\":");
    reveal_strlit(",\"sender\":");
    reveal_strlit(",\"recipient\":");
    reveal_strlit(",\"protocol_version\":");
    reveal_strlit(",\"relationship\":");
    reveal_strlit(",\"capability\":");
    vstd::utf8::is_ascii_chars_encode_utf8("}"@);
    vstd::utf8::is_ascii_chars_encode_utf8(",\"bytes\":"@);
    vstd::utf8::is_ascii_chars_encode_utf8(",\"content_ref\":"@);
    vstd::utf8::is_ascii_chars_encode_utf8(",\"message_id\":"@);
    vstd::utf8::is_ascii_chars_encode_utf8(",\"sender\":"@);
    vstd::utf8::is_ascii_chars_encode_utf8(",\"recipient\":"@);
    vstd::utf8::is_ascii_chars_encode_utf8(",\"protocol_version\":"@);
    vstd::utf8::is_ascii_chars_encode_utf8(",\"relationship\":"@);
    vstd::utf8::is_ascii_chars_encode_utf8(",\"capability\":"@);
}

/// What ends a number in a record.
proof fn lemma_record_ends()
    ensures
        utf8(",\"recipient_key\":"@).len() > 0 && utf8(",\"recipient_key\":"@)[0] == 0x2c,
        utf8(",\"encapsulated_key\":"@).len() > 0 && utf8(",\"encapsulated_key\":"@)[0] == 0x2c,
        utf8(",\"expires_at\":"@).len() > 0 && utf8(",\"expires_at\":"@)[0] == 0x2c,
        utf8("}"@).len() > 0 && utf8("}"@)[0] == 0x7d,
{
    reveal_strlit(",\"recipient_key\":");
    reveal_strlit(",\"encapsulated_key\":");
    reveal_strlit(",\"expires_at\":");
    reveal_strlit("}");
    vstd::utf8::is_ascii_chars_encode_utf8(",\"recipient_key\":"@);
    vstd::utf8::is_ascii_chars_encode_utf8(",\"encapsulated_key\":"@);
    vstd::utf8::is_ascii_chars_encode_utf8(",\"expires_at\":"@);
    vstd::utf8::is_ascii_chars_encode_utf8("}"@);
}

spec fn mode_line(value: OriginMode) -> Line {
    match value {
        OriginMode::HumanInitiated => line("\"HumanInitiated\""@),
        OriginMode::AgentDraftHumanApproved => line("\"AgentDraftHumanApproved\""@),
        OriginMode::AutonomousAgent => line("\"AutonomousAgent\""@),
        OriginMode::AutomatedSystem => line("\"AutomatedSystem\""@),
        OriginMode::LegacyOrUnspecified => line("\"LegacyOrUnspecified\""@),
    }
}

proof fn lemma_modes(a: OriginMode, b: OriginMode)
    ensures
        mode_line(a).written() == a.json(),
        mode_line(a).like(mode_line(b)) || differ(mode_line(a).head(), mode_line(b).head()),
        mode_line(a) == mode_line(b) ==> a == b,
{
    lemma_mode_heads();
    reveal_with_fuel(Line::written, 2);
    reveal_with_fuel(Line::head, 2);
    reveal_with_fuel(Line::like, 2);
    let (x, y) = (mode_line(a).head(), mode_line(b).head());
    assert(x[1] == y[1] || differ(x, y));
    assert(x[2] == y[2] || differ(x, y));
    assert(x[5] == y[5] || differ(x, y));
}

spec fn authority_line(value: DeclarationAuthority) -> Line {
    match value {
        DeclarationAuthority::NativeSender(key) => line("{\"NativeSender\":"@).number(
            key.0 as nat,
            "}"@,
        ),
        DeclarationAuthority::LegacyGateway(provider) => line("{\"LegacyGateway\":"@).number(
            provider.0 as nat,
            "}"@,
        ),
    }
}

proof fn lemma_authorities(a: DeclarationAuthority, b: DeclarationAuthority)
    ensures
        authority_line(a).written() == a.json(),
        authority_line(a).like(authority_line(b)) || differ(authority_line(a).head(), authority_line(b).head()),
        authority_line(a) == authority_line(b) ==> a == b,
{
    lemma_ends();
    lemma_authority_heads();
    reveal_with_fuel(Line::written, 3);
    reveal_with_fuel(Line::head, 3);
    reveal_with_fuel(Line::like, 3);
    let (x, y) = (authority_line(a).head(), authority_line(b).head());
    assert(x[2] == y[2] || differ(x, y));
}

spec fn identifier_line(value: NamespacedIdentifier) -> Line {
    line("{\"namespace\":"@).quoted(value.namespace@).text(",\"name\":"@).quoted(value.name@).text(
        ",\"version\":"@,
    ).number(value.version as nat, "}"@)
}

proof fn lemma_identifiers(a: NamespacedIdentifier, b: NamespacedIdentifier)
    ensures
        identifier_line(a).written() == a.json(),
        identifier_line(a).like(identifier_line(b)),
        identifier_line(a) == identifier_line(b) ==> a.alike(&b),
{
    lemma_ends();
    reveal_with_fuel(Line::written, 8);
    reveal_with_fuel(Line::like, 8);
}

spec fn purpose_line(value: DeclaredPurpose) -> Line {
    match value {
        DeclaredPurpose::Unspecified => line("\"Unspecified\""@),
        DeclaredPurpose::Known(purpose) => match purpose {
            KnownPurpose::Personal => line("{\"Known\":\"Personal\"}"@),
            KnownPurpose::Transactional => line("{\"Known\":\"Transactional\"}"@),
            KnownPurpose::Request => line("{\"Known\":\"Request\"}"@),
            KnownPurpose::Bulk => line("{\"Known\":\"Bulk\"}"@),
        },
        DeclaredPurpose::Extension(identifier) => line("{\"Extension\":"@).within(
            identifier_line(identifier),
        ).text("}"@),
    }
}

proof fn lemma_purposes(a: DeclaredPurpose, b: DeclaredPurpose)
    ensures
        purpose_line(a).written() == a.json(),
        purpose_line(a).like(purpose_line(b)) || differ(purpose_line(a).head(), purpose_line(b).head()),
        purpose_line(a) == purpose_line(b) ==> a.alike(&b),
{
    if let DeclaredPurpose::Extension(i) = a {
        lemma_identifiers(i, i);
        if let DeclaredPurpose::Extension(j) = b {
            lemma_identifiers(i, j);
        }
    }
    lemma_purpose_heads();
    reveal_with_fuel(Line::written, 4);
    reveal_with_fuel(Line::head, 4);
    reveal_with_fuel(Line::like, 4);
    let (x, y) = (purpose_line(a).head(), purpose_line(b).head());
    assert(x[2] == y[2] || differ(x, y));
    assert(x[10] == y[10] || differ(x, y));
}

spec fn origin_line(value: OriginDeclaration) -> Line {
    line("{\"mode\":"@).within(mode_line(value.mode)).text(",\"authority\":"@).within(
        authority_line(value.authority),
    ).text("}"@)
}

proof fn lemma_origins(a: OriginDeclaration, b: OriginDeclaration)
    ensures
        origin_line(a).written() == a.json(),
        origin_line(a).like(origin_line(b)),
        origin_line(a) == origin_line(b) ==> a == b,
{
    lemma_modes(a.mode, b.mode);
    lemma_authorities(a.authority, b.authority);
    reveal_with_fuel(Line::written, 6);
    reveal_with_fuel(Line::like, 6);
}

spec fn criticality_line(value: ExtensionCriticality) -> Line {
    match value {
        ExtensionCriticality::NonCritical => line(",\"criticality\":\"NonCritical\"}"@),
        ExtensionCriticality::Critical => line(",\"criticality\":\"Critical\"}"@),
    }
}

spec fn present_line(value: PayloadSchema) -> Line {
    line("{\"id\":"@).within(identifier_line(value.id)).within(criticality_line(value.criticality))
}

proof fn lemma_present(a: PayloadSchema, b: PayloadSchema)
    ensures
        present_line(a).written() == a.json(),
        present_line(a).like(present_line(b)),
        present_line(a) == present_line(b) ==> a.alike(&b),
{
    lemma_identifiers(a.id, b.id);
    let (c, d) = (criticality_line(a.criticality), criticality_line(b.criticality));
    reveal_with_fuel(Line::head, 2);
    lemma_criticality_heads();
    reveal_with_fuel(Line::written, 4);
    assert(c.like(d) || differ(c.head(), d.head())) by {
        reveal_with_fuel(Line::like, 2);
        assert(c.head()[16] == d.head()[16] || differ(c.head(), d.head()));
    }
    reveal_with_fuel(Line::like, 4);
}

spec fn schema_line(value: Option<PayloadSchema>) -> Line {
    match value {
        Some(present) => present_line(present),
        None => line("null"@),
    }
}

proof fn lemma_schemas(a: Option<PayloadSchema>, b: Option<PayloadSchema>)
    ensures
        schema_line(a).written() == schema_json(a),
        schema_line(a).like(schema_line(b)) || differ(schema_line(a).head(), schema_line(b).head()),
        schema_line(a) == schema_line(b) ==> schemas_alike(a, b),
{
    lemma_schema_heads();
    if let Some(i) = a {
        lemma_present(i, i);
        if let Some(j) = b {
            lemma_present(i, j);
        }
    }
    reveal_with_fuel(Line::written, 2);
    reveal_with_fuel(Line::head, 4);
    reveal_with_fuel(Line::like, 2);
    let (x, y) = (schema_line(a).head(), schema_line(b).head());
    assert(x[0] == y[0] || differ(x, y));
}

spec fn declarations_line(value: MessageDeclarations) -> Line {
    line("{\"purpose\":"@).within(purpose_line(value.purpose)).text(",\"origin\":"@).within(
        origin_line(value.origin),
    ).text(",\"payload_schema\":"@).within(schema_line(value.payload_schema)).text("}"@)
}

proof fn lemma_declarations(a: MessageDeclarations, b: MessageDeclarations)
    ensures
        declarations_line(a).written() == a.json(),
        declarations_line(a).like(declarations_line(b)),
        declarations_line(a) == declarations_line(b) ==> a.alike(&b),
{
    lemma_purposes(a.purpose, b.purpose);
    lemma_origins(a.origin, b.origin);
    lemma_schemas(a.payload_schema, b.payload_schema);
    reveal_with_fuel(Line::written, 8);
    reveal_with_fuel(Line::like, 8);
}

spec fn reference_line(version: u16, bytes: Seq<u8>) -> Line {
    line("{\"derivation_version\":"@).number(version as nat, ",\"bytes\":"@).bytes(bytes).text("}"@)
}

proof fn lemma_references(v: u16, x: Seq<u8>, w: u16, y: Seq<u8>)
    ensures
        reference_line(v, x).written() == reference_json(v, x),
        reference_line(v, x).like(reference_line(w, y)),
        reference_line(v, x) == reference_line(w, y) ==> v == w && x == y,
{
    lemma_ends();
    lemma_byte_values(x);
    reveal_with_fuel(Line::written, 6);
    reveal_with_fuel(Line::like, 6);
    if reference_line(v, x) == reference_line(w, y) {
        lemma_values_injective(x, y);
    }
}

spec fn binding_line(value: ContentBinding) -> Line {
    line("{\"wire_version\":"@).number(value.wire_version.0 as nat, ",\"content_ref\":"@).number(
        value.content_ref.0 as nat,
        ",\"message_id\":"@,
    ).number(value.message_id.0 as nat, ",\"sender\":"@).number(
        value.sender.0 as nat,
        ",\"recipient\":"@,
    ).number(value.recipient.0 as nat, ",\"protocol_version\":"@).number(
        value.protocol_version.0 as nat,
        ",\"relationship\":"@,
    ).within(
        reference_line(value.relationship.derivation_version, value.relationship.bytes@),
    ).text(",\"content_scope\":"@).within(
        reference_line(value.content_scope.derivation_version, value.content_scope.bytes@),
    ).text(",\"sender_certificate\":"@).bytes(value.sender_certificate.0@).text(
        ",\"declarations\":"@,
    ).within(declarations_line(value.declarations)).text(",\"message_valid_until\":"@).number(
        value.message_valid_until.0.0 as nat,
        ",\"capability\":"@,
    ).optional(lane_number(value.capability), "}"@)
}

proof fn lemma_binding_written(a: ContentBinding)
    ensures
        binding_line(a).written() == a.json(),
{
    let (r, c) = (a.relationship, a.content_scope);
    lemma_references(r.derivation_version, r.bytes@, r.derivation_version, r.bytes@);
    lemma_references(c.derivation_version, c.bytes@, c.derivation_version, c.bytes@);
    lemma_byte_values(a.sender_certificate.0@);
    lemma_declarations(a.declarations, a.declarations);
    reveal_with_fuel(Line::written, 18);
}

proof fn lemma_bindings_like(a: ContentBinding, b: ContentBinding)
    ensures
        binding_line(a).like(binding_line(b)),
{
    lemma_ends();
    let (r, c) = (a.relationship, a.content_scope);
    let (s, d) = (b.relationship, b.content_scope);
    lemma_references(r.derivation_version, r.bytes@, s.derivation_version, s.bytes@);
    lemma_references(c.derivation_version, c.bytes@, d.derivation_version, d.bytes@);
    lemma_declarations(a.declarations, b.declarations);
    reveal_with_fuel(Line::like, 18);
}

proof fn lemma_binding_pieces(a: ContentBinding, b: ContentBinding)
    requires
        binding_line(a) == binding_line(b),
    ensures
        a.alike(&b),
{
    let (r, c) = (a.relationship, a.content_scope);
    let (s, d) = (b.relationship, b.content_scope);
    lemma_references(r.derivation_version, r.bytes@, s.derivation_version, s.bytes@);
    lemma_references(c.derivation_version, c.bytes@, d.derivation_version, d.bytes@);
    lemma_declarations(a.declarations, b.declarations);
    lemma_values_injective(a.sender_certificate.0@, b.sender_certificate.0@);
    lemma_array_32(r.bytes, s.bytes);
    lemma_array_32(c.bytes, d.bytes);
    lemma_array_32(a.sender_certificate.0, b.sender_certificate.0);
    assert(a.capability == b.capability);
}

spec fn envelope_line(value: EnvelopeModel) -> Line {
    line("{\"suite\":\"HpkeX25519HkdfSha256ChaCha20Poly1305V1\",\"sender_key\":"@).number(
        value.sender_key.0 as nat,
        ",\"recipient_key\":"@,
    ).number(value.recipient_key.0 as nat, ",\"encapsulated_key\":"@).bytes(
        value.encapsulated_key,
    ).text(",\"ciphertext\":"@).bytes(value.ciphertext).text("}"@)
}

proof fn lemma_envelopes(a: EnvelopeModel, b: EnvelopeModel)
    ensures
        envelope_line(a).written() == a.json(),
        envelope_line(a).like(envelope_line(b)),
        envelope_line(a) == envelope_line(b) ==> a == b,
{
    lemma_byte_values(a.encapsulated_key);
    lemma_byte_values(a.ciphertext);
    if envelope_line(a) == envelope_line(b) {
        lemma_values_injective(a.encapsulated_key, b.encapsulated_key);
        lemma_values_injective(a.ciphertext, b.ciphertext);
    }
    lemma_record_ends();
    reveal_with_fuel(Line::written, 8);
    reveal_with_fuel(Line::like, 8);
}

/// An encrypted record, piece by piece.
pub closed spec fn record_line(value: SealedModel) -> Line {
    line("{\"binding\":"@).within(binding_line(value.binding)).text(",\"envelope\":"@).within(
        envelope_line(value.envelope),
    ).text(",\"created_at\":"@).number(value.created_at.0 as nat, ",\"expires_at\":"@).number(
        value.expires_at.0 as nat,
        "}"@,
    )
}

impl SealedModel {
    /// The same record, but for how the texts of its declarations are held.
    pub open spec fn alike(self, other: Self) -> bool {
        &&& self.binding.alike(&other.binding)
        &&& self.envelope == other.envelope
        &&& self.created_at == other.created_at
        &&& self.expires_at == other.expires_at
    }
}

/// Encrypted records are written piece by piece, and are alike where their pieces are the same.
pub proof fn lemma_records(a: SealedModel, b: SealedModel)
    ensures
        record_line(a).written() == a.json(),
        record_line(a).like(record_line(b)),
        record_line(a) == record_line(b) ==> a.alike(b),
{
    reveal(SealedModel::json);
    lemma_record_ends();
    lemma_binding_written(a.binding);
    lemma_bindings_like(a.binding, b.binding);
    lemma_envelopes(a.envelope, b.envelope);
    assert(record_line(a).written() == a.json()) by {
        reveal_with_fuel(Line::written, 8);
    }
    assert(record_line(a).like(record_line(b))) by {
        reveal_with_fuel(Line::like, 8);
    }
    if record_line(a) == record_line(b) {
        lemma_binding_pieces(a.binding, b.binding);
    }
}

/// A record's encoding determines its binding, its envelope and its lifetime.
pub proof fn records_are_bound(a: SealedModel, b: SealedModel)
    requires
        a.json() == b.json(),
    ensures
        a.alike(b),
{
    lemma_records(a, b);
    lemma_records(b, a);
    lemma_lines(record_line(a), Seq::empty(), record_line(b), Seq::empty());
}

/// An endpoint's public key, piece by piece.
pub closed spec fn key_line(key: EndpointPublicKey) -> Line {
    line("{\"reference\":"@).number(key.reference.0 as nat, ",\"bytes\":"@).bytes(key.bytes@).text(
        "}"@,
    )
}

/// Public keys are written piece by piece, and are equal where their pieces are the same.
pub proof fn lemma_keys(a: EndpointPublicKey, b: EndpointPublicKey)
    ensures
        key_line(a).written() == a.json(),
        key_line(a).like(key_line(b)),
        key_line(a) == key_line(b) ==> a == b,
{
    lemma_ends();
    reveal_with_fuel(Line::written, 6);
    reveal_with_fuel(Line::like, 6);
    lemma_byte_values(a.bytes@);
    if key_line(a) == key_line(b) {
        lemma_values_injective(a.bytes@, b.bytes@);
        lemma_array_32(a.bytes, b.bytes);
    }
}

} // verus!
