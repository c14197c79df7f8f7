//! What a message declares of its purpose, its origin, and its payload.

use super::ids::{OperationalKeyRef, ProviderRef};
use crate::bytes::{
    be_bytes, lemma_be_delimits, lemma_be_len, lemma_byte_delimits, lemma_prefixed16_delimits,
    lemma_spans, lemma_split, lemma_utf8_injective, prefixed16, push_all, push_be, push_text, utf8,
};
use vstd::prelude::*;

verus! {

#[derive(Clone, Copy, Debug, PartialEq, Eq, Structural)]
pub enum DeclarationError {
    InvalidIdentifier,
    UnsupportedLegacyOrigin,
}

#[derive(Clone, Copy, Debug, PartialEq, Eq, PartialOrd, Ord, Hash, Structural)]
pub enum KnownPurpose {
    Personal,
    Transactional,
    Request,
    Bulk,
}

impl KnownPurpose {
    pub open spec fn byte(self) -> u8 {
        match self {
            KnownPurpose::Personal => 0,
            KnownPurpose::Transactional => 1,
            KnownPurpose::Request => 2,
            KnownPurpose::Bulk => 3,
        }
    }

    pub fn code(self) -> (code: u8)
        ensures
            code == self.byte(),
    {
        match self {
            KnownPurpose::Personal => 0,
            KnownPurpose::Transactional => 1,
            KnownPurpose::Request => 2,
            KnownPurpose::Bulk => 3,
        }
    }
}

/// A byte that an identifier component may hold: lower case, digit, dot, hyphen, underscore.
pub open spec fn component_byte(byte: u8) -> bool {
    (0x61 <= byte <= 0x7a) || (0x30 <= byte <= 0x39) || byte == 0x2e || byte == 0x2d || byte == 0x5f
}

/// A component of an identifier: one to 64 bytes of the component alphabet.
pub open spec fn valid_component(bytes: Seq<u8>) -> bool {
    &&& 1 <= bytes.len() <= 64
    &&& forall|i: int| 0 <= i < bytes.len() ==> component_byte(#[trigger] bytes[i])
}

fn valid_identifier_component(value: &str) -> (valid: bool)
    ensures
        valid == valid_component(utf8(value@)),
{
    let bytes = value.as_bytes();
    if bytes.len() == 0 || bytes.len() > 64 {
        return false;
    }
    let mut i: usize = 0;
    while i < bytes.len()
        invariant
            bytes@ == utf8(value@),
            0 <= i <= bytes@.len(),
            forall|j: int| 0 <= j < i ==> component_byte(#[trigger] bytes@[j]),
        decreases bytes@.len() - i,
    {
        let b = bytes[i];
        if !((0x61 <= b && b <= 0x7a) || (0x30 <= b && b <= 0x39) || b == 0x2e || b == 0x2d || b
            == 0x5f) {
            assert(!component_byte(bytes@[i as int]));
            return false;
        }
        i += 1;
    }
    true
}

/// A versioned name in a namespace, for extensions.
#[derive(Debug, PartialEq, Eq, PartialOrd, Ord, Hash)]
pub struct NamespacedIdentifier {
    pub namespace: String,
    pub name: String,
    pub version: u16,
}

impl Clone for NamespacedIdentifier {
    fn clone(&self) -> (copy: Self)
        ensures
            copy == *self,
    {
        NamespacedIdentifier {
            namespace: self.namespace.clone(),
            name: self.name.clone(),
            version: self.version,
        }
    }
}

impl NamespacedIdentifier {
    pub open spec fn valid(&self) -> bool {
        &&& self.version != 0
        &&& valid_component(utf8(self.namespace@))
        &&& valid_component(utf8(self.name@))
    }

    pub open spec fn canonical(&self) -> Seq<u8> {
        prefixed16(utf8(self.namespace@)) + prefixed16(utf8(self.name@)) + be_bytes(
            self.version as nat,
            2,
        )
    }

    pub open spec fn alike(&self, other: &Self) -> bool {
        self.namespace@ == other.namespace@ && self.name@ == other.name@ && self.version
            == other.version
    }

    /// Constructs a bounded, portable extension identifier. Empty, oversized, non-ASCII and
    /// unversioned values are refused.
    pub fn new(namespace: &str, name: &str, version: u16) -> (result: Result<
        Self,
        DeclarationError,
    >)
        ensures
            result matches Ok(id) ==> id.namespace@ == namespace@ && id.name@ == name@ && id.version
                == version && id.valid(),
            result is Ok <==> version != 0 && valid_component(utf8(namespace@)) && valid_component(
                utf8(name@),
            ),
            result matches Err(e) ==> e == DeclarationError::InvalidIdentifier,
    {
        let value = NamespacedIdentifier {
            namespace: namespace.to_owned(),
            name: name.to_owned(),
            version,
        };
        match value.validate() {
            Ok(()) => Ok(value),
            Err(e) => Err(e),
        }
    }

    pub fn namespace(&self) -> (text: &str)
        ensures
            text@ == self.namespace@,
    {
        self.namespace.as_str()
    }

    pub fn name(&self) -> (text: &str)
        ensures
            text@ == self.name@,
    {
        self.name.as_str()
    }

    pub fn version(&self) -> (version: u16)
        ensures
            version == self.version,
    {
        self.version
    }

    /// Validates the bounded identifier grammar.
    pub fn validate(&self) -> (result: Result<(), DeclarationError>)
        ensures
            result is Ok <==> self.valid(),
            result matches Err(e) ==> e == DeclarationError::InvalidIdentifier,
    {
        if self.version == 0 || !valid_identifier_component(self.namespace.as_str())
            || !valid_identifier_component(self.name.as_str()) {
            return Err(DeclarationError::InvalidIdentifier);
        }
        Ok(())
    }

    /// Appends the self-delimiting canonical identifier representation.
    pub fn append_canonical(&self, bytes: &mut Vec<u8>) -> (result: Result<(), DeclarationError>)
        ensures
            result is Ok <==> self.valid(),
            result is Ok ==> final(bytes)@ == old(bytes)@ + self.canonical(),
            result matches Err(e) ==> e == DeclarationError::InvalidIdentifier && final(bytes)@
                == old(bytes)@,
    {
        match self.validate() {
            Ok(()) => {},
            Err(e) => return Err(e),
        }
        let ghost before = bytes@;
        match push_declaration_bytes(bytes, self.namespace.as_str().as_bytes()) {
            Ok(()) => {},
            Err(e) => return Err(e),
        }
        match push_declaration_bytes(bytes, self.name.as_str().as_bytes()) {
            Ok(()) => {},
            Err(e) => return Err(e),
        }
        push_be(bytes, self.version as u128, 2);
        assert(bytes@ =~= before + self.canonical());
        Ok(())
    }

    /// Whether two identifiers are the same.
    pub fn same(&self, other: &Self) -> (same: bool)
        ensures
            same == self.alike(other),
    {
        self.namespace == other.namespace && self.name == other.name && self.version
            == other.version
    }
}

fn push_declaration_bytes(target: &mut Vec<u8>, value: &[u8]) -> (result: Result<
    (),
    DeclarationError,
>)
    ensures
        result is Ok <==> value@.len() <= u16::MAX,
        result is Ok ==> final(target)@ == old(target)@ + prefixed16(value@),
        result matches Err(e) ==> e == DeclarationError::InvalidIdentifier && final(target)@
            == old(target)@,
{
    if value.len() > 65535 {
        return Err(DeclarationError::InvalidIdentifier);
    }
    let ghost before = target@;
    push_be(target, value.len() as u128, 2);
    push_all(target, value);
    assert(target@ =~= before + prefixed16(value@));
    Ok(())
}

/// Canonical identifiers delimit themselves: whatever follows, equal bytes come from equal
/// identifiers and equal remainders.
pub proof fn identifiers_delimit_themselves(
    a: NamespacedIdentifier,
    x: Seq<u8>,
    b: NamespacedIdentifier,
    y: Seq<u8>,
)
    requires
        a.valid(),
        b.valid(),
        a.canonical() + x == b.canonical() + y,
    ensures
        a.alike(&b),
        x == y,
{
    let (an, bn) = (utf8(a.namespace@), utf8(b.namespace@));
    let (am, bm) = (utf8(a.name@), utf8(b.name@));
    let (av, bv) = (be_bytes(a.version as nat, 2), be_bytes(b.version as nat, 2));
    assert(a.canonical() + x =~= prefixed16(an) + (prefixed16(am) + (av + x)));
    assert(b.canonical() + y =~= prefixed16(bn) + (prefixed16(bm) + (bv + y)));
    lemma_prefixed16_delimits(an, prefixed16(am) + (av + x), bn, prefixed16(bm) + (bv + y));
    lemma_prefixed16_delimits(am, av + x, bm, bv + y);
    lemma_spans();
    lemma_be_delimits(a.version as nat, x, b.version as nat, y, 2);
    lemma_utf8_injective(a.namespace@, b.namespace@);
    lemma_utf8_injective(a.name@, b.name@);
}

#[derive(Debug, PartialEq, Eq, PartialOrd, Ord, Hash)]
pub enum DeclaredPurpose {
    Unspecified,
    Known(KnownPurpose),
    Extension(NamespacedIdentifier),
}

impl Clone for DeclaredPurpose {
    fn clone(&self) -> (copy: Self)
        ensures
            copy == *self,
    {
        match self {
            DeclaredPurpose::Unspecified => DeclaredPurpose::Unspecified,
            DeclaredPurpose::Known(purpose) => DeclaredPurpose::Known(*purpose),
            DeclaredPurpose::Extension(identifier) => {
                DeclaredPurpose::Extension(identifier.clone())
            },
        }
    }
}

impl DeclaredPurpose {
    pub open spec fn valid(&self) -> bool {
        self matches DeclaredPurpose::Extension(identifier) ==> identifier.valid()
    }

    pub open spec fn canonical(&self) -> Seq<u8> {
        match self {
            DeclaredPurpose::Unspecified => seq![0u8],
            DeclaredPurpose::Known(purpose) => seq![1u8, purpose.byte()],
            DeclaredPurpose::Extension(identifier) => seq![2u8] + identifier.canonical(),
        }
    }

    pub open spec fn alike(&self, other: &Self) -> bool {
        match (self, other) {
            (DeclaredPurpose::Unspecified, DeclaredPurpose::Unspecified) => true,
            (DeclaredPurpose::Known(a), DeclaredPurpose::Known(b)) => a == b,
            (DeclaredPurpose::Extension(a), DeclaredPurpose::Extension(b)) => a.alike(b),
            _ => false,
        }
    }

    /// Validates an extension purpose identifier when present.
    pub fn validate(&self) -> (result: Result<(), DeclarationError>)
        ensures
            result is Ok <==> self.valid(),
            result matches Err(e) ==> e == DeclarationError::InvalidIdentifier,
    {
        match self {
            DeclaredPurpose::Extension(identifier) => identifier.validate(),
            _ => Ok(()),
        }
    }

    /// Appends the canonical purpose representation.
    pub fn append_canonical(&self, bytes: &mut Vec<u8>) -> (result: Result<(), DeclarationError>)
        ensures
            result is Ok <==> self.valid(),
            result is Ok ==> final(bytes)@ == old(bytes)@ + self.canonical(),
            result matches Err(e) ==> e == DeclarationError::InvalidIdentifier && final(bytes)@
                == old(bytes)@,
    {
        match self.validate() {
            Ok(()) => {},
            Err(e) => return Err(e),
        }
        let ghost before = bytes@;
        match self {
            DeclaredPurpose::Unspecified => {
                bytes.push(0);
            },
            DeclaredPurpose::Known(purpose) => {
                bytes.push(1);
                bytes.push(purpose.code());
            },
            DeclaredPurpose::Extension(identifier) => {
                bytes.push(2);
                match identifier.append_canonical(bytes) {
                    Ok(()) => {},
                    Err(e) => return Err(e),
                }
            },
        }
        assert(bytes@ =~= before + self.canonical());
        Ok(())
    }

    /// Whether two purposes are the same.
    pub fn same(&self, other: &Self) -> (same: bool)
        ensures
            same == self.alike(other),
    {
        match (self, other) {
            (DeclaredPurpose::Unspecified, DeclaredPurpose::Unspecified) => true,
            (DeclaredPurpose::Known(a), DeclaredPurpose::Known(b)) => *a == *b,
            (DeclaredPurpose::Extension(a), DeclaredPurpose::Extension(b)) => a.same(b),
            _ => false,
        }
    }
}

#[derive(Clone, Copy, Debug, PartialEq, Eq, PartialOrd, Ord, Hash, Structural)]
pub enum OriginMode {
    HumanInitiated,
    AgentDraftHumanApproved,
    AutonomousAgent,
    AutomatedSystem,
    LegacyOrUnspecified,
}

impl OriginMode {
    pub open spec fn byte(self) -> u8 {
        match self {
            OriginMode::HumanInitiated => 0,
            OriginMode::AgentDraftHumanApproved => 1,
            OriginMode::AutonomousAgent => 2,
            OriginMode::AutomatedSystem => 3,
            OriginMode::LegacyOrUnspecified => 4,
        }
    }

    pub fn code(self) -> (code: u8)
        ensures
            code == self.byte(),
    {
        match self {
            OriginMode::HumanInitiated => 0,
            OriginMode::AgentDraftHumanApproved => 1,
            OriginMode::AutonomousAgent => 2,
            OriginMode::AutomatedSystem => 3,
            OriginMode::LegacyOrUnspecified => 4,
        }
    }
}

/// Who answers for a declaration.
#[derive(Clone, Copy, Debug, PartialEq, Eq, PartialOrd, Ord, Hash, Structural)]
pub enum DeclarationAuthority {
    NativeSender(OperationalKeyRef),
    LegacyGateway(ProviderRef),
}

impl DeclarationAuthority {
    pub open spec fn canonical(self) -> Seq<u8> {
        match self {
            DeclarationAuthority::NativeSender(key) => seq![0u8] + be_bytes(key.0 as nat, 16),
            DeclarationAuthority::LegacyGateway(provider) => seq![1u8] + be_bytes(
                provider.0 as nat,
                16,
            ),
        }
    }

    pub fn append_canonical(self, bytes: &mut Vec<u8>)
        ensures
            final(bytes)@ == old(bytes)@ + self.canonical(),
    {
        let ghost before = bytes@;
        match self {
            DeclarationAuthority::NativeSender(key) => {
                bytes.push(0);
                push_be(bytes, key.0, 16);
            },
            DeclarationAuthority::LegacyGateway(provider) => {
                bytes.push(1);
                push_be(bytes, provider.0, 16);
            },
        }
        assert(bytes@ =~= before + self.canonical());
    }
}

#[derive(Clone, Copy, Debug, PartialEq, Eq, PartialOrd, Ord, Hash, Structural)]
pub struct OriginDeclaration {
    pub mode: OriginMode,
    pub authority: DeclarationAuthority,
}

#[derive(Clone, Copy, Debug, PartialEq, Eq, PartialOrd, Ord, Hash, Structural)]
pub enum ExtensionCriticality {
    NonCritical,
    Critical,
}

#[derive(Debug, PartialEq, Eq, PartialOrd, Ord, Hash)]
pub struct PayloadSchema {
    pub id: NamespacedIdentifier,
    pub criticality: ExtensionCriticality,
}

impl Clone for PayloadSchema {
    fn clone(&self) -> (copy: Self)
        ensures
            copy == *self,
    {
        PayloadSchema { id: self.id.clone(), criticality: self.criticality }
    }
}

impl PayloadSchema {
    pub open spec fn criticality_byte(&self) -> u8 {
        match self.criticality {
            ExtensionCriticality::NonCritical => 0,
            ExtensionCriticality::Critical => 1,
        }
    }

    pub open spec fn canonical(&self) -> Seq<u8> {
        self.id.canonical() + seq![self.criticality_byte()]
    }

    pub open spec fn alike(&self, other: &Self) -> bool {
        self.id.alike(&other.id) && self.criticality == other.criticality
    }

    /// Validates the schema identifier.
    pub fn validate(&self) -> (result: Result<(), DeclarationError>)
        ensures
            result is Ok <==> self.id.valid(),
            result matches Err(e) ==> e == DeclarationError::InvalidIdentifier,
    {
        self.id.validate()
    }

    /// Appends the canonical schema representation.
    pub fn append_canonical(&self, bytes: &mut Vec<u8>) -> (result: Result<(), DeclarationError>)
        ensures
            result is Ok <==> self.id.valid(),
            result is Ok ==> final(bytes)@ == old(bytes)@ + self.canonical(),
            result matches Err(e) ==> e == DeclarationError::InvalidIdentifier && final(bytes)@
                == old(bytes)@,
    {
        let ghost before = bytes@;
        match self.id.append_canonical(bytes) {
            Ok(()) => {},
            Err(e) => return Err(e),
        }
        bytes.push(
            match self.criticality {
                ExtensionCriticality::NonCritical => 0,
                ExtensionCriticality::Critical => 1,
            },
        );
        assert(bytes@ =~= before + self.canonical());
        Ok(())
    }

    /// Whether two schemas are the same.
    pub fn same(&self, other: &Self) -> (same: bool)
        ensures
            same == self.alike(other),
    {
        self.id.same(&other.id) && self.criticality == other.criticality
    }
}

/// Whether two optional schemas are the same.
pub open spec fn schemas_alike(a: Option<PayloadSchema>, b: Option<PayloadSchema>) -> bool {
    match (a, b) {
        (Some(x), Some(y)) => x.alike(&y),
        (None, None) => true,
        _ => false,
    }
}

#[derive(Debug, PartialEq, Eq, Hash)]
pub struct MessageDeclarations {
    pub purpose: DeclaredPurpose,
    pub origin: OriginDeclaration,
    pub payload_schema: Option<PayloadSchema>,
}

/// The domain tag of canonical message declarations.
pub open spec fn declarations_tag() -> Seq<u8> {
    utf8("cs-mail/message-declarations/v1"@)
}

impl Clone for MessageDeclarations {
    fn clone(&self) -> (copy: Self)
        ensures
            copy == *self,
    {
        MessageDeclarations {
            purpose: self.purpose.clone(),
            origin: self.origin,
            payload_schema: match &self.payload_schema {
                Some(schema) => Some(schema.clone()),
                None => None,
            },
        }
    }
}

impl MessageDeclarations {
    /// Every identifier is well formed.
    pub open spec fn identifiers_valid(&self) -> bool {
        &&& self.purpose.valid()
        &&& self.payload_schema matches Some(schema) ==> schema.id.valid()
    }

    /// A gateway for legacy mail cannot vouch for how a message came about.
    pub open spec fn origin_supported(&self) -> bool {
        self.origin.authority is LegacyGateway ==> self.origin.mode
            == OriginMode::LegacyOrUnspecified
    }

    pub open spec fn check(&self) -> Result<(), DeclarationError> {
        if !self.identifiers_valid() {
            Err(DeclarationError::InvalidIdentifier)
        } else if !self.origin_supported() {
            Err(DeclarationError::UnsupportedLegacyOrigin)
        } else {
            Ok(())
        }
    }

    pub open spec fn schema_bytes(&self) -> Seq<u8> {
        match self.payload_schema {
            Some(schema) => seq![1u8] + schema.canonical(),
            None => seq![0u8],
        }
    }

    pub open spec fn canonical(&self) -> Seq<u8> {
        declarations_tag() + self.purpose.canonical() + seq![self.origin.mode.byte()]
            + self.origin.authority.canonical() + self.schema_bytes()
    }

    pub open spec fn alike(&self, other: &Self) -> bool {
        &&& self.purpose.alike(&other.purpose)
        &&& self.origin == other.origin
        &&& schemas_alike(self.payload_schema, other.payload_schema)
    }

    /// Validates every declaration and the authority-specific provenance rules.
    pub fn validate(&self) -> (result: Result<(), DeclarationError>)
        ensures
            result == self.check(),
    {
        match self.purpose.validate() {
            Ok(()) => {},
            Err(e) => return Err(e),
        }
        match &self.payload_schema {
            Some(schema) => {
                match schema.validate() {
                    Ok(()) => {},
                    Err(e) => return Err(e),
                }
            },
            None => {},
        }
        match self.origin.authority {
            DeclarationAuthority::LegacyGateway(_) => {
                if self.origin.mode != OriginMode::LegacyOrUnspecified {
                    return Err(DeclarationError::UnsupportedLegacyOrigin);
                }
            },
            DeclarationAuthority::NativeSender(_) => {},
        }
        Ok(())
    }

    /// Returns the domain-separated canonical declaration representation.
    pub fn canonical_bytes(&self) -> (result: Result<Vec<u8>, DeclarationError>)
        ensures
            match self.check() {
                Ok(()) => result matches Ok(bytes) && bytes@ == self.canonical(),
                Err(e) => result == Err::<Vec<u8>, DeclarationError>(e),
            },
    {
        match self.validate() {
            Ok(()) => {},
            Err(e) => return Err(e),
        }
        let mut bytes: Vec<u8> = Vec::with_capacity(96);
        push_text(&mut bytes, "cs-mail/message-declarations/v1");
        match self.purpose.append_canonical(&mut bytes) {
            Ok(()) => {},
            Err(e) => return Err(e),
        }
        bytes.push(self.origin.mode.code());
        self.origin.authority.append_canonical(&mut bytes);
        match &self.payload_schema {
            Some(schema) => {
                bytes.push(1);
                match schema.append_canonical(&mut bytes) {
                    Ok(()) => {},
                    Err(e) => return Err(e),
                }
            },
            None => {
                bytes.push(0);
            },
        }
        assert(bytes@ =~= self.canonical());
        Ok(bytes)
    }

    /// Whether two declarations are the same.
    pub fn same(&self, other: &Self) -> (same: bool)
        ensures
            same == self.alike(other),
    {
        if !self.purpose.same(&other.purpose) || self.origin != other.origin {
            return false;
        }
        match (&self.payload_schema, &other.payload_schema) {
            (Some(a), Some(b)) => a.same(b),
            (None, None) => true,
            _ => false,
        }
    }
}

spec fn purpose_head(a: DeclaredPurpose) -> u8 {
    match a {
        DeclaredPurpose::Unspecified => 0,
        DeclaredPurpose::Known(_) => 1,
        DeclaredPurpose::Extension(_) => 2,
    }
}

proof fn lemma_purpose_head(a: DeclaredPurpose, x: Seq<u8>)
    ensures
        (a.canonical() + x)[0] == purpose_head(a),
{
    assert(a.canonical().len() > 0);
    assert((a.canonical() + x)[0] == a.canonical()[0]);
    assert(a.canonical()[0] == purpose_head(a));
}

proof fn lemma_nest(a: Seq<u8>, b: Seq<u8>, c: Seq<u8>, d: Seq<u8>, e: Seq<u8>)
    ensures
        a + b + c + d + e == a + (b + (c + (d + e))),
{
    assert(a + b + c + d + e =~= a + (b + (c + (d + e))));
}

/// Canonical authorities delimit themselves.
pub proof fn authorities_delimit_themselves(
    a: DeclarationAuthority,
    x: Seq<u8>,
    b: DeclarationAuthority,
    y: Seq<u8>,
)
    requires
        a.canonical() + x == b.canonical() + y,
    ensures
        a == b,
        x == y,
{
    broadcast use lemma_be_len;

    let (ak, av) = match a {
        DeclarationAuthority::NativeSender(key) => (0u8, key.0),
        DeclarationAuthority::LegacyGateway(provider) => (1u8, provider.0),
    };
    let (bk, bv) = match b {
        DeclarationAuthority::NativeSender(key) => (0u8, key.0),
        DeclarationAuthority::LegacyGateway(provider) => (1u8, provider.0),
    };
    lemma_split(a.canonical(), x, b.canonical(), y);
    lemma_byte_delimits(ak, be_bytes(av as nat, 16), bk, be_bytes(bv as nat, 16));
    lemma_spans();
    crate::bytes::lemma_be_injective(av as nat, bv as nat, 16);
}

/// Canonical optional schemas delimit themselves.
proof fn lemma_schemas_delimit(
    a: MessageDeclarations,
    x: Seq<u8>,
    b: MessageDeclarations,
    y: Seq<u8>,
)
    requires
        a.identifiers_valid(),
        b.identifiers_valid(),
        a.schema_bytes() + x == b.schema_bytes() + y,
    ensures
        schemas_alike(a.payload_schema, b.payload_schema),
        x == y,
{
    let (at, bt) = (a.schema_bytes(), b.schema_bytes());
    assert((at + x)[0] == at[0]);
    assert((bt + y)[0] == bt[0]);
    match (a.payload_schema, b.payload_schema) {
        (Some(p), Some(q)) => {
            let (pc, qc) = (seq![p.criticality_byte()], seq![q.criticality_byte()]);
            assert(at + x =~= seq![1u8] + (p.id.canonical() + (pc + x)));
            assert(bt + y =~= seq![1u8] + (q.id.canonical() + (qc + y)));
            lemma_byte_delimits(1, p.id.canonical() + (pc + x), 1, q.id.canonical() + (qc + y));
            identifiers_delimit_themselves(p.id, pc + x, q.id, qc + y);
            lemma_byte_delimits(p.criticality_byte(), x, q.criticality_byte(), y);
        },
        (Some(p), None) => {
            assert(at[0] == 1);
        },
        (None, Some(q)) => {
            assert(bt[0] == 1);
        },
        (None, None) => {
            lemma_split(at, x, bt, y);
        },
    }
}

/// Canonical purposes delimit themselves.
pub proof fn purposes_delimit_themselves(
    a: DeclaredPurpose,
    x: Seq<u8>,
    b: DeclaredPurpose,
    y: Seq<u8>,
)
    requires
        a.valid(),
        b.valid(),
        a.canonical() + x == b.canonical() + y,
    ensures
        a.alike(&b),
        x == y,
{
    lemma_purpose_head(a, x);
    lemma_purpose_head(b, y);
    match (a, b) {
        (DeclaredPurpose::Unspecified, DeclaredPurpose::Unspecified) => {
            lemma_split(a.canonical(), x, b.canonical(), y);
        },
        (DeclaredPurpose::Known(p), DeclaredPurpose::Known(q)) => {
            lemma_split(a.canonical(), x, b.canonical(), y);
            assert(a.canonical()[1] == b.canonical()[1]);
        },
        (DeclaredPurpose::Extension(p), DeclaredPurpose::Extension(q)) => {
            assert(a.canonical() + x =~= seq![2u8] + (p.canonical() + x));
            assert(b.canonical() + y =~= seq![2u8] + (q.canonical() + y));
            lemma_byte_delimits(2, p.canonical() + x, 2, q.canonical() + y);
            identifiers_delimit_themselves(p, x, q, y);
        },
        _ => {},
    }
}

/// The canonical bytes of a message's declarations delimit themselves and determine the
/// declarations.
pub proof fn declarations_delimit_themselves(
    a: MessageDeclarations,
    x: Seq<u8>,
    b: MessageDeclarations,
    y: Seq<u8>,
)
    requires
        a.check() is Ok,
        b.check() is Ok,
        a.canonical() + x == b.canonical() + y,
    ensures
        a.alike(&b),
        x == y,
{
    let tag = declarations_tag();
    let (ap, bp) = (a.purpose.canonical(), b.purpose.canonical());
    let (ao, bo) = (seq![a.origin.mode.byte()], seq![b.origin.mode.byte()]);
    let (aa, ba) = (a.origin.authority.canonical(), b.origin.authority.canonical());
    let (at, bt) = (a.schema_bytes(), b.schema_bytes());
    lemma_nest(tag, ap, ao, aa, at);
    lemma_nest(tag, bp, bo, ba, bt);
    lemma_tail_in(tag, ap, ao, aa, at, x);
    lemma_tail_in(tag, bp, bo, ba, bt, y);
    let (a2, b2) = (aa + (at + x), ba + (bt + y));
    lemma_split(tag, ap + (ao + a2), tag, bp + (bo + b2));
    purposes_delimit_themselves(a.purpose, ao + a2, b.purpose, bo + b2);
    lemma_byte_delimits(a.origin.mode.byte(), a2, b.origin.mode.byte(), b2);
    authorities_delimit_themselves(a.origin.authority, at + x, b.origin.authority, bt + y);
    lemma_schemas_delimit(a, x, b, y);
}

proof fn lemma_tail_in(
    a: Seq<u8>,
    b: Seq<u8>,
    c: Seq<u8>,
    d: Seq<u8>,
    e: Seq<u8>,
    x: Seq<u8>,
)
    ensures
        a + (b + (c + (d + e))) + x == a + (b + (c + (d + (e + x)))),
{
    assert(a + (b + (c + (d + e))) + x =~= a + (b + (c + (d + (e + x)))));
}

/// Declarations with the same canonical bytes are the same declarations.
pub proof fn declarations_are_canonical(a: MessageDeclarations, b: MessageDeclarations)
    requires
        a.check() is Ok,
        b.check() is Ok,
        a.canonical() == b.canonical(),
    ensures
        a.alike(&b),
{
    let e = Seq::<u8>::empty();
    assert(a.canonical() + e =~= a.canonical());
    assert(b.canonical() + e =~= b.canonical());
    declarations_delimit_themselves(a, e, b, e);
}

/// The digest of a message's declarations.
#[derive(Clone, Copy, Debug, PartialEq, Eq, PartialOrd, Ord, Hash)]
pub struct MessageDeclarationDigest(pub [u8; 32]);

impl MessageDeclarationDigest {
    /// Whether two digests are the same.
    pub fn same(&self, other: &Self) -> (same: bool)
        ensures
            same == (*self == *other),
    {
        crate::bytes::same_32(&self.0, &other.0)
    }
}

/// Declarations are well formed exactly if their identifiers are and a gateway for legacy mail
/// claims nothing of how the message came about.
pub proof fn gateways_declare_no_origin(declarations: MessageDeclarations)
    ensures
        declarations.check() is Ok ==> (declarations.origin.authority is LegacyGateway
            ==> declarations.origin.mode == OriginMode::LegacyOrUnspecified),
        declarations.check() is Ok <==> (declarations.purpose is Extension ==> {
            let id = declarations.purpose->Extension_0;
            id.version != 0 && 1 <= utf8(id.namespace@).len() <= 64 && 1 <= utf8(id.name@).len()
                <= 64 && declarations.purpose.valid()
        }) && (declarations.payload_schema is Some ==> {
            let id = declarations.payload_schema->Some_0.id;
            id.version != 0 && 1 <= utf8(id.namespace@).len() <= 64 && 1 <= utf8(id.name@).len()
                <= 64 && id.valid()
        }) && (declarations.origin.authority is NativeSender || declarations.origin.mode
            == OriginMode::LegacyOrUnspecified),
{
}

/// A component of an identifier has between one and 64 bytes, each a small letter, a digit, a dot, a
/// hyphen or an underscore.
pub proof fn components_are_plain(bytes: Seq<u8>)
    ensures
        valid_component(bytes) <==> 1 <= bytes.len() <= 64 && forall|i: int|
            0 <= i < bytes.len() ==> {
                let b = #[trigger] bytes[i];
                (0x61 <= b && b <= 0x7a) || (0x30 <= b && b <= 0x39) || b == 0x2e || b == 0x2d || b
                    == 0x5f
            },
{
    if valid_component(bytes) {
        assert forall|i: int| 0 <= i < bytes.len() implies {
            let b = #[trigger] bytes[i];
            (0x61 <= b && b <= 0x7a) || (0x30 <= b && b <= 0x39) || b == 0x2e || b == 0x2d || b
                == 0x5f
        } by {
            assert(component_byte(bytes[i]));
        }
    } else if 1 <= bytes.len() <= 64 {
        let i = choose|i: int| 0 <= i < bytes.len() && !component_byte(#[trigger] bytes[i]);
        assert(!component_byte(bytes[i]));
    }
}

/// The numbers under which purposes, origins, authorities and criticality are written.
pub proof fn declarations_are_numbered(
    purpose: KnownPurpose,
    mode: OriginMode,
    authority: DeclarationAuthority,
    schema: PayloadSchema,
)
    ensures
        purpose.byte() == 0 <==> purpose == KnownPurpose::Personal,
        purpose.byte() == 1 <==> purpose == KnownPurpose::Transactional,
        purpose.byte() == 2 <==> purpose == KnownPurpose::Request,
        purpose.byte() == 3 <==> purpose == KnownPurpose::Bulk,
        mode.byte() == 0 <==> mode == OriginMode::HumanInitiated,
        mode.byte() == 1 <==> mode == OriginMode::AgentDraftHumanApproved,
        mode.byte() == 2 <==> mode == OriginMode::AutonomousAgent,
        mode.byte() == 3 <==> mode == OriginMode::AutomatedSystem,
        mode.byte() == 4 <==> mode == OriginMode::LegacyOrUnspecified,
        authority.canonical()[0] == 0 <==> authority is NativeSender,
        authority.canonical()[0] == 1 <==> authority is LegacyGateway,
        schema.criticality_byte() == 1 <==> schema.criticality == ExtensionCriticality::Critical,
        schema.criticality_byte() == 0 <==> schema.criticality == ExtensionCriticality::NonCritical,
{
    match authority {
        DeclarationAuthority::NativeSender(key) => {
            assert(authority.canonical()[0] == seq![0u8][0]);
        },
        DeclarationAuthority::LegacyGateway(provider) => {
            assert(authority.canonical()[0] == seq![1u8][0]);
        },
    }
}

} // verus!
