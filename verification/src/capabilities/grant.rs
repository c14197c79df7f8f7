//! Lane grants: what a recipient signs to let a sender through.

use crate::adapters::domain::DomainIdentity;
use crate::bytes::{
    be_bytes, lemma_32_delimits, lemma_assoc, lemma_be_len, lemma_byte_delimits,
    lemma_prefixed32_delimits, lemma_spans, lemma_split, lemma_tail_32, lemma_tail_be,
    lemma_tail_byte, lemma_utf8_injective, prefixed32, push_32, push_all, push_be, same_32,
    text_bytes, utf8,
};
use crate::crypto::{ed25519_accepts, ed25519_key_valid, is_public_key, verify};
use crate::primitives::amounts::{CanonicalTime, Duration};
use crate::primitives::declarations::{
    purposes_delimit_themselves, DeclarationAuthority, DeclaredPurpose, OriginMode,
};
use crate::primitives::ids::{LaneId, OperationalKeyRef, ProtocolIdentity, ProviderRef};
use crate::primitives::versions::{ProtocolVersion, Version};
use vstd::prelude::*;

verus! {

#[derive(Clone, Copy, Debug, PartialEq, Eq, Structural)]
pub enum CapabilityError {
    InvalidGrant,
    InvalidPublicKey,
    InvalidSignature,
    DuplicateConflict,
    MissingLane,
    NotAuthorized,
    RateLimitExceeded,
    CapacityExceeded,
    ArithmeticOverflow,
    InvalidDeclaration,
    ScopeMismatch,
    MessageValidityClosed,
    UnsupportedCriticalExtension,
    UnsupportedWireVersion,
}

/// A pairwise handle under which a recipient knows a sender.
#[derive(Clone, Copy, Debug, PartialEq, Eq)]
pub struct ScopedHandle(pub [u8; 32]);

#[derive(Debug, PartialEq, Eq)]
pub enum LaneSubject {
    Native(ScopedHandle),
    LegacyDomain(DomainIdentity),
}

impl Clone for LaneSubject {
    fn clone(&self) -> (copy: Self)
        ensures
            copy == *self,
    {
        match self {
            LaneSubject::Native(handle) => LaneSubject::Native(*handle),
            LaneSubject::LegacyDomain(domain) => LaneSubject::LegacyDomain(domain.clone()),
        }
    }
}

impl LaneSubject {
    pub open spec fn canonical(self) -> Seq<u8> {
        match self {
            LaneSubject::Native(handle) => seq![0u8] + handle.0@,
            LaneSubject::LegacyDomain(domain) => seq![1u8] + prefixed32(utf8(domain.0@)),
        }
    }

    /// A domain name can be written out.
    pub open spec fn encodable(self) -> bool {
        self matches LaneSubject::LegacyDomain(domain) ==> utf8(domain.0@).len() <= u32::MAX
    }

    pub open spec fn alike(self, other: Self) -> bool {
        match (self, other) {
            (LaneSubject::Native(a), LaneSubject::Native(b)) => a == b,
            (LaneSubject::LegacyDomain(a), LaneSubject::LegacyDomain(b)) => a.0@ == b.0@,
            _ => false,
        }
    }

    /// Whether two subjects are the same.
    pub fn same(&self, other: &Self) -> (same: bool)
        ensures
            same == self.alike(*other),
    {
        match (self, other) {
            (LaneSubject::Native(a), LaneSubject::Native(b)) => same_32(&a.0, &b.0),
            (LaneSubject::LegacyDomain(a), LaneSubject::LegacyDomain(b)) => a.same(b),
            _ => false,
        }
    }
}

/// Appends a field with its length in four bytes in front.
pub(crate) fn push_bytes(target: &mut Vec<u8>, bytes: &[u8]) -> (result: Result<
    (),
    CapabilityError,
>)
    ensures
        result == (if bytes@.len() <= u32::MAX {
            Ok(())
        } else {
            Err(CapabilityError::InvalidGrant)
        }),
        result is Ok ==> final(target)@ == old(target)@ + prefixed32(bytes@),
{
    if bytes.len() > 4294967295 {
        return Err(CapabilityError::InvalidGrant);
    }
    let ghost before = target@;
    push_be(target, bytes.len() as u128, 4);
    push_all(target, bytes);
    proof {
        lemma_assoc(before, be_bytes(bytes@.len(), 4), bytes@);
    }
    Ok(())
}

#[derive(Clone, Copy, Debug, PartialEq, Eq, Structural)]
pub enum LaneMode {
    Expiring,
    Persistent,
}

#[derive(Clone, Copy, Debug, PartialEq, Eq, Structural)]
pub enum DeclarationAuthorityConstraint {
    NativeSender,
    LegacyGateway,
}

impl DeclarationAuthorityConstraint {
    pub open spec fn admits(self, authority: DeclarationAuthority) -> bool {
        match self {
            DeclarationAuthorityConstraint::NativeSender => authority is NativeSender,
            DeclarationAuthorityConstraint::LegacyGateway => authority is LegacyGateway,
        }
    }

    /// Whether an authority is of the constrained sort.
    pub fn allows(self, authority: DeclarationAuthority) -> (matching: bool)
        ensures
            matching == self.admits(authority),
    {
        match (self, authority) {
            (
                DeclarationAuthorityConstraint::NativeSender,
                DeclarationAuthority::NativeSender(_),
            ) => true,
            (
                DeclarationAuthorityConstraint::LegacyGateway,
                DeclarationAuthority::LegacyGateway(_),
            ) => true,
            _ => false,
        }
    }
}

#[derive(Clone, Copy, Debug, PartialEq, Eq, Structural)]
pub struct RateLimit {
    pub max_messages: u32,
    pub interval: Duration,
}

#[derive(Debug, PartialEq, Eq)]
pub struct LaneGrant {
    pub id: LaneId,
    pub subject: LaneSubject,
    /// The protocol identity used by relationship state and block ordering.
    pub sender: ProtocolIdentity,
    pub recipient: ProtocolIdentity,
    pub protocol_version: ProtocolVersion,
    pub deployment_domain: [u8; 32],
    pub intended_provider: ProviderRef,
    pub recipient_operational_key: OperationalKeyRef,
    pub purpose: DeclaredPurpose,
    pub origin: Option<OriginMode>,
    pub declaration_authority: DeclarationAuthorityConstraint,
    pub lifetime: Duration,
    pub rate_limit: RateLimit,
    pub mode: LaneMode,
    pub issued_at: CanonicalTime,
    pub not_before: CanonicalTime,
    pub not_after: CanonicalTime,
    pub version: Version,
}

impl Clone for LaneGrant {
    fn clone(&self) -> (copy: Self)
        ensures
            copy == *self,
    {
        LaneGrant {
            id: self.id,
            subject: self.subject.clone(),
            sender: self.sender,
            recipient: self.recipient,
            protocol_version: self.protocol_version,
            deployment_domain: self.deployment_domain,
            intended_provider: self.intended_provider,
            recipient_operational_key: self.recipient_operational_key,
            purpose: self.purpose.clone(),
            origin: self.origin,
            declaration_authority: self.declaration_authority,
            lifetime: self.lifetime,
            rate_limit: self.rate_limit,
            mode: self.mode,
            issued_at: self.issued_at,
            not_before: self.not_before,
            not_after: self.not_after,
            version: self.version,
        }
    }
}

impl LaneGrant {
    /// The sort of authority is that of the subject.
    pub open spec fn authority_fits(&self) -> bool {
        match self.declaration_authority {
            DeclarationAuthorityConstraint::NativeSender => self.subject is Native,
            DeclarationAuthorityConstraint::LegacyGateway => self.subject is LegacyDomain,
        }
    }

    /// The terms, apart from the purpose, are those of a grant.
    pub open spec fn terms_valid(&self) -> bool {
        &&& self.lifetime.0 != 0
        &&& self.protocol_version.0 != 0
        &&& self.rate_limit.max_messages > 0 && self.rate_limit.interval.0 > 0
        &&& self.not_before.0 >= self.issued_at.0
        &&& self.not_after.0 > self.not_before.0
        &&& self.authority_fits()
        &&& self.declaration_authority == DeclarationAuthorityConstraint::LegacyGateway ==> (
        self.origin matches Some(origin) ==> origin == OriginMode::LegacyOrUnspecified)
    }

    /// Whether the grant is well formed, and if not, why.
    pub open spec fn check(&self) -> Result<(), CapabilityError> {
        if !self.purpose.valid() {
            Err(CapabilityError::InvalidDeclaration)
        } else if !self.terms_valid() {
            Err(CapabilityError::InvalidGrant)
        } else {
            Ok(())
        }
    }

    pub open spec fn origin_bytes(&self) -> Seq<u8> {
        match self.origin {
            Some(origin) => seq![1u8] + seq![origin.byte()],
            None => seq![0u8],
        }
    }

    pub open spec fn authority_byte(&self) -> u8 {
        match self.declaration_authority {
            DeclarationAuthorityConstraint::NativeSender => 0,
            DeclarationAuthorityConstraint::LegacyGateway => 1,
        }
    }

    pub open spec fn mode_byte(&self) -> u8 {
        match self.mode {
            LaneMode::Expiring => 0,
            LaneMode::Persistent => 1,
        }
    }

    /// Who may write to whom, and where.
    pub open spec fn parties(&self) -> Seq<u8> {
        be_bytes(self.sender.0 as nat, 16) + be_bytes(self.recipient.0 as nat, 16) + be_bytes(
            self.protocol_version.0 as nat,
            2,
        ) + self.deployment_domain@ + be_bytes(self.intended_provider.0 as nat, 16) + be_bytes(
            self.recipient_operational_key.0 as nat,
            16,
        )
    }

    /// How much, and for how long.
    pub open spec fn limits(&self) -> Seq<u8> {
        be_bytes(self.lifetime.0 as nat, 8) + be_bytes(self.rate_limit.max_messages as nat, 4)
            + be_bytes(self.rate_limit.interval.0 as nat, 8) + seq![self.mode_byte()] + be_bytes(
            self.issued_at.0 as nat,
            8,
        ) + be_bytes(self.not_before.0 as nat, 8) + be_bytes(self.not_after.0 as nat, 8) + be_bytes(
            self.version.0 as nat,
            8,
        )
    }

    /// The canonical representation that a recipient signs.
    pub open spec fn canonical(&self) -> Seq<u8> {
        utf8("cs-mail/lane-grant/v2"@) + be_bytes(self.id.0 as nat, 16) + self.subject.canonical()
            + self.parties() + self.purpose.canonical() + self.origin_bytes() + seq![
            self.authority_byte(),
        ] + self.limits()
    }

    pub open spec fn alike(&self, other: &Self) -> bool {
        &&& self.id == other.id
        &&& self.subject.alike(other.subject)
        &&& self.sender == other.sender
        &&& self.recipient == other.recipient
        &&& self.protocol_version == other.protocol_version
        &&& self.deployment_domain == other.deployment_domain
        &&& self.intended_provider == other.intended_provider
        &&& self.recipient_operational_key == other.recipient_operational_key
        &&& self.purpose.alike(&other.purpose)
        &&& self.origin == other.origin
        &&& self.declaration_authority == other.declaration_authority
        &&& self.lifetime == other.lifetime
        &&& self.rate_limit == other.rate_limit
        &&& self.mode == other.mode
        &&& self.issued_at == other.issued_at
        &&& self.not_before == other.not_before
        &&& self.not_after == other.not_after
        &&& self.version == other.version
    }

    /// Refuses malformed purposes, and terms that no grant can have.
    pub fn validate(&self) -> (result: Result<(), CapabilityError>)
        ensures
            result == self.check(),
    {
        if self.purpose.validate().is_err() {
            return Err(CapabilityError::InvalidDeclaration);
        }
        let authority_matches_subject = match (&self.subject, self.declaration_authority) {
            (LaneSubject::Native(_), DeclarationAuthorityConstraint::NativeSender) => true,
            (LaneSubject::LegacyDomain(_), DeclarationAuthorityConstraint::LegacyGateway) => true,
            _ => false,
        };
        let origin_supported = match self.origin {
            Some(origin) => origin == OriginMode::LegacyOrUnspecified,
            None => true,
        };
        if self.lifetime.0 == 0 || self.protocol_version.0 == 0 || self.rate_limit.max_messages == 0
            || self.rate_limit.interval.0 == 0 || self.not_before.0 < self.issued_at.0
            || self.not_after.0 <= self.not_before.0 || !authority_matches_subject || (
        self.declaration_authority == DeclarationAuthorityConstraint::LegacyGateway
            && !origin_supported) {
            return Err(CapabilityError::InvalidGrant);
        }
        Ok(())
    }

    fn push_parties(&self, bytes: &mut Vec<u8>)
        ensures
            final(bytes)@ == old(bytes)@ + self.parties(),
    {
        let mut part: Vec<u8> = Vec::new();
        push_be(&mut part, self.sender.0, 16);
        push_be(&mut part, self.recipient.0, 16);
        push_be(&mut part, self.protocol_version.0 as u128, 2);
        push_32(&mut part, &self.deployment_domain);
        push_be(&mut part, self.intended_provider.0, 16);
        push_be(&mut part, self.recipient_operational_key.0, 16);
        assert(part@ =~= self.parties());
        push_all(bytes, part.as_slice());
    }

    fn push_limits(&self, bytes: &mut Vec<u8>)
        ensures
            final(bytes)@ == old(bytes)@ + self.limits(),
    {
        let mut part: Vec<u8> = Vec::new();
        push_be(&mut part, self.lifetime.0 as u128, 8);
        push_be(&mut part, self.rate_limit.max_messages as u128, 4);
        push_be(&mut part, self.rate_limit.interval.0 as u128, 8);
        part.push(
            match self.mode {
                LaneMode::Expiring => 0,
                LaneMode::Persistent => 1,
            },
        );
        push_be(&mut part, self.issued_at.0 as u128, 8);
        push_be(&mut part, self.not_before.0 as u128, 8);
        push_be(&mut part, self.not_after.0 as u128, 8);
        push_be(&mut part, self.version.0 as u128, 8);
        assert(part@ =~= self.limits());
        push_all(bytes, part.as_slice());
    }

    /// Returns the domain-separated canonical grant representation. A structurally invalid grant
    /// is refused.
    pub fn signing_bytes(&self) -> (result: Result<Vec<u8>, CapabilityError>)
        ensures
            match self.check() {
                Err(e) => result == Err::<Vec<u8>, CapabilityError>(e),
                Ok(()) => if self.subject.encodable() {
                    result matches Ok(bytes) && bytes@ == self.canonical()
                } else {
                    result == Err::<Vec<u8>, CapabilityError>(CapabilityError::InvalidGrant)
                },
            },
    {
        match self.validate() {
            Ok(()) => {},
            Err(e) => return Err(e),
        }
        let mut bytes = text_bytes("cs-mail/lane-grant/v2");
        push_be(&mut bytes, self.id.0, 16);
        let ghost opened = bytes@;
        match &self.subject {
            LaneSubject::Native(handle) => {
                bytes.push(0);
                push_32(&mut bytes, &handle.0);
            },
            LaneSubject::LegacyDomain(domain) => {
                bytes.push(1);
                match push_bytes(&mut bytes, domain.as_str().as_bytes()) {
                    Ok(()) => {},
                    Err(e) => return Err(e),
                }
            },
        }
        assert(bytes@ =~= opened + self.subject.canonical());
        self.push_parties(&mut bytes);
        match self.purpose.append_canonical(&mut bytes) {
            Ok(()) => {},
            Err(_) => return Err(CapabilityError::InvalidDeclaration),
        }
        let ghost named = bytes@;
        match self.origin {
            Some(origin) => {
                bytes.push(1);
                bytes.push(origin.code());
            },
            None => {
                bytes.push(0);
            },
        }
        assert(bytes@ =~= named + self.origin_bytes());
        let ghost sourced = bytes@;
        bytes.push(
            match self.declaration_authority {
                DeclarationAuthorityConstraint::NativeSender => 0,
                DeclarationAuthorityConstraint::LegacyGateway => 1,
            },
        );
        assert(bytes@ =~= sourced + seq![self.authority_byte()]);
        self.push_limits(&mut bytes);
        Ok(bytes)
    }

    /// Whether two grants are the same.
    pub fn same(&self, other: &Self) -> (same: bool)
        ensures
            same == self.alike(other),
    {
        self.id == other.id && self.subject.same(&other.subject) && self.sender == other.sender
            && self.recipient == other.recipient && self.protocol_version == other.protocol_version
            && same_32(&self.deployment_domain, &other.deployment_domain) && self.intended_provider
            == other.intended_provider && self.recipient_operational_key
            == other.recipient_operational_key && self.purpose.same(&other.purpose) && self.origin
            == other.origin && self.declaration_authority == other.declaration_authority
            && self.lifetime == other.lifetime && self.rate_limit == other.rate_limit && self.mode
            == other.mode && self.issued_at == other.issued_at && self.not_before
            == other.not_before && self.not_after == other.not_after && self.version
            == other.version
    }
}

proof fn lemma_subjects_delimit(a: LaneSubject, x: Seq<u8>, b: LaneSubject, y: Seq<u8>)
    requires
        a.encodable(),
        b.encodable(),
        a.canonical() + x == b.canonical() + y,
    ensures
        a.alike(b),
        x == y,
{
    let part = |s: LaneSubject| match s {
        LaneSubject::Native(handle) => (0u8, handle.0@),
        LaneSubject::LegacyDomain(domain) => (1u8, prefixed32(utf8(domain.0@))),
    };
    let ((ac, ap), (bc, bp)) = (part(a), part(b));
    lemma_assoc(seq![ac], ap, x);
    lemma_assoc(seq![bc], bp, y);
    lemma_byte_delimits(ac, ap + x, bc, bp + y);
    match (a, b) {
        (LaneSubject::Native(p), LaneSubject::Native(q)) => {
            lemma_32_delimits(p.0, x, q.0, y);
        },
        (LaneSubject::LegacyDomain(p), LaneSubject::LegacyDomain(q)) => {
            lemma_prefixed32_delimits(utf8(p.0@), x, utf8(q.0@), y);
            lemma_utf8_injective(p.0@, q.0@);
        },
        _ => {},
    }
}

proof fn lemma_parties(a: LaneGrant, b: LaneGrant)
    requires
        a.parties() == b.parties(),
    ensures
        a.sender == b.sender && a.recipient == b.recipient && a.protocol_version
            == b.protocol_version && a.deployment_domain == b.deployment_domain
            && a.intended_provider == b.intended_provider && a.recipient_operational_key
            == b.recipient_operational_key,
{
    lemma_spans();
    let (a1, b1) = (be_bytes(a.sender.0 as nat, 16), be_bytes(b.sender.0 as nat, 16));
    let (a2, b2) = (
        a1 + be_bytes(a.recipient.0 as nat, 16),
        b1 + be_bytes(b.recipient.0 as nat, 16),
    );
    let (a3, b3) = (
        a2 + be_bytes(a.protocol_version.0 as nat, 2),
        b2 + be_bytes(b.protocol_version.0 as nat, 2),
    );
    let (a4, b4) = (a3 + a.deployment_domain@, b3 + b.deployment_domain@);
    let (a5, b5) = (
        a4 + be_bytes(a.intended_provider.0 as nat, 16),
        b4 + be_bytes(b.intended_provider.0 as nat, 16),
    );
    lemma_tail_be(
        a5,
        a.recipient_operational_key.0 as nat,
        b5,
        b.recipient_operational_key.0 as nat,
        16,
    );
    lemma_tail_be(a4, a.intended_provider.0 as nat, b4, b.intended_provider.0 as nat, 16);
    lemma_tail_32(a3, a.deployment_domain, b3, b.deployment_domain);
    lemma_tail_be(a2, a.protocol_version.0 as nat, b2, b.protocol_version.0 as nat, 2);
    lemma_tail_be(a1, a.recipient.0 as nat, b1, b.recipient.0 as nat, 16);
    crate::bytes::lemma_be_injective(a.sender.0 as nat, b.sender.0 as nat, 16);
}

proof fn lemma_limits(a: LaneGrant, b: LaneGrant)
    requires
        a.limits() == b.limits(),
    ensures
        a.lifetime == b.lifetime && a.rate_limit == b.rate_limit && a.mode == b.mode && a.issued_at
            == b.issued_at && a.not_before == b.not_before && a.not_after == b.not_after
            && a.version == b.version,
{
    lemma_spans();
    let (a1, b1) = (be_bytes(a.lifetime.0 as nat, 8), be_bytes(b.lifetime.0 as nat, 8));
    let (a2, b2) = (
        a1 + be_bytes(a.rate_limit.max_messages as nat, 4),
        b1 + be_bytes(b.rate_limit.max_messages as nat, 4),
    );
    let (a3, b3) = (
        a2 + be_bytes(a.rate_limit.interval.0 as nat, 8),
        b2 + be_bytes(b.rate_limit.interval.0 as nat, 8),
    );
    let (a4, b4) = (a3 + seq![a.mode_byte()], b3 + seq![b.mode_byte()]);
    let (a5, b5) = (
        a4 + be_bytes(a.issued_at.0 as nat, 8),
        b4 + be_bytes(b.issued_at.0 as nat, 8),
    );
    let (a6, b6) = (
        a5 + be_bytes(a.not_before.0 as nat, 8),
        b5 + be_bytes(b.not_before.0 as nat, 8),
    );
    let (a7, b7) = (
        a6 + be_bytes(a.not_after.0 as nat, 8),
        b6 + be_bytes(b.not_after.0 as nat, 8),
    );
    lemma_tail_be(a7, a.version.0 as nat, b7, b.version.0 as nat, 8);
    lemma_tail_be(a6, a.not_after.0 as nat, b6, b.not_after.0 as nat, 8);
    lemma_tail_be(a5, a.not_before.0 as nat, b5, b.not_before.0 as nat, 8);
    lemma_tail_be(a4, a.issued_at.0 as nat, b4, b.issued_at.0 as nat, 8);
    lemma_tail_byte(a3, a.mode_byte(), b3, b.mode_byte());
    lemma_tail_be(a2, a.rate_limit.interval.0 as nat, b2, b.rate_limit.interval.0 as nat, 8);
    lemma_tail_be(
        a1,
        a.rate_limit.max_messages as nat,
        b1,
        b.rate_limit.max_messages as nat,
        4,
    );
    crate::bytes::lemma_be_injective(a.lifetime.0 as nat, b.lifetime.0 as nat, 8);
}

proof fn lemma_origins(a: LaneGrant, b: LaneGrant)
    requires
        a.origin_bytes() == b.origin_bytes(),
    ensures
        a.origin == b.origin,
{
    let (x, y) = (a.origin_bytes(), b.origin_bytes());
    assert(x[0] == y[0]);
    match (a.origin, b.origin) {
        (Some(p), Some(q)) => {
            assert(x[1] == y[1]);
            assert(x[1] == p.byte());
            assert(y[1] == q.byte());
        },
        (Some(p), None) => {
            assert(x[0] == 1);
        },
        (None, Some(q)) => {
            assert(y[0] == 1);
        },
        _ => {},
    }
}

/// What a recipient signs determines the grant in every part.
pub proof fn grants_are_bound(a: LaneGrant, b: LaneGrant)
    requires
        a.check() is Ok,
        b.check() is Ok,
        a.subject.encodable(),
        b.subject.encodable(),
        a.canonical() == b.canonical(),
    ensures
        a.alike(&b),
{
    broadcast use lemma_be_len;

    lemma_spans();
    let tag = utf8("cs-mail/lane-grant/v2"@);
    let (ai, bi) = (be_bytes(a.id.0 as nat, 16), be_bytes(b.id.0 as nat, 16));
    let (as_, bs) = (a.subject.canonical(), b.subject.canonical());
    let (ap, bp) = (a.parties(), b.parties());
    let (au, bu) = (a.purpose.canonical(), b.purpose.canonical());
    let (ao, bo) = (a.origin_bytes(), b.origin_bytes());
    // Peel what has a fixed length off the end.
    let (a5, b5) = (tag + ai + as_ + ap + au + ao, tag + bi + bs + bp + bu + bo);
    let (a6, b6) = (a5 + seq![a.authority_byte()], b5 + seq![b.authority_byte()]);
    assert(a.limits().len() == 53);
    assert(b.limits().len() == 53);
    crate::bytes::lemma_tail(a6, a.limits(), b6, b.limits());
    lemma_limits(a, b);
    lemma_tail_byte(a5, a.authority_byte(), b5, b.authority_byte());
    // Then work from the front.
    lemma_front(tag + ai, as_, ap, au, ao);
    lemma_front(tag + bi, bs, bp, bu, bo);
    lemma_split(tag + ai, as_ + (ap + (au + ao)), tag + bi, bs + (bp + (bu + bo)));
    lemma_split(tag, ai, tag, bi);
    crate::bytes::lemma_be_injective(a.id.0 as nat, b.id.0 as nat, 16);
    lemma_subjects_delimit(a.subject, ap + (au + ao), b.subject, bp + (bu + bo));
    assert(ap.len() == 98);
    assert(bp.len() == 98);
    lemma_split(ap, au + ao, bp, bu + bo);
    lemma_parties(a, b);
    purposes_delimit_themselves(a.purpose, ao, b.purpose, bo);
    lemma_origins(a, b);
}

proof fn lemma_front(a: Seq<u8>, b: Seq<u8>, c: Seq<u8>, d: Seq<u8>, e: Seq<u8>)
    ensures
        a + b + c + d + e == a + (b + (c + (d + e))),
{
    assert(a + b + c + d + e =~= a + (b + (c + (d + e))));
}

#[derive(Clone, Debug, PartialEq, Eq)]
pub struct SignedLaneGrant {
    pub grant: LaneGrant,
    pub signature: [u8; 64],
}

impl SignedLaneGrant {
    /// Whether the recipient's key vouches for the grant, and if not, why.
    pub open spec fn verdict(&self, key: [u8; 32]) -> Result<(), CapabilityError> {
        if !ed25519_key_valid(key@) {
            Err(CapabilityError::InvalidPublicKey)
        } else {
            match self.grant.check() {
                Err(e) => Err(e),
                Ok(()) => if !self.grant.subject.encodable() {
                    Err(CapabilityError::InvalidGrant)
                } else if !ed25519_accepts(key@, self.grant.canonical(), self.signature@) {
                    Err(CapabilityError::InvalidSignature)
                } else {
                    Ok(())
                },
            }
        }
    }

    /// Verifies that the recipient authorized the exact grant. Malformed keys, invalid grants, and
    /// bad signatures are refused.
    pub fn verify(&self, recipient_key: &[u8; 32]) -> (result: Result<(), CapabilityError>)
        ensures
            result == self.verdict(*recipient_key),
    {
        if !is_public_key(recipient_key) {
            return Err(CapabilityError::InvalidPublicKey);
        }
        let bytes = match self.grant.signing_bytes() {
            Ok(bytes) => bytes,
            Err(e) => return Err(e),
        };
        if verify(recipient_key, bytes.as_slice(), self.signature.as_slice()) {
            Ok(())
        } else {
            Err(CapabilityError::InvalidSignature)
        }
    }
}

/// A grant is valid exactly if it lasts, allows messages, starts at its issue or later and ends after
/// that, is of some version of the protocol, names a purpose that is well formed, and its subject
/// suits who answers for the declarations; a gateway vouches for no origin.
pub proof fn grants_are_valid_by_their_terms(grant: LaneGrant)
    ensures
        grant.check() is Ok <==> {
            &&& grant.purpose.valid()
            &&& grant.lifetime.0 > 0
            &&& grant.protocol_version.0 > 0
            &&& grant.rate_limit.max_messages > 0
            &&& grant.rate_limit.interval.0 > 0
            &&& grant.issued_at.0 <= grant.not_before.0
            &&& grant.not_before.0 < grant.not_after.0
            &&& match grant.declaration_authority {
                DeclarationAuthorityConstraint::NativeSender => grant.subject is Native,
                DeclarationAuthorityConstraint::LegacyGateway => grant.subject is LegacyDomain && (
                grant.origin is None || grant.origin == Some(OriginMode::LegacyOrUnspecified)),
            }
        },
{
}

/// The numbers under which the sorts of authority and the modes of a lane are written.
pub proof fn grants_are_numbered(grant: LaneGrant)
    ensures
        grant.authority_byte() == 0 <==> grant.declaration_authority
            == DeclarationAuthorityConstraint::NativeSender,
        grant.authority_byte() == 1 <==> grant.declaration_authority
            == DeclarationAuthorityConstraint::LegacyGateway,
        grant.mode_byte() == 0 <==> grant.mode == LaneMode::Expiring,
        grant.mode_byte() == 1 <==> grant.mode == LaneMode::Persistent,
{
}

} // verus!
