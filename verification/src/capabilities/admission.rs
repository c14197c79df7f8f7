//! Requests to deliver one message without a bond.

use super::grant::CapabilityError;
use super::lane::{pass_bytes, LaneEvidence};
use crate::adapters::dmarc::DmarcPass;
use crate::bytes::{
    be_bytes, lemma_32_delimits, lemma_assoc, lemma_be_delimits, lemma_be_injective, lemma_be_len,
    lemma_byte_delimits, lemma_prefixed32_delimits, lemma_spans, lemma_split, lemma_tail_32,
    lemma_tail_be, lemma_utf8_injective, prefixed32, push_32, push_all, push_be, text_bytes, utf8,
};
use crate::crypto::{ed25519_accepts, ed25519_key_valid, is_public_key, verify};
use crate::primitives::amounts::MessageValidityUntil;
use crate::primitives::declarations::{
    declarations_delimit_themselves, DeclarationAuthority, MessageDeclarations,
};
use crate::primitives::ids::{
    ContentRef, DeliveryIntentRef, IdempotencyKey, LaneId, MessageId, OperationalKeyRef,
    ProtocolIdentity, ProviderRef,
};
use crate::primitives::versions::{ProtocolVersion, WireVersion};
use vstd::prelude::*;

verus! {

#[derive(Clone, Copy, Debug, PartialEq, Eq, Structural)]
pub enum AdmissionAuthentication {
    NativeKey(OperationalKeyRef),
    LegacyDmarc,
}

impl AdmissionAuthentication {
    pub open spec fn canonical(self) -> Seq<u8> {
        match self {
            AdmissionAuthentication::NativeKey(key) => seq![0u8] + be_bytes(key.0 as nat, 16),
            AdmissionAuthentication::LegacyDmarc => seq![1u8],
        }
    }
}

#[derive(Debug, PartialEq, Eq)]
pub struct BondFreeAdmission {
    pub wire_version: WireVersion,
    pub sender: ProtocolIdentity,
    pub recipient: ProtocolIdentity,
    pub message_id: MessageId,
    pub content_ref: ContentRef,
    pub delivery_intent_ref: DeliveryIntentRef,
    pub declarations: MessageDeclarations,
    pub message_valid_until: MessageValidityUntil,
    pub capability: Option<LaneId>,
    pub evidence: Option<LaneEvidence>,
    pub idempotency_key: IdempotencyKey,
    pub protocol_version: ProtocolVersion,
    pub deployment_domain: [u8; 32],
    pub intended_provider: ProviderRef,
    pub authentication: AdmissionAuthentication,
}

impl Clone for BondFreeAdmission {
    fn clone(&self) -> (copy: Self)
        ensures
            copy == *self,
    {
        BondFreeAdmission {
            wire_version: self.wire_version,
            sender: self.sender,
            recipient: self.recipient,
            message_id: self.message_id,
            content_ref: self.content_ref,
            delivery_intent_ref: self.delivery_intent_ref,
            declarations: self.declarations.clone(),
            message_valid_until: self.message_valid_until,
            capability: self.capability,
            evidence: match &self.evidence {
                Some(evidence) => Some(evidence.clone()),
                None => None,
            },
            idempotency_key: self.idempotency_key,
            protocol_version: self.protocol_version,
            deployment_domain: self.deployment_domain,
            intended_provider: self.intended_provider,
            authentication: self.authentication,
        }
    }
}

pub open spec fn capability_bytes(capability: Option<LaneId>) -> Seq<u8> {
    match capability {
        Some(lane) => seq![1u8] + be_bytes(lane.0 as nat, 16),
        None => seq![0u8],
    }
}

pub open spec fn evidence_bytes(evidence: Option<LaneEvidence>) -> Seq<u8> {
    match evidence {
        Some(evidence) => seq![1u8] + evidence.canonical(),
        None => seq![0u8],
    }
}

/// Evidence with the same content.
pub open spec fn evidence_alike(a: Option<LaneEvidence>, b: Option<LaneEvidence>) -> bool {
    match (a, b) {
        (None, None) => true,
        (Some(LaneEvidence::Native(p)), Some(LaneEvidence::Native(q))) => p == q,
        (Some(LaneEvidence::Legacy(p)), Some(LaneEvidence::Legacy(q))) => {
            &&& p.format_version == q.format_version
            &&& p.lane_domain.0@ == q.lane_domain.0@
            &&& p.verification.author_domain.0@ == q.verification.author_domain.0@
            &&& p.verification.dkim == q.verification.dkim
            &&& p.verification.spf == q.verification.spf
            &&& p.verification.evaluated_at == q.verification.evaluated_at
        },
        _ => false,
    }
}

impl BondFreeAdmission {
    /// Who answers for the declarations is who authenticates the admission.
    pub open spec fn authority_agrees(&self) -> bool {
        match (self.authentication, self.declarations.origin.authority) {
            (
                AdmissionAuthentication::NativeKey(expected),
                DeclarationAuthority::NativeSender(actual),
            ) => expected == actual,
            (
                AdmissionAuthentication::LegacyDmarc,
                DeclarationAuthority::LegacyGateway(actual),
            ) => actual == self.intended_provider,
            _ => false,
        }
    }

    /// Whether the admission is well formed, and if not, why.
    pub open spec fn check(&self) -> Result<(), CapabilityError> {
        if self.wire_version != WireVersion(1) {
            Err(CapabilityError::UnsupportedWireVersion)
        } else if self.declarations.check() is Err || !self.authority_agrees() {
            Err(CapabilityError::InvalidDeclaration)
        } else {
            Ok(())
        }
    }

    /// Evidence can be written out.
    pub open spec fn encodable(&self) -> bool {
        self.evidence matches Some(evidence) ==> evidence.encodable()
    }

    /// Which message goes from whom to whom.
    pub open spec fn heading(&self) -> Seq<u8> {
        utf8("cs-mail/bond-free-admission/v2"@) + be_bytes(self.wire_version.0 as nat, 2)
            + be_bytes(self.sender.0 as nat, 16) + be_bytes(self.recipient.0 as nat, 16) + be_bytes(
            self.message_id.0 as nat,
            16,
        ) + be_bytes(self.content_ref.0 as nat, 16) + be_bytes(
            self.delivery_intent_ref.0 as nat,
            16,
        )
    }

    /// Where, and under which protocol.
    pub open spec fn scope(&self) -> Seq<u8> {
        be_bytes(self.idempotency_key.0 as nat, 16) + be_bytes(self.protocol_version.0 as nat, 2)
            + self.deployment_domain@ + be_bytes(self.intended_provider.0 as nat, 16)
    }

    /// The canonical representation that a sender signs.
    pub open spec fn canonical(&self) -> Seq<u8> {
        self.heading() + self.declarations.canonical() + be_bytes(
            self.message_valid_until.0.0 as nat,
            8,
        ) + capability_bytes(self.capability) + evidence_bytes(self.evidence) + self.scope()
            + self.authentication.canonical()
    }

    pub open spec fn alike(&self, other: &Self) -> bool {
        &&& self.wire_version == other.wire_version
        &&& self.sender == other.sender
        &&& self.recipient == other.recipient
        &&& self.message_id == other.message_id
        &&& self.content_ref == other.content_ref
        &&& self.delivery_intent_ref == other.delivery_intent_ref
        &&& self.declarations.alike(&other.declarations)
        &&& self.message_valid_until == other.message_valid_until
        &&& self.capability == other.capability
        &&& evidence_alike(self.evidence, other.evidence)
        &&& self.idempotency_key == other.idempotency_key
        &&& self.protocol_version == other.protocol_version
        &&& self.deployment_domain == other.deployment_domain
        &&& self.intended_provider == other.intended_provider
        &&& self.authentication == other.authentication
    }

    /// Refuses other wire versions, malformed declarations, and declarations that someone other
    /// than the authenticated party answers for.
    pub fn validate(&self) -> (result: Result<(), CapabilityError>)
        ensures
            result == self.check(),
    {
        if self.wire_version != WireVersion(1) {
            return Err(CapabilityError::UnsupportedWireVersion);
        }
        if self.declarations.validate().is_err() {
            return Err(CapabilityError::InvalidDeclaration);
        }
        let agrees = match (self.authentication, self.declarations.origin.authority) {
            (
                AdmissionAuthentication::NativeKey(expected),
                DeclarationAuthority::NativeSender(actual),
            ) => expected == actual,
            (
                AdmissionAuthentication::LegacyDmarc,
                DeclarationAuthority::LegacyGateway(actual),
            ) => actual == self.intended_provider,
            _ => false,
        };
        if agrees {
            Ok(())
        } else {
            Err(CapabilityError::InvalidDeclaration)
        }
    }

    fn heading_bytes(&self) -> (bytes: Vec<u8>)
        ensures
            bytes@ == self.heading(),
    {
        let mut bytes = text_bytes("cs-mail/bond-free-admission/v2");
        push_be(&mut bytes, self.wire_version.0 as u128, 2);
        push_be(&mut bytes, self.sender.0, 16);
        push_be(&mut bytes, self.recipient.0, 16);
        push_be(&mut bytes, self.message_id.0, 16);
        push_be(&mut bytes, self.content_ref.0, 16);
        push_be(&mut bytes, self.delivery_intent_ref.0, 16);
        bytes
    }

    fn scope_bytes(&self) -> (bytes: Vec<u8>)
        ensures
            bytes@ == self.scope(),
    {
        let mut bytes: Vec<u8> = Vec::new();
        push_be(&mut bytes, self.idempotency_key.0, 16);
        push_be(&mut bytes, self.protocol_version.0 as u128, 2);
        push_32(&mut bytes, &self.deployment_domain);
        push_be(&mut bytes, self.intended_provider.0, 16);
        assert(bytes@ =~= self.scope());
        bytes
    }

    /// Returns the domain-separated canonical admission representation. Malformed admissions, and
    /// evidence that cannot be represented, are refused.
    pub fn signing_bytes(&self) -> (result: Result<Vec<u8>, CapabilityError>)
        ensures
            match self.check() {
                Err(e) => result == Err::<Vec<u8>, CapabilityError>(e),
                Ok(()) => if self.encodable() {
                    result matches Ok(bytes) && bytes@ == self.canonical()
                } else {
                    result == Err::<Vec<u8>, CapabilityError>(CapabilityError::InvalidGrant)
                },
            },
    {
        match self.validate() {
            Ok(()) => {},
            Err(e) => return Err(e),
        }
        let mut bytes = self.heading_bytes();
        match self.declarations.canonical_bytes() {
            Ok(declared) => push_all(&mut bytes, declared.as_slice()),
            Err(_) => return Err(CapabilityError::InvalidDeclaration),
        }
        push_be(&mut bytes, self.message_valid_until.0.0 as u128, 8);
        let ghost b1 = bytes@;
        match self.capability {
            Some(lane) => {
                bytes.push(1);
                push_be(&mut bytes, lane.0, 16);
            },
            None => {
                bytes.push(0);
            },
        }
        assert(bytes@ =~= b1 + capability_bytes(self.capability));
        let ghost b2 = bytes@;
        match &self.evidence {
            Some(evidence) => {
                bytes.push(1);
                match evidence.signing_bytes() {
                    Ok(proof_bytes) => push_all(&mut bytes, proof_bytes.as_slice()),
                    Err(e) => return Err(e),
                }
            },
            None => {
                bytes.push(0);
            },
        }
        assert(bytes@ =~= b2 + evidence_bytes(self.evidence));
        push_all(&mut bytes, self.scope_bytes().as_slice());
        let ghost b3 = bytes@;
        match self.authentication {
            AdmissionAuthentication::NativeKey(key) => {
                bytes.push(0);
                push_be(&mut bytes, key.0, 16);
            },
            AdmissionAuthentication::LegacyDmarc => {
                bytes.push(1);
            },
        }
        assert(bytes@ =~= b3 + self.authentication.canonical());
        Ok(bytes)
    }
}

proof fn lemma_capabilities_delimit(
    a: Option<LaneId>,
    x: Seq<u8>,
    b: Option<LaneId>,
    y: Seq<u8>,
)
    requires
        capability_bytes(a) + x == capability_bytes(b) + y,
    ensures
        a == b,
        x == y,
{
    lemma_spans();
    let (p, q) = (capability_bytes(a), capability_bytes(b));
    assert((p + x)[0] == p[0]);
    assert((q + y)[0] == q[0]);
    match (a, b) {
        (Some(l), Some(m)) => {
            lemma_assoc(seq![1u8], be_bytes(l.0 as nat, 16), x);
            lemma_assoc(seq![1u8], be_bytes(m.0 as nat, 16), y);
            lemma_byte_delimits(1, be_bytes(l.0 as nat, 16) + x, 1, be_bytes(m.0 as nat, 16) + y);
            lemma_be_delimits(l.0 as nat, x, m.0 as nat, y, 16);
        },
        (Some(l), None) => {
            assert(p[0] == 1);
        },
        (None, Some(m)) => {
            assert(q[0] == 1);
        },
        (None, None) => {
            lemma_split(p, x, q, y);
        },
    }
}

proof fn lemma_passes_delimit(a: Option<DmarcPass>, x: Seq<u8>, b: Option<DmarcPass>, y: Seq<u8>)
    requires
        pass_bytes(a) + x == pass_bytes(b) + y,
    ensures
        a == b,
        x == y,
{
    let (p, q) = (pass_bytes(a), pass_bytes(b));
    assert((p + x)[0] == p[0]);
    assert((q + y)[0] == q[0]);
    match (a, b) {
        (Some(l), Some(m)) => {
            lemma_split(p, x, q, y);
            assert(p[1] == q[1]);
        },
        (Some(l), None) => {
            assert(p[0] == 1);
        },
        (None, Some(m)) => {
            assert(q[0] == 1);
        },
        (None, None) => {
            lemma_split(p, x, q, y);
        },
    }
}

proof fn lemma_nest(
    a: Seq<u8>,
    b: Seq<u8>,
    c: Seq<u8>,
    d: Seq<u8>,
    e: Seq<u8>,
    f: Seq<u8>,
    g: Seq<u8>,
)
    ensures
        a + b + c + d + e + f + g == a + (b + (c + (d + (e + (f + g))))),
{
    assert(a + b + c + d + e + f + g =~= a + (b + (c + (d + (e + (f + g))))));
}

proof fn lemma_evidence_delimits(
    a: Option<LaneEvidence>,
    x: Seq<u8>,
    b: Option<LaneEvidence>,
    y: Seq<u8>,
)
    requires
        a matches Some(e) ==> e.encodable(),
        b matches Some(e) ==> e.encodable(),
        evidence_bytes(a) + x == evidence_bytes(b) + y,
    ensures
        evidence_alike(a, b),
        x == y,
{
    lemma_spans();
    let (p, q) = (evidence_bytes(a), evidence_bytes(b));
    assert((p + x)[0] == p[0]);
    assert((q + y)[0] == q[0]);
    match (a, b) {
        (None, None) => {
            lemma_split(p, x, q, y);
        },
        (Some(l), None) => {
            assert(p[0] == 1);
        },
        (None, Some(m)) => {
            assert(q[0] == 1);
        },
        (Some(l), Some(m)) => {
            lemma_assoc(seq![1u8], l.canonical(), x);
            lemma_assoc(seq![1u8], m.canonical(), y);
            lemma_byte_delimits(1, l.canonical() + x, 1, m.canonical() + y);
            assert((l.canonical() + x)[0] == l.canonical()[0]);
            assert((m.canonical() + y)[0] == m.canonical()[0]);
            lemma_evidence_head(l);
            lemma_evidence_head(m);
            match (l, m) {
                (LaneEvidence::Native(g), LaneEvidence::Native(h)) => {
                    lemma_assoc(seq![0u8], g.0@, x);
                    lemma_assoc(seq![0u8], h.0@, y);
                    lemma_byte_delimits(0, g.0@ + x, 0, h.0@ + y);
                    lemma_32_delimits(g.0, x, h.0, y);
                },
                (LaneEvidence::Legacy(g), LaneEvidence::Legacy(h)) => {
                    let (gv, hv) = (
                        be_bytes(g.format_version as nat, 2),
                        be_bytes(h.format_version as nat, 2),
                    );
                    let (gl, hl) = (utf8(g.lane_domain.0@), utf8(h.lane_domain.0@));
                    let (ga, ha) = (
                        utf8(g.verification.author_domain.0@),
                        utf8(h.verification.author_domain.0@),
                    );
                    let (gd, hd) = (
                        pass_bytes(g.verification.dkim),
                        pass_bytes(h.verification.dkim),
                    );
                    let (gs, hs) = (pass_bytes(g.verification.spf), pass_bytes(h.verification.spf));
                    let (gt, ht) = (
                        be_bytes(g.verification.evaluated_at.0 as nat, 8),
                        be_bytes(h.verification.evaluated_at.0 as nat, 8),
                    );
                    lemma_nest(seq![1u8], gv, prefixed32(gl), prefixed32(ga), gd, gs, gt);
                    lemma_nest(seq![1u8], hv, prefixed32(hl), prefixed32(ha), hd, hs, ht);
                    lemma_tail_in(seq![1u8], gv, prefixed32(gl), prefixed32(ga), gd, gs, gt, x);
                    lemma_tail_in(seq![1u8], hv, prefixed32(hl), prefixed32(ha), hd, hs, ht, y);
                    let (g5, h5) = (gt + x, ht + y);
                    let (g4, h4) = (gs + g5, hs + h5);
                    let (g3, h3) = (gd + g4, hd + h4);
                    let (g2, h2) = (prefixed32(ga) + g3, prefixed32(ha) + h3);
                    let (g1, h1) = (prefixed32(gl) + g2, prefixed32(hl) + h2);
                    lemma_byte_delimits(1, gv + g1, 1, hv + h1);
                    lemma_be_delimits(g.format_version as nat, g1, h.format_version as nat, h1, 2);
                    lemma_prefixed32_delimits(gl, g2, hl, h2);
                    lemma_prefixed32_delimits(ga, g3, ha, h3);
                    lemma_passes_delimit(g.verification.dkim, g4, h.verification.dkim, h4);
                    lemma_passes_delimit(g.verification.spf, g5, h.verification.spf, h5);
                    lemma_be_delimits(
                        g.verification.evaluated_at.0 as nat,
                        x,
                        h.verification.evaluated_at.0 as nat,
                        y,
                        8,
                    );
                    lemma_utf8_injective(g.lane_domain.0@, h.lane_domain.0@);
                    lemma_utf8_injective(
                        g.verification.author_domain.0@,
                        h.verification.author_domain.0@,
                    );
                },
                _ => {},
            }
        },
    }
}

proof fn lemma_tail_in(
    a: Seq<u8>,
    b: Seq<u8>,
    c: Seq<u8>,
    d: Seq<u8>,
    e: Seq<u8>,
    f: Seq<u8>,
    g: Seq<u8>,
    x: Seq<u8>,
)
    ensures
        a + (b + (c + (d + (e + (f + g))))) + x == a + (b + (c + (d + (e + (f + (g + x)))))),
{
    assert(a + (b + (c + (d + (e + (f + g))))) + x =~= a + (b + (c + (d + (e + (f + (g + x)))))));
}

proof fn lemma_evidence_head(e: LaneEvidence)
    ensures
        e.canonical().len() > 0,
        e.canonical()[0] == (if e is Native {
            0u8
        } else {
            1u8
        }),
{
    match e {
        LaneEvidence::Native(handle) => {},
        LaneEvidence::Legacy(g) => {
            lemma_nest(
                seq![1u8],
                be_bytes(g.format_version as nat, 2),
                prefixed32(utf8(g.lane_domain.0@)),
                prefixed32(utf8(g.verification.author_domain.0@)),
                pass_bytes(g.verification.dkim),
                pass_bytes(g.verification.spf),
                be_bytes(g.verification.evaluated_at.0 as nat, 8),
            );
        },
    }
}

proof fn lemma_headings(a: BondFreeAdmission, b: BondFreeAdmission)
    requires
        a.heading() == b.heading(),
    ensures
        a.wire_version == b.wire_version && a.sender == b.sender && a.recipient == b.recipient
            && a.message_id == b.message_id && a.content_ref == b.content_ref
            && a.delivery_intent_ref == b.delivery_intent_ref,
{
    lemma_spans();
    let tag = utf8("cs-mail/bond-free-admission/v2"@);
    let (a1, b1) = (
        tag + be_bytes(a.wire_version.0 as nat, 2),
        tag + be_bytes(b.wire_version.0 as nat, 2),
    );
    let (a2, b2) = (a1 + be_bytes(a.sender.0 as nat, 16), b1 + be_bytes(b.sender.0 as nat, 16));
    let (a3, b3) = (
        a2 + be_bytes(a.recipient.0 as nat, 16),
        b2 + be_bytes(b.recipient.0 as nat, 16),
    );
    let (a4, b4) = (
        a3 + be_bytes(a.message_id.0 as nat, 16),
        b3 + be_bytes(b.message_id.0 as nat, 16),
    );
    let (a5, b5) = (
        a4 + be_bytes(a.content_ref.0 as nat, 16),
        b4 + be_bytes(b.content_ref.0 as nat, 16),
    );
    lemma_tail_be(a5, a.delivery_intent_ref.0 as nat, b5, b.delivery_intent_ref.0 as nat, 16);
    lemma_tail_be(a4, a.content_ref.0 as nat, b4, b.content_ref.0 as nat, 16);
    lemma_tail_be(a3, a.message_id.0 as nat, b3, b.message_id.0 as nat, 16);
    lemma_tail_be(a2, a.recipient.0 as nat, b2, b.recipient.0 as nat, 16);
    lemma_tail_be(a1, a.sender.0 as nat, b1, b.sender.0 as nat, 16);
    lemma_tail_be(tag, a.wire_version.0 as nat, tag, b.wire_version.0 as nat, 2);
}

proof fn lemma_scopes(a: BondFreeAdmission, b: BondFreeAdmission)
    requires
        a.scope() == b.scope(),
    ensures
        a.idempotency_key == b.idempotency_key && a.protocol_version == b.protocol_version
            && a.deployment_domain == b.deployment_domain && a.intended_provider
            == b.intended_provider,
{
    lemma_spans();
    let (a1, b1) = (
        be_bytes(a.idempotency_key.0 as nat, 16),
        be_bytes(b.idempotency_key.0 as nat, 16),
    );
    let (a2, b2) = (
        a1 + be_bytes(a.protocol_version.0 as nat, 2),
        b1 + be_bytes(b.protocol_version.0 as nat, 2),
    );
    let (a3, b3) = (a2 + a.deployment_domain@, b2 + b.deployment_domain@);
    lemma_tail_be(a3, a.intended_provider.0 as nat, b3, b.intended_provider.0 as nat, 16);
    lemma_tail_32(a2, a.deployment_domain, b2, b.deployment_domain);
    lemma_tail_be(a1, a.protocol_version.0 as nat, b1, b.protocol_version.0 as nat, 2);
    lemma_be_injective(a.idempotency_key.0 as nat, b.idempotency_key.0 as nat, 16);
}

proof fn lemma_authentications(a: AdmissionAuthentication, b: AdmissionAuthentication)
    requires
        a.canonical() == b.canonical(),
    ensures
        a == b,
{
    lemma_spans();
    let (p, q) = (a.canonical(), b.canonical());
    assert(p[0] == q[0]);
    match (a, b) {
        (AdmissionAuthentication::NativeKey(k), AdmissionAuthentication::NativeKey(l)) => {
            lemma_byte_delimits(0, be_bytes(k.0 as nat, 16), 0, be_bytes(l.0 as nat, 16));
            lemma_be_injective(k.0 as nat, l.0 as nat, 16);
        },
        (AdmissionAuthentication::NativeKey(k), AdmissionAuthentication::LegacyDmarc) => {
            assert(p[0] == 0);
        },
        (AdmissionAuthentication::LegacyDmarc, AdmissionAuthentication::NativeKey(l)) => {
            assert(q[0] == 0);
        },
        _ => {},
    }
}

/// What a sender signs determines the admission in every part: message, declarations, evidence,
/// deployment and provider.
pub proof fn admissions_are_bound(a: BondFreeAdmission, b: BondFreeAdmission)
    requires
        a.check() is Ok,
        b.check() is Ok,
        a.encodable(),
        b.encodable(),
        a.canonical() == b.canonical(),
    ensures
        a.alike(&b),
{
    broadcast use lemma_be_len;

    lemma_spans();
    let (ad, bd) = (a.declarations.canonical(), b.declarations.canonical());
    let (av, bv) = (
        be_bytes(a.message_valid_until.0.0 as nat, 8),
        be_bytes(b.message_valid_until.0.0 as nat, 8),
    );
    let (ac, bc) = (capability_bytes(a.capability), capability_bytes(b.capability));
    let (ae, be) = (evidence_bytes(a.evidence), evidence_bytes(b.evidence));
    let (an, bn) = (a.authentication.canonical(), b.authentication.canonical());
    lemma_nest(a.heading(), ad, av, ac, ae, a.scope(), an);
    lemma_nest(b.heading(), bd, bv, bc, be, b.scope(), bn);
    let (a4, b4) = (a.scope() + an, b.scope() + bn);
    let (a3, b3) = (ae + a4, be + b4);
    let (a2, b2) = (ac + a3, bc + b3);
    let (a1, b1) = (av + a2, bv + b2);
    let tag = utf8("cs-mail/bond-free-admission/v2"@);
    assert(a.heading().len() == tag.len() + 82);
    assert(b.heading().len() == tag.len() + 82);
    lemma_split(a.heading(), ad + a1, b.heading(), bd + b1);
    lemma_headings(a, b);
    declarations_delimit_themselves(a.declarations, a1, b.declarations, b1);
    lemma_be_delimits(
        a.message_valid_until.0.0 as nat,
        a2,
        b.message_valid_until.0.0 as nat,
        b2,
        8,
    );
    lemma_capabilities_delimit(a.capability, a3, b.capability, b3);
    lemma_evidence_delimits(a.evidence, a4, b.evidence, b4);
    assert(a.scope().len() == 66);
    assert(b.scope().len() == 66);
    lemma_split(a.scope(), an, b.scope(), bn);
    lemma_scopes(a, b);
    lemma_authentications(a.authentication, b.authentication);
}

#[derive(Clone, Debug, PartialEq, Eq)]
pub struct SignedBondFreeAdmission {
    pub admission: BondFreeAdmission,
    pub signature: [u8; 64],
}

impl SignedBondFreeAdmission {
    /// Whether the sender's key vouches for the admission, and if not, why.
    pub open spec fn verdict(&self, key: [u8; 32]) -> Result<(), CapabilityError> {
        if !ed25519_key_valid(key@) {
            Err(CapabilityError::InvalidPublicKey)
        } else {
            match self.admission.check() {
                Err(e) => Err(e),
                Ok(()) => if !self.admission.encodable() {
                    Err(CapabilityError::InvalidGrant)
                } else if !ed25519_accepts(key@, self.admission.canonical(), self.signature@) {
                    Err(CapabilityError::InvalidSignature)
                } else {
                    Ok(())
                },
            }
        }
    }

    /// Verifies the sender's signature over the complete delivery request and its
    /// provider/deployment scope. Malformed keys, malformed admissions, and invalid signatures are
    /// refused.
    pub fn verify(&self, sender_key: &[u8; 32]) -> (result: Result<(), CapabilityError>)
        ensures
            result == self.verdict(*sender_key),
    {
        if !is_public_key(sender_key) {
            return Err(CapabilityError::InvalidPublicKey);
        }
        let bytes = match self.admission.signing_bytes() {
            Ok(bytes) => bytes,
            Err(e) => return Err(e),
        };
        if verify(sender_key, bytes.as_slice(), self.signature.as_slice()) {
            Ok(())
        } else {
            Err(CapabilityError::InvalidSignature)
        }
    }
}

/// An admission is well formed exactly if it is of the supported wire version, its declarations are,
/// and who authenticates it is who answers for them: the sender's own key, or the gateway of the
/// provider that it is meant for.
pub proof fn admissions_are_answered_for(admission: BondFreeAdmission)
    ensures
        admission.check() is Ok <==> admission.wire_version.0 == 1 && admission.declarations.check()
            is Ok && match admission.authentication {
            AdmissionAuthentication::NativeKey(key) => admission.declarations.origin.authority
                == DeclarationAuthority::NativeSender(key),
            AdmissionAuthentication::LegacyDmarc => admission.declarations.origin.authority
                == DeclarationAuthority::LegacyGateway(admission.intended_provider),
        },
{
}

} // verus!
