//! DMARC evidence for legacy senders.

use super::domain::{within, DomainIdentity};
use crate::primitives::amounts::CanonicalTime;
use vstd::prelude::*;

verus! {

#[derive(Clone, Copy, Debug, PartialEq, Eq, Structural)]
pub enum DmarcAlignment {
    Strict,
    Relaxed,
}

/// One DMARC-aligned authentication mechanism.
///
/// The alignment value is the policy mode under which the mechanism passed. DKIM and SPF are
/// retained independently because a DMARC result may contain either pass, or both passes under
/// different alignment modes.
#[derive(Clone, Copy, Debug, PartialEq, Eq, Structural)]
pub struct DmarcPass {
    pub alignment: DmarcAlignment,
}

#[derive(Clone, Copy, Debug, PartialEq, Eq, Structural)]
pub enum DmarcEvidenceError {
    NoPassingMechanism,
    OutsideLaneDomain,
}

impl DmarcEvidenceError {
    pub open spec fn message(self) -> Seq<char> {
        match self {
            DmarcEvidenceError::NoPassingMechanism => "DMARC has no passing mechanism"@,
            DmarcEvidenceError::OutsideLaneDomain => {
                "DMARC author is outside the granted lane domain"@
            },
        }
    }

    /// The error in words.
    pub fn text(&self) -> (text: &'static str)
        ensures
            text@ == self.message(),
    {
        match self {
            DmarcEvidenceError::NoPassingMechanism => "DMARC has no passing mechanism",
            DmarcEvidenceError::OutsideLaneDomain => {
                "DMARC author is outside the granted lane domain"
            },
        }
    }
}

/// Evidence produced by a standards-conforming DMARC implementation.
///
/// The author domain is the RFC5322.From domain. The recipient-granted lane domain is deliberately
/// not part of this verifier output: authentication proves authorized use of the author domain,
/// while the grant separately decides which domain scope the recipient trusts.
#[derive(Debug, PartialEq, Eq)]
pub struct VerifiedDomain {
    pub author_domain: DomainIdentity,
    pub dkim: Option<DmarcPass>,
    pub spf: Option<DmarcPass>,
    pub evaluated_at: CanonicalTime,
}

impl Clone for VerifiedDomain {
    fn clone(&self) -> (copy: Self)
        ensures
            copy == *self,
    {
        VerifiedDomain {
            author_domain: self.author_domain.clone(),
            dkim: self.dkim,
            spf: self.spf,
            evaluated_at: self.evaluated_at,
        }
    }
}

impl VerifiedDomain {
    /// Constructs trusted evidence after a DMARC pass. Evidence without at least one aligned
    /// passing mechanism is refused.
    pub fn passed(
        author_domain: DomainIdentity,
        dkim: Option<DmarcPass>,
        spf: Option<DmarcPass>,
        evaluated_at: CanonicalTime,
    ) -> (result: Result<Self, DmarcEvidenceError>)
        ensures
            result == (if dkim is None && spf is None {
                Err(DmarcEvidenceError::NoPassingMechanism)
            } else {
                Ok(VerifiedDomain { author_domain, dkim, spf, evaluated_at })
            }),
    {
        if dkim.is_none() && spf.is_none() {
            return Err(DmarcEvidenceError::NoPassingMechanism);
        }
        Ok(VerifiedDomain { author_domain, dkim, spf, evaluated_at })
    }
}

/// Versioned binding between verifier evidence and the recipient's lane scope.
#[derive(Debug, PartialEq, Eq)]
pub struct LegacyDmarcEvidence {
    pub format_version: u16,
    pub lane_domain: DomainIdentity,
    pub verification: VerifiedDomain,
}

impl Clone for LegacyDmarcEvidence {
    fn clone(&self) -> (copy: Self)
        ensures
            copy == *self,
    {
        LegacyDmarcEvidence {
            format_version: self.format_version,
            lane_domain: self.lane_domain.clone(),
            verification: self.verification.clone(),
        }
    }
}

impl LegacyDmarcEvidence {
    pub const FORMAT_VERSION: u16 = 1;

    /// Binds a DMARC-authenticated author to a recipient-granted domain scope. An author outside
    /// the granted domain scope is refused.
    pub fn new(lane_domain: DomainIdentity, verification: VerifiedDomain) -> (result: Result<
        Self,
        DmarcEvidenceError,
    >)
        ensures
            result == (if within(verification.author_domain.0@, lane_domain.0@) {
                Ok(LegacyDmarcEvidence { format_version: 1, lane_domain, verification })
            } else {
                Err(DmarcEvidenceError::OutsideLaneDomain)
            }),
    {
        if !verification.author_domain.is_self_or_subdomain_of(&lane_domain) {
            return Err(DmarcEvidenceError::OutsideLaneDomain);
        }
        Ok(LegacyDmarcEvidence { format_version: 1, lane_domain, verification })
    }

    pub fn lane_identity(&self) -> (domain: &DomainIdentity)
        ensures
            *domain == self.lane_domain,
    {
        &self.lane_domain
    }
}

#[derive(Clone, Copy, Debug, PartialEq, Eq, Structural)]
pub enum DmarcErrorKind {
    Temporary,
    Failed,
    Malformed,
    ResourceLimit,
}

/// Typed DMARC failure suitable for an SMTP retry/permanent-failure decision.
#[derive(Clone, Debug, PartialEq, Eq)]
pub struct DmarcError {
    pub kind: DmarcErrorKind,
    pub detail: String,
}

impl DmarcError {
    pub fn new(kind: DmarcErrorKind, detail: &str) -> (error: Self)
        ensures
            error.kind == kind,
            error.detail@ == detail@,
    {
        DmarcError { kind, detail: detail.to_owned() }
    }

    /// Whether a later attempt may succeed.
    pub fn is_temporary(&self) -> (temporary: bool)
        ensures
            temporary == (self.kind == DmarcErrorKind::Temporary),
    {
        matches!(self.kind, DmarcErrorKind::Temporary)
    }
}

} // verus!
