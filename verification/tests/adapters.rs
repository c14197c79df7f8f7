use cs_mail::adapters::dmarc::{
    DmarcAlignment, DmarcError, DmarcErrorKind, DmarcEvidenceError, DmarcPass, LegacyDmarcEvidence,
    VerifiedDomain,
};
use cs_mail::adapters::domain::{DomainIdentity, DomainIdentityError};
use cs_mail::adapters::federation::{
    FederationBook, FederationDigest, FederationError, FederationState, ReservationCommitment,
};
use cs_mail::adapters::smtp::{
    validate_smtp_submission, DeliveryRoute, DowngradeConsent, SmtpError, SmtpReceipt,
    SmtpSubmission,
};
use cs_mail::primitives::amounts::{CanonicalTime, Money, SettlementUnit};
use cs_mail::primitives::ids::FederationTransactionRef;

#[test]
fn domain_identity_is_canonical_and_subdomain_aware() {
    let organization = DomainIdentity::parse_ascii("Bank.COM.").unwrap();
    let author = DomainIdentity::parse_ascii("alerts.e.bank.com").unwrap();
    assert_eq!(organization.as_str(), "bank.com");
    assert!(author.is_self_or_subdomain_of(&organization));
    assert!(
        !DomainIdentity::parse_ascii("bank.com.evil.example")
            .unwrap()
            .is_self_or_subdomain_of(&organization)
    );
    assert!(DomainIdentity::parse_ascii("bad_domain.example").is_err());
    assert_eq!(
        organization.synthetic_protocol_identity(&[1; 32], 1),
        DomainIdentity::parse_ascii("BANK.COM")
            .unwrap()
            .synthetic_protocol_identity(&[1; 32], 1)
    );
    assert_ne!(
        organization.synthetic_protocol_identity(&[1; 32], 1),
        organization.synthetic_protocol_identity(&[1; 32], 2)
    );
}

#[test]
fn dmarc_evidence_requires_a_pass_and_the_granted_domain_scope() {
    let author = DomainIdentity::parse_ascii("alerts.bank.com").unwrap();
    assert_eq!(
        VerifiedDomain::passed(author.clone(), None, None, CanonicalTime(1)),
        Err(DmarcEvidenceError::NoPassingMechanism)
    );
    let verification = VerifiedDomain::passed(
        author,
        Some(DmarcPass {
            alignment: DmarcAlignment::Relaxed,
        }),
        None,
        CanonicalTime(1),
    )
    .unwrap();
    assert_eq!(
        LegacyDmarcEvidence::new(
            DomainIdentity::parse_ascii("unrelated.example").unwrap(),
            verification.clone(),
        ),
        Err(DmarcEvidenceError::OutsideLaneDomain)
    );
    let evidence = LegacyDmarcEvidence::new(
        DomainIdentity::parse_ascii("bank.com").unwrap(),
        verification,
    )
    .unwrap();
    assert_eq!(evidence.format_version, LegacyDmarcEvidence::FORMAT_VERSION);
}

#[test]
fn smtp_is_always_an_explicit_downgrade() {
    let submission = SmtpSubmission {
        recipient_address: "bob@example.test".into(),
        provider_readable_rfc822: b"Subject: visible".to_vec(),
        route: DeliveryRoute::NativeEncrypted,
    };
    assert_eq!(
        validate_smtp_submission(&submission),
        Err(SmtpError::NativeContentNotAccepted)
    );
}

fn commitment() -> ReservationCommitment {
    ReservationCommitment {
        transaction: FederationTransactionRef(1),
        sender_provider: [1; 32],
        recipient_provider: [2; 32],
        command_digest: FederationDigest([3; 32]),
        amount: Money::from_minor_units(10),
        unit: SettlementUnit(1),
        expires_at: CanonicalTime(10),
    }
}

#[test]
fn federation_commit_must_match_nonexpired_prepare() {
    let mut book = FederationBook::default();
    book.prepare(commitment()).unwrap();
    assert_eq!(
        book.commit(
            FederationTransactionRef(1),
            FederationDigest([4; 32]),
            FederationDigest([5; 32]),
            CanonicalTime(5)
        ),
        Err(FederationError::CommandMismatch)
    );
    assert!(
        book.commit(
            FederationTransactionRef(1),
            FederationDigest([3; 32]),
            FederationDigest([5; 32]),
            CanonicalTime(5)
        )
        .is_ok()
    );
}

#[test]
fn federation_outcomes_are_final_and_preparation_is_idempotent() {
    let mut book = FederationBook::default();
    let first = book.prepare(commitment()).unwrap();
    assert_eq!(book.prepare(commitment()), Ok(first));
    let changed = ReservationCommitment {
        amount: Money::from_minor_units(11),
        ..commitment()
    };
    assert_eq!(book.prepare(changed), Err(FederationError::DuplicateConflict));
    assert_eq!(
        book.commit(
            FederationTransactionRef(2),
            FederationDigest([3; 32]),
            FederationDigest([5; 32]),
            CanonicalTime(5)
        ),
        Err(FederationError::MissingPrepare)
    );
    assert_eq!(
        book.commit(
            FederationTransactionRef(1),
            FederationDigest([3; 32]),
            FederationDigest([5; 32]),
            CanonicalTime(11)
        ),
        Err(FederationError::PrepareExpired)
    );
    let aborted = book.abort(FederationTransactionRef(1)).unwrap();
    assert_eq!(aborted.state, FederationState::Aborted);
    assert_eq!(
        book.abort(FederationTransactionRef(1)),
        Err(FederationError::AlreadyFinal)
    );
    assert_eq!(
        book.commit(
            FederationTransactionRef(1),
            FederationDigest([3; 32]),
            FederationDigest([5; 32]),
            CanonicalTime(5)
        ),
        Err(FederationError::AlreadyFinal)
    );
}

#[test]
fn canonical_domain_names_are_fixed_points_and_subdomains_nest() {
    let name = DomainIdentity::parse_ascii("MAIL.Example.Org.").unwrap();
    assert_eq!(name.as_str(), "mail.example.org");
    assert_eq!(DomainIdentity::parse_ascii(name.as_str()), Ok(name.clone()));
    let parent = DomainIdentity::parse_ascii("example.org").unwrap();
    let deep = DomainIdentity::parse_ascii("a.mail.example.org").unwrap();
    assert!(deep.is_self_or_subdomain_of(&name) && name.is_self_or_subdomain_of(&parent));
    assert!(deep.is_self_or_subdomain_of(&parent) && deep.is_self_or_subdomain_of(&deep));
    assert!(!parent.is_self_or_subdomain_of(&name));
    assert!(
        !DomainIdentity::parse_ascii("notexample.org")
            .unwrap()
            .is_self_or_subdomain_of(&parent)
    );
    for bad in [
        "",
        ".",
        "..",
        "a..b",
        "bank.com..",
        "bank.com...",
        ".bank.com",
        "-a.org",
        "a-.org",
        "exa mple.org",
        "ümlaut.org",
    ] {
        assert_eq!(
            DomainIdentity::parse_ascii(bad),
            Err(DomainIdentityError::InvalidDomain)
        );
    }
}

#[test]
fn smtp_accepts_an_explicit_downgrade() {
    let submission = SmtpSubmission {
        recipient_address: "bob@example.test".into(),
        provider_readable_rfc822: b"Subject: visible".to_vec(),
        route: DeliveryRoute::SmtpDowngrade {
            recipient_domain: "example.test".into(),
            consent: DowngradeConsent {
                accepted_at: CanonicalTime(1),
            },
        },
    };
    assert_eq!(
        validate_smtp_submission(&submission),
        Ok(SmtpReceipt::AcceptedByGateway)
    );
    assert_ne!(
        SmtpError::MissingDowngradeConsent.text(),
        SmtpError::NativeContentNotAccepted.text()
    );
}

#[test]
fn only_temporary_dmarc_errors_are_temporary() {
    let error = DmarcError::new(DmarcErrorKind::Temporary, "resolver");
    assert!(error.is_temporary());
    for kind in [
        DmarcErrorKind::Failed,
        DmarcErrorKind::Malformed,
        DmarcErrorKind::ResourceLimit,
    ] {
        assert!(!DmarcError::new(kind, "x").is_temporary());
    }
}
