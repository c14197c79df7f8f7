use cs_mail::primitives::amounts::{CanonicalTime, Duration, Money};
use cs_mail::primitives::calendar::calendar_date;
use cs_mail::primitives::declarations::{
    DeclarationAuthority, DeclarationError, DeclaredPurpose, ExtensionCriticality, KnownPurpose,
    MessageDeclarations, NamespacedIdentifier, OriginDeclaration, OriginMode, PayloadSchema,
};
use cs_mail::primitives::ids::{OperationalKeyRef, ProviderRef};
use cs_mail::primitives::versions::{LaneVersion, Version};

#[test]
fn money_and_time_use_checked_arithmetic() {
    assert_eq!(
        Money::from_minor_units(2).checked_add(Money::from_minor_units(3)),
        Some(Money::from_minor_units(5))
    );
    assert_eq!(
        Money::from_minor_units(u64::MAX).checked_add(Money::from_minor_units(1)),
        None
    );
    assert_eq!(CanonicalTime(u64::MAX).checked_add(Duration(1)), None);
}

fn invoice() -> MessageDeclarations {
    MessageDeclarations {
        purpose: DeclaredPurpose::Known(KnownPurpose::Transactional),
        origin: OriginDeclaration {
            mode: OriginMode::AutomatedSystem,
            authority: DeclarationAuthority::NativeSender(OperationalKeyRef(7)),
        },
        payload_schema: Some(PayloadSchema {
            id: NamespacedIdentifier::new("org.cs-mail", "invoice", 1).unwrap(),
            criticality: ExtensionCriticality::NonCritical,
        }),
    }
}

#[test]
fn declarations_are_canonical_and_legacy_origin_is_honest() {
    let declarations = MessageDeclarations {
        purpose: DeclaredPurpose::Known(KnownPurpose::Transactional),
        origin: OriginDeclaration {
            mode: OriginMode::AutomatedSystem,
            authority: DeclarationAuthority::NativeSender(OperationalKeyRef(7)),
        },
        payload_schema: Some(PayloadSchema {
            id: NamespacedIdentifier::new("org.cs-mail", "invoice", 1).unwrap(),
            criticality: ExtensionCriticality::NonCritical,
        }),
    };
    assert_eq!(
        declarations.canonical_bytes(),
        declarations.canonical_bytes()
    );

    let legacy = MessageDeclarations {
        origin: OriginDeclaration {
            mode: OriginMode::HumanInitiated,
            authority: DeclarationAuthority::LegacyGateway(ProviderRef(8)),
        },
        ..declarations
    };
    assert_eq!(
        legacy.validate(),
        Err(DeclarationError::UnsupportedLegacyOrigin)
    );
}

#[test]
fn canonical_declarations_are_laid_out_field_by_field() {
    let mut expected = b"cs-mail/message-declarations/v1".to_vec();
    expected.extend_from_slice(&[1, 1, 3, 0]);
    expected.extend_from_slice(&7u128.to_be_bytes());
    expected.push(1);
    expected.extend_from_slice(&11u16.to_be_bytes());
    expected.extend_from_slice(b"org.cs-mail");
    expected.extend_from_slice(&7u16.to_be_bytes());
    expected.extend_from_slice(b"invoice");
    expected.extend_from_slice(&1u16.to_be_bytes());
    expected.push(0);
    assert_eq!(invoice().canonical_bytes(), Ok(expected));
}

#[test]
fn identifiers_keep_to_their_grammar() {
    for (namespace, name, version) in [
        ("", "invoice", 1),
        ("org", "", 1),
        ("org", "invoice", 0),
        ("Org", "invoice", 1),
        ("org", "in voice", 1),
    ] {
        assert_eq!(
            NamespacedIdentifier::new(namespace, name, version),
            Err(DeclarationError::InvalidIdentifier)
        );
    }
    let long = "a".repeat(64);
    assert!(NamespacedIdentifier::new(&long, "x", 1).is_ok());
    assert!(NamespacedIdentifier::new(&"a".repeat(65), "x", 1).is_err());
}

#[test]
fn amounts_are_written_in_decimal() {
    assert_eq!(Money::from_minor_units(0).text(), "0");
    assert_eq!(Money::from_minor_units(10_203).text(), "10203");
    assert_eq!(
        Money::from_minor_units(u64::MAX).text(),
        "18446744073709551615"
    );
}

#[test]
fn calendar_dates_are_exact() {
    assert_eq!(calendar_date(1970, 1, 1), Some(CanonicalTime(0)));
    assert_eq!(
        calendar_date(2000, 2, 29),
        Some(CanonicalTime(951_782_400_000))
    );
    assert_eq!(
        calendar_date(2000, 3, 1),
        Some(CanonicalTime(951_868_800_000))
    );
    assert_eq!(calendar_date(1900, 2, 29), None);
    assert_eq!(calendar_date(2025, 2, 29), None);
    assert_eq!(calendar_date(2025, 13, 1), None);
    assert_eq!(calendar_date(2025, 4, 31), None);
}

#[test]
fn versions_and_money_do_not_wrap() {
    assert_eq!(Version(1).checked_next(), Some(Version(2)));
    assert_eq!(Version(u64::MAX).checked_next(), None);
    assert_eq!(LaneVersion(8).checked_next(), Some(LaneVersion(9)));
    assert_eq!(Version::from(LaneVersion(8)), Version(8));
    let two = Money::from_minor_units(2);
    assert_eq!(two.minor_units(), 2);
    assert_eq!(two.checked_sub(two), Some(Money::zero()));
    assert_eq!(Money::zero().checked_sub(two), None);
    assert!(Money::zero().is_zero() && !two.is_zero());
}
