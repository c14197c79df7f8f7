use cs_mail::accounts::control::{
    AccountCommand, AccountStatus, NewOperationalKey, SignedAccountCommand,
};
use cs_mail::application::consent::{ConsentCommand, SignedConsentRequest};
use cs_mail::application::request::{Command, SignedRequest};
use cs_mail::billing::commands::{BillingCommand, SignedBillingCommand};
use cs_mail::consent::{ContentScope, DecryptionActor, DecryptionPurpose, GrantId, GrantUse};
use cs_mail::content::certificate::EndpointPublicKey;
use cs_mail::correspondence::policy::{ConversationId, PolicyAction};
use cs_mail::finance::bank::BankVerification;
use cs_mail::finance::commands::{ProgramCommand, SignedProgramCommand};
use cs_mail::finance::distribution::{
    AnnualDistributionSchedule, DistributionTerms, EligibilityPolicy,
};
use cs_mail::finance::scope::FinancialScope;
use cs_mail::finance::terms::{IntentionalActivity, MembershipStatus};
use cs_mail::primitives::amounts::{CanonicalTime, Duration, Money, SettlementUnit};
use cs_mail::primitives::ids::{
    AccountId, AnnualDistributionId, BillingAccountId, ContentKeyRef, FinancialEventId,
    IdempotencyKey, MemberId, MessageId, OperationalKeyRef, PaymentOperationId, ProgramRef,
    ProtocolIdentity, ProviderRef, ServiceContractId,
};
use cs_mail::primitives::versions::{PolicyVersion, ProtocolVersion};
use cs_mail::protocol::ActorRef;
use ed25519_dalek::{Signer, SigningKey};
use std::collections::BTreeSet;

const SECRET: [u8; 32] = [5; 32];

fn key() -> SigningKey {
    SigningKey::from_bytes(&SECRET)
}

fn public() -> [u8; 32] {
    key().verifying_key().to_bytes()
}

fn signature(statement: &str) -> Vec<u8> {
    key().sign(statement.as_bytes()).to_bytes().to_vec()
}

fn numbers(byte: u8) -> String {
    format!("[{}]", vec![byte.to_string(); 32].join(","))
}

fn scope() -> FinancialScope {
    FinancialScope::new(
        [1; 32],
        ProviderRef(2),
        ProgramRef(3),
        [4; 32],
        ProtocolVersion(2),
    )
}

fn scope_json() -> String {
    format!(
        "{{\"deployment_domain\":{},\"operator\":2,\"program\":3,\"payment_account\":{},\"protocol_version\":2}}",
        numbers(1),
        numbers(4)
    )
}

#[test]
fn bank_evidence_is_signed_as_json() {
    let evidence = BankVerification {
        scope: scope(),
        account: BillingAccountId(u128::MAX),
        member: MemberId(12),
        person: [200; 32],
        bank_token: [9; 32],
        unit: SettlementUnit(1),
        version: 7,
        signature: vec![],
    };
    let expected = signature(&format!(
        "[\"cs-mail/bank-association/v1\",{},340282366920938463463374607431768211455,12,{},{},1,7]",
        scope_json(),
        numbers(200),
        numbers(9)
    ));
    let signed = evidence.sign(&SECRET).unwrap();
    assert_eq!(signed.signature, expected);
    assert!(signed.verify(&public()).is_ok());
}

fn program_json(command: ProgramCommand, json: &str) {
    let signed = SignedProgramCommand::sign(
        scope(),
        SettlementUnit(1),
        IdempotencyKey(20),
        300,
        command,
        &SECRET,
    )
    .unwrap();
    assert_eq!(
        signed.signature,
        signature(&format!(
            "[\"cs-mail/financial-command/v2\",{},1,20,300,{}]",
            scope_json(),
            json
        ))
    );
    assert!(signed.verify(&public()).is_ok());
    let mut other = signed.clone();
    other.expected_revision = 301;
    assert!(other.verify(&public()).is_err());
}

#[test]
fn program_commands_are_signed_as_json() {
    let status = MembershipStatus {
        opted_in: true,
        verified: false,
        suspended: true,
    };
    let status_json = "{\"opted_in\":true,\"verified\":false,\"suspended\":true}";
    program_json(
        ProgramCommand::CompensateMember {
            event: FinancialEventId(1),
            member: MemberId(2),
            distribution: AnnualDistributionId(3),
            amount: Money::from_minor_units(4),
            reason: "say \"caf\u{e9}\"\\\n\t\r\u{8}\u{c}\u{1}\u{1f}\u{7f}".into(),
        },
        "{\"CompensateMember\":{\"event\":1,\"member\":2,\"distribution\":3,\"amount\":4,\"reason\":\"say \\\"caf\u{e9}\\\"\\\\\\n\\t\\r\\b\\f\\u0001\\u001f\u{7f}\"}}",
    );
    program_json(
        ProgramCommand::Enroll {
            member: MemberId(2),
            identity_digest: [6; 32],
            status,
        },
        &format!(
            "{{\"Enroll\":{{\"member\":2,\"identity_digest\":{},\"status\":{}}}}}",
            numbers(6),
            status_json
        ),
    );
    program_json(
        ProgramCommand::SetMembership {
            member: MemberId(2),
            status,
        },
        &format!("{{\"SetMembership\":{{\"member\":2,\"status\":{status_json}}}}}"),
    );
    for (activity, name) in [
        (IntentionalActivity::Read, "Read"),
        (IntentionalActivity::Send, "Send"),
        (IntentionalActivity::Decision, "Decision"),
    ] {
        program_json(
            ProgramCommand::RecordActivity {
                member: MemberId(2),
                activity,
            },
            &format!("{{\"RecordActivity\":{{\"member\":2,\"activity\":\"{name}\"}}}}"),
        );
    }
    let schedule = AnnualDistributionSchedule::utc(
        1970,
        EligibilityPolicy {
            version: PolicyVersion(1),
            minimum_tenure: Duration(2),
            minimum_active_days: 3,
        },
        DistributionTerms::new(
            PolicyVersion(4),
            Money::from_minor_units(5),
            CanonicalTime(31_536_000_000),
        )
        .unwrap(),
    )
    .unwrap();
    program_json(
        ProgramCommand::PublishAnnualDistribution(schedule),
        &format!(
            "{{\"PublishAnnualDistribution\":{{\"id\":{},\"start\":0,\"cutoff\":31536000000,\"eligibility\":{{\"version\":1,\"minimum_tenure\":2,\"minimum_active_days\":3}},\"payment\":{{\"version\":4,\"utility_charge\":5,\"due_at\":31536000000}}}}}}",
            schedule.id.0
        ),
    );
    program_json(
        ProgramCommand::Hold {
            source: PaymentOperationId(8),
            hold: false,
        },
        "{\"Hold\":{\"source\":8,\"hold\":false}}",
    );
    program_json(
        ProgramCommand::ClearMaturity {
            source: PaymentOperationId(8),
            evidence: FinancialEventId(9),
        },
        "{\"ClearMaturity\":{\"source\":8,\"evidence\":9}}",
    );
    program_json(
        ProgramCommand::FinalizeAnnualDistribution(AnnualDistributionId(10)),
        "{\"FinalizeAnnualDistribution\":10}",
    );
}

#[test]
fn billing_commands_are_signed_as_json() {
    for (command, json) in [
        (BillingCommand::Inspect, "\"Inspect\""),
        (
            BillingCommand::PurchaseService {
                offer: PolicyVersion(6),
            },
            "{\"PurchaseService\":{\"offer\":6}}",
        ),
        (
            BillingCommand::RetryCollection {
                contract: ServiceContractId(7),
            },
            "{\"RetryCollection\":{\"contract\":7}}",
        ),
    ] {
        let signed = SignedBillingCommand::sign(
            BillingAccountId(1),
            OperationalKeyRef(2),
            scope(),
            3,
            IdempotencyKey(4),
            command,
            &SECRET,
        )
        .unwrap();
        assert_eq!(
            signed.signature,
            signature(&format!(
                "[\"cs-mail/billing-command/v3\",2,1,{},3,4,{}]",
                scope_json(),
                json
            ))
        );
        assert!(signed.verify(&public()).is_ok());
        assert!(signed.verify(&[0; 32]).is_err());
    }
}

#[test]
fn account_commands_are_signed_as_json() {
    let possession = NewOperationalKey::prove(
        AccountId(7),
        "ma\"il",
        OperationalKeyRef(8),
        ActorRef::Recipient(ProtocolIdentity(9)),
        &SECRET,
    )
    .unwrap();
    let bytes = format!("{:?}", possession.key).replace(' ', "");
    assert_eq!(
        possession.proof,
        signature(&format!(
            "[\"cs-mail/account-key-possession/v1\",7,\"ma\\\"il\",8,{{\"Recipient\":9}},{bytes}]"
        ))
    );
    assert!(possession.verify(AccountId(7), "ma\"il").is_ok());
    assert!(possession.verify(AccountId(7), "mail").is_err());
    assert!(possession.verify(AccountId(6), "ma\"il").is_err());
    let proof = format!("{:?}", possession.proof).replace(' ', "");
    let register = format!(
        "{{\"RegisterKey\":{{\"reference\":8,\"actor\":{{\"Recipient\":9}},\"key\":{bytes},\"proof\":{proof}}}}}"
    );
    for (command, json) in [
        (AccountCommand::RegisterKey(possession), register.as_str()),
        (
            AccountCommand::SetStatus(AccountStatus::Active),
            "{\"SetStatus\":\"Active\"}",
        ),
        (
            AccountCommand::SetStatus(AccountStatus::Suspended),
            "{\"SetStatus\":\"Suspended\"}",
        ),
        (
            AccountCommand::SetStatus(AccountStatus::Closed),
            "{\"SetStatus\":\"Closed\"}",
        ),
        (
            AccountCommand::AddPersona(ProtocolIdentity(5)),
            "{\"AddPersona\":5}",
        ),
        (
            AccountCommand::GrantManager(OperationalKeyRef(6)),
            "{\"GrantManager\":6}",
        ),
        (
            AccountCommand::RevokeManager(OperationalKeyRef(6)),
            "{\"RevokeManager\":6}",
        ),
    ] {
        let signed = SignedAccountCommand {
            account: AccountId(1),
            operational_key: OperationalKeyRef(2),
            expected_revision: 3,
            idempotency_key: IdempotencyKey(4),
            product: "mail".into(),
            command,
            signature: vec![],
        }
        .sign(&SECRET)
        .unwrap();
        assert_eq!(
            signed.signature,
            signature(&format!(
                "[\"cs-mail/product-account-command/v1\",1,2,3,4,\"mail\",{json}]"
            ))
        );
        assert!(signed.verify(&public()).is_ok());
        let mut other = signed.clone();
        other.product = "post".into();
        assert!(other.verify(&public()).is_err());
    }
}

#[test]
fn consent_requests_are_signed_as_json() {
    let id = GrantId::new(3).unwrap();
    let scope = ContentScope::new(BTreeSet::from([40, 7, 30])).unwrap();
    let usage = GrantUse {
        actor: DecryptionActor::CsqdProcessor(OperationalKeyRef(5)),
        purpose: DecryptionPurpose::CsqdProcessing {
            operation: "spam".into(),
        },
        destination: EndpointPublicKey {
            reference: ContentKeyRef(6),
            bytes: [7; 32],
        },
    };
    for (command, json) in [
        (
            ConsentCommand::Authorize {
                id,
                scope,
                usage,
                expires_at: CanonicalTime(99),
            },
            format!(
                "{{\"Authorize\":{{\"id\":3,\"scope\":[7,30,40],\"usage\":{{\"actor\":{{\"CsqdProcessor\":5}},\"purpose\":{{\"CsqdProcessing\":{{\"operation\":\"spam\"}}}},\"destination\":{{\"reference\":6,\"bytes\":{}}}}},\"expires_at\":99}}}}",
                numbers(7)
            ),
        ),
        (
            ConsentCommand::Revoke { id },
            "{\"Revoke\":{\"id\":3}}".into(),
        ),
        (
            ConsentCommand::Inspect { id },
            "{\"Inspect\":{\"id\":3}}".into(),
        ),
        (
            ConsentCommand::Read {
                id,
                message: MessageId(7),
                purpose: DecryptionPurpose::Display,
            },
            "{\"Read\":{\"id\":3,\"message\":7,\"purpose\":\"Display\"}}".into(),
        ),
    ] {
        let signed = SignedConsentRequest {
            product: "mail".into(),
            account: AccountId(1),
            persona: ProtocolIdentity(2),
            actor: DecryptionActor::UserDevice(OperationalKeyRef(11)),
            operation: IdempotencyKey(4),
            command,
            signature: vec![],
        }
        .sign(&SECRET)
        .unwrap();
        assert_eq!(
            signed.signature,
            signature(&format!(
                "[\"cs-mail/consent-command/v1\",\"mail\",1,2,{{\"UserDevice\":11}},4,{json}]"
            ))
        );
        assert!(signed.verify(&public()).is_ok());
    }
}

#[test]
fn correspondence_requests_are_signed_as_json() {
    let id = ConversationId::new(3).unwrap();
    for (command, json) in [
        (
            Command::Mailbox { after: 8, limit: 9 },
            "{\"kind\":\"Mailbox\",\"data\":{\"after\":8,\"limit\":9}}",
        ),
        (
            Command::Create {
                id,
                other: ProtocolIdentity(5),
            },
            "{\"kind\":\"Create\",\"data\":{\"id\":3,\"other\":5}}",
        ),
        (
            Command::ChangePolicy {
                id,
                revision: 6,
                action: PolicyAction::ProposeRelaxation,
            },
            "{\"kind\":\"ChangePolicy\",\"data\":{\"id\":3,\"revision\":6,\"action\":\"ProposeRelaxation\"}}",
        ),
        (
            Command::Policy { id },
            "{\"kind\":\"Policy\",\"data\":{\"id\":3}}",
        ),
        (
            Command::Fetch {
                message: MessageId(7),
            },
            "{\"kind\":\"Fetch\",\"data\":{\"message\":7}}",
        ),
        (
            Command::DeleteCopies { id },
            "{\"kind\":\"DeleteCopies\",\"data\":{\"id\":3}}",
        ),
    ] {
        let signed = SignedRequest {
            product: "mail".into(),
            account: AccountId(1),
            persona: ProtocolIdentity(2),
            key: OperationalKeyRef(11),
            operation: IdempotencyKey(4),
            command,
            signature: vec![],
        }
        .sign(&SECRET)
        .unwrap();
        assert_eq!(
            signed.signature,
            signature(&format!(
                "[\"cs-mail/correspondence-command/v3\",\"mail\",1,2,11,4,{json}]"
            ))
        );
        assert!(signed.verify(&public()).is_ok());
    }
}
