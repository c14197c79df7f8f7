use cs_mail::application::distribution::{distribute, ProgramState};
use cs_mail::application::engine::{ExecutionOutcome, InMemoryEngine, TransitionManifest};
use cs_mail::application::histories::HistoryEntry;
use cs_mail::application::errors::EngineError;
use cs_mail::application::publication::{
    publish, publish_classes, publish_policy, ClassesPublicationContext, PolicyPublicationContext,
    PublicationContext, RecipientRequestClasses, RequestPricingPolicy,
};
use cs_mail::application::relationships::{LaneAcceptance, LaneAcceptanceError};
use cs_mail::application::store::InMemoryStore;
use cs_mail::application::book::AccountBook;
use cs_mail::application::desk::BillingDesk;
use cs_mail::billing::account::BillingAccount;
use cs_mail::billing::offer::BillingError;
use cs_mail::capabilities::grant::{
    CapabilityError, DeclarationAuthorityConstraint, LaneGrant, LaneMode, LaneSubject, RateLimit,
    ScopedHandle,
};
use cs_mail::capabilities::lane::ValidatedLaneGrant;
use cs_mail::finance::bank::BankVerification;
use cs_mail::finance::commands::{ProgramCommand, ProgramOutcome, SignedProgramCommand};
use cs_mail::finance::distribution::{
    AnnualDistributionSchedule, DistributionTerms, EligibilityPolicy,
};
use cs_mail::finance::lot::Forfeiture;
use cs_mail::finance::payments::SimulatedProcessor;
use cs_mail::finance::program::FinancialProgram;
use cs_mail::finance::scope::FinancialScope;
use cs_mail::finance::terms::{
    FinancialTerms, IntentionalActivity, MembershipStatus, ProgramError,
};
use cs_mail::ledger::{Account, LedgerBatch, LedgerError};
use cs_mail::primitives::amounts::{CanonicalTime, Duration, Money, SettlementUnit};
use cs_mail::primitives::calendar::calendar_date;
use cs_mail::primitives::declarations::{DeclaredPurpose, KnownPurpose};
use cs_mail::primitives::ids::{
    AnnualDistributionId, BillingAccountId, FinancialEventId, IdempotencyKey, LaneId, MemberId,
    OperationalKeyRef, PaymentOperationId, ProgramRef, ProtocolIdentity, ProviderRef, RequestId,
};
use cs_mail::primitives::references::{RelationshipRef, RequestHistoryRef};
use cs_mail::primitives::schedule::{ScheduleChange, ScheduleTask};
use cs_mail::primitives::versions::{
    PolicyVersion, ProtocolVersion, RelationshipVersion, Version,
};
use cs_mail::protocol::{
    ProtocolError, Relationship, RelationshipKey, RelationshipState, SecurityError,
};
use ed25519_dalek::SigningKey;
use std::collections::BTreeMap;

fn scope() -> FinancialScope {
    FinancialScope::new(
        [1; 32],
        ProviderRef(2),
        ProgramRef(3),
        [4; 32],
        ProtocolVersion(2),
    )
}

fn manifest(revision: u64, next: u32) -> TransitionManifest<u32, &'static str, u8, String, &'static str> {
    let mut ledger_batch = LedgerBatch::new();
    ledger_batch.transfer(
        Account::ProcessorClearing,
        Account::ProcessingRevenue,
        Money::from_minor_units(5),
    );
    TransitionManifest {
        expected_snapshot_revision: revision,
        expected_ledger_revision: revision,
        ledger_batch,
        forfeitures: vec![],
        forfeiture_holds: vec![],
        schedule_changes: vec![
            ScheduleChange::Schedule {
                task: ScheduleTask::RequestExpiry(RequestId(1)),
                at: CanonicalTime(50),
            },
            ScheduleChange::Schedule {
                task: ScheduleTask::LaneHorizon(LaneId(1)),
                at: CanonicalTime(60),
            },
            ScheduleChange::Cancel {
                task: ScheduleTask::RequestExpiry(RequestId(1)),
            },
        ],
        next,
        next_history: HistoryEntry {
            reference: RequestHistoryRef::new(1, [1; 32]),
            recipient: ProtocolIdentity(2),
            history: "asked once",
        },
        protocol_events: vec!["happened"],
        outbox_intents: vec![7],
        transition: format!("to {next}"),
    }
}

#[test]
fn commands_are_executed_once_and_whole() {
    let mut program = FinancialProgram::new(scope(), SettlementUnit(1));
    let mut engine: InMemoryEngine<u32, &'static str, u8, String> =
        InMemoryEngine::new(0, SettlementUnit(1));
    let mut histories = vec![];
    let bytes = Some(b"command".to_vec());
    let first = engine.execute(
        &mut program,
        &mut histories,
        scope(),
        scope(),
        IdempotencyKey(1),
        &bytes,
        Ok(manifest(0, 9)),
        CanonicalTime(1),
    );
    assert_eq!(
        first,
        Ok(ExecutionOutcome {
            position: 1,
            replayed: false
        })
    );
    assert_eq!(engine.projection, 9);
    assert_eq!(histories.len(), 1);
    assert_eq!(histories[0].history, "asked once");
    assert_eq!(engine.transition(IdempotencyKey(1)), Some(&"to 9".into()));
    assert_eq!(engine.transition(IdempotencyKey(2)), None);
    assert_eq!(engine.journal(), &vec!["happened"]);
    assert_eq!(engine.outbox(), &vec![7]);
    assert_eq!(engine.schedules().len(), 1);
    assert_eq!(engine.schedules()[&(2, 1)], CanonicalTime(60));
    assert_eq!(
        engine.balance(Account::ProcessingRevenue),
        Money::from_minor_units(5)
    );
    assert_eq!(engine.total_value(), Ok(Money::zero()));
    assert_eq!(
        engine.execute(
            &mut program,
            &mut histories,
            scope(),
            scope(),
            IdempotencyKey(1),
            &bytes,
            Err(ProtocolError::VersionConflict),
            CanonicalTime(2)
        ),
        Ok(ExecutionOutcome {
            position: 1,
            replayed: true
        })
    );
    assert_eq!(engine.transition(IdempotencyKey(1)), Some(&"to 9".into()));
    assert_eq!(
        engine.replay(
            scope(),
            scope(),
            IdempotencyKey(1),
            &Some(b"another".to_vec())
        ),
        Err(EngineError::DuplicateConflict)
    );
}

#[test]
fn refused_transitions_change_nothing() {
    let mut program = FinancialProgram::new(scope(), SettlementUnit(1));
    let mut engine: InMemoryEngine<u32, &'static str, u8, String> =
        InMemoryEngine::new(0, SettlementUnit(1));
    let mut histories = vec![];
    let other = FinancialScope {
        program: ProgramRef(9),
        ..scope()
    };
    let mut run = |policy, bytes: Option<Vec<u8>>, manifest, key: u128| {
        let result = engine.execute(
            &mut program,
            &mut histories,
            scope(),
            policy,
            IdempotencyKey(key),
            &bytes,
            manifest,
            CanonicalTime(1),
        );
        assert_eq!(engine.revision, 0);
        assert!(engine.journal().is_empty() && engine.schedules().is_empty());
        assert_eq!(
            engine.balance(Account::ProcessingRevenue),
            Money::zero()
        );
        result
    };
    let bytes = || Some(b"command".to_vec());
    assert_eq!(
        run(other, bytes(), Ok(manifest(0, 1)), 1),
        Err(EngineError::VersionConflict)
    );
    assert_eq!(
        run(scope(), None, Ok(manifest(0, 1)), 1),
        Err(EngineError::CommandEncoding)
    );
    assert_eq!(
        run(scope(), bytes(), Err(ProtocolError::BackoffActive), 1),
        Err(EngineError::Protocol(ProtocolError::BackoffActive))
    );
    assert_eq!(
        run(scope(), bytes(), Ok(manifest(3, 1)), 1),
        Err(EngineError::VersionConflict)
    );
    let mut stale = manifest(0, 1);
    stale.expected_ledger_revision = 4;
    assert_eq!(
        run(scope(), bytes(), Ok(stale), 1),
        Err(EngineError::Ledger(LedgerError::VersionConflict))
    );
    let mut held = manifest(0, 1);
    held.forfeiture_holds.push(PaymentOperationId(77));
    assert_eq!(
        run(scope(), bytes(), Ok(held), 1),
        Err(EngineError::Finance(ProgramError::MissingRecord))
    );
}

fn relationship(reference: u128, sender: u128, recipient: u128, history: u8) -> Relationship {
    Relationship {
        key: RelationshipKey {
            sender: ProtocolIdentity(sender),
            recipient: ProtocolIdentity(recipient),
            reference: RelationshipRef::from_u128_for_test(reference),
        },
        history: RequestHistoryRef::new(1, [history; 32]),
        state: RelationshipState::Unsettled,
        version: RelationshipVersion(0),
        changed_at: CanonicalTime(3),
    }
}

#[test]
fn registration_is_unique_and_shares_histories_and_programs() {
    let mut store: InMemoryStore<u32, &'static str, u8, String, &'static str> = InMemoryStore::new(scope());
    let unit = SettlementUnit(1);
    assert_eq!(store.register(relationship(1, 1, 2, 1), 0, "fresh", unit), Ok(0));
    assert_eq!(
        store.register(relationship(1, 3, 2, 1), 0, "fresh", unit),
        Err(EngineError::DuplicateConflict)
    );
    assert_eq!(
        store.register(relationship(2, 1, 2, 2), 0, "fresh", unit),
        Err(EngineError::DuplicateConflict)
    );
    assert_eq!(
        store.register(relationship(2, 3, 4, 1), 0, "fresh", unit),
        Err(EngineError::DuplicateConflict)
    );
    assert_eq!(store.register(relationship(2, 3, 2, 1), 0, "fresh", unit), Ok(1));
    assert_eq!(store.histories.len(), 1);
    assert_eq!(store.programs.len(), 1);
    let key = SigningKey::from_bytes(&[7; 32]).verifying_key().to_bytes();
    let enroll = |revision, member| {
        SignedProgramCommand::sign(
            scope(),
            unit,
            IdempotencyKey(1),
            revision,
            ProgramCommand::Enroll {
                member: MemberId(member),
                identity_digest: [8; 32],
                status: MembershipStatus {
                    opted_in: true,
                    verified: true,
                    suspended: false,
                },
            },
            &[7; 32],
        )
        .unwrap()
    };
    assert_eq!(
        store.execute_financial_command(unit, enroll(9, 1), &key, CanonicalTime(1)),
        Err(EngineError::VersionConflict)
    );
    for _ in 0..2 {
        assert_eq!(
            store.execute_financial_command(unit, enroll(0, 1), &key, CanonicalTime(1)),
            Ok(ProgramOutcome::Recorded)
        );
        assert_eq!(store.programs[&1].program.revision(), 1);
    }
    assert_eq!(
        store.execute_financial_command(unit, enroll(0, 2), &key, CanonicalTime(1)),
        Err(EngineError::DuplicateConflict)
    );
    assert_eq!(
        store.execute_financial_command(unit, enroll(0, 1), &[1; 32], CanonicalTime(1)),
        Err(EngineError::Finance(ProgramError::InvalidPayment))
    );
    assert_eq!(
        store.execute_financial_command(
            SettlementUnit(2),
            enroll(0, 1),
            &key,
            CanonicalTime(1)
        ),
        Err(EngineError::VersionConflict)
    );
}

fn grant(version: u64) -> LaneGrant {
    LaneGrant {
        id: LaneId(1),
        subject: LaneSubject::Native(ScopedHandle([2; 32])),
        sender: ProtocolIdentity(1),
        recipient: ProtocolIdentity(2),
        protocol_version: ProtocolVersion(2),
        deployment_domain: [3; 32],
        intended_provider: ProviderRef(4),
        recipient_operational_key: OperationalKeyRef(5),
        purpose: DeclaredPurpose::Known(KnownPurpose::Personal),
        origin: None,
        declaration_authority: DeclarationAuthorityConstraint::NativeSender,
        lifetime: Duration(1_000),
        rate_limit: RateLimit {
            max_messages: 1,
            interval: Duration(100),
        },
        mode: LaneMode::Expiring,
        issued_at: CanonicalTime(10),
        not_before: CanonicalTime(10),
        not_after: CanonicalTime(10_000),
        version: Version(version),
    }
}

#[test]
fn lanes_are_accepted_once_and_in_order() {
    let open = relationship(1, 1, 2, 1);
    let accept = |relationship: &Relationship, existing, version, settlement, now| {
        LaneAcceptance::decide(
            relationship,
            existing,
            ValidatedLaneGrant::new(grant(version)).unwrap(),
            settlement,
            CanonicalTime(now),
        )
    };
    let (lane, settled) = accept(&open, &None, 2, Ok("settled"), 20)
        .ok()
        .unwrap()
        .unwrap()
        .into_effects();
    assert_eq!(settled, "settled");
    let existing = Some(lane);
    assert!(matches!(
        accept(&open, &existing, 2, Err(ProtocolError::VersionConflict), 20),
        Ok(None)
    ));
    assert!(matches!(
        accept(&open, &existing, 1, Ok("settled"), 20),
        Err(LaneAcceptanceError::Protocol(
            ProtocolError::DuplicateConflict
        ))
    ));
    assert!(matches!(
        accept(&open, &existing, 3, Ok("settled"), 20),
        Ok(Some(_))
    ));
    assert!(matches!(
        accept(&open, &None, 2, Ok("settled"), 1_010),
        Err(LaneAcceptanceError::Capability(
            CapabilityError::NotAuthorized
        ))
    ));
    assert!(matches!(
        accept(&relationship(1, 9, 2, 1), &None, 2, Ok("settled"), 20),
        Err(LaneAcceptanceError::Capability(
            CapabilityError::NotAuthorized
        ))
    ));
    let blocked = Relationship {
        state: RelationshipState::Blocked,
        ..open
    };
    assert!(matches!(
        accept(&blocked, &None, 2, Ok("settled"), 20),
        Err(LaneAcceptanceError::Protocol(ProtocolError::ContactBlocked))
    ));
    assert!(matches!(
        accept(&open, &None, 2, Err(ProtocolError::PolicyInvalid), 20),
        Err(LaneAcceptanceError::Protocol(ProtocolError::PolicyInvalid))
    ));
}

fn policy(version: u64, unit: u32, content: u8) -> RequestPricingPolicy {
    RequestPricingPolicy {
        version: PolicyVersion(version),
        unit: SettlementUnit(unit),
        content: vec![content],
    }
}

#[test]
fn policies_are_published_in_order() {
    let publish = |current: Option<RequestPricingPolicy>, same, next: &RequestPricingPolicy| {
        publish_policy(
            &PolicyPublicationContext {
                current,
                same_version: same,
                permitted: vec![true, false, false],
            },
            next,
            CanonicalTime(4),
        )
        .map(|decision| decision.into_parts())
    };
    let (next, report) = publish(None, None, &policy(1, 1, 1)).unwrap();
    assert_eq!(next, Some((policy(1, 1, 1), CanonicalTime(4))));
    assert!(report.changed);
    assert_eq!(report.addresses_with_unquotable_classes, 2);
    let (next, report) = publish(
        Some(policy(1, 1, 1)),
        Some(policy(1, 1, 1)),
        &policy(1, 1, 1),
    )
    .unwrap();
    assert!(next.is_none() && !report.changed);
    assert_eq!(
        publish(None, Some(policy(1, 1, 2)), &policy(1, 1, 1)),
        Err(ProtocolError::DuplicateConflict)
    );
    assert_eq!(
        publish(Some(policy(2, 1, 1)), None, &policy(1, 1, 1)),
        Err(ProtocolError::VersionConflict)
    );
    assert_eq!(
        publish(Some(policy(1, 1, 1)), None, &policy(2, 2, 1)),
        Err(ProtocolError::PolicyInvalid)
    );
}

#[test]
fn classes_are_published_under_authority_and_in_order() {
    let classes = |version, content| RecipientRequestClasses {
        recipient: ProtocolIdentity(2),
        version,
        content: vec![content],
    };
    let run = |expected_scope, authority, permitted, current, next: &RecipientRequestClasses| {
        publish_classes(
            &ClassesPublicationContext {
                expected_scope,
                authority,
                permitted,
                current,
            },
            next,
            CanonicalTime(4),
        )
        .map(|decision| decision.into_effects())
    };
    assert_eq!(
        run(true, Ok(()), Some(true), None, &classes(1, 1)),
        Ok(Some((classes(1, 1), CanonicalTime(4))))
    );
    assert_eq!(
        run(true, Ok(()), Some(true), Some(classes(1, 1)), &classes(1, 1)),
        Ok(None)
    );
    assert_eq!(
        run(true, Ok(()), Some(true), Some(classes(1, 1)), &classes(1, 2)),
        Err(EngineError::Protocol(ProtocolError::VersionConflict))
    );
    assert_eq!(
        run(true, Ok(()), Some(false), None, &classes(1, 1)),
        Err(EngineError::Protocol(
            ProtocolError::RequestClassOutsidePolicy
        ))
    );
    assert_eq!(
        run(true, Ok(()), None, None, &classes(1, 1)),
        Err(EngineError::Protocol(ProtocolError::PolicyInvalid))
    );
    assert_eq!(
        run(
            true,
            Err(SecurityError::ActorMismatch),
            Some(true),
            None,
            &classes(1, 1)
        ),
        Err(EngineError::Security(SecurityError::ActorMismatch))
    );
    assert_eq!(
        run(false, Ok(()), Some(true), None, &classes(1, 1)),
        Err(EngineError::Security(SecurityError::SigningScopeMismatch))
    );
    let own = |recipient, permitted| {
        publish(
            &PublicationContext {
                current_scope: true,
                recipient: ProtocolIdentity(recipient),
                authority: Ok(()),
                permitted,
                current: None,
            },
            &classes(1, 1),
        )
        .map(|decision| decision.into_effects())
    };
    assert_eq!(own(2, true), Ok(Some(classes(1, 1))));
    assert_eq!(
        own(3, true),
        Err(EngineError::Security(SecurityError::SigningScopeMismatch))
    );
    assert_eq!(
        own(2, false),
        Err(EngineError::Protocol(ProtocolError::PolicyInvalid))
    );
}

fn allocated() -> FinancialProgram {
    let mut p = FinancialProgram::new(scope(), SettlementUnit(1));
    let cutoff = calendar_date(2026, 1, 1).unwrap();
    let start = calendar_date(2025, 1, 1).unwrap();
    let schedule = AnnualDistributionSchedule::utc(
        2025,
        EligibilityPolicy {
            version: PolicyVersion(1),
            minimum_tenure: Duration(0),
            minimum_active_days: 1,
        },
        DistributionTerms::new(PolicyVersion(1), Money::from_minor_units(12_000), cutoff).unwrap(),
    )
    .unwrap();
    p.publish_annual_distribution(schedule, start).unwrap();
    p.enroll(
        MemberId(1),
        [1; 32],
        MembershipStatus {
            opted_in: true,
            verified: true,
            suspended: false,
        },
        start,
    )
    .unwrap();
    p.record_activity(MemberId(1), IntentionalActivity::Read, start)
        .unwrap();
    p.record_forfeiture(
        Forfeiture {
            id: PaymentOperationId(8),
            amount: Money::from_minor_units(500),
            unit: SettlementUnit(1),
            forfeited_at: start,
            requires_review: false,
            terms: FinancialTerms {
                scope: scope(),
                policy_version: PolicyVersion(1),
                corporate_basis_points: 0,
                maturity_delay: Duration(0),
            },
        },
        start,
    )
    .unwrap();
    p.clear_maturity(PaymentOperationId(8), FinancialEventId(9), start)
        .unwrap();
    p.finalize_annual_distribution(AnnualDistributionId(2025), cutoff)
        .unwrap();
    p
}

#[test]
fn distributions_reach_the_members_account_once() {
    let at = calendar_date(2026, 1, 1).unwrap();
    let program = allocated();
    let allocation = program.payables()[0].id();
    let mut programs = BTreeMap::from([(
        1,
        ProgramState {
            program,
            financial_commands: BTreeMap::new(),
        },
    )]);
    let mut book = AccountBook::new(scope());
    let mut desk = BillingDesk::new();
    assert_eq!(
        distribute(
            &book,
            &mut desk,
            &mut programs,
            SettlementUnit(1),
            allocation,
            at
        ),
        Err(EngineError::Billing(BillingError::MissingRecord))
    );
    let bank = BankVerification {
        scope: scope(),
        account: BillingAccountId(1),
        member: MemberId(1),
        person: [1; 32],
        bank_token: [9; 32],
        unit: SettlementUnit(1),
        version: 1,
        signature: Vec::new(),
    }
    .sign(&[7; 32])
    .unwrap()
    .verify(&SimulatedProcessor::new([7; 32]).verifying_key())
    .unwrap();
    book.billing_accounts.insert(1, BillingAccount::new(bank));
    for _ in 0..2 {
        distribute(
            &book,
            &mut desk,
            &mut programs,
            SettlementUnit(1),
            allocation,
            at,
        )
        .unwrap();
        assert_eq!(desk.payouts.len(), 1);
    }
    let payout = desk.payouts.values().next().copied().unwrap();
    assert_eq!(payout.amount, Money::from_minor_units(500));
    desk.payouts.insert(
        payout.id.0,
        cs_mail::finance::payments::PaymentOperation {
            amount: Money::from_minor_units(1),
            ..payout
        },
    );
    assert_eq!(
        distribute(
            &book,
            &mut desk,
            &mut programs,
            SettlementUnit(1),
            allocation,
            at
        ),
        Err(EngineError::DuplicateConflict)
    );
}

#[test]
fn correctly_signed_financial_command_cannot_replay_in_a_different_program() {
    let base = FinancialScope::new(
        [7; 32],
        ProviderRef(30),
        ProgramRef(1),
        [9; 32],
        ProtocolVersion(2),
    );
    let unit = SettlementUnit(1);
    let key = SigningKey::from_bytes(&[7; 32]).verifying_key().to_bytes();
    let command = SignedProgramCommand::sign(
        base,
        unit,
        IdempotencyKey(1),
        0,
        ProgramCommand::Enroll {
            member: MemberId(1),
            identity_digest: [4; 32],
            status: MembershipStatus {
                opted_in: true,
                verified: true,
                suspended: false,
            },
        },
        &[7; 32],
    )
    .unwrap();
    command.verify(&key).unwrap();
    let store = |scope| {
        let mut store: InMemoryStore<u32, &'static str, u8, String, &'static str> = InMemoryStore::new(scope);
        store
            .register(relationship(1, 10, 20, 1), 0, "fresh", unit)
            .unwrap();
        store
    };
    store(base)
        .execute_financial_command(unit, command.clone(), &key, CanonicalTime(1))
        .unwrap();
    for scope in [
        FinancialScope {
            deployment_domain: [8; 32],
            ..base
        },
        FinancialScope {
            program: ProgramRef(2),
            ..base
        },
        FinancialScope {
            payment_account: [8; 32],
            ..base
        },
    ] {
        assert_eq!(
            store(scope).execute_financial_command(unit, command.clone(), &key, CanonicalTime(1)),
            Err(EngineError::VersionConflict)
        );
    }
}

#[test]
fn aliases_read_one_history() {
    let mut store: InMemoryStore<u32, &'static str, u8, String, &'static str> =
        InMemoryStore::new(scope());
    let unit = SettlementUnit(1);
    // Two aliases of one principal, and a stranger, write to the same recipient.
    store.register(relationship(1, 1, 2, 1), 0, "fresh", unit).unwrap();
    store.register(relationship(2, 3, 2, 1), 0, "never kept", unit).unwrap();
    store.register(relationship(3, 4, 2, 9), 0, "stranger", unit).unwrap();
    for (index, history) in [(0, "fresh"), (1, "fresh"), (2, "stranger")] {
        assert_eq!(store.history(index).history, history);
    }
    let bytes = Some(b"command".to_vec());
    let mut run = |index, key, manifest| {
        store
            .execute(index, scope(), IdempotencyKey(key), &bytes, manifest, CanonicalTime(1))
            .map(|outcome| outcome.replayed)
    };
    assert_eq!(
        run(0, 1, Err(ProtocolError::VersionConflict)),
        Err(EngineError::Protocol(ProtocolError::VersionConflict))
    );
    assert!(run(0, 1, Ok(manifest(7, 9))).is_err());
    assert_eq!(run(0, 1, Ok(manifest(0, 9))), Ok(false));
    let mut again = manifest(1, 10);
    again.next_history.history = "not written";
    assert_eq!(run(0, 1, Ok(again)), Ok(true));
    for (index, history) in [(0, "asked once"), (1, "asked once"), (2, "stranger")] {
        assert_eq!(store.snapshot(index).history.history, history);
    }
    assert_eq!(*store.snapshot(0).projection, 9);
    assert_eq!(store.snapshot(0).revision, 1);
    assert_eq!(*store.snapshot(1).projection, 0);
    let mut other = manifest(0, 11);
    other.next_history.history = "asked twice";
    assert_eq!(
        store
            .execute(1, scope(), IdempotencyKey(1), &bytes, Ok(other), CanonicalTime(2))
            .map(|outcome| outcome.replayed),
        Ok(false)
    );
    assert_eq!(store.history(0).history, "asked twice");
    assert_eq!(store.history(1).history, "asked twice");
    assert_eq!(store.histories.len(), 2);
}
