use cs_mail::accounts::account::{AccountError, EnrollmentInput};
use cs_mail::accounts::control::{
    AccountCommand, AccountControl, AccountStatus, NewOperationalKey, SignedAccountCommand,
};
use cs_mail::accounts::keys::{KeyAuthorityOwner, KeyClaim};
use cs_mail::application::billing::{BillingDecision, BillingScope};
use cs_mail::application::book::AccountBook;
use cs_mail::application::confirmations::{
    claim_confirmations, confirmation_failed, mark_confirmed, retry_confirmation, Confirmation,
    ConfirmationFailure, OperationState, CONFIRMATION_LEASE_MILLIS,
};
use cs_mail::application::desk::{
    authorize_dispatch, billing, confirm_payment, execute_command, reverify_funding, BillingDesk,
};
use cs_mail::application::enrollment::{
    identifier_number, parse_number, seconds, ActivationFacts, ContextDigests, DecisionClaims,
    Drawn, IntentTerms, PendingEnrollment, SignedDecision,
};
use cs_mail::application::errors::{ContractError, EngineError};
use cs_mail::application::identity::{
    accept_endpoint, delivery_failure, endpoint_allowed, enrollment_step, next_event, reconciliation_step,
    ConfirmationReport, EnrollmentOutcome, EnrollmentStep, IdentityResponse,
};
use cs_mail::application::operations::{
    replacement_plan, KeyChange, KeyEntry,
    EventFacts, IdentityChange, KeyFacts, SignedSecurityEvent,
};
use cs_mail::billing::account::BillingAccount;
use cs_mail::billing::commands::{BillingCommand, SignedBillingCommand};
use cs_mail::billing::offer::{BillingError, LeapDayRule, ServiceOffer, ServicePeriod};
use cs_mail::client::BillingClient;
use cs_mail::finance::bank::BankVerification;
use cs_mail::finance::payments::{PaymentError, PaymentProcessor, SimulatedProcessor};
use cs_mail::finance::scope::FinancialScope;
use cs_mail::primitives::amounts::{CanonicalTime, Money, SettlementUnit};
use cs_mail::primitives::calendar::calendar_date;
use cs_mail::primitives::ids::{
    AccountId, BillingAccountId, IdempotencyKey, MemberId, OperationalKeyRef, PrincipalRef,
    ProgramRef, ProtocolIdentity, ProviderRef, ServiceContractId,
};
use cs_mail::primitives::versions::{PolicyVersion, ProtocolVersion};
use cs_mail::protocol::{ActorRef, SecurityError};
use ed25519_dalek::SigningKey;

const BANK_SECRET: [u8; 32] = [7; 32];
const MANAGER: [u8; 32] = [5; 32];

fn public(secret: &[u8; 32]) -> [u8; 32] {
    SigningKey::from_bytes(secret).verifying_key().to_bytes()
}

fn scope() -> FinancialScope {
    FinancialScope::new(
        [1; 32],
        ProviderRef(2),
        ProgramRef(3),
        [4; 32],
        ProtocolVersion(2),
    )
}

fn bank(id: u8, version: u64) -> BankVerification {
    BankVerification {
        scope: scope(),
        account: BillingAccountId(id as u128),
        member: MemberId(id as u128),
        person: [id; 32],
        bank_token: [id + 100; 32],
        unit: SettlementUnit(1),
        version,
        signature: Vec::new(),
    }
    .sign(&BANK_SECRET)
    .unwrap()
}

fn input(id: u8) -> EnrollmentInput {
    EnrollmentInput {
        bank: bank(id, 1),
        persona: ProtocolIdentity(id as u128),
        actor: ActorRef::Sender(ProtocolIdentity(id as u128)),
        key_ref: OperationalKeyRef(id as u128),
        initial_key: public(&MANAGER),
        maximum_unresolved: 2,
    }
}

fn digests() -> ContextDigests {
    ContextDigests {
        enrollment: Ok([41; 32]),
        bank: Ok([42; 32]),
    }
}

fn terms() -> IntentTerms {
    IntentTerms {
        version: 1,
        lifetime: 600,
    }
}

fn pending(operation: &str, id: u8) -> PendingEnrollment {
    PendingEnrollment::new(
        "mail",
        operation,
        input(id),
        1_000,
        Drawn {
            account: AccountId(1_000 + id as u128),
            principal: PrincipalRef(2_000 + id as u128),
            challenge: "challenge".into(),
        },
        digests(),
        terms(),
    )
    .unwrap()
}

fn decision(operation: &str) -> SignedDecision {
    SignedDecision {
        operation: operation.into(),
        encoded: operation.as_bytes().to_vec(),
    }
}

fn facts(subject: &str) -> ActivationFacts {
    ActivationFacts {
        digests: digests(),
        verified: Ok(DecisionClaims {
            issuer: "identity".into(),
            product: "mail".into(),
            subject_ref: subject.into(),
            binding_version: 1,
        }),
        registered: Ok(()),
        membership_identity: Ok([43; 32]),
    }
}

fn enrolled(id: u8) -> AccountBook {
    let mut book = AccountBook::new(scope());
    book.configure(public(&BANK_SECRET)).unwrap();
    book.reserve("op", &input(id), Ok(pending("op", id)))
        .unwrap();
    book.activation(decision("op"), facts("subject"), CanonicalTime(5_000))
        .unwrap();
    book
}

fn conflict() -> EngineError {
    EngineError::Contract(ContractError::Conflict)
}

#[test]
fn numbers_are_read_in_decimal_and_hexadecimal() {
    assert_eq!(parse_number("0"), Some(0));
    assert_eq!(parse_number("+0042"), Some(42));
    assert_eq!(
        parse_number("340282366920938463463374607431768211455"),
        Some(u128::MAX)
    );
    for bad in [
        "",
        "+",
        "-1",
        " 1",
        "1x",
        "340282366920938463463374607431768211456",
    ] {
        assert_eq!(parse_number(bad), None);
    }
    assert_eq!(
        identifier_number("000000000000000000000000000000fFrest"),
        Ok(255)
    );
    assert_eq!(
        identifier_number("ffffffffffffffffffffffffffffffff"),
        Ok(u128::MAX)
    );
    assert_eq!(
        identifier_number("zz000000000000000000000000000000"),
        Err(ContractError::Unavailable)
    );
    assert_eq!(seconds(CanonicalTime(12_999)), 12);
}

#[test]
fn attempts_are_checked_and_renewed_without_changing_owners() {
    let attempt = pending("op", 1);
    assert_eq!(attempt.intent().account, "1001");
    assert_eq!(attempt.intent().expires_at, 1_600);
    assert_eq!(attempt.validate(digests()), Ok(()));
    let mut substituted = attempt.clone();
    substituted.account = AccountId(9);
    assert_eq!(
        substituted.validate(digests()),
        Err(ContractError::Context)
    );
    let other = ContextDigests {
        bank: Ok([0; 32]),
        ..digests()
    };
    assert_eq!(attempt.validate(other), Err(ContractError::Context));
    assert_eq!(
        attempt.renew(1_599, "next".into(), digests(), terms()),
        Err(ContractError::Conflict)
    );
    let renewed = attempt
        .renew(1_600, "next".into(), digests(), terms())
        .unwrap();
    assert_eq!(renewed.intent().challenge, "next");
    assert_eq!(renewed.intent().expires_at, 2_200);
    assert_eq!(renewed.account(), attempt.account());
    assert_eq!(renewed.input(), attempt.input());
    assert_eq!(
        attempt.renew(i64::MAX, "next".into(), digests(), terms()),
        Err(ContractError::Invalid)
    );
}

#[test]
fn reservations_are_exclusive_and_retries_exact() {
    let mut book = AccountBook::new(scope());
    assert_eq!(
        book.reserve("op", &input(1), Ok(pending("op", 1))),
        Err(EngineError::Contract(ContractError::Unavailable))
    );
    book.configure(public(&BANK_SECRET)).unwrap();
    assert_eq!(book.configure([1; 32]), Err(conflict()));
    let first = book
        .reserve("op", &input(1), Ok(pending("op", 1)))
        .unwrap();
    assert_eq!(
        book.reserve("op", &input(1), Err(ContractError::Unavailable)),
        Ok(first)
    );
    assert_eq!(
        book.reserve("op", &input(2), Ok(pending("op", 2))),
        Err(conflict())
    );
    let mut same_persona = input(2);
    same_persona.persona = ProtocolIdentity(1);
    same_persona.actor = ActorRef::Recipient(ProtocolIdentity(1));
    assert_eq!(
        book.reserve("other", &same_persona, Ok(pending("other", 2))),
        Err(conflict())
    );
    let mut forged = input(2);
    forged.bank.person = [9; 32];
    assert_eq!(
        book.reserve("other", &forged, Ok(pending("other", 2))),
        Err(EngineError::Billing(BillingError::Payment(
            PaymentError::InvalidSignature
        )))
    );
    let mut elsewhere = input(2);
    elsewhere.bank.scope.program = ProgramRef(99);
    assert_eq!(
        book.reserve("other", &elsewhere, Ok(pending("other", 2))),
        Err(EngineError::Contract(ContractError::Context))
    );
    book.reserve("a", &input(2), Ok(pending("a", 2))).unwrap();
    book.reserve("z", &input(3), Ok(pending("z", 3))).unwrap();
    let names: Vec<&str> = book.operations.iter().map(|op| op.name.as_str()).collect();
    assert_eq!(names, vec!["a", "op", "z"]);
    assert!(matches!(book.keys[&1], KeyClaim::Reserved { .. }));
}

#[test]
fn activation_is_all_or_nothing_and_idempotent() {
    let mut book = enrolled(1);
    assert_eq!(
        book.activation(decision("op"), facts("subject"), CanonicalTime(6_000)),
        Ok(AccountId(1_001))
    );
    let mut changed = decision("op");
    changed.encoded.push(0);
    assert_eq!(
        book.activation(changed, facts("subject"), CanonicalTime(6_000)),
        Err(conflict())
    );
    assert_eq!(
        book.keys[&1],
        KeyClaim::Assigned {
            owner: KeyAuthorityOwner::Account(AccountId(1_001)),
            actor: ActorRef::Sender(ProtocolIdentity(1)),
            key: public(&MANAGER),
        }
    );
    assert_eq!(book.product_accounts[&1_001].account.billing(), BillingAccountId(1));
    assert_eq!(book.funding_sources.len(), 1);
    assert_eq!(
        book.renewal("op", Ok(pending("op", 1))).err(),
        Some(conflict())
    );
    book.reserve("two", &input(2), Ok(pending("two", 2)))
        .unwrap();
    assert_eq!(
        book.activation(decision("two"), facts("subject"), CanonicalTime(6_000)),
        Err(conflict())
    );
    assert!(!book.managed.contains_key(&1_002));
    let mut refused = facts("second");
    refused.verified = Err(ContractError::Unauthorized);
    assert_eq!(
        book.activation(decision("two"), refused, CanonicalTime(6_000)),
        Err(EngineError::Contract(ContractError::Unauthorized))
    );
    let mut unregistered = facts("second");
    unregistered.registered = Err(SecurityError::DuplicateKey);
    assert_eq!(
        book.activation(decision("two"), unregistered, CanonicalTime(6_000)),
        Err(EngineError::Security(SecurityError::DuplicateKey))
    );
    assert_eq!(
        book.activation(decision("none"), facts("second"), CanonicalTime(6_000)),
        Err(EngineError::Contract(ContractError::Invalid))
    );
    assert_eq!(
        book.activation(decision("two"), facts("second"), CanonicalTime(6_000)),
        Ok(AccountId(1_002))
    );
}

#[test]
fn confirmations_are_leased_fenced_and_final() {
    let mut book = enrolled(1);
    let operations = &mut book.operations;
    assert_eq!(
        claim_confirmations(operations, 5, CanonicalTime(4_999)).map(|claims| claims.len()),
        Ok(0)
    );
    let claims = claim_confirmations(operations, 5, CanonicalTime(5_000)).unwrap();
    assert_eq!(claims.len(), 1);
    assert_eq!(claims[0].operation(), "op");
    assert_eq!(claims[0].generation, 1);
    assert_eq!(
        claim_confirmations(operations, 5, CanonicalTime(5_001)).map(|claims| claims.len()),
        Ok(0)
    );
    let late = CanonicalTime(5_000 + CONFIRMATION_LEASE_MILLIS);
    assert_eq!(
        mark_confirmed(operations, &claims[0], late),
        Err(ContractError::Conflict)
    );
    let second = claim_confirmations(operations, 5, late).unwrap();
    assert_eq!(second[0].generation, 2);
    assert_eq!(
        mark_confirmed(operations, &claims[0], late),
        Err(ContractError::Conflict)
    );
    confirmation_failed(operations, &second[0], ConfirmationFailure::Retryable, late).unwrap();
    match &operations[0].state {
        OperationState::Active { confirmation, .. } => assert_eq!(
            *confirmation,
            Confirmation::Pending(CanonicalTime(late.0 + 30_000))
        ),
        OperationState::AwaitingEvidence => panic!("the operation is active"),
    }
    assert_eq!(
        retry_confirmation(operations, "none", late),
        Err(ContractError::Invalid)
    );
    retry_confirmation(operations, "op", late).unwrap();
    let third = claim_confirmations(operations, 1, late).unwrap();
    mark_confirmed(operations, &third[0], late).unwrap();
    assert_eq!(
        retry_confirmation(operations, "op", late),
        Err(ContractError::Invalid)
    );
    assert_eq!(
        claim_confirmations(operations, 1, CanonicalTime(u64::MAX)).err(),
        Some(ContractError::Invalid)
    );
}

fn signed(command: AccountCommand, revision: u64, key: u128) -> SignedAccountCommand {
    SignedAccountCommand {
        account: AccountId(1_001),
        operational_key: OperationalKeyRef(1),
        expected_revision: revision,
        idempotency_key: IdempotencyKey(key),
        product: "mail".into(),
        command,
        signature: vec![],
    }
    .sign(&MANAGER)
    .unwrap()
}

fn keys() -> KeyFacts {
    KeyFacts {
        signer: Ok(public(&MANAGER)),
        grantee: Ok(()),
        registration: Ok(()),
    }
}

#[test]
fn account_commands_need_authority_and_count_once() {
    let mut book = enrolled(1);
    let add = || signed(AccountCommand::AddPersona(ProtocolIdentity(50)), 0, 1);
    let after = book.command(add(), &keys(), CanonicalTime(6_000)).unwrap();
    assert_eq!(after.revision(), 1);
    assert!(after.personas().contains(&50));
    assert_eq!(book.command(add(), &keys(), CanonicalTime(7_000)), Ok(after));
    assert_eq!(
        book.command(
            signed(AccountCommand::AddPersona(ProtocolIdentity(51)), 1, 1),
            &keys(),
            CanonicalTime(7_000)
        ),
        Err(EngineError::DuplicateConflict)
    );
    assert_eq!(
        book.command(
            signed(AccountCommand::AddPersona(ProtocolIdentity(51)), 0, 2),
            &keys(),
            CanonicalTime(7_000)
        ),
        Err(EngineError::VersionConflict)
    );
    let mut tampered = add();
    tampered.expected_revision = 1;
    assert_eq!(
        book.command(tampered, &keys(), CanonicalTime(7_000)),
        Err(EngineError::Contract(ContractError::Unauthorized))
    );
    let mut unknown = keys();
    unknown.signer = Err(SecurityError::KeyRefused);
    assert_eq!(
        book.command(add(), &unknown, CanonicalTime(7_000)),
        Err(EngineError::Security(SecurityError::KeyRefused))
    );
    // A persona that another enrollment reserved is taken.
    book.reserve("two", &input(2), Ok(pending("two", 2)))
        .unwrap();
    assert_eq!(
        book.command(
            signed(AccountCommand::AddPersona(ProtocolIdentity(2)), 1, 3),
            &keys(),
            CanonicalTime(7_000)
        ),
        Err(conflict())
    );
    let proven = NewOperationalKey::prove(
        AccountId(1_001),
        "mail",
        OperationalKeyRef(60),
        ActorRef::Sender(ProtocolIdentity(50)),
        &[6; 32],
    )
    .unwrap();
    let register = signed(AccountCommand::RegisterKey(proven.clone()), 1, 4);
    assert_eq!(book.managed[&1_001].state.registry.len(), 1);
    let mut refused = keys();
    refused.registration = Err(SecurityError::KeyRefused);
    assert_eq!(
        book.command(register.clone(), &refused, CanonicalTime(8_000)),
        Err(EngineError::Security(SecurityError::KeyRefused))
    );
    assert_eq!(book.managed[&1_001].state.registry.len(), 1);
    book.command(register, &keys(), CanonicalTime(8_000)).unwrap();
    assert!(book.keys.contains_key(&60));
    assert_eq!(
        book.managed[&1_001].state.registry[1],
        KeyEntry {
            at: CanonicalTime(8_000),
            change: KeyChange::Register {
                reference: OperationalKeyRef(60),
                actor: ActorRef::Sender(ProtocolIdentity(50)),
                key: public(&[6; 32]),
            },
        }
    );
    let again = signed(AccountCommand::RegisterKey(proven), 2, 5);
    assert_eq!(
        book.command(again, &keys(), CanonicalTime(8_000)),
        Err(EngineError::Security(SecurityError::DuplicateKey))
    );
}

fn event(version: u64, change: IdentityChange) -> SignedSecurityEvent {
    SignedSecurityEvent {
        product: "mail".into(),
        account: "1001".into(),
        subject_ref: "subject".into(),
        security_version: version,
        change,
        initial_key: [77; 32],
        bank_digest: [42; 32],
        encoded: vec![1, 2, 3],
    }
}

fn verdict() -> EventFacts {
    EventFacts {
        verified: Ok(()),
        records: vec![(OperationalKeyRef(1), 4)],
        replacement: Ok(()),
        bank_digest: Ok([42; 32]),
    }
}

#[test]
fn identity_events_are_applied_in_order_and_suspend_the_account() {
    let mut book = enrolled(1);
    let none = || Err(BillingError::Conflict);
    let cursor = book.security_cursor(AccountId(1_001)).unwrap();
    assert_eq!(cursor.version, 1);
    let recover = || {
        event(
            2,
            IdentityChange::RecoverDevice {
                key_reference: "70".into(),
                persona: "1".into(),
            },
        )
    };
    assert_eq!(next_event(&cursor, AccountId(1_001), 1, &recover()), Ok(2));
    assert_eq!(
        next_event(&cursor, AccountId(1_001), 2, &recover()),
        Err(ContractError::Context)
    );
    assert_eq!(
        book.security_change(
            event(3, IdentityChange::LinkLogin),
            &None,
            none(),
            &verdict(),
            CanonicalTime(9_000)
        ),
        Err(EngineError::VersionConflict)
    );
    book.security_change(recover(), &None, none(), &verdict(), CanonicalTime(9_000))
        .unwrap();
    let managed = &book.managed[&1_001];
    assert_eq!(managed.version, 2);
    assert_eq!(managed.state.control.status(), AccountStatus::Suspended);
    assert!(managed.state.control.is_manager(OperationalKeyRef(70)));
    assert!(!managed.state.control.is_manager(OperationalKeyRef(1)));
    assert!(book.keys.contains_key(&70));
    let changes: Vec<KeyChange> = managed.state.registry.iter().map(|e| e.change).collect();
    assert_eq!(
        changes[1..],
        [
            KeyChange::Revoke {
                reference: OperationalKeyRef(1),
                version: 4
            },
            KeyChange::Register {
                reference: OperationalKeyRef(70),
                actor: ActorRef::Sender(ProtocolIdentity(1)),
                key: [77; 32],
            },
        ]
    );
    book.security_change(recover(), &None, none(), &verdict(), CanonicalTime(9_500))
        .unwrap();
    assert_eq!(book.managed[&1_001].state.control.revision(), 1);
    let mut altered = recover();
    altered.encoded.push(9);
    assert_eq!(
        book.security_change(altered, &None, none(), &verdict(), CanonicalTime(9_500)),
        Err(EngineError::DuplicateConflict)
    );
    assert_eq!(
        book.security_change(
            event(
                3,
                IdentityChange::RecoverDevice {
                    key_reference: "71".into(),
                    persona: "999".into()
                }
            ),
            &None,
            none(),
            &verdict(),
            CanonicalTime(9_500)
        ),
        Err(EngineError::Contract(ContractError::Unauthorized))
    );
    let fresh = BankVerification {
        bank_token: [200; 32],
        signature: vec![],
        ..bank(1, 2)
    }
    .sign(&BANK_SECRET)
    .unwrap();
    let rebound = BillingAccount::new(fresh.verify(&public(&BANK_SECRET)).unwrap());
    // An account with other evidence than what was verified is not the rebound one.
    let stale = BillingAccount::new(bank(1, 2).verify(&public(&BANK_SECRET)).unwrap());
    assert_eq!(
        book.security_change(
            event(3, IdentityChange::RebindBank),
            &Some(fresh.clone()),
            Ok(stale),
            &verdict(),
            CanonicalTime(9_600),
        ),
        Err(EngineError::Contract(ContractError::Context))
    );
    assert_eq!(book.funding_sources.len(), 1);
    book.security_change(
        event(3, IdentityChange::RebindBank),
        &Some(fresh),
        Ok(rebound),
        &verdict(),
        CanonicalTime(9_600),
    )
    .unwrap();
    assert_eq!(book.funding_sources.len(), 2);
    assert_eq!(
        book.billing_accounts[&1].bank().evidence().bank_token,
        [200; 32]
    );
}

fn offer() -> ServiceOffer {
    ServiceOffer::new(
        PolicyVersion(1),
        ServicePeriod::annual(2026, 7, 1, LeapDayRule::February28).unwrap(),
        calendar_date(2026, 4, 1).unwrap(),
        Money::from_minor_units(12_000),
        SettlementUnit(1),
    )
    .unwrap()
}

fn desk(book: &AccountBook, processor: &SimulatedProcessor) -> BillingDesk {
    let mut desk = BillingDesk::new();
    desk.configure_payment_arrangement(
        book,
        SettlementUnit(1),
        processor.verifying_key(),
        public(&BANK_SECRET),
    )
    .unwrap();
    desk.publish_service_offer(&offer()).unwrap();
    desk
}

fn purchase(revision: u64, key: u128) -> SignedBillingCommand {
    BillingClient::new(
        BillingAccountId(1),
        scope(),
        OperationalKeyRef(1),
        MANAGER,
    )
    .sign(
        revision,
        IdempotencyKey(key),
        BillingCommand::PurchaseService {
            offer: PolicyVersion(1),
        },
    )
    .unwrap()
}

#[test]
fn service_is_purchased_collected_and_posted_once() {
    let mut book = enrolled(1);
    let mut processor = SimulatedProcessor::new([8; 32]);
    let mut desk = desk(&book, &processor);
    let signer = || Ok(public(&MANAGER));
    let early = calendar_date(2026, 1, 1).unwrap();
    let due = calendar_date(2026, 4, 1).unwrap();
    let bought = execute_command(&mut book, &mut desk, purchase(0, 1), signer(), early).unwrap();
    assert_eq!(bought.len(), 1);
    let operation = bought[0];
    let work = desk.collections[&operation.id.0];
    assert_eq!(work.at, due);
    let contract = work.contract;
    assert_eq!(
        execute_command(&mut book, &mut desk, purchase(0, 1), signer(), due),
        Ok(bought)
    );
    assert_eq!(
        execute_command(&mut book, &mut desk, purchase(0, 2), signer(), due),
        Err(EngineError::VersionConflict)
    );
    assert_eq!(
        authorize_dispatch(
            &mut book,
            &mut desk,
            BillingAccountId(1),
            contract,
            operation.id,
            early
        ),
        Err(EngineError::Billing(BillingError::TooEarly))
    );
    assert_eq!(
        authorize_dispatch(
            &mut book,
            &mut desk,
            BillingAccountId(1),
            contract,
            operation.id,
            due
        ),
        Ok(Some(operation))
    );
    let receipt = processor.submit(&operation).unwrap();
    for _ in 0..2 {
        confirm_payment(
            &mut book,
            &mut desk,
            BillingAccountId(1),
            contract,
            &receipt,
            due,
        )
        .unwrap();
        assert_eq!(desk.journal.len(), 1);
        assert_eq!(book.billing_ledgers[&1].revision, 1);
    }
    assert!(book.billing_accounts[&1].covers(offer().period().start()));
    assert_eq!(
        confirm_payment(
            &mut book,
            &mut desk,
            BillingAccountId(1),
            ServiceContractId(5),
            &receipt,
            due
        ),
        Err(EngineError::Billing(BillingError::MissingRecord))
    );
}

#[test]
fn billing_refuses_strangers_and_reverifies_only_the_same_bank() {
    let mut book = enrolled(1);
    let processor = SimulatedProcessor::new([8; 32]);
    let mut counter = desk(&book, &processor);
    let at = calendar_date(2026, 1, 1).unwrap();
    assert_eq!(
        execute_command(
            &mut book,
            &mut counter,
            purchase(0, 1),
            Err(SecurityError::KeyRefused),
            at
        ),
        Err(EngineError::Security(SecurityError::KeyRefused))
    );
    assert_eq!(
        execute_command(
            &mut book,
            &mut counter,
            purchase(0, 1),
            Ok(public(&[9; 32])),
            at
        ),
        Err(EngineError::Billing(BillingError::Conflict))
    );
    let mut changed = offer();
    changed.price = Money::from_minor_units(1);
    assert_eq!(
        counter.publish_service_offer(&changed),
        Err(EngineError::Billing(BillingError::Conflict))
    );
    assert_eq!(
        counter.configure_payment_arrangement(
            &book,
            SettlementUnit(1),
            [1; 32],
            public(&BANK_SECRET)
        ),
        Err(EngineError::Billing(BillingError::Conflict))
    );
    assert_eq!(
        reverify_funding(&mut book, &mut counter, &bank(1, 1)),
        Err(EngineError::Billing(BillingError::Payment(
            PaymentError::InvalidOperation
        )))
    );
    reverify_funding(&mut book, &mut counter, &bank(1, 2)).unwrap();
    assert_eq!(book.funding_sources[0].source.verification, 2);
    let moved = BankVerification {
        bank_token: [3; 32],
        signature: vec![],
        ..bank(1, 3)
    }
    .sign(&BANK_SECRET)
    .unwrap();
    assert_eq!(
        reverify_funding(&mut book, &mut counter, &moved),
        Err(EngineError::Billing(BillingError::Conflict))
    );
    let mut unconfigured = BillingDesk::new();
    assert_eq!(
        reverify_funding(&mut book, &mut unconfigured, &bank(1, 3)),
        Err(EngineError::Billing(BillingError::MissingRecord))
    );
}

#[test]
fn identity_answers_call_for_one_step_each() {
    assert!(matches!(
        enrollment_step(IdentityResponse::Eligible(decision("op"))),
        Ok(EnrollmentStep::Commit(_))
    ));
    assert!(matches!(
        enrollment_step(IdentityResponse::Missing),
        Err(ContractError::Context)
    ));
    assert!(matches!(
        reconciliation_step(IdentityResponse::Missing),
        Ok(EnrollmentStep::Done(EnrollmentOutcome::AwaitingEvidence))
    ));
    assert!(matches!(
        reconciliation_step(IdentityResponse::Denied),
        Ok(EnrollmentStep::Done(EnrollmentOutcome::Denied))
    ));
    assert!(matches!(
        reconciliation_step(IdentityResponse::Confirmed),
        Err(ContractError::Context)
    ));
    assert_eq!(delivery_failure(Ok(IdentityResponse::Confirmed)), None);
    let mut report = ConfirmationReport::new();
    assert_eq!(report.count("a".into(), None), None);
    assert_eq!(
        report.count("b".into(), delivery_failure(Err(ContractError::Unavailable))),
        Some(ConfirmationFailure::Retryable)
    );
    assert_eq!(
        report.count(
            "c".into(),
            delivery_failure(Ok(IdentityResponse::ReviewRequired))
        ),
        Some(ConfirmationFailure::Intervention(ContractError::Context))
    );
    assert_eq!(
        (report.confirmed, report.retryable, report.intervention),
        (1, 1, 1)
    );
    assert_eq!(report.failures.len(), 2);
    assert!(endpoint_allowed("https", Some("identity.example")));
    assert!(endpoint_allowed("http", Some("localhost")));
    assert!(!endpoint_allowed("http", Some("identity.example")));
    assert!(!endpoint_allowed("ftp", Some("localhost")));
}

#[test]
fn accounts_keep_a_manager_and_close_for_good() {
    let mut control = AccountControl::new(ProtocolIdentity(1), OperationalKeyRef(1)).unwrap();
    assert_eq!(
        control.apply(&AccountCommand::RevokeManager(OperationalKeyRef(1))),
        Err(AccountError::InvalidInput)
    );
    control
        .apply(&AccountCommand::GrantManager(OperationalKeyRef(2)))
        .unwrap();
    control
        .apply(&AccountCommand::RevokeManager(OperationalKeyRef(1)))
        .unwrap();
    control
        .apply(&AccountCommand::SetStatus(AccountStatus::Closed))
        .unwrap();
    assert_eq!(
        control.apply(&AccountCommand::SetStatus(AccountStatus::Active)),
        Err(AccountError::InvalidInput)
    );
    control.apply_security_change(None).unwrap();
    assert_eq!(control.status(), AccountStatus::Closed);
    assert!(AccountControl::new(ProtocolIdentity(0), OperationalKeyRef(1)).is_err());
}

#[test]
fn keys_are_claimed_once() {
    let claim = KeyClaim::Reserved {
        enrollment: "op".into(),
        intended_owner: AccountId(1),
        actor: ActorRef::Sender(ProtocolIdentity(1)),
        key: [1; 32],
    };
    assert!(claim.activate("other", AccountId(1)).is_err());
    assert!(claim.activate("op", AccountId(2)).is_err());
    let assigned = claim.activate("op", AccountId(1)).unwrap();
    assert!(assigned.activate("op", AccountId(1)).is_err());
}

#[test]
fn recovery_revokes_every_key_before_it_registers_one() {
    let key = OperationalKeyRef;
    let register = |reference| KeyChange::Register {
        reference: key(reference),
        actor: ActorRef::Sender(ProtocolIdentity(9)),
        key: [4; 32],
    };
    assert_eq!(
        replacement_plan(
            &vec![(key(3), 7), (key(1), 2)],
            key(5),
            ProtocolIdentity(9),
            [4; 32]
        ),
        vec![
            KeyChange::Revoke {
                reference: key(3),
                version: 7
            },
            KeyChange::Revoke {
                reference: key(1),
                version: 2
            },
            register(5),
        ]
    );
    assert_eq!(
        replacement_plan(&vec![], key(5), ProtocolIdentity(9), [4; 32]),
        vec![register(5)]
    );
}

#[test]
fn endpoints_are_https_or_local() {
    for good in [
        "https://identity.example",
        "HTTPS://Identity.Example/path?x=1",
        "http://localhost:8080/",
        "HTTP://LOCALHOST",
        "http://127.0.0.1",
        "http://[::1]:9000/x",
        "http://user@localhost/",
    ] {
        assert_eq!(accept_endpoint(good), Ok(()));
    }
    for bad in [
        "",
        "identity.example",
        "http://identity.example",
        "http://localhost.example",
        "http://localhost@identity.example",
        "http://[::2]/",
        "ftp://localhost",
        "unix:/run/identity",
        "https://",
    ] {
        assert_eq!(accept_endpoint(bad), Err(ContractError::Invalid));
    }
}

#[test]
fn billing_transactions_are_whole() {
    let mut book = enrolled(1);
    let mut processor = SimulatedProcessor::new([8; 32]);
    let mut counter = desk(&book, &processor);
    let at = calendar_date(2026, 4, 1).unwrap();
    let about = |account, offer| BillingScope {
        account: BillingAccountId(account),
        command: Some(IdempotencyKey(1)),
        offer: Some(PolicyVersion(offer)),
    };
    let signer = || Ok(public(&MANAGER));
    // Nothing is decided where the account or the offer is missing.
    for scope in [about(9, 1), about(1, 9)] {
        let mut asked = 0;
        assert_eq!(
            billing(&mut book, &mut counter, scope, signer(), |context| {
                asked += 1;
                context.execute_command(purchase(0, 1), at)
            }),
            Err(EngineError::Billing(BillingError::MissingRecord))
        );
        assert_eq!(asked, 0);
    }
    // A refusal changes nothing.
    let refusal: Result<(), EngineError> =
        billing(&mut book, &mut counter, about(1, 1), signer(), |_| {
            Err(EngineError::VersionConflict)
        });
    assert_eq!(refusal, Err(EngineError::VersionConflict));
    assert!(counter.commands.is_empty() && counter.collections.is_empty());
    assert_eq!(book.billing_accounts[&1].revision(), 0);
    let mut asked = 0;
    let bought = billing(&mut book, &mut counter, about(1, 1), signer(), |context| {
        asked += 1;
        context.execute_command(purchase(0, 1), at)
    })
    .unwrap();
    assert_eq!(asked, 1);
    assert_eq!(book.billing_accounts[&1].revision(), 1);
    assert_eq!(counter.commands[&(1, 1)].1, bought);
    assert_eq!(counter.collections.len(), 1);
    let contract = counter.collections[&bought[0].id.0].contract;
    authorize_dispatch(
        &mut book,
        &mut counter,
        BillingAccountId(1),
        contract,
        bought[0].id,
        at,
    )
    .unwrap();
    // A receipt that is already in the journal makes the whole write a conflict.
    let receipt = processor.submit(&bought[0]).unwrap();
    let mut held: Option<BillingDecision<()>> = None;
    let peeked: Result<(), EngineError> =
        billing(&mut book, &mut counter, about(1, 1), signer(), |context| {
            held = Some(context.confirm_payment(contract, &receipt, at)?);
            Err(EngineError::VersionConflict)
        });
    assert_eq!(peeked, Err(EngineError::VersionConflict));
    confirm_payment(
        &mut book,
        &mut counter,
        BillingAccountId(1),
        contract,
        &receipt,
        at,
    )
    .unwrap();
    let revision = book.billing_accounts[&1].revision();
    assert_eq!(
        billing(&mut book, &mut counter, about(1, 1), signer(), |_| Ok(held
            .take()
            .unwrap())),
        Err(EngineError::DuplicateConflict)
    );
    assert_eq!(book.billing_accounts[&1].revision(), revision);
    assert_eq!(book.billing_ledgers[&1].revision, 1);
    assert_eq!(counter.journal.len(), 1);
}
