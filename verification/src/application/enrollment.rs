//! Account enrollment: from a reserved attempt to an active account.

use super::operations::{KeyChange, KeyEntry};
use super::errors::{ContractError, EngineError};
use crate::accounts::account::{Account, AccountIdentityBinding, EnrollmentInput};
use crate::accounts::control::{AccountControl, ControlModel};
use crate::accounts::keys::{same_text, KeyAuthorityOwner, KeyClaim};
use crate::billing::account::{AccountStatus, BillingAccount};
use crate::billing::offer::BillingError;
use crate::bytes::{copy_bytes, decimal_bytes, same_32, same_bytes, utf8};
use crate::finance::funding::{FundingModel, FundingSource};
use crate::ledger::{LedgerModel, LedgerState, LedgerView};
use crate::primitives::amounts::{decimal, decimal_text, CanonicalTime};
use crate::primitives::ids::{AccountId, PrincipalRef};
use crate::protocol::SecurityError;
use vstd::prelude::*;

verus! {

/// A decimal digit.
pub open spec fn digit(byte: u8) -> bool {
    0x30 <= byte <= 0x39
}

/// The number that decimal digits make.
pub open spec fn decimal_value(digits: Seq<u8>) -> nat
    decreases digits.len(),
{
    if digits.len() == 0 {
        0
    } else {
        decimal_value(digits.drop_last()) * 10 + (digits.last() - 0x30) as nat
    }
}

/// The digits of a number's text, behind a plus sign if there is one.
pub open spec fn unsigned_digits(text: Seq<u8>) -> Seq<u8> {
    if text.len() > 0 && text[0] == 0x2b {
        text.skip(1)
    } else {
        text
    }
}

/// The number that a text writes out in decimal; none where it writes no such number, or too large
/// a one.
pub open spec fn parsed(text: Seq<u8>) -> Option<u128> {
    let digits = unsigned_digits(text);
    if digits.len() > 0 && (forall|i: int| 0 <= i < digits.len() ==> digit(#[trigger] digits[i]))
        && decimal_value(digits) <= u128::MAX {
        Some(decimal_value(digits) as u128)
    } else {
        None
    }
}

proof fn lemma_decimal_grows(digits: Seq<u8>, n: int)
    requires
        0 <= n <= digits.len(),
        forall|i: int| 0 <= i < digits.len() ==> digit(#[trigger] digits[i]),
    ensures
        decimal_value(digits.take(n)) <= decimal_value(digits),
    decreases digits.len() - n,
{
    if n < digits.len() {
        lemma_decimal_grows(digits, n + 1);
        assert(digits.take(n + 1).drop_last() =~= digits.take(n));
        assert(digit(digits[n]));
        assert(decimal_value(digits.take(n + 1)) >= decimal_value(digits.take(n)));
    } else {
        assert(digits.take(n) =~= digits);
    }
}

/// Reads a number written out in decimal, with or without a plus sign.
pub fn parse_number(text: &str) -> (number: Option<u128>)
    ensures
        number == parsed(utf8(text@)),
{
    let bytes = text.as_bytes();
    let start: usize = if bytes.len() > 0 && bytes[0] == 0x2b {
        1
    } else {
        0
    };
    let ghost digits = unsigned_digits(utf8(text@));
    assert(digits =~= bytes@.skip(start as int));
    if start == bytes.len() {
        return None;
    }
    let mut value: u128 = 0;
    let mut i: usize = start;
    assert(digits.take(0) =~= Seq::empty());
    while i < bytes.len()
        invariant
            bytes@ == utf8(text@),
            digits == unsigned_digits(utf8(text@)),
            digits == bytes@.skip(start as int),
            0 <= start <= i <= bytes@.len(),
            value == decimal_value(digits.take(i - start)),
            forall|j: int| 0 <= j < i - start ==> digit(#[trigger] digits[j]),
        decreases bytes@.len() - i,
    {
        let b = bytes[i];
        assert(digits[i - start] == b);
        if !(0x30 <= b && b <= 0x39) {
            return None;
        }
        proof {
            assert(digits.take(i + 1 - start).drop_last() =~= digits.take(i - start));
            if decimal_value(digits.take(i + 1 - start)) > u128::MAX {
                if forall|j: int| 0 <= j < digits.len() ==> digit(#[trigger] digits[j]) {
                    lemma_decimal_grows(digits, i + 1 - start);
                }
            }
        }
        let d: u128 = (b - 0x30) as u128;
        value = match value.checked_mul(10) {
            Some(tens) => match tens.checked_add(d) {
                Some(sum) => sum,
                None => return None,
            },
            None => return None,
        };
        i += 1;
    }
    assert(digits.take(i - start) =~= digits);
    Some(value)
}

/// What an enrollment attempt asks the identity service to decide.
#[derive(Debug, PartialEq, Eq)]
pub struct EnrollmentIntent {
    pub version: u64,
    pub product: String,
    pub operation: String,
    pub account: String,
    pub challenge: String,
    pub initial_key: [u8; 32],
    pub enrollment_digest: [u8; 32],
    pub bank_digest: [u8; 32],
    pub created_at: i64,
    pub expires_at: i64,
}

impl Clone for EnrollmentIntent {
    fn clone(&self) -> (copy: Self)
        ensures
            copy == *self,
    {
        EnrollmentIntent {
            version: self.version,
            product: self.product.clone(),
            operation: self.operation.clone(),
            account: self.account.clone(),
            challenge: self.challenge.clone(),
            initial_key: self.initial_key,
            enrollment_digest: self.enrollment_digest,
            bank_digest: self.bank_digest,
            created_at: self.created_at,
            expires_at: self.expires_at,
        }
    }
}

/// The version of the intents in use, and how many seconds an intent lives.
#[derive(Clone, Copy, Debug, PartialEq, Eq, Structural)]
pub struct IntentTerms {
    pub version: u64,
    pub lifetime: i64,
}

/// The digests of an enrollment and of its bank evidence, as the identity service's rules compute
/// them, or why they cannot.
#[derive(Clone, Copy)]
pub struct ContextDigests {
    pub enrollment: Result<[u8; 32], ContractError>,
    pub bank: Result<[u8; 32], ContractError>,
}

/// What chance supplies to an enrollment.
pub struct Drawn {
    pub account: AccountId,
    pub principal: PrincipalRef,
    pub challenge: String,
}

/// An enrollment attempt that owns what it has reserved.
#[derive(Debug, PartialEq, Eq)]
pub struct PendingEnrollment {
    pub account: AccountId,
    pub principal: PrincipalRef,
    pub input: EnrollmentInput,
    pub intent: EnrollmentIntent,
}

impl PendingEnrollment {
    pub open spec fn alike(&self, other: &Self) -> bool {
        &&& self.account == other.account
        &&& self.principal == other.principal
        &&& self.input.alike(&other.input)
        &&& self.intent == other.intent
    }
}

impl Clone for PendingEnrollment {
    fn clone(&self) -> (copy: Self)
        ensures
            copy.alike(self),
    {
        PendingEnrollment {
            account: self.account,
            principal: self.principal,
            input: self.input.clone(),
            intent: self.intent.clone(),
        }
    }
}

/// The value of a hexadecimal digit.
pub open spec fn hex_digit(byte: u8) -> Option<nat> {
    if 0x30 <= byte <= 0x39 {
        Some((byte - 0x30) as nat)
    } else if 0x61 <= byte <= 0x66 {
        Some((byte - 0x57) as nat)
    } else if 0x41 <= byte <= 0x46 {
        Some((byte - 0x37) as nat)
    } else {
        None
    }
}

/// The number that hexadecimal digits make.
pub open spec fn hex_value(digits: Seq<u8>) -> Option<nat>
    decreases digits.len(),
{
    if digits.len() == 0 {
        Some(0)
    } else {
        match (hex_value(digits.drop_last()), hex_digit(digits.last())) {
            (Some(value), Some(digit)) => Some(value * 16 + digit),
            _ => None,
        }
    }
}

fn hex_of(b: u8) -> (digit: Option<u8>)
    ensures
        match hex_digit(b) {
            Some(value) => digit == Some(value as u8) && value < 16,
            None => digit is None,
        },
{
    if 0x30 <= b && b <= 0x39 {
        Some(b - 0x30)
    } else if 0x61 <= b && b <= 0x66 {
        Some(b - 0x57)
    } else if 0x41 <= b && b <= 0x46 {
        Some(b - 0x37)
    } else {
        None
    }
}

/// How many numbers there are with so many hexadecimal digits.
pub open spec fn hex_span(digits: nat) -> nat
    decreases digits,
{
    if digits == 0 {
        1
    } else {
        16 * hex_span((digits - 1) as nat)
    }
}

proof fn lemma_hex_bound(digits: Seq<u8>)
    ensures
        hex_value(digits) matches Some(value) ==> value < hex_span(digits.len()),
    decreases digits.len(),
{
    if digits.len() > 0 {
        lemma_hex_bound(digits.drop_last());
    }
}

proof fn lemma_hex_span(m: nat, n: nat)
    requires
        m <= n,
    ensures
        hex_span(m) <= hex_span(n),
    decreases n,
{
    if m < n {
        lemma_hex_span(m, (n - 1) as nat);
    }
}

proof fn lemma_hex_span_31()
    ensures
        hex_span(31) == 0x10000000000000000000000000000000,
{
    reveal_with_fuel(hex_span, 32);
}

/// A failing digit fails all that it begins.
proof fn lemma_hex_fails(digits: Seq<u8>, n: int)
    requires
        0 <= n <= digits.len(),
        hex_value(digits.take(n)) is None,
    ensures
        hex_value(digits) is None,
    decreases digits.len() - n,
{
    if n < digits.len() {
        assert(digits.take(n + 1).drop_last() =~= digits.take(n));
        lemma_hex_fails(digits, n + 1);
    } else {
        assert(digits.take(n) =~= digits);
    }
}

/// The number that a signless hexadecimal identifier of 32 digits is, or that 31 digits behind a
/// plus sign make.
pub open spec fn identifier_value(digits: Seq<u8>) -> Option<nat> {
    hex_value(unsigned_digits(digits))
}

/// The number in the first 32 characters of a hexadecimal identifier. An identifier that is not
/// hexadecimal there is refused.
pub fn identifier_number(id: &str) -> (result: Result<u128, ContractError>)
    requires
        utf8(id@).len() >= 32,
    ensures
        match identifier_value(utf8(id@).take(32)) {
            Some(value) => result matches Ok(number) && number == value,
            None => result == Err::<u128, ContractError>(ContractError::Unavailable),
        },
{
    let bytes = id.as_bytes();
    let start: usize = if bytes[0] == 0x2b {
        1
    } else {
        0
    };
    let ghost digits = unsigned_digits(bytes@.take(32));
    assert(digits =~= bytes@.take(32).skip(start as int));
    let mut value: u128 = 0;
    let mut i: usize = start;
    assert(digits.take(0) =~= Seq::empty());
    proof {
        lemma_hex_span_31();
    }
    while i < 32
        invariant
            hex_span(31) == 0x10000000000000000000000000000000,
            bytes@ == utf8(id@),
            bytes@.len() >= 32,
            digits == unsigned_digits(utf8(id@).take(32)),
            digits == bytes@.take(32).skip(start as int),
            0 <= start <= i <= 32,
            start <= 1,
            hex_value(digits.take(i - start)) == Some(value as nat),
        decreases 32 - i,
    {
        let b = bytes[i];
        assert(digits[i - start] == b);
        assert(digits.take(i + 1 - start).drop_last() =~= digits.take(i - start));
        let digit: u8 = match hex_of(b) {
            Some(digit) => digit,
            None => {
                proof {
                    assert(hex_value(digits.take(i + 1 - start)) is None);
                    lemma_hex_fails(digits, i + 1 - start);
                }
                return Err(ContractError::Unavailable);
            },
        };
        proof {
            lemma_hex_bound(digits.take(i - start));
            lemma_hex_span((i - start) as nat, 31);
        }
        value = value * 16 + digit as u128;
        i += 1;
    }
    assert(digits.take(i - start) =~= digits);
    Ok(value)
}

/// The end of an intent that starts now.
pub open spec fn intent_end(now: i64, terms: IntentTerms) -> Option<i64> {
    let end = now + terms.lifetime;
    if i64::MIN <= end <= i64::MAX {
        Some(end as i64)
    } else {
        None
    }
}

impl PendingEnrollment {
    /// The attempt is what its intent says: the same account, key and evidence.
    pub open spec fn check(&self, digests: ContextDigests) -> Result<(), ContractError> {
        if !self.input.valid() {
            Err(ContractError::Invalid)
        } else if self.account.0 == 0 || self.principal.0 == 0 || self.intent.account@
            != decimal(self.account.0 as nat) || self.intent.initial_key
            != self.input.initial_key {
            Err(ContractError::Context)
        } else {
            match digests.enrollment {
                Err(e) => Err(e),
                Ok(enrollment) => if self.intent.enrollment_digest != enrollment {
                    Err(ContractError::Context)
                } else {
                    match digests.bank {
                        Err(e) => Err(e),
                        Ok(bank) => if self.intent.bank_digest != bank {
                            Err(ContractError::Context)
                        } else {
                            Ok(())
                        },
                    }
                },
            }
        }
    }

    /// A new attempt under numbers and a challenge that the backend drew; persist it before
    /// exposing the intent. Invalid input and ends that cannot be represented are refused.
    pub fn new(
        product: &str,
        operation: &str,
        input: EnrollmentInput,
        now: i64,
        drawn: Drawn,
        digests: ContextDigests,
        terms: IntentTerms,
    ) -> (result: Result<Self, ContractError>)
        ensures
            match (digests.enrollment, digests.bank, intent_end(now, terms)) {
                _ if !input.valid() => result == Err::<Self, ContractError>(ContractError::Invalid),
                (Err(e), _, _) => result == Err::<Self, ContractError>(e),
                (Ok(_), Err(e), _) => result == Err::<Self, ContractError>(e),
                (Ok(_), Ok(_), None) => result == Err::<Self, ContractError>(
                    ContractError::Invalid,
                ),
                (Ok(enrollment), Ok(bank), Some(end)) => result matches Ok(pending) && {
                    &&& pending.account == drawn.account
                    &&& pending.principal == drawn.principal
                    &&& pending.input == input
                    &&& pending.intent.version == terms.version
                    &&& pending.intent.product@ == product@
                    &&& pending.intent.operation@ == operation@
                    &&& pending.intent.account@ == decimal(drawn.account.0 as nat)
                    &&& pending.intent.challenge == drawn.challenge
                    &&& pending.intent.initial_key == input.initial_key
                    &&& pending.intent.enrollment_digest == enrollment
                    &&& pending.intent.bank_digest == bank
                    &&& pending.intent.created_at == now
                    &&& pending.intent.expires_at == end
                    &&& drawn.account.0 != 0 && drawn.principal.0 != 0 ==> pending.check(
                        digests,
                    ) is Ok
                },
            },
    {
        if input.validate().is_err() {
            return Err(ContractError::Invalid);
        }
        let enrollment_digest = match digests.enrollment {
            Ok(digest) => digest,
            Err(e) => return Err(e),
        };
        let bank_digest = match digests.bank {
            Ok(digest) => digest,
            Err(e) => return Err(e),
        };
        let expires_at: i64 = match now.checked_add(terms.lifetime) {
            Some(end) => end,
            None => return Err(ContractError::Invalid),
        };
        let intent = EnrollmentIntent {
            version: terms.version,
            product: product.to_owned(),
            operation: operation.to_owned(),
            account: decimal_text(drawn.account.0),
            challenge: drawn.challenge,
            initial_key: input.initial_key,
            enrollment_digest,
            bank_digest,
            created_at: now,
            expires_at,
        };
        Ok(PendingEnrollment { account: drawn.account, principal: drawn.principal, input, intent })
    }

    /// The attempt with a new challenge and lifetime. Stable ownership never changes, and a
    /// still-live attempt cannot be replaced.
    pub fn renew(&self, now: i64, challenge: String, digests: ContextDigests, terms: IntentTerms) -> (result:
        Result<Self, ContractError>)
        ensures
            match self.check(digests) {
                Err(e) => result == Err::<Self, ContractError>(e),
                Ok(()) => if now < self.intent.expires_at {
                    result == Err::<Self, ContractError>(ContractError::Conflict)
                } else {
                    match intent_end(now, terms) {
                        None => result == Err::<Self, ContractError>(ContractError::Invalid),
                        Some(end) => result matches Ok(renewed) && renewed.account == self.account
                            && renewed.principal == self.principal && renewed.input.alike(
                            &self.input,
                        ) && renewed.intent == (EnrollmentIntent {
                            challenge,
                            created_at: now,
                            expires_at: end,
                            ..self.intent
                        }),
                    }
                },
            },
    {
        match self.validate(digests) {
            Ok(()) => {},
            Err(e) => return Err(e),
        }
        if now < self.intent.expires_at {
            return Err(ContractError::Conflict);
        }
        let expires_at: i64 = match now.checked_add(terms.lifetime) {
            Some(end) => end,
            None => return Err(ContractError::Invalid),
        };
        let mut renewed = self.clone();
        renewed.intent.challenge = challenge;
        renewed.intent.created_at = now;
        renewed.intent.expires_at = expires_at;
        Ok(renewed)
    }

    pub fn intent(&self) -> (intent: &EnrollmentIntent)
        ensures
            *intent == self.intent,
    {
        &self.intent
    }

    pub fn input(&self) -> (input: &EnrollmentInput)
        ensures
            *input == self.input,
    {
        &self.input
    }

    pub fn account(&self) -> (account: AccountId)
        ensures
            account == self.account,
    {
        self.account
    }

    pub fn principal(&self) -> (principal: PrincipalRef)
        ensures
            principal == self.principal,
    {
        self.principal
    }

    /// Revalidates stored or received data before a transition. Substituted input, identifiers and
    /// intents are refused.
    pub fn validate(&self, digests: ContextDigests) -> (result: Result<(), ContractError>)
        ensures
            result == self.check(digests),
    {
        if self.input.validate().is_err() {
            return Err(ContractError::Invalid);
        }
        if self.account.0 == 0 || self.principal.0 == 0 || !same_text(
            self.intent.account.as_str(),
            decimal_text(self.account.0).as_str(),
        ) || !same_32(&self.intent.initial_key, &self.input.initial_key) {
            return Err(ContractError::Context);
        }
        match digests.enrollment {
            Ok(digest) => {
                if !same_32(&self.intent.enrollment_digest, &digest) {
                    return Err(ContractError::Context);
                }
            },
            Err(e) => return Err(e),
        }
        match digests.bank {
            Ok(digest) => {
                if !same_32(&self.intent.bank_digest, &digest) {
                    return Err(ContractError::Context);
                }
            },
            Err(e) => return Err(e),
        }
        Ok(())
    }
}

/// What the identity service's verified decision says of an account.
#[derive(Debug, PartialEq, Eq)]
pub struct DecisionClaims {
    pub issuer: String,
    pub product: String,
    pub subject_ref: String,
    pub binding_version: u64,
}

/// A decision of the identity service as it was received: the operation that it names, and its
/// exact bytes.
#[derive(Debug, PartialEq, Eq)]
pub struct SignedDecision {
    pub operation: String,
    pub encoded: Vec<u8>,
}

impl SignedDecision {
    pub open spec fn alike(&self, other: &Self) -> bool {
        self.operation@ == other.operation@ && self.encoded@ == other.encoded@
    }

    /// Whether two decisions are the same.
    pub fn same(&self, other: &Self) -> (same: bool)
        ensures
            same == self.alike(other),
    {
        self.operation == other.operation && same_bytes(
            self.encoded.as_slice(),
            other.encoded.as_slice(),
        )
    }
}

impl Clone for SignedDecision {
    fn clone(&self) -> (copy: Self)
        ensures
            copy.alike(self),
    {
        SignedDecision {
            operation: self.operation.clone(),
            encoded: copy_bytes(&self.encoded),
        }
    }
}

/// The account that an attempt becomes under a decision, or why it does not.
pub open spec fn activated(
    pending: PendingEnrollment,
    digests: ContextDigests,
    verified: Result<DecisionClaims, ContractError>,
) -> Result<Account, ContractError> {
    match pending.check(digests) {
        Err(e) => Err(e),
        Ok(()) => match verified {
            Err(e) => Err(e),
            Ok(claims) => if claims.issuer@.len() == 0 || claims.product@.len() == 0
                || claims.binding_version != 1 {
                Err(ContractError::Invalid)
            } else {
                Ok(
                    Account {
                        id: pending.account,
                        principal: pending.principal,
                        billing: pending.input.bank.account,
                        member: pending.input.bank.member,
                        binding: AccountIdentityBinding {
                            issuer: claims.issuer,
                            product: claims.product,
                            subject_ref: claims.subject_ref,
                            version: claims.binding_version,
                        },
                    },
                )
            },
        },
    }
}

/// The single activation rule, evaluated inside a store's transaction. `verified` is the verdict
/// on the decision for this attempt's intent at the time. Stale authority and decisions for
/// another attempt are refused.
pub fn activate(
    pending: &PendingEnrollment,
    digests: ContextDigests,
    verified: Result<DecisionClaims, ContractError>,
) -> (result: Result<Account, ContractError>)
    ensures
        result == activated(*pending, digests, verified),
{
    match pending.validate(digests) {
        Ok(()) => {},
        Err(e) => return Err(e),
    }
    let claims = match verified {
        Ok(claims) => claims,
        Err(e) => return Err(e),
    };
    let binding = match AccountIdentityBinding::new(
        claims.issuer,
        claims.product,
        claims.subject_ref,
        claims.binding_version,
    ) {
        Ok(binding) => binding,
        Err(_) => return Err(ContractError::Invalid),
    };
    match Account::new(pending.account(), pending.principal(), pending.input(), binding) {
        Ok(account) => Ok(account),
        Err(_) => Err(ContractError::Invalid),
    }
}

/// Whole seconds, as the identity service counts time.
pub fn seconds(at: CanonicalTime) -> (seconds: i64)
    ensures
        seconds == at.0 / 1000,
{
    (at.0 / 1000) as i64
}

/// What a reservation may look at.
pub struct ReservationContext {
    pub prior: Option<PendingEnrollment>,
    pub bank_key: [u8; 32],
}

/// Whether a reservation is new, and if not, whether it is the same one again; and whether the
/// authority vouches for its bank.
pub open spec fn reservation_check(
    prior: Option<PendingEnrollment>,
    bank_key: [u8; 32],
    input: EnrollmentInput,
) -> Result<(), EngineError> {
    match prior {
        Some(pending) => if pending.input.alike(&input) {
            Ok(())
        } else {
            Err(EngineError::Contract(ContractError::Conflict))
        },
        None => match input.bank.verdict(bank_key) {
            Err(e) => Err(EngineError::Billing(BillingError::Payment(e))),
            Ok(()) => Ok(()),
        },
    }
}

/// Begins an enrollment: an exact retry gets the attempt that there is, and anything new gets the
/// attempt that `fresh` makes. Changed retries and invalid bank evidence are refused.
pub fn begin(
    context: ReservationContext,
    input: &EnrollmentInput,
    fresh: Result<PendingEnrollment, ContractError>,
) -> (result: Result<PendingEnrollment, EngineError>)
    ensures
        match reservation_check(context.prior, context.bank_key, *input) {
            Err(e) => result == Err::<PendingEnrollment, EngineError>(e),
            Ok(()) => match (context.prior, fresh) {
                (Some(prior), _) => result == Ok::<PendingEnrollment, EngineError>(prior),
                (None, Ok(pending)) => result == Ok::<PendingEnrollment, EngineError>(pending),
                (None, Err(e)) => result == Err::<PendingEnrollment, EngineError>(
                    EngineError::Contract(e),
                ),
            },
        },
{
    match context.prior {
        Some(prior) => {
            if !prior.input.same(input) {
                return Err(EngineError::Contract(ContractError::Conflict));
            }
            return Ok(prior);
        },
        None => {},
    }
    match input.bank.verify(&context.bank_key) {
        Ok(_) => {},
        Err(e) => return Err(EngineError::Billing(BillingError::Payment(e))),
    }
    match fresh {
        Ok(pending) => Ok(pending),
        Err(e) => Err(EngineError::Contract(e)),
    }
}

/// What an activation may look at.
pub struct ActivationContext {
    pub pending: PendingEnrollment,
    pub prior: Option<SignedDecision>,
    pub bank_key: [u8; 32],
    pub key_claim: KeyClaim,
}

/// What is known of an attempt outside of its store: its digests, the verdict on the decision,
/// whether a new registry takes its first key, and the digest that stands for its member.
pub struct ActivationFacts {
    pub digests: ContextDigests,
    pub verified: Result<DecisionClaims, ContractError>,
    pub registered: Result<(), SecurityError>,
    pub membership_identity: Result<[u8; 32], ContractError>,
}

/// All that an activation creates.
pub struct EnrollmentRecords {
    pub product: Account,
    pub billing: BillingAccount,
    pub source: FundingSource,
    pub control: AccountControl,
    pub registry: Vec<KeyEntry>,
    pub key_claim: KeyClaim,
    pub at: CanonicalTime,
    pub membership_identity: [u8; 32],
    pub ledger: LedgerView,
}

pub struct EnrollmentDecision {
    pub account: AccountId,
    pub records: Option<EnrollmentRecords>,
}

impl EnrollmentDecision {
    pub fn into_parts(self) -> (parts: (AccountId, Option<EnrollmentRecords>))
        ensures
            parts == (self.account, self.records),
    {
        (self.account, self.records)
    }
}

/// The claim that an attempt has on its first key until it is activated.
pub open spec fn reserved_claim(pending: PendingEnrollment, claim: KeyClaim) -> bool {
    claim matches KeyClaim::Reserved { enrollment, intended_owner, actor, key } && enrollment@
        == pending.intent.operation@ && intended_owner == pending.account && actor
        == pending.input.actor && key == pending.input.initial_key
}

/// Why an attempt is not activated, if it is not.
pub open spec fn activation_fault(
    pending: PendingEnrollment,
    bank_key: [u8; 32],
    claim: KeyClaim,
    facts: ActivationFacts,
) -> Option<EngineError> {
    match activated(pending, facts.digests, facts.verified) {
        Err(e) => Some(EngineError::Contract(e)),
        Ok(_) => if !reserved_claim(pending, claim) {
            Some(EngineError::Security(SecurityError::DuplicateKey))
        } else {
            match (
                pending.input.bank.verdict(bank_key),
                facts.registered,
                facts.membership_identity,
            ) {
                (Err(e), _, _) => Some(EngineError::Billing(BillingError::Payment(e))),
                (Ok(()), Err(e), _) => Some(EngineError::Security(e)),
                (Ok(()), Ok(()), Err(e)) => Some(EngineError::Contract(e)),
                (Ok(()), Ok(()), Ok(_)) => None,
            }
        },
    }
}

impl EnrollmentRecords {
    /// The records are those of an attempt, all of them consistent with one another.
    pub open spec fn created_from(
        &self,
        pending: PendingEnrollment,
        bank_key: [u8; 32],
        facts: ActivationFacts,
        at: CanonicalTime,
    ) -> bool {
        let input = pending.input;
        &&& activated(pending, facts.digests, facts.verified) == Ok::<Account, ContractError>(
            self.product,
        )
        &&& self.billing@.bank == input.bank@
        &&& self.billing@.authority == bank_key
        &&& self.billing@.revision == 0
        &&& self.billing@.status == AccountStatus::Open
        &&& self.billing@.contracts == Map::<
            u128,
            crate::billing::contract::ContractModel,
        >::empty()
        &&& self.source@ == (FundingModel {
            token: input.bank.bank_token,
            verification: input.bank.version,
            restricted: false,
            maximum_unresolved: input.maximum_unresolved,
            attempts: Map::empty(),
            dispatched: Set::empty(),
        })
        &&& self.control@ == (ControlModel {
            status: crate::accounts::control::AccountStatus::Active,
            revision: 0,
            personas: Set::empty().insert(input.persona.0),
            managers: Set::empty().insert(input.key_ref.0),
        })
        &&& self.registry@ == seq![
            KeyEntry {
                at,
                change: KeyChange::Register {
                    reference: input.key_ref,
                    actor: input.actor,
                    key: input.initial_key,
                },
            },
        ]
        &&& self.key_claim == (KeyClaim::Assigned {
            owner: KeyAuthorityOwner::Account(pending.account),
            actor: input.actor,
            key: input.initial_key,
        })
        &&& self.at == at
        &&& facts.membership_identity == Ok::<[u8; 32], ContractError>(self.membership_identity)
        &&& self.ledger@ == (LedgerModel {
            revision: 0,
            unit: input.bank.unit,
            balances: Seq::empty(),
        })
    }
}

/// Commits a decision: an exact retry changes nothing, and a new one creates all records of the
/// account or none. Stale authority and inconsistent ownership are refused.
pub fn commit(
    context: &ActivationContext,
    decision: &SignedDecision,
    facts: ActivationFacts,
    at: CanonicalTime,
) -> (result: Result<EnrollmentDecision, EngineError>)
    ensures
        match context.prior {
            Some(prior) => if prior.alike(decision) {
                result == Ok::<EnrollmentDecision, EngineError>(
                    EnrollmentDecision { account: context.pending.account, records: None },
                )
            } else {
                result == Err::<EnrollmentDecision, EngineError>(
                    EngineError::Contract(ContractError::Conflict),
                )
            },
            None => match activation_fault(
                context.pending,
                context.bank_key,
                context.key_claim,
                facts,
            ) {
                Some(e) => result == Err::<EnrollmentDecision, EngineError>(e),
                None => result matches Ok(made) && made.account == context.pending.account && (
                made.records matches Some(records) && records.created_from(
                    context.pending,
                    context.bank_key,
                    facts,
                    at,
                )),
            },
        },
{
    let p = &context.pending;
    match &context.prior {
        Some(prior) => {
            if !prior.same(decision) {
                return Err(EngineError::Contract(ContractError::Conflict));
            }
            return Ok(EnrollmentDecision { account: p.account(), records: None });
        },
        None => {},
    }
    let product = match activate(p, facts.digests, facts.verified) {
        Ok(product) => product,
        Err(e) => return Err(EngineError::Contract(e)),
    };
    let input = p.input();
    let expected = match &context.key_claim {
        KeyClaim::Reserved { enrollment, intended_owner, actor, key } => same_text(
            enrollment.as_str(),
            p.intent().operation.as_str(),
        ) && *intended_owner == p.account() && *actor == input.actor && same_32(
            key,
            &input.initial_key,
        ),
        KeyClaim::Assigned { .. } => false,
    };
    if !expected {
        return Err(EngineError::Security(SecurityError::DuplicateKey));
    }
    let key_claim = match context.key_claim.activate(p.intent().operation.as_str(), p.account()) {
        Ok(claim) => claim,
        Err(_) => return Err(EngineError::Security(SecurityError::ActorMismatch)),
    };
    let bank = match input.bank.verify(&context.bank_key) {
        Ok(bank) => bank,
        Err(e) => return Err(EngineError::Billing(BillingError::Payment(e))),
    };
    let source = match FundingSource::verified(&bank, input.maximum_unresolved) {
        Ok(source) => source,
        Err(e) => return Err(EngineError::Billing(BillingError::Payment(e))),
    };
    let billing = BillingAccount::new(bank);
    let control = match AccountControl::new(input.persona, input.key_ref) {
        Ok(control) => control,
        Err(_) => return Err(EngineError::Contract(ContractError::Invalid)),
    };
    match facts.registered {
        Ok(()) => {},
        Err(e) => return Err(EngineError::Security(e)),
    }
    let first = KeyChange::Register {
        reference: input.key_ref,
        actor: input.actor,
        key: input.initial_key,
    };
    let mut registry: Vec<KeyEntry> = Vec::new();
    registry.push(KeyEntry { at, change: first });
    let membership_identity = match facts.membership_identity {
        Ok(digest) => digest,
        Err(e) => return Err(EngineError::Contract(e)),
    };
    let ledger = LedgerState::new(billing.unit()).view();
    Ok(
        EnrollmentDecision {
            account: product.id(),
            records: Some(
                EnrollmentRecords {
                    product,
                    billing,
                    source,
                    control,
                    registry,
                    key_claim,
                    at,
                    membership_identity,
                    ledger,
                },
            ),
        },
    )
}

/// Renewal keeps what an attempt owns: account, principal, and everything that conflicts are
/// judged by.
pub proof fn renewal_keeps_ownership(
    pending: PendingEnrollment,
    renewed: PendingEnrollment,
    other: EnrollmentInput,
)
    requires
        renewed.account == pending.account,
        renewed.principal == pending.principal,
        renewed.input.alike(&pending.input),
    ensures
        other.conflicts(&renewed.input) == other.conflicts(&pending.input),
        renewed.input.conflicts(&other) == pending.input.conflicts(&other),
{
}

/// An attempt becomes an account only if it is valid and is what its intent says, down to the digests
/// of what was enrolled and of its bank, and only under a verified decision; the account is then the
/// attempt's own, with the decision's binding.
pub proof fn accounts_are_what_was_reserved(
    pending: PendingEnrollment,
    digests: ContextDigests,
    verified: Result<DecisionClaims, ContractError>,
)
    ensures
        ({
            let result = activated(pending, digests, verified);
            let account = result->Ok_0;
            let claims = verified->Ok_0;
            &&& result is Ok <==> {
                &&& pending.input.valid()
                &&& pending.account.0 != 0
                &&& pending.principal.0 != 0
                &&& pending.intent.account@ == decimal(pending.account.0 as nat)
                &&& pending.intent.initial_key == pending.input.initial_key
                &&& digests.enrollment == Ok::<[u8; 32], ContractError>(
                    pending.intent.enrollment_digest,
                )
                &&& digests.bank == Ok::<[u8; 32], ContractError>(pending.intent.bank_digest)
                &&& verified is Ok
                &&& claims.issuer@.len() > 0
                &&& claims.product@.len() > 0
                &&& claims.binding_version == 1
            }
            &&& result is Ok ==> {
                &&& account.id == pending.account
                &&& account.principal == pending.principal
                &&& account.billing == pending.input.bank.account
                &&& account.member == pending.input.bank.member
                &&& account.binding.issuer == claims.issuer
                &&& account.binding.product == claims.product
                &&& account.binding.subject_ref == claims.subject_ref
                &&& account.binding.version == 1
            }
        }),
{
}

/// An attempt is activated only with its own key, reserved by it for its account, actor and bytes,
/// and only if the authority vouches for its bank and the key could be registered.
pub proof fn activation_takes_the_reserved_key(
    pending: PendingEnrollment,
    bank_key: [u8; 32],
    claim: KeyClaim,
    facts: ActivationFacts,
)
    ensures
        activation_fault(pending, bank_key, claim, facts) is None <==> {
            &&& activated(pending, facts.digests, facts.verified) is Ok
            &&& claim is Reserved
            &&& claim->Reserved_enrollment@ == pending.intent.operation@
            &&& claim->intended_owner == pending.account
            &&& claim->Reserved_actor == pending.input.actor
            &&& claim->Reserved_key == pending.input.initial_key
            &&& pending.input.bank.verdict(bank_key) is Ok
            &&& facts.registered is Ok
            &&& facts.membership_identity is Ok
        },
{
}

/// A name is reserved again only with the same input; a new one needs bank evidence that the
/// authority vouches for.
pub proof fn reservations_are_repeated_as_they_were(
    prior: Option<PendingEnrollment>,
    bank_key: [u8; 32],
    input: EnrollmentInput,
)
    ensures
        reservation_check(prior, bank_key, input) is Ok <==> match prior {
            Some(pending) => pending.input.bank.alike(&input.bank) && pending.input.persona
                == input.persona && pending.input.actor == input.actor && pending.input.key_ref
                == input.key_ref && pending.input.initial_key == input.initial_key
                && pending.input.maximum_unresolved == input.maximum_unresolved,
            None => input.bank.verdict(bank_key) is Ok,
        },
{
}

proof fn lemma_decimal_scale(digits: Seq<u8>, more: Seq<u8>)
    ensures
        decimal_value(digits + more) == decimal_value(digits) * decimal_span(more.len())
            + decimal_value(more),
    decreases more.len(),
{
    if more.len() == 0 {
        assert(digits + more =~= digits);
        assert(decimal_value(digits) * 1 == decimal_value(digits));
        assert(decimal_span(more.len()) == 1);
    } else {
        lemma_decimal_scale(digits, more.drop_last());
        assert((digits + more).drop_last() =~= digits + more.drop_last());
        let d = decimal_value(digits);
        let s = decimal_span((more.len() - 1) as nat);
        let last = (more.last() - 0x30) as nat;
        let rest = decimal_value(more.drop_last());
        assert((digits + more).last() == more.last());
        assert(decimal_span(more.len()) == 10 * s);
        assert((d * s + rest) * 10 + last == d * (10 * s) + (rest * 10 + last)) by (nonlinear_arith);
    }
}

/// Ten to a power.
pub open spec fn decimal_span(digits: nat) -> nat
    decreases digits,
{
    if digits == 0 {
        1
    } else {
        10 * decimal_span((digits - 1) as nat)
    }
}

/// Numbers are read by place: a text of two stretches of digits is read as the first stretch moved
/// up by as many places as the second has, and the second; one digit is read as its value; a plus
/// sign in front changes nothing.
pub proof fn numbers_are_read_by_place(front: Seq<u8>, back: Seq<u8>)
    requires
        front.len() > 0,
        back.len() > 0,
        front[0] != 0x2b,
        back[0] != 0x2b,
        parsed(front + back) is Some,
    ensures
        parsed(front) is Some,
        parsed(back) is Some,
        parsed(front + back)->Some_0 == parsed(front)->Some_0 * decimal_span(back.len())
            + parsed(back)->Some_0,
        front.len() == 1 ==> 0x30 <= front[0] <= 0x39 && parsed(front)->Some_0 == front[0] - 0x30,
        parsed(seq![0x2bu8] + (front + back)) == parsed(front + back),
{
    let all = front + back;
    assert forall|i: int| 0 <= i < front.len() implies digit(#[trigger] front[i]) by {
        assert(digit(all[i]));
    }
    assert forall|i: int| 0 <= i < back.len() implies digit(#[trigger] back[i]) by {
        assert(digit(all[front.len() + i]));
    }
    lemma_decimal_scale(front, back);
    let d = decimal_value(front);
    let s = decimal_span(back.len());
    lemma_decimal_span(back.len());
    assert(d * s >= d) by (nonlinear_arith)
        requires
            s >= 1,
            d >= 0,
    ;
    assert((seq![0x2bu8] + all).skip(1) =~= all);
    reveal_with_fuel(decimal_value, 2);
}

proof fn lemma_decimal_span(digits: nat)
    ensures
        decimal_span(digits) >= 1,
    decreases digits,
{
    if digits > 0 {
        lemma_decimal_span((digits - 1) as nat);
    }
}

/// Nothing but digits is read as a number, behind one plus sign at most.
pub proof fn numbers_are_made_of_digits(text: Seq<u8>, i: int)
    requires
        parsed(text) is Some,
        0 <= i < text.len(),
    ensures
        0x30 <= text[i] <= 0x39 || (i == 0 && text[0] == 0x2b && text.len() > 1),
{
    let digits = unsigned_digits(text);
    if text[0] == 0x2b {
        if i > 0 {
            assert(digits[i - 1] == text[i]);
        }
    } else {
        assert(digit(digits[i]));
    }
}

/// Hexadecimal digits in either case are read by place: the last digit counts for itself, and those
/// before it sixteenfold.
pub proof fn hexadecimal_is_read_by_place(digits: Seq<u8>)
    requires
        digits.len() > 0,
        digits[0] != 0x2b,
        identifier_value(digits) is Some,
    ensures
        ({
            let last = digits.last() as int;
            let value = if 0x30 <= last <= 0x39 {
                last - 0x30
            } else if 0x61 <= last <= 0x66 {
                last - 0x61 + 10
            } else {
                last - 0x41 + 10
            };
            &&& (0x30 <= last <= 0x39) || (0x61 <= last <= 0x66) || (0x41 <= last <= 0x46)
            &&& digits.len() == 1 ==> identifier_value(digits)->Some_0 == value
            &&& digits.len() > 1 ==> identifier_value(digits.drop_last()) is Some
                && identifier_value(digits)->Some_0 == identifier_value(digits.drop_last())->Some_0
                * 16 + value
        }),
{
    reveal_with_fuel(hex_value, 3);
}

proof fn lemma_written_digits(n: nat)
    ensures
        ({
            let text = decimal(n);
            let bytes = utf8(text);
            &&& vstd::utf8::is_ascii_chars(text)
            &&& text.len() > 0
            &&& bytes.len() == text.len()
            &&& forall|i: int| 0 <= i < bytes.len() ==> digit(#[trigger] bytes[i])
            &&& decimal_value(bytes) == n
        }),
    decreases n,
{
    let text = decimal(n);
    let c = (('0' as u32 + n % 10) as u32) as char;
    let last = seq![c];
    assert(c as u32 == 0x30 + n % 10);
    assert('\0' <= c <= '\u{7f}');
    if n >= 10 {
        lemma_written_digits(n / 10);
        let front = decimal(n / 10);
        assert(text == front + last);
        assert(vstd::utf8::is_ascii_chars(text)) by {
            assert forall|i: int| 0 <= i < text.len() implies '\0' <= #[trigger] text[i]
                <= '\u{7f}' by {
                if i < front.len() {
                    assert(text[i] == front[i]);
                }
            }
        }
        vstd::utf8::is_ascii_chars_encode_utf8(text);
        vstd::utf8::is_ascii_chars_encode_utf8(front);
        let bytes = utf8(text);
        assert(bytes.drop_last() =~= utf8(front)) by {
            assert forall|i: int| 0 <= i < front.len() implies bytes[i] == utf8(front)[i] by {
                assert(text[i] == front[i]);
            }
        }
        assert(bytes.last() == (0x30 + n % 10) as u8);
        assert forall|i: int| 0 <= i < bytes.len() implies digit(#[trigger] bytes[i]) by {
            if i < front.len() {
                assert(bytes[i] == utf8(front)[i]);
            }
        }
    } else {
        assert(text =~= last);
        assert(vstd::utf8::is_ascii_chars(text));
        vstd::utf8::is_ascii_chars_encode_utf8(text);
        let bytes = utf8(text);
        assert(bytes[0] == (0x30 + n % 10) as u8);
        assert(bytes.drop_last() =~= Seq::empty());
        reveal_with_fuel(decimal_value, 2);
    }
}

/// Numbers are read as they are written: the decimal text of a number is read as that number.
pub proof fn numbers_are_read_as_written(n: u128)
    ensures
        parsed(utf8(decimal(n as nat))) == Some(n),
{
    lemma_written_digits(n as nat);
    let bytes = utf8(decimal(n as nat));
    assert(digit(bytes[0]));
}

/// Numbers are written in decimal digits, without a zero in front: what JSON has for a number reads
/// as that number.
pub proof fn numbers_are_written_in_digits(n: nat)
    ensures
        ({
            let digits = decimal_bytes(n);
            &&& digits.len() > 0
            &&& forall|i: int| 0 <= i < digits.len() ==> 0x30 <= #[trigger] digits[i] <= 0x39
            &&& decimal_value(digits) == n
            &&& n > 0 ==> digits[0] != 0x30
        }),
    decreases n,
{
    let digits = decimal_bytes(n);
    if n < 10 {
        assert(digits.drop_last() =~= Seq::empty());
        reveal_with_fuel(decimal_value, 2);
    } else {
        numbers_are_written_in_digits(n / 10);
        let front = decimal_bytes(n / 10);
        assert(digits.drop_last() =~= front);
        assert forall|i: int| 0 <= i < digits.len() implies 0x30 <= #[trigger] digits[i]
            <= 0x39 by {
            if i < front.len() {
                assert(digits[i] == front[i]);
            }
        }
        assert(digits[0] == front[0]);
    }
}

} // verus!
