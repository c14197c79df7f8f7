//! Payment operations, the evidence that a processor signs for them, and a simulated processor.

use super::scope::{scopes_delimit_themselves, FinancialScope};
use crate::bytes::{
    be_bytes, copy_bytes, is_zero_32, lemma_32_delimits, lemma_be_delimits, lemma_byte_delimits,
    lemma_spans, lemma_split, push_32, push_all, push_be, push_text, same_32, same_bytes, utf8,
    zero_32,
};
use crate::crypto::{
    digest_id, ed25519_accepts_strictly, ed25519_public, ed25519_signature, id_of, public_key,
    sha256, sha256_of, sign, verify_strict,
};
use crate::maps::{
    count, keys_in_order, keys_of, lemma_sorted_keys, lookup, put, sorted_keys,
};
use crate::primitives::amounts::{Money, SettlementUnit};
use crate::primitives::ids::{AllocationId, FinancialEventId, PaymentOperationId, RequestId};
use crate::primitives::references::RelationshipRef;
use std::collections::BTreeMap;
use vstd::prelude::*;

verus! {

#[derive(Clone, Copy, Debug, PartialEq, Eq, Hash, Structural)]
pub enum PaymentKind {
    Capture,
    Refund { capture: PaymentOperationId },
    MemberPayout { allocation: AllocationId },
}

#[derive(Clone, Copy, Debug, PartialEq, Eq, Structural)]
pub enum PaymentError {
    FundingRestricted,
    InvalidSignature,
    OperationMismatch,
    DuplicateConflict,
    Unavailable,
    InvalidOperation,
}

#[derive(Clone, Copy, Debug, PartialEq, Eq, Hash)]
pub struct PaymentOperation {
    pub scope: FinancialScope,
    pub id: PaymentOperationId,
    pub kind: PaymentKind,
    pub amount: Money,
    pub unit: SettlementUnit,
    /// Provider token for the original payment method or verified member destination.
    pub destination: [u8; 32],
}

impl PaymentKind {
    pub open spec fn canonical(self) -> Seq<u8> {
        match self {
            PaymentKind::Capture => seq![0u8],
            PaymentKind::Refund { capture } => seq![1u8] + be_bytes(capture.0 as nat, 16),
            PaymentKind::MemberPayout { allocation } => seq![2u8] + be_bytes(
                allocation.0 as nat,
                16,
            ),
        }
    }
}

impl PaymentOperation {
    pub open spec fn valid(&self) -> bool {
        &&& self.id.0 != 0
        &&& self.amount.0 != 0
        &&& !zero_32(self.destination)
        &&& match self.kind {
            PaymentKind::Capture => true,
            PaymentKind::Refund { capture } => capture.0 != 0 && capture != self.id,
            PaymentKind::MemberPayout { allocation } => allocation.0 != 0,
        }
    }

    /// What an operation's digest is made of.
    pub open spec fn canonical(&self) -> Seq<u8> {
        utf8("cs-mail/payment-operation/v2"@) + self.scope.canonical() + be_bytes(
            self.id.0 as nat,
            16,
        ) + self.kind.canonical() + be_bytes(self.amount.0 as nat, 8) + be_bytes(
            self.unit.0 as nat,
            4,
        ) + self.destination@
    }

    /// Refuses absent identifiers, amounts and destinations, and refunds of themselves.
    pub fn validate(&self) -> (result: Result<(), PaymentError>)
        ensures
            result is Ok <==> self.valid(),
            result matches Err(e) ==> e == PaymentError::InvalidOperation,
    {
        if self.id.0 == 0 || self.amount.is_zero() || is_zero_32(&self.destination) {
            return Err(PaymentError::InvalidOperation);
        }
        match self.kind {
            PaymentKind::Refund { capture } => {
                if capture.0 == 0 || capture == self.id {
                    Err(PaymentError::InvalidOperation)
                } else {
                    Ok(())
                }
            },
            PaymentKind::MemberPayout { allocation } => {
                if allocation.0 == 0 {
                    Err(PaymentError::InvalidOperation)
                } else {
                    Ok(())
                }
            },
            PaymentKind::Capture => Ok(()),
        }
    }

    pub fn digest(&self) -> (digest: [u8; 32])
        ensures
            digest@ == sha256_of(self.canonical()),
    {
        let mut bytes: Vec<u8> = Vec::new();
        push_text(&mut bytes, "cs-mail/payment-operation/v2");
        push_all(&mut bytes, self.scope.canonical_bytes().as_slice());
        push_be(&mut bytes, self.id.0, 16);
        match self.kind {
            PaymentKind::Capture => {
                bytes.push(0);
            },
            PaymentKind::Refund { capture } => {
                bytes.push(1);
                push_be(&mut bytes, capture.0, 16);
            },
            PaymentKind::MemberPayout { allocation } => {
                bytes.push(2);
                push_be(&mut bytes, allocation.0, 16);
            },
        }
        push_be(&mut bytes, self.amount.0 as u128, 8);
        push_be(&mut bytes, self.unit.0 as u128, 4);
        push_32(&mut bytes, &self.destination);
        assert(bytes@ =~= self.canonical());
        sha256(bytes.as_slice())
    }

    /// Whether two operations are the same.
    pub fn same(&self, other: &Self) -> (same: bool)
        ensures
            same == (*self == *other),
    {
        self.scope.same(&other.scope) && self.id == other.id && self.kind == other.kind
            && self.amount == other.amount && self.unit == other.unit && same_32(
            &self.destination,
            &other.destination,
        )
    }
}

proof fn lemma_kinds_delimit(a: PaymentKind, x: Seq<u8>, b: PaymentKind, y: Seq<u8>)
    requires
        a.canonical() + x == b.canonical() + y,
    ensures
        a == b,
        x == y,
{
    lemma_spans();
    let (at, av, al) = match a {
        PaymentKind::Capture => (0u8, 0u128, Seq::empty()),
        PaymentKind::Refund { capture } => (1u8, capture.0, be_bytes(capture.0 as nat, 16)),
        PaymentKind::MemberPayout { allocation } => (
            2u8,
            allocation.0,
            be_bytes(allocation.0 as nat, 16),
        ),
    };
    let (bt, bv, bl) = match b {
        PaymentKind::Capture => (0u8, 0u128, Seq::empty()),
        PaymentKind::Refund { capture } => (1u8, capture.0, be_bytes(capture.0 as nat, 16)),
        PaymentKind::MemberPayout { allocation } => (
            2u8,
            allocation.0,
            be_bytes(allocation.0 as nat, 16),
        ),
    };
    assert(a.canonical() + x =~= seq![at] + (al + x));
    assert(b.canonical() + y =~= seq![bt] + (bl + y));
    lemma_byte_delimits(at, al + x, bt, bl + y);
    if at == 0 {
        assert(al + x =~= x);
        assert(bl + y =~= y);
    } else {
        lemma_be_delimits(av as nat, x, bv as nat, y, 16);
    }
}

proof fn lemma_nest(
    a: Seq<u8>,
    b: Seq<u8>,
    c: Seq<u8>,
    d: Seq<u8>,
    e: Seq<u8>,
    f: Seq<u8>,
    g: Seq<u8>,
)
    ensures
        a + b + c + d + e + f + g == a + (b + (c + (d + (e + (f + g))))),
{
    assert(a + b + c + d + e + f + g =~= a + (b + (c + (d + (e + (f + g))))));
}

/// What is digested of an operation determines the operation: its scope in every dimension, its
/// identity, purpose, amount, unit and destination.
pub proof fn operations_are_bound(a: PaymentOperation, b: PaymentOperation)
    requires
        a.canonical() == b.canonical(),
    ensures
        a == b,
{
    lemma_spans();
    let tag = utf8("cs-mail/payment-operation/v2"@);
    let (ai, bi) = (be_bytes(a.id.0 as nat, 16), be_bytes(b.id.0 as nat, 16));
    let (am, bm) = (be_bytes(a.amount.0 as nat, 8), be_bytes(b.amount.0 as nat, 8));
    let (au, bu) = (be_bytes(a.unit.0 as nat, 4), be_bytes(b.unit.0 as nat, 4));
    lemma_nest(tag, a.scope.canonical(), ai, a.kind.canonical(), am, au, a.destination@);
    lemma_nest(tag, b.scope.canonical(), bi, b.kind.canonical(), bm, bu, b.destination@);
    let (a4, b4) = (au + a.destination@, bu + b.destination@);
    let (a3, b3) = (am + a4, bm + b4);
    let (a2, b2) = (a.kind.canonical() + a3, b.kind.canonical() + b3);
    let (a1, b1) = (ai + a2, bi + b2);
    lemma_split(tag, a.scope.canonical() + a1, tag, b.scope.canonical() + b1);
    scopes_delimit_themselves(a.scope, a1, b.scope, b1);
    lemma_be_delimits(a.id.0 as nat, a2, b.id.0 as nat, b2, 16);
    lemma_kinds_delimit(a.kind, a3, b.kind, b3);
    lemma_be_delimits(a.amount.0 as nat, a4, b.amount.0 as nat, b4, 8);
    lemma_be_delimits(a.unit.0 as nat, a.destination@, b.unit.0 as nat, b.destination@, 4);
    crate::bytes::lemma_array_32(a.destination, b.destination);
}

/// What the identifier of a request's payment is made of.
pub open spec fn request_payment_bytes(
    scope: FinancialScope,
    relationship: RelationshipRef,
    request: RequestId,
    refund: bool,
) -> Seq<u8> {
    utf8("cs-mail/request-payment/v2"@) + scope.canonical() + be_bytes(
        relationship.derivation_version as nat,
        2,
    ) + relationship.bytes@ + be_bytes(request.0 as nat, 16) + seq![
        if refund {
            1u8
        } else {
            0u8
        },
    ]
}

/// The identifier of the capture, or of the refund, of a request.
pub fn request_payment_id(
    scope: FinancialScope,
    relationship: RelationshipRef,
    request: RequestId,
    refund: bool,
) -> (id: PaymentOperationId)
    ensures
        id.0 == digest_id(request_payment_bytes(scope, relationship, request, refund)),
{
    let mut bytes: Vec<u8> = Vec::new();
    push_text(&mut bytes, "cs-mail/request-payment/v2");
    push_all(&mut bytes, scope.canonical_bytes().as_slice());
    push_be(&mut bytes, relationship.derivation_version as u128, 2);
    push_32(&mut bytes, &relationship.bytes);
    push_be(&mut bytes, request.0, 16);
    bytes.push(
        if refund {
            1
        } else {
            0
        },
    );
    assert(bytes@ =~= request_payment_bytes(scope, relationship, request, refund));
    PaymentOperationId(id_of(bytes.as_slice()))
}

/// A request's payment identifier is made of its scope, relationship, request and direction: what
/// is digested determines all four.
pub proof fn request_payments_are_bound(
    s: FinancialScope,
    r: RelationshipRef,
    q: RequestId,
    refund: bool,
    s2: FinancialScope,
    r2: RelationshipRef,
    q2: RequestId,
    refund2: bool,
)
    requires
        request_payment_bytes(s, r, q, refund) == request_payment_bytes(s2, r2, q2, refund2),
    ensures
        s == s2 && r == r2 && q == q2 && refund == refund2,
{
    lemma_spans();
    let tag = utf8("cs-mail/request-payment/v2"@);
    let (av, bv) = (
        be_bytes(r.derivation_version as nat, 2),
        be_bytes(r2.derivation_version as nat, 2),
    );
    let (aq, bq) = (be_bytes(q.0 as nat, 16), be_bytes(q2.0 as nat, 16));
    let ar = if refund { 1u8 } else { 0u8 };
    let br = if refund2 { 1u8 } else { 0u8 };
    lemma_nest(tag, s.canonical(), av, r.bytes@, aq, seq![ar], Seq::empty());
    lemma_nest(tag, s2.canonical(), bv, r2.bytes@, bq, seq![br], Seq::empty());
    let e = Seq::<u8>::empty();
    assert(request_payment_bytes(s, r, q, refund) =~= tag + s.canonical() + av + r.bytes@ + aq
        + seq![ar] + e);
    assert(request_payment_bytes(s2, r2, q2, refund2) =~= tag + s2.canonical() + bv + r2.bytes@
        + bq + seq![br] + e);
    let (a3, b3) = (aq + (seq![ar] + e), bq + (seq![br] + e));
    let (a2, b2) = (r.bytes@ + a3, r2.bytes@ + b3);
    let (a1, b1) = (av + a2, bv + b2);
    lemma_split(tag, s.canonical() + a1, tag, s2.canonical() + b1);
    scopes_delimit_themselves(s, a1, s2, b1);
    lemma_be_delimits(r.derivation_version as nat, a2, r2.derivation_version as nat, b2, 2);
    lemma_32_delimits(r.bytes, a3, r2.bytes, b3);
    lemma_be_delimits(q.0 as nat, seq![ar] + e, q2.0 as nat, seq![br] + e, 16);
    lemma_byte_delimits(ar, e, br, e);
}

#[derive(Clone, Copy, Debug, PartialEq, Eq, Hash, Structural)]
pub enum PaymentOutcome {
    /// Provider accepted the operation; no economic value may yet be supplied.
    Pending,
    /// Authenticated evidence satisfying the configured funding-finality policy.
    Settled,
    /// Definitive failure: no transfer occurred. This is not an unknown result.
    Failed,
    Voided,
    Reversed,
}

impl PaymentOutcome {
    pub open spec fn byte(self) -> u8 {
        match self {
            PaymentOutcome::Settled => 0,
            PaymentOutcome::Voided => 1,
            PaymentOutcome::Reversed => 2,
            PaymentOutcome::Pending => 3,
            PaymentOutcome::Failed => 4,
        }
    }
}

#[derive(Clone, Copy, Debug, PartialEq, Eq, Hash)]
pub struct PaymentEvidence {
    pub event_id: FinancialEventId,
    pub operation_id: PaymentOperationId,
    pub operation_digest: [u8; 32],
    pub outcome: PaymentOutcome,
}

/// What a processor signs of an event, an operation with its digest, and the outcome.
pub open spec fn evidence_bytes(
    event_id: FinancialEventId,
    operation_id: PaymentOperationId,
    operation_digest: Seq<u8>,
    outcome: PaymentOutcome,
) -> Seq<u8> {
    utf8("cs-mail/payment-evidence/v1"@) + be_bytes(event_id.0 as nat, 16) + be_bytes(
        operation_id.0 as nat,
        16,
    ) + operation_digest + seq![outcome.byte()]
}

impl PaymentEvidence {
    /// What a processor signs.
    pub open spec fn canonical(&self) -> Seq<u8> {
        evidence_bytes(self.event_id, self.operation_id, self.operation_digest@, self.outcome)
    }

    fn signing_bytes(&self) -> (bytes: Vec<u8>)
        ensures
            bytes@ == self.canonical(),
    {
        let mut bytes: Vec<u8> = Vec::new();
        push_text(&mut bytes, "cs-mail/payment-evidence/v1");
        push_be(&mut bytes, self.event_id.0, 16);
        push_be(&mut bytes, self.operation_id.0, 16);
        push_32(&mut bytes, &self.operation_digest);
        bytes.push(
            match self.outcome {
                PaymentOutcome::Settled => 0,
                PaymentOutcome::Voided => 1,
                PaymentOutcome::Reversed => 2,
                PaymentOutcome::Pending => 3,
                PaymentOutcome::Failed => 4,
            },
        );
        assert(bytes@ =~= self.canonical());
        bytes
    }

    /// Whether two pieces of evidence are the same.
    pub fn same(&self, other: &Self) -> (same: bool)
        ensures
            same == (*self == *other),
    {
        self.event_id == other.event_id && self.operation_id == other.operation_id && same_32(
            &self.operation_digest,
            &other.operation_digest,
        ) && self.outcome == other.outcome
    }
}

#[derive(Debug, PartialEq, Eq, Hash)]
pub struct SignedPaymentEvidence {
    pub evidence: PaymentEvidence,
    pub signature: Vec<u8>,
}

/// The evidence is about this operation.
pub open spec fn concerns(evidence: PaymentEvidence, operation: PaymentOperation) -> bool {
    evidence.operation_id == operation.id && evidence.operation_digest@ == sha256_of(
        operation.canonical(),
    )
}

impl SignedPaymentEvidence {
    pub open spec fn alike(&self, other: &Self) -> bool {
        self.evidence == other.evidence && self.signature@ == other.signature@
    }

    /// Whether a key vouches for what the evidence says of an operation, and if not, why.
    pub open spec fn verdict(&self, key: [u8; 32], operation: PaymentOperation) -> Result<
        (),
        PaymentError,
    > {
        if !concerns(self.evidence, operation) {
            Err(PaymentError::OperationMismatch)
        } else if self.evidence.outcome == PaymentOutcome::Voided && operation.kind
            != PaymentKind::Capture {
            Err(PaymentError::InvalidOperation)
        } else if !ed25519_accepts_strictly(key@, self.evidence.canonical(), self.signature@) {
            Err(PaymentError::InvalidSignature)
        } else {
            Ok(())
        }
    }

    /// Verifies provider authority and the complete original operation, including amount and
    /// unit. Invalid signatures, mismatched operations, and invalid outcome kinds are refused.
    pub fn verify(&self, key: &[u8; 32], operation: &PaymentOperation) -> (result: Result<
        (),
        PaymentError,
    >)
        ensures
            result == self.verdict(*key, *operation),
    {
        let digest = operation.digest();
        let matching = same_bytes(self.evidence.operation_digest.as_slice(), digest.as_slice());
        if self.evidence.operation_id != operation.id || !matching {
            return Err(PaymentError::OperationMismatch);
        }
        if self.evidence.outcome == PaymentOutcome::Voided && operation.kind
            != PaymentKind::Capture {
            return Err(PaymentError::InvalidOperation);
        }
        let bytes = self.evidence.signing_bytes();
        if verify_strict(key, bytes.as_slice(), self.signature.as_slice()) {
            Ok(())
        } else {
            Err(PaymentError::InvalidSignature)
        }
    }
}

impl Clone for SignedPaymentEvidence {
    fn clone(&self) -> (copy: Self)
        ensures
            copy.alike(self),
    {
        SignedPaymentEvidence { evidence: self.evidence, signature: copy_bytes(&self.signature) }
    }
}

/// Only capture operations can become a cancellation request.
#[derive(Clone, Copy, Debug, PartialEq, Eq)]
pub struct CaptureCancellation(pub PaymentOperation);

impl CaptureCancellation {
    pub open spec fn valid(&self) -> bool {
        self.0.valid() && self.0.kind == PaymentKind::Capture
    }

    /// Refuses invalid operations and those that are not captures.
    pub fn new(operation: PaymentOperation) -> (result: Result<Self, PaymentError>)
        ensures
            result == (if operation.valid() && operation.kind == PaymentKind::Capture {
                Ok(CaptureCancellation(operation))
            } else {
                Err(PaymentError::InvalidOperation)
            }),
    {
        match operation.validate() {
            Ok(()) => {},
            Err(e) => return Err(e),
        }
        if operation.kind != PaymentKind::Capture {
            return Err(PaymentError::InvalidOperation);
        }
        Ok(CaptureCancellation(operation))
    }

    pub fn operation(&self) -> (operation: &PaymentOperation)
        ensures
            *operation == self.0,
    {
        &self.0
    }
}

#[derive(Clone, Copy, Debug, PartialEq, Eq)]
pub enum ProcessorRequest {
    Submit(PaymentOperation),
    CancelCapture(CaptureCancellation),
}

/// The provider must deduplicate operation IDs and expose authoritative lookup. Unknown outcomes
/// are retried with the same ID; they never create a new charge.
pub trait PaymentProcessor {
    /// Fails when authoritative provider status cannot be obtained.
    fn lookup(&mut self, id: PaymentOperationId) -> Result<
        Option<SignedPaymentEvidence>,
        PaymentError,
    >;

    /// Returns transient provider errors, or refuses conflicting or invalid operations.
    fn submit(&mut self, operation: &PaymentOperation) -> Result<
        SignedPaymentEvidence,
        PaymentError,
    >;

    /// Refuses conflicting capture identities, or fails for unavailable processor status.
    fn cancel_capture(&mut self, request: &CaptureCancellation) -> Result<
        SignedPaymentEvidence,
        PaymentError,
    >;
}

/// Nonredeemable simulator. No bank, card network, or real money is involved.
pub struct SimulatedProcessor {
    pub secret: [u8; 32],
    pub operations: BTreeMap<u128, (PaymentOperation, SignedPaymentEvidence)>,
    pub fail_before: bool,
    pub lose_response: bool,
    pub pending_next: bool,
}

/// The operations that a processor has taken, with their latest receipts.
pub type Processed = Map<u128, (PaymentOperation, SignedPaymentEvidence)>;

/// The amount that a recorded operation refunds of a capture, unless it came to nothing.
pub open spec fn refund_amount(
    entry: (PaymentOperation, SignedPaymentEvidence),
    capture: PaymentOperationId,
) -> int {
    let outcome = entry.1.evidence.outcome;
    if entry.0.kind == (PaymentKind::Refund { capture }) && (outcome == PaymentOutcome::Pending
        || outcome == PaymentOutcome::Settled) {
        entry.0.amount.0 as int
    } else {
        0
    }
}

/// The sum of those amounts over the operations under the first `n` keys.
pub open spec fn refunded(
    operations: Processed,
    keys: Seq<u128>,
    n: nat,
    capture: PaymentOperationId,
) -> int
    decreases n,
{
    if n == 0 {
        0
    } else {
        refunded(operations, keys, (n - 1) as nat, capture) + refund_amount(
            operations[keys[n - 1]],
            capture,
        )
    }
}

/// What has been refunded, or is being refunded, of a capture.
pub open spec fn total_refunded(operations: Processed, capture: PaymentOperationId) -> int {
    let keys = sorted_keys(operations);
    refunded(operations, keys, keys.len(), capture)
}

/// A refund must be of a settled capture in the same scope, unit and destination, and may not,
/// with earlier refunds, exceed it.
pub open spec fn refund_allowed(operations: Processed, operation: PaymentOperation) -> bool {
    operation.kind matches PaymentKind::Refund { capture } ==> {
        &&& operations.contains_key(capture.0)
        &&& ({
            let (original, receipt) = operations[capture.0];
            &&& original.scope == operation.scope
            &&& original.kind == PaymentKind::Capture
            &&& receipt.evidence.outcome == PaymentOutcome::Settled
            &&& original.unit == operation.unit
            &&& original.destination == operation.destination
            &&& total_refunded(operations, capture) + operation.amount.0 <= original.amount.0
        })
    }
}

/// A receipt that a processor with this secret signed.
pub open spec fn signed_by(
    secret: [u8; 32],
    receipt: SignedPaymentEvidence,
    operation: PaymentOperation,
    event_id: FinancialEventId,
    outcome: PaymentOutcome,
) -> bool {
    &&& concerns(receipt.evidence, operation)
    &&& receipt.evidence.event_id == event_id
    &&& receipt.evidence.outcome == outcome
    &&& receipt.signature@ == ed25519_signature(secret@, receipt.evidence.canonical())
}

/// What the identifier of a cancellation is made of.
pub open spec fn cancellation_bytes(operation: PaymentOperation) -> Seq<u8> {
    utf8("cs-mail/capture-cancellation/v1"@) + sha256_of(operation.canonical())
}

impl SimulatedProcessor {
    pub fn new(secret: [u8; 32]) -> (processor: Self)
        ensures
            processor.secret == secret,
            processor.operations@ == Processed::empty(),
            !processor.fail_before && !processor.lose_response && !processor.pending_next,
    {
        SimulatedProcessor {
            secret,
            operations: BTreeMap::new(),
            fail_before: false,
            lose_response: false,
            pending_next: false,
        }
    }

    pub fn verifying_key(&self) -> (key: [u8; 32])
        ensures
            key@ == ed25519_public(self.secret@),
    {
        public_key(&self.secret)
    }

    pub fn fail_next_submission(&mut self)
        ensures
            *final(self) == (SimulatedProcessor { fail_before: true, ..*old(self) }),
    {
        self.fail_before = true;
    }

    pub fn lose_next_response(&mut self)
        ensures
            *final(self) == (SimulatedProcessor { lose_response: true, ..*old(self) }),
    {
        self.lose_response = true;
    }

    pub fn pend_next_submission(&mut self)
        ensures
            *final(self) == (SimulatedProcessor { pending_next: true, ..*old(self) }),
    {
        self.pending_next = true;
    }

    /// Nothing but the operations differs.
    pub open spec fn same_settings(&self, other: &Self) -> bool {
        self.secret == other.secret && self.fail_before == other.fail_before && self.lose_response
            == other.lose_response && self.pending_next == other.pending_next
    }

    /// Advances a simulated asynchronous operation with a distinct signed event. Missing
    /// operations and contradictory terminal changes are refused.
    pub fn resolve(
        &mut self,
        id: PaymentOperationId,
        event_id: FinancialEventId,
        outcome: PaymentOutcome,
    ) -> (result: Result<SignedPaymentEvidence, PaymentError>)
        ensures
            final(self).same_settings(old(self)),
            ({
                let known = old(self).operations@;
                let pending = known.contains_key(id.0) && known[id.0].1.evidence.outcome
                    == PaymentOutcome::Pending;
                let terminal = outcome == PaymentOutcome::Settled || outcome
                    == PaymentOutcome::Failed || outcome == PaymentOutcome::Voided;
                &&& !(pending && terminal) ==> result == Err::<SignedPaymentEvidence, PaymentError>(
                    PaymentError::InvalidOperation,
                )
                &&& (pending && terminal && known[id.0].0.id != id) ==> result == Err::<
                    SignedPaymentEvidence,
                    PaymentError,
                >(PaymentError::OperationMismatch)
                &&& (pending && terminal && outcome == PaymentOutcome::Voided
                    && known[id.0].0.kind != PaymentKind::Capture && known[id.0].0.id == id)
                    ==> result == Err::<SignedPaymentEvidence, PaymentError>(
                    PaymentError::InvalidOperation,
                )
                &&& result matches Ok(receipt) ==> {
                    &&& pending && terminal
                    &&& signed_by(old(self).secret, receipt, known[id.0].0, event_id, outcome)
                    &&& final(self).operations@.contains_key(id.0)
                    &&& final(self).operations@ == known.insert(
                        id.0,
                        (known[id.0].0, final(self).operations@[id.0].1),
                    )
                    &&& final(self).operations@[id.0].1.alike(&receipt)
                }
                &&& result matches Err(e) ==> final(self).operations@ == known
                &&& pending && terminal && known[id.0].0.id == id && !(outcome
                    == PaymentOutcome::Voided && known[id.0].0.kind != PaymentKind::Capture) ==> {
                    let statement = evidence_bytes(
                        event_id,
                        id,
                        sha256_of(known[id.0].0.canonical()),
                        outcome,
                    );
                    if ed25519_accepts_strictly(
                        ed25519_public(old(self).secret@),
                        statement,
                        ed25519_signature(old(self).secret@, statement),
                    ) {
                        result is Ok
                    } else {
                        result == Err::<SignedPaymentEvidence, PaymentError>(
                            PaymentError::InvalidSignature,
                        )
                    }
                }
            }),
    {
        let (operation, previous_outcome) = match lookup(&self.operations, id.0) {
            Some(entry) => (entry.0, entry.1.evidence.outcome),
            None => return Err(PaymentError::InvalidOperation),
        };
        if previous_outcome != PaymentOutcome::Pending || !matches!(
            outcome,
            PaymentOutcome::Settled | PaymentOutcome::Failed | PaymentOutcome::Voided
        ) {
            return Err(PaymentError::InvalidOperation);
        }
        let receipt = self.sign(
            PaymentEvidence {
                event_id,
                operation_id: id,
                operation_digest: operation.digest(),
                outcome,
            },
        );
        match receipt.verify(&self.verifying_key(), &operation) {
            Ok(()) => {},
            Err(e) => return Err(e),
        }
        put(&mut self.operations, id.0, (operation, receipt.clone()));
        Ok(receipt)
    }

    pub fn operation_count(&self) -> (n: usize)
        ensures
            n == self.operations@.dom().len(),
    {
        count(&self.operations)
    }

    /// Emits separately authenticated reversal evidence without changing the original
    /// confirmation. Requires a previously confirmed capture or payout.
    pub fn reversal(&self, id: PaymentOperationId, event_id: FinancialEventId) -> (result: Result<
        SignedPaymentEvidence,
        PaymentError,
    >)
        ensures
            ({
                let known = self.operations@;
                let reversible = known.contains_key(id.0) && known[id.0].1.evidence.outcome
                    == PaymentOutcome::Settled && !(known[id.0].0.kind is Refund);
                if reversible {
                    result matches Ok(receipt) && receipt.evidence.event_id == event_id
                        && receipt.evidence.operation_id == id && receipt.evidence.outcome
                        == PaymentOutcome::Reversed && receipt.evidence.operation_digest@
                        == sha256_of(known[id.0].0.canonical()) && receipt.signature@
                        == ed25519_signature(self.secret@, receipt.evidence.canonical())
                } else {
                    result == Err::<SignedPaymentEvidence, PaymentError>(
                        PaymentError::InvalidOperation,
                    )
                }
            }),
    {
        let (operation, outcome) = match lookup(&self.operations, id.0) {
            Some(entry) => (entry.0, entry.1.evidence.outcome),
            None => return Err(PaymentError::InvalidOperation),
        };
        if outcome != PaymentOutcome::Settled || matches!(operation.kind, PaymentKind::Refund { .. }) {
            return Err(PaymentError::InvalidOperation);
        }
        Ok(
            self.sign(
                PaymentEvidence {
                    event_id,
                    operation_id: id,
                    operation_digest: operation.digest(),
                    outcome: PaymentOutcome::Reversed,
                },
            ),
        )
    }

    fn sign(&self, evidence: PaymentEvidence) -> (receipt: SignedPaymentEvidence)
        ensures
            receipt.evidence == evidence,
            receipt.signature@ == ed25519_signature(self.secret@, evidence.canonical()),
    {
        let bytes = evidence.signing_bytes();
        SignedPaymentEvidence { evidence, signature: sign(&self.secret, bytes.as_slice()) }
    }

    fn refunded_so_far(&self, capture: PaymentOperationId) -> (sum: Option<Money>)
        ensures
            match sum {
                Some(money) => money.0 as int == total_refunded(self.operations@, capture),
                None => total_refunded(self.operations@, capture) > u64::MAX,
            },
    {
        let keys = keys_of(&self.operations);
        let ghost m = self.operations@;
        let mut sum = Money::zero();
        let mut i: usize = 0;
        while i < keys.len()
            invariant
                m == self.operations@,
                keys@ == sorted_keys(m),
                keys_in_order(keys@, m),
                0 <= i <= keys@.len(),
                sum.0 as int == refunded(m, keys@, i as nat, capture),
            decreases keys@.len() - i,
        {
            match lookup(&self.operations, keys[i]) {
                Some(entry) => {
                    if entry.0.kind == (PaymentKind::Refund { capture }) && !matches!(
                        entry.1.evidence.outcome,
                        PaymentOutcome::Failed | PaymentOutcome::Voided | PaymentOutcome::Reversed
                    ) {
                        match sum.checked_add(entry.0.amount) {
                            Some(next) => {
                                sum = next;
                            },
                            None => {
                                proof {
                                    lemma_refunded_grows(
                                        m,
                                        keys@,
                                        (i + 1) as nat,
                                        keys@.len(),
                                        capture,
                                    );
                                }
                                return None;
                            },
                        }
                    }
                },
                None => {},
            }
            i += 1;
        }
        Some(sum)
    }

    /// A new operation that the processor would take.
    pub open spec fn takes(&self, operation: PaymentOperation) -> bool {
        operation.valid() && refund_allowed(self.operations@, operation)
    }
}

proof fn lemma_refunded_grows(
    operations: Processed,
    keys: Seq<u128>,
    i: nat,
    n: nat,
    capture: PaymentOperationId,
)
    requires
        i <= n,
    ensures
        refunded(operations, keys, i, capture) <= refunded(operations, keys, n, capture),
    decreases n,
{
    if i < n {
        lemma_refunded_grows(operations, keys, i, (n - 1) as nat, capture);
    }
}

impl PaymentProcessor for SimulatedProcessor {
    fn lookup(&mut self, id: PaymentOperationId) -> (result: Result<
        Option<SignedPaymentEvidence>,
        PaymentError,
    >)
        ensures
            *final(self) == *old(self),
            result matches Ok(found) && match found {
                Some(receipt) => old(self).operations@.contains_key(id.0) && receipt.alike(
                    &old(self).operations@[id.0].1,
                ),
                None => !old(self).operations@.contains_key(id.0),
            },
    {
        match lookup(&self.operations, id.0) {
            Some(entry) => Ok(Some(entry.1.clone())),
            None => Ok(None),
        }
    }

    fn submit(&mut self, operation: &PaymentOperation) -> (result: Result<
        SignedPaymentEvidence,
        PaymentError,
    >)
        ensures
            ({
                let known = old(self).operations@;
                let id = operation.id;
                if known.contains_key(id.0) {
                    &&& *final(self) == *old(self)
                    &&& if known[id.0].0 == *operation {
                        result matches Ok(receipt) && receipt.alike(&known[id.0].1)
                    } else {
                        result == Err::<SignedPaymentEvidence, PaymentError>(
                            PaymentError::DuplicateConflict,
                        )
                    }
                } else if old(self).fail_before {
                    &&& *final(self) == (SimulatedProcessor { fail_before: false, ..*old(self) })
                    &&& result == Err::<SignedPaymentEvidence, PaymentError>(
                        PaymentError::Unavailable,
                    )
                } else if !old(self).takes(*operation) {
                    &&& *final(self) == *old(self)
                    &&& result == Err::<SignedPaymentEvidence, PaymentError>(
                        PaymentError::InvalidOperation,
                    )
                } else {
                    let now = final(self).operations@;
                    let outcome = if old(self).pending_next {
                        PaymentOutcome::Pending
                    } else {
                        PaymentOutcome::Settled
                    };
                    &&& now.contains_key(id.0)
                    &&& now == known.insert(id.0, (*operation, now[id.0].1))
                    &&& signed_by(
                        old(self).secret,
                        now[id.0].1,
                        *operation,
                        FinancialEventId(id.0),
                        outcome,
                    )
                    &&& final(self).secret == old(self).secret
                    &&& !final(self).fail_before && !final(self).pending_next && !final(
                        self).lose_response
                    &&& if old(self).lose_response {
                        result == Err::<SignedPaymentEvidence, PaymentError>(
                            PaymentError::Unavailable,
                        )
                    } else {
                        result matches Ok(receipt) && receipt.alike(&now[id.0].1)
                    }
                }
            }),
    {
        match lookup(&self.operations, operation.id.0) {
            Some(entry) => {
                return if entry.0.same(operation) {
                    Ok(entry.1.clone())
                } else {
                    Err(PaymentError::DuplicateConflict)
                };
            },
            None => {},
        }
        if self.fail_before {
            self.fail_before = false;
            return Err(PaymentError::Unavailable);
        }
        match operation.validate() {
            Ok(()) => {},
            Err(e) => return Err(e),
        }
        match operation.kind {
            PaymentKind::Refund { capture } => {
                let (original, outcome) = match lookup(&self.operations, capture.0) {
                    Some(entry) => (entry.0, entry.1.evidence.outcome),
                    None => return Err(PaymentError::InvalidOperation),
                };
                if !original.scope.same(&operation.scope) || original.kind != PaymentKind::Capture
                    || outcome != PaymentOutcome::Settled || original.unit != operation.unit
                    || !same_32(&original.destination, &operation.destination)
                    || operation.amount.0 > original.amount.0 {
                    proof {
                        lemma_refunded_grows(
                            self.operations@,
                            sorted_keys(self.operations@),
                            0,
                            sorted_keys(self.operations@).len(),
                            capture,
                        );
                    }
                    return Err(PaymentError::InvalidOperation);
                }
                let total = match self.refunded_so_far(capture) {
                    Some(sum) => sum.checked_add(operation.amount),
                    None => None,
                };
                match total {
                    Some(sum) => {
                        if sum.0 > original.amount.0 {
                            return Err(PaymentError::InvalidOperation);
                        }
                    },
                    None => return Err(PaymentError::InvalidOperation),
                }
            },
            _ => {},
        }
        let outcome = if self.pending_next {
            PaymentOutcome::Pending
        } else {
            PaymentOutcome::Settled
        };
        self.pending_next = false;
        let receipt = self.sign(
            PaymentEvidence {
                event_id: FinancialEventId(operation.id.0),
                operation_id: operation.id,
                operation_digest: operation.digest(),
                outcome,
            },
        );
        put(&mut self.operations, operation.id.0, (*operation, receipt.clone()));
        if self.lose_response {
            self.lose_response = false;
            Err(PaymentError::Unavailable)
        } else {
            Ok(receipt)
        }
    }

    fn cancel_capture(&mut self, request: &CaptureCancellation) -> (result: Result<
        SignedPaymentEvidence,
        PaymentError,
    >)
        ensures
            ({
                let known = old(self).operations@;
                let operation = request.0;
                let id = operation.id;
                if known.contains_key(id.0) && known[id.0].0 != operation {
                    &&& *final(self) == *old(self)
                    &&& result == Err::<SignedPaymentEvidence, PaymentError>(
                        PaymentError::DuplicateConflict,
                    )
                } else if known.contains_key(id.0) && known[id.0].1.evidence.outcome
                    != PaymentOutcome::Pending {
                    &&& *final(self) == *old(self)
                    &&& result matches Ok(receipt) && receipt.alike(&known[id.0].1)
                } else if old(self).fail_before {
                    &&& *final(self) == (SimulatedProcessor { fail_before: false, ..*old(self) })
                    &&& result == Err::<SignedPaymentEvidence, PaymentError>(
                        PaymentError::Unavailable,
                    )
                } else {
                    let now = final(self).operations@;
                    &&& now.contains_key(id.0)
                    &&& now == known.insert(id.0, (operation, now[id.0].1))
                    &&& signed_by(
                        old(self).secret,
                        now[id.0].1,
                        operation,
                        FinancialEventId(digest_id(cancellation_bytes(operation))),
                        PaymentOutcome::Voided,
                    )
                    &&& final(self).secret == old(self).secret
                    &&& !final(self).fail_before && final(self).pending_next == old(
                        self).pending_next && !final(self).lose_response
                    &&& if old(self).lose_response {
                        result == Err::<SignedPaymentEvidence, PaymentError>(
                            PaymentError::Unavailable,
                        )
                    } else {
                        result matches Ok(receipt) && receipt.alike(&now[id.0].1)
                    }
                }
            }),
    {
        let operation = request.0;
        match lookup(&self.operations, operation.id.0) {
            Some(entry) => {
                if !entry.0.same(&operation) {
                    return Err(PaymentError::DuplicateConflict);
                }
                if entry.1.evidence.outcome != PaymentOutcome::Pending {
                    return Ok(entry.1.clone());
                }
            },
            None => {},
        }
        if self.fail_before {
            self.fail_before = false;
            return Err(PaymentError::Unavailable);
        }
        let digest = operation.digest();
        let mut bytes: Vec<u8> = Vec::new();
        push_text(&mut bytes, "cs-mail/capture-cancellation/v1");
        push_32(&mut bytes, &digest);
        assert(bytes@ =~= cancellation_bytes(operation));
        let receipt = self.sign(
            PaymentEvidence {
                event_id: FinancialEventId(id_of(bytes.as_slice())),
                operation_id: operation.id,
                operation_digest: digest,
                outcome: PaymentOutcome::Voided,
            },
        );
        put(&mut self.operations, operation.id.0, (operation, receipt.clone()));
        if self.lose_response {
            self.lose_response = false;
            Err(PaymentError::Unavailable)
        } else {
            Ok(receipt)
        }
    }
}

/// Evidence counts only if it names the operation and all that the operation says, is signed under
/// the key, and voids nothing but a capture.
pub proof fn evidence_binds_its_operation(
    receipt: SignedPaymentEvidence,
    key: [u8; 32],
    operation: PaymentOperation,
)
    ensures
        receipt.verdict(key, operation) is Ok <==> {
            &&& receipt.evidence.operation_id == operation.id
            &&& receipt.evidence.operation_digest@ == sha256_of(operation.canonical())
            &&& receipt.evidence.outcome == PaymentOutcome::Voided ==> operation.kind
                == PaymentKind::Capture
            &&& ed25519_accepts_strictly(key@, receipt.evidence.canonical(), receipt.signature@)
        },
        receipt.verdict(key, operation) == Err::<(), PaymentError>(PaymentError::OperationMismatch)
            <==> receipt.evidence.operation_id != operation.id
            || receipt.evidence.operation_digest@ != sha256_of(operation.canonical()),
{
}

proof fn lemma_refund_counted(
    operations: Processed,
    keys: Seq<u128>,
    n: nat,
    i: int,
    capture: PaymentOperationId,
)
    requires
        0 <= i < n <= keys.len(),
    ensures
        refunded(operations, keys, n, capture) >= refund_amount(operations[keys[i]], capture),
    decreases n,
{
    if i == n - 1 {
        lemma_refunded_grows(operations, keys, 0, (n - 1) as nat, capture);
    } else {
        lemma_refund_counted(operations, keys, (n - 1) as nat, i, capture);
    }
}

proof fn lemma_two_refunds_counted(
    operations: Processed,
    keys: Seq<u128>,
    n: nat,
    i: int,
    j: int,
    capture: PaymentOperationId,
)
    requires
        0 <= i < j < n <= keys.len(),
    ensures
        refunded(operations, keys, n, capture) >= refund_amount(operations[keys[i]], capture)
            + refund_amount(operations[keys[j]], capture),
    decreases n,
{
    if j == n - 1 {
        lemma_refund_counted(operations, keys, (n - 1) as nat, i, capture);
    } else {
        lemma_two_refunds_counted(operations, keys, (n - 1) as nat, i, j, capture);
    }
}

/// A refund is let through only of a capture that settled, in the same scope and unit, to where it
/// came from, and only as far as what the other refunds of it that settled or are under way leave
/// of it: with any two others it does not come to more than the capture.
pub proof fn refunds_stay_within_their_capture(
    operations: Processed,
    operation: PaymentOperation,
    capture: PaymentOperationId,
    a: u128,
    b: u128,
)
    requires
        refund_allowed(operations, operation),
        operation.kind == (PaymentKind::Refund { capture }),
    ensures
        ({
            let (original, receipt) = operations[capture.0];
            let (x, xr) = operations[a];
            let (y, yr) = operations[b];
            let x_counts = operations.contains_key(a) && x.kind == (PaymentKind::Refund { capture })
                && (xr.evidence.outcome == PaymentOutcome::Settled || xr.evidence.outcome
                == PaymentOutcome::Pending);
            let y_counts = operations.contains_key(b) && y.kind == (PaymentKind::Refund { capture })
                && (yr.evidence.outcome == PaymentOutcome::Settled || yr.evidence.outcome
                == PaymentOutcome::Pending);
            &&& operations.contains_key(capture.0)
            &&& original.kind == PaymentKind::Capture
            &&& receipt.evidence.outcome == PaymentOutcome::Settled
            &&& original.scope == operation.scope
            &&& original.unit == operation.unit
            &&& original.destination == operation.destination
            &&& operation.amount.0 <= original.amount.0
            &&& x_counts ==> x.amount.0 + operation.amount.0 <= original.amount.0
            &&& x_counts && y_counts && a != b ==> x.amount.0 + y.amount.0 + operation.amount.0
                <= original.amount.0
        }),
{
    let keys = sorted_keys(operations);
    lemma_sorted_keys(operations);
    lemma_refunded_grows(operations, keys, 0, keys.len(), capture);
    if operations.contains_key(a) {
        let i = choose|i: int| 0 <= i < keys.len() && keys[i] == a;
        lemma_refund_counted(operations, keys, keys.len(), i, capture);
        if operations.contains_key(b) && a != b {
            let j = choose|j: int| 0 <= j < keys.len() && keys[j] == b;
            if i < j {
                lemma_two_refunds_counted(operations, keys, keys.len(), i, j, capture);
            } else {
                lemma_two_refunds_counted(operations, keys, keys.len(), j, i, capture);
            }
        }
    }
}

proof fn lemma_nothing_refunded(
    operations: Processed,
    keys: Seq<u128>,
    n: nat,
    capture: PaymentOperationId,
)
    requires
        n <= keys.len(),
        forall|i: int|
            0 <= i < keys.len() ==> {
                let (other, receipt) = operations[#[trigger] keys[i]];
                other.kind != (PaymentKind::Refund { capture }) || (receipt.evidence.outcome
                    != PaymentOutcome::Settled && receipt.evidence.outcome
                    != PaymentOutcome::Pending)
            },
    ensures
        refunded(operations, keys, n, capture) == 0,
    decreases n,
{
    if n > 0 {
        lemma_nothing_refunded(operations, keys, (n - 1) as nat, capture);
    }
}

/// A first refund of a settled capture, in its scope and unit and to where it came from, is let
/// through up to the whole of it; refunds that failed take nothing away.
pub proof fn first_refunds_may_take_the_whole_capture(
    operations: Processed,
    operation: PaymentOperation,
    capture: PaymentOperationId,
)
    requires
        operation.kind == (PaymentKind::Refund { capture }),
        operations.contains_key(capture.0),
        operations[capture.0].0.kind == PaymentKind::Capture,
        operations[capture.0].1.evidence.outcome == PaymentOutcome::Settled,
        operations[capture.0].0.scope == operation.scope,
        operations[capture.0].0.unit == operation.unit,
        operations[capture.0].0.destination == operation.destination,
        operation.amount.0 <= operations[capture.0].0.amount.0,
        forall|k: u128| #[trigger]
            operations.contains_key(k) ==> operations[k].0.kind != (PaymentKind::Refund { capture })
                || (operations[k].1.evidence.outcome != PaymentOutcome::Settled
                && operations[k].1.evidence.outcome != PaymentOutcome::Pending),
    ensures
        refund_allowed(operations, operation),
{
    let keys = sorted_keys(operations);
    lemma_sorted_keys(operations);
    assert forall|i: int| 0 <= i < keys.len() implies {
        let (other, receipt) = operations[#[trigger] keys[i]];
        other.kind != (PaymentKind::Refund { capture }) || (receipt.evidence.outcome
            != PaymentOutcome::Settled && receipt.evidence.outcome != PaymentOutcome::Pending)
    } by {
        assert(operations.contains_key(keys[i]));
    }
    lemma_nothing_refunded(operations, keys, keys.len(), capture);
}

/// An operation is valid exactly if it has an identifier, an amount and a destination, and, where it
/// refunds a capture, it is not that capture.
pub proof fn operations_name_what_they_move(operation: PaymentOperation)
    ensures
        operation.valid() <==> {
            &&& operation.id.0 != 0
            &&& operation.amount.0 > 0
            &&& exists|i: int| 0 <= i < 32 && operation.destination@[i] != 0
            &&& match operation.kind {
                PaymentKind::Capture => true,
                PaymentKind::Refund { capture } => capture.0 != 0 && capture.0 != operation.id.0,
                PaymentKind::MemberPayout { allocation } => allocation.0 != 0,
            }
        },
{
    assert(zero_32(operation.destination) || exists|i: int|
        0 <= i < 32 && operation.destination@[i] != 0);
}

/// The numbers under which outcomes and purposes of payment are written.
pub proof fn payments_are_numbered(outcome: PaymentOutcome, kind: PaymentKind)
    ensures
        outcome.byte() == 0 <==> outcome == PaymentOutcome::Settled,
        outcome.byte() == 1 <==> outcome == PaymentOutcome::Voided,
        outcome.byte() == 2 <==> outcome == PaymentOutcome::Reversed,
        outcome.byte() == 3 <==> outcome == PaymentOutcome::Pending,
        outcome.byte() == 4 <==> outcome == PaymentOutcome::Failed,
        kind.canonical()[0] == 0 <==> kind is Capture,
        kind.canonical()[0] == 1 <==> kind is Refund,
        kind.canonical()[0] == 2 <==> kind is MemberPayout,
{
    match kind {
        PaymentKind::Capture => {},
        PaymentKind::Refund { capture } => {
            assert(kind.canonical()[0] == seq![1u8][0]);
        },
        PaymentKind::MemberPayout { allocation } => {
            assert(kind.canonical()[0] == seq![2u8][0]);
        },
    }
}

} // verus!
