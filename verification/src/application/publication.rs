//! The operator's request pricing policy and each address's request-class publication.
//!
//! Both are deployment-level facts, authorized and validated against protected current context;
//! neither depends on any relationship.

use super::errors::EngineError;
use crate::bytes::{copy_bytes, same_bytes};
use crate::primitives::amounts::{CanonicalTime, SettlementUnit};
use crate::primitives::ids::ProtocolIdentity;
use crate::primitives::versions::PolicyVersion;
use crate::protocol::{ProtocolError, SecurityError};
use vstd::prelude::*;

verus! {

/// A pricing policy: its version, its unit, and its exact content.
#[derive(Debug, PartialEq, Eq)]
pub struct RequestPricingPolicy {
    pub version: PolicyVersion,
    pub unit: SettlementUnit,
    pub content: Vec<u8>,
}

impl RequestPricingPolicy {
    pub open spec fn alike(&self, other: &Self) -> bool {
        self.version == other.version && self.unit == other.unit && self.content@ == other.content@
    }

    /// Whether two policies are the same.
    pub fn same(&self, other: &Self) -> (same: bool)
        ensures
            same == self.alike(other),
    {
        self.version == other.version && self.unit == other.unit && same_bytes(
            self.content.as_slice(),
            other.content.as_slice(),
        )
    }
}

impl Clone for RequestPricingPolicy {
    fn clone(&self) -> (copy: Self)
        ensures
            copy.alike(self),
    {
        RequestPricingPolicy {
            version: self.version,
            unit: self.unit,
            content: copy_bytes(&self.content),
        }
    }
}

/// Protected context for publishing an operator policy version: the current policy, a stored one
/// of the same version, and for every address whether the new policy permits its classes.
pub struct PolicyPublicationContext {
    pub current: Option<RequestPricingPolicy>,
    pub same_version: Option<RequestPricingPolicy>,
    pub permitted: Vec<bool>,
}

/// Outcome of publishing an operator policy version: not changed for an exact replay of the current
/// version; and how many addresses have at least one class outside the new bounds. Those classes
/// cannot be quoted until the address republishes.
#[derive(Clone, Copy, Debug, PartialEq, Eq, Structural)]
pub struct PolicyPublicationReport {
    pub version: PolicyVersion,
    pub changed: bool,
    pub addresses_with_unquotable_classes: usize,
}

pub struct PolicyPublicationDecision {
    next: Option<(RequestPricingPolicy, CanonicalTime)>,
    report: PolicyPublicationReport,
}

impl PolicyPublicationDecision {
    pub closed spec fn published(&self) -> Option<(RequestPricingPolicy, CanonicalTime)> {
        self.next
    }

    pub closed spec fn reported(&self) -> PolicyPublicationReport {
        self.report
    }

    pub fn into_parts(self) -> (parts: (
        Option<(RequestPricingPolicy, CanonicalTime)>,
        PolicyPublicationReport,
    ))
        ensures
            parts == (self.published(), self.reported()),
    {
        (self.next, self.report)
    }
}

/// How many of the first `n` addresses are not permitted.
pub open spec fn affected(permitted: Seq<bool>, n: nat) -> nat
    decreases n,
{
    if n == 0 {
        0
    } else {
        affected(permitted, (n - 1) as nat) + if permitted[n - 1] {
            0nat
        } else {
            1nat
        }
    }
}

fn count_affected(permitted: &Vec<bool>) -> (count: usize)
    ensures
        count == affected(permitted@, permitted@.len()),
{
    let mut count: usize = 0;
    let mut i: usize = 0;
    while i < permitted.len()
        invariant
            0 <= i <= permitted@.len(),
            count <= i,
            count == affected(permitted@, i as nat),
        decreases permitted@.len() - i,
    {
        if !permitted[i] {
            count += 1;
        }
        i += 1;
    }
    count
}

/// Whether a policy is new, or why it is refused: different content under a stored version, a
/// version that is not newer, or another unit.
pub open spec fn policy_publication(
    current: Option<RequestPricingPolicy>,
    same_version: Option<RequestPricingPolicy>,
    policy: RequestPricingPolicy,
) -> Result<bool, ProtocolError> {
    if same_version matches Some(stored) && !stored.alike(&policy) {
        Err(ProtocolError::DuplicateConflict)
    } else {
        match current {
            None => Ok(true),
            Some(held) => if held.alike(&policy) {
                Ok(false)
            } else if policy.version.0 <= held.version.0 {
                Err(ProtocolError::VersionConflict)
            } else if policy.unit != held.unit {
                Err(ProtocolError::PolicyInvalid)
            } else {
                Ok(true)
            },
        }
    }
}

/// Publishes a new operator policy version and makes it current. An exact replay of the current
/// version succeeds without change.
pub fn publish_policy(
    context: &PolicyPublicationContext,
    policy: &RequestPricingPolicy,
    at: CanonicalTime,
) -> (result: Result<PolicyPublicationDecision, ProtocolError>)
    ensures
        match policy_publication(context.current, context.same_version, *policy) {
            Err(e) => result == Err::<PolicyPublicationDecision, ProtocolError>(e),
            Ok(changed) => result matches Ok(decision) && decision.reported() == (
            PolicyPublicationReport {
                version: policy.version,
                changed,
                addresses_with_unquotable_classes: affected(
                    context.permitted@,
                    context.permitted@.len(),
                ) as usize,
            }) && affected(context.permitted@, context.permitted@.len()) <= usize::MAX && (
            match decision.published() {
                Some((next, when)) => changed && next.alike(policy) && when == at,
                None => !changed,
            }),
        },
{
    match &context.same_version {
        Some(stored) => {
            if !stored.same(policy) {
                return Err(ProtocolError::DuplicateConflict);
            }
        },
        None => {},
    }
    let count: usize = count_affected(&context.permitted);
    match &context.current {
        Some(held) => {
            if held.same(policy) {
                return Ok(
                    PolicyPublicationDecision {
                        next: None,
                        report: PolicyPublicationReport {
                            version: policy.version,
                            changed: false,
                            addresses_with_unquotable_classes: count,
                        },
                    },
                );
            }
            if policy.version.0 <= held.version.0 {
                return Err(ProtocolError::VersionConflict);
            }
            if policy.unit != held.unit {
                return Err(ProtocolError::PolicyInvalid);
            }
        },
        None => {},
    }
    Ok(
        PolicyPublicationDecision {
            next: Some((policy.clone(), at)),
            report: PolicyPublicationReport {
                version: policy.version,
                changed: true,
                addresses_with_unquotable_classes: count,
            },
        },
    )
}

/// An address's request classes: whose, which version, and their exact content.
#[derive(Debug, PartialEq, Eq)]
pub struct RecipientRequestClasses {
    pub recipient: ProtocolIdentity,
    pub version: u64,
    pub content: Vec<u8>,
}

impl RecipientRequestClasses {
    pub open spec fn alike(&self, other: &Self) -> bool {
        self.recipient == other.recipient && self.version == other.version && self.content@
            == other.content@
    }

    /// Whether two publications are the same.
    pub fn same(&self, other: &Self) -> (same: bool)
        ensures
            same == self.alike(other),
    {
        self.recipient == other.recipient && self.version == other.version && same_bytes(
            self.content.as_slice(),
            other.content.as_slice(),
        )
    }
}

impl Clone for RecipientRequestClasses {
    fn clone(&self) -> (copy: Self)
        ensures
            copy.alike(self),
    {
        RecipientRequestClasses {
            recipient: self.recipient,
            version: self.version,
            content: copy_bytes(&self.content),
        }
    }
}

/// Protected context for one address's publication: whether the signed scope is the expected one,
/// the verdict on the address's key and signature, whether the current policy, if there is one,
/// permits the classes, and the current publication.
pub struct ClassesPublicationContext {
    pub expected_scope: bool,
    pub authority: Result<(), SecurityError>,
    pub permitted: Option<bool>,
    pub current: Option<RecipientRequestClasses>,
}

pub struct ClassesPublicationDecision {
    next: Option<(RecipientRequestClasses, CanonicalTime)>,
}

impl ClassesPublicationDecision {
    pub closed spec fn published(&self) -> Option<(RecipientRequestClasses, CanonicalTime)> {
        self.next
    }

    pub fn into_effects(self) -> (effects: Option<(RecipientRequestClasses, CanonicalTime)>)
        ensures
            effects == self.published(),
    {
        self.next
    }
}

/// Whether a publication takes the place of the current one: a replay does not, and a version that
/// is not newer is refused.
pub open spec fn supersedes(
    current: Option<RecipientRequestClasses>,
    classes: RecipientRequestClasses,
) -> Result<bool, ProtocolError> {
    match current {
        None => Ok(true),
        Some(old) => if old.alike(&classes) {
            Ok(false)
        } else if classes.version <= old.version {
            Err(ProtocolError::VersionConflict)
        } else {
            Ok(true)
        },
    }
}

/// Whether classes are newly published, or why they are refused.
pub open spec fn classes_publication(
    context: ClassesPublicationContext,
    classes: RecipientRequestClasses,
) -> Result<bool, EngineError> {
    if !context.expected_scope {
        Err(EngineError::Security(SecurityError::SigningScopeMismatch))
    } else {
        match (context.authority, context.permitted) {
            (Err(e), _) => Err(EngineError::Security(e)),
            (Ok(()), None) => Err(EngineError::Protocol(ProtocolError::PolicyInvalid)),
            (Ok(()), Some(false)) => Err(
                EngineError::Protocol(ProtocolError::RequestClassOutsidePolicy),
            ),
            (Ok(()), Some(true)) => match supersedes(context.current, classes) {
                Err(e) => Err(EngineError::Protocol(e)),
                Ok(newer) => Ok(newer),
            },
        }
    }
}

fn is_newer(current: &Option<RecipientRequestClasses>, classes: &RecipientRequestClasses) -> (result:
    Result<bool, ProtocolError>)
    ensures
        result == supersedes(*current, *classes),
{
    match current {
        Some(old) => {
            if old.same(classes) {
                Ok(false)
            } else if classes.version <= old.version {
                Err(ProtocolError::VersionConflict)
            } else {
                Ok(true)
            }
        },
        None => Ok(true),
    }
}

/// Publishes one address's classes. The signature must come from an active key of that address, and
/// every class must lie within the current policy's bounds. Versions strictly increase; an
/// identical replay succeeds without change.
pub fn publish_classes(
    context: &ClassesPublicationContext,
    classes: &RecipientRequestClasses,
    now: CanonicalTime,
) -> (result: Result<ClassesPublicationDecision, EngineError>)
    ensures
        match classes_publication(*context, *classes) {
            Err(e) => result == Err::<ClassesPublicationDecision, EngineError>(e),
            Ok(newer) => result matches Ok(decision) && (match decision.published() {
                Some((next, when)) => newer && next.alike(classes) && when == now,
                None => !newer,
            }),
        },
{
    if !context.expected_scope {
        return Err(EngineError::Security(SecurityError::SigningScopeMismatch));
    }
    match context.authority {
        Ok(()) => {},
        Err(e) => return Err(EngineError::Security(e)),
    }
    match context.permitted {
        Some(true) => {},
        Some(false) => {
            return Err(EngineError::Protocol(ProtocolError::RequestClassOutsidePolicy));
        },
        None => return Err(EngineError::Protocol(ProtocolError::PolicyInvalid)),
    }
    match is_newer(&context.current, classes) {
        Ok(true) => Ok(ClassesPublicationDecision { next: Some((classes.clone(), now)) }),
        Ok(false) => Ok(ClassesPublicationDecision { next: None }),
        Err(e) => Err(EngineError::Protocol(e)),
    }
}

/// Protected context for a recipient's own publication against a relationship's terms: whether the
/// signed scope is the current one, the verdict on key and signature, and whether the pricing
/// permits the classes.
pub struct PublicationContext {
    pub current_scope: bool,
    pub recipient: ProtocolIdentity,
    pub authority: Result<(), SecurityError>,
    pub permitted: bool,
    pub current: Option<RecipientRequestClasses>,
}

pub struct PublicationDecision {
    next: Option<RecipientRequestClasses>,
}

impl PublicationDecision {
    pub closed spec fn published(&self) -> Option<RecipientRequestClasses> {
        self.next
    }

    pub fn into_effects(self) -> (effects: Option<RecipientRequestClasses>)
        ensures
            effects == self.published(),
    {
        self.next
    }
}

/// Whether a recipient's classes are newly published, or why they are refused.
pub open spec fn recipient_publication(
    context: PublicationContext,
    classes: RecipientRequestClasses,
) -> Result<bool, EngineError> {
    if !context.current_scope || context.recipient != classes.recipient {
        Err(EngineError::Security(SecurityError::SigningScopeMismatch))
    } else {
        match context.authority {
            Err(e) => Err(EngineError::Security(e)),
            Ok(()) => if !context.permitted {
                Err(EngineError::Protocol(ProtocolError::PolicyInvalid))
            } else {
                match supersedes(context.current, classes) {
                    Err(e) => Err(EngineError::Protocol(e)),
                    Ok(newer) => Ok(newer),
                }
            },
        }
    }
}

/// Publishes a recipient's classes. Foreign authority, invalid menu choices, altered replay and
/// stale versions are refused.
pub fn publish(context: &PublicationContext, classes: &RecipientRequestClasses) -> (result: Result<
    PublicationDecision,
    EngineError,
>)
    ensures
        match recipient_publication(*context, *classes) {
            Err(e) => result == Err::<PublicationDecision, EngineError>(e),
            Ok(newer) => result matches Ok(decision) && (match decision.published() {
                Some(next) => newer && next.alike(classes),
                None => !newer,
            }),
        },
{
    if !context.current_scope || context.recipient != classes.recipient {
        return Err(EngineError::Security(SecurityError::SigningScopeMismatch));
    }
    match context.authority {
        Ok(()) => {},
        Err(e) => return Err(EngineError::Security(e)),
    }
    if !context.permitted {
        return Err(EngineError::Protocol(ProtocolError::PolicyInvalid));
    }
    match is_newer(&context.current, classes) {
        Ok(true) => Ok(PublicationDecision { next: Some(classes.clone()) }),
        Ok(false) => Ok(PublicationDecision { next: None }),
        Err(e) => Err(EngineError::Protocol(e)),
    }
}

/// Versions strictly increase, and publishing what is current again changes nothing.
pub proof fn publications_increase(
    current: RequestPricingPolicy,
    same_version: Option<RequestPricingPolicy>,
    policy: RequestPricingPolicy,
    held: RecipientRequestClasses,
    classes: RecipientRequestClasses,
)
    ensures
        policy_publication(Some(current), same_version, policy) == Ok::<bool, ProtocolError>(true)
            ==> policy.version.0 > current.version.0 && policy.unit == current.unit,
        policy_publication(Some(policy), Some(policy), policy) == Ok::<bool, ProtocolError>(false),
        supersedes(Some(held), classes) == Ok::<bool, ProtocolError>(true) ==> classes.version
            > held.version,
        supersedes(Some(classes), classes) == Ok::<bool, ProtocolError>(false),
{
}

/// A policy is published anew exactly if no other content stands under its version, and it is the
/// first, or is newer than the current one and in the same unit; the current one again changes
/// nothing.
pub proof fn policies_are_published_in_order(
    current: Option<RequestPricingPolicy>,
    same_version: Option<RequestPricingPolicy>,
    policy: RequestPricingPolicy,
)
    ensures
        ({
            let result = policy_publication(current, same_version, policy);
            let held = current->Some_0;
            let stored = same_version->Some_0;
            let clash = same_version is Some && !(stored.version == policy.version && stored.unit
                == policy.unit && stored.content@ == policy.content@);
            let again = current is Some && held.version == policy.version && held.unit
                == policy.unit && held.content@ == policy.content@;
            &&& result == Ok::<bool, ProtocolError>(true) <==> !clash && (current is None || (!again
                && policy.version.0 > held.version.0 && policy.unit == held.unit))
            &&& result == Ok::<bool, ProtocolError>(false) <==> !clash && again
            &&& result == Err::<bool, ProtocolError>(ProtocolError::DuplicateConflict) <==> clash
        }),
{
}

/// Classes are published anew exactly if the scope is the expected one, the address has authority,
/// there is a current policy and it permits them, and they are the first or newer than the current
/// ones; the current ones again change nothing.
pub proof fn classes_are_published_in_order(
    context: ClassesPublicationContext,
    classes: RecipientRequestClasses,
)
    ensures
        ({
            let result = classes_publication(context, classes);
            let held = context.current->Some_0;
            let fit = context.expected_scope && context.authority is Ok && context.permitted == Some(
                true,
            );
            let again = context.current is Some && held.recipient == classes.recipient
                && held.version == classes.version && held.content@ == classes.content@;
            &&& result == Ok::<bool, EngineError>(true) <==> fit && (context.current is None || (
            !again && classes.version > held.version))
            &&& result == Ok::<bool, EngineError>(false) <==> fit && again
            &&& result == Err::<bool, EngineError>(
                EngineError::Protocol(ProtocolError::RequestClassOutsidePolicy),
            ) <==> context.expected_scope && context.authority is Ok && context.permitted == Some(
                false,
            )
        }),
{
}

proof fn lemma_affected(permitted: Seq<bool>, n: nat)
    requires
        n <= permitted.len(),
    ensures
        affected(permitted, n) == permitted.take(n as int).filter(|ok: bool| !ok).len(),
    decreases n,
{
    reveal(Seq::filter);
    if n > 0 {
        lemma_affected(permitted, (n - 1) as nat);
        assert(permitted.take(n as int).drop_last() =~= permitted.take(n - 1));
    } else {
        assert(permitted.take(0) =~= Seq::empty());
    }
}

/// What is reported of the addresses is how many of them have classes that are not permitted.
pub proof fn unquotable_addresses_are_counted(permitted: Seq<bool>)
    ensures
        affected(permitted, permitted.len()) == permitted.filter(|ok: bool| !ok).len(),
{
    lemma_affected(permitted, permitted.len());
    assert(permitted.take(permitted.len() as int) =~= permitted);
}

/// A recipient publishes its own classes only, in the current scope and with authority, and only
/// those that are permitted, the first or newer than the current ones.
pub proof fn recipients_publish_their_own(
    context: PublicationContext,
    classes: RecipientRequestClasses,
)
    ensures
        ({
            let result = recipient_publication(context, classes);
            let held = context.current->Some_0;
            let fit = context.current_scope && context.recipient == classes.recipient
                && context.authority is Ok && context.permitted;
            let again = context.current is Some && held.recipient == classes.recipient
                && held.version == classes.version && held.content@ == classes.content@;
            &&& result == Ok::<bool, EngineError>(true) <==> fit && (context.current is None || (
            !again && classes.version > held.version))
            &&& result == Ok::<bool, EngineError>(false) <==> fit && again
        }),
{
}

} // verus!
