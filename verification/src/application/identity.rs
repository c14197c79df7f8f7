//! What the identity service answers, and what follows from it. No locks are held meanwhile.

use super::book::IdentitySecurityCursor;
use super::confirmations::ConfirmationFailure;
use super::enrollment::SignedDecision;
use super::errors::ContractError;
use super::operations::SignedSecurityEvent;
use crate::accounts::keys::same_text;
use crate::primitives::amounts::{decimal, decimal_text};
use crate::primitives::ids::AccountId;
use vstd::prelude::*;

verus! {

/// What the identity service answers.
pub enum IdentityResponse {
    Eligible(SignedDecision),
    ReviewRequired,
    Denied,
    Rejected(ContractError),
    Missing,
    Confirmed,
    IdentityChanged,
    SecurityEvents(Vec<SignedSecurityEvent>),
}

/// How an enrollment stands.
#[derive(Clone, Copy, Debug, PartialEq, Eq, Structural)]
pub enum EnrollmentOutcome {
    AwaitingEvidence,
    Enrolled(AccountId),
    ReviewRequired,
    Denied,
}

/// What to do next in an enrollment: commit a decision, or nothing but tell how it stands.
pub enum EnrollmentStep {
    Commit(SignedDecision),
    Done(EnrollmentOutcome),
}

/// What the answer to an enrollment request calls for. Rejections and answers to other questions
/// are errors; they leave the durable operation intact.
pub fn enrollment_step(response: IdentityResponse) -> (result: Result<EnrollmentStep, ContractError>)
    ensures
        result == (match response {
            IdentityResponse::Eligible(decision) => Ok::<EnrollmentStep, ContractError>(
                EnrollmentStep::Commit(decision),
            ),
            IdentityResponse::ReviewRequired => Ok(
                EnrollmentStep::Done(EnrollmentOutcome::ReviewRequired),
            ),
            IdentityResponse::Denied => Ok(EnrollmentStep::Done(EnrollmentOutcome::Denied)),
            IdentityResponse::Rejected(e) => Err(e),
            _ => Err(ContractError::Context),
        }),
{
    match response {
        IdentityResponse::Eligible(decision) => Ok(EnrollmentStep::Commit(decision)),
        IdentityResponse::ReviewRequired => {
            Ok(EnrollmentStep::Done(EnrollmentOutcome::ReviewRequired))
        },
        IdentityResponse::Denied => Ok(EnrollmentStep::Done(EnrollmentOutcome::Denied)),
        IdentityResponse::Rejected(e) => Err(e),
        _ => Err(ContractError::Context),
    }
}

/// What the answer to a lookup of an enrollment calls for: a lost answer is recovered without
/// repeating authentication or creating identifiers. Stored denial and review remain explicit.
pub fn reconciliation_step(response: IdentityResponse) -> (result: Result<
    EnrollmentStep,
    ContractError,
>)
    ensures
        result == (match response {
            IdentityResponse::Eligible(decision) => Ok::<EnrollmentStep, ContractError>(
                EnrollmentStep::Commit(decision),
            ),
            IdentityResponse::ReviewRequired => Ok(
                EnrollmentStep::Done(EnrollmentOutcome::ReviewRequired),
            ),
            IdentityResponse::Denied => Ok(EnrollmentStep::Done(EnrollmentOutcome::Denied)),
            IdentityResponse::Missing => Ok(
                EnrollmentStep::Done(EnrollmentOutcome::AwaitingEvidence),
            ),
            IdentityResponse::Rejected(e) => Err(e),
            _ => Err(ContractError::Context),
        }),
{
    match response {
        IdentityResponse::Missing => {
            Ok(EnrollmentStep::Done(EnrollmentOutcome::AwaitingEvidence))
        },
        other => enrollment_step(other),
    }
}

/// Why a confirmation was not delivered, given the answer or the error of the call; none where it
/// was.
pub fn delivery_failure(answer: Result<IdentityResponse, ContractError>) -> (failure: Option<
    ContractError,
>)
    ensures
        failure == (match answer {
            Ok(IdentityResponse::Confirmed) => None::<ContractError>,
            Ok(IdentityResponse::Rejected(e)) => Some(e),
            Ok(_) => Some(ContractError::Context),
            Err(e) => Some(e),
        }),
{
    match answer {
        Ok(IdentityResponse::Confirmed) => None,
        Ok(IdentityResponse::Rejected(e)) => Some(e),
        Ok(_) => Some(ContractError::Context),
        Err(e) => Some(e),
    }
}

/// How a batch of deliveries went.
#[derive(Debug, PartialEq, Eq)]
pub struct ConfirmationReport {
    pub confirmed: usize,
    pub retryable: usize,
    pub intervention: usize,
    pub failures: Vec<(String, ContractError)>,
}

impl ConfirmationReport {
    pub fn new() -> (report: Self)
        ensures
            report.confirmed == 0 && report.retryable == 0 && report.intervention == 0,
            report.failures@ == Seq::<(String, ContractError)>::empty(),
    {
        ConfirmationReport { confirmed: 0, retryable: 0, intervention: 0, failures: Vec::new() }
    }

    /// Counts one delivery; what has to be recorded of it, if it failed. A bad item does not keep
    /// later items from being counted.
    pub fn count(&mut self, operation: String, failure: Option<ContractError>) -> (recorded: Option<
        ConfirmationFailure,
    >)
        requires
            old(self).confirmed + old(self).retryable + old(self).intervention < usize::MAX,
        ensures
            match failure {
                None => recorded is None && final(self).confirmed == old(self).confirmed + 1
                    && final(self).retryable == old(self).retryable && final(self).intervention
                    == old(self).intervention && final(self).failures@ == old(self).failures@,
                Some(error) => {
                    &&& final(self).failures@ == old(self).failures@.push((operation, error))
                    &&& final(self).confirmed == old(self).confirmed
                    &&& if error == ContractError::Unavailable {
                        recorded == Some(ConfirmationFailure::Retryable) && final(self).retryable
                            == old(self).retryable + 1 && final(self).intervention
                            == old(self).intervention
                    } else {
                        recorded == Some(ConfirmationFailure::Intervention(error))
                            && final(self).retryable == old(self).retryable
                            && final(self).intervention == old(self).intervention + 1
                    }
                },
            },
    {
        let error = match failure {
            None => {
                self.confirmed = self.confirmed + 1;
                return None;
            },
            Some(error) => error,
        };
        self.failures.push((operation, error));
        let recorded = ConfirmationFailure::of(error);
        if error == ContractError::Unavailable {
            self.retryable = self.retryable + 1;
        } else {
            self.intervention = self.intervention + 1;
        }
        Some(recorded)
    }
}

/// Whether an event is the next one for a cursor, behind a version, and if so, its version. Events
/// of another account, product or subject, and gaps, are refused.
pub fn next_event(
    cursor: &IdentitySecurityCursor,
    account: AccountId,
    version: u64,
    event: &SignedSecurityEvent,
) -> (result: Result<u64, ContractError>)
    ensures
        result == (if version == u64::MAX {
            Err::<u64, ContractError>(ContractError::Invalid)
        } else if event.account@ != decimal(account.0 as nat) || event.product@ != cursor.product@
            || event.subject_ref@ != cursor.subject@ || event.security_version != version + 1 {
            Err(ContractError::Context)
        } else {
            Ok(event.security_version)
        }),
{
    let expected: u64 = match version.checked_add(1) {
        Some(expected) => expected,
        None => return Err(ContractError::Invalid),
    };
    if !same_text(event.account.as_str(), decimal_text(account.0).as_str()) || !same_text(
        event.product.as_str(),
        cursor.product.as_str(),
    ) || !same_text(event.subject_ref.as_str(), cursor.subject.as_str()) || event.security_version
        != expected {
        return Err(ContractError::Context);
    }
    Ok(expected)
}

/// The most bytes that an answer of the identity service may have.
pub const MAX_RESPONSE_BYTES: usize = 65_536;

/// A host that is this machine itself.
pub open spec fn loopback(host: Option<Seq<char>>) -> bool {
    host == Some("127.0.0.1"@) || host == Some("[::1]"@) || host == Some("localhost"@)
}

pub open spec fn host_model(host: Option<&str>) -> Option<Seq<char>> {
    match host {
        Some(name) => Some(name@),
        None => None,
    }
}

/// Whether the identity service may be reached at an endpoint: over HTTPS, or over HTTP on this
/// machine itself.
pub fn endpoint_allowed(scheme: &str, host: Option<&str>) -> (allowed: bool)
    ensures
        allowed == (scheme@ == "https"@ || (scheme@ == "http"@ && loopback(host_model(host)))),
{
    let local = match host {
        Some(name) => same_text(name, "127.0.0.1") || same_text(name, "[::1]") || same_text(
            name,
            "localhost",
        ),
        None => false,
    };
    same_text(scheme, "https") || (same_text(scheme, "http") && local)
}

/// The scheme of a URL, and its host where it has one; none of a text that is no URL.
pub uninterp spec fn url_parts(text: Seq<char>) -> Option<(Seq<char>, Option<Seq<char>>)>;

pub open spec fn parts_model(parts: Option<(String, Option<String>)>) -> Option<
    (Seq<char>, Option<Seq<char>>),
> {
    match parts {
        Some((scheme, Some(host))) => Some((scheme@, Some(host@))),
        Some((scheme, None)) => Some((scheme@, None)),
        None => None,
    }
}

/// Calls `reqwest::Url::parse`, and `scheme` and `host_str` on what it gives. What they say is a
/// function of the text; `url_parts` names it.
#[verifier::external_body]
fn parse_url(text: &str) -> (parts: Option<(String, Option<String>)>)
    ensures
        parts_model(parts) == url_parts(text@),
{
    let url = reqwest::Url::parse(text).ok()?;
    Some((url.scheme().to_owned(), url.host_str().map(str::to_owned)))
}

/// Accepts the endpoint of the identity service: a URL over HTTPS, or over HTTP on this machine
/// itself.
pub fn accept_endpoint(endpoint: &str) -> (result: Result<(), ContractError>)
    ensures
        result == (match url_parts(endpoint@) {
            Some((scheme, host)) => if scheme == "https"@ || (scheme == "http"@ && loopback(host)) {
                Ok(())
            } else {
                Err(ContractError::Invalid)
            },
            None => Err(ContractError::Invalid),
        }),
{
    match parse_url(endpoint) {
        Some((scheme, host)) => {
            let allowed = match &host {
                Some(name) => endpoint_allowed(scheme.as_str(), Some(name.as_str())),
                None => endpoint_allowed(scheme.as_str(), None),
            };
            if allowed {
                Ok(())
            } else {
                Err(ContractError::Invalid)
            }
        },
        None => Err(ContractError::Invalid),
    }
}

} // verus!
