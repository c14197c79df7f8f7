//! The SMTP downgrade boundary.

use crate::primitives::amounts::CanonicalTime;
use vstd::prelude::*;

verus! {

#[derive(Clone, Copy, Debug, PartialEq, Eq, Structural)]
pub struct DowngradeConsent {
    pub accepted_at: CanonicalTime,
}

#[derive(Clone, Debug, PartialEq, Eq)]
pub enum DeliveryRoute {
    NativeEncrypted,
    SmtpDowngrade { recipient_domain: String, consent: DowngradeConsent },
}

#[derive(Clone, Debug, PartialEq, Eq)]
pub struct SmtpSubmission {
    pub recipient_address: String,
    pub provider_readable_rfc822: Vec<u8>,
    pub route: DeliveryRoute,
}

#[derive(Clone, Copy, Debug, PartialEq, Eq, Structural)]
pub enum SmtpError {
    MissingDowngradeConsent,
    NativeContentNotAccepted,
}

impl SmtpError {
    pub open spec fn message(self) -> Seq<char> {
        match self {
            SmtpError::MissingDowngradeConsent => {
                "SMTP delivery requires explicit privacy-downgrade consent"@
            },
            SmtpError::NativeContentNotAccepted => {
                "native ciphertext cannot be submitted as SMTP plaintext"@
            },
        }
    }

    /// The error in words.
    pub fn text(&self) -> (text: &'static str)
        ensures
            text@ == self.message(),
    {
        match self {
            SmtpError::MissingDowngradeConsent => {
                "SMTP delivery requires explicit privacy-downgrade consent"
            },
            SmtpError::NativeContentNotAccepted => {
                "native ciphertext cannot be submitted as SMTP plaintext"
            },
        }
    }
}

#[derive(Clone, Copy, Debug, PartialEq, Eq, Structural)]
pub enum SmtpReceipt {
    AcceptedByGateway,
}

/// Validates the explicit downgrade boundary. It never claims recipient delivery or reading. Only a
/// route with explicit SMTP downgrade consent is accepted.
pub fn validate_smtp_submission(submission: &SmtpSubmission) -> (result: Result<
    SmtpReceipt,
    SmtpError,
>)
    ensures
        result == (if submission.route is SmtpDowngrade {
            Ok(SmtpReceipt::AcceptedByGateway)
        } else {
            Err(SmtpError::NativeContentNotAccepted)
        }),
{
    match &submission.route {
        DeliveryRoute::SmtpDowngrade { .. } => Ok(SmtpReceipt::AcceptedByGateway),
        DeliveryRoute::NativeEncrypted => Err(SmtpError::NativeContentNotAccepted),
    }
}

} // verus!
