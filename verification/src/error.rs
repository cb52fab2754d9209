//! The library's error type and the text each error reads as.

use vstd::prelude::*;

verus! {

/// Every failure the desk reports, with the detail it carries.
#[derive(Debug)]
pub enum AppError {
    NoBrokerConnected,
    BrokerNotFound(String),
    BrokerNotLoggedIn,
    AuthFailed(String),
    MfaRequired(String),
    NetworkError(String),
    ApiError(String),
    CredentialError(String),
    UnknownBrokerType(String),
    Other(String),
}

} // verus!

verus! {

/// The text an error reads as.
pub open spec fn error_text(e: AppError) -> Seq<char> {
    match e {
        AppError::NoBrokerConnected => "No broker connected"@,
        AppError::BrokerNotFound(s) => "Broker not found: "@ + s@,
        AppError::BrokerNotLoggedIn => "Broker not logged in"@,
        AppError::AuthFailed(s) => "Authentication failed: "@ + s@,
        AppError::MfaRequired(s) => "MFA required: "@ + s@,
        AppError::NetworkError(s) => "Network error: "@ + s@,
        AppError::ApiError(s) => "API error: "@ + s@,
        AppError::CredentialError(s) => "Credential store error: "@ + s@,
        AppError::UnknownBrokerType(s) => "Unknown broker type: "@ + s@,
        AppError::Other(s) => s@,
    }
}

impl AppError {
    /// The text this error reads as.
    pub fn to_string(&self) -> (r: String)
        ensures
            r@ == error_text(*self),
    {
        let (head, detail): (&str, Option<&String>) = match self {
            AppError::NoBrokerConnected => ("No broker connected", None),
            AppError::BrokerNotFound(s) => ("Broker not found: ", Some(s)),
            AppError::BrokerNotLoggedIn => ("Broker not logged in", None),
            AppError::AuthFailed(s) => ("Authentication failed: ", Some(s)),
            AppError::MfaRequired(s) => ("MFA required: ", Some(s)),
            AppError::NetworkError(s) => ("Network error: ", Some(s)),
            AppError::ApiError(s) => ("API error: ", Some(s)),
            AppError::CredentialError(s) => ("Credential store error: ", Some(s)),
            AppError::UnknownBrokerType(s) => ("Unknown broker type: ", Some(s)),
            AppError::Other(s) => ("", Some(s)),
        };
        let mut r = crate::text::owned(head);
        match detail {
            Some(d) => r.append(d.as_str()),
            None => {},
        }
        proof {
            reveal_strlit("");
        }
        assert(r@ =~= error_text(*self));
        r
    }
}

} // verus!
