//! Authorized requests that renew an expired token once, and how long a
//! token is trusted.

use vstd::prelude::*;
use crate::text::{owned, decimal, decimal_string};
use crate::error::{AppError, error_text};

verus! {

/// Whose wording a failed request is reported in.
#[derive(Debug, Clone, Copy, PartialEq, Eq, Structural)]
pub enum RequestStyle {
    Robinhood,
    Tastytrade,
    Fennel,
}

/// Where an authorized request stands.
#[derive(Debug, Clone, Copy, PartialEq, Eq, Structural)]
pub enum RequestPhase {
    /// Sent once; its answer is awaited.
    First,
    /// Refused as unauthorized; the token is being renewed.
    Refreshing,
    /// Sent again with the renewed token; its answer is awaited.
    Retried,
    /// Finished.
    Done,
}

/// What the caller does next for an authorized request.
pub enum RequestAction {
    /// Renew the token, then report how it went.
    Refresh,
    /// Send the request again with the renewed token.
    Resend,
    /// Hand the answer's body to the caller.
    Deliver,
    /// Give up with this error.
    Fail(AppError),
}

/// An authorized request in progress.
#[derive(Debug, Clone, Copy)]
pub struct AuthorizedRequest {
    pub style: RequestStyle,
    pub allow_retry: bool,
    pub phase: RequestPhase,
}

/// HTTP success: a status from 200 to 299.
pub open spec fn is_success(status: u16) -> bool {
    200 <= status <= 299
}

/// The text of a request that failed with `status`.
pub open spec fn request_failed_text(style: RequestStyle, status: u16, body: Seq<char>) -> Seq<char> {
    match style {
        RequestStyle::Robinhood => "request failed with status "@ + decimal(status as nat) + ": "@
            + body,
        RequestStyle::Tastytrade => "request failed (status "@ + decimal(status as nat) + "): "@
            + body,
        RequestStyle::Fennel => "graphql query failed, status code: "@ + decimal(status as nat),
    }
}

/// The text of a Fennel request that failed with `status` after its token
/// was renewed.
pub open spec fn fennel_retry_failed_text(status: u16) -> Seq<char> {
    "request failed after token refresh, status code: "@ + decimal(status as nat)
}

fn request_failed(style: RequestStyle, status: u16, body: &str) -> (e: AppError)
    ensures
        e matches AppError::ApiError(m) && m@ == request_failed_text(style, status, body@),
{
    let code = decimal_string(status as u64);
    let mut m = match style {
        RequestStyle::Robinhood => owned("request failed with status "),
        RequestStyle::Tastytrade => owned("request failed (status "),
        RequestStyle::Fennel => owned("graphql query failed, status code: "),
    };
    m.append(code.as_str());
    match style {
        RequestStyle::Robinhood => {
            m.append(": ");
            m.append(body);
        },
        RequestStyle::Tastytrade => {
            m.append("): ");
            m.append(body);
        },
        RequestStyle::Fennel => {},
    }
    AppError::ApiError(m)
}

impl AuthorizedRequest {
    /// A request about to be sent for the first time; `allow_retry` says
    /// whether an unauthorized answer may renew the token.
    pub fn new(style: RequestStyle, allow_retry: bool) -> (r: Self)
        ensures
            r.style == style,
            r.allow_retry == allow_retry,
            r.phase == RequestPhase::First,
    {
        AuthorizedRequest { style, allow_retry, phase: RequestPhase::First }
    }

    /// Takes the answer to the request: a first unauthorized answer renews
    /// the token when retrying is allowed; success delivers; any other
    /// answer gives up, in the broker's wording (Robinhood and Tastytrade
    /// report a second unauthorized answer as such, Fennel reports every
    /// failure after a renewal by its status).
    pub fn on_response(&mut self, status: u16, body: &str) -> (a: RequestAction)
        requires
            old(self).phase == RequestPhase::First || old(self).phase == RequestPhase::Retried,
        ensures
            final(self).style == old(self).style,
            final(self).allow_retry == old(self).allow_retry,
            old(self).phase == RequestPhase::First && status == 401 && old(self).allow_retry ==> (
            a is Refresh && final(self).phase == RequestPhase::Refreshing),
            !(old(self).phase == RequestPhase::First && status == 401 && old(self).allow_retry)
                ==> final(self).phase == RequestPhase::Done,
            !(old(self).phase == RequestPhase::First && status == 401 && old(self).allow_retry)
                && is_success(status) ==> a is Deliver,
            old(self).style != RequestStyle::Fennel && old(self).phase == RequestPhase::Retried
                && status == 401 ==> (a matches RequestAction::Fail(AppError::AuthFailed(m)) && m@
                == "unauthorized after token refresh"@),
            old(self).style == RequestStyle::Fennel && old(self).phase == RequestPhase::Retried
                && !is_success(status) ==> (a matches RequestAction::Fail(AppError::ApiError(m))
                && m@ == fennel_retry_failed_text(status)),
            old(self).phase == RequestPhase::First && !is_success(status) && !(status == 401
                && old(self).allow_retry) ==> (a matches RequestAction::Fail(AppError::ApiError(m))
                && m@ == request_failed_text(old(self).style, status, body@)),
            old(self).style != RequestStyle::Fennel && old(self).phase == RequestPhase::Retried
                && !is_success(status) && status != 401 ==> (a matches RequestAction::Fail(
                AppError::ApiError(m),
            ) && m@ == request_failed_text(old(self).style, status, body@)),
    {
        if status == 401 && self.phase == RequestPhase::First && self.allow_retry {
            self.phase = RequestPhase::Refreshing;
            return RequestAction::Refresh;
        }
        let retried = self.phase == RequestPhase::Retried;
        self.phase = RequestPhase::Done;
        if 200 <= status && status <= 299 {
            return RequestAction::Deliver;
        }
        match self.style {
            RequestStyle::Fennel => {
                if retried {
                    let mut m = owned("request failed after token refresh, status code: ");
                    m.append(decimal_string(status as u64).as_str());
                    return RequestAction::Fail(AppError::ApiError(m));
                }
            },
            _ => {
                if retried && status == 401 {
                    return RequestAction::Fail(
                        AppError::AuthFailed(owned("unauthorized after token refresh")),
                    );
                }
            },
        }
        RequestAction::Fail(request_failed(self.style, status, body))
    }

    /// Takes the outcome of renewing the token: resend on success, give up
    /// otherwise, with the renewal's error itself for Fennel and wrapped as
    /// an authentication failure for the others.
    pub fn on_refresh(&mut self, outcome: Result<(), AppError>) -> (a: RequestAction)
        requires
            old(self).phase == RequestPhase::Refreshing,
        ensures
            final(self).style == old(self).style,
            final(self).allow_retry == old(self).allow_retry,
            outcome is Ok ==> a is Resend && final(self).phase == RequestPhase::Retried,
            outcome is Err ==> final(self).phase == RequestPhase::Done,
            old(self).style != RequestStyle::Fennel ==> (outcome matches Err(e) ==> (
            a matches RequestAction::Fail(AppError::AuthFailed(m)) && m@
                == "unauthorized and token refresh failed: "@ + error_text(e))),
            old(self).style == RequestStyle::Fennel ==> (outcome matches Err(e) ==> (
            a matches RequestAction::Fail(f) && f == e)),
    {
        match outcome {
            Ok(()) => {
                self.phase = RequestPhase::Retried;
                RequestAction::Resend
            },
            Err(e) => {
                self.phase = RequestPhase::Done;
                if self.style == RequestStyle::Fennel {
                    return RequestAction::Fail(e);
                }
                let mut m = owned("unauthorized and token refresh failed: ");
                m.append(e.to_string().as_str());
                RequestAction::Fail(AppError::AuthFailed(m))
            },
        }
    }
}

/// When a token granted for `expires_in` seconds at time `now` (in
/// seconds) is treated as expired: a minute early, or at once when it is
/// granted for a minute or less.
pub open spec fn expiry_time(now: int, expires_in: nat) -> int {
    if expires_in > 60 {
        now + expires_in - 60
    } else {
        now
    }
}

/// The time at which a freshly granted token is treated as expired.
pub fn token_expiry(now: i64, expires_in: u64) -> (r: i64)
    requires
        expires_in > 60 ==> expires_in - 60 <= i64::MAX / 1000,
        expires_in > 60 ==> now + (expires_in - 60) <= i64::MAX,
    ensures
        r == expiry_time(now as int, expires_in as nat),
{
    if expires_in > 60 {
        now + ((expires_in - 60) as i64)
    } else {
        now
    }
}

/// Whether the token must be renewed before use at time `now`: it has
/// reached its expiry, or no expiry is known.
pub fn token_expired(now: i64, expiry: Option<i64>) -> (r: bool)
    ensures
        r == match expiry {
            Some(t) => now >= t,
            None => true,
        },
{
    match expiry {
        Some(t) => now >= t,
        None => true,
    }
}

/// The `Authorization` header of a Robinhood request: the token type,
/// `Bearer` when blank, a space, and the token.
pub fn robinhood_auth_header(token_type: &str, token: &str) -> (r: String)
    ensures
        r@ == (if token_type@.len() == 0 {
            "Bearer"@
        } else {
            token_type@
        }) + " "@ + token@,
{
    let mut r = if token_type.is_empty() {
        owned("Bearer")
    } else {
        owned(token_type)
    };
    r.append(" ");
    r.append(token);
    r
}

/// Reads Public.com's answer to a token request: a failed status is an
/// authentication failure quoting the status and body; the token must be
/// present and not empty.
pub fn public_token_from_reply(success: bool, status_text: &str, body: &str, token: &Option<String>) -> (r:
    Result<String, AppError>)
    ensures
        !success ==> (r matches Err(AppError::AuthFailed(m)) && m@ == "Authentication failed (status "@
            + status_text@ + "): "@ + body@),
        success ==> match token {
            None => r matches Err(AppError::AuthFailed(m)) && m@ == "No access token in response"@,
            Some(t) => if t@.len() == 0 {
                r matches Err(AppError::AuthFailed(m)) && m@ == "Empty access token in response"@
            } else {
                r matches Ok(u) && u@ == t@
            },
        },
{
    if !success {
        let mut m = owned("Authentication failed (status ");
        m.append(status_text);
        m.append("): ");
        m.append(body);
        return Err(AppError::AuthFailed(m));
    }
    match token {
        None => Err(AppError::AuthFailed(owned("No access token in response"))),
        Some(t) => if t.as_str().is_empty() {
            Err(AppError::AuthFailed(owned("Empty access token in response")))
        } else {
            Ok(t.clone())
        },
    }
}

/// When a Public.com token is renewed: 55 minutes after it was granted at
/// `now` (in seconds), five minutes before it lapses.
pub fn public_token_expiry(now: i64) -> (r: i64)
    requires
        now <= i64::MAX - 3300,
    ensures
        r == now + 3300,
{
    now + 3300
}

} // verus!
