//! What a login code holds for the brokers whose code packs several keys,
//! what each broker saves of a session, and what a stored session must
//! hold to be restored.

use vstd::prelude::*;
use crate::text::{owned, split_on, split_str, split_once, split_once_str, trim, trim_str};
use crate::error::AppError;
use crate::broker_type::{BrokerType, broker_name};
use crate::credentials::StoredCredentials;

verus! {

/// The message for a Light Horse code that is not three non-empty keys.
pub open spec fn lighthorse_format_text() -> Seq<char> {
    "Invalid credentials format. Expected 'api_key,api_secret,account_id'."@
}

/// Reads a Light Horse login code: exactly three non-empty comma-separated
/// parts, the API key, the API secret and the account id.
pub fn lighthorse_login_code(code: &str) -> (r: Result<(String, String, String), AppError>)
    ensures
        ({
            let p = split_on(code@, ',');
            if p.len() == 3 && p[0].len() > 0 && p[1].len() > 0 && p[2].len() > 0 {
                r matches Ok((k, s, a)) && k@ == p[0] && s@ == p[1] && a@ == p[2]
            } else {
                r matches Err(AppError::AuthFailed(m)) && m@ == lighthorse_format_text()
            }
        }),
{
    let parts = split_str(code, ',');
    assert(parts@.len() == split_on(code@, ',').len());
    if parts.len() != 3 || parts[0].as_str().is_empty() || parts[1].as_str().is_empty()
        || parts[2].as_str().is_empty() {
        proof {
            if parts@.len() == 3 {
                assert(parts@[0]@ == split_on(code@, ',')[0]);
                assert(parts@[1]@ == split_on(code@, ',')[1]);
                assert(parts@[2]@ == split_on(code@, ',')[2]);
            }
        }
        return Err(
            AppError::AuthFailed(
                owned("Invalid credentials format. Expected 'api_key,api_secret,account_id'."),
            ),
        );
    }
    assert(parts@[0]@ == split_on(code@, ',')[0]);
    assert(parts@[1]@ == split_on(code@, ',')[1]);
    assert(parts@[2]@ == split_on(code@, ',')[2]);
    Ok((parts[0].clone(), parts[1].clone(), parts[2].clone()))
}

/// Reads a Tastytrade login code: the client secret, a comma, and the
/// refresh token, both non-empty (the token may itself hold commas).
pub fn tastytrade_login_code(code: &str) -> (r: Result<(String, String), AppError>)
    ensures
        match split_once(code@, ',') {
            Some((a, b)) => if a.len() > 0 && b.len() > 0 {
                r matches Ok((s, t)) && s@ == a && t@ == b
            } else {
                r matches Err(AppError::AuthFailed(m)) && m@
                    == "Invalid OAuth credentials format. Expected 'client_secret,refresh_token'."@
            },
            None => r matches Err(AppError::AuthFailed(m)) && m@
                == "Invalid OAuth credentials format. Expected 'client_secret,refresh_token'."@,
        },
{
    match split_once_str(code, ',') {
        Some((a, b)) => {
            if !a.as_str().is_empty() && !b.as_str().is_empty() {
                return Ok((a, b));
            }
        },
        None => {},
    }
    Err(
        AppError::AuthFailed(
            owned("Invalid OAuth credentials format. Expected 'client_secret,refresh_token'."),
        ),
    )
}

/// Reads a Webull login code: the app key, a comma, and the app secret,
/// each trimmed and both required.
pub fn webull_login_code(code: &str) -> (r: Result<(String, String), AppError>)
    ensures
        match split_once(code@, ',') {
            Some((a, b)) => if trim(a).len() > 0 && trim(b).len() > 0 {
                r matches Ok((k, s)) && k@ == trim(a) && s@ == trim(b)
            } else {
                r matches Err(AppError::AuthFailed(m)) && m@
                    == "both app_key and app_secret are required"@
            },
            None => r matches Err(AppError::AuthFailed(m)) && m@
                == "invalid credentials format. Expected: app_key,app_secret"@,
        },
{
    match split_once_str(code, ',') {
        Some((a, b)) => {
            let k = trim_str(a.as_str());
            let s = trim_str(b.as_str());
            if k.as_str().is_empty() || s.as_str().is_empty() {
                return Err(AppError::AuthFailed(owned("both app_key and app_secret are required")));
            }
            Ok((k, s))
        },
        None => Err(
            AppError::AuthFailed(owned("invalid credentials format. Expected: app_key,app_secret")),
        ),
    }
}

/// The secrets a live session holds, in the slots the saved credentials
/// keep them in: the access token (or API/app key), its type, the refresh
/// token (or secret), and the device token (or client secret, or account).
pub struct SessionSecrets {
    pub access_token: String,
    pub token_type: String,
    pub refresh_token: String,
    pub device_token: String,
}

/// The token type a broker saves: Robinhood's own, `Bearer` for
/// Tastytrade, none for the others.
pub open spec fn saved_token_type(kind: BrokerType, given: Seq<char>) -> Seq<char> {
    match kind {
        BrokerType::Robinhood => given,
        BrokerType::Tastytrade => "Bearer"@,
        _ => Seq::empty(),
    }
}

/// Whether a broker saves the fourth secret: Robinhood, Tastytrade and
/// Light Horse do.
pub open spec fn saves_device_slot(kind: BrokerType) -> bool {
    kind == BrokerType::Robinhood || kind == BrokerType::Tastytrade || kind
        == BrokerType::Lighthorse
}

/// What a broker session saves; a session that is not logged in saves
/// nothing (Public says so as an authentication failure).
pub fn export_credentials(
    kind: BrokerType,
    logged_in: bool,
    broker_id: &str,
    email: &str,
    secrets: &SessionSecrets,
) -> (r: Result<StoredCredentials, AppError>)
    ensures
        !logged_in && kind == BrokerType::Public ==> (r matches Err(AppError::AuthFailed(m)) && m@
            == "Not logged in"@),
        !logged_in && kind != BrokerType::Public ==> (r matches Err(AppError::BrokerNotLoggedIn)),
        logged_in ==> (r matches Ok(c) && c.broker_id@ == broker_id@ && c.email@ == email@
            && saved_from(kind, *secrets, c)),
{
    if !logged_in {
        return match kind {
            BrokerType::Public => Err(AppError::AuthFailed(owned("Not logged in"))),
            _ => Err(AppError::BrokerNotLoggedIn),
        };
    }
    let token_type = match kind {
        BrokerType::Robinhood => secrets.token_type.clone(),
        BrokerType::Tastytrade => owned("Bearer"),
        _ => String::new(),
    };
    let device_token = match kind {
        BrokerType::Robinhood | BrokerType::Tastytrade | BrokerType::Lighthorse => secrets.device_token.clone(),
        _ => String::new(),
    };
    Ok(
        StoredCredentials {
            broker_type: kind.to_string(),
            broker_id: owned(broker_id),
            email: owned(email),
            access_token: secrets.access_token.clone(),
            token_type,
            refresh_token: secrets.refresh_token.clone(),
            device_token,
        },
    )
}

/// Whether a stored session holds everything its broker needs to restore
/// it.
pub open spec fn stored_complete(kind: BrokerType, c: StoredCredentials) -> bool {
    match kind {
        BrokerType::Public => c.refresh_token@.len() > 0,
        BrokerType::Tastytrade => c.device_token@.len() > 0 && c.refresh_token@.len() > 0,
        BrokerType::Webull => c.access_token@.len() > 0 && c.refresh_token@.len() > 0,
        BrokerType::Lighthorse => c.access_token@.len() > 0 && c.refresh_token@.len() > 0
            && c.device_token@.len() > 0,
        _ => true,
    }
}

/// `c` is what a logged-in session of kind `kind` with these secrets saves.
pub open spec fn saved_from(kind: BrokerType, secrets: SessionSecrets, c: StoredCredentials) -> bool {
    &&& c.broker_type@ == broker_name(kind)
    &&& c.access_token@ == secrets.access_token@
    &&& c.token_type@ == saved_token_type(kind, secrets.token_type@)
    &&& c.refresh_token@ == secrets.refresh_token@
    &&& c.device_token@ == (if saves_device_slot(kind) {
        secrets.device_token@
    } else {
        Seq::empty()
    })
}

/// A session saved while logged in, whose access token, refresh token and
/// fourth secret are not empty, can be restored: the stored record passes
/// its broker's check.
pub proof fn law_saved_session_restorable(kind: BrokerType, secrets: SessionSecrets, c: StoredCredentials)
    requires
        saved_from(kind, secrets, c),
        secrets.access_token@.len() > 0,
        secrets.refresh_token@.len() > 0,
        secrets.device_token@.len() > 0,
    ensures
        stored_complete(kind, c),
{
}

/// What a stored session must hold before a broker tries to restore it.
pub fn check_stored_credentials(kind: BrokerType, creds: &StoredCredentials) -> (r: Result<(), AppError>)
    ensures
        r is Ok <==> stored_complete(kind, *creds),
        kind == BrokerType::Public ==> if creds.refresh_token@.len() == 0 {
            r matches Err(AppError::AuthFailed(m)) && m@ == "No secret key stored"@
        } else {
            r is Ok
        },
        kind == BrokerType::Tastytrade ==> if creds.device_token@.len() == 0 {
            r matches Err(AppError::AuthFailed(m)) && m@
                == "Tastytrade OAuth credentials missing. Please re-link your account with your Client Secret and Refresh Token."@
        } else if creds.refresh_token@.len() == 0 {
            r matches Err(AppError::AuthFailed(m)) && m@
                == "Tastytrade refresh token missing. Please re-link your account."@
        } else {
            r is Ok
        },
        kind == BrokerType::Webull ==> if creds.access_token@.len() == 0
            || creds.refresh_token@.len() == 0 {
            r matches Err(AppError::AuthFailed(m)) && m@ == "missing app credentials"@
        } else {
            r is Ok
        },
        kind == BrokerType::Lighthorse ==> if creds.access_token@.len() == 0
            || creds.refresh_token@.len() == 0 || creds.device_token@.len() == 0 {
            r matches Err(AppError::AuthFailed(m)) && m@
                == "Stored Light Horse credentials are incomplete."@
        } else {
            r is Ok
        },
        kind == BrokerType::Fennel || kind == BrokerType::Robinhood ==> r is Ok,
{
    match kind {
        BrokerType::Public => {
            if creds.refresh_token.as_str().is_empty() {
                return Err(AppError::AuthFailed(owned("No secret key stored")));
            }
        },
        BrokerType::Tastytrade => {
            if creds.device_token.as_str().is_empty() {
                return Err(
                    AppError::AuthFailed(
                        owned(
                            "Tastytrade OAuth credentials missing. Please re-link your account with your Client Secret and Refresh Token.",
                        ),
                    ),
                );
            }
            if creds.refresh_token.as_str().is_empty() {
                return Err(
                    AppError::AuthFailed(
                        owned("Tastytrade refresh token missing. Please re-link your account."),
                    ),
                );
            }
        },
        BrokerType::Webull => {
            if creds.access_token.as_str().is_empty() || creds.refresh_token.as_str().is_empty() {
                return Err(AppError::AuthFailed(owned("missing app credentials")));
            }
        },
        BrokerType::Lighthorse => {
            if creds.access_token.as_str().is_empty() || creds.refresh_token.as_str().is_empty()
                || creds.device_token.as_str().is_empty() {
                return Err(AppError::AuthFailed(owned("Stored Light Horse credentials are incomplete.")));
            }
        },
        _ => {},
    }
    Ok(())
}

} // verus!
