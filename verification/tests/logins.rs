use multitrade::broker_type::BrokerType;
use multitrade::credentials::StoredCredentials;
use multitrade::error::AppError;
use multitrade::instruments::InstrumentInfo;
use multitrade::login_codes::{
    check_stored_credentials, export_credentials, lighthorse_login_code, tastytrade_login_code,
    webull_login_code, SessionSecrets,
};
use multitrade::robinhood_login::{
    check_code_answer, check_reply_body, workflow_approved, ChallengeField, ChallengeStep,
    LoginReply, LoginRoute, LoginStep, RobinhoodLogin, WorkflowField, ROBINHOOD_CLIENT_ID,
};

fn s(x: &str) -> String {
    x.to_string()
}

fn empty_reply() -> LoginReply {
    LoginReply {
        workflow: None,
        challenge: None,
        mfa_required: None,
        mfa_type: None,
        access_token: None,
        token_type: None,
        refresh_token: None,
        detail: None,
        error: None,
        error_description: None,
        body: s("{}"),
    }
}

#[test]
fn first_login_keeps_credentials_for_mfa() {
    let mut l = RobinhoodLogin::new(s("dev"));
    match l.route_login("pw", "me@x.io") {
        LoginRoute::Attempt { username, password, mfa_code } => {
            assert_eq!(username, "me@x.io");
            assert_eq!(password, "pw");
            assert_eq!(mfa_code, "");
        }
        _ => panic!("expected an attempt"),
    }
    assert_eq!(l.pending_username, "me@x.io");
    let fields = l.login_fields("me@x.io", "pw", "");
    assert_eq!(fields.len(), 10);
    assert_eq!(fields[0], (s("client_id"), s(ROBINHOOD_CLIENT_ID)));
    assert_eq!(fields[6], (s("device_token"), s("dev")));
}

#[test]
fn mfa_codes_go_to_the_challenge_or_a_new_attempt() {
    let mut l = RobinhoodLogin::new(s("dev"));
    l.mfa_required = true;
    assert!(matches!(l.route_login("123", "x"),
        LoginRoute::Refuse(AppError::AuthFailed(m)) if m == "no pending login to complete MFA"));
    l.pending_username = s("u");
    l.pending_password = s("p");
    l.challenge_id = s("ch");
    match l.route_login("123456", "x") {
        LoginRoute::Attempt { username, password, mfa_code } => {
            assert_eq!((username.as_str(), password.as_str(), mfa_code.as_str()), ("u", "p", "123456"));
        }
        _ => panic!("expected an attempt"),
    }
    let fields = l.login_fields("u", "p", "123456");
    assert_eq!(fields.len(), 12);
    assert_eq!(fields[10], (s("mfa_code"), s("123456")));
    assert_eq!(fields[11], (s("challenge_id"), s("ch")));
    l.sheriff_challenge_id = s("sc");
    assert!(matches!(l.route_login("654321", "x"), LoginRoute::AnswerChallenge(c) if c == "654321"));
}

#[test]
fn replies_are_read_in_order() {
    let mut l = RobinhoodLogin::new(s("dev"));
    let mut r = empty_reply();
    r.workflow = Some(WorkflowField { status: Some(s("workflow_status_internal_pending")), id: Some(s("wf1")) });
    r.mfa_required = Some(true);
    assert!(matches!(l.read_reply(&r), LoginStep::Verify(id) if id == "wf1"));
    assert_eq!(l.verification_id, "wf1");

    let mut r2 = empty_reply();
    r2.workflow = Some(WorkflowField { status: Some(s("workflow_status_approved")), id: Some(s("wf1")) });
    r2.challenge = Some(ChallengeField { id: Some(s("c9")), kind: Some(s("sms")) });
    assert!(matches!(l.read_reply(&r2), LoginStep::Stop(AppError::MfaRequired(k)) if k == "sms"));
    assert!(l.mfa_required);
    assert_eq!(l.challenge_id, "c9");

    let mut r3 = empty_reply();
    r3.mfa_required = Some(true);
    assert!(matches!(l.read_reply(&r3), LoginStep::Stop(AppError::MfaRequired(k)) if k == "sms"));

    let mut r4 = empty_reply();
    r4.access_token = Some(s("AT"));
    r4.refresh_token = Some(s("RT"));
    match l.read_reply(&r4) {
        LoginStep::Tokens { access_token, token_type, refresh_token } => {
            assert_eq!(access_token, "AT");
            assert_eq!(token_type, None);
            assert_eq!(refresh_token, Some(s("RT")));
        }
        _ => panic!("expected tokens"),
    }
    assert!(!l.mfa_required);
    assert_eq!(l.verification_id, "");
    assert_eq!(l.pending_password, "");
}

#[test]
fn refusals_say_why() {
    let mut l = RobinhoodLogin::new(s("dev"));
    let mut r = empty_reply();
    r.detail = Some(s("bad password"));
    r.error = Some(s("ignored"));
    assert!(matches!(l.read_reply(&r),
        LoginStep::Stop(AppError::AuthFailed(m)) if m == "login failed: bad password"));
    let mut r2 = empty_reply();
    r2.error = Some(s("invalid_grant"));
    assert!(matches!(l.read_reply(&r2),
        LoginStep::Stop(AppError::AuthFailed(m)) if m == "login failed: invalid_grant - "));
    let mut r3 = empty_reply();
    r3.access_token = Some(s(""));
    assert!(matches!(l.read_reply(&r3),
        LoginStep::Stop(AppError::AuthFailed(m)) if m == "login failed: unexpected response: {}"));
    assert!(matches!(check_reply_body(0, 400),
        Err(AppError::ApiError(m)) if m == "empty response from Robinhood API (status 400)"));
    assert!(check_reply_body(2, 200).is_ok());
}

#[test]
fn verification_steps() {
    let mut l = RobinhoodLogin::new(s("dev"));
    assert!(matches!(l.read_challenge("prompt", "issued", "p1"), ChallengeStep::AwaitPrompt(id) if id == "p1"));
    assert!(matches!(l.read_challenge("sms", "issued", "s1"), ChallengeStep::Issued(k) if k == "sms"));
    assert_eq!(l.sheriff_challenge_id, "s1");
    assert!(matches!(l.read_challenge("email", "validated", "e1"), ChallengeStep::Issued(k) if k == "email"));
    assert!(matches!(l.read_challenge("sms", "pending", "z"), ChallengeStep::KeepPolling));
    assert_eq!(l.sheriff_challenge_id, "e1");
    assert!(l.after_workflow(Ok(s("prompt_approved"))).is_ok());
    assert!(matches!(l.after_workflow(Ok(s("sms"))), Err(AppError::MfaRequired(k)) if k == "sms"));
    assert_eq!(l.mfa_type, "sms");
    assert!(matches!(l.after_workflow(Err(AppError::AuthFailed(s("timed out")))),
        Err(AppError::AuthFailed(m)) if m == "verification workflow failed: Authentication failed: timed out"));
    assert!(matches!(l.keep_machine(""), Err(AppError::AuthFailed(_))));
    assert!(l.keep_machine("m1").is_ok());
    l.pending_username = s("u");
    l.pending_password = s("p");
    let (u, p) = l.finish_verification();
    assert_eq!((u.as_str(), p.as_str()), ("u", "p"));
    assert_eq!(l.machine_id, "");
    assert!(!l.mfa_required);
    assert!(workflow_approved(&None, &Some(s("workflow_status_approved"))));
    assert!(!workflow_approved(&Some(s("x")), &None));
    assert!(check_code_answer("validated").is_ok());
    assert!(matches!(check_code_answer("failed"),
        Err(AppError::AuthFailed(m)) if m == "verification code rejected (status: failed)"));
}

#[test]
fn login_codes_are_split_and_checked() {
    assert_eq!(lighthorse_login_code("k,s,a").ok(), Some((s("k"), s("s"), s("a"))));
    assert!(matches!(lighthorse_login_code("k,s"), Err(AppError::AuthFailed(m))
        if m == "Invalid credentials format. Expected 'api_key,api_secret,account_id'."));
    assert!(lighthorse_login_code("k,,a").is_err());
    assert!(lighthorse_login_code("k,s,a,b").is_err());
    assert_eq!(tastytrade_login_code("cs,rt,with,commas").ok(), Some((s("cs"), s("rt,with,commas"))));
    assert!(tastytrade_login_code(",rt").is_err());
    assert!(tastytrade_login_code("nocomma").is_err());
    assert_eq!(webull_login_code(" key , secret ").ok(), Some((s("key"), s("secret"))));
    assert!(matches!(webull_login_code("key, "), Err(AppError::AuthFailed(m))
        if m == "both app_key and app_secret are required"));
    assert!(matches!(webull_login_code("key"), Err(AppError::AuthFailed(m))
        if m == "invalid credentials format. Expected: app_key,app_secret"));
}

#[test]
fn sessions_save_their_secrets_and_restore_only_complete_ones() {
    let secrets = SessionSecrets {
        access_token: s("A"),
        token_type: s("T"),
        refresh_token: s("R"),
        device_token: s("D"),
    };
    let rh = export_credentials(BrokerType::Robinhood, true, "r1", "e", &secrets).ok().unwrap();
    assert_eq!((rh.broker_type.as_str(), rh.token_type.as_str(), rh.device_token.as_str()), ("robinhood", "T", "D"));
    let tt = export_credentials(BrokerType::Tastytrade, true, "t1", "e", &secrets).ok().unwrap();
    assert_eq!(tt.token_type, "Bearer");
    let wb = export_credentials(BrokerType::Webull, true, "w1", "e", &secrets).ok().unwrap();
    assert_eq!((wb.token_type.as_str(), wb.device_token.as_str()), ("", ""));
    assert!(matches!(export_credentials(BrokerType::Public, false, "p", "e", &secrets),
        Err(AppError::AuthFailed(m)) if m == "Not logged in"));
    assert!(matches!(export_credentials(BrokerType::Fennel, false, "f", "e", &secrets),
        Err(AppError::BrokerNotLoggedIn)));
    assert!(check_stored_credentials(BrokerType::Webull, &wb).is_ok());
    let mut broken = StoredCredentials::empty();
    broken.access_token = s("k");
    assert!(matches!(check_stored_credentials(BrokerType::Webull, &broken),
        Err(AppError::AuthFailed(m)) if m == "missing app credentials"));
    assert!(matches!(check_stored_credentials(BrokerType::Lighthorse, &broken),
        Err(AppError::AuthFailed(m)) if m == "Stored Light Horse credentials are incomplete."));
    assert!(matches!(check_stored_credentials(BrokerType::Public, &broken),
        Err(AppError::AuthFailed(m)) if m == "No secret key stored"));
    assert!(matches!(check_stored_credentials(BrokerType::Tastytrade, &broken),
        Err(AppError::AuthFailed(m)) if m.starts_with("Tastytrade OAuth credentials missing")));
    broken.device_token = s("cs");
    assert!(matches!(check_stored_credentials(BrokerType::Tastytrade, &broken),
        Err(AppError::AuthFailed(m)) if m == "Tastytrade refresh token missing. Please re-link your account."));
    assert!(check_stored_credentials(BrokerType::Fennel, &broken).is_ok());
}

#[test]
fn instruments_default_to_tradable_unless_told_otherwise() {
    let e = InstrumentInfo::empty();
    assert!(!e.tradable);
    assert_eq!(e.symbol, "");
    let i = InstrumentInfo::from_record(&Some(s("AAPL")), &Some(s("")), &Some(s("Apple Inc.")), None, &Some(s("active")), &None);
    assert_eq!(i.symbol, "AAPL");
    assert_eq!(i.name, "Apple Inc.");
    assert!(i.tradable);
    let j = InstrumentInfo::from_record(&None, &Some(s("Apple")), &Some(s("Apple Inc.")), Some(true), &Some(s("inactive")), &None);
    assert_eq!(j.name, "Apple");
    assert!(!j.tradable);
    let k = InstrumentInfo::from_record(&None, &None, &None, Some(true), &None, &Some(s("untradable")));
    assert!(!k.tradable);
    let m = InstrumentInfo::from_record(&None, &None, &None, Some(false), &None, &None);
    assert!(!m.tradable);
}
