use multitrade::encoding::rfc3986_encode;
use multitrade::error::AppError;
use multitrade::robinhood_login::form_body;
use multitrade::session::{
    robinhood_auth_header, token_expired, token_expiry, AuthorizedRequest, RequestAction,
    RequestPhase, RequestStyle,
};
use multitrade::signing::{
    encode_pairs, lighthorse_sign_text, lighthorse_signature, lighthorse_url,
    webull_body_digest_text, webull_sign_text, webull_signature, webull_url,
};

fn s(x: &str) -> String {
    x.to_string()
}

#[test]
fn rfc3986_keeps_only_unreserved_bytes() {
    assert_eq!(rfc3986_encode("aZ9-._~"), "aZ9-._~");
    assert_eq!(rfc3986_encode("a b/é*"), "a%20b%2F%C3%A9%2A");
    assert_eq!(rfc3986_encode(""), "");
}

#[test]
fn form_bodies_use_plus_for_spaces() {
    let fields = vec![(s("user name"), s("a b&c=d/é*-._~")), (s("k"), s(""))];
    assert_eq!(form_body(&fields), "user+name=a+b%26c%3Dd%2F%C3%A9*-._%7E&k=");
}

#[test]
fn pairs_are_encoded_in_order() {
    let pairs = vec![(s("b"), s("1 2")), (s("a"), s("~"))];
    assert_eq!(encode_pairs(&pairs), "b=1%202&a=~");
}

#[test]
fn webull_signature_matches_reference_values() {
    let text = webull_sign_text("/account/list", "k1", "2024-01-01T00:00:00Z", "n1", &vec![], &None);
    assert_eq!(
        text,
        "/v1/account/list&app_key=k1&host=api.webull.com&nonce=n1&sign_algorithm=HMAC-SHA1&sign_version=1.0&timestamp=2024-01-01T00%3A00%3A00Z"
    );
    assert_eq!(webull_signature(&text, "sec"), "89ILyfCpdJboAJC9UC4IJv21vdU=");
    let with_more = webull_sign_text(
        "/p",
        "k",
        "t",
        "n",
        &vec![(s("symbol"), s("A B"))],
        &Some(s("D1")),
    );
    assert!(with_more.ends_with("&symbol=A%20B&D1"));
}

#[test]
fn webull_body_digest_is_upper_md5_unless_empty() {
    assert_eq!(
        webull_body_digest_text("{\"symbol\":\"AAPL\",\"qty\":1}"),
        Some(s("9EB20766BE60E81EF12C85B91F8B8718"))
    );
    assert_eq!(webull_body_digest_text("{}"), None);
    assert_eq!(webull_body_digest_text(""), None);
}

#[test]
fn webull_urls_carry_the_query() {
    assert_eq!(webull_url("/x", &vec![]), "https://api.webull.com/v1/x");
    assert_eq!(
        webull_url("/x", &vec![(s("a"), s("1")), (s("b"), s("c d"))]),
        "https://api.webull.com/v1/x?a=1&b=c%20d"
    );
}

#[test]
fn lighthorse_signature_matches_reference_values() {
    let text = lighthorse_sign_text("get", "/accounts/A1/state", "", "key", "1700000000", "n-1", "{}");
    assert_eq!(
        text,
        "GET\n/open-api/lighthorse/v1/accounts/A1/state\n\nx-trade-apikey:key\nx-trade-timestamp:1700000000\nx-trade-nonce:n-1\n99914b932bd37a50b983c5e7c90ae93b"
    );
    assert_eq!(
        lighthorse_signature(&text, "secret"),
        "N2EwZWE1MjEwMWE0YTM4YjA1M2IwYTk4NjhiZDU2ODFkYzMxOWY1OGM4MDRlYmU0ZWNhM2Y0ZWM4MWZkZjRmMA=="
    );
    assert_eq!(
        lighthorse_url("/accounts", "a=1"),
        "https://interface.lighthorse.io/open-api/lighthorse/v1/accounts?a=1"
    );
    assert_eq!(lighthorse_url("/x", ""), "https://interface.lighthorse.io/open-api/lighthorse/v1/x");
}

#[test]
fn an_unauthorized_answer_renews_the_token_once() {
    let mut r = AuthorizedRequest::new(RequestStyle::Robinhood, true);
    assert!(matches!(r.on_response(401, ""), RequestAction::Refresh));
    assert_eq!(r.phase, RequestPhase::Refreshing);
    assert!(matches!(r.on_refresh(Ok(())), RequestAction::Resend));
    match r.on_response(401, "") {
        RequestAction::Fail(AppError::AuthFailed(m)) => assert_eq!(m, "unauthorized after token refresh"),
        _ => panic!("expected a failure"),
    }
    assert_eq!(r.phase, RequestPhase::Done);
}

#[test]
fn a_failed_renewal_or_status_gives_up() {
    let mut r = AuthorizedRequest::new(RequestStyle::Tastytrade, true);
    r.on_response(401, "");
    match r.on_refresh(Err(AppError::NetworkError(s("down")))) {
        RequestAction::Fail(AppError::AuthFailed(m)) => {
            assert_eq!(m, "unauthorized and token refresh failed: Network error: down")
        }
        _ => panic!("expected a failure"),
    }
    let mut t = AuthorizedRequest::new(RequestStyle::Tastytrade, false);
    match t.on_response(401, "nope") {
        RequestAction::Fail(AppError::ApiError(m)) => assert_eq!(m, "request failed (status 401): nope"),
        _ => panic!("expected an API error"),
    }
    let mut h = AuthorizedRequest::new(RequestStyle::Robinhood, true);
    match h.on_response(503, "busy") {
        RequestAction::Fail(AppError::ApiError(m)) => assert_eq!(m, "request failed with status 503: busy"),
        _ => panic!("expected an API error"),
    }
    let mut ok = AuthorizedRequest::new(RequestStyle::Robinhood, true);
    assert!(matches!(ok.on_response(204, ""), RequestAction::Deliver));
}

#[test]
fn tokens_expire_a_minute_early() {
    assert_eq!(token_expiry(1_000, 900), 1_840);
    assert_eq!(token_expiry(1_000, 60), 1_000);
    assert_eq!(token_expiry(1_000, 0), 1_000);
    assert!(token_expired(5, None));
    assert!(token_expired(5, Some(5)));
    assert!(!token_expired(4, Some(5)));
    assert_eq!(robinhood_auth_header("", "abc"), "Bearer abc");
    assert_eq!(robinhood_auth_header("Token", "abc"), "Token abc");
}
