use multitrade::broker_type::{broker_info, BrokerType};
use multitrade::error::AppError;

#[test]
fn broker_type_round_trips_through_its_name() {
    let all = [
        BrokerType::Fennel,
        BrokerType::Public,
        BrokerType::Robinhood,
        BrokerType::Tastytrade,
        BrokerType::Webull,
        BrokerType::Lighthorse,
    ];
    for t in all {
        let name = t.to_string();
        assert_eq!(BrokerType::from_str(&name).ok(), Some(t));
        assert_eq!(t.as_str(), name.as_str());
    }
    assert_eq!(BrokerType::Tastytrade.to_string(), "tastytrade");
    assert_eq!(BrokerType::Lighthorse.as_str(), "lighthorse");
}

#[test]
fn unknown_broker_type_is_refused_with_its_name() {
    match BrokerType::from_str("Fennel") {
        Err(AppError::UnknownBrokerType(s)) => assert_eq!(s, "Fennel"),
        _ => panic!("expected an unknown type"),
    }
    let e = BrokerType::from_str("etrade").err().unwrap();
    assert_eq!(e.to_string(), "Unknown broker type: etrade");
}

#[test]
fn broker_info_reports_link_status() {
    let on = broker_info("b1", BrokerType::Webull, "Webull", "a@b.c", true);
    assert_eq!(on.id, "b1");
    assert_eq!(on.name, "Webull");
    assert_eq!(on.email, "a@b.c");
    assert_eq!(on.status, "connected");
    assert_eq!(on.broker_type, BrokerType::Webull);
    let off = broker_info("b2", BrokerType::Fennel, "Fennel", "", false);
    assert_eq!(off.status, "disconnected");
}

#[test]
fn every_error_reads_as_its_text() {
    let s = |x: &str| x.to_string();
    assert_eq!(AppError::NoBrokerConnected.to_string(), "No broker connected");
    assert_eq!(AppError::BrokerNotFound(s("x")).to_string(), "Broker not found: x");
    assert_eq!(AppError::BrokerNotLoggedIn.to_string(), "Broker not logged in");
    assert_eq!(AppError::AuthFailed(s("bad")).to_string(), "Authentication failed: bad");
    assert_eq!(AppError::MfaRequired(s("sms")).to_string(), "MFA required: sms");
    assert_eq!(AppError::NetworkError(s("down")).to_string(), "Network error: down");
    assert_eq!(AppError::ApiError(s("500")).to_string(), "API error: 500");
    assert_eq!(
        AppError::CredentialError(s("locked")).to_string(),
        "Credential store error: locked"
    );
    assert_eq!(AppError::UnknownBrokerType(s("zz")).to_string(), "Unknown broker type: zz");
    assert_eq!(AppError::Other(s("plain")).to_string(), "plain");
}
