use multitrade::broker_type::BrokerType;
use multitrade::credentials::{StoredCredentials, StoredData};
use multitrade::desk::{account_sources, logout_active, BrokerEntry};
use multitrade::error::AppError;
use multitrade::fennel::{AttemptAction, OrderAttempts, OrderReply};
use multitrade::manager::{BrokerManager, LinkedBroker};
use multitrade::session::{public_token_expiry, public_token_from_reply, robinhood_auth_header};

#[derive(Clone)]
struct Client {
    kind: BrokerType,
    on: bool,
}

impl LinkedBroker for Client {
    fn spec_kind(&self) -> BrokerType {
        self.kind()
    }
    fn spec_name(&self) -> String {
        self.display_name()
    }
    fn spec_email(&self) -> String {
        self.current_email()
    }
    fn spec_logged_in(&self) -> bool {
        self.logged_in()
    }
    fn kind(&self) -> BrokerType {
        self.kind
    }
    fn display_name(&self) -> String {
        self.kind.to_string()
    }
    fn current_email(&self) -> String {
        "me@x.io".to_string()
    }
    fn logged_in(&self) -> bool {
        self.on
    }
    fn logout(&mut self) {
        self.on = false;
    }
}

fn saved(kind: &str) -> StoredCredentials {
    let mut c = StoredCredentials::empty();
    c.broker_type = kind.to_string();
    c.access_token = "tok".to_string();
    c
}

#[test]
fn created_orders_finish_and_rejections_are_not_retried() {
    let mut a = OrderAttempts::new();
    assert_eq!(a.attempt, 1);
    assert!(matches!(a.on_reply(OrderReply::Created), AttemptAction::Finish(Ok(()))));

    let mut a = OrderAttempts::new();
    let r = a.on_reply(OrderReply::Rejected { message: Some("bad isin".to_string()), listing: "[..]".to_string() });
    match r {
        AttemptAction::Finish(Err(AppError::ApiError(m))) => assert_eq!(m, "GraphQL error: bad isin"),
        _ => panic!("a rejection finishes with its message"),
    }

    let mut a = OrderAttempts::new();
    let r = a.on_reply(OrderReply::Rejected { message: None, listing: "[{\"x\":1}]".to_string() });
    match r {
        AttemptAction::Finish(Err(AppError::ApiError(m))) => assert_eq!(m, "[{\"x\":1}]"),
        _ => panic!("a rejection without message finishes with the listing"),
    }
}

#[test]
fn other_failures_are_retried_until_the_third_attempt() {
    let mut a = OrderAttempts::new();
    assert!(matches!(a.on_reply(OrderReply::MissingData), AttemptAction::Retry));
    assert_eq!(a.attempt, 2);
    assert!(matches!(a.on_reply(OrderReply::Transport(AppError::NetworkError("down".to_string()))), AttemptAction::Retry));
    assert_eq!(a.attempt, 3);
    match a.on_reply(OrderReply::MissingOrder) {
        AttemptAction::Finish(Err(AppError::ApiError(m))) => assert_eq!(
            m,
            "failed to place order (API response structure unexpected, 'createOrder' field missing)"
        ),
        _ => panic!("the third failure finishes"),
    }

    let mut a = OrderAttempts::new();
    a.on_reply(OrderReply::MissingOrder);
    a.on_reply(OrderReply::MissingOrder);
    match a.on_reply(OrderReply::MissingData) {
        AttemptAction::Finish(Err(AppError::ApiError(m))) => {
            assert_eq!(m, "invalid response format: data field missing or not an object")
        }
        _ => panic!("the third failure finishes"),
    }
}

#[test]
fn public_tokens_are_read_from_the_reply() {
    match public_token_from_reply(false, "401 Unauthorized", "nope", &None) {
        Err(AppError::AuthFailed(m)) => assert_eq!(m, "Authentication failed (status 401 Unauthorized): nope"),
        _ => panic!("a failed status is refused"),
    }
    match public_token_from_reply(true, "200 OK", "{}", &None) {
        Err(AppError::AuthFailed(m)) => assert_eq!(m, "No access token in response"),
        _ => panic!("a missing token is refused"),
    }
    match public_token_from_reply(true, "200 OK", "{}", &Some(String::new())) {
        Err(AppError::AuthFailed(m)) => assert_eq!(m, "Empty access token in response"),
        _ => panic!("an empty token is refused"),
    }
    assert_eq!(public_token_from_reply(true, "200 OK", "{}", &Some("abc".to_string())).unwrap(), "abc");
    assert_eq!(public_token_expiry(1_000), 4_300);
}

#[test]
fn robinhood_header_defaults_to_bearer() {
    assert_eq!(robinhood_auth_header("", "t0k"), "Bearer t0k");
    assert_eq!(robinhood_auth_header("Token", "t0k"), "Token t0k");
}

#[test]
fn logging_out_forgets_the_active_broker_only() {
    let mut m: BrokerManager<Client> = BrokerManager::new();
    let mut d = StoredData::new();
    m.register_broker("a".to_string(), Client { kind: BrokerType::Fennel, on: true }).unwrap();
    m.register_broker("b".to_string(), Client { kind: BrokerType::Webull, on: true }).unwrap();
    d.save_credentials("a", &saved("fennel"));
    d.save_credentials("b", &saved("webull"));
    d.set_last_active_broker_id("a");

    assert_eq!(logout_active(&mut m, &mut d), Some("a".to_string()));
    assert!(m.get_broker("a").is_err());
    assert!(m.get_broker("b").is_ok());
    assert!(d.load_credentials("a").is_err());
    assert!(d.load_credentials("b").is_ok());
    assert_eq!(d.get_last_active_broker_id(), "a");

    let mut empty: BrokerManager<Client> = BrokerManager::new();
    let mut d2 = StoredData::new();
    assert_eq!(logout_active(&mut empty, &mut d2), None);
}

#[test]
fn accounts_come_from_logged_in_brokers() {
    assert!(matches!(account_sources(&Vec::new()), Err(AppError::NoBrokerConnected)));
    let roster = vec![
        BrokerEntry { id: "a".to_string(), kind: BrokerType::Fennel, logged_in: false },
        BrokerEntry { id: "b".to_string(), kind: BrokerType::Public, logged_in: true },
        BrokerEntry { id: "c".to_string(), kind: BrokerType::Webull, logged_in: true },
    ];
    assert_eq!(account_sources(&roster).unwrap(), vec![1, 2]);
    let none_on = vec![BrokerEntry { id: "a".to_string(), kind: BrokerType::Fennel, logged_in: false }];
    assert_eq!(account_sources(&none_on).unwrap(), Vec::<usize>::new());
}
