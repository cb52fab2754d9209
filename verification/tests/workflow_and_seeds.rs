use multitrade::broker_type::BrokerType;
use multitrade::credentials::{StoredCredentials, StoredData};
use multitrade::desk::{link_new_broker, retire_broker, seed_broker, webull_broker_id};
use multitrade::error::AppError;
use multitrade::fennel::{fennel_tradable_gate, AccountGate};
use multitrade::encoding::rfc3986_encode;
use multitrade::manager::{BrokerManager, LinkedBroker};
use multitrade::market::{fallback_open_at, fallback_open_now, is_market_open, market_open_at};
use multitrade::robinhood_login::{
    after_prompt_login, after_prompt_poll, keep_confirming, InquiryReply, InquiryStep, PromptStep, RobinhoodLogin,
};

#[derive(Clone)]
struct Desk {
    kind: BrokerType,
    on: bool,
}

impl LinkedBroker for Desk {
    fn spec_kind(&self) -> BrokerType {
        self.kind()
    }
    fn spec_name(&self) -> String {
        self.display_name()
    }
    fn spec_email(&self) -> String {
        self.current_email()
    }
    fn spec_logged_in(&self) -> bool {
        self.logged_in()
    }
    fn kind(&self) -> BrokerType {
        self.kind
    }
    fn display_name(&self) -> String {
        self.kind.to_string()
    }
    fn current_email(&self) -> String {
        String::new()
    }
    fn logged_in(&self) -> bool {
        self.on
    }
    fn logout(&mut self) {
        self.on = false;
    }
}

fn challenge(kind: &str, status: &str, id: &str) -> InquiryReply {
    InquiryReply::Challenge { kind: kind.to_string(), status: status.to_string(), id: id.to_string() }
}

#[test]
fn the_inquiry_is_looked_at_twelve_times_at_most() {
    let mut memo = RobinhoodLogin::new("dev".to_string());
    for n in 1..12 {
        assert!(matches!(memo.after_inquiry(n, &InquiryReply::NoChallenge), InquiryStep::Wait));
        assert!(matches!(
            memo.after_inquiry(n, &InquiryReply::Failed(AppError::NetworkError("x".to_string()))),
            InquiryStep::Wait
        ));
        assert!(matches!(memo.after_inquiry(n, &challenge("sms", "pending", "c")), InquiryStep::Wait));
    }
    assert_eq!(memo.sheriff_challenge_id, "");
    match memo.after_inquiry(12, &InquiryReply::NoChallenge) {
        InquiryStep::Finish(Err(AppError::AuthFailed(m))) => {
            assert_eq!(m, "timed out waiting for verification challenge")
        }
        _ => panic!("the twelfth empty look times out"),
    }
}

#[test]
fn an_issued_challenge_ends_the_wait() {
    let mut memo = RobinhoodLogin::new("dev".to_string());
    match memo.after_inquiry(3, &challenge("sms", "issued", "ch-1")) {
        InquiryStep::Finish(Ok(k)) => assert_eq!(k, "sms"),
        _ => panic!("a sent code ends the workflow"),
    }
    assert_eq!(memo.sheriff_challenge_id, "ch-1");
    let mut memo = RobinhoodLogin::new("dev".to_string());
    match memo.after_inquiry(12, &challenge("prompt", "issued", "ch-2")) {
        InquiryStep::AwaitPrompt(c) => assert_eq!(c, "ch-2"),
        _ => panic!("an issued prompt is waited on"),
    }
    assert_eq!(memo.sheriff_challenge_id, "ch-2");
    let mut memo = RobinhoodLogin::new("dev".to_string());
    match memo.after_inquiry(12, &challenge("email", "validated", "ch-3")) {
        InquiryStep::Finish(Ok(k)) => assert_eq!(k, "email"),
        _ => panic!("a validated challenge ends the workflow"),
    }
}

#[test]
fn the_prompt_is_waited_on_twenty_four_times_at_most() {
    assert!(matches!(after_prompt_poll(1, &Some("validated".to_string())), PromptStep::Approved));
    assert!(matches!(after_prompt_poll(24, &Some("validated".to_string())), PromptStep::Approved));
    assert!(matches!(after_prompt_poll(23, &Some("issued".to_string())), PromptStep::Wait));
    assert!(matches!(after_prompt_poll(5, &None), PromptStep::Wait));
    match after_prompt_poll(24, &None) {
        PromptStep::Stop(AppError::AuthFailed(m)) => assert_eq!(
            m,
            "prompt approval failed: Authentication failed: timed out waiting for Robinhood app approval"
        ),
        _ => panic!("the wait ends after the last look"),
    }
    assert_eq!(after_prompt_login(Ok(())).unwrap(), "prompt_approved");
    match after_prompt_login(Err(AppError::ApiError("boom".to_string()))) {
        Err(AppError::AuthFailed(m)) => assert_eq!(m, "post-prompt login failed: API error: boom"),
        _ => panic!("a failed login is reported"),
    }
    assert!(keep_confirming(0, false));
    assert!(keep_confirming(4, false));
    assert!(!keep_confirming(5, false));
    assert!(!keep_confirming(1, true));
}

#[test]
fn fresh_ids_are_made_of_what_was_drawn() {
    assert_eq!(webull_broker_id(1_700_000_000_123_456_789), "webull-1700000000123456789");
    assert_eq!(webull_broker_id(-5), "webull--5");
    let s = seed_broker(BrokerType::Webull, "", "webull-42".to_string());
    assert_eq!(s.kind, BrokerType::Webull);
    assert_eq!(s.id, "webull-42");
    assert_eq!(seed_broker(BrokerType::Fennel, "keep", "drawn".to_string()).id, "keep");
}

#[test]
fn market_answers_follow_the_reading() {
    let (open, r) = is_market_open();
    assert!((1..=7).contains(&r.weekday) && r.hour < 24 && r.minute < 60);
    assert_eq!(open, market_open_at(r.weekday, r.hour, r.minute));
    let (open, r) = fallback_open_now();
    assert_eq!(open, fallback_open_at(r.weekday, r.hour));
}

#[test]
fn tradability_decides_each_fennel_account() {
    assert_eq!(fennel_tradable_gate(&Ok(true)), AccountGate::Go);
    assert_eq!(fennel_tradable_gate(&Ok(false)), AccountGate::Skip);
    assert_eq!(fennel_tradable_gate(&Err(AppError::NoBrokerConnected)), AccountGate::Fail);
}

#[test]
fn linking_retires_the_old_broker_and_keeps_its_device() {
    let mut m: BrokerManager<Desk> = BrokerManager::new();
    let mut d = StoredData::new();
    m.register_broker("old".to_string(), Desk { kind: BrokerType::Robinhood, on: true }).unwrap();
    m.register_broker("other".to_string(), Desk { kind: BrokerType::Fennel, on: true }).unwrap();
    let mut c = StoredCredentials::empty();
    c.device_token = "dev-9".to_string();
    d.save_credentials("old", &c);
    assert_eq!(retire_broker(&mut m, &mut d, "old"), "dev-9");
    assert!(m.get_broker("old").is_err());
    assert_eq!(m.get_active_broker_id(), Some("other".to_string()));
    assert!(d.load_credentials("old").is_err());
    assert_eq!(retire_broker(&mut m, &mut d, "gone"), "");

    link_new_broker(&mut m, "new".to_string(), Desk { kind: BrokerType::Robinhood, on: false }).unwrap();
    assert_eq!(m.get_active_broker_id(), Some("new".to_string()));
    assert!(matches!(
        link_new_broker(&mut m, String::new(), Desk { kind: BrokerType::Webull, on: false }),
        Err(AppError::Other(_))
    ));
}

#[test]
fn listings_follow_each_broker() {
    let mut m: BrokerManager<Desk> = BrokerManager::new();
    m.register_broker("a".to_string(), Desk { kind: BrokerType::Webull, on: true }).unwrap();
    m.register_broker("b".to_string(), Desk { kind: BrokerType::Public, on: false }).unwrap();
    let l = m.get_linked_brokers();
    assert_eq!(l[0].broker_type, BrokerType::Webull);
    assert_eq!(l[0].status, "connected");
    assert_eq!(l[1].broker_type, BrokerType::Public);
    assert_eq!(l[1].status, "disconnected");
    m.clear_all();
    assert!(!m.has_brokers());
    assert_eq!(m.get_active_broker_id(), None);
}

fn percent_decode(t: &str) -> Vec<u8> {
    let b = t.as_bytes();
    let mut out = Vec::new();
    let mut i = 0;
    while i < b.len() {
        if b[i] == b'%' && i + 2 < b.len() && (b[i + 1] as char).is_ascii_hexdigit() && (b[i + 2] as char).is_ascii_hexdigit() {
            out.push(u8::from_str_radix(&t[i + 1..i + 3], 16).unwrap());
            i += 3;
        } else {
            out.push(b[i]);
            i += 1;
        }
    }
    out
}

#[test]
fn percent_encoding_decodes_back() {
    for s in ["", "abc-._~", "a b&c=d/é€", "100%", "%41"] {
        let e = rfc3986_encode(s);
        assert_eq!(percent_decode(&e), s.as_bytes().to_vec());
    }
}

#[test]
fn gates_before_orders_and_logins() {
    assert_eq!(multitrade::orders::order_session_gate(false), Some("Error: Not logged in".to_string()));
    assert_eq!(multitrade::orders::order_session_gate(true), None);
    assert_eq!(multitrade::desk::login_gate(true), Some("Already logged in.".to_string()));
    assert_eq!(multitrade::desk::login_gate(false), None);
}

#[test]
fn webull_signatures_are_28_characters_ending_in_padding() {
    let s = multitrade::signing::webull_signature("GET\n/v1/x", "secret");
    assert_eq!(s.len(), 28);
    assert!(s.ends_with('='));
}
