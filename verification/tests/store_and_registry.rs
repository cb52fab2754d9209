use multitrade::broker_type::BrokerType;
use multitrade::credentials::{StoredCredentials, StoredData};
use multitrade::desk::{
    broker_roster, find_broker, login_target, plan_link, plan_start_2fa, restorable,
    restore_status, select_broker, startup_gate, startup_state, unlink_broker, create_broker,
    BrokerEntry, TwoFactorPlan,
};
use multitrade::error::AppError;
use multitrade::manager::{BrokerManager, LinkedBroker};

fn creds(kind: &str, email: &str) -> StoredCredentials {
    let mut c = StoredCredentials::empty();
    c.broker_type = kind.to_string();
    c.email = email.to_string();
    c.access_token = "tok".to_string();
    c
}

#[derive(Clone)]
struct FakeBroker {
    kind: BrokerType,
    email: String,
    on: bool,
}

impl LinkedBroker for FakeBroker {
    fn spec_kind(&self) -> BrokerType {
        self.kind()
    }
    fn spec_name(&self) -> String {
        self.display_name()
    }
    fn spec_email(&self) -> String {
        self.current_email()
    }
    fn spec_logged_in(&self) -> bool {
        self.logged_in()
    }
    fn kind(&self) -> BrokerType {
        self.kind
    }
    fn display_name(&self) -> String {
        self.kind.to_string()
    }
    fn current_email(&self) -> String {
        self.email.clone()
    }
    fn logged_in(&self) -> bool {
        self.on
    }
    fn logout(&mut self) {
        self.on = false;
    }
}

fn fake(kind: BrokerType, on: bool) -> FakeBroker {
    FakeBroker { kind, email: "me@x.io".to_string(), on }
}

#[test]
fn a_fresh_store_is_version_one_and_empty() {
    let d = StoredData::new();
    assert_eq!(d.version, 1);
    assert!(!d.has_any_credentials());
    assert_eq!(d.get_last_active_broker_id(), "");
}

#[test]
fn load_after_save_gives_back_what_was_saved() {
    let mut d = StoredData::new();
    d.save_credentials("b1", &creds("fennel", "a@x"));
    d.save_credentials("b2", &creds("webull", "b@x"));
    d.save_credentials("b1", &creds("fennel", "c@x"));
    let got = d.load_credentials("b1").ok().unwrap();
    assert_eq!(got.email, "c@x");
    assert_eq!(d.load_credentials("b2").ok().unwrap().email, "b@x");
    let all = d.load_all_credentials();
    assert_eq!(all.len(), 2);
    assert_eq!(all[0].0, "b1");
    assert_eq!(all[1].0, "b2");
}

#[test]
fn load_after_delete_is_a_credential_error() {
    let mut d = StoredData::new();
    d.save_credentials("b1", &creds("fennel", "a@x"));
    d.delete_credentials("b1");
    match d.load_credentials("b1") {
        Err(AppError::CredentialError(m)) => assert_eq!(m, "No credentials for broker: b1"),
        _ => panic!("expected a credential error"),
    }
    assert!(!d.has_any_credentials());
}

#[test]
fn last_active_is_remembered() {
    let mut d = StoredData::new();
    d.set_last_active_broker_id("b9");
    assert_eq!(d.get_last_active_broker_id(), "b9");
}

#[test]
fn first_registered_broker_becomes_active_and_removal_moves_it() {
    let mut m: BrokerManager<FakeBroker> = BrokerManager::new();
    assert!(!m.has_brokers());
    assert!(m.register_broker("a".to_string(), fake(BrokerType::Fennel, true)).is_ok());
    assert!(m.register_broker("b".to_string(), fake(BrokerType::Webull, false)).is_ok());
    assert_eq!(m.get_active_broker_id(), Some("a".to_string()));
    assert!(m.get_broker("b").is_ok());
    assert!(m.remove_broker("a").is_ok());
    assert_eq!(m.get_active_broker_id(), Some("b".to_string()));
    assert!(m.remove_broker("b").is_ok());
    assert_eq!(m.get_active_broker_id(), None);
    match m.remove_broker("zz") {
        Err(AppError::BrokerNotFound(id)) => assert_eq!(id, "zz"),
        _ => panic!("expected not found"),
    }
}

#[test]
fn an_empty_id_is_refused() {
    let mut m: BrokerManager<FakeBroker> = BrokerManager::new();
    match m.register_broker(String::new(), fake(BrokerType::Fennel, true)) {
        Err(AppError::Other(msg)) => assert_eq!(msg, "Broker ID cannot be empty"),
        _ => panic!("expected a refusal"),
    }
}

#[test]
fn linked_brokers_are_described_in_link_order() {
    let mut m: BrokerManager<FakeBroker> = BrokerManager::new();
    m.register_broker("a".to_string(), fake(BrokerType::Robinhood, true)).unwrap();
    m.register_broker("b".to_string(), fake(BrokerType::Public, false)).unwrap();
    let infos = m.get_linked_brokers();
    assert_eq!(infos.len(), 2);
    assert_eq!(infos[0].id, "a");
    assert_eq!(infos[0].status, "connected");
    assert_eq!(infos[1].id, "b");
    assert_eq!(infos[1].status, "disconnected");
    assert_eq!(m.broker_ids(), vec!["a".to_string(), "b".to_string()]);
    m.clear_all();
    assert!(!m.has_brokers());
}

#[test]
fn selecting_a_broker_remembers_it() {
    let mut m: BrokerManager<FakeBroker> = BrokerManager::new();
    let mut d = StoredData::new();
    m.register_broker("a".to_string(), fake(BrokerType::Fennel, true)).unwrap();
    m.register_broker("b".to_string(), fake(BrokerType::Webull, true)).unwrap();
    assert!(select_broker(&mut m, &mut d, "b").is_ok());
    assert_eq!(m.get_active_broker_id(), Some("b".to_string()));
    assert_eq!(d.get_last_active_broker_id(), "b");
    assert!(matches!(select_broker(&mut m, &mut d, "q"), Err(AppError::BrokerNotFound(_))));
    assert_eq!(d.get_last_active_broker_id(), "b");
}

#[test]
fn unlinking_forgets_broker_and_credentials() {
    let mut m: BrokerManager<FakeBroker> = BrokerManager::new();
    let mut d = StoredData::new();
    m.register_broker("a".to_string(), fake(BrokerType::Fennel, true)).unwrap();
    d.save_credentials("a", &creds("fennel", "x"));
    d.save_credentials("keep", &creds("webull", "y"));
    assert!(unlink_broker(&mut m, &mut d, "a").is_ok());
    assert!(m.get_broker("a").is_err());
    assert!(d.load_credentials("a").is_err());
    assert!(d.load_credentials("keep").is_ok());
    assert!(matches!(unlink_broker(&mut m, &mut d, "a"), Err(AppError::BrokerNotFound(_))));
}

#[test]
fn start_screen_states() {
    assert_eq!(startup_gate(true, true), None);
    assert_eq!(startup_gate(false, true), Some("legacy_found".to_string()));
    assert_eq!(startup_gate(false, false), Some("need_link".to_string()));
    assert_eq!(startup_state(Some(true)), "ready");
    assert_eq!(startup_state(Some(false)), "need_link");
    assert_eq!(startup_state(None), "need_link");
    assert_eq!(restore_status(true), "connected");
    assert_eq!(restore_status(false), "needs_reauth");
}

#[test]
fn only_known_kinds_are_restored() {
    let stored = vec![
        ("a".to_string(), creds("fennel", "")),
        ("b".to_string(), creds("etrade", "")),
        ("c".to_string(), creds("lighthorse", "")),
    ];
    let r = restorable(&stored);
    assert_eq!(r, vec![(0, BrokerType::Fennel), (2, BrokerType::Lighthorse)]);
}

fn entry(id: &str, kind: BrokerType, on: bool) -> BrokerEntry {
    BrokerEntry { id: id.to_string(), kind, logged_in: on }
}

#[test]
fn two_factor_goes_to_a_logged_out_broker_of_the_kind() {
    let roster = vec![
        entry("w1", BrokerType::Webull, true),
        entry("w2", BrokerType::Webull, false),
        entry("f1", BrokerType::Fennel, false),
    ];
    assert!(matches!(
        plan_start_2fa(Some("webull"), &roster, true),
        Ok(TwoFactorPlan::Existing(id)) if id == "w2"
    ));
    assert!(matches!(
        plan_start_2fa(Some("public"), &roster, true),
        Ok(TwoFactorPlan::Create(BrokerType::Public))
    ));
    assert!(matches!(plan_start_2fa(None, &roster, true), Ok(TwoFactorPlan::Active)));
    assert!(matches!(
        plan_start_2fa(None, &roster, false),
        Ok(TwoFactorPlan::Create(BrokerType::Fennel))
    ));
    assert!(matches!(
        plan_start_2fa(Some("nope"), &roster, true),
        Err(AppError::UnknownBrokerType(s)) if s == "nope"
    ));
    assert_eq!(find_broker(&roster, BrokerType::Fennel, true), Some("f1".to_string()));
}

#[test]
fn linking_replaces_the_first_broker_of_the_kind() {
    let roster = vec![entry("w1", BrokerType::Webull, true), entry("w2", BrokerType::Webull, false)];
    let (k, old) = plan_link("webull", &roster).ok().unwrap();
    assert_eq!(k, BrokerType::Webull);
    assert_eq!(old, Some("w1".to_string()));
    let (k2, old2) = plan_link("tastytrade", &roster).ok().unwrap();
    assert_eq!(k2, BrokerType::Tastytrade);
    assert_eq!(old2, None);
    assert!(plan_link("x", &roster).is_err());
}

#[test]
fn roster_and_login_target_follow_the_registry() {
    let mut m: BrokerManager<FakeBroker> = BrokerManager::new();
    assert!(matches!(login_target(&m), Err(AppError::NoBrokerConnected)));
    m.register_broker("a".to_string(), fake(BrokerType::Tastytrade, false)).unwrap();
    m.register_broker("b".to_string(), fake(BrokerType::Webull, true)).unwrap();
    let roster = broker_roster(&m);
    assert_eq!(roster.len(), 2);
    assert_eq!(roster[0].id, "a");
    assert_eq!(roster[0].kind, BrokerType::Tastytrade);
    assert!(roster[1].logged_in);
    assert_eq!(login_target(&m).ok(), Some("a".to_string()));
}

#[test]
fn a_new_broker_keeps_its_id_or_gets_a_fresh_one() {
    let kept = create_broker(BrokerType::Public, "p-1");
    assert_eq!(kept.kind, BrokerType::Public);
    assert_eq!(kept.id, "p-1");
    let fresh = create_broker(BrokerType::Fennel, "");
    assert_eq!(fresh.id.len(), 36);
    for (i, c) in fresh.id.chars().enumerate() {
        if [8, 13, 18, 23].contains(&i) {
            assert_eq!(c, '-');
        } else {
            assert!(c.is_ascii_digit() || ('a'..='f').contains(&c));
        }
    }
    assert_eq!(fresh.id.as_bytes()[14], b'4');
    assert!(b"89ab".contains(&fresh.id.as_bytes()[19]));
    let fresh2 = create_broker(BrokerType::Fennel, "");
    assert_ne!(fresh.id, fresh2.id);
    let web = create_broker(BrokerType::Webull, "");
    assert!(web.id.starts_with("webull-"));
    assert!(web.id["webull-".len()..].parse::<i64>().is_ok());
}
