use aes_gcm::aead::Aead;
use aes_gcm::KeyInit;
use multitrade::accounts::{
    lighthorse_account, public_account_list, robinhood_account_list, robinhood_cash,
    tastytrade_account_list, unique_names, webull_account_list, PublicAccount, RobinhoodAccount,
    TastytradeAccount, WebullAccount,
};
use multitrade::market::{fallback_open_at, market_open_at};
use multitrade::migration::{
    check_legacy_credentials, decrypt_legacy_credentials, derive_key, derive_store_key,
    machine_identifier, store_identifier, trim_quotes_str,
};

fn s(x: &str) -> String {
    x.to_string()
}

fn rh(n: &str, ty: &str, cash: &str, pcash: &str) -> RobinhoodAccount {
    RobinhoodAccount {
        account_number: s(n),
        url: s("u"),
        portfolio: s(""),
        positions: s(""),
        account_type: s(ty),
        buying_power: s(""),
        cash: s(cash),
        portfolio_cash: s(pcash),
    }
}

#[test]
fn shared_names_are_qualified() {
    let names = unique_names(&vec![s("A"), s("B"), s("A")], &vec![s("1"), s("2"), s("3")]);
    assert_eq!(names, vec![s("A (1)"), s("B"), s("A (3)")]);
}

#[test]
fn robinhood_lists_and_cash() {
    let one = robinhood_account_list(&vec![rh("11", "", "5", "")]);
    assert_eq!(one[0].name, "Individual Account");
    assert!(one[0].is_primary);
    assert_eq!(one[0].status, "APPROVED");
    let two = robinhood_account_list(&vec![rh("11", "cash", "", ""), rh("22", "cash", "", "")]);
    assert_eq!(two[1].name, "cash Account (22)");
    assert!(!two[0].is_primary);
    assert_eq!(robinhood_cash(&rh("1", "", "", "7.50")), "7.50");
    assert_eq!(robinhood_cash(&rh("1", "", "3", "7.50")), "3");
}

fn tasty(n: &str, nick: &str, ty: &str, closed: bool) -> TastytradeAccount {
    TastytradeAccount {
        account_number: s(n),
        external_id: s(""),
        opened_at: s(""),
        nickname: s(nick),
        account_type_name: s(ty),
        is_closed: closed,
        day_trader_status: false,
        is_firm_error: false,
        is_firm_proprietary: false,
        is_futures_approved: false,
        is_test_drive: false,
        margin_or_cash: s(""),
        is_foreign: false,
        authority_level: s("owner"),
    }
}

#[test]
fn other_brokers_list_their_accounts() {
    let t = tastytrade_account_list(&vec![tasty("1", "", "Roth", false), tasty("2", "", "", true), tasty("3", "", "", false)]);
    assert_eq!(t.len(), 2);
    assert_eq!(t[0].name, "Roth");
    assert!(t[0].is_primary);
    assert_eq!(t[1].name, "Account");
    let w = webull_account_list(&vec![
        WebullAccount { account_id: s("w1"), account_type: s(""), currency: s(""), status: s("OK") },
        WebullAccount { account_id: s("w2"), account_type: s(""), currency: s(""), status: s("OK") },
    ]);
    assert_eq!(w[0].name, "Account (w1)");
    assert!(w[0].is_primary && !w[1].is_primary);
    let p = public_account_list(&vec![PublicAccount {
        account_id: s("p1"),
        account_type: s("BROKERAGE"),
        options_level: s(""),
        brokerage_account_type: s(""),
        trade_permissions: s(""),
    }]);
    assert_eq!(p[0].name, "BROKERAGE Account");
    assert!(p[0].is_primary);
    let l = lighthorse_account("LH1");
    assert_eq!(l.name, "Light Horse Account (LH1)");
}

#[test]
fn market_hours() {
    assert!(market_open_at(1, 9, 30));
    assert!(!market_open_at(1, 9, 29));
    assert!(!market_open_at(5, 16, 0));
    assert!(!market_open_at(6, 12, 0));
    assert!(fallback_open_at(2, 9));
    assert!(!fallback_open_at(7, 10));
}

#[test]
fn keys_match_reference_pbkdf2_values() {
    let k = derive_key("HOSTDOMAIN\\userS-1-5-21");
    assert_eq!(hex::encode(k), "79ad16cab8e7bd931e9cdc7f28cbc9099d7772f3b309439bc319f66c6187b371");
    let k2 = derive_store_key("PCalice");
    assert_eq!(hex::encode(k2), "35cdd276fa5ed4bc92f014f744870194d89ec06507a6d3af0cd14856f43d818e");
    assert_eq!(store_identifier(Some("PC"), Some("alice")), "PCalice");
    assert_eq!(store_identifier(None, None), "default-hostdefault-user");
}

#[test]
fn legacy_files_open_with_the_machine_key() {
    let id = "HOSTDOMAIN\\userS-1-5-21";
    let key = derive_key(id);
    let cipher = aes_gcm::Aes256Gcm::new(&key.into());
    let nonce = [7u8; 12];
    let sealed = cipher.encrypt(aes_gcm::Nonce::from_slice(&nonce), b"{\"version\":1}".as_ref()).unwrap();
    let mut data = nonce.to_vec();
    data.extend_from_slice(&sealed);
    assert_eq!(decrypt_legacy_credentials(&data, id).ok(), Some(b"{\"version\":1}".to_vec()));
    assert!(decrypt_legacy_credentials(&data, "other machine").is_err());
    assert!(decrypt_legacy_credentials(&data[..5], id).is_err());
}

#[test]
fn machine_identifier_reads_the_sid() {
    let whoami = "\"host\\bob\",\"S-1-5-21-42\"\r\n";
    assert_eq!(
        machine_identifier(" HOST \n", "DOM", "bob", whoami).ok(),
        Some(s("HOSTDOM\\bobS-1-5-21-42"))
    );
    assert!(machine_identifier("h", "d", "u", "no comma").is_err());
    assert_eq!(trim_quotes_str("\"\"x\""), "x");
    assert!(check_legacy_credentials(Some(true)));
    assert!(!check_legacy_credentials(None));
}
