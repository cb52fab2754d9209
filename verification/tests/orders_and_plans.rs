use multitrade::accounts::{PublicAccount, RobinhoodAccount, TastytradeAccount, WebullAccount};
use multitrade::orders::{
    batch_sell_quantity, broker_order_gate, broker_order_priority, broker_service_order,
    find_held_line, is_sell, join_results, labeled_result, lighthorse_sell_quantity,
    parse_account_request, single_sell_quantity, split_requested_names, AccountOutcome,
    AccountRequest, HoldingLine, Holdings, OrderTally, SellQuantity,
};
use multitrade::plans::{
    public_order_plan, robinhood_order_pick, tastytrade_order_plan, webull_order_plan, AccountPick,
    OrderPlan,
};

fn s(x: &str) -> String {
    x.to_string()
}

#[test]
fn robinhood_and_fennel_are_served_last() {
    assert_eq!(broker_order_priority("robinhood"), 98);
    assert_eq!(broker_order_priority("fennel"), 99);
    assert_eq!(broker_order_priority("webull"), 0);
    assert_eq!(broker_order_priority(""), 0);
    let types = vec![s("fennel"), s("webull"), s("robinhood"), s(""), s("public"), s("fennel")];
    assert_eq!(broker_service_order(&types), vec![1, 3, 4, 2, 0, 5]);
}

#[test]
fn unknown_or_logged_out_brokers_answer_for_themselves() {
    assert_eq!(broker_order_gate(None, "b7"), Some(s("Error: Broker not found: b7")));
    assert_eq!(broker_order_gate(Some(false), "b7"), Some(s("Error: Broker not logged in")));
    assert_eq!(broker_order_gate(Some(true), "b7"), None);
}

#[test]
fn account_text_is_read_as_all_several_or_one() {
    assert!(matches!(parse_account_request("All accounts"), AccountRequest::All));
    match parse_account_request(" Roth IRA , ,Individual") {
        AccountRequest::Several(v) => assert_eq!(v, vec![s("Roth IRA"), s("Individual")]),
        _ => panic!("expected several"),
    }
    match parse_account_request("  Main  ") {
        AccountRequest::One(n) => assert_eq!(n, "Main"),
        _ => panic!("expected one"),
    }
    assert_eq!(split_requested_names("a,, b ,"), vec![s("a"), s("b")]);
}

#[test]
fn results_are_labeled_and_joined() {
    assert_eq!(labeled_result(&Some(s("Cash")), "ok"), "Cash: ok");
    assert_eq!(labeled_result(&None, "ok"), "ok");
    assert_eq!(join_results(&vec![s("a"), s("b"), s("c")]), "a; b; c");
    assert_eq!(join_results(&vec![]), "");
}

#[test]
fn summary_counts_placed_and_failed_accounts() {
    let mut t = OrderTally::new();
    assert_eq!(
        t.summary(),
        "No orders were placed (e.g., stock not tradable in selected accounts)."
    );
    t.record(AccountOutcome::Placed);
    t.record(AccountOutcome::Skipped);
    t.record(AccountOutcome::Placed);
    assert_eq!(t.summary(), "Successfully placed orders in 2 account(s). ");
    t.record(AccountOutcome::Failed);
    assert_eq!(
        t.summary(),
        "Error: Successfully placed orders in 2 account(s). Failed to place orders in 1 account(s). Check log for details."
    );
    let only_failed = OrderTally { placed: 0, failed: 3 };
    assert!(only_failed.summary().starts_with("Error: Failed to place orders in 3 account(s)."));
}

#[test]
fn sell_quantities_follow_the_holdings() {
    assert!(is_sell("SeLL"));
    assert!(!is_sell("buy"));
    assert_eq!(batch_sell_quantity(&Holdings::Held, true), Some(SellQuantity::AllHeld));
    assert_eq!(batch_sell_quantity(&Holdings::Held, false), Some(SellQuantity::UpToHeld));
    assert_eq!(batch_sell_quantity(&Holdings::NotHeld, false), None);
    assert_eq!(batch_sell_quantity(&Holdings::Unknown(s("x")), true), None);
    assert_eq!(batch_sell_quantity(&Holdings::Unknown(s("x")), false), Some(SellQuantity::Requested));
    assert_eq!(
        single_sell_quantity(&Holdings::NotHeld, false, "AAPL", "A1"),
        Err(s("No shares of AAPL in this account"))
    );
    assert_eq!(
        single_sell_quantity(&Holdings::Unknown(s("timeout")), true, "AAPL", "A1"),
        Err(s("Error: Could not look up holdings for A1: timeout"))
    );
    assert_eq!(
        single_sell_quantity(&Holdings::Unknown(s("timeout")), false, "AAPL", "A1"),
        Ok(SellQuantity::Requested)
    );
    assert_eq!(lighthorse_sell_quantity(&Holdings::Held, "T"), Ok(SellQuantity::AllHeld));
    assert_eq!(
        lighthorse_sell_quantity(&Holdings::NotHeld, "T"),
        Err(s("Error: No shares of T to sell"))
    );
    assert_eq!(lighthorse_sell_quantity(&Holdings::Unknown(s("e")), "T"), Ok(SellQuantity::Requested));
}

#[test]
fn the_held_line_is_the_first_readable_match() {
    let lines = vec![
        HoldingLine { ticker: s("msft"), shares_readable: true },
        HoldingLine { ticker: s("aapl"), shares_readable: false },
        HoldingLine { ticker: s("AaPl"), shares_readable: true },
    ];
    assert_eq!(find_held_line(&lines, "AAPL"), Some(2));
    assert_eq!(find_held_line(&lines, "TSLA"), None);
}

fn tasty(n: &str, nick: &str, ty: &str, closed: bool, auth: &str) -> TastytradeAccount {
    TastytradeAccount {
        account_number: s(n),
        external_id: s(""),
        opened_at: s(""),
        nickname: s(nick),
        account_type_name: s(ty),
        is_closed: closed,
        day_trader_status: false,
        is_firm_error: false,
        is_firm_proprietary: false,
        is_futures_approved: false,
        is_test_drive: false,
        margin_or_cash: s("Cash"),
        is_foreign: false,
        authority_level: s(auth),
    }
}

#[test]
fn tastytrade_plans() {
    let accounts = vec![
        tasty("5W1", "Main", "Individual", false, "owner"),
        tasty("5W2", "", "Roth IRA", false, "read-only"),
        tasty("5W3", "", "Joint", true, "owner"),
        tasty("5W4", "", "Roth IRA", false, "owner"),
    ];
    match tastytrade_order_plan(&accounts, "All accounts") {
        OrderPlan::Each(v) => {
            assert_eq!(v.len(), 2);
            assert_eq!(v[0].account_id, "5W1");
            assert_eq!(v[0].label, Some(s("Main")));
            assert_eq!(v[1].account_id, "5W4");
            assert_eq!(v[1].label, Some(s("Roth IRA")));
        }
        _ => panic!("expected each"),
    }
    match tastytrade_order_plan(&accounts, "Main, Unknown") {
        OrderPlan::Each(v) => {
            assert_eq!(v.len(), 2);
            assert_eq!(v[0].account_id, "5W1");
            assert_eq!(v[0].label, None);
            assert_eq!(v[1].account_id, "Unknown");
        }
        _ => panic!("expected each"),
    }
    assert!(matches!(tastytrade_order_plan(&accounts, " Account 5W4 "), OrderPlan::One(id) if id == "5W4"));
    assert!(matches!(tastytrade_order_plan(&vec![], "All accounts"),
        OrderPlan::Refused(m) if m == "Error: No accounts available"));
}

#[test]
fn webull_and_public_plans() {
    let web = vec![
        WebullAccount { account_id: s("W1"), account_type: s("CASH"), currency: s("USD"), status: s("") },
        WebullAccount { account_id: s("W2"), account_type: s("MARGIN"), currency: s("USD"), status: s("") },
    ];
    match webull_order_plan(&web, "All accounts") {
        OrderPlan::Each(v) => {
            assert_eq!(v.len(), 2);
            assert_eq!(v[1].account_id, "W2");
            assert_eq!(v[1].label, Some(s("MARGIN")));
        }
        _ => panic!("expected each"),
    }
    assert!(matches!(webull_order_plan(&web, "MARGIN Account"), OrderPlan::One(id) if id == "W2"));
    let public = vec![
        PublicAccount { account_id: s("P1"), account_type: s("BROKERAGE"), options_level: s(""),
            brokerage_account_type: s(""), trade_permissions: s("BUY_AND_SELL") },
        PublicAccount { account_id: s("P2"), account_type: s("IRA"), options_level: s(""),
            brokerage_account_type: s(""), trade_permissions: s("RESTRICTED_NO_TRADING") },
    ];
    match public_order_plan(&public, "All accounts") {
        OrderPlan::Each(v) => {
            assert_eq!(v.len(), 1);
            assert_eq!(v[0].account_id, "P1");
            assert_eq!(v[0].label, Some(s("BROKERAGE")));
        }
        _ => panic!("expected each"),
    }
    match public_order_plan(&public, "IRA Account,nobody") {
        OrderPlan::Each(v) => {
            assert_eq!(v[0].account_id, "P2");
            assert_eq!(v[1].account_id, "nobody");
        }
        _ => panic!("expected each"),
    }
}

fn rh(n: &str, ty: &str, url: &str) -> RobinhoodAccount {
    RobinhoodAccount {
        account_number: s(n),
        url: s(url),
        portfolio: s(""),
        positions: s(""),
        account_type: s(ty),
        buying_power: s(""),
        cash: s(""),
        portfolio_cash: s(""),
    }
}

#[test]
fn robinhood_picks() {
    let accounts = vec![rh("111", "individual", "u1"), rh("222", "ira_roth", "u2")];
    assert!(matches!(robinhood_order_pick(&accounts, "222"), AccountPick::One(1)));
    assert!(matches!(robinhood_order_pick(&accounts, "nothing"), AccountPick::One(0)));
    match robinhood_order_pick(&accounts, "All accounts") {
        AccountPick::Each(v) => assert_eq!(v, vec![0, 1]),
        _ => panic!("expected each"),
    }
    match robinhood_order_pick(&accounts, "ira_roth Account , zzz") {
        AccountPick::Each(v) => assert_eq!(v, vec![1]),
        _ => panic!("expected each"),
    }
    assert!(matches!(robinhood_order_pick(&vec![], "All accounts"),
        AccountPick::Refused(m) if m == "Error: No account found"));
    let no_url = vec![rh("111", "individual", "")];
    assert!(matches!(robinhood_order_pick(&no_url, "111"), AccountPick::Refused(_)));
}
