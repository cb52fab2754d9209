use multitrade::error::AppError;
use multitrade::fennel::{
    extract_account_number, fennel_account_ids, fennel_approved_indices, fennel_order_account_id,
    fennel_order_isin, fennel_pauses_before, fennel_quote_match, fennel_select_targets,
    fennel_service_order, fennel_tradable, precedes, tied, FennelAccount,
};

fn acc(id: Option<&str>, name: &str, status: &str, primary: bool) -> FennelAccount {
    FennelAccount {
        id: id.map(|s| s.to_string()),
        name: name.to_string(),
        status: status.to_string(),
        is_primary: primary,
    }
}

#[test]
fn account_numbers_are_read_from_names() {
    assert_eq!(extract_account_number("Account 12"), Some(12));
    assert_eq!(extract_account_number("Account  -3 "), Some(-3));
    assert_eq!(extract_account_number("Account x"), None);
    assert_eq!(extract_account_number("account 1"), None);
    assert_eq!(extract_account_number("Account 99999999999999999999"), None);
    assert_eq!(extract_account_number("Roth"), None);
}

#[test]
fn targets_for_all_or_named_accounts() {
    let accounts = vec![
        acc(Some("a"), "Account 2", "APPROVED", false),
        acc(Some("b"), "Roth", "APPROVED", false),
        acc(Some("c"), "Roth", "APPROVED", false),
    ];
    assert_eq!(fennel_select_targets(&accounts, "All accounts"), Ok(vec![0, 1, 2]));
    assert_eq!(fennel_select_targets(&accounts, "Roth, Account 2,Roth, Nope"), Ok(vec![1, 0, 1]));
    assert_eq!(
        fennel_select_targets(&accounts, "Nope"),
        Err("Error: Could not find any accounts matching 'Nope'".to_string())
    );
    assert_eq!(
        fennel_select_targets(&vec![], "All accounts"),
        Err("Error: No accounts found.".to_string())
    );
}

#[test]
fn service_order_puts_primary_approved_and_numbered_first() {
    let accounts = vec![
        acc(Some("1"), "Zeta", "APPROVED", false),
        acc(Some("2"), "Account 10", "APPROVED", false),
        acc(Some("3"), "Account 2", "APPROVED", false),
        acc(Some("4"), "Alpha", "PENDING", false),
        acc(Some("5"), "Beta", "APPROVED", true),
        acc(Some("6"), "Account 2", "APPROVED", false),
        acc(Some("7"), "Alpha", "APPROVED", false),
    ];
    let targets: Vec<usize> = (0..accounts.len()).collect();
    let order = fennel_service_order(&accounts, &targets);
    let served: Vec<&str> = order.iter().map(|p| accounts[targets[*p]].id.as_deref().unwrap()).collect();
    assert_eq!(served, vec!["5", "3", "6", "2", "7", "1", "4"]);
    assert!(precedes(&accounts[4], &accounts[0]));
    assert!(tied(&accounts[2], &accounts[5]));
    assert!(!precedes(&accounts[2], &accounts[5]));
}

#[test]
fn repeated_targets_keep_request_order() {
    let accounts = vec![acc(Some("x"), "Solo", "APPROVED", false), acc(Some("y"), "Account 1", "APPROVED", false)];
    let targets = vec![0, 1, 0];
    assert_eq!(fennel_service_order(&accounts, &targets), vec![1, 0, 2]);
}

#[test]
fn approved_accounts_and_their_ids() {
    let accounts = vec![
        acc(Some("a"), "A", "APPROVED", false),
        acc(None, "B", "APPROVED", false),
        acc(Some("c"), "C", "CLOSED", false),
        acc(Some(""), "D", "APPROVED", false),
    ];
    assert_eq!(fennel_approved_indices(&accounts), vec![0, 1, 3]);
    assert_eq!(fennel_account_ids(&accounts).ok(), Some(vec!["a".to_string(), "".to_string()]));
    match fennel_account_ids(&vec![acc(Some("c"), "C", "CLOSED", false)]) {
        Err(AppError::ApiError(m)) => assert_eq!(m, "no approved accounts found"),
        _ => panic!("expected an error"),
    }
    assert_eq!(fennel_order_account_id(&accounts[0]), Some("a".to_string()));
    assert_eq!(fennel_order_account_id(&accounts[1]), None);
    assert_eq!(fennel_order_account_id(&accounts[3]), None);
}

#[test]
fn quotes_pick_the_matching_ticker() {
    let tickers = vec![None, Some("AAPLW".to_string()), Some("aapl".to_string())];
    assert_eq!(fennel_quote_match(&tickers, "AAPL").ok(), Some(2));
    match fennel_quote_match(&tickers, "MSFT") {
        Err(AppError::ApiError(m)) => assert_eq!(m, "no exact match found for ticker MSFT"),
        _ => panic!("expected no match"),
    }
    match fennel_quote_match(&tickers, "") {
        Err(AppError::ApiError(m)) => assert_eq!(m, "ticker cannot be empty"),
        _ => panic!("expected empty ticker"),
    }
    assert_eq!(fennel_order_isin(&Some("US0378331005".to_string()), "AAPL"), Ok("US0378331005".to_string()));
    assert_eq!(
        fennel_order_isin(&Some(String::new()), "AAPL"),
        Err("Error: Could not find ISIN for ticker AAPL".to_string())
    );
    assert_eq!(
        fennel_order_isin(&None, "AAPL"),
        Err("Error: Could not find ISIN for ticker AAPL".to_string())
    );
}

#[test]
fn tradability_and_pauses() {
    assert!(fennel_tradable(false, true));
    assert!(!fennel_tradable(false, false));
    assert!(!fennel_pauses_before(1, 0));
    assert!(!fennel_pauses_before(3, 0));
    assert!(fennel_pauses_before(3, 1));
}
