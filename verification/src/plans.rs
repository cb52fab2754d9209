//! Which accounts an order reaches at each broker, and under which label
//! each account's result is reported.

use vstd::prelude::*;
use crate::text::{owned, str_eq, trim, split_on, split_str};
use crate::accounts::{
    unique_name, robinhood_bases, robinhood_numbers, law_robinhood_listed_names_name,
    lemma_first_where_at_most,
    views, first_where, indices_where, as_ints, TastytradeAccount, WebullAccount, PublicAccount,
    RobinhoodAccount, tastytrade_names, webull_names, public_names, public_tradable, robinhood_names,
    robinhood_target, tastytrade_find_account_number, webull_find_account_id,
    public_resolve_account_id, robinhood_account_matches, robinhood_resolve_account,
    lemma_indices_in_range,
};
use crate::orders::{AccountRequest, parse_account_request, all_accounts_text, requested_names};

verus! {

/// One account an order goes to, with the label its result is reported
/// under, if any.
#[derive(Debug, Clone)]
pub struct OrderTarget {
    pub account_id: String,
    pub label: Option<String>,
}

/// How an order is carried out at one broker.
pub enum OrderPlan {
    /// Place it in each of these accounts in turn and join the results.
    Each(Vec<OrderTarget>),
    /// Place it in this one account and report its result alone.
    One(String),
    /// Place nothing; this text is the answer.
    Refused(String),
}

/// An order target as plain text: the account and its label.
pub open spec fn target_view(t: OrderTarget) -> (Seq<char>, Option<Seq<char>>) {
    (
        t.account_id@,
        match t.label {
            Some(l) => Some(l@),
            None => None,
        },
    )
}

/// The targets of a plan as plain text.
pub open spec fn target_views(v: Seq<OrderTarget>) -> Seq<(Seq<char>, Option<Seq<char>>)> {
    v.map_values(|t: OrderTarget| target_view(t))
}

/// Accounts reported without a label.
pub open spec fn unlabeled(ids: Seq<Seq<char>>) -> Seq<(Seq<char>, Option<Seq<char>>)> {
    ids.map_values(|q: Seq<char>| (q, None::<Seq<char>>))
}

/// The answer when an order for every account finds no account.
pub open spec fn no_accounts_text() -> Seq<char> {
    "Error: No accounts available"@
}

/// A Tastytrade account takes orders for every account when it is open and
/// not read-only.
pub open spec fn tastytrade_trades(a: TastytradeAccount) -> bool {
    !a.is_closed && a.authority_level@ != "read-only"@
}

/// The label of a Tastytrade account's result: its nickname, else its type
/// name.
pub open spec fn tastytrade_label(a: TastytradeAccount) -> Seq<char> {
    if a.nickname@.len() > 0 {
        a.nickname@
    } else {
        a.account_type_name@
    }
}

/// The Tastytrade account number a requested name stands for: that of the
/// first account it names, else the name itself.
pub open spec fn tastytrade_resolved(accounts: Seq<TastytradeAccount>, q: Seq<char>) -> Seq<char> {
    match first_where(accounts.len(), |i: int| tastytrade_names(accounts[i], q)) {
        Some(i) => accounts[i].account_number@,
        None => q,
    }
}

/// The targets of a Tastytrade order for every account.
pub open spec fn tastytrade_everywhere(accounts: Seq<TastytradeAccount>) -> Seq<
    (Seq<char>, Option<Seq<char>>),
> {
    indices_where(accounts.len(), |i: int| tastytrade_trades(accounts[i])).map_values(
        |i: int| (accounts[i].account_number@, Some(tastytrade_label(accounts[i]))),
    )
}

fn tastytrade_resolve(accounts: &Vec<TastytradeAccount>, q: &str) -> (r: String)
    ensures
        r@ == tastytrade_resolved(accounts@, q@),
{
    match tastytrade_find_account_number(accounts, q) {
        Some(s) => s,
        None => owned(q),
    }
}

/// The plan of a Tastytrade order: for `All accounts`, every open account
/// that may trade, labeled; for a comma-separated list, each requested
/// name's account; else the one account the text names.
pub fn tastytrade_order_plan(accounts: &Vec<TastytradeAccount>, account: &str) -> (r: OrderPlan)
    ensures
        account@ == all_accounts_text() && accounts@.len() == 0 ==> (r matches OrderPlan::Refused(
            e,
        ) && e@ == no_accounts_text()),
        account@ == all_accounts_text() && accounts@.len() > 0 ==> (r matches OrderPlan::Each(v)
            && target_views(v@) == tastytrade_everywhere(accounts@)),
        account@ != all_accounts_text() && split_on(account@, ',').len() > 1 ==> (
        r matches OrderPlan::Each(v) && target_views(v@) == unlabeled(
            requested_names(account@).map_values(|q: Seq<char>| tastytrade_resolved(accounts@, q)),
        )),
        account@ != all_accounts_text() && split_on(account@, ',').len() <= 1 ==> (
        r matches OrderPlan::One(id) && id@ == tastytrade_resolved(accounts@, trim(account@))),
{
    match parse_account_request(account) {
        AccountRequest::All => {
            if accounts.len() == 0 {
                return OrderPlan::Refused(owned("Error: No accounts available"));
            }
            let ghost p = |i: int| tastytrade_trades(accounts@[i]);
            let ghost f = |i: int|
                (accounts@[i].account_number@, Some(tastytrade_label(accounts@[i])));
            let mut v: Vec<OrderTarget> = Vec::new();
            let mut i: usize = 0;
            while i < accounts.len()
                invariant
                    i <= accounts.len(),
                    p == (|i: int| tastytrade_trades(accounts@[i])),
                    f == (|i: int|
                        (accounts@[i].account_number@, Some(tastytrade_label(accounts@[i])))),
                    target_views(v@) == indices_where(i as nat, p).map_values(f),
                decreases accounts.len() - i,
            {
                let a = &accounts[i];
                let ghost before = target_views(v@);
                if !a.is_closed && !str_eq(a.authority_level.as_str(), "read-only") {
                    let label = if a.nickname.as_str().is_empty() {
                        a.account_type_name.clone()
                    } else {
                        a.nickname.clone()
                    };
                    v.push(OrderTarget { account_id: a.account_number.clone(), label: Some(label) });
                    assert(indices_where((i + 1) as nat, p) == indices_where(i as nat, p).push(
                        i as int,
                    ));
                    assert(target_views(v@) =~= before.push(f(i as int)));
                    assert(indices_where((i + 1) as nat, p).map_values(f) =~= indices_where(
                        i as nat,
                        p,
                    ).map_values(f).push(f(i as int)));
                }
                i = i + 1;
            }
            OrderPlan::Each(v)
        },
        AccountRequest::Several(names) => {
            let ghost g = |q: Seq<char>| tastytrade_resolved(accounts@, q);
            let mut v: Vec<OrderTarget> = Vec::new();
            let mut j: usize = 0;
            while j < names.len()
                invariant
                    j <= names.len(),
                    g == (|q: Seq<char>| tastytrade_resolved(accounts@, q)),
                    target_views(v@) == unlabeled(views(names@).take(j as int).map_values(g)),
                decreases names.len() - j,
            {
                let ghost before = target_views(v@);
                let id = tastytrade_resolve(accounts, names[j].as_str());
                v.push(OrderTarget { account_id: id, label: None });
                assert(views(names@).take(j + 1) =~= views(names@).take(j as int).push(
                    names@[j as int]@,
                ));
                assert(id@ == g(names@[j as int]@));
                let ghost prev = views(names@).take(j as int).map_values(g);
                assert(views(names@).take(j + 1).map_values(g) =~= prev.push(g(names@[j as int]@)));
                assert(unlabeled(prev.push(g(names@[j as int]@))) =~= unlabeled(prev).push(
                    (g(names@[j as int]@), None::<Seq<char>>),
                ));
                assert(target_views(v@) =~= before.push((id@, None::<Seq<char>>)));
                j = j + 1;
            }
            assert(views(names@).take(names.len() as int) =~= views(names@));
            OrderPlan::Each(v)
        },
        AccountRequest::One(name) => OrderPlan::One(tastytrade_resolve(accounts, name.as_str())),
    }
}

/// The Webull account id a requested name stands for: that of the first
/// account it names, else the name itself.
pub open spec fn webull_resolved(accounts: Seq<WebullAccount>, q: Seq<char>) -> Seq<char> {
    match first_where(accounts.len(), |i: int| webull_names(accounts[i], q)) {
        Some(i) => accounts[i].account_id@,
        None => q,
    }
}

/// The targets of a Webull order for every account.
pub open spec fn webull_everywhere(accounts: Seq<WebullAccount>) -> Seq<
    (Seq<char>, Option<Seq<char>>),
> {
    accounts.map_values(|a: WebullAccount| (a.account_id@, Some(a.account_type@)))
}

fn webull_resolve(accounts: &Vec<WebullAccount>, q: &str) -> (r: String)
    ensures
        r@ == webull_resolved(accounts@, q@),
{
    match webull_find_account_id(accounts, q) {
        Some(s) => s,
        None => owned(q),
    }
}

/// The plan of a Webull order: for `All accounts`, every account, labeled
/// by its type; for a comma-separated list, each requested name's account;
/// else the one account the text names.
pub fn webull_order_plan(accounts: &Vec<WebullAccount>, account: &str) -> (r: OrderPlan)
    ensures
        account@ == all_accounts_text() && accounts@.len() == 0 ==> (r matches OrderPlan::Refused(
            e,
        ) && e@ == no_accounts_text()),
        account@ == all_accounts_text() && accounts@.len() > 0 ==> (r matches OrderPlan::Each(v)
            && target_views(v@) == webull_everywhere(accounts@)),
        account@ != all_accounts_text() && split_on(account@, ',').len() > 1 ==> (
        r matches OrderPlan::Each(v) && target_views(v@) == unlabeled(
            requested_names(account@).map_values(|q: Seq<char>| webull_resolved(accounts@, q)),
        )),
        account@ != all_accounts_text() && split_on(account@, ',').len() <= 1 ==> (
        r matches OrderPlan::One(id) && id@ == webull_resolved(accounts@, trim(account@))),
{
    match parse_account_request(account) {
        AccountRequest::All => {
            if accounts.len() == 0 {
                return OrderPlan::Refused(owned("Error: No accounts available"));
            }
            let ghost f = |a: WebullAccount| (a.account_id@, Some(a.account_type@));
            let mut v: Vec<OrderTarget> = Vec::new();
            let mut i: usize = 0;
            while i < accounts.len()
                invariant
                    i <= accounts.len(),
                    f == (|a: WebullAccount| (a.account_id@, Some(a.account_type@))),
                    target_views(v@) == accounts@.take(i as int).map_values(f),
                decreases accounts.len() - i,
            {
                let a = &accounts[i];
                let ghost before = target_views(v@);
                v.push(OrderTarget { account_id: a.account_id.clone(), label: Some(a.account_type.clone()) });
                assert(target_views(v@) =~= before.push(f(accounts@[i as int])));
                assert(accounts@.take(i + 1).map_values(f) =~= accounts@.take(i as int).map_values(
                    f,
                ).push(f(accounts@[i as int])));
                i = i + 1;
            }
            assert(accounts@.take(accounts.len() as int) =~= accounts@);
            OrderPlan::Each(v)
        },
        AccountRequest::Several(names) => {
            let ghost g = |q: Seq<char>| webull_resolved(accounts@, q);
            let mut v: Vec<OrderTarget> = Vec::new();
            let mut j: usize = 0;
            while j < names.len()
                invariant
                    j <= names.len(),
                    g == (|q: Seq<char>| webull_resolved(accounts@, q)),
                    target_views(v@) == unlabeled(views(names@).take(j as int).map_values(g)),
                decreases names.len() - j,
            {
                let ghost before = target_views(v@);
                let id = webull_resolve(accounts, names[j].as_str());
                v.push(OrderTarget { account_id: id, label: None });
                assert(views(names@).take(j + 1) =~= views(names@).take(j as int).push(
                    names@[j as int]@,
                ));
                assert(id@ == g(names@[j as int]@));
                let ghost prev = views(names@).take(j as int).map_values(g);
                assert(views(names@).take(j + 1).map_values(g) =~= prev.push(g(names@[j as int]@)));
                assert(unlabeled(prev.push(g(names@[j as int]@))) =~= unlabeled(prev).push(
                    (g(names@[j as int]@), None::<Seq<char>>),
                ));
                assert(target_views(v@) =~= before.push((id@, None::<Seq<char>>)));
                j = j + 1;
            }
            assert(views(names@).take(names.len() as int) =~= views(names@));
            OrderPlan::Each(v)
        },
        AccountRequest::One(name) => OrderPlan::One(webull_resolve(accounts, name.as_str())),
    }
}

/// The Public.com account id a requested name stands for: that of the
/// first account it names, else the name itself.
pub open spec fn public_resolved(accounts: Seq<PublicAccount>, q: Seq<char>) -> Seq<char> {
    match first_where(accounts.len(), |i: int| public_names(accounts[i], q)) {
        Some(i) => accounts[i].account_id@,
        None => q,
    }
}

/// The targets of a Public.com order for every account.
pub open spec fn public_everywhere(accounts: Seq<PublicAccount>) -> Seq<
    (Seq<char>, Option<Seq<char>>),
> {
    indices_where(accounts.len(), |i: int| public_tradable(accounts[i])).map_values(
        |i: int| (accounts[i].account_id@, Some(accounts[i].account_type@)),
    )
}

/// The plan of a Public.com order: for `All accounts`, every account that
/// may trade, labeled by its type; for a comma-separated list, each
/// requested name's account; else the one account the text names.
pub fn public_order_plan(accounts: &Vec<PublicAccount>, account: &str) -> (r: OrderPlan)
    ensures
        account@ == all_accounts_text() && accounts@.len() == 0 ==> (r matches OrderPlan::Refused(
            e,
        ) && e@ == no_accounts_text()),
        account@ == all_accounts_text() && accounts@.len() > 0 ==> (r matches OrderPlan::Each(v)
            && target_views(v@) == public_everywhere(accounts@)),
        account@ != all_accounts_text() && split_on(account@, ',').len() > 1 ==> (
        r matches OrderPlan::Each(v) && target_views(v@) == unlabeled(
            requested_names(account@).map_values(|q: Seq<char>| public_resolved(accounts@, q)),
        )),
        account@ != all_accounts_text() && split_on(account@, ',').len() <= 1 ==> (
        r matches OrderPlan::One(id) && id@ == public_resolved(accounts@, trim(account@))),
{
    match parse_account_request(account) {
        AccountRequest::All => {
            if accounts.len() == 0 {
                return OrderPlan::Refused(owned("Error: No accounts available"));
            }
            let ghost p = |i: int| public_tradable(accounts@[i]);
            let ghost f = |i: int|
                (accounts@[i].account_id@, Some(accounts@[i].account_type@));
            let mut v: Vec<OrderTarget> = Vec::new();
            let mut i: usize = 0;
            while i < accounts.len()
                invariant
                    i <= accounts.len(),
                    p == (|i: int| public_tradable(accounts@[i])),
                    f == (|i: int|
                        (accounts@[i].account_id@, Some(accounts@[i].account_type@))),
                    target_views(v@) == indices_where(i as nat, p).map_values(f),
                decreases accounts.len() - i,
            {
                let a = &accounts[i];
                let ghost before = target_views(v@);
                if !str_eq(a.trade_permissions.as_str(), "RESTRICTED_NO_TRADING") {
                    let label = a.account_type.clone();
                    v.push(OrderTarget { account_id: a.account_id.clone(), label: Some(label) });
                    assert(indices_where((i + 1) as nat, p) == indices_where(i as nat, p).push(
                        i as int,
                    ));
                    assert(target_views(v@) =~= before.push(f(i as int)));
                    assert(indices_where((i + 1) as nat, p).map_values(f) =~= indices_where(
                        i as nat,
                        p,
                    ).map_values(f).push(f(i as int)));
                }
                i = i + 1;
            }
            OrderPlan::Each(v)
        },
        AccountRequest::Several(names) => {
            let ghost g = |q: Seq<char>| public_resolved(accounts@, q);
            let mut v: Vec<OrderTarget> = Vec::new();
            let mut j: usize = 0;
            while j < names.len()
                invariant
                    j <= names.len(),
                    g == (|q: Seq<char>| public_resolved(accounts@, q)),
                    target_views(v@) == unlabeled(views(names@).take(j as int).map_values(g)),
                decreases names.len() - j,
            {
                let ghost before = target_views(v@);
                let id = public_resolve_account_id(accounts, names[j].as_str());
                v.push(OrderTarget { account_id: id, label: None });
                assert(views(names@).take(j + 1) =~= views(names@).take(j as int).push(
                    names@[j as int]@,
                ));
                assert(id@ == g(names@[j as int]@));
                let ghost prev = views(names@).take(j as int).map_values(g);
                assert(views(names@).take(j + 1).map_values(g) =~= prev.push(g(names@[j as int]@)));
                assert(unlabeled(prev.push(g(names@[j as int]@))) =~= unlabeled(prev).push(
                    (g(names@[j as int]@), None::<Seq<char>>),
                ));
                assert(target_views(v@) =~= before.push((id@, None::<Seq<char>>)));
                j = j + 1;
            }
            assert(views(names@).take(names.len() as int) =~= views(names@));
            OrderPlan::Each(v)
        },
        AccountRequest::One(name) => OrderPlan::One(public_resolve_account_id(accounts, name.as_str())),
    }
}

/// The accounts a Robinhood order reaches, by position.
pub enum AccountPick {
    /// Each of these accounts in turn, results joined.
    Each(Vec<usize>),
    /// This one account.
    One(usize),
    /// No account; this text is the answer.
    Refused(String),
}

/// The Robinhood account an order is anchored to: the one `account` names,
/// else the first account, provided the chosen account has an address.
pub open spec fn robinhood_order_account(accounts: Seq<RobinhoodAccount>, account: Seq<char>) -> Option<
    int,
> {
    match robinhood_target(accounts, account) {
        None => None,
        Some(i) => {
            let j = if accounts[i].url@.len() > 0 {
                i
            } else {
                0
            };
            if accounts[j].url@.len() > 0 {
                Some(j)
            } else {
                None
            }
        },
    }
}

/// Whether a Robinhood account is among those a multi-account order text
/// reaches: every account for `All accounts`, else those some
/// comma-separated piece, trimmed, names.
pub open spec fn robinhood_reached(a: RobinhoodAccount, account: Seq<char>) -> bool {
    account == all_accounts_text() || exists|m: int|
        0 <= m < split_on(account, ',').len() && robinhood_names(
            a,
            trim(#[trigger] split_on(account, ',')[m]),
        )
}

/// The plan of a Robinhood order: refused when no account with an address
/// can be found; for `All accounts` or a comma-separated list, every
/// account reached, in order; else the anchor account alone.
pub fn robinhood_order_pick(accounts: &Vec<RobinhoodAccount>, account: &str) -> (r: AccountPick)
    ensures
        robinhood_order_account(accounts@, account@) is None ==> (r matches AccountPick::Refused(e)
            && e@ == "Error: No account found"@),
        robinhood_order_account(accounts@, account@) is Some && (account@ == all_accounts_text()
            || split_on(account@, ',').len() > 1) ==> (r matches AccountPick::Each(v) && as_ints(
            v@,
        ) == indices_where(accounts@.len(), |k: int| robinhood_reached(accounts@[k], account@))),
        robinhood_order_account(accounts@, account@) matches Some(i) ==> (!(account@
            == all_accounts_text() || split_on(account@, ',').len() > 1) ==> r == AccountPick::One(
            i as usize,
        )),
{
    let found = robinhood_resolve_account(accounts, account);
    let anchor = match found {
        None => {
            return AccountPick::Refused(owned("Error: No account found"));
        },
        Some(i) => {
            proof {
                crate::accounts::lemma_first_where_in_range(
                    accounts@.len(),
                    |i: int| robinhood_names(accounts@[i], account@),
                );
                let k = robinhood_target(accounts@, account@).unwrap();
                assert(0 <= k < accounts.len());
                assert(robinhood_target(accounts@, account@) == Some(i as int));
            }
            let j = if accounts[i].url.as_str().is_empty() {
                0
            } else {
                i
            };
            if accounts[j].url.as_str().is_empty() {
                return AccountPick::Refused(owned("Error: No account found"));
            }
            j
        },
    };
    let pieces = split_str(account, ',');
    let all = str_eq(account, "All accounts");
    assert(pieces@.len() == split_on(account@, ',').len());
    if !all && pieces.len() <= 1 {
        return AccountPick::One(anchor);
    }
    let ghost p = |k: int| robinhood_reached(accounts@[k], account@);
    let mut v: Vec<usize> = Vec::new();
    let mut i: usize = 0;
    while i < accounts.len()
        invariant
            i <= accounts.len(),
            p == (|k: int| robinhood_reached(accounts@[k], account@)),
            pieces@.map_values(|q: String| q@) == split_on(account@, ','),
            all == (account@ == all_accounts_text()),
            as_ints(v@) == indices_where(i as nat, p),
        decreases accounts.len() - i,
    {
        let ghost before = as_ints(v@);
        let hit = all || robinhood_account_matches(&accounts[i], &pieces);
        proof {
            if !all {
                if hit {
                    let k = choose|k: int|
                        0 <= k < pieces@.len() && robinhood_names(
                            accounts@[i as int],
                            trim(#[trigger] pieces@[k]@),
                        );
                    assert(split_on(account@, ',')[k] == pieces@[k]@);
                } else {
                    assert forall|m: int| 0 <= m < split_on(account@, ',').len() implies !robinhood_names(
                        accounts@[i as int],
                        trim(#[trigger] split_on(account@, ',')[m]),
                    ) by {
                        assert(split_on(account@, ',')[m] == pieces@[m]@);
                    }
                }
            }
        }
        if hit {
            v.push(i);
            assert(as_ints(v@) =~= before.push(i as int));
        }
        i = i + 1;
    }
    AccountPick::Each(v)
}

} // verus!

verus! {

/// An order naming a Robinhood account with a type and an address by the
/// name the account list shows for it goes to that account, unless an
/// earlier account answers to the same text; in any case it goes to an
/// account answering to that text no later than it, when that account has
/// an address.
pub proof fn law_robinhood_listed_name_anchors(s: Seq<RobinhoodAccount>, i: int)
    requires
        0 <= i < s.len(),
        s[i].account_type@.len() > 0,
        s[i].url@.len() > 0,
    ensures
        ({
            let name = unique_name(robinhood_bases(s), robinhood_numbers(s), i);
            &&& robinhood_target(s, name) matches Some(j) && j <= i && robinhood_names(s[j], name)
            &&& (forall|k: int| 0 <= k < i ==> !robinhood_names(#[trigger] s[k], name))
                ==> robinhood_order_account(s, name) == Some(i)
        }),
{
    let name = unique_name(robinhood_bases(s), robinhood_numbers(s), i);
    law_robinhood_listed_names_name(s, i);
    let p = |k: int| robinhood_names(s[k], name);
    lemma_first_where_at_most(s.len(), p, i);
}

} // verus!
