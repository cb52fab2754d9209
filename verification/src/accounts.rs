//! How each broker's accounts are listed, named and found again.

use vstd::prelude::*;
use crate::text::{owned, str_eq};

verus! {

/// How many entries of `s` equal `x`.
pub open spec fn count_of(s: Seq<Seq<char>>, x: Seq<char>) -> nat
    decreases s.len(),
{
    if s.len() == 0 {
        0
    } else {
        count_of(s.drop_last(), x) + if s.last() == x {
            1nat
        } else {
            0nat
        }
    }
}

/// The views of a vector of strings.
pub open spec fn views(v: Seq<String>) -> Seq<Seq<char>> {
    v.map_values(|s: String| s@)
}

/// How many of the strings in `v` read as `x`.
pub fn count_equal(v: &Vec<String>, x: &str) -> (n: usize)
    ensures
        n == count_of(views(v@), x@),
{
    let mut n: usize = 0;
    let mut j: usize = 0;
    while j < v.len()
        invariant
            j <= v.len(),
            n == count_of(views(v@).take(j as int), x@),
            n <= j,
        decreases v.len() - j,
    {
        assert(views(v@).take(j + 1).drop_last() =~= views(v@).take(j as int));
        if str_eq(v[j].as_str(), x) {
            n = n + 1;
        }
        j = j + 1;
    }
    assert(views(v@).take(v.len() as int) =~= views(v@));
    n
}

/// `base (suffix)`.
pub open spec fn qualified(base: Seq<char>, suffix: Seq<char>) -> Seq<char> {
    base + " ("@ + suffix + ")"@
}

/// Builds `base (suffix)`.
pub fn qualify(base: &str, suffix: &str) -> (r: String)
    ensures
        r@ == qualified(base@, suffix@),
{
    let mut r = owned(base);
    r.append(" (");
    r.append(suffix);
    r.append(")");
    r
}

/// The name shown for entry `i`: its base name, qualified by its suffix when
/// another entry shares the base name.
pub open spec fn unique_name(bases: Seq<Seq<char>>, suffixes: Seq<Seq<char>>, i: int) -> Seq<char> {
    if count_of(bases, bases[i]) > 1 {
        qualified(bases[i], suffixes[i])
    } else {
        bases[i]
    }
}

/// Names for a list of accounts: each base name as it is when no other
/// account shares it, else qualified by the account's suffix.
pub fn unique_names(bases: &Vec<String>, suffixes: &Vec<String>) -> (r: Vec<String>)
    requires
        bases.len() == suffixes.len(),
    ensures
        r@.len() == bases@.len(),
        forall|i: int|
            0 <= i < r@.len() ==> #[trigger] r@[i]@ == unique_name(views(bases@), views(suffixes@), i),
{
    let mut r: Vec<String> = Vec::new();
    let mut i: usize = 0;
    while i < bases.len()
        invariant
            bases.len() == suffixes.len(),
            i <= bases.len(),
            r@.len() == i,
            forall|k: int|
                0 <= k < i ==> #[trigger] r@[k]@ == unique_name(views(bases@), views(suffixes@), k),
        decreases bases.len() - i,
    {
        let c = count_equal(bases, bases[i].as_str());
        let name = if c > 1 {
            qualify(bases[i].as_str(), suffixes[i].as_str())
        } else {
            bases[i].clone()
        };
        r.push(name);
        i = i + 1;
    }
    r
}

/// The core of an account as the desk lists it.
pub struct ListedAccount {
    pub id: String,
    pub name: String,
    pub status: String,
    pub is_primary: bool,
}

} // verus!

verus! {

/// A Robinhood account as the desk keeps it.
#[derive(Debug, Clone)]
pub struct RobinhoodAccount {
    pub account_number: String,
    pub url: String,
    pub portfolio: String,
    pub positions: String,
    pub account_type: String,
    pub buying_power: String,
    pub cash: String,
    pub portfolio_cash: String,
}

/// A Robinhood account's base name: its type (`Individual` when blank)
/// followed by ` Account`.
pub open spec fn robinhood_base(a: RobinhoodAccount) -> Seq<char> {
    (if a.account_type@.len() == 0 {
        "Individual"@
    } else {
        a.account_type@
    }) + " Account"@
}

/// The base names of Robinhood accounts.
pub open spec fn robinhood_bases(s: Seq<RobinhoodAccount>) -> Seq<Seq<char>> {
    s.map_values(|a: RobinhoodAccount| robinhood_base(a))
}

/// The numbers of Robinhood accounts.
pub open spec fn robinhood_numbers(s: Seq<RobinhoodAccount>) -> Seq<Seq<char>> {
    s.map_values(|a: RobinhoodAccount| a.account_number@)
}

/// Lists Robinhood accounts: each is approved, named by its base name
/// (qualified by its number when the base name is shared), and primary
/// only when it is the sole account.
pub fn robinhood_account_list(accounts: &Vec<RobinhoodAccount>) -> (r: Vec<ListedAccount>)
    ensures
        r@.len() == accounts@.len(),
        forall|i: int|
            #![trigger r@[i]]
            0 <= i < r@.len() ==> {
                &&& r@[i].id@ == accounts@[i].account_number@
                &&& r@[i].name@ == unique_name(
                    robinhood_bases(accounts@),
                    robinhood_numbers(accounts@),
                    i,
                )
                &&& r@[i].status@ == "APPROVED"@
                &&& r@[i].is_primary == (accounts@.len() == 1)
            },
        forall|i: int|
            0 <= i < r@.len() && accounts@[i].account_type@.len() > 0 ==> robinhood_names(
                accounts@[i],
                #[trigger] r@[i].name@,
            ),
{
    let mut bases: Vec<String> = Vec::new();
    let mut nums: Vec<String> = Vec::new();
    let mut i: usize = 0;
    while i < accounts.len()
        invariant
            i <= accounts.len(),
            views(bases@) == robinhood_bases(accounts@.take(i as int)),
            views(nums@) == robinhood_numbers(accounts@.take(i as int)),
        decreases accounts.len() - i,
    {
        let a = &accounts[i];
        let mut b = if a.account_type.as_str().is_empty() {
            owned("Individual")
        } else {
            a.account_type.clone()
        };
        b.append(" Account");
        assert(b@ == robinhood_base(accounts@[i as int]));
        assert(accounts@.take(i + 1) =~= accounts@.take(i as int).push(accounts@[i as int]));
        let ghost ob = views(bases@);
        let ghost on = views(nums@);
        bases.push(b);
        nums.push(a.account_number.clone());
        assert(views(bases@) =~= ob.push(robinhood_base(accounts@[i as int])));
        assert(views(nums@) =~= on.push(accounts@[i as int].account_number@));
        assert(robinhood_bases(accounts@.take(i + 1)) =~= robinhood_bases(accounts@.take(i as int)).push(
            robinhood_base(accounts@[i as int]),
        ));
        assert(robinhood_numbers(accounts@.take(i + 1)) =~= robinhood_numbers(
            accounts@.take(i as int),
        ).push(accounts@[i as int].account_number@));
        i = i + 1;
        assert(views(bases@) =~= robinhood_bases(accounts@.take(i as int)));
        assert(views(nums@) =~= robinhood_numbers(accounts@.take(i as int)));
    }
    assert(accounts@.take(accounts.len() as int) =~= accounts@);
    let names = unique_names(&bases, &nums);
    let mut r: Vec<ListedAccount> = Vec::new();
    let only = accounts.len() == 1;
    let mut k: usize = 0;
    while k < accounts.len()
        invariant
            k <= accounts.len(),
            names@.len() == accounts@.len(),
            only == (accounts@.len() == 1),
            views(bases@) == robinhood_bases(accounts@),
            views(nums@) == robinhood_numbers(accounts@),
            forall|i: int|
                0 <= i < names@.len() ==> #[trigger] names@[i]@ == unique_name(
                    views(bases@),
                    views(nums@),
                    i,
                ),
            r@.len() == k,
            forall|i: int|
                #![trigger r@[i]]
                0 <= i < k ==> {
                    &&& r@[i].id@ == accounts@[i].account_number@
                    &&& r@[i].name@ == unique_name(
                        robinhood_bases(accounts@),
                        robinhood_numbers(accounts@),
                        i,
                    )
                    &&& r@[i].status@ == "APPROVED"@
                    &&& r@[i].is_primary == (accounts@.len() == 1)
                },
        decreases accounts.len() - k,
    {
        r.push(
            ListedAccount {
                id: accounts[k].account_number.clone(),
                name: names[k].clone(),
                status: owned("APPROVED"),
                is_primary: only,
            },
        );
        assert(r@[k as int].name@ == names@[k as int]@);
        assert(r@[k as int].name@ == unique_name(
            robinhood_bases(accounts@),
            robinhood_numbers(accounts@),
            k as int,
        ));
        k = k + 1;
    }
    assert(r@.len() == accounts@.len());
    proof {
        assert forall|i: int| 0 <= i < r@.len() && accounts@[i].account_type@.len() > 0 implies robinhood_names(
            accounts@[i],
            #[trigger] r@[i].name@,
        ) by {
            law_robinhood_listed_names_name(accounts@, i);
        }
    }
    r
}

/// The cash figure shown for a Robinhood account: its cash, or its
/// portfolio cash when the cash is blank.
pub fn robinhood_cash(a: &RobinhoodAccount) -> (r: String)
    ensures
        r@ == (if a.cash@.len() > 0 {
            a.cash@
        } else {
            a.portfolio_cash@
        }),
{
    if a.cash.as_str().is_empty() {
        a.portfolio_cash.clone()
    } else {
        a.cash.clone()
    }
}

/// A Tastytrade account as the desk keeps it.
#[derive(Debug, Clone)]
pub struct TastytradeAccount {
    pub account_number: String,
    pub external_id: String,
    pub opened_at: String,
    pub nickname: String,
    pub account_type_name: String,
    pub is_closed: bool,
    pub day_trader_status: bool,
    pub is_firm_error: bool,
    pub is_firm_proprietary: bool,
    pub is_futures_approved: bool,
    pub is_test_drive: bool,
    pub margin_or_cash: String,
    pub is_foreign: bool,
    pub authority_level: String,
}

/// A Tastytrade account's base name: its nickname, else its type name,
/// else `Account`.
pub open spec fn tastytrade_base(a: TastytradeAccount) -> Seq<char> {
    if a.nickname@.len() > 0 {
        a.nickname@
    } else if a.account_type_name@.len() > 0 {
        a.account_type_name@
    } else {
        "Account"@
    }
}

/// The Tastytrade accounts that are not closed, in order.
pub open spec fn tastytrade_open(s: Seq<TastytradeAccount>) -> Seq<TastytradeAccount> {
    s.filter(|a: TastytradeAccount| !a.is_closed)
}

/// The base names of Tastytrade accounts.
pub open spec fn tastytrade_bases(s: Seq<TastytradeAccount>) -> Seq<Seq<char>> {
    s.map_values(|a: TastytradeAccount| tastytrade_base(a))
}

/// The numbers of Tastytrade accounts.
pub open spec fn tastytrade_numbers(s: Seq<TastytradeAccount>) -> Seq<Seq<char>> {
    s.map_values(|a: TastytradeAccount| a.account_number@)
}

/// Lists the open Tastytrade accounts: each is approved, named by its base
/// name (qualified by its number when another open account shares it), and
/// the first one listed is the primary one.
pub fn tastytrade_account_list(accounts: &Vec<TastytradeAccount>) -> (r: Vec<ListedAccount>)
    ensures
        r@.len() == tastytrade_open(accounts@).len(),
        forall|i: int|
            #![trigger r@[i]]
            0 <= i < r@.len() ==> {
                &&& r@[i].id@ == tastytrade_open(accounts@)[i].account_number@
                &&& r@[i].name@ == unique_name(
                    tastytrade_bases(tastytrade_open(accounts@)),
                    tastytrade_numbers(tastytrade_open(accounts@)),
                    i,
                )
                &&& r@[i].status@ == "APPROVED"@
                &&& r@[i].is_primary == (i == 0)
            },
        forall|i: int|
            0 <= i < r@.len() ==> tastytrade_names(tastytrade_open(accounts@)[i], #[trigger] r@[i].name@)
                || (r@[i].name@ == "Account"@ && tastytrade_open(accounts@)[i].nickname@.len() == 0
                && tastytrade_open(accounts@)[i].account_type_name@.len() == 0),
        forall|i: int|
            0 <= i < r@.len() && tastytrade_open(accounts@)[i].nickname@.len() > 0 ==> (
            #[trigger] r@[i].name@ == tastytrade_open(accounts@)[i].nickname@ || r@[i].name@ == qualified(
                tastytrade_open(accounts@)[i].nickname@,
                tastytrade_open(accounts@)[i].account_number@,
            )),
{
    let ghost open_all = tastytrade_open(accounts@);
    let mut bases: Vec<String> = Vec::new();
    let mut nums: Vec<String> = Vec::new();
    let mut i: usize = 0;
    while i < accounts.len()
        invariant
            i <= accounts.len(),
            views(bases@) == tastytrade_bases(tastytrade_open(accounts@.take(i as int))),
            views(nums@) == tastytrade_numbers(tastytrade_open(accounts@.take(i as int))),
        decreases accounts.len() - i,
    {
        proof {
            reveal_with_fuel(Seq::<_>::filter, 1);
            assert(accounts@.take(i + 1).drop_last() =~= accounts@.take(i as int));
        }
        let a = &accounts[i];
        let ghost ob = views(bases@);
        let ghost on = views(nums@);
        let ghost prev = tastytrade_open(accounts@.take(i as int));
        assert(accounts@.take(i + 1).last() == accounts@[i as int]);
        if !a.is_closed {
            let b = if !a.nickname.as_str().is_empty() {
                a.nickname.clone()
            } else if !a.account_type_name.as_str().is_empty() {
                a.account_type_name.clone()
            } else {
                owned("Account")
            };
            assert(b@ == tastytrade_base(accounts@[i as int]));
            bases.push(b);
            nums.push(a.account_number.clone());
            assert(tastytrade_open(accounts@.take(i + 1)) == prev.push(accounts@[i as int]));
            assert(views(bases@) =~= ob.push(tastytrade_base(accounts@[i as int])));
            assert(views(nums@) =~= on.push(accounts@[i as int].account_number@));
            assert(tastytrade_bases(prev.push(accounts@[i as int])) =~= tastytrade_bases(prev).push(
                tastytrade_base(accounts@[i as int]),
            ));
            assert(tastytrade_numbers(prev.push(accounts@[i as int])) =~= tastytrade_numbers(
                prev,
            ).push(accounts@[i as int].account_number@));
        } else {
            assert(tastytrade_open(accounts@.take(i + 1)) == prev);
        }
        i = i + 1;
        assert(views(bases@) =~= tastytrade_bases(tastytrade_open(accounts@.take(i as int))));
        assert(views(nums@) =~= tastytrade_numbers(tastytrade_open(accounts@.take(i as int))));
    }
    assert(accounts@.take(accounts.len() as int) =~= accounts@);
    let names = unique_names(&bases, &nums);
    assert(nums@.len() == open_all.len()) by {
        assert(views(nums@).len() == nums@.len());
    }
    let mut r: Vec<ListedAccount> = Vec::new();
    let mut k: usize = 0;
    while k < nums.len()
        invariant
            k <= nums.len(),
            names@.len() == nums@.len(),
            nums@.len() == open_all.len(),
            views(bases@) == tastytrade_bases(open_all),
            views(nums@) == tastytrade_numbers(open_all),
            open_all == tastytrade_open(accounts@),
            forall|i: int|
                0 <= i < names@.len() ==> #[trigger] names@[i]@ == unique_name(
                    views(bases@),
                    views(nums@),
                    i,
                ),
            r@.len() == k,
            forall|i: int|
                #![trigger r@[i]]
                0 <= i < k ==> {
                    &&& r@[i].id@ == open_all[i].account_number@
                    &&& r@[i].name@ == unique_name(
                        tastytrade_bases(open_all),
                        tastytrade_numbers(open_all),
                        i,
                    )
                    &&& r@[i].status@ == "APPROVED"@
                    &&& r@[i].is_primary == (i == 0)
                },
        decreases nums.len() - k,
    {
        assert(views(nums@)[k as int] == nums@[k as int]@);
        assert(tastytrade_numbers(open_all)[k as int] == open_all[k as int].account_number@);
        r.push(
            ListedAccount {
                id: nums[k].clone(),
                name: names[k].clone(),
                status: owned("APPROVED"),
                is_primary: k == 0,
            },
        );
        assert(r@[k as int].name@ == names@[k as int]@);
        k = k + 1;
    }
    proof {
        assert forall|i: int| 0 <= i < r@.len() implies tastytrade_names(open_all[i], #[trigger] r@[i].name@)
            || (r@[i].name@ == "Account"@ && open_all[i].nickname@.len() == 0
            && open_all[i].account_type_name@.len() == 0) by {
            law_tastytrade_listed_names_resolve(open_all, i);
        }
        assert forall|i: int| 0 <= i < r@.len() && open_all[i].nickname@.len() > 0 implies (
        #[trigger] r@[i].name@ == open_all[i].nickname@ || r@[i].name@ == qualified(
            open_all[i].nickname@,
            open_all[i].account_number@,
        )) by {
            law_tastytrade_listed_names_resolve(open_all, i);
        }
    }
    r
}

/// A Webull account as the desk keeps it.
#[derive(Debug, Clone)]
pub struct WebullAccount {
    pub account_id: String,
    pub account_type: String,
    pub currency: String,
    pub status: String,
}

/// A Webull account's base name: its type, or `Account` when blank.
pub open spec fn webull_base(a: WebullAccount) -> Seq<char> {
    if a.account_type@.len() == 0 {
        "Account"@
    } else {
        a.account_type@
    }
}

/// The base names of Webull accounts.
pub open spec fn webull_bases(s: Seq<WebullAccount>) -> Seq<Seq<char>> {
    s.map_values(|a: WebullAccount| webull_base(a))
}

/// The ids of Webull accounts.
pub open spec fn webull_ids(s: Seq<WebullAccount>) -> Seq<Seq<char>> {
    s.map_values(|a: WebullAccount| a.account_id@)
}

/// Lists Webull accounts: each keeps its status, is named by its base name
/// (qualified by its id when shared), and the first one is primary.
pub fn webull_account_list(accounts: &Vec<WebullAccount>) -> (r: Vec<ListedAccount>)
    ensures
        r@.len() == accounts@.len(),
        forall|i: int|
            #![trigger r@[i]]
            0 <= i < r@.len() ==> {
                &&& r@[i].id@ == accounts@[i].account_id@
                &&& r@[i].name@ == unique_name(
                    webull_bases(accounts@),
                    webull_ids(accounts@),
                    i,
                )
                &&& r@[i].status@ == accounts@[i].status@
                &&& r@[i].is_primary == (i == 0)
            },
        forall|i: int|
            0 <= i < r@.len() ==> webull_names(accounts@[i], #[trigger] r@[i].name@) || (r@[i].name@
                == "Account"@ && accounts@[i].account_type@.len() == 0),
{
    let mut bases: Vec<String> = Vec::new();
    let mut ids: Vec<String> = Vec::new();
    let mut i: usize = 0;
    while i < accounts.len()
        invariant
            i <= accounts.len(),
            views(bases@) == webull_bases(accounts@.take(i as int)),
            views(ids@) == webull_ids(accounts@.take(i as int)),
        decreases accounts.len() - i,
    {
        let a = &accounts[i];
        let b = if a.account_type.as_str().is_empty() {
            owned("Account")
        } else {
            a.account_type.clone()
        };
        assert(b@ == webull_base(accounts@[i as int]));
        assert(accounts@.take(i + 1) =~= accounts@.take(i as int).push(accounts@[i as int]));
        let ghost ob = views(bases@);
        let ghost oi = views(ids@);
        bases.push(b);
        ids.push(a.account_id.clone());
        assert(views(bases@) =~= ob.push(webull_base(accounts@[i as int])));
        assert(views(ids@) =~= oi.push(accounts@[i as int].account_id@));
        assert(webull_bases(accounts@.take(i + 1)) =~= webull_bases(accounts@.take(i as int)).push(
            webull_base(accounts@[i as int]),
        ));
        assert(webull_ids(accounts@.take(i + 1)) =~= webull_ids(accounts@.take(i as int)).push(
            accounts@[i as int].account_id@,
        ));
        i = i + 1;
        assert(views(bases@) =~= webull_bases(accounts@.take(i as int)));
        assert(views(ids@) =~= webull_ids(accounts@.take(i as int)));
    }
    assert(accounts@.take(accounts.len() as int) =~= accounts@);
    let names = unique_names(&bases, &ids);
    let mut r: Vec<ListedAccount> = Vec::new();
    let mut k: usize = 0;
    while k < accounts.len()
        invariant
            k <= accounts.len(),
            names@.len() == accounts@.len(),
            views(bases@) == webull_bases(accounts@),
            views(ids@) == webull_ids(accounts@),
            forall|i: int|
                0 <= i < names@.len() ==> #[trigger] names@[i]@ == unique_name(
                    views(bases@),
                    views(ids@),
                    i,
                ),
            r@.len() == k,
            forall|i: int|
                #![trigger r@[i]]
                0 <= i < k ==> {
                    &&& r@[i].id@ == accounts@[i].account_id@
                    &&& r@[i].name@ == unique_name(
                        webull_bases(accounts@),
                        webull_ids(accounts@),
                        i,
                    )
                    &&& r@[i].status@ == accounts@[i].status@
                    &&& r@[i].is_primary == (i == 0)
                },
        decreases accounts.len() - k,
    {
        r.push(
            ListedAccount {
                id: accounts[k].account_id.clone(),
                name: names[k].clone(),
                status: accounts[k].status.clone(),
                is_primary: k == 0,
            },
        );
        assert(r@[k as int].name@ == names@[k as int]@);
        assert(r@[k as int].name@ == unique_name(
            webull_bases(accounts@),
            webull_ids(accounts@),
            k as int,
        ));
        k = k + 1;
    }
    proof {
        assert forall|i: int| 0 <= i < r@.len() implies webull_names(accounts@[i], #[trigger] r@[i].name@)
            || (r@[i].name@ == "Account"@ && accounts@[i].account_type@.len() == 0) by {
            law_webull_listed_names_resolve(accounts@, i);
        }
    }
    r
}

} // verus!

verus! {

/// The positions below `n` that satisfy `p`, in increasing order.
pub open spec fn indices_where(n: nat, p: spec_fn(int) -> bool) -> Seq<int>
    decreases n,
{
    if n == 0 {
        Seq::<int>::empty()
    } else {
        let before = indices_where((n - 1) as nat, p);
        if p(n - 1) {
            before.push(n - 1)
        } else {
            before
        }
    }
}

/// The first position below `n` that satisfies `p`, if any.
pub open spec fn first_where(n: nat, p: spec_fn(int) -> bool) -> Option<int>
    decreases n,
{
    if n == 0 {
        None
    } else {
        match first_where((n - 1) as nat, p) {
            Some(i) => Some(i),
            None => if p(n - 1) {
                Some(n - 1)
            } else {
                None
            },
        }
    }
}

/// The positions of a vector of indices, as integers.
pub open spec fn as_ints(v: Seq<usize>) -> Seq<int> {
    v.map_values(|i: usize| i as int)
}

/// A Public.com account as the desk keeps it.
#[derive(Debug, Clone)]
pub struct PublicAccount {
    pub account_id: String,
    pub account_type: String,
    pub options_level: String,
    pub brokerage_account_type: String,
    pub trade_permissions: String,
}

/// A Public.com account may trade unless it is marked
/// `RESTRICTED_NO_TRADING`.
pub open spec fn public_tradable(a: PublicAccount) -> bool {
    a.trade_permissions@ != "RESTRICTED_NO_TRADING"@
}

/// The name a Public.com account is shown under: `<type> Account`.
pub open spec fn public_name(a: PublicAccount) -> Seq<char> {
    a.account_type@ + " Account"@
}

/// The positions of the Public.com accounts that may trade, in order.
pub fn public_tradable_indices(accounts: &Vec<PublicAccount>) -> (r: Vec<usize>)
    ensures
        as_ints(r@) == indices_where(accounts@.len(), |i: int| public_tradable(accounts@[i])),
{
    let ghost p = |i: int| public_tradable(accounts@[i]);
    let mut r: Vec<usize> = Vec::new();
    let mut i: usize = 0;
    while i < accounts.len()
        invariant
            i <= accounts.len(),
            p == (|i: int| public_tradable(accounts@[i])),
            as_ints(r@) == indices_where(i as nat, p),
        decreases accounts.len() - i,
    {
        let ghost before = as_ints(r@);
        if !str_eq(accounts[i].trade_permissions.as_str(), "RESTRICTED_NO_TRADING") {
            r.push(i);
            assert(as_ints(r@) =~= before.push(i as int));
        }
        i = i + 1;
    }
    r
}

/// Lists the Public.com accounts that may trade: each is approved, named
/// `<type> Account`, and primary when its type is `BROKERAGE`.
pub fn public_account_list(accounts: &Vec<PublicAccount>) -> (r: Vec<ListedAccount>)
    ensures
        r@.len() == indices_where(accounts@.len(), |i: int| public_tradable(accounts@[i])).len(),
        forall|k: int|
            #![trigger r@[k]]
            0 <= k < r@.len() ==> {
                let a = accounts@[indices_where(
                    accounts@.len(),
                    |i: int| public_tradable(accounts@[i]),
                )[k]];
                &&& r@[k].id@ == a.account_id@
                &&& r@[k].name@ == public_name(a)
                &&& r@[k].status@ == "APPROVED"@
                &&& r@[k].is_primary == (a.account_type@ == "BROKERAGE"@)
            },
{
    let idx = public_tradable_indices(accounts);
    let ghost chosen = indices_where(accounts@.len(), |i: int| public_tradable(accounts@[i]));
    proof {
        lemma_indices_in_range(accounts@.len(), |i: int| public_tradable(accounts@[i]));
    }
    let mut r: Vec<ListedAccount> = Vec::new();
    let mut k: usize = 0;
    while k < idx.len()
        invariant
            k <= idx.len(),
            as_ints(idx@) == chosen,
            chosen == indices_where(accounts@.len(), |i: int| public_tradable(accounts@[i])),
            forall|j: int| 0 <= j < chosen.len() ==> 0 <= #[trigger] chosen[j] < accounts@.len(),
            r@.len() == k,
            forall|j: int|
                #![trigger r@[j]]
                0 <= j < k ==> {
                    let a = accounts@[chosen[j]];
                    &&& r@[j].id@ == a.account_id@
                    &&& r@[j].name@ == public_name(a)
                    &&& r@[j].status@ == "APPROVED"@
                    &&& r@[j].is_primary == (a.account_type@ == "BROKERAGE"@)
                },
        decreases idx.len() - k,
    {
        assert(as_ints(idx@)[k as int] == idx@[k as int] as int);
        let a = &accounts[idx[k]];
        let mut name = a.account_type.clone();
        name.append(" Account");
        let primary = str_eq(a.account_type.as_str(), "BROKERAGE");
        r.push(
            ListedAccount { id: a.account_id.clone(), name, status: owned("APPROVED"), is_primary: primary },
        );
        k = k + 1;
    }
    r
}

/// Every position `indices_where` lists is below `n`.
pub proof fn lemma_indices_in_range(n: nat, p: spec_fn(int) -> bool)
    ensures
        forall|j: int|
            0 <= j < indices_where(n, p).len() ==> 0 <= #[trigger] indices_where(n, p)[j] < n,
    decreases n,
{
    if n > 0 {
        lemma_indices_in_range((n - 1) as nat, p);
        let before = indices_where((n - 1) as nat, p);
        assert forall|j: int| 0 <= j < indices_where(n, p).len() implies 0 <= #[trigger] indices_where(
            n,
            p,
        )[j] < n by {
            if j < before.len() {
                assert(indices_where(n, p)[j] == before[j]);
            }
        }
    }
}

/// The positions `indices_where` lists increase strictly and each
/// satisfies `p`.
pub proof fn lemma_indices_sorted(n: nat, p: spec_fn(int) -> bool)
    ensures
        forall|j: int, k: int|
            0 <= j < k < indices_where(n, p).len() ==> #[trigger] indices_where(n, p)[j]
                < #[trigger] indices_where(n, p)[k],
        forall|j: int| 0 <= j < indices_where(n, p).len() ==> p(#[trigger] indices_where(n, p)[j]),
    decreases n,
{
    if n > 0 {
        lemma_indices_sorted((n - 1) as nat, p);
        lemma_indices_in_range((n - 1) as nat, p);
        let before = indices_where((n - 1) as nat, p);
        let all = indices_where(n, p);
        assert forall|j: int| 0 <= j < all.len() implies p(#[trigger] all[j]) by {
            if j < before.len() {
                assert(all[j] == before[j]);
            }
        }
        assert forall|j: int, k: int| 0 <= j < k < all.len() implies #[trigger] all[j]
            < #[trigger] all[k] by {
            assert(all[j] == before[j]);
            if k < before.len() {
                assert(all[k] == before[k]);
            } else {
                assert(all[k] == n - 1);
            }
        }
    }
}

/// Every position below `n` that satisfies `p` is listed by
/// `indices_where`.
pub proof fn lemma_indices_complete(n: nat, p: spec_fn(int) -> bool, i: int)
    requires
        0 <= i < n,
        p(i),
    ensures
        exists|j: int| 0 <= j < indices_where(n, p).len() && indices_where(n, p)[j] == i,
    decreases n,
{
    let before = indices_where((n - 1) as nat, p);
    if i == n - 1 {
        assert(indices_where(n, p)[before.len() as int] == i);
    } else {
        lemma_indices_complete((n - 1) as nat, p, i);
        let j = choose|j: int| 0 <= j < before.len() && before[j] == i;
        assert(indices_where(n, p)[j] == i);
    }
}

/// The account the Light Horse session trades in, as listed.
pub fn lighthorse_account(account_id: &str) -> (r: ListedAccount)
    ensures
        r.id@ == account_id@,
        r.name@ == "Light Horse Account ("@ + account_id@ + ")"@,
        r.status@ == "APPROVED"@,
        r.is_primary,
{
    let mut name = owned("Light Horse Account (");
    name.append(account_id);
    name.append(")");
    ListedAccount { id: owned(account_id), name, status: owned("APPROVED"), is_primary: true }
}

} // verus!

verus! {

/// Once a first position is found among the first `m`, it stays the first
/// among any longer prefix.
pub proof fn lemma_first_where_stable(m: nat, n: nat, p: spec_fn(int) -> bool)
    requires
        m <= n,
        first_where(m, p) is Some,
    ensures
        first_where(n, p) == first_where(m, p),
    decreases n,
{
    if n > m {
        lemma_first_where_stable(m, (n - 1) as nat, p);
    }
}

/// The first position that satisfies `p` lies below `n` and satisfies `p`.
pub proof fn lemma_first_where_in_range(n: nat, p: spec_fn(int) -> bool)
    ensures
        first_where(n, p) matches Some(i) ==> 0 <= i < n && p(i),
    decreases n,
{
    if n > 0 {
        lemma_first_where_in_range((n - 1) as nat, p);
    }
}

/// When no position below `m` satisfies `p` but `m` does, `m` is first.
pub proof fn lemma_first_where_hit(m: nat, n: nat, p: spec_fn(int) -> bool)
    requires
        m < n,
        first_where(m, p) is None,
        p(m as int),
    ensures
        first_where(n, p) == Some(m as int),
{
    assert(first_where((m + 1) as nat, p) == Some(m as int));
    lemma_first_where_stable((m + 1) as nat, n, p);
}

/// Whether `q` names the Tastytrade account `a`: its number; its nickname,
/// type name or `Account` followed by ` (<number>)`; its non-empty nickname
/// or type name alone; or `Account <number>`.
pub open spec fn tastytrade_names(a: TastytradeAccount, q: Seq<char>) -> bool {
    ||| a.account_number@ == q
    ||| q == qualified(a.nickname@, a.account_number@)
    ||| q == qualified(a.account_type_name@, a.account_number@)
    ||| q == qualified("Account"@, a.account_number@)
    ||| (a.nickname@.len() > 0 && a.nickname@ == q)
    ||| (a.account_type_name@.len() > 0 && a.account_type_name@ == q)
    ||| q == "Account "@ + a.account_number@
}

/// Decides `tastytrade_names`.
pub fn tastytrade_is_named(a: &TastytradeAccount, q: &str) -> (b: bool)
    ensures
        b == tastytrade_names(*a, q@),
{
    let n = a.account_number.as_str();
    let mut legacy = owned("Account ");
    legacy.append(n);
    str_eq(n, q) || str_eq(qualify(a.nickname.as_str(), n).as_str(), q) || str_eq(
        qualify(a.account_type_name.as_str(), n).as_str(),
        q,
    ) || str_eq(qualify("Account", n).as_str(), q) || (!a.nickname.as_str().is_empty() && str_eq(
        a.nickname.as_str(),
        q,
    )) || (!a.account_type_name.as_str().is_empty() && str_eq(a.account_type_name.as_str(), q))
        || str_eq(legacy.as_str(), q)
}

/// The number of the first Tastytrade account that `q` names, if any.
pub fn tastytrade_find_account_number(accounts: &Vec<TastytradeAccount>, q: &str) -> (r: Option<
    String,
>)
    ensures
        match first_where(accounts@.len(), |i: int| tastytrade_names(accounts@[i], q@)) {
            Some(i) => r matches Some(s) && s@ == accounts@[i].account_number@,
            None => r is None,
        },
{
    let ghost p = |i: int| tastytrade_names(accounts@[i], q@);
    let mut i: usize = 0;
    while i < accounts.len()
        invariant
            i <= accounts.len(),
            p == (|i: int| tastytrade_names(accounts@[i], q@)),
            first_where(i as nat, p) is None,
        decreases accounts.len() - i,
    {
        if tastytrade_is_named(&accounts[i], q) {
            proof {
                lemma_first_where_hit(i as nat, accounts@.len(), p);
            }
            return Some(accounts[i].account_number.clone());
        }
        i = i + 1;
    }
    None
}

/// Whether `q` names the Webull account `a`: its id; its base name followed
/// by ` (<id>)`; its non-empty type; `<type> Account`; or
/// `<type> Account (<id>)`.
pub open spec fn webull_names(a: WebullAccount, q: Seq<char>) -> bool {
    ||| a.account_id@ == q
    ||| q == qualified(webull_base(a), a.account_id@)
    ||| (a.account_type@.len() > 0 && a.account_type@ == q)
    ||| q == a.account_type@ + " Account"@
    ||| q == qualified(a.account_type@ + " Account"@, a.account_id@)
}

/// Decides `webull_names`.
pub fn webull_is_named(a: &WebullAccount, q: &str) -> (b: bool)
    ensures
        b == webull_names(*a, q@),
{
    let id = a.account_id.as_str();
    let base = if a.account_type.as_str().is_empty() {
        owned("Account")
    } else {
        a.account_type.clone()
    };
    let mut legacy = a.account_type.clone();
    legacy.append(" Account");
    str_eq(id, q) || str_eq(qualify(base.as_str(), id).as_str(), q) || (
    !a.account_type.as_str().is_empty() && str_eq(a.account_type.as_str(), q)) || str_eq(
        legacy.as_str(),
        q,
    ) || str_eq(qualify(legacy.as_str(), id).as_str(), q)
}

/// The id of the first Webull account that `q` names, if any.
pub fn webull_find_account_id(accounts: &Vec<WebullAccount>, q: &str) -> (r: Option<String>)
    ensures
        match first_where(accounts@.len(), |i: int| webull_names(accounts@[i], q@)) {
            Some(i) => r matches Some(s) && s@ == accounts@[i].account_id@,
            None => r is None,
        },
{
    let ghost p = |i: int| webull_names(accounts@[i], q@);
    let mut i: usize = 0;
    while i < accounts.len()
        invariant
            i <= accounts.len(),
            p == (|i: int| webull_names(accounts@[i], q@)),
            first_where(i as nat, p) is None,
        decreases accounts.len() - i,
    {
        if webull_is_named(&accounts[i], q) {
            proof {
                lemma_first_where_hit(i as nat, accounts@.len(), p);
            }
            return Some(accounts[i].account_id.clone());
        }
        i = i + 1;
    }
    None
}

/// Whether `q` names the Public.com account `a`: its id or its shown name.
pub open spec fn public_names(a: PublicAccount, q: Seq<char>) -> bool {
    a.account_id@ == q || public_name(a) == q
}

/// The id of the first Public.com account that `q` names, or `q` itself
/// when none does.
pub fn public_resolve_account_id(accounts: &Vec<PublicAccount>, q: &str) -> (r: String)
    ensures
        r@ == (match first_where(accounts@.len(), |i: int| public_names(accounts@[i], q@)) {
            Some(i) => accounts@[i].account_id@,
            None => q@,
        }),
{
    let ghost p = |i: int| public_names(accounts@[i], q@);
    let mut i: usize = 0;
    while i < accounts.len()
        invariant
            i <= accounts.len(),
            p == (|i: int| public_names(accounts@[i], q@)),
            first_where(i as nat, p) is None,
        decreases accounts.len() - i,
    {
        let a = &accounts[i];
        let mut shown = a.account_type.clone();
        shown.append(" Account");
        if str_eq(a.account_id.as_str(), q) || str_eq(shown.as_str(), q) {
            proof {
                lemma_first_where_hit(i as nat, accounts@.len(), p);
            }
            return a.account_id.clone();
        }
        i = i + 1;
    }
    owned(q)
}

/// Whether `q` names the Robinhood account `a` when placing an order: its
/// number, `<type> Account`, or `<type> Account (<number>)`.
pub open spec fn robinhood_names(a: RobinhoodAccount, q: Seq<char>) -> bool {
    ||| a.account_number@ == q
    ||| a.account_type@ + " Account"@ == q
    ||| qualified(a.account_type@ + " Account"@, a.account_number@) == q
}

/// Decides `robinhood_names`.
pub fn robinhood_is_named(a: &RobinhoodAccount, q: &str) -> (b: bool)
    ensures
        b == robinhood_names(*a, q@),
{
    let mut base = a.account_type.clone();
    base.append(" Account");
    str_eq(a.account_number.as_str(), q) || str_eq(base.as_str(), q) || str_eq(
        qualify(base.as_str(), a.account_number.as_str()).as_str(),
        q,
    )
}

/// Whether some requested name, once trimmed, names the Robinhood account.
pub fn robinhood_account_matches(a: &RobinhoodAccount, names: &Vec<String>) -> (b: bool)
    ensures
        b == exists|k: int|
            0 <= k < names@.len() && robinhood_names(*a, crate::text::trim(#[trigger] names@[k]@)),
{
    let mut k: usize = 0;
    while k < names.len()
        invariant
            k <= names.len(),
            forall|j: int|
                0 <= j < k ==> !robinhood_names(*a, crate::text::trim(#[trigger] names@[j]@)),
        decreases names.len() - k,
    {
        let t = crate::text::trim_str(names[k].as_str());
        if robinhood_is_named(a, t.as_str()) {
            return true;
        }
        k = k + 1;
    }
    false
}

/// The Robinhood account an order for `account` goes to: the first that
/// `account` names, else the first account; none when there is no account.
pub open spec fn robinhood_target(accounts: Seq<RobinhoodAccount>, account: Seq<char>) -> Option<int> {
    match first_where(accounts.len(), |i: int| robinhood_names(accounts[i], account)) {
        Some(i) => Some(i),
        None => if accounts.len() > 0 {
            Some(0)
        } else {
            None
        },
    }
}

/// Finds the position of the Robinhood account an order for `account` goes
/// to.
pub fn robinhood_resolve_account(accounts: &Vec<RobinhoodAccount>, account: &str) -> (r: Option<
    usize,
>)
    ensures
        match robinhood_target(accounts@, account@) {
            Some(i) => r == Some(i as usize),
            None => r is None,
        },
{
    let ghost p = |i: int| robinhood_names(accounts@[i], account@);
    let mut i: usize = 0;
    while i < accounts.len()
        invariant
            i <= accounts.len(),
            p == (|i: int| robinhood_names(accounts@[i], account@)),
            first_where(i as nat, p) is None,
        decreases accounts.len() - i,
    {
        if robinhood_is_named(&accounts[i], account) {
            proof {
                lemma_first_where_hit(i as nat, accounts@.len(), p);
            }
            return Some(i);
        }
        i = i + 1;
    }
    if accounts.len() > 0 {
        Some(0)
    } else {
        None
    }
}

} // verus!

verus! {

/// When position `i` below `n` satisfies `p`, some first position `j <= i`
/// does; it is `i` itself when no earlier position satisfies `p`.
pub proof fn lemma_first_where_at_most(n: nat, p: spec_fn(int) -> bool, i: int)
    requires
        0 <= i < n,
        p(i),
    ensures
        first_where(n, p) matches Some(j) && 0 <= j <= i && p(j),
        (forall|k: int| 0 <= k < i ==> !#[trigger] p(k)) ==> first_where(n, p) == Some(i),
    decreases n,
{
    if i < n - 1 {
        lemma_first_where_at_most((n - 1) as nat, p, i);
    } else {
        lemma_first_where_in_range((n - 1) as nat, p);
        if forall|k: int| 0 <= k < i ==> !#[trigger] p(k) {
            assert(first_where((n - 1) as nat, p) is None);
        }
    }
}

/// The name shown for entry `i` is its base name or its base name qualified
/// by its suffix; qualified exactly when another entry shares the base name.
pub proof fn lemma_unique_name_shape(bases: Seq<Seq<char>>, suffixes: Seq<Seq<char>>, i: int)
    ensures
        unique_name(bases, suffixes, i) == bases[i] || unique_name(bases, suffixes, i) == qualified(
            bases[i],
            suffixes[i],
        ),
        count_of(bases, bases[i]) > 1 ==> unique_name(bases, suffixes, i) == qualified(
            bases[i],
            suffixes[i],
        ),
        count_of(bases, bases[i]) <= 1 ==> unique_name(bases, suffixes, i) == bases[i],
{
}

/// Every open Tastytrade account answers to the name the account list shows
/// for it, unless that name is the bare word `Account` of an account with
/// neither nickname nor type name; an account with a nickname is listed
/// under its nickname, qualified by its number at most; and an order naming
/// the listed name goes to that account or to an earlier one answering to
/// the same text, to that account when no earlier one does.
pub proof fn law_tastytrade_listed_names_resolve(s: Seq<TastytradeAccount>, i: int)
    requires
        0 <= i < s.len(),
    ensures
        ({
            let name = unique_name(tastytrade_bases(s), tastytrade_numbers(s), i);
            &&& tastytrade_names(s[i], name) || (name == "Account"@ && s[i].nickname@.len() == 0
                && s[i].account_type_name@.len() == 0)
            &&& s[i].nickname@.len() > 0 ==> (name == s[i].nickname@ || name == qualified(
                s[i].nickname@,
                s[i].account_number@,
            ))
            &&& tastytrade_names(s[i], name) ==> (first_where(
                s.len(),
                |k: int| tastytrade_names(s[k], name),
            ) matches Some(j) && j <= i)
            &&& tastytrade_names(s[i], name) && (forall|k: int|
                0 <= k < i ==> !tastytrade_names(#[trigger] s[k], name)) ==> first_where(
                s.len(),
                |k: int| tastytrade_names(s[k], name),
            ) == Some(i)
        }),
{
    let bases = tastytrade_bases(s);
    let nums = tastytrade_numbers(s);
    let name = unique_name(bases, nums, i);
    assert(bases[i] == tastytrade_base(s[i]));
    assert(nums[i] == s[i].account_number@);
    lemma_unique_name_shape(bases, nums, i);
    let p = |k: int| tastytrade_names(s[k], name);
    if tastytrade_names(s[i], name) {
        lemma_first_where_at_most(s.len(), p, i);
    }
}

/// Every Webull account answers to the name the account list shows for it,
/// unless that name is the bare word `Account` of an account without a type;
/// an order naming the listed name goes to that account or to an earlier
/// one answering to the same text, to that account when no earlier one
/// does.
pub proof fn law_webull_listed_names_resolve(s: Seq<WebullAccount>, i: int)
    requires
        0 <= i < s.len(),
    ensures
        ({
            let name = unique_name(webull_bases(s), webull_ids(s), i);
            &&& webull_names(s[i], name) || (name == "Account"@ && s[i].account_type@.len() == 0)
            &&& webull_names(s[i], name) ==> (first_where(
                s.len(),
                |k: int| webull_names(s[k], name),
            ) matches Some(j) && j <= i)
            &&& webull_names(s[i], name) && (forall|k: int|
                0 <= k < i ==> !webull_names(#[trigger] s[k], name)) ==> first_where(
                s.len(),
                |k: int| webull_names(s[k], name),
            ) == Some(i)
        }),
{
    let bases = webull_bases(s);
    let ids = webull_ids(s);
    let name = unique_name(bases, ids, i);
    assert(bases[i] == webull_base(s[i]));
    assert(ids[i] == s[i].account_id@);
    lemma_unique_name_shape(bases, ids, i);
    let p = |k: int| webull_names(s[k], name);
    if webull_names(s[i], name) {
        lemma_first_where_at_most(s.len(), p, i);
    }
}

/// Every Robinhood account with a type answers to the name the account list
/// shows for it (`<type> Account`, qualified by its number when another
/// account shares it).
pub proof fn law_robinhood_listed_names_name(s: Seq<RobinhoodAccount>, i: int)
    requires
        0 <= i < s.len(),
        s[i].account_type@.len() > 0,
    ensures
        robinhood_names(s[i], unique_name(robinhood_bases(s), robinhood_numbers(s), i)),
{
    let bases = robinhood_bases(s);
    let nums = robinhood_numbers(s);
    assert(bases[i] == robinhood_base(s[i]));
    assert(nums[i] == s[i].account_number@);
    lemma_unique_name_shape(bases, nums, i);
}

} // verus!
