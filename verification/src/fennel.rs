//! Fennel orders: which accounts an order reaches and in what order they
//! are served.

use vstd::prelude::*;
use crate::text::{
    has_prefix, trim, parse_i64, text_order, strip_prefix_str, trim_str, parse_i64_str, str_eq,
    compare_str, owned, lemma_text_order_swap, lemma_text_order_zero, lemma_text_order_trans,
};
use crate::accounts::{first_where, as_ints, lemma_first_where_hit, lemma_first_where_in_range};
use crate::orders::{all_accounts_text, requested_names, split_requested_names};
use crate::accounts::{views, indices_where};
use crate::error::AppError;
use crate::text::{eq_ignore_case, str_eq_ignore_case};

verus! {

/// A Fennel account as its listing gives it; a name, status or flag the
/// listing leaves out reads as empty text or `false`.
#[derive(Debug, Clone)]
pub struct FennelAccount {
    pub id: Option<String>,
    pub name: String,
    pub status: String,
    pub is_primary: bool,
}

/// The number in a name of the form `Account <number>`, spaces around the
/// number ignored, when it reads as an `i64`.
pub open spec fn account_number(name: Seq<char>) -> Option<i64> {
    if has_prefix(name, "Account "@) {
        parse_i64(trim(name.skip("Account "@.len() as int)))
    } else {
        None
    }
}

/// Reads the number out of an account name such as `Account 2`.
pub fn extract_account_number(name: &str) -> (r: Option<i64>)
    ensures
        r == account_number(name@),
{
    match strip_prefix_str(name, "Account ") {
        Some(rest) => {
            let t = trim_str(rest.as_str());
            parse_i64_str(t.as_str())
        },
        None => None,
    }
}

/// The first account named exactly `q`.
pub open spec fn fennel_named(accounts: Seq<FennelAccount>, q: Seq<char>) -> Option<int> {
    first_where(accounts.len(), |i: int| accounts[i].name@ == q)
}

/// For each requested name in turn, the first account of that name; names
/// that match no account are passed over.
pub open spec fn fennel_matches(accounts: Seq<FennelAccount>, names: Seq<Seq<char>>) -> Seq<int>
    decreases names.len(),
{
    if names.len() == 0 {
        Seq::<int>::empty()
    } else {
        let before = fennel_matches(accounts, names.drop_last());
        match fennel_named(accounts, names.last()) {
            Some(i) => before.push(i),
            None => before,
        }
    }
}

/// The message for an account text that names no account.
pub open spec fn no_match_text(account: Seq<char>) -> Seq<char> {
    "Error: Could not find any accounts matching '"@ + account + "'"@
}

/// The accounts, by position, that an order's account text reaches: every
/// account for `All accounts`, else the matches of its comma-separated
/// names; an error when there are no accounts or nothing matches.
pub open spec fn fennel_targets(accounts: Seq<FennelAccount>, account: Seq<char>) -> Result<
    Seq<int>,
    Seq<char>,
> {
    if accounts.len() == 0 {
        Err("Error: No accounts found."@)
    } else if account == all_accounts_text() {
        Ok(Seq::new(accounts.len(), |i: int| i))
    } else {
        let m = fennel_matches(accounts, requested_names(account));
        if m.len() == 0 {
            Err(no_match_text(account))
        } else {
            Ok(m)
        }
    }
}

/// Finds the first account named `q`.
fn find_named(accounts: &Vec<FennelAccount>, q: &str) -> (r: Option<usize>)
    ensures
        match r {
            Some(i) => fennel_named(accounts@, q@) == Some(i as int),
            None => fennel_named(accounts@, q@) is None,
        },
{
    let ghost p = |i: int| accounts@[i].name@ == q@;
    let mut i: usize = 0;
    while i < accounts.len()
        invariant
            i <= accounts.len(),
            p == (|i: int| accounts@[i].name@ == q@),
            first_where(i as nat, p) is None,
        decreases accounts.len() - i,
    {
        if str_eq(accounts[i].name.as_str(), q) {
            proof {
                lemma_first_where_hit(i as nat, accounts.len() as nat, p);
            }
            return Some(i);
        }
        i = i + 1;
    }
    None
}

/// Selects the accounts an order reaches, by position, in the order the
/// account text asks for them.
pub fn fennel_select_targets(accounts: &Vec<FennelAccount>, account: &str) -> (r: Result<
    Vec<usize>,
    String,
>)
    ensures
        match r {
            Ok(v) => fennel_targets(accounts@, account@) == Ok::<Seq<int>, Seq<char>>(as_ints(v@)),
            Err(e) => fennel_targets(accounts@, account@) == Err::<Seq<int>, Seq<char>>(e@),
        },
{
    if accounts.len() == 0 {
        return Err(owned("Error: No accounts found."));
    }
    if str_eq(account, "All accounts") {
        let mut v: Vec<usize> = Vec::new();
        let mut i: usize = 0;
        while i < accounts.len()
            invariant
                i <= accounts.len(),
                as_ints(v@) =~= Seq::new(i as nat, |k: int| k),
            decreases accounts.len() - i,
        {
            let ghost old_v = v@;
            v.push(i);
            assert(as_ints(v@) =~= as_ints(old_v).push(i as int));
            i = i + 1;
        }
        return Ok(v);
    }
    let names = split_requested_names(account);
    let mut v: Vec<usize> = Vec::new();
    let mut j: usize = 0;
    while j < names.len()
        invariant
            j <= names.len(),
            as_ints(v@) == fennel_matches(accounts@, views(names@).take(j as int)),
            forall|k: int| 0 <= k < v.len() ==> v@[k] < accounts.len(),
        decreases names.len() - j,
    {
        let ghost before = views(names@).take(j as int);
        assert(views(names@).take(j + 1).drop_last() =~= before);
        assert(views(names@).take(j + 1).last() == names@[j as int]@);
        match find_named(accounts, names[j].as_str()) {
            Some(i) => {
                let ghost old_v = v@;
                v.push(i);
                assert(as_ints(v@) =~= as_ints(old_v).push(i as int));
                proof {
                    let p = |k: int| accounts@[k].name@ == names@[j as int]@;
                    lemma_first_where_in_range(accounts.len() as nat, p);
                }
            },
            None => {},
        }
        j = j + 1;
    }
    assert(views(names@).take(names.len() as int) =~= views(names@));
    if v.len() == 0 {
        let mut e = owned("Error: Could not find any accounts matching '");
        e.append(account);
        e.append("'");
        proof {
            reveal_strlit("Error: Could not find any accounts matching '");
            reveal_strlit("'");
        }
        assert(e@ =~= no_match_text(account@));
        return Err(e);
    }
    Ok(v)
}

/// Status `s` is served before a different status `t`: `APPROVED` first,
/// the others in text order.
pub open spec fn status_first(s: Seq<char>, t: Seq<char>) -> bool {
    s != t && (s == "APPROVED"@ || (t != "APPROVED"@ && text_order(s, t) < 0))
}

/// Name `a` is served before name `b`: numbered names (`Account <n>`) by
/// number and before the others, which go in text order.
pub open spec fn name_first(a: Seq<char>, b: Seq<char>) -> bool {
    match (account_number(a), account_number(b)) {
        (Some(x), Some(y)) => x < y,
        (Some(_), None) => true,
        (None, Some(_)) => false,
        (None, None) => text_order(a, b) < 0,
    }
}

/// Names `a` and `b` rank alike: the same number, or the same unnumbered
/// text.
pub open spec fn name_tie(a: Seq<char>, b: Seq<char>) -> bool {
    match (account_number(a), account_number(b)) {
        (Some(x), Some(y)) => x == y,
        (None, None) => a == b,
        _ => false,
    }
}

/// Account `a` is served before account `b`: primary accounts first, then
/// by status, then by name.
pub open spec fn fennel_precedes(a: FennelAccount, b: FennelAccount) -> bool {
    ||| (a.is_primary && !b.is_primary)
    ||| (a.is_primary == b.is_primary && status_first(a.status@, b.status@))
    ||| (a.is_primary == b.is_primary && a.status@ == b.status@ && name_first(a.name@, b.name@))
}

/// Accounts `a` and `b` rank alike.
pub open spec fn fennel_tied(a: FennelAccount, b: FennelAccount) -> bool {
    a.is_primary == b.is_primary && a.status@ == b.status@ && name_tie(a.name@, b.name@)
}

/// Among the targets, the one at position `p` is served before the one at
/// position `q`: it ranks first, or it ranks alike and was asked for
/// earlier.
pub open spec fn target_before(
    accounts: Seq<FennelAccount>,
    targets: Seq<int>,
    p: int,
    q: int,
) -> bool {
    let a = accounts[targets[p]];
    let b = accounts[targets[q]];
    fennel_precedes(a, b) || (fennel_tied(a, b) && p < q)
}

proof fn lemma_status_order(s: Seq<char>, t: Seq<char>, u: Seq<char>)
    ensures
        !status_first(s, s),
        status_first(s, t) && status_first(t, u) ==> status_first(s, u),
        s != t ==> status_first(s, t) || status_first(t, s),
{
    lemma_text_order_zero(s, t);
    lemma_text_order_zero(s, u);
    lemma_text_order_swap(s, t);
    if status_first(s, t) && status_first(t, u) && s != "APPROVED"@ {
        lemma_text_order_trans(s, t, u);
    }
}

proof fn lemma_name_order(a: Seq<char>, b: Seq<char>, c: Seq<char>)
    ensures
        !name_first(a, a),
        name_tie(a, a),
        name_tie(a, b) ==> name_tie(b, a),
        name_tie(a, b) && name_tie(b, c) ==> name_tie(a, c),
        name_first(a, b) && name_first(b, c) ==> name_first(a, c),
        name_first(a, b) && name_tie(b, c) ==> name_first(a, c),
        name_tie(a, b) && name_first(b, c) ==> name_first(a, c),
        name_first(a, b) ==> !name_tie(a, b),
        !name_tie(a, b) ==> name_first(a, b) || name_first(b, a),
{
    lemma_text_order_zero(a, a);
    lemma_text_order_zero(a, b);
    lemma_text_order_swap(a, b);
    if name_first(a, b) && name_first(b, c) && account_number(a) is None {
        lemma_text_order_trans(a, b, c);
    }
}

proof fn lemma_precedes_order(a: FennelAccount, b: FennelAccount, c: FennelAccount)
    ensures
        !fennel_precedes(a, a),
        fennel_tied(a, a),
        fennel_tied(a, b) ==> fennel_tied(b, a),
        fennel_tied(a, b) && fennel_tied(b, c) ==> fennel_tied(a, c),
        fennel_precedes(a, b) && fennel_precedes(b, c) ==> fennel_precedes(a, c),
        fennel_precedes(a, b) && fennel_tied(b, c) ==> fennel_precedes(a, c),
        fennel_tied(a, b) && fennel_precedes(b, c) ==> fennel_precedes(a, c),
        fennel_precedes(a, b) ==> !fennel_tied(a, b) && !fennel_precedes(b, a),
        !fennel_tied(a, b) ==> fennel_precedes(a, b) || fennel_precedes(b, a),
{
    lemma_status_order(a.status@, b.status@, c.status@);
    lemma_status_order(b.status@, a.status@, c.status@);
    lemma_name_order(a.name@, b.name@, c.name@);
    lemma_name_order(b.name@, a.name@, c.name@);
    lemma_name_order(b.name@, c.name@, a.name@);
    lemma_status_order(b.status@, c.status@, a.status@);
    lemma_status_order(a.status@, b.status@, a.status@);
    lemma_name_order(a.name@, b.name@, a.name@);
}

/// The order on target positions is a strict total order.
proof fn lemma_target_order(accounts: Seq<FennelAccount>, targets: Seq<int>, p: int, q: int, s: int)
    ensures
        !target_before(accounts, targets, p, p),
        target_before(accounts, targets, p, q) && target_before(accounts, targets, q, s)
            ==> target_before(accounts, targets, p, s),
        p != q ==> target_before(accounts, targets, p, q) || target_before(accounts, targets, q, p),
        target_before(accounts, targets, p, q) ==> !target_before(accounts, targets, q, p),
{
    let a = accounts[targets[p]];
    let b = accounts[targets[q]];
    let c = accounts[targets[s]];
    lemma_precedes_order(a, b, c);
    lemma_precedes_order(b, a, c);
}

/// Position `p` occurs in `r`.
pub open spec fn lists(r: Seq<usize>, p: int) -> bool {
    exists|j: int| 0 <= j < r.len() && r[j] == p
}

/// The positions in `r` are served in order.
pub open spec fn served_in_order(accounts: Seq<FennelAccount>, targets: Seq<int>, r: Seq<usize>) -> bool {
    forall|j: int, k: int|
        #![trigger r[j], r[k]]
        0 <= j < k < r.len() ==> target_before(accounts, targets, r[j] as int, r[k] as int)
}

proof fn lemma_insert_in_order(
    accounts: Seq<FennelAccount>,
    targets: Seq<int>,
    old_r: Seq<usize>,
    k: int,
    x: usize,
)
    requires
        served_in_order(accounts, targets, old_r),
        0 <= k <= old_r.len(),
        forall|j: int| 0 <= j < k ==> target_before(accounts, targets, #[trigger] old_r[j] as int, x as int),
        k < old_r.len() ==> target_before(accounts, targets, x as int, old_r[k] as int),
    ensures
        served_in_order(accounts, targets, old_r.insert(k, x)),
{
    let r = old_r.insert(k, x);
    assert forall|j: int, l: int| 0 <= j < l < r.len() implies target_before(
        accounts,
        targets,
        #[trigger] r[j] as int,
        #[trigger] r[l] as int,
    ) by {
        if j < k && l < k {
            assert(r[j] == old_r[j] && r[l] == old_r[l]);
        } else if j < k && l == k {
            assert(r[j] == old_r[j]);
        } else if j < k {
            assert(r[j] == old_r[j] && r[l] == old_r[l - 1]);
        } else if j == k {
            assert(r[l] == old_r[l - 1]);
            if l - 1 > k {
                lemma_target_order(accounts, targets, x as int, old_r[k] as int, old_r[l - 1] as int);
            }
        } else {
            assert(r[j] == old_r[j - 1] && r[l] == old_r[l - 1]);
        }
    }
}

fn status_first_exec(s: &str, t: &str) -> (r: bool)
    ensures
        r == status_first(s@, t@),
{
    !str_eq(s, t) && (str_eq(s, "APPROVED") || (!str_eq(t, "APPROVED") && compare_str(s, t) < 0))
}

fn name_first_exec(a: &str, b: &str) -> (r: bool)
    ensures
        r == name_first(a@, b@),
{
    match (extract_account_number(a), extract_account_number(b)) {
        (Some(x), Some(y)) => x < y,
        (Some(_), None) => true,
        (None, Some(_)) => false,
        (None, None) => compare_str(a, b) < 0,
    }
}

fn name_tie_exec(a: &str, b: &str) -> (r: bool)
    ensures
        r == name_tie(a@, b@),
{
    match (extract_account_number(a), extract_account_number(b)) {
        (Some(x), Some(y)) => x == y,
        (None, None) => str_eq(a, b),
        _ => false,
    }
}

/// Whether account `a` is served before account `b`.
pub fn precedes(a: &FennelAccount, b: &FennelAccount) -> (r: bool)
    ensures
        r == fennel_precedes(*a, *b),
{
    if a.is_primary != b.is_primary {
        return a.is_primary;
    }
    if !str_eq(a.status.as_str(), b.status.as_str()) {
        return status_first_exec(a.status.as_str(), b.status.as_str());
    }
    name_first_exec(a.name.as_str(), b.name.as_str())
}

/// Whether accounts `a` and `b` rank alike.
pub fn tied(a: &FennelAccount, b: &FennelAccount) -> (r: bool)
    ensures
        r == fennel_tied(*a, *b),
{
    a.is_primary == b.is_primary && str_eq(a.status.as_str(), b.status.as_str()) && name_tie_exec(
        a.name.as_str(),
        b.name.as_str(),
    )
}

/// The order in which the selected accounts are served: the positions of
/// `targets`, primary accounts first, then `APPROVED` ones, then other
/// statuses in text order, then numbered names by number, then other names
/// in text order; targets that rank alike keep the order they were asked
/// for in.
pub fn fennel_service_order(accounts: &Vec<FennelAccount>, targets: &Vec<usize>) -> (r: Vec<usize>)
    requires
        forall|k: int| 0 <= k < targets.len() ==> targets[k] < accounts.len(),
    ensures
        r.len() == targets.len(),
        forall|j: int| 0 <= j < r.len() ==> r[j] < targets.len(),
        forall|p: int| 0 <= p < targets.len() ==> #[trigger] lists(r@, p),
        served_in_order(accounts@, as_ints(targets@), r@),
{
    let ghost t = as_ints(targets@);
    let mut r: Vec<usize> = Vec::new();
    let mut i: usize = 0;
    while i < targets.len()
        invariant
            i <= targets.len(),
            t == as_ints(targets@),
            forall|k: int| 0 <= k < targets.len() ==> targets[k] < accounts.len(),
            r.len() == i,
            forall|j: int| 0 <= j < r.len() ==> r[j] < i,
            forall|p: int| 0 <= p < i ==> #[trigger] lists(r@, p),
            served_in_order(accounts@, t, r@),
        decreases targets.len() - i,
    {
        let mut k: usize = 0;
        let ghost ai = accounts@[targets@[i as int] as int];
        loop
            invariant
                k <= r.len(),
                i < targets.len(),
                ai == accounts@[t[i as int]],
                forall|k: int| 0 <= k < targets.len() ==> targets[k] < accounts.len(),
                t == as_ints(targets@),
                forall|j: int| 0 <= j < r.len() ==> r[j] < i,
                forall|j: int| 0 <= j < k ==> target_before(accounts@, t, #[trigger] r@[j] as int, i as int),
            ensures
                k <= r.len(),
                forall|j: int| 0 <= j < k ==> target_before(accounts@, t, #[trigger] r@[j] as int, i as int),
                k < r.len() ==> target_before(accounts@, t, i as int, r@[k as int] as int),
            decreases r.len() - k,
        {
            if k == r.len() {
                break;
            }
            let q = r[k];
            let b = &accounts[targets[q]];
            let a = &accounts[targets[i]];
            let first = precedes(a, b);
            assert(t[q as int] == targets@[q as int] as int);
            assert(t[i as int] == targets@[i as int] as int);
            if first {
                break;
            }
            proof {
                lemma_target_order(accounts@, t, i as int, q as int, q as int);
                assert(!fennel_tied(accounts@[t[i as int]], accounts@[t[q as int]]) || q < i);
            }
            k = k + 1;
        }
        let ghost old_r = r@;
        r.insert(k, i);
        proof {
            lemma_insert_in_order(accounts@, t, old_r, k as int, i);
            assert(r@ == old_r.insert(k as int, i));
            assert forall|p: int| 0 <= p < i + 1 implies #[trigger] lists(r@, p) by {
                if p == i {
                    assert(r@[k as int] == i);
                } else {
                    assert(lists(old_r, p));
                    let j0 = choose|j: int| 0 <= j < old_r.len() && old_r[j] == p;
                    if j0 < k {
                        assert(r@[j0] == p);
                    } else {
                        assert(r@[j0 + 1] == p);
                    }
                }
            }
        }
        i = i + 1;
    }
    r
}

/// The listed accounts that are approved, by position.
pub open spec fn fennel_approved(accounts: Seq<FennelAccount>) -> Seq<int> {
    indices_where(accounts.len(), |i: int| accounts[i].status@ == "APPROVED"@)
}

/// Keeps the approved accounts of a listing, by position, in order.
pub fn fennel_approved_indices(accounts: &Vec<FennelAccount>) -> (r: Vec<usize>)
    ensures
        as_ints(r@) == fennel_approved(accounts@),
{
    let ghost p = |i: int| accounts@[i].status@ == "APPROVED"@;
    let mut r: Vec<usize> = Vec::new();
    let mut i: usize = 0;
    while i < accounts.len()
        invariant
            i <= accounts.len(),
            p == (|i: int| accounts@[i].status@ == "APPROVED"@),
            as_ints(r@) == indices_where(i as nat, p),
        decreases accounts.len() - i,
    {
        let ghost before = as_ints(r@);
        if str_eq(accounts[i].status.as_str(), "APPROVED") {
            r.push(i);
            assert(as_ints(r@) =~= before.push(i as int));
        }
        i = i + 1;
    }
    r
}

/// The ids of the approved accounts that have one, in order.
pub open spec fn fennel_ids(accounts: Seq<FennelAccount>) -> Seq<Seq<char>>
    decreases accounts.len(),
{
    if accounts.len() == 0 {
        Seq::<Seq<char>>::empty()
    } else {
        let before = fennel_ids(accounts.drop_last());
        let a = accounts.last();
        match a.id {
            Some(id) => if a.status@ == "APPROVED"@ {
                before.push(id@)
            } else {
                before
            },
            None => before,
        }
    }
}

/// The ids of the approved accounts, or an error when there is none.
pub fn fennel_account_ids(accounts: &Vec<FennelAccount>) -> (r: Result<Vec<String>, AppError>)
    ensures
        fennel_ids(accounts@).len() > 0 ==> (r matches Ok(v) && views(v@) == fennel_ids(accounts@)),
        fennel_ids(accounts@).len() == 0 ==> (r matches Err(AppError::ApiError(m)) && m@
            == "no approved accounts found"@),
{
    let mut v: Vec<String> = Vec::new();
    let mut i: usize = 0;
    while i < accounts.len()
        invariant
            i <= accounts.len(),
            views(v@) == fennel_ids(accounts@.take(i as int)),
        decreases accounts.len() - i,
    {
        let ghost before = views(v@);
        assert(accounts@.take(i + 1).drop_last() =~= accounts@.take(i as int));
        let a = &accounts[i];
        match &a.id {
            Some(id) => {
                if str_eq(a.status.as_str(), "APPROVED") {
                    v.push(id.clone());
                    assert(views(v@) =~= before.push(id@));
                }
            },
            None => {},
        }
        i = i + 1;
    }
    assert(accounts@.take(accounts.len() as int) =~= accounts@);
    if v.len() == 0 {
        return Err(AppError::ApiError(owned("no approved accounts found")));
    }
    Ok(v)
}

/// The id an order uses for an account: its id, when present and not
/// empty.
pub fn fennel_order_account_id(a: &FennelAccount) -> (r: Option<String>)
    ensures
        match a.id {
            Some(id) => if id@.len() > 0 {
                r matches Some(t) && t@ == id@
            } else {
                r is None
            },
            None => r is None,
        },
{
    match &a.id {
        Some(id) => if id.as_str().is_empty() {
            None
        } else {
            Some(id.clone())
        },
        None => None,
    }
}

/// The search result a quote for `ticker` uses: the first whose ticker,
/// when it has one, equals `ticker` in any ASCII case.
pub open spec fn fennel_quote_pick(tickers: Seq<Option<String>>, ticker: Seq<char>) -> Option<int> {
    first_where(
        tickers.len(),
        |i: int| tickers[i] matches Some(t) && eq_ignore_case(t@, ticker),
    )
}

/// Picks the search result a quote for `ticker` uses: an error for an
/// empty ticker, or when no result carries it.
pub fn fennel_quote_match(tickers: &Vec<Option<String>>, ticker: &str) -> (r: Result<usize, AppError>)
    ensures
        ticker@.len() == 0 ==> (r matches Err(AppError::ApiError(m)) && m@
            == "ticker cannot be empty"@),
        ticker@.len() > 0 ==> match fennel_quote_pick(tickers@, ticker@) {
            Some(i) => r == Ok::<usize, AppError>(i as usize),
            None => r matches Err(AppError::ApiError(m)) && m@ == "no exact match found for ticker "@
                + ticker@,
        },
{
    if ticker.is_empty() {
        return Err(AppError::ApiError(owned("ticker cannot be empty")));
    }
    let ghost p = |i: int| tickers@[i] matches Some(t) && eq_ignore_case(t@, ticker@);
    let mut i: usize = 0;
    while i < tickers.len()
        invariant
            i <= tickers.len(),
            ticker@.len() > 0,
            p == (|i: int| tickers@[i] matches Some(t) && eq_ignore_case(t@, ticker@)),
            first_where(i as nat, p) is None,
        decreases tickers.len() - i,
    {
        let hit = match &tickers[i] {
            Some(t) => str_eq_ignore_case(t.as_str(), ticker),
            None => false,
        };
        if hit {
            proof {
                lemma_first_where_hit(i as nat, tickers@.len(), p);
            }
            return Ok(i);
        }
        i = i + 1;
    }
    let mut m = owned("no exact match found for ticker ");
    m.append(ticker);
    Err(AppError::ApiError(m))
}

/// The ISIN an order trades, from the quote: present and not empty, else
/// the answer that stops the order.
pub fn fennel_order_isin(isin: &Option<String>, ticker: &str) -> (r: Result<String, String>)
    ensures
        match isin {
            Some(i) => if i@.len() > 0 {
                r matches Ok(t) && t@ == i@
            } else {
                r matches Err(t) && t@ == "Error: Could not find ISIN for ticker "@ + ticker@
            },
            None => r matches Err(t) && t@ == "Error: Could not find ISIN for ticker "@ + ticker@,
        },
{
    match isin {
        Some(i) => if !i.as_str().is_empty() {
            return Ok(i.clone());
        },
        None => {},
    }
    let mut t = owned("Error: Could not find ISIN for ticker ");
    t.append(ticker);
    Err(t)
}

/// Whether an account may trade a stock: it may buy it or sell it.
pub fn fennel_tradable(can_buy: bool, can_sell: bool) -> (r: bool)
    ensures
        r == (can_buy || can_sell),
{
    can_buy || can_sell
}

/// Whether the order waits before serving the account at `position`: only
/// between accounts of an order that reaches more than one.
pub fn fennel_pauses_before(count: usize, position: usize) -> (r: bool)
    ensures
        r == (count > 1 && position > 0),
{
    count > 1 && position > 0
}

/// What to do with one account of a Fennel order.
#[derive(Debug, Clone, Copy, PartialEq, Eq, Structural)]
pub enum AccountGate {
    /// Go on with this account.
    Go,
    /// Pass the account over without counting it.
    Skip,
    /// Count the account as failed and pass it over.
    Fail,
}

/// Decides on an account of a Fennel order from the answer to whether the
/// security may be traded there: tradable goes on, not tradable is passed
/// over, and an answer that could not be had counts as a failure.
pub fn fennel_tradable_gate(tradable: &Result<bool, AppError>) -> (r: AccountGate)
    ensures
        r == match tradable {
            Ok(true) => AccountGate::Go,
            Ok(false) => AccountGate::Skip,
            Err(_) => AccountGate::Fail,
        },
{
    match tradable {
        Ok(true) => AccountGate::Go,
        Ok(false) => AccountGate::Skip,
        Err(_) => AccountGate::Fail,
    }
}

/// What one attempt to create a Fennel order came back with.
pub enum OrderReply {
    /// The request itself failed.
    Transport(AppError),
    /// The reply lists errors; the text describes the first (its message,
    /// when it has one, is given apart).
    Rejected { message: Option<String>, listing: String },
    /// The order was created.
    Created,
    /// The reply's data lacks the created order.
    MissingOrder,
    /// The reply has no data object.
    MissingData,
}

/// What to do after an attempt.
pub enum AttemptAction {
    /// Stop with this outcome.
    Finish(Result<(), AppError>),
    /// Wait a second and try again.
    Retry,
}

/// How many attempts an order gets.
pub open spec fn max_attempts() -> u32 {
    3
}

/// The attempts made so far to create a Fennel order.
#[derive(Debug, Clone, Copy)]
pub struct OrderAttempts {
    pub attempt: u32,
}

/// The error an attempt's reply stands for, when it is one.
pub open spec fn reply_error_text(reply: OrderReply) -> Seq<char> {
    match reply {
        OrderReply::Rejected { message, listing } => match message {
            Some(m) => "GraphQL error: "@ + m@,
            None => listing@,
        },
        OrderReply::MissingOrder => "failed to place order (API response structure unexpected, 'createOrder' field missing)"@,
        _ => "invalid response format: data field missing or not an object"@,
    }
}

impl OrderAttempts {
    /// The first attempt.
    pub fn new() -> (r: Self)
        ensures
            r.attempt == 1,
    {
        OrderAttempts { attempt: 1 }
    }

    /// Takes an attempt's reply: a created order finishes well; listed
    /// errors finish at once; any other failure is retried until the third
    /// attempt, whose failure finishes.
    pub fn on_reply(&mut self, reply: OrderReply) -> (a: AttemptAction)
        requires
            1 <= old(self).attempt <= max_attempts(),
        ensures
            1 <= final(self).attempt <= max_attempts(),
            reply is Created ==> (a matches AttemptAction::Finish(r) && r is Ok),
            reply is Rejected ==> (a matches AttemptAction::Finish(r) && r matches Err(
                AppError::ApiError(m),
            ) && m@ == reply_error_text(reply)),
            (reply is Transport || reply is MissingOrder || reply is MissingData) && old(self).attempt
                < max_attempts() ==> (a is Retry && final(self).attempt == old(self).attempt + 1),
            (reply is MissingOrder || reply is MissingData) && old(self).attempt == max_attempts()
                ==> (a matches AttemptAction::Finish(r) && r matches Err(AppError::ApiError(m))
                && m@ == reply_error_text(reply)),
            reply matches OrderReply::Transport(e) ==> (old(self).attempt == max_attempts() ==> (
            a matches AttemptAction::Finish(r) && r == Err::<(), AppError>(e))),
    {
        let err = match reply {
            OrderReply::Created => {
                return AttemptAction::Finish(Ok(()));
            },
            OrderReply::Rejected { message, listing } => {
                let m = match message {
                    Some(t) => {
                        let mut m = owned("GraphQL error: ");
                        m.append(t.as_str());
                        m
                    },
                    None => listing,
                };
                return AttemptAction::Finish(Err(AppError::ApiError(m)));
            },
            OrderReply::Transport(e) => e,
            OrderReply::MissingOrder => AppError::ApiError(
                owned(
                    "failed to place order (API response structure unexpected, 'createOrder' field missing)",
                ),
            ),
            OrderReply::MissingData => AppError::ApiError(
                owned("invalid response format: data field missing or not an object"),
            ),
        };
        if self.attempt < 3 {
            self.attempt = self.attempt + 1;
            AttemptAction::Retry
        } else {
            AttemptAction::Finish(Err(err))
        }
    }
}

} // verus!
