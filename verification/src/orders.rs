//! Which accounts an order goes to, in what order brokers are served, and
//! how the outcomes are reported.

use vstd::prelude::*;
use crate::accounts::{views, indices_where, as_ints};
use crate::text::{
    owned, str_eq, trim, trim_str, split_on, split_str, join_with, join_strings, decimal,
    decimal_string, eq_ignore_case, str_eq_ignore_case, has_prefix,
};
use crate::accounts::{first_where, lemma_indices_sorted, lemma_indices_complete, lemma_indices_in_range};
use crate::error::{AppError, error_text};

verus! {

/// The text that asks for every account.
pub open spec fn all_accounts_text() -> Seq<char> {
    "All accounts"@
}

/// The pieces of a comma-separated list, trimmed, without the empty ones.
pub open spec fn requested_names(s: Seq<char>) -> Seq<Seq<char>> {
    split_on(s, ',').map_values(|p: Seq<char>| trim(p)).filter(|p: Seq<char>| p.len() > 0)
}

/// Splits a comma-separated list of account names, trimming each and
/// dropping empty ones.
pub fn split_requested_names(s: &str) -> (r: Vec<String>)
    ensures
        views(r@) == requested_names(s@),
{
    let pieces = split_str(s, ',');
    let ghost all = split_on(s@, ',').map_values(|p: Seq<char>| trim(p));
    let mut r: Vec<String> = Vec::new();
    let mut i: usize = 0;
    while i < pieces.len()
        invariant
            i <= pieces.len(),
            pieces@.map_values(|p: String| p@) == split_on(s@, ','),
            all == split_on(s@, ',').map_values(|p: Seq<char>| trim(p)),
            views(r@) == all.take(i as int).filter(|p: Seq<char>| p.len() > 0),
        decreases pieces.len() - i,
    {
        proof {
            reveal_with_fuel(Seq::<_>::filter, 1);
            assert(all.take(i + 1).drop_last() =~= all.take(i as int));
            assert(pieces@.map_values(|p: String| p@)[i as int] == pieces@[i as int]@);
        }
        let t = trim_str(pieces[i].as_str());
        assert(t@ == all[i as int]);
        let ghost before = views(r@);
        if !t.as_str().is_empty() {
            r.push(t);
            assert(views(r@) =~= before.push(all[i as int]));
        }
        i = i + 1;
    }
    assert(all.take(pieces.len() as int) =~= all);
    r
}

/// What an order's account text asks for.
pub enum AccountRequest {
    /// Every account.
    All,
    /// Several accounts, by name, trimmed, empty ones dropped.
    Several(Vec<String>),
    /// One account, by name, trimmed.
    One(String),
}

/// Reads an order's account text: `All accounts`; a comma-separated list
/// (when it holds a comma); or a single name.
pub fn parse_account_request(account: &str) -> (r: AccountRequest)
    ensures
        account@ == all_accounts_text() ==> r is All,
        account@ != all_accounts_text() && split_on(account@, ',').len() > 1 ==> (r matches AccountRequest::Several(v) && views(v@) == requested_names(account@)),
        account@ != all_accounts_text() && split_on(account@, ',').len() <= 1 ==> (r matches AccountRequest::One(n) && n@ == trim(account@)),
{
    if str_eq(account, "All accounts") {
        return AccountRequest::All;
    }
    let pieces = split_str(account, ',');
    assert(pieces@.len() == split_on(account@, ',').len());
    if pieces.len() > 1 {
        AccountRequest::Several(split_requested_names(account))
    } else {
        proof {
            crate::text::lemma_split_single(account@, ',');
        }
        AccountRequest::One(trim_str(account))
    }
}

/// The rank of a broker kind when an order goes to several brokers: lower
/// ranks are served first, Robinhood next to last and Fennel last.
pub open spec fn order_priority(broker_type: Seq<char>) -> int {
    if broker_type == "robinhood"@ {
        98
    } else if broker_type == "fennel"@ {
        99
    } else {
        0
    }
}

/// The rank of a broker kind, named as `BrokerType` spells it, when an
/// order goes to several brokers.
pub fn broker_order_priority(broker_type: &str) -> (r: i32)
    ensures
        r == order_priority(broker_type@),
{
    if str_eq(broker_type, "robinhood") {
        98
    } else if str_eq(broker_type, "fennel") {
        99
    } else {
        0
    }
}

/// The positions of the brokers of rank `level`, in their given order.
pub open spec fn brokers_ranked(types: Seq<Seq<char>>, level: int) -> Seq<int> {
    indices_where(types.len(), |i: int| order_priority(types[i]) == level)
}

/// The order brokers are served in: the positions of their kinds, stably
/// sorted by rank.
pub open spec fn broker_sequence(types: Seq<Seq<char>>) -> Seq<int> {
    brokers_ranked(types, 0) + brokers_ranked(types, 98) + brokers_ranked(types, 99)
}

fn push_ranked(types: &Vec<String>, level: i32, r: &mut Vec<usize>)
    ensures
        as_ints(final(r)@) == as_ints(old(r)@) + brokers_ranked(views(types@), level as int),
{
    let ghost p = |i: int| order_priority(views(types@)[i]) == level as int;
    let ghost start = as_ints(r@);
    let mut i: usize = 0;
    while i < types.len()
        invariant
            i <= types.len(),
            p == (|i: int| order_priority(views(types@)[i]) == level as int),
            as_ints(r@) == start + indices_where(i as nat, p),
        decreases types.len() - i,
    {
        let ghost before = as_ints(r@);
        assert(views(types@)[i as int] == types@[i as int]@);
        if broker_order_priority(types[i].as_str()) == level {
            r.push(i);
            assert(as_ints(r@) =~= before.push(i as int));
        }
        i = i + 1;
    }
    assert(views(types@).len() == types@.len());
}

/// The order in which an order reaches several brokers, given each
/// broker's kind (empty when the broker is unknown): by rank, brokers of
/// equal rank in their given order.
pub fn broker_service_order(types: &Vec<String>) -> (r: Vec<usize>)
    ensures
        as_ints(r@) == broker_sequence(views(types@)),
{
    let mut r: Vec<usize> = Vec::new();
    assert(as_ints(r@) =~= Seq::<int>::empty());
    push_ranked(types, 0, &mut r);
    push_ranked(types, 98, &mut r);
    push_ranked(types, 99, &mut r);
    assert(as_ints(r@) =~= broker_sequence(views(types@)));
    r
}

/// What stands in for a broker's order result when the order cannot go to
/// it: the broker is unknown, or it is not logged in.
pub fn broker_order_gate(logged_in: Option<bool>, broker_id: &str) -> (r: Option<String>)
    ensures
        match logged_in {
            None => r matches Some(t) && t@ == "Error: Broker not found: "@ + broker_id@,
            Some(false) => r matches Some(t) && t@ == "Error: Broker not logged in"@,
            Some(true) => r is None,
        },
{
    match logged_in {
        None => {
            let e = AppError::BrokerNotFound(owned(broker_id));
            let mut t = owned("Error: ");
            t.append(e.to_string().as_str());
            proof {
                reveal_strlit("Error: ");
                reveal_strlit("Broker not found: ");
                reveal_strlit("Error: Broker not found: ");
            }
            assert(t@ =~= "Error: Broker not found: "@ + broker_id@);
            Some(t)
        },
        Some(false) => Some(owned("Error: Broker not logged in")),
        Some(true) => None,
    }
}

/// A result reported under its account's label: `label: result`, or the
/// result alone when there is no label.
pub open spec fn labeled(label: Option<Seq<char>>, result: Seq<char>) -> Seq<char> {
    match label {
        Some(l) => l + ": "@ + result,
        None => result,
    }
}

/// Reports a result under an optional label.
pub fn labeled_result(label: &Option<String>, result: &str) -> (r: String)
    ensures
        r@ == labeled(
            match label {
                Some(l) => Some(l@),
                None => None,
            },
            result@,
        ),
{
    match label {
        Some(l) => {
            let mut t = l.clone();
            t.append(": ");
            t.append(result);
            t
        },
        None => owned(result),
    }
}

/// Joins the results of an order placed in several accounts with `; `.
pub fn join_results(parts: &Vec<String>) -> (r: String)
    ensures
        r@ == join_with(views(parts@), "; "@),
{
    let r = join_strings(parts, "; ");
    assert(parts@.map_values(|p: String| p@) =~= views(parts@));
    r
}

/// The text an order placed account by account ends with: how many
/// accounts took the order and how many failed; `Error: ` in front when any
/// failed.
pub open spec fn order_summary(placed: nat, failed: nat) -> Seq<char> {
    let done = if placed > 0 {
        "Successfully placed orders in "@ + decimal(placed) + " account(s). "@
    } else {
        Seq::<char>::empty()
    };
    let lost = if failed > 0 {
        "Failed to place orders in "@ + decimal(failed) + " account(s). "@
    } else {
        Seq::<char>::empty()
    };
    let tail = if placed == 0 && failed == 0 {
        "No orders were placed (e.g., stock not tradable in selected accounts)."@
    } else if failed > 0 {
        "Check log for details."@
    } else {
        Seq::<char>::empty()
    };
    if failed > 0 {
        "Error: "@ + done + lost + tail
    } else {
        done + lost + tail
    }
}

/// What became of an order in one account.
#[derive(Debug, Clone, Copy, PartialEq, Eq, Structural)]
pub enum AccountOutcome {
    Placed,
    Failed,
    Skipped,
}

/// The count of accounts that took an order and of those that failed.
#[derive(Debug, Clone, Copy)]
pub struct OrderTally {
    pub placed: u64,
    pub failed: u64,
}

impl OrderTally {
    /// No account counted yet.
    pub fn new() -> (t: Self)
        ensures
            t.placed == 0,
            t.failed == 0,
    {
        OrderTally { placed: 0, failed: 0 }
    }

    /// Counts one account's outcome; a skipped account is not counted.
    pub fn record(&mut self, outcome: AccountOutcome)
        requires
            old(self).placed < u64::MAX,
            old(self).failed < u64::MAX,
        ensures
            final(self).placed == old(self).placed + if outcome == AccountOutcome::Placed {
                1int
            } else {
                0int
            },
            final(self).failed == old(self).failed + if outcome == AccountOutcome::Failed {
                1int
            } else {
                0int
            },
    {
        match outcome {
            AccountOutcome::Placed => self.placed = self.placed + 1,
            AccountOutcome::Failed => self.failed = self.failed + 1,
            AccountOutcome::Skipped => {},
        }
    }

    /// The text the order ends with.
    pub fn summary(&self) -> (r: String)
        ensures
            r@ == order_summary(self.placed as nat, self.failed as nat),
    {
        let mut body = String::new();
        if self.placed > 0 {
            body.append("Successfully placed orders in ");
            body.append(decimal_string(self.placed).as_str());
            body.append(" account(s). ");
        }
        if self.failed > 0 {
            body.append("Failed to place orders in ");
            body.append(decimal_string(self.failed).as_str());
            body.append(" account(s). ");
        }
        if self.placed == 0 && self.failed == 0 {
            body.append("No orders were placed (e.g., stock not tradable in selected accounts).");
        } else if self.failed > 0 {
            body.append("Check log for details.");
        }
        let r = if self.failed > 0 {
            let mut e = owned("Error: ");
            e.append(body.as_str());
            e
        } else {
            body
        };
        assert(r@ =~= order_summary(self.placed as nat, self.failed as nat));
        r
    }
}

/// What the holdings of an account say of the ticker being sold.
pub enum Holdings {
    /// Some shares are held.
    Held,
    /// None are held, or no holding reads as a number of shares.
    NotHeld,
    /// The holdings could not be looked up; the text says why.
    Unknown(String),
}

/// How many shares a sell order asks for in an account.
#[derive(Debug, Clone, Copy, PartialEq, Eq, Structural)]
pub enum SellQuantity {
    /// Everything the account holds.
    AllHeld,
    /// The requested number, capped at what the account holds.
    UpToHeld,
    /// The requested number.
    Requested,
}

/// Whether an order's side is a sale: `sell` in any ASCII case.
pub fn is_sell(side: &str) -> (r: bool)
    ensures
        r == eq_ignore_case(side@, "sell"@),
{
    str_eq_ignore_case(side, "sell")
}

/// What stands in for an order's result when the broker holds no live
/// session: `Error: Not logged in`; nothing when it does.
pub fn order_session_gate(logged_in: bool) -> (r: Option<String>)
    ensures
        logged_in ==> r is None,
        !logged_in ==> (r matches Some(t) && t@ == "Error: Not logged in"@),
{
    if logged_in {
        None
    } else {
        Some(owned("Error: Not logged in"))
    }
}

/// The quantity to sell in one account of several, or `None` to pass the
/// account over: nothing held, or the holdings unknown when selling all.
pub fn batch_sell_quantity(holdings: &Holdings, sell_max: bool) -> (r: Option<SellQuantity>)
    ensures
        r == match holdings {
            Holdings::Held => Some(if sell_max {
                SellQuantity::AllHeld
            } else {
                SellQuantity::UpToHeld
            }),
            Holdings::NotHeld => None,
            Holdings::Unknown(_) => if sell_max {
                None
            } else {
                Some(SellQuantity::Requested)
            },
        },
{
    match holdings {
        Holdings::Held => Some(if sell_max {
            SellQuantity::AllHeld
        } else {
            SellQuantity::UpToHeld
        }),
        Holdings::NotHeld => None,
        Holdings::Unknown(_) => if sell_max {
            None
        } else {
            Some(SellQuantity::Requested)
        },
    }
}

/// The quantity to sell when the order goes to a single account, or the
/// answer that stops it.
pub fn single_sell_quantity(holdings: &Holdings, sell_max: bool, ticker: &str, account_id: &str) -> (r:
    Result<SellQuantity, String>)
    ensures
        match holdings {
            Holdings::Held => r == Ok::<SellQuantity, String>(
                if sell_max {
                    SellQuantity::AllHeld
                } else {
                    SellQuantity::UpToHeld
                },
            ),
            Holdings::NotHeld => r matches Err(t) && t@ == "No shares of "@ + ticker@
                + " in this account"@,
            Holdings::Unknown(e) => if sell_max {
                r matches Err(t) && t@ == "Error: Could not look up holdings for "@ + account_id@
                    + ": "@ + e@
            } else {
                r == Ok::<SellQuantity, String>(SellQuantity::Requested)
            },
        },
{
    match holdings {
        Holdings::Held => Ok(
            if sell_max {
                SellQuantity::AllHeld
            } else {
                SellQuantity::UpToHeld
            },
        ),
        Holdings::NotHeld => {
            let mut t = owned("No shares of ");
            t.append(ticker);
            t.append(" in this account");
            Err(t)
        },
        Holdings::Unknown(e) => {
            if sell_max {
                let mut t = owned("Error: Could not look up holdings for ");
                t.append(account_id);
                t.append(": ");
                t.append(e.as_str());
                Err(t)
            } else {
                Ok(SellQuantity::Requested)
            }
        },
    }
}

/// The quantity for a Light Horse order that sells everything held, or the
/// answer that stops it; when the holdings are unknown the requested number
/// stands.
pub fn lighthorse_sell_quantity(holdings: &Holdings, ticker: &str) -> (r: Result<SellQuantity, String>)
    ensures
        match holdings {
            Holdings::Held => r == Ok::<SellQuantity, String>(SellQuantity::AllHeld),
            Holdings::NotHeld => r matches Err(t) && t@ == "Error: No shares of "@ + ticker@
                + " to sell"@,
            Holdings::Unknown(_) => r == Ok::<SellQuantity, String>(SellQuantity::Requested),
        },
{
    match holdings {
        Holdings::Held => Ok(SellQuantity::AllHeld),
        Holdings::NotHeld => {
            let mut t = owned("Error: No shares of ");
            t.append(ticker);
            t.append(" to sell");
            Err(t)
        },
        Holdings::Unknown(_) => Ok(SellQuantity::Requested),
    }
}

/// One line of an account's holdings: its ticker, and whether its share
/// count reads as a number.
#[derive(Debug, Clone)]
pub struct HoldingLine {
    pub ticker: String,
    pub shares_readable: bool,
}

/// The line that gives the holding of `ticker`: the first whose ticker
/// equals it in any ASCII case and whose share count reads as a number.
pub open spec fn held_line(lines: Seq<HoldingLine>, ticker: Seq<char>) -> Option<int> {
    first_where(
        lines.len(),
        |i: int| eq_ignore_case(lines[i].ticker@, ticker) && lines[i].shares_readable,
    )
}

/// Finds the holding line of `ticker`.
pub fn find_held_line(lines: &Vec<HoldingLine>, ticker: &str) -> (r: Option<usize>)
    ensures
        match held_line(lines@, ticker@) {
            Some(i) => r == Some(i as usize),
            None => r is None,
        },
{
    let ghost p = |i: int| eq_ignore_case(lines@[i].ticker@, ticker@) && lines@[i].shares_readable;
    let mut i: usize = 0;
    while i < lines.len()
        invariant
            i <= lines.len(),
            p == (|i: int| eq_ignore_case(lines@[i].ticker@, ticker@) && lines@[i].shares_readable),
            first_where(i as nat, p) is None,
        decreases lines.len() - i,
    {
        if lines[i].shares_readable && str_eq_ignore_case(lines[i].ticker.as_str(), ticker) {
            proof {
                crate::accounts::lemma_first_where_hit(i as nat, lines@.len(), p);
            }
            return Some(i);
        }
        i = i + 1;
    }
    None
}

/// Position `i` occurs in `s`.
pub open spec fn occurs(s: Seq<int>, i: int) -> bool {
    exists|j: int| 0 <= j < s.len() && s[j] == i
}

/// An order that goes to several brokers reaches every broker exactly
/// once, brokers of other kinds first, then Robinhood, then Fennel; brokers
/// of equal rank keep their given order.
pub proof fn law_brokers_served_by_rank(types: Seq<Seq<char>>)
    ensures
        ({
            let s = broker_sequence(types);
            &&& forall|j: int| 0 <= j < s.len() ==> 0 <= #[trigger] s[j] < types.len()
            &&& forall|i: int| 0 <= i < types.len() ==> #[trigger] occurs(s, i)
            &&& forall|j: int, k: int|
                #![trigger s[j], s[k]]
                0 <= j < k < s.len() ==> order_priority(types[s[j]]) < order_priority(types[s[k]])
                    || (order_priority(types[s[j]]) == order_priority(types[s[k]]) && s[j] < s[k])
        }),
{
    let n = types.len();
    let p0 = |i: int| order_priority(types[i]) == 0;
    let p1 = |i: int| order_priority(types[i]) == 98;
    let p2 = |i: int| order_priority(types[i]) == 99;
    let a = indices_where(n, p0);
    let b = indices_where(n, p1);
    let c = indices_where(n, p2);
    lemma_indices_sorted(n, p0);
    lemma_indices_sorted(n, p1);
    lemma_indices_sorted(n, p2);
    lemma_indices_in_range(n, p0);
    lemma_indices_in_range(n, p1);
    lemma_indices_in_range(n, p2);
    let s = broker_sequence(types);
    assert(s == a + b + c);
    assert forall|j: int| 0 <= j < s.len() implies 0 <= #[trigger] s[j] < types.len() by {
        if j < a.len() {
            assert(s[j] == a[j]);
        } else if j < a.len() + b.len() {
            assert(s[j] == b[j - a.len()]);
        } else {
            assert(s[j] == c[j - a.len() - b.len()]);
        }
    }
    assert forall|i: int| 0 <= i < types.len() implies #[trigger] occurs(s, i) by {
        if p0(i) {
            lemma_indices_complete(n, p0, i);
            let j = choose|j: int| 0 <= j < a.len() && a[j] == i;
            assert(s[j] == i);
        } else if p1(i) {
            lemma_indices_complete(n, p1, i);
            let j = choose|j: int| 0 <= j < b.len() && b[j] == i;
            assert(s[a.len() + j] == i);
        } else {
            assert(p2(i));
            lemma_indices_complete(n, p2, i);
            let j = choose|j: int| 0 <= j < c.len() && c[j] == i;
            assert(s[a.len() + b.len() + j] == i);
        }
    }
    assert forall|j: int, k: int| 0 <= j < k < s.len() implies order_priority(types[#[trigger] s[j]])
        < order_priority(types[#[trigger] s[k]]) || (order_priority(types[s[j]])
        == order_priority(types[s[k]]) && s[j] < s[k]) by {
        let la = a.len() as int;
        let lb = b.len() as int;
        if j < la {
            assert(s[j] == a[j] && p0(a[j]));
            if k < la {
                assert(s[k] == a[k]);
            } else if k < la + lb {
                assert(s[k] == b[k - la] && p1(b[k - la]));
            } else {
                assert(s[k] == c[k - la - lb] && p2(c[k - la - lb]));
            }
        } else if j < la + lb {
            assert(s[j] == b[j - la] && p1(b[j - la]));
            if k < la + lb {
                assert(s[k] == b[k - la]);
            } else {
                assert(s[k] == c[k - la - lb] && p2(c[k - la - lb]));
            }
        } else {
            assert(s[j] == c[j - la - lb] && s[k] == c[k - la - lb]);
        }
    }
}

/// An order's summary starts with `Error: ` exactly when some account
/// failed.
pub proof fn law_summary_flags_failure(placed: nat, failed: nat)
    ensures
        has_prefix(order_summary(placed, failed), "Error: "@) <==> failed > 0,
{
    reveal_strlit("Error: ");
    reveal_strlit("Successfully placed orders in ");
    reveal_strlit("No orders were placed (e.g., stock not tradable in selected accounts).");
    let t = order_summary(placed, failed);
    if failed == 0 {
        if placed > 0 {
            assert(t[0] == 'S');
        } else {
            assert(t[0] == 'N');
        }
        assert(t.take(7)[0] != "Error: "@[0]);
    } else {
        assert(t.take(7) =~= "Error: "@);
    }
}

} // verus!
