//! The kinds of broker the desk can link, and their names.

use vstd::prelude::*;
use crate::error::AppError;
use crate::text::{str_eq, owned};

verus! {

/// A supported brokerage.
#[derive(Debug, Clone, Copy, PartialEq, Eq, Structural, Hash)]
pub enum BrokerType {
    Fennel,
    Public,
    Robinhood,
    Tastytrade,
    Webull,
    Lighthorse,
}

/// The lower-case name of a broker type.
pub open spec fn broker_name(t: BrokerType) -> Seq<char> {
    match t {
        BrokerType::Fennel => "fennel"@,
        BrokerType::Public => "public"@,
        BrokerType::Robinhood => "robinhood"@,
        BrokerType::Tastytrade => "tastytrade"@,
        BrokerType::Webull => "webull"@,
        BrokerType::Lighthorse => "lighthorse"@,
    }
}

/// The broker type whose name is `s`, if any.
pub open spec fn type_named(s: Seq<char>) -> Option<BrokerType> {
    if s == "fennel"@ {
        Some(BrokerType::Fennel)
    } else if s == "public"@ {
        Some(BrokerType::Public)
    } else if s == "robinhood"@ {
        Some(BrokerType::Robinhood)
    } else if s == "tastytrade"@ {
        Some(BrokerType::Tastytrade)
    } else if s == "webull"@ {
        Some(BrokerType::Webull)
    } else if s == "lighthorse"@ {
        Some(BrokerType::Lighthorse)
    } else {
        None
    }
}

impl BrokerType {
    /// The lower-case name, as a static string.
    pub fn as_str(&self) -> (r: &'static str)
        ensures
            r@ == broker_name(*self),
    {
        match self {
            BrokerType::Fennel => "fennel",
            BrokerType::Public => "public",
            BrokerType::Robinhood => "robinhood",
            BrokerType::Tastytrade => "tastytrade",
            BrokerType::Webull => "webull",
            BrokerType::Lighthorse => "lighthorse",
        }
    }

    /// The lower-case name, as an owned string.
    pub fn to_string(&self) -> (r: String)
        ensures
            r@ == broker_name(*self),
    {
        owned(self.as_str())
    }

    /// Parses a lower-case broker name; any other text is refused with
    /// `UnknownBrokerType` carrying that text.
    pub fn from_str(s: &str) -> (r: Result<BrokerType, AppError>)
        ensures
            match type_named(s@) {
                Some(t) => r == Ok::<BrokerType, AppError>(t),
                None => r matches Err(AppError::UnknownBrokerType(m)) && m@ == s@,
            },
    {
        if str_eq(s, "fennel") {
            Ok(BrokerType::Fennel)
        } else if str_eq(s, "public") {
            Ok(BrokerType::Public)
        } else if str_eq(s, "robinhood") {
            Ok(BrokerType::Robinhood)
        } else if str_eq(s, "tastytrade") {
            Ok(BrokerType::Tastytrade)
        } else if str_eq(s, "webull") {
            Ok(BrokerType::Webull)
        } else if str_eq(s, "lighthorse") {
            Ok(BrokerType::Lighthorse)
        } else {
            Err(AppError::UnknownBrokerType(owned(s)))
        }
    }
}

} // verus!

verus! {

/// How a linked broker is shown to the user.
#[derive(Debug, Clone)]
pub struct BrokerInfo {
    pub id: String,
    pub broker_type: BrokerType,
    pub name: String,
    pub email: String,
    pub status: String,
}

/// The status shown for a broker: `connected` when logged in, else
/// `disconnected`.
pub open spec fn link_status(logged_in: bool) -> Seq<char> {
    if logged_in {
        "connected"@
    } else {
        "disconnected"@
    }
}

/// The description of one linked broker.
pub fn broker_info(id: &str, broker_type: BrokerType, name: &str, email: &str, logged_in: bool) -> (r:
    BrokerInfo)
    ensures
        r.id@ == id@,
        r.broker_type == broker_type,
        r.name@ == name@,
        r.email@ == email@,
        r.status@ == link_status(logged_in),
{
    let status = if logged_in {
        owned("connected")
    } else {
        owned("disconnected")
    };
    BrokerInfo {
        id: owned(id),
        broker_type,
        name: owned(name),
        email: owned(email),
        status,
    }
}

} // verus!

verus! {

/// Every broker type is parsed back from its own name.
pub proof fn law_name_round_trip(t: BrokerType)
    ensures
        type_named(broker_name(t)) == Some(t),
{
    reveal_strlit("fennel");
    reveal_strlit("public");
    reveal_strlit("robinhood");
    reveal_strlit("tastytrade");
    reveal_strlit("webull");
    reveal_strlit("lighthorse");
    let names = seq!["fennel"@, "public"@, "robinhood"@, "tastytrade"@, "webull"@, "lighthorse"@];
    assert forall|i: int, j: int| 0 <= i < 6 && 0 <= j < 6 && i != j implies names[i] != names[j] by {
        assert(names[i][0] != names[j][0]);
    }
    assert(names[0] == "fennel"@ && names[1] == "public"@ && names[2] == "robinhood"@);
    assert(names[3] == "tastytrade"@ && names[4] == "webull"@ && names[5] == "lighthorse"@);
}

/// A text that parses as a broker type is that type's name.
pub proof fn law_parsed_name_is_canonical(s: Seq<char>)
    ensures
        type_named(s) matches Some(t) ==> broker_name(t) == s,
{
}

} // verus!
