//! What the desk keeps of a Robinhood instrument, and when it may be
//! traded.

use vstd::prelude::*;
use crate::text::{owned, str_eq};

verus! {

/// A Robinhood instrument: its symbol, display name, last price and whether
/// it may be traded.
#[derive(Debug, Clone)]
pub struct InstrumentInfo {
    pub symbol: String,
    pub name: String,
    pub price: String,
    pub tradable: bool,
}

/// An optional text, or the empty text.
pub open spec fn or_empty(t: Option<String>) -> Seq<char> {
    match t {
        Some(s) => s@,
        None => Seq::<char>::empty(),
    }
}

/// An instrument is tradable unless its record says otherwise: a
/// `tradeable` flag decides when present, and a state other than `active`
/// or a tradability other than `tradable` rules it out.
pub open spec fn instrument_tradable(
    tradeable: Option<bool>,
    state: Option<Seq<char>>,
    tradability: Option<Seq<char>>,
) -> bool {
    &&& match tradeable {
        Some(b) => b,
        None => true,
    }
    &&& match state {
        Some(s) => s == "active"@,
        None => true,
    }
    &&& match tradability {
        Some(t) => t == "tradable"@,
        None => true,
    }
}

impl InstrumentInfo {
    /// What is known of an instrument whose record could not be read:
    /// nothing, and it may not be traded.
    pub fn empty() -> (r: Self)
        ensures
            r.symbol@ == Seq::<char>::empty(),
            r.name@ == Seq::<char>::empty(),
            r.price@ == Seq::<char>::empty(),
            !r.tradable,
    {
        InstrumentInfo { symbol: String::new(), name: String::new(), price: String::new(), tradable: false }
    }

    /// Reads an instrument record: its symbol, its simple name or else its
    /// name, no price yet, and whether it may be traded.
    pub fn from_record(
        symbol: &Option<String>,
        simple_name: &Option<String>,
        name: &Option<String>,
        tradeable: Option<bool>,
        state: &Option<String>,
        tradability: &Option<String>,
    ) -> (r: Self)
        ensures
            r.symbol@ == or_empty(*symbol),
            r.name@ == (if or_empty(*simple_name).len() > 0 {
                or_empty(*simple_name)
            } else {
                or_empty(*name)
            }),
            r.price@ == Seq::<char>::empty(),
            r.tradable == instrument_tradable(
                tradeable,
                match state {
                    Some(s) => Some(s@),
                    None => None,
                },
                match tradability {
                    Some(t) => Some(t@),
                    None => None,
                },
            ),
    {
        let sym = match symbol {
            Some(s) => s.clone(),
            None => String::new(),
        };
        let simple = match simple_name {
            Some(s) => s.clone(),
            None => String::new(),
        };
        let shown = if simple.as_str().is_empty() {
            match name {
                Some(n) => n.clone(),
                None => String::new(),
            }
        } else {
            simple
        };
        let mut tradable = match tradeable {
            Some(b) => b,
            None => true,
        };
        match state {
            Some(s) => if !str_eq(s.as_str(), "active") {
                tradable = false;
            },
            None => {},
        }
        match tradability {
            Some(t) => if !str_eq(t.as_str(), "tradable") {
                tradable = false;
            },
            None => {},
        }
        InstrumentInfo { symbol: sym, name: shown, price: String::new(), tradable }
    }
}

} // verus!
