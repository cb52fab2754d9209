//! The desk's own decisions: what the start screen shows, which broker a
//! login or a link uses, and how selecting and unlinking a broker change
//! the registry and the saved credentials together.

use vstd::prelude::*;
use crate::text::{owned, str_eq, has_prefix, signed_decimal, signed_decimal_string};
use crate::error::AppError;
use crate::broker_type::{BrokerType, type_named};
use crate::credentials::{StoredCredentials, StoredData};
use crate::manager::{BrokerManager, LinkedBroker};
use crate::accounts::{views, first_where, lemma_first_where_hit};

verus! {

/// What the start screen shows before any session is restored: nothing
/// decided yet when credentials are stored; else the offer to import the
/// legacy credentials when there are some; else the link screen.
pub fn startup_gate(has_credentials: bool, legacy_found: bool) -> (r: Option<String>)
    ensures
        has_credentials ==> r is None,
        !has_credentials && legacy_found ==> (r matches Some(s) && s@ == "legacy_found"@),
        !has_credentials && !legacy_found ==> (r matches Some(s) && s@ == "need_link"@),
{
    if has_credentials {
        None
    } else if legacy_found {
        Some(owned("legacy_found"))
    } else {
        Some(owned("need_link"))
    }
}

/// What the start screen shows once sessions are restored: `ready` when the
/// active broker is logged in, else the link screen.
pub fn startup_state(active_logged_in: Option<bool>) -> (r: String)
    ensures
        r@ == (if active_logged_in == Some(true) {
            "ready"@
        } else {
            "need_link"@
        }),
{
    if active_logged_in == Some(true) {
        owned("ready")
    } else {
        owned("need_link")
    }
}

/// How a restored broker is listed: `connected`, or `needs_reauth` when its
/// session could not be restored.
pub fn restore_status(restored: bool) -> (r: String)
    ensures
        r@ == (if restored {
            "connected"@
        } else {
            "needs_reauth"@
        }),
{
    if restored {
        owned("connected")
    } else {
        owned("needs_reauth")
    }
}

/// The stored sessions to restore, by position, with their broker kind:
/// those whose recorded type names a known broker, in order.
pub open spec fn restorable_sessions(types: Seq<Seq<char>>) -> Seq<(int, BrokerType)>
    decreases types.len(),
{
    if types.len() == 0 {
        Seq::empty()
    } else {
        let before = restorable_sessions(types.drop_last());
        match type_named(types.last()) {
            Some(t) => before.push(((types.len() - 1) as int, t)),
            None => before,
        }
    }
}

/// The recorded broker types of stored sessions.
pub open spec fn session_types(stored: Seq<(String, StoredCredentials)>) -> Seq<Seq<char>> {
    stored.map_values(|e: (String, StoredCredentials)| e.1.broker_type@)
}

/// Picks the stored sessions that can be restored, with their kinds;
/// sessions of an unknown type are passed over.
pub fn restorable(stored: &Vec<(String, StoredCredentials)>) -> (r: Vec<(usize, BrokerType)>)
    ensures
        r@.map_values(|e: (usize, BrokerType)| (e.0 as int, e.1)) == restorable_sessions(
            session_types(stored@),
        ),
{
    let ghost types = session_types(stored@);
    let mut r: Vec<(usize, BrokerType)> = Vec::new();
    let mut i: usize = 0;
    while i < stored.len()
        invariant
            i <= stored.len(),
            types == session_types(stored@),
            r@.map_values(|e: (usize, BrokerType)| (e.0 as int, e.1)) == restorable_sessions(
                types.take(i as int),
            ),
        decreases stored.len() - i,
    {
        let ghost before = r@.map_values(|e: (usize, BrokerType)| (e.0 as int, e.1));
        assert(types.take(i + 1).drop_last() =~= types.take(i as int));
        assert(types.take(i + 1).last() == stored@[i as int].1.broker_type@);
        match BrokerType::from_str(stored[i].1.broker_type.as_str()) {
            Ok(t) => {
                r.push((i, t));
                assert(r@.map_values(|e: (usize, BrokerType)| (e.0 as int, e.1)) =~= before.push(
                    (i as int, t),
                ));
            },
            Err(_) => {},
        }
        i = i + 1;
    }
    assert(types.take(stored.len() as int) =~= types);
    r
}

/// A linked broker as the desk sees it when choosing one: its id, kind and
/// whether it is logged in.
#[derive(Debug, Clone)]
pub struct BrokerEntry {
    pub id: String,
    pub kind: BrokerType,
    pub logged_in: bool,
}

/// Lists the linked brokers, in the order they were linked.
pub fn broker_roster<B: LinkedBroker>(manager: &BrokerManager<B>) -> (r: Vec<BrokerEntry>)
    requires
        manager.wf(),
    ensures
        r@.map_values(|e: BrokerEntry| e.id@) == manager.ids(),
        forall|i: int|
            0 <= i < r@.len() ==> #[trigger] r@[i].kind == manager.brokers()[manager.ids()[i]].spec_kind()
                && r@[i].logged_in == manager.brokers()[manager.ids()[i]].spec_logged_in(),
{
    let ids = manager.broker_ids();
    let all = manager.get_all_brokers();
    let mut r: Vec<BrokerEntry> = Vec::new();
    let mut i: usize = 0;
    while i < ids.len()
        invariant
            i <= ids.len(),
            manager.wf(),
            ids@.map_values(|s: String| s@) == manager.ids(),
            all@.len() == manager.ids().len(),
            forall|j: int| 0 <= j < all@.len() ==> *all@[j] == manager.brokers()[manager.ids()[j]],
            r@.map_values(|e: BrokerEntry| e.id@) == manager.ids().take(i as int),
            r@.len() == i,
            forall|j: int|
                0 <= j < i ==> #[trigger] r@[j].kind == manager.brokers()[manager.ids()[j]].spec_kind()
                    && r@[j].logged_in == manager.brokers()[manager.ids()[j]].spec_logged_in(),
        decreases ids.len() - i,
    {
        let ghost before = r@.map_values(|e: BrokerEntry| e.id@);
        assert(manager.ids()[i as int] == ids@[i as int]@);
        let b = all[i];
        r.push(BrokerEntry { id: ids[i].clone(), kind: b.kind(), logged_in: b.logged_in() });
        assert(r@.map_values(|e: BrokerEntry| e.id@) =~= before.push(ids@[i as int]@));
        assert(manager.ids().take(i + 1) =~= manager.ids().take(i as int).push(
            manager.ids()[i as int],
        ));
        i = i + 1;
    }
    assert(manager.ids().take(ids.len() as int) =~= manager.ids());
    r
}

/// The first broker of the roster of kind `kind` (and, when asked, not
/// logged in).
pub open spec fn broker_of_kind(roster: Seq<BrokerEntry>, kind: BrokerType, logged_out_only: bool) -> Option<
    int,
> {
    first_where(
        roster.len(),
        |i: int| roster[i].kind == kind && (!logged_out_only || !roster[i].logged_in),
    )
}

/// Finds the first broker of kind `kind` (and, when asked, not logged in).
pub fn find_broker(roster: &Vec<BrokerEntry>, kind: BrokerType, logged_out_only: bool) -> (r: Option<
    String,
>)
    ensures
        match broker_of_kind(roster@, kind, logged_out_only) {
            Some(i) => r matches Some(id) && id@ == roster@[i].id@,
            None => r is None,
        },
{
    let ghost p = |i: int| roster@[i].kind == kind && (!logged_out_only || !roster@[i].logged_in);
    let mut i: usize = 0;
    while i < roster.len()
        invariant
            i <= roster.len(),
            p == (|i: int| roster@[i].kind == kind && (!logged_out_only || !roster@[i].logged_in)),
            first_where(i as nat, p) is None,
        decreases roster.len() - i,
    {
        if roster[i].kind == kind && (!logged_out_only || !roster[i].logged_in) {
            proof {
                lemma_first_where_hit(i as nat, roster@.len(), p);
            }
            return Some(roster[i].id.clone());
        }
        i = i + 1;
    }
    None
}

/// Which broker a two-factor start goes to.
pub enum TwoFactorPlan {
    /// This linked broker, made active.
    Existing(String),
    /// A new broker of this kind, linked and made active.
    Create(BrokerType),
    /// The active broker as it is.
    Active,
}

/// Decides which broker a two-factor start goes to: for a named kind, the
/// first linked broker of that kind not yet logged in, else a new one; with
/// no kind named, the active broker, or a new Fennel broker when none is
/// active. An unknown kind is refused.
pub fn plan_start_2fa(broker_type: Option<&str>, roster: &Vec<BrokerEntry>, has_active: bool) -> (r:
    Result<TwoFactorPlan, AppError>)
    ensures
        broker_type matches Some(s) ==> match type_named(s@) {
            None => r matches Err(AppError::UnknownBrokerType(m)) && m@ == s@,
            Some(t) => match broker_of_kind(roster@, t, true) {
                Some(i) => r matches Ok(TwoFactorPlan::Existing(id)) && id@ == roster@[i].id@,
                None => r matches Ok(TwoFactorPlan::Create(k)) && k == t,
            },
        },
        broker_type is None && !has_active ==> (r matches Ok(TwoFactorPlan::Create(k)) && k
            == BrokerType::Fennel),
        broker_type is None && has_active ==> (r matches Ok(TwoFactorPlan::Active)),
{
    match broker_type {
        Some(s) => {
            let t = BrokerType::from_str(s)?;
            match find_broker(roster, t, true) {
                Some(id) => Ok(TwoFactorPlan::Existing(id)),
                None => Ok(TwoFactorPlan::Create(t)),
            }
        },
        None => if has_active {
            Ok(TwoFactorPlan::Active)
        } else {
            Ok(TwoFactorPlan::Create(BrokerType::Fennel))
        },
    }
}

/// Decides what linking a broker of the named kind replaces: the kind, and
/// the first linked broker of that kind, if any. An unknown kind is
/// refused.
pub fn plan_link(broker_type: &str, roster: &Vec<BrokerEntry>) -> (r: Result<
    (BrokerType, Option<String>),
    AppError,
>)
    ensures
        match type_named(broker_type@) {
            None => r matches Err(AppError::UnknownBrokerType(m)) && m@ == broker_type@,
            Some(t) => r matches Ok((k, old_id)) && k == t && match broker_of_kind(
                roster@,
                t,
                false,
            ) {
                Some(i) => old_id matches Some(id) && id@ == roster@[i].id@,
                None => old_id is None,
            },
        },
{
    let t = BrokerType::from_str(broker_type)?;
    Ok((t, find_broker(roster, t, false)))
}

/// The broker a login code goes to: the active one, else
/// `NoBrokerConnected`.
pub fn login_target<B>(manager: &BrokerManager<B>) -> (r: Result<String, AppError>)
    requires
        manager.wf(),
    ensures
        match manager.active() {
            Some(a) => r matches Ok(id) && id@ == a,
            None => r matches Err(AppError::NoBrokerConnected),
        },
{
    match manager.get_active_broker_id() {
        Some(id) => Ok(id),
        None => Err(AppError::NoBrokerConnected),
    }
}

/// What a login code does to a broker already logged in: nothing, and the
/// log line `Already logged in.`; for another broker, nothing stands in the
/// way.
pub fn login_gate(logged_in: bool) -> (r: Option<String>)
    ensures
        logged_in ==> (r matches Some(t) && t@ == "Already logged in."@),
        !logged_in ==> r is None,
{
    if logged_in {
        Some(owned("Already logged in."))
    } else {
        None
    }
}

/// Makes `broker_id` the active broker and remembers it as the one last
/// used; a broker that is not linked is refused and nothing changes.
pub fn select_broker<B>(manager: &mut BrokerManager<B>, store: &mut StoredData, broker_id: &str) -> (r:
    Result<(), AppError>)
    requires
        old(manager).wf(),
        old(store).wf(),
    ensures
        final(manager).wf(),
        final(store).wf(),
        old(manager).brokers().dom().contains(broker_id@) ==> {
            &&& r is Ok
            &&& final(manager).active() == Some(broker_id@)
            &&& final(manager).brokers() == old(manager).brokers()
            &&& final(store).last_active@ == broker_id@
            &&& final(store).credentials == old(store).credentials
        },
        !old(manager).brokers().dom().contains(broker_id@) ==> {
            &&& r matches Err(AppError::BrokerNotFound(m)) && m@ == broker_id@
            &&& *final(manager) == *old(manager)
            &&& *final(store) == *old(store)
        },
{
    manager.set_active_broker(broker_id)?;
    store.set_last_active_broker_id(broker_id);
    Ok(())
}

/// Unlinks a broker: logs it out, removes it from the registry and forgets
/// its saved credentials; a broker that is not linked is refused and
/// nothing changes.
pub fn unlink_broker<B: LinkedBroker>(
    manager: &mut BrokerManager<B>,
    store: &mut StoredData,
    broker_id: &str,
) -> (r: Result<(), AppError>)
    requires
        old(manager).wf(),
        old(store).wf(),
    ensures
        final(manager).wf(),
        final(store).wf(),
        old(manager).brokers().dom().contains(broker_id@) ==> {
            &&& r is Ok
            &&& final(manager).brokers() == old(manager).brokers().remove(broker_id@)
            &&& old(manager).active() != Some(broker_id@) ==> final(manager).active()
                == old(manager).active()
            &&& old(manager).active() == Some(broker_id@) ==> final(manager).active()
                == crate::manager::first_id(final(manager).ids())
            &&& final(store).credentials@ == old(store).credentials@.remove(broker_id@)
            &&& final(store).last_active == old(store).last_active
        },
        !old(manager).brokers().dom().contains(broker_id@) ==> {
            &&& r matches Err(AppError::BrokerNotFound(m)) && m@ == broker_id@
            &&& *final(manager) == *old(manager)
            &&& *final(store) == *old(store)
        },
{
    {
        let b = manager.get_broker_mut(broker_id)?;
        b.logout();
    }
    manager.remove_broker(broker_id)?;
    store.delete_credentials(broker_id);
    assert(manager.brokers() =~= old(manager).brokers().remove(broker_id@));
    Ok(())
}

/// A new broker session to make: its kind and the id it keeps.
#[derive(Debug, Clone)]
pub struct BrokerSeed {
    pub kind: BrokerType,
    pub id: String,
}

/// Whether `c` is a lower-case hexadecimal digit.
pub open spec fn lower_hex_digit(c: char) -> bool {
    ('0' <= c && c <= '9') || ('a' <= c && c <= 'f')
}

/// The hyphenated lower-case text of a random (version 4, RFC 4122 variant)
/// UUID: 36 characters, hyphens at 8, 13, 18 and 23, hexadecimal digits
/// elsewhere, the version digit `4` at 14 and one of `89ab` at 19.
pub open spec fn hyphenated_v4(s: Seq<char>) -> bool {
    &&& s.len() == 36
    &&& forall|i: int|
        0 <= i < 36 ==> if i == 8 || i == 13 || i == 18 || i == 23 {
            s[i] == '-'
        } else {
            lower_hex_digit(#[trigger] s[i])
        }
    &&& s[14] == '4'
    &&& (s[19] == '8' || s[19] == '9' || s[19] == 'a' || s[19] == 'b')
}

/// A fresh random identifier: `uuid::Uuid::new_v4` written as text. The
/// crate sets the version and variant bits and writes the hyphenated
/// lower-case form; which random bits fill the rest is left open.
#[verifier::external_body]
fn fresh_uuid() -> (r: String)
    ensures
        hyphenated_v4(r@),
{
    uuid::Uuid::new_v4().to_string()
}

/// The current time in nanoseconds since the Unix epoch, through
/// `chrono::Utc::now` and `timestamp_nanos_opt` (zero when out of range);
/// nothing is claimed of it.
#[verifier::external_body]
fn unix_time_nanos() -> (r: i64) {
    chrono::Utc::now().timestamp_nanos_opt().unwrap_or(0)
}

/// The id of a new Webull session drawn at `nanos` nanoseconds since the
/// Unix epoch: `webull-` and the number.
pub fn webull_broker_id(nanos: i64) -> (r: String)
    ensures
        r@ == "webull-"@ + signed_decimal(nanos as int),
{
    let mut s = owned("webull-");
    s.append(signed_decimal_string(nanos).as_str());
    s
}

/// The session to make of kind `broker_type`: under `id`, or under the
/// freshly drawn `fresh` when `id` is empty.
pub fn seed_broker(broker_type: BrokerType, id: &str, fresh: String) -> (r: BrokerSeed)
    ensures
        r.kind == broker_type,
        id@.len() > 0 ==> r.id@ == id@,
        id@.len() == 0 ==> r.id@ == fresh@,
{
    if id.is_empty() {
        BrokerSeed { kind: broker_type, id: fresh }
    } else {
        BrokerSeed { kind: broker_type, id: owned(id) }
    }
}

/// Prepares a broker session of kind `broker_type` under `id`; an empty id
/// gets a fresh one: `webull-` and the time in nanoseconds for Webull, a
/// random identifier for the others. The time and the random identifier are
/// drawn here; `webull_broker_id` and `seed_broker` say what is made of them.
pub fn create_broker(broker_type: BrokerType, id: &str) -> (r: BrokerSeed)
    ensures
        r.kind == broker_type,
        id@.len() > 0 ==> r.id@ == id@,
        id@.len() == 0 && broker_type == BrokerType::Webull ==> exists|n: int|
            r.id@ == "webull-"@ + signed_decimal(n),
        id@.len() == 0 && broker_type != BrokerType::Webull ==> hyphenated_v4(r.id@),
{
    if !id.is_empty() {
        return seed_broker(broker_type, id, String::new());
    }
    let fresh = match broker_type {
        BrokerType::Webull => webull_broker_id(unix_time_nanos()),
        _ => fresh_uuid(),
    };
    seed_broker(broker_type, id, fresh)
}

/// The device token saved for a broker, empty when nothing is saved.
pub open spec fn saved_device_token(store: StoredData, broker_id: Seq<char>) -> Seq<char> {
    if store.credentials@.dom().contains(broker_id) {
        store.credentials@[broker_id].device_token@
    } else {
        Seq::<char>::empty()
    }
}

/// Retires the broker a new link replaces: it leaves the registry and its
/// saved credentials are forgotten. Gives back the device token it had
/// saved, empty when none, so that the new session can keep the device.
pub fn retire_broker<B>(manager: &mut BrokerManager<B>, store: &mut StoredData, broker_id: &str) -> (r:
    String)
    requires
        old(manager).wf(),
        old(store).wf(),
    ensures
        final(manager).wf(),
        final(store).wf(),
        r@ == saved_device_token(*old(store), broker_id@),
        final(manager).brokers() == old(manager).brokers().remove(broker_id@),
        old(manager).active() != Some(broker_id@) ==> final(manager).active()
            == old(manager).active(),
        old(manager).active() == Some(broker_id@) ==> final(manager).active()
            == crate::manager::first_id(final(manager).ids()),
        final(store).credentials@ == old(store).credentials@.remove(broker_id@),
        final(store).last_active == old(store).last_active,
{
    proof {
        crate::manager::law_active_is_linked(*manager);
    }
    let token = match store.load_credentials(broker_id) {
        Ok(c) => c.device_token,
        Err(_) => String::new(),
    };
    match manager.remove_broker(broker_id) {
        Ok(()) => {},
        Err(_) => {
            assert(old(manager).brokers().remove(broker_id@) =~= old(manager).brokers());
        },
    }
    store.delete_credentials(broker_id);
    token
}

/// Links a new broker session under `id` and makes it the active one; an
/// empty id is refused and nothing changes.
pub fn link_new_broker<B>(manager: &mut BrokerManager<B>, id: String, broker: B) -> (r: Result<
    (),
    AppError,
>)
    requires
        old(manager).wf(),
    ensures
        final(manager).wf(),
        id@.len() == 0 ==> (r matches Err(AppError::Other(m)) && m@ == "Broker ID cannot be empty"@
            && *final(manager) == *old(manager)),
        id@.len() > 0 ==> {
            &&& r is Ok
            &&& final(manager).brokers() == old(manager).brokers().insert(id@, broker)
            &&& final(manager).active() == Some(id@)
        },
{
    let key = id.clone();
    manager.register_broker(id, broker)?;
    manager.set_active_broker(key.as_str())
}

/// Logs the active broker out and forgets it and its saved credentials;
/// with no active broker nothing changes. Gives back the id it forgot.
pub fn logout_active<B: LinkedBroker>(manager: &mut BrokerManager<B>, store: &mut StoredData) -> (r:
    Option<String>)
    requires
        old(manager).wf(),
        old(store).wf(),
    ensures
        final(manager).wf(),
        final(store).wf(),
        match old(manager).active() {
            Some(a) => {
                &&& r matches Some(id) && id@ == a
                &&& final(manager).brokers() == old(manager).brokers().remove(a)
                &&& final(manager).active() == crate::manager::first_id(final(manager).ids())
                &&& final(store).credentials@ == old(store).credentials@.remove(a)
                &&& final(store).last_active == old(store).last_active
            },
            None => r is None && *final(manager) == *old(manager) && *final(store) == *old(store),
        },
{
    proof {
        crate::manager::law_active_is_linked(*manager);
    }
    let id = match manager.get_active_broker_id() {
        Some(id) => id,
        None => return None,
    };
    match unlink_broker(manager, store, id.as_str()) {
        Ok(()) => {},
        Err(_) => {},
    }
    Some(id)
}

/// The brokers whose accounts are listed together: the logged-in ones, by
/// position; `NoBrokerConnected` when no broker is linked.
pub fn account_sources(roster: &Vec<BrokerEntry>) -> (r: Result<Vec<usize>, AppError>)
    ensures
        roster@.len() == 0 ==> (r matches Err(AppError::NoBrokerConnected)),
        roster@.len() > 0 ==> (r matches Ok(v) && crate::accounts::as_ints(v@)
            == crate::accounts::indices_where(roster@.len(), |i: int| roster@[i].logged_in)),
{
    if roster.len() == 0 {
        return Err(AppError::NoBrokerConnected);
    }
    let ghost p = |i: int| roster@[i].logged_in;
    let mut v: Vec<usize> = Vec::new();
    let mut i: usize = 0;
    while i < roster.len()
        invariant
            i <= roster.len(),
            p == (|i: int| roster@[i].logged_in),
            crate::accounts::as_ints(v@) == crate::accounts::indices_where(i as nat, p),
        decreases roster.len() - i,
    {
        let ghost before = crate::accounts::as_ints(v@);
        if roster[i].logged_in {
            v.push(i);
            assert(crate::accounts::as_ints(v@) =~= before.push(i as int));
        }
        i = i + 1;
    }
    Ok(v)
}

} // verus!
