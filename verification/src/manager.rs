//! The registry of linked brokers and the choice of the active one.

use vstd::prelude::*;
use crate::broker_type::{BrokerInfo, BrokerType, broker_info, link_status};
use crate::error::AppError;
use crate::idmap::IdMap;
use crate::text::owned;

verus! {

/// What the registry needs of a broker client: its kind, name, e-mail and
/// login state, and a way to log it out. Each client of the desk implements
/// it.
///
/// The four spec functions describe a client; the methods give back what
/// they describe.
pub trait LinkedBroker {
    /// The kind of broker this client talks to.
    spec fn spec_kind(&self) -> BrokerType;

    /// The name the client shows.
    spec fn spec_name(&self) -> String;

    /// The e-mail of the session, empty when none.
    spec fn spec_email(&self) -> String;

    /// Whether the client holds a live session.
    spec fn spec_logged_in(&self) -> bool;

    fn kind(&self) -> (k: BrokerType)
        ensures
            k == self.spec_kind(),
    ;

    fn display_name(&self) -> (n: String)
        ensures
            n@ == self.spec_name()@,
    ;

    fn current_email(&self) -> (e: String)
        ensures
            e@ == self.spec_email()@,
    ;

    fn logged_in(&self) -> (b: bool)
        ensures
            b == self.spec_logged_in(),
    ;

    /// Ends the session: the client is no longer logged in and keeps its
    /// kind.
    fn logout(&mut self)
        ensures
            !final(self).spec_logged_in(),
            final(self).spec_kind() == old(self).spec_kind(),
    ;
}

/// Whether `info` describes broker `b` linked under `id`: its id, kind,
/// name, e-mail, and `connected` exactly when it is logged in.
pub open spec fn describes<B: LinkedBroker>(info: BrokerInfo, id: Seq<char>, b: B) -> bool {
    &&& info.id@ == id
    &&& info.broker_type == b.spec_kind()
    &&& info.name@ == b.spec_name()@
    &&& info.email@ == b.spec_email()@
    &&& info.status@ == link_status(b.spec_logged_in())
}

/// The first id of a sequence, if any.
pub open spec fn first_id(ids: Seq<Seq<char>>) -> Option<Seq<char>> {
    if ids.len() == 0 {
        None
    } else {
        Some(ids[0])
    }
}

/// Linked brokers by id, and which of them is active.
pub struct BrokerManager<B> {
    brokers: IdMap<B>,
    active_broker_id: Option<String>,
}

impl<B> BrokerManager<B> {
    /// The brokers by id.
    pub closed spec fn brokers(&self) -> Map<Seq<char>, B> {
        self.brokers@
    }

    /// The ids in the order the brokers were linked.
    pub closed spec fn ids(&self) -> Seq<Seq<char>> {
        self.brokers.key_seq()
    }

    /// The id of the active broker, if any.
    pub closed spec fn active(&self) -> Option<Seq<char>> {
        match self.active_broker_id {
            Some(s) => Some(s@),
            None => None,
        }
    }

    /// A registry is well formed when its ids are distinct, there is an
    /// active broker exactly when some broker is linked, and the active
    /// broker is a linked one.
    pub closed spec fn wf(&self) -> bool {
        &&& self.brokers.wf()
        &&& self.ids().len() == self.brokers().dom().len()
        &&& (self.active() is Some <==> !self.brokers().dom().is_empty())
        &&& (self.active() matches Some(a) ==> self.brokers().dom().contains(a))
    }

    proof fn lemma_ids_dom(&self)
        requires
            self.brokers.wf(),
        ensures
            forall|i: int|
                0 <= i < self.ids().len() ==> self.brokers().dom().contains(#[trigger] self.ids()[i]),
            self.ids().len() == self.brokers().dom().len(),
    {
        crate::idmap::lemma_entries_map_len(self.brokers.entries());
        assert forall|i: int| 0 <= i < self.ids().len() implies self.brokers().dom().contains(
            #[trigger] self.ids()[i],
        ) by {
            crate::idmap::lemma_entries_map_dom(self.brokers.entries(), self.ids()[i]);
        }
    }

    /// An empty registry.
    pub fn new() -> (m: Self)
        ensures
            m.wf(),
            m.brokers() == Map::<Seq<char>, B>::empty(),
            m.active() is None,
    {
        let m = BrokerManager { brokers: IdMap::new(), active_broker_id: None };
        proof {
            m.lemma_ids_dom();
            assert(m.brokers().dom() =~= Set::<Seq<char>>::empty());
        }
        m
    }

    /// Links `broker` under `id`, replacing a broker with the same id. The
    /// first broker linked becomes the active one. An empty id is refused.
    pub fn register_broker(&mut self, id: String, broker: B) -> (r: Result<(), AppError>)
        requires
            old(self).wf(),
        ensures
            final(self).wf(),
            id@.len() == 0 ==> (r matches Err(AppError::Other(m))
                && m@ == "Broker ID cannot be empty"@) && *final(self) == *old(self),
            id@.len() > 0 ==> {
                &&& r is Ok
                &&& final(self).brokers() == old(self).brokers().insert(id@, broker)
                &&& final(self).active() == (if old(self).active() is None {
                    Some(id@)
                } else {
                    old(self).active()
                })
            },
    {
        if id.as_str().is_empty() {
            return Err(AppError::Other(owned("Broker ID cannot be empty")));
        }
        if self.active_broker_id.is_none() {
            self.active_broker_id = Some(id.clone());
        }
        self.brokers.insert(id, broker);
        proof {
            self.lemma_ids_dom();
            assert(self.brokers().dom().contains(id@));
        }
        Ok(())
    }

    /// Unlinks the broker `broker_id`. When it was the active one, the first
    /// remaining broker becomes active, or none when no broker remains.
    pub fn remove_broker(&mut self, broker_id: &str) -> (r: Result<(), AppError>)
        requires
            old(self).wf(),
        ensures
            final(self).wf(),
            !old(self).brokers().dom().contains(broker_id@) ==> (r matches Err(
                AppError::BrokerNotFound(m),
            ) && m@ == broker_id@) && *final(self) == *old(self),
            old(self).brokers().dom().contains(broker_id@) ==> {
                &&& r is Ok
                &&& final(self).brokers() == old(self).brokers().remove(broker_id@)
                &&& old(self).active() != Some(broker_id@) ==> final(self).active()
                    == old(self).active()
                &&& old(self).active() == Some(broker_id@) ==> final(self).active()
                    == first_id(final(self).ids())
            },
    {
        if !self.brokers.contains_key(broker_id) {
            return Err(AppError::BrokerNotFound(owned(broker_id)));
        }
        let _ = self.brokers.remove(broker_id);
        let was_active = match &self.active_broker_id {
            Some(a) => crate::text::str_eq(a.as_str(), broker_id),
            None => false,
        };
        if was_active {
            self.active_broker_id = self.brokers.first_key();
        }
        proof {
            self.lemma_ids_dom();
            if self.ids().len() > 0 {
                assert(self.brokers().dom().contains(self.ids()[0]));
            } else {
                assert(self.brokers().dom().len() == 0);
                assert(self.brokers().dom().finite()) by {
                    crate::idmap::lemma_entries_map_finite(self.brokers.entries());
                }
            }
        }
        Ok(())
    }

    /// The broker `broker_id`; `BrokerNotFound` when it is not linked.
    pub fn get_broker(&self, broker_id: &str) -> (r: Result<&B, AppError>)
        requires
            self.wf(),
        ensures
            self.brokers().dom().contains(broker_id@) ==> (r matches Ok(b) && *b
                == self.brokers()[broker_id@]),
            !self.brokers().dom().contains(broker_id@) ==> (r matches Err(
                AppError::BrokerNotFound(m),
            ) && m@ == broker_id@),
    {
        match self.brokers.get(broker_id) {
            Some(b) => Ok(b),
            None => Err(AppError::BrokerNotFound(owned(broker_id))),
        }
    }

    /// The broker `broker_id`, to be changed in place; `BrokerNotFound` when
    /// it is not linked.
    pub fn get_broker_mut(&mut self, broker_id: &str) -> (r: Result<&mut B, AppError>)
        requires
            old(self).wf(),
        ensures
            match r {
                Ok(b) => {
                    &&& old(self).brokers().dom().contains(broker_id@)
                    &&& *b == old(self).brokers()[broker_id@]
                    &&& final(self).wf()
                    &&& final(self).brokers() == old(self).brokers().insert(broker_id@, *final(b))
                    &&& final(self).active() == old(self).active()
                },
                Err(e) => {
                    &&& !old(self).brokers().dom().contains(broker_id@)
                    &&& e matches AppError::BrokerNotFound(m) && m@ == broker_id@
                    &&& *final(self) == *old(self)
                },
            },
    {
        match self.brokers.get_mut(broker_id) {
            Some(b) => Ok(b),
            None => Err(AppError::BrokerNotFound(owned(broker_id))),
        }
    }

    /// The active broker, if any.
    pub fn get_active_broker(&self) -> (r: Option<&B>)
        requires
            self.wf(),
        ensures
            match self.active() {
                Some(a) => r matches Some(b) && *b == self.brokers()[a],
                None => r is None,
            },
    {
        match &self.active_broker_id {
            Some(id) => self.brokers.get(id.as_str()),
            None => None,
        }
    }

    /// The active broker, to be changed in place.
    pub fn get_active_broker_mut(&mut self) -> (r: Option<&mut B>)
        requires
            old(self).wf(),
        ensures
            match r {
                Some(b) => {
                    &&& old(self).active() matches Some(a) && *b == old(self).brokers()[a]
                        && final(self).brokers() == old(self).brokers().insert(a, *final(b))
                    &&& final(self).wf()
                    &&& final(self).active() == old(self).active()
                },
                None => old(self).active() is None && *final(self) == *old(self),
            },
    {
        let id = match &self.active_broker_id {
            Some(id) => id.clone(),
            None => return None,
        };
        match self.get_broker_mut(id.as_str()) {
            Ok(b) => Some(b),
            Err(_) => None,
        }
    }

    /// The id of the active broker, if any.
    pub fn get_active_broker_id(&self) -> (r: Option<String>)
        ensures
            match self.active() {
                Some(a) => r matches Some(s) && s@ == a,
                None => r is None,
            },
    {
        match &self.active_broker_id {
            Some(id) => Some(id.clone()),
            None => None,
        }
    }

    /// Makes `broker_id` the active broker; `BrokerNotFound` when it is not
    /// linked.
    pub fn set_active_broker(&mut self, broker_id: &str) -> (r: Result<(), AppError>)
        requires
            old(self).wf(),
        ensures
            final(self).wf(),
            final(self).brokers() == old(self).brokers(),
            old(self).brokers().dom().contains(broker_id@) ==> r is Ok && final(self).active()
                == Some(broker_id@),
            !old(self).brokers().dom().contains(broker_id@) ==> (r matches Err(
                AppError::BrokerNotFound(m),
            ) && m@ == broker_id@) && *final(self) == *old(self),
    {
        if !self.brokers.contains_key(broker_id) {
            return Err(AppError::BrokerNotFound(owned(broker_id)));
        }
        self.active_broker_id = Some(owned(broker_id));
        Ok(())
    }

    /// The linked brokers, in the order they were linked.
    pub fn get_all_brokers(&self) -> (r: Vec<&B>)
        requires
            self.wf(),
        ensures
            r@.len() == self.ids().len(),
            forall|i: int| 0 <= i < r@.len() ==> *r@[i] == self.brokers()[self.ids()[i]],
    {
        let n = self.brokers.len();
        let mut r: Vec<&B> = Vec::new();
        let mut i: usize = 0;
        while i < n
            invariant
                self.wf(),
                n == self.ids().len(),
                i <= n,
                r@.len() == i,
                forall|j: int| 0 <= j < i ==> *r@[j] == self.brokers()[self.ids()[j]],
            decreases n - i,
        {
            let (_, b) = self.brokers.entry_at(i);
            proof {
                crate::idmap::lemma_entries_map_value(self.brokers.entries(), i as int);
            }
            r.push(b);
            i = i + 1;
        }
        r
    }

    /// The ids of the linked brokers, in the order they were linked.
    pub fn broker_ids(&self) -> (r: Vec<String>)
        requires
            self.wf(),
        ensures
            r@.map_values(|s: String| s@) == self.ids(),
    {
        let n = self.brokers.len();
        let mut r: Vec<String> = Vec::new();
        let mut i: usize = 0;
        while i < n
            invariant
                n == self.ids().len(),
                i <= n,
                r@.map_values(|s: String| s@) == self.ids().take(i as int),
            decreases n - i,
        {
            let (k, _) = self.brokers.entry_at(i);
            assert(self.ids()[i as int] == self.brokers.entries()[i as int].0@);
            let ghost before = r@.map_values(|s: String| s@);
            r.push(k.clone());
            assert(r@.map_values(|s: String| s@) =~= before.push(k@));
            assert(self.ids().take(i + 1) =~= self.ids().take(i as int).push(self.ids()[i as int]));
            i = i + 1;
            assert(r@.map_values(|s: String| s@) =~= self.ids().take(i as int));
        }
        assert(self.ids().take(n as int) =~= self.ids());
        r
    }

    /// Whether any broker is linked.
    pub fn has_brokers(&self) -> (b: bool)
        ensures
            b == !self.brokers().dom().is_empty(),
    {
        !self.brokers.is_empty()
    }

}

impl<B: LinkedBroker> BrokerManager<B> {
    /// The description of each linked broker, in the order they were linked:
    /// its id, kind, name, email and whether it is connected.
    pub fn get_linked_brokers(&self) -> (r: Vec<BrokerInfo>)
        requires
            self.wf(),
        ensures
            r@.len() == self.ids().len(),
            forall|i: int|
                0 <= i < r@.len() ==> describes(#[trigger] r@[i], self.ids()[i], self.brokers()[self.ids()[i]]),
            r@.len() == self.brokers().dom().len(),
            forall|i: int, j: int|
                0 <= i < j < r@.len() ==> #[trigger] r@[i].id@ != #[trigger] r@[j].id@,
            forall|k: Seq<char>|
                #[trigger] self.brokers().dom().contains(k) ==> exists|i: int|
                    0 <= i < r@.len() && #[trigger] r@[i].id@ == k,
            forall|i: int|
                0 <= i < r@.len() ==> self.brokers().dom().contains(#[trigger] r@[i].id@) && describes(
                    r@[i],
                    r@[i].id@,
                    self.brokers()[r@[i].id@],
                ),
    {
        let n = self.brokers.len();
        let mut r: Vec<BrokerInfo> = Vec::new();
        let mut i: usize = 0;
        while i < n
            invariant
                self.wf(),
                n == self.ids().len(),
                i <= n,
                r@.len() == i,
                forall|j: int|
                    0 <= j < i ==> describes(#[trigger] r@[j], self.ids()[j], self.brokers()[self.ids()[j]]),
            decreases n - i,
        {
            let (k, b) = self.brokers.entry_at(i);
            proof {
                crate::idmap::lemma_entries_map_value(self.brokers.entries(), i as int);
            }
            assert(self.ids()[i as int] == self.brokers.entries()[i as int].0@);
            let info = broker_info(
                k.as_str(),
                b.kind(),
                b.display_name().as_str(),
                b.current_email().as_str(),
                b.logged_in(),
            );
            r.push(info);
            i = i + 1;
        }
        proof {
            self.lemma_ids_dom();
            assert forall|a: int, c: int| 0 <= a < c < r@.len() implies #[trigger] r@[a].id@
                != #[trigger] r@[c].id@ by {
                assert(self.ids()[a] == self.brokers.entries()[a].0@);
                assert(self.ids()[c] == self.brokers.entries()[c].0@);
            }
            assert forall|k: Seq<char>| #[trigger] self.brokers().dom().contains(k) implies exists|
                a: int,
            | 0 <= a < r@.len() && #[trigger] r@[a].id@ == k by {
                crate::idmap::lemma_entries_map_dom(self.brokers.entries(), k);
                let a = choose|a: int|
                    0 <= a < self.brokers.entries().len() && self.brokers.entries()[a].0@ == k;
                assert(self.ids()[a] == self.brokers.entries()[a].0@);
                assert(r@[a].id@ == k);
            }
        }
        r
    }

    /// Logs every broker out, then unlinks them all; none is active
    /// afterwards.
    pub fn clear_all(&mut self)
        requires
            old(self).wf(),
        ensures
            final(self).wf(),
            final(self).brokers() == Map::<Seq<char>, B>::empty(),
            final(self).active() is None,
    {
        let ids = self.broker_ids();
        let mut i: usize = 0;
        while i < ids.len()
            invariant
                self.wf(),
                i <= ids.len(),
            decreases ids.len() - i,
        {
            match self.get_broker_mut(ids[i].as_str()) {
                Ok(b) => b.logout(),
                Err(_) => {},
            }
            i = i + 1;
        }
        self.brokers.clear();
        self.active_broker_id = None;
        proof {
            self.lemma_ids_dom();
            assert(self.brokers().dom() =~= Set::<Seq<char>>::empty());
        }
    }
}

} // verus!

verus! {

/// In a well-formed registry an active broker exists exactly when some
/// broker is linked, and the active broker is always a linked one.
pub proof fn law_active_is_linked<B>(m: BrokerManager<B>)
    requires
        m.wf(),
    ensures
        m.active() is Some <==> !m.brokers().dom().is_empty(),
        m.active() matches Some(a) ==> m.brokers().dom().contains(a),
{
}

/// A broker registered under a non-empty id is found under that id, and it
/// becomes active when no broker was active before.
pub proof fn law_get_after_register<B>(
    before: BrokerManager<B>,
    after: BrokerManager<B>,
    id: Seq<char>,
    broker: B,
)
    requires
        before.wf(),
        id.len() > 0,
        after.brokers() == before.brokers().insert(id, broker),
        after.active() == (if before.active() is None {
            Some(id)
        } else {
            before.active()
        }),
    ensures
        after.brokers().dom().contains(id),
        after.brokers()[id] == broker,
        before.brokers().dom().is_empty() ==> after.active() == Some(id),
{
    law_active_is_linked(before);
}

/// Once a broker is removed it is no longer found.
pub proof fn law_get_after_remove<B>(
    before: BrokerManager<B>,
    after: BrokerManager<B>,
    id: Seq<char>,
)
    requires
        before.wf(),
        after.wf(),
        after.brokers() == before.brokers().remove(id),
    ensures
        !after.brokers().dom().contains(id),
        after.active() != Some(id),
{
}

} // verus!
