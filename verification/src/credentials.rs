//! Saved broker credentials and the in-memory record they are kept in.

use vstd::prelude::*;
use crate::error::AppError;
use crate::idmap::IdMap;
use crate::text::owned;

verus! {

/// What is kept to restore one broker session. The meaning of the token
/// fields depends on the broker: some brokers keep API keys or account
/// numbers in them.
#[derive(Debug, Clone)]
pub struct StoredCredentials {
    pub broker_type: String,
    pub broker_id: String,
    pub email: String,
    pub access_token: String,
    pub token_type: String,
    pub refresh_token: String,
    pub device_token: String,
}

impl StoredCredentials {
    /// Credentials with every field empty.
    pub fn empty() -> (r: Self)
        ensures
            r.broker_type@ == Seq::<char>::empty(),
            r.broker_id@ == Seq::<char>::empty(),
            r.email@ == Seq::<char>::empty(),
            r.access_token@ == Seq::<char>::empty(),
            r.token_type@ == Seq::<char>::empty(),
            r.refresh_token@ == Seq::<char>::empty(),
            r.device_token@ == Seq::<char>::empty(),
    {
        StoredCredentials {
            broker_type: String::new(),
            broker_id: String::new(),
            email: String::new(),
            access_token: String::new(),
            token_type: String::new(),
            refresh_token: String::new(),
            device_token: String::new(),
        }
    }

    /// An identical copy.
    pub fn duplicate(&self) -> (r: Self)
        ensures
            r == *self,
    {
        StoredCredentials {
            broker_type: self.broker_type.clone(),
            broker_id: self.broker_id.clone(),
            email: self.email.clone(),
            access_token: self.access_token.clone(),
            token_type: self.token_type.clone(),
            refresh_token: self.refresh_token.clone(),
            device_token: self.device_token.clone(),
        }
    }
}

/// The text of the error for a broker with no saved credentials.
pub open spec fn missing_credentials_text(broker_id: Seq<char>) -> Seq<char> {
    "No credentials for broker: "@ + broker_id
}

/// Everything the credential store keeps: a format version, the credentials
/// of each linked broker by broker id, and the id of the broker last used.
pub struct StoredData {
    pub version: u32,
    pub credentials: IdMap<StoredCredentials>,
    pub last_active: String,
}

impl StoredData {
    /// The credential map is well formed.
    pub open spec fn wf(&self) -> bool {
        self.credentials.wf()
    }

    /// A fresh record: version 1, no credentials, no last active broker.
    pub fn new() -> (r: Self)
        ensures
            r.wf(),
            r.version == 1,
            r.credentials@ == Map::<Seq<char>, StoredCredentials>::empty(),
            r.last_active@ == Seq::<char>::empty(),
    {
        StoredData { version: 1, credentials: IdMap::new(), last_active: String::new() }
    }

    /// Records `creds` as the credentials of `broker_id`, replacing any
    /// earlier ones.
    pub fn save_credentials(&mut self, broker_id: &str, creds: &StoredCredentials)
        requires
            old(self).wf(),
        ensures
            final(self).wf(),
            final(self).credentials@ == old(self).credentials@.insert(broker_id@, *creds),
            final(self).version == old(self).version,
            final(self).last_active == old(self).last_active,
    {
        self.credentials.insert(owned(broker_id), creds.duplicate());
    }

    /// A copy of the credentials of `broker_id`; a `CredentialError` naming
    /// the broker when there are none.
    pub fn load_credentials(&self, broker_id: &str) -> (r: Result<StoredCredentials, AppError>)
        requires
            self.wf(),
        ensures
            self.credentials@.dom().contains(broker_id@) ==> r == Ok::<
                StoredCredentials,
                AppError,
            >(self.credentials@[broker_id@]),
            !self.credentials@.dom().contains(broker_id@) ==> (r matches Err(
                AppError::CredentialError(m),
            ) && m@ == missing_credentials_text(broker_id@)),
    {
        match self.credentials.get(broker_id) {
            Some(c) => Ok(c.duplicate()),
            None => {
                let mut m = owned("No credentials for broker: ");
                m.append(broker_id);
                Err(AppError::CredentialError(m))
            },
        }
    }

    /// A copy of every saved credential, in the order they were first saved.
    pub fn load_all_credentials(&self) -> (r: Vec<(String, StoredCredentials)>)
        requires
            self.wf(),
        ensures
            r@.len() == self.credentials.entries().len(),
            forall|i: int|
                0 <= i < r@.len() ==> #[trigger] r@[i] == self.credentials.entries()[i],
    {
        let mut r: Vec<(String, StoredCredentials)> = Vec::new();
        let n = self.credentials.len();
        let mut i: usize = 0;
        while i < n
            invariant
                n == self.credentials.entries().len(),
                i <= n,
                r@.len() == i,
                forall|j: int| 0 <= j < i ==> #[trigger] r@[j] == self.credentials.entries()[j],
            decreases n - i,
        {
            let (k, c) = self.credentials.entry_at(i);
            r.push((k.clone(), c.duplicate()));
            i = i + 1;
        }
        r
    }

    /// Forgets the credentials of `broker_id`, if any.
    pub fn delete_credentials(&mut self, broker_id: &str)
        requires
            old(self).wf(),
        ensures
            final(self).wf(),
            final(self).credentials@ == old(self).credentials@.remove(broker_id@),
            final(self).version == old(self).version,
            final(self).last_active == old(self).last_active,
    {
        let _ = self.credentials.remove(broker_id);
    }

    /// Whether any broker has saved credentials.
    pub fn has_any_credentials(&self) -> (b: bool)
        ensures
            b == !self.credentials@.dom().is_empty(),
    {
        !self.credentials.is_empty()
    }

    /// The id of the broker last used; empty when none was recorded.
    pub fn get_last_active_broker_id(&self) -> (r: &str)
        ensures
            r@ == self.last_active@,
    {
        self.last_active.as_str()
    }

    /// Records `broker_id` as the broker last used.
    pub fn set_last_active_broker_id(&mut self, broker_id: &str)
        requires
            old(self).wf(),
        ensures
            final(self).wf(),
            final(self).last_active@ == broker_id@,
            final(self).credentials == old(self).credentials,
            final(self).version == old(self).version,
    {
        self.last_active = owned(broker_id);
    }
}

} // verus!

verus! {

/// After credentials are saved for a broker, loading that broker's
/// credentials gives them back.
pub proof fn law_load_after_save(
    before: StoredData,
    after: StoredData,
    broker_id: Seq<char>,
    creds: StoredCredentials,
)
    requires
        before.wf(),
        after.credentials@ == before.credentials@.insert(broker_id, creds),
    ensures
        after.credentials@.dom().contains(broker_id),
        after.credentials@[broker_id] == creds,
{
}

/// Saving the credentials of one broker leaves those of every other broker
/// as they were.
pub proof fn law_save_keeps_others(
    before: StoredData,
    after: StoredData,
    broker_id: Seq<char>,
    creds: StoredCredentials,
    other: Seq<char>,
)
    requires
        before.wf(),
        after.credentials@ == before.credentials@.insert(broker_id, creds),
        other != broker_id,
    ensures
        after.credentials@.dom().contains(other) == before.credentials@.dom().contains(other),
        before.credentials@.dom().contains(other) ==> after.credentials@[other]
            == before.credentials@[other],
{
}

/// After a broker's credentials are deleted, loading them fails.
pub proof fn law_load_after_delete(before: StoredData, after: StoredData, broker_id: Seq<char>)
    requires
        before.wf(),
        after.credentials@ == before.credentials@.remove(broker_id),
    ensures
        !after.credentials@.dom().contains(broker_id),
{
}

} // verus!
