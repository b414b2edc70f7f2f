//! Platform integrations: storage of secrets by service and account.
use std::sync::Arc;

use vstd::prelude::*;
use vstd::rwlock::{RwLock, RwLockPredicate};

verus! {

/// Failure of a secret store.
#[derive(Debug, Clone, PartialEq, Eq)]
pub enum SecretStoreError {
    /// The store holds no such secret.
    NotFound,
    /// The store cannot be reached.
    Unavailable(String),
    /// The store failed.
    Backend(String),
}

impl SecretStoreError {
    /// Human-readable description.
    pub open spec fn spec_text(self) -> Seq<char> {
        match self {
            SecretStoreError::NotFound => "secret not found"@,
            SecretStoreError::Unavailable(reason) => "secret store unavailable: "@ + reason@,
            SecretStoreError::Backend(reason) => "secret store backend failure: "@ + reason@,
        }
    }

    /// Human-readable description.
    pub fn to_text(&self) -> (text: String)
        ensures
            text@ == self.spec_text(),
    {
        match self {
            SecretStoreError::NotFound => "secret not found".to_owned(),
            SecretStoreError::Unavailable(reason) => {
                let mut text: String = "secret store unavailable: ".to_owned();
                text.append(reason.as_str());
                text
            },
            SecretStoreError::Backend(reason) => {
                let mut text: String = "secret store backend failure: ".to_owned();
                text.append(reason.as_str());
                text
            },
        }
    }

    /// The failure of a system keyring, which either has no such entry or
    /// gives a reason.
    pub fn from_keyring(no_entry: bool, reason: String) -> (error: Self)
        ensures
            error == if no_entry {
                SecretStoreError::NotFound
            } else {
                SecretStoreError::Backend(reason)
            },
    {
        if no_entry {
            SecretStoreError::NotFound
        } else {
            SecretStoreError::Backend(reason)
        }
    }
}

/// Storage of secrets by service and account.
pub trait SecretStore: Send + Sync {
    /// Stores a secret, in place of the one that was there.
    fn set_secret(&self, service: &str, account: &str, secret: &str) -> Result<
        (),
        SecretStoreError,
    >;

    /// Reads a secret.
    fn get_secret(&self, service: &str, account: &str) -> Result<String, SecretStoreError>;

    /// Removes a secret.
    fn delete_secret(&self, service: &str, account: &str) -> Result<(), SecretStoreError>;
}

struct SecretEntry {
    service: String,
    account: String,
    secret: String,
}

/// Secrets by service and account.
pub struct SecretTable {
    entries: Vec<SecretEntry>,
}

/// What identifies a secret: its service and its account.
pub type SecretKey = (Seq<char>, Seq<char>);

spec fn key_of(entry: SecretEntry) -> SecretKey {
    (entry.service@, entry.account@)
}

spec fn keys_are_distinct(entries: Seq<SecretEntry>) -> bool {
    forall|i: int, j: int|
        0 <= i < j < entries.len() ==> key_of(entries[i]) != key_of(entries[j])
}

spec fn holds_key(entries: Seq<SecretEntry>, key: SecretKey) -> bool {
    exists|i: int| 0 <= i < entries.len() && key_of(entries[i]) == key
}

spec fn index_of_key(entries: Seq<SecretEntry>, key: SecretKey) -> int {
    choose|i: int| 0 <= i < entries.len() && key_of(entries[i]) == key
}

spec fn table_map(entries: Seq<SecretEntry>) -> Map<SecretKey, Seq<char>> {
    Map::new(
        |key: SecretKey| holds_key(entries, key),
        |key: SecretKey| entries[index_of_key(entries, key)].secret@,
    )
}

proof fn lemma_index_of_key(entries: Seq<SecretEntry>, index: int)
    requires
        keys_are_distinct(entries),
        0 <= index < entries.len(),
    ensures
        holds_key(entries, key_of(entries[index])),
        index_of_key(entries, key_of(entries[index])) == index,
{
    let found = index_of_key(entries, key_of(entries[index]));
    assert(0 <= found < entries.len() && key_of(entries[found]) == key_of(entries[index]));
    if found < index {
        assert(key_of(entries[found]) != key_of(entries[index]));
    } else if found > index {
        assert(key_of(entries[index]) != key_of(entries[found]));
    }
}

impl View for SecretTable {
    type V = Map<SecretKey, Seq<char>>;

    closed spec fn view(&self) -> Map<SecretKey, Seq<char>> {
        table_map(self.entries@)
    }
}

impl SecretTable {
    #[verifier::type_invariant]
    spec fn is_well_formed(self) -> bool {
        keys_are_distinct(self.entries@)
    }

    /// A table without secrets.
    pub fn new() -> (table: Self)
        ensures
            table@ == Map::<SecretKey, Seq<char>>::empty(),
    {
        let table = SecretTable { entries: Vec::new() };
        proof {
            assert(table@ =~= Map::<SecretKey, Seq<char>>::empty());
        }
        table
    }

    fn find(&self, service: &str, account: &str) -> (found: Option<usize>)
        ensures
            match found {
                Some(index) => index < self.entries@.len() && key_of(self.entries@[index as int])
                    == (service@, account@),
                None => !holds_key(self.entries@, (service@, account@)),
            },
    {
        let mut at: usize = 0;
        while at < self.entries.len()
            invariant
                at <= self.entries@.len(),
                forall|i: int|
                    0 <= i < at ==> key_of(self.entries@[i]) != (service@, account@),
            decreases self.entries@.len() - at,
        {
            let entry = &self.entries[at];
            if *entry.service.as_str() == *service && *entry.account.as_str() == *account {
                return Some(at);
            }
            at += 1;
        }
        None
    }

    /// Stores a secret, in place of the one that was there.
    pub fn set(&mut self, service: &str, account: &str, secret: &str)
        ensures
            final(self)@ == old(self)@.insert((service@, account@), secret@),
    {
        proof {
            use_type_invariant(&*self);
        }
        let ghost key = (service@, account@);
        let ghost before = self.entries@;
        let found = self.find(service, account);
        let entry = SecretEntry {
            service: service.to_owned(),
            account: account.to_owned(),
            secret: secret.to_owned(),
        };
        let mut entries: Vec<SecretEntry> = Vec::new();
        std::mem::swap(&mut entries, &mut self.entries);
        match found {
            Some(index) => {
                entries.set(index, entry);
                proof {
                    assert(keys_are_distinct(entries@)) by {
                        assert forall|i: int| 0 <= i < entries@.len() implies key_of(entries@[i])
                            == key_of(before[i]) by {}
                    }
                    lemma_index_of_key(entries@, index as int);
                    assert forall|other: SecretKey| true implies holds_key(entries@, other)
                        == holds_key(before, other) by {
                        lemma_same_keys(before, entries@, other);
                    }
                    assert forall|other: SecretKey|
                        other != key && holds_key(before, other) implies entries@[index_of_key(
                        entries@,
                        other,
                    )] == before[index_of_key(before, other)] by {
                        lemma_same_keys(before, entries@, other);
                        let i = index_of_key(before, other);
                        assert(0 <= i < before.len() && key_of(before[i]) == other);
                        lemma_index_of_key(entries@, i);
                    }
                    assert(table_map(entries@) =~= table_map(before).insert(key, secret@));
                }
            },
            None => {
                entries.push(entry);
                proof {
                    let last = entries@.len() - 1;
                    assert forall|i: int, j: int| 0 <= i < j < entries@.len() implies key_of(
                        entries@[i],
                    ) != key_of(entries@[j]) by {
                        assert(entries@[i] == before[i]);
                        if j < last {
                            assert(entries@[j] == before[j]);
                        }
                    }
                    lemma_index_of_key(entries@, last);
                    assert forall|other: SecretKey| other != key implies holds_key(entries@, other)
                        == holds_key(before, other) by {
                        if holds_key(before, other) {
                            let i = index_of_key(before, other);
                            assert(key_of(entries@[i]) == other);
                        }
                        if holds_key(entries@, other) {
                            let i = index_of_key(entries@, other);
                            assert(i < last);
                            assert(key_of(before[i]) == other);
                        }
                    }
                    assert forall|other: SecretKey|
                        other != key && holds_key(before, other) implies entries@[index_of_key(
                        entries@,
                        other,
                    )] == before[index_of_key(before, other)] by {
                        let i = index_of_key(before, other);
                        assert(0 <= i < before.len() && key_of(before[i]) == other);
                        assert(entries@[i] == before[i]);
                        lemma_index_of_key(entries@, i);
                    }
                    assert(table_map(entries@) =~= table_map(before).insert(key, secret@));
                }
            },
        }
        self.entries = entries;
    }

    /// Reads a secret.
    pub fn get(&self, service: &str, account: &str) -> (result: Result<String, SecretStoreError>)
        ensures
            match result {
                Ok(secret) => self@.dom().contains((service@, account@)) && secret@ == self@[(
                    service@,
                    account@,
                )],
                Err(error) => error is NotFound && !self@.dom().contains((service@, account@)),
            },
    {
        proof {
            use_type_invariant(self);
        }
        match self.find(service, account) {
            Some(index) => {
                proof {
                    lemma_index_of_key(self.entries@, index as int);
                }
                Ok(self.entries[index].secret.clone())
            },
            None => Err(SecretStoreError::NotFound),
        }
    }

    /// Removes a secret; there must be one.
    pub fn delete(&mut self, service: &str, account: &str) -> (result: Result<
        (),
        SecretStoreError,
    >)
        ensures
            final(self)@ == old(self)@.remove((service@, account@)),
            match result {
                Ok(_) => old(self)@.dom().contains((service@, account@)),
                Err(error) => error is NotFound && !old(self)@.dom().contains(
                    (service@, account@),
                ),
            },
    {
        proof {
            use_type_invariant(&*self);
        }
        let ghost key = (service@, account@);
        let ghost before = self.entries@;
        match self.find(service, account) {
            Some(index) => {
                let mut entries: Vec<SecretEntry> = Vec::new();
                std::mem::swap(&mut entries, &mut self.entries);
                let _removed = entries.remove(index);
                proof {
                    lemma_index_of_key(before, index as int);
                    assert forall|i: int, j: int| 0 <= i < j < entries@.len() implies key_of(
                        entries@[i],
                    ) != key_of(entries@[j]) by {
                        assert(entries@[i] == before[if i < index { i } else { i + 1 }]);
                        assert(entries@[j] == before[if j < index { j } else { j + 1 }]);
                    }
                    assert forall|other: SecretKey| true implies holds_key(entries@, other) == (
                    other != key && holds_key(before, other)) by {
                        if holds_key(entries@, other) {
                            let i = index_of_key(entries@, other);
                            let k = if i < index { i } else { i + 1 };
                            assert(entries@[i] == before[k]);
                            lemma_index_of_key(before, k);
                            assert(k != index);
                        }
                        if other != key && holds_key(before, other) {
                            let k = index_of_key(before, other);
                            assert(key_of(before[k]) == other);
                            let i = if k < index { k } else { k - 1 };
                            assert(entries@[i] == before[k]);
                        }
                    }
                    assert forall|other: SecretKey|
                        other != key && holds_key(before, other) implies entries@[index_of_key(
                        entries@,
                        other,
                    )] == before[index_of_key(before, other)] by {
                        let k = index_of_key(before, other);
                        assert(key_of(before[k]) == other);
                        let i = if k < index { k } else { k - 1 };
                        assert(entries@[i] == before[k]);
                        lemma_index_of_key(entries@, i);
                    }
                    assert(table_map(entries@) =~= table_map(before).remove(key));
                }
                self.entries = entries;
                Ok(())
            },
            None => {
                proof {
                    assert(self@ =~= self@.remove(key));
                }
                Err(SecretStoreError::NotFound)
            },
        }
    }
}

proof fn lemma_same_keys(before: Seq<SecretEntry>, after: Seq<SecretEntry>, key: SecretKey)
    requires
        before.len() == after.len(),
        forall|i: int| 0 <= i < before.len() ==> key_of(#[trigger] after[i]) == key_of(before[i]),
    ensures
        holds_key(after, key) == holds_key(before, key),
{
    if holds_key(before, key) {
        let i = index_of_key(before, key);
        assert(key_of(after[i]) == key);
    }
    if holds_key(after, key) {
        let i = index_of_key(after, key);
        assert(key_of(before[i]) == key);
    }
}

/// A secret is read back as it was stored, until it is overwritten or deleted;
/// and storing or deleting one leaves every other secret as it is, that of the
/// same account under another service among them.
pub proof fn lemma_secrets_round_trip(
    secrets: Map<SecretKey, Seq<char>>,
    key: SecretKey,
    other: SecretKey,
    secret: Seq<char>,
)
    requires
        other != key,
    ensures
        secrets.insert(key, secret).dom().contains(key),
        secrets.insert(key, secret)[key] == secret,
        !secrets.insert(key, secret).remove(key).dom().contains(key),
        secrets.insert(key, secret).dom().contains(other) == secrets.dom().contains(other),
        secrets.dom().contains(other) ==> secrets.insert(key, secret)[other] == secrets[other],
        secrets.remove(key).dom().contains(other) == secrets.dom().contains(other),
        secrets.dom().contains(other) ==> secrets.remove(key)[other] == secrets[other],
{
}

/// Two services that share a table keep their secrets of the same account apart: each reads
/// what it stored, and removing one leaves the other.
pub proof fn lemma_services_are_kept_apart(
    secrets: Map<SecretKey, Seq<char>>,
    service: Seq<char>,
    other_service: Seq<char>,
    account: Seq<char>,
    secret: Seq<char>,
    other_secret: Seq<char>,
)
    requires
        service != other_service,
    ensures
        ({
            let stored = secrets.insert((service, account), secret).insert(
                (other_service, account),
                other_secret,
            );
            let removed = stored.remove((service, account));
            &&& stored.dom().contains((service, account))
            &&& stored[(service, account)] == secret
            &&& stored.dom().contains((other_service, account))
            &&& stored[(other_service, account)] == other_secret
            &&& !removed.dom().contains((service, account))
            &&& removed.dom().contains((other_service, account))
            &&& removed[(other_service, account)] == other_secret
        }),
{
}

/// A secret that was stored is read back as it was, one that was removed is not found, and every
/// other secret stays; removing one that is not there says so and changes nothing.
pub proof fn lemma_table_keeps_secrets(key: SecretKey)
    ensures
        forall|table: &mut SecretTable, service: &str, account: &str, secret: &str|
            #[trigger] call_ensures(SecretTable::set, (table, service, account, secret), ()) ==> {
                let after = final(table)@;
                &&& after.dom().contains((service@, account@))
                &&& after[(service@, account@)] == secret@
                &&& key != (service@, account@) ==> after.dom().contains(key)
                    == (*table)@.dom().contains(key)
                &&& key != (service@, account@) && after.dom().contains(key) ==> after[key] == (
                *table)@[key]
            },
        forall|
            table: &mut SecretTable,
            service: &str,
            account: &str,
            result: Result<(), SecretStoreError>,
        |
            #[trigger] call_ensures(SecretTable::delete, (table, service, account), result) ==> {
                let after = final(table)@;
                &&& !after.dom().contains((service@, account@))
                &&& result is Ok <==> (*table)@.dom().contains((service@, account@))
                &&& result is Err ==> result->Err_0 is NotFound
                &&& key != (service@, account@) ==> after.dom().contains(key)
                    == (*table)@.dom().contains(key)
                &&& key != (service@, account@) && after.dom().contains(key) ==> after[key] == (
                *table)@[key]
            },
        forall|
            table: &SecretTable,
            service: &str,
            account: &str,
            result: Result<String, SecretStoreError>,
        |
            #[trigger] call_ensures(SecretTable::get, (table, service, account), result) ==> {
                &&& result is Ok <==> table@.dom().contains((service@, account@))
                &&& result is Ok ==> result->Ok_0@ == table@[(service@, account@)]
                &&& result is Err ==> result->Err_0 is NotFound
            },
{
}

/// A failure of a store is told with its reason, and the three kinds are told apart; a keyring
/// without an entry is a store without the secret.
pub proof fn lemma_store_failures_are_told_apart(
    no_entry: bool,
    reason: String,
    failure: SecretStoreError,
)
    requires
        call_ensures(SecretStoreError::from_keyring, (no_entry, reason), failure),
    ensures
        failure is NotFound <==> no_entry,
        !no_entry ==> failure == SecretStoreError::Backend(reason),
        SecretStoreError::NotFound.spec_text() == "secret not found"@,
        SecretStoreError::Unavailable(reason).spec_text() == "secret store unavailable: "@
            + reason@,
        SecretStoreError::Backend(reason).spec_text() == "secret store backend failure: "@
            + reason@,
{
}

/// Any table may stand behind the lock.
pub struct AnyTable;

impl RwLockPredicate<SecretTable> for AnyTable {
    open spec fn inv(self, table: SecretTable) -> bool {
        true
    }
}

/// Secret store in memory; clones share their secrets.
///
/// What a call finds in the table is up to every clone that shares it, so the contracts here
/// say which answers there are; what a call does to the table is stated on [`SecretTable`].
#[derive(Clone)]
pub struct InMemorySecretStore {
    data: Arc<RwLock<SecretTable, AnyTable>>,
}

impl Default for InMemorySecretStore {
    fn default() -> Self {
        InMemorySecretStore {
            data: Arc::new(RwLock::new(SecretTable::new(), Ghost(AnyTable))),
        }
    }
}

impl SecretStore for InMemorySecretStore {
    /// Stores the secret in the shared table by [`SecretTable::set`].
    fn set_secret(&self, service: &str, account: &str, secret: &str) -> (result: Result<
        (),
        SecretStoreError,
    >)
        ensures
            result is Ok,
    {
        let (table, handle) = self.data.acquire_write();
        let mut table = table;
        table.set(service, account, secret);
        handle.release_write(table);
        Ok(())
    }

    /// Reads the secret from the shared table by [`SecretTable::get`].
    fn get_secret(&self, service: &str, account: &str) -> (result: Result<
        String,
        SecretStoreError,
    >)
        ensures
            result matches Err(error) ==> error is NotFound,
    {
        let handle = self.data.acquire_read();
        let result = handle.borrow().get(service, account);
        handle.release_read();
        result
    }

    /// Removes the secret from the shared table by [`SecretTable::delete`].
    fn delete_secret(&self, service: &str, account: &str) -> (result: Result<
        (),
        SecretStoreError,
    >)
        ensures
            result matches Err(error) ==> error is NotFound,
    {
        let (table, handle) = self.data.acquire_write();
        let mut table = table;
        let result = table.delete(service, account);
        handle.release_write(table);
        result
    }
}

/// A store bound to one service.
#[derive(Clone)]
pub struct ScopedSecretStore<S: SecretStore> {
    inner: S,
    service: String,
}

impl<S: SecretStore> ScopedSecretStore<S> {
    /// The store behind.
    pub closed spec fn store(self) -> S {
        self.inner
    }

    /// The service that every call names.
    pub closed spec fn service_name(self) -> Seq<char> {
        self.service@
    }

    /// Binds a store to a service.
    pub fn new(inner: S, service: &str) -> (scoped: Self)
        ensures
            scoped.store() == inner,
            scoped.service_name() == service@,
    {
        ScopedSecretStore { inner, service: service.to_owned() }
    }

    /// Stores a secret of the service; the answer is that of the store behind.
    pub fn set(&self, account: &str, secret: &str) -> (result: Result<(), SecretStoreError>)
        ensures
            exists|service: &str| #[trigger]
                service@ == self.service_name() && call_ensures(
                    S::set_secret,
                    (&self.store(), service, account, secret),
                    result,
                ),
    {
        self.inner.set_secret(self.service.as_str(), account, secret)
    }

    /// Reads a secret of the service; the answer is that of the store behind.
    pub fn get(&self, account: &str) -> (result: Result<String, SecretStoreError>)
        ensures
            exists|service: &str| #[trigger]
                service@ == self.service_name() && call_ensures(
                    S::get_secret,
                    (&self.store(), service, account),
                    result,
                ),
    {
        self.inner.get_secret(self.service.as_str(), account)
    }

    /// Removes a secret of the service; the answer is that of the store behind.
    pub fn delete(&self, account: &str) -> (result: Result<(), SecretStoreError>)
        ensures
            exists|service: &str| #[trigger]
                service@ == self.service_name() && call_ensures(
                    S::delete_secret,
                    (&self.store(), service, account),
                    result,
                ),
    {
        self.inner.delete_secret(self.service.as_str(), account)
    }
}

} // verus!
