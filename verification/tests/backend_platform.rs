//! Storage of secrets.
use pikachat::backend_platform::{
    InMemorySecretStore, ScopedSecretStore, SecretStore, SecretStoreError, SecretTable,
};


#[test]
fn in_memory_roundtrip() {
    let store = InMemorySecretStore::default();
    store
        .set_secret("pikachat", "@alice:example.org", "s3cr3t")
        .expect("set should work");

    let got = store
        .get_secret("pikachat", "@alice:example.org")
        .expect("get should work");
    assert_eq!(got, "s3cr3t");

    store
        .delete_secret("pikachat", "@alice:example.org")
        .expect("delete should work");
    assert_eq!(
        store.get_secret("pikachat", "@alice:example.org"),
        Err(SecretStoreError::NotFound)
    );
}

#[test]
fn scoped_store_isolates_services() {
    let base = InMemorySecretStore::default();
    let a = ScopedSecretStore::new(base.clone(), "pikachat-a");
    let b = ScopedSecretStore::new(base.clone(), "pikachat-b");

    a.set("alice", "one").expect("set a");
    b.set("alice", "two").expect("set b");

    assert_eq!(a.get("alice").expect("get a"), "one");
    assert_eq!(b.get("alice").expect("get b"), "two");
}

#[derive(Default)]
struct FailingStore;

impl SecretStore for FailingStore {
    fn set_secret(
        &self,
        _service: &str,
        _account: &str,
        _secret: &str,
    ) -> Result<(), SecretStoreError> {
        Err(SecretStoreError::Unavailable("mock outage".to_owned()))
    }

    fn get_secret(&self, _service: &str, _account: &str) -> Result<String, SecretStoreError> {
        Err(SecretStoreError::Unavailable("mock outage".to_owned()))
    }

    fn delete_secret(&self, _service: &str, _account: &str) -> Result<(), SecretStoreError> {
        Err(SecretStoreError::Unavailable("mock outage".to_owned()))
    }
}

#[test]
fn mock_failure_propagates_through_scoped_store() {
    let scoped = ScopedSecretStore::new(FailingStore, "pikachat");
    let err = scoped.set("alice", "secret").expect_err("set must fail");
    assert_eq!(err, SecretStoreError::Unavailable("mock outage".to_owned()));
}

#[test]
fn services_of_one_table_are_kept_apart() {
    let mut table = SecretTable::new();
    table.set("a", "alice", "one");
    table.set("b", "alice", "two");
    assert_eq!(table.get("a", "alice"), Ok("one".to_owned()));
    assert_eq!(table.get("b", "alice"), Ok("two".to_owned()));
    assert_eq!(table.delete("a", "alice"), Ok(()));
    assert_eq!(table.get("a", "alice"), Err(SecretStoreError::NotFound));
    assert_eq!(table.delete("a", "alice"), Err(SecretStoreError::NotFound));
    assert_eq!(table.get("b", "alice"), Ok("two".to_owned()));
}
