// Round trips through the store's decisions, against an in-memory stand-in
// for the remote secret service: a list of items searched by attributes.
use ss_keyring_store::attrs::merge_attributes;
use ss_keyring_store::attrs::check_updatable;
use ss_keyring_store::cred::{get_unique_item, SecretPlan, Specifier};
use ss_keyring_store::errors::StoreError;
use ss_keyring_store::store::Store;

struct Item {
    path: String,
    collection: String,
    label: String,
    attributes: Vec<(String, String)>,
    secret: Vec<u8>,
}

struct Remote {
    next: usize,
    items: Vec<Item>,
}

impl Remote {
    fn new() -> Remote {
        Remote { next: 0, items: Vec::new() }
    }

    fn search(&self, query: &[(String, String)]) -> Vec<String> {
        self.items
            .iter()
            .filter(|item| query.iter().all(|q| item.attributes.contains(q)))
            .map(|item| item.path.clone())
            .collect()
    }

    fn item(&mut self, path: &str) -> Result<&mut Item, StoreError> {
        self.items
            .iter_mut()
            .find(|item| item.path == path)
            .ok_or(StoreError::NoEntry)
    }

    fn create(&mut self, collection: String, label: String, attributes: Vec<(String, String)>, secret: &[u8]) {
        self.next += 1;
        let path = format!("/org/freedesktop/secrets/collection/{}/{}", collection, self.next);
        self.items.push(Item { path, collection, label, attributes, secret: secret.to_vec() });
    }

    fn delete(&mut self, path: &str) -> Result<(), StoreError> {
        let before = self.items.len();
        self.items.retain(|item| item.path != path);
        if self.items.len() == before {
            return Err(StoreError::NoEntry);
        }
        Ok(())
    }
}

fn entry_new(service: &str, user: &str) -> Specifier {
    let store = Store::new("test store".to_string());
    store.build(service, user, None).unwrap_or_else(|err| {
        panic!("Couldn't create entry (service: {service}, user: {user}): {err:?}")
    })
}

fn set_secret(remote: &mut Remote, entry: &Specifier, secret: &[u8]) -> Result<(), StoreError> {
    let found = remote.search(&entry.search_attributes());
    match entry.set_secret(found)? {
        SecretPlan::Update(path) => {
            remote.item(&path)?.secret = secret.to_vec();
        }
        SecretPlan::Create(item) => remote.create(item.collection, item.label, item.attributes, secret),
    }
    Ok(())
}

fn get_secret(remote: &mut Remote, entry: &Specifier) -> Result<Vec<u8>, StoreError> {
    let path = get_unique_item(remote.search(&entry.search_attributes()))?;
    Ok(remote.item(&path)?.secret.clone())
}

fn get_attributes(remote: &mut Remote, entry: &Specifier) -> Result<Vec<(String, String)>, StoreError> {
    let path = get_unique_item(remote.search(&entry.search_attributes()))?;
    Ok(remote.item(&path)?.attributes.clone())
}

fn update_attributes(remote: &mut Remote, entry: &Specifier, updates: &[(&str, &str)]) -> Result<(), StoreError> {
    let updates: Vec<(String, String)> = updates.iter().map(|(k, v)| (k.to_string(), v.to_string())).collect();
    check_updatable(&updates)?;
    let path = get_unique_item(remote.search(&entry.search_attributes()))?;
    let item = remote.item(&path)?;
    item.attributes = merge_attributes(&item.attributes, &updates);
    Ok(())
}

fn delete_credential(remote: &mut Remote, entry: &Specifier) -> Result<(), StoreError> {
    let path = get_unique_item(remote.search(&entry.search_attributes()))?;
    remote.delete(&path)
}

fn set_password(remote: &mut Remote, entry: &Specifier, password: &str) -> Result<(), StoreError> {
    set_secret(remote, entry, password.as_bytes())
}

fn get_password(remote: &mut Remote, entry: &Specifier) -> Result<String, StoreError> {
    let secret = get_secret(remote, entry)?;
    Ok(String::from_utf8(secret).expect("stored password is not UTF-8"))
}

fn value<'a>(attrs: &'a [(String, String)], key: &str) -> Option<&'a str> {
    attrs.iter().find(|(k, _)| k == key).map(|(_, v)| v.as_str())
}

fn generate_random_string() -> String {
    std::iter::repeat_with(fastrand::alphanumeric).take(12).collect()
}

fn generate_random_bytes() -> Vec<u8> {
    std::iter::repeat_with(|| fastrand::u8(..)).take(24).collect()
}

fn test_round_trip_no_delete(remote: &mut Remote, case: &str, entry: &Specifier, in_pass: &str) {
    set_password(remote, entry, in_pass)
        .unwrap_or_else(|err| panic!("Can't set password for {case}: {err:?}"));
    let out_pass = get_password(remote, entry)
        .unwrap_or_else(|err| panic!("Can't get password: {case}: {err:?}"));
    assert_eq!(
        in_pass, out_pass,
        "Passwords don't match for {case}: set='{in_pass}', get='{out_pass}'",
    )
}

fn test_round_trip(remote: &mut Remote, case: &str, entry: &Specifier, in_pass: &str) {
    test_round_trip_no_delete(remote, case, entry, in_pass);
    delete_credential(remote, entry)
        .unwrap_or_else(|err| panic!("Can't delete password: {case}: {err:?}"));
    let password = get_password(remote, entry);
    assert!(
        matches!(password, Err(StoreError::NoEntry)),
        "Got a deleted password: {case}",
    );
}

fn test_round_trip_secret(remote: &mut Remote, case: &str, entry: &Specifier, in_secret: &[u8]) {
    set_secret(remote, entry, in_secret)
        .unwrap_or_else(|err| panic!("Can't set secret for {case}: {err:?}"));
    let out_secret = get_secret(remote, entry)
        .unwrap_or_else(|err| panic!("Can't get secret for {case}: {err:?}"));
    assert_eq!(
        in_secret, &out_secret,
        "Secrets don't match for {case}: set='{in_secret:?}', get='{out_secret:?}'",
    );
    delete_credential(remote, entry)
        .unwrap_or_else(|err| panic!("Can't delete credential for {case}: {err:?}"));
    let secret = get_secret(remote, entry);
    assert!(
        matches!(secret, Err(StoreError::NoEntry)),
        "Got a deleted password: {case}",
    );
}

#[test]
fn test_missing_entry() {
    let mut remote = Remote::new();
    let name = generate_random_string();
    let entry = entry_new(&name, &name);
    assert!(matches!(get_password(&mut remote, &entry), Err(StoreError::NoEntry)))
}

#[test]
fn test_empty_password() {
    let mut remote = Remote::new();
    let name = generate_random_string();
    let in_pass = "";
    let entry = entry_new(&name, &name);
    set_password(&mut remote, &entry, in_pass).unwrap();
    assert_eq!(get_password(&mut remote, &entry).unwrap(), in_pass);
    delete_credential(&mut remote, &entry).unwrap();
}

#[test]
fn test_round_trip_ascii_password() {
    let mut remote = Remote::new();
    let name = generate_random_string();
    let entry = entry_new(&name, &name);
    test_round_trip(&mut remote, "ascii password", &entry, "test ascii password");
}

#[test]
fn test_round_trip_non_ascii_password() {
    let mut remote = Remote::new();
    let name = generate_random_string();
    let entry = entry_new(&name, &name);
    test_round_trip(&mut remote, "non-ascii password", &entry, "このきれいな花は桜です");
}

#[test]
fn test_entries_with_same_and_different_specifiers() {
    let mut remote = Remote::new();
    let name1 = generate_random_string();
    let name2 = generate_random_string();
    let entry1 = entry_new(&name1, &name2);
    let entry2 = entry_new(&name1, &name2);
    let entry3 = entry_new(&name2, &name1);
    set_password(&mut remote, &entry1, "test password").unwrap();
    let pw2 = get_password(&mut remote, &entry2).unwrap();
    assert_eq!(pw2, "test password");
    _ = get_password(&mut remote, &entry3).unwrap_err();
    delete_credential(&mut remote, &entry1).unwrap();
    _ = get_password(&mut remote, &entry2).unwrap_err();
    delete_credential(&mut remote, &entry3).unwrap_err();
}

#[test]
fn test_round_trip_random_secret() {
    let mut remote = Remote::new();
    let name = generate_random_string();
    let entry = entry_new(&name, &name);
    let secret = generate_random_bytes();
    test_round_trip_secret(&mut remote, "non-ascii password", &entry, secret.as_slice());
}

#[test]
fn test_update() {
    let mut remote = Remote::new();
    let name = generate_random_string();
    let entry = entry_new(&name, &name);
    test_round_trip_no_delete(&mut remote, "initial ascii password", &entry, "test ascii password");
    test_round_trip(
        &mut remote,
        "updated non-ascii password",
        &entry,
        "このきれいな花は桜です",
    );
}

#[test]
fn test_get_update_attributes() {
    let mut remote = Remote::new();
    let name1 = generate_random_string();
    let name2 = generate_random_string();
    let entry1 = entry_new(&name1, &name2);
    get_attributes(&mut remote, &entry1).unwrap_err();
    set_password(&mut remote, &entry1, "foobar").unwrap();
    let attrs = get_attributes(&mut remote, &entry1).unwrap();
    assert!(attrs.len() >= 2);
    assert!(value(&attrs, "service").is_some());
    assert_eq!(value(&attrs, "service").unwrap(), name1);
    assert!(value(&attrs, "username").is_some());
    assert_eq!(value(&attrs, "username").unwrap(), name2);
    update_attributes(&mut remote, &entry1, &[("target", "foo")]).unwrap_err();
    update_attributes(&mut remote, &entry1, &[("random", "bar")]).unwrap();
    let attrs = get_attributes(&mut remote, &entry1).unwrap();
    assert!(attrs.len() >= 3);
    assert!(value(&attrs, "random").is_some());
    assert_eq!(value(&attrs, "random").unwrap(), "bar");
    delete_credential(&mut remote, &entry1).unwrap();
}

#[test]
fn test_multiple_create_delete_single_thread() {
    let mut remote = Remote::new();
    let name = generate_random_string();
    let entry = entry_new(&name, &name);
    let repeats = 10;
    for _i in 0..repeats {
        set_password(&mut remote, &entry, &name).unwrap();
        let stored_password = get_password(&mut remote, &entry).unwrap();
        assert_eq!(stored_password, name);
        delete_credential(&mut remote, &entry).unwrap();
        assert!(matches!(get_password(&mut remote, &entry), Err(StoreError::NoEntry)));
    }
}

#[test]
fn recreate_after_delete_returns_new_secret() {
    let mut remote = Remote::new();
    let entry = entry_new("svc", "alice");
    set_secret(&mut remote, &entry, b"first").unwrap();
    delete_credential(&mut remote, &entry).unwrap();
    set_secret(&mut remote, &entry, b"second").unwrap();
    assert_eq!(get_secret(&mut remote, &entry).unwrap(), b"second".to_vec());
    assert_eq!(remote.items.len(), 1);
}

#[test]
fn created_item_has_default_label_and_collection() {
    let mut remote = Remote::new();
    let entry = entry_new("mail", "bob");
    set_password(&mut remote, &entry, "pw").unwrap();
    assert_eq!(remote.items[0].label, "keyring:bob@mail");
    assert_eq!(remote.items[0].collection, "default");
}

#[test]
fn targeted_and_plain_items_are_ambiguous_for_plain_specifier() {
    let mut remote = Remote::new();
    let store = Store::new("test store".to_string());
    let plain = store.build("svc", "carol", None).unwrap();
    let mods = vec![("target".to_string(), "work".to_string())];
    let targeted = store.build("svc", "carol", Some(&mods)).unwrap();
    set_password(&mut remote, &plain, "plain password").unwrap();
    set_password(&mut remote, &targeted, "targeted password").unwrap();
    assert_eq!(remote.items[1].collection, "work");
    assert_eq!(get_password(&mut remote, &targeted).unwrap(), "targeted password");
    match get_password(&mut remote, &plain) {
        Err(StoreError::Ambiguous(wrappers)) => {
            assert_eq!(wrappers.len(), 2);
            assert_ne!(wrappers[0].path, wrappers[1].path);
            remote.delete(&wrappers[0].path).unwrap();
            remote.delete(&wrappers[1].path).unwrap();
        }
        other => panic!("Expected ambiguous error, got {other:?}"),
    }
    assert!(matches!(get_password(&mut remote, &plain), Err(StoreError::NoEntry)));
    assert!(matches!(get_attributes(&mut remote, &plain), Err(StoreError::NoEntry)));
}

#[test]
fn protected_attributes_are_refused_before_any_search() {
    let mut remote = Remote::new();
    let entry = entry_new("svc", "dave");
    for key in ["target", "service", "username"] {
        match update_attributes(&mut remote, &entry, &[(key, "x")]) {
            Err(StoreError::Invalid(k, m)) => {
                assert_eq!(k, key);
                assert_eq!(m, "cannot be updated");
            }
            other => panic!("Expected invalid error, got {other:?}"),
        }
    }
    set_password(&mut remote, &entry, "pw").unwrap();
    update_attributes(&mut remote, &entry, &[("custom", "v")]).unwrap();
    let attrs = get_attributes(&mut remote, &entry).unwrap();
    assert_eq!(value(&attrs, "custom"), Some("v"));
    assert_eq!(value(&attrs, "service"), Some("svc"));
    assert_eq!(value(&attrs, "username"), Some("dave"));
}

#[test]
fn distinct_identities_do_not_mix() {
    let mut remote = Remote::new();
    let entries: Vec<Specifier> = (0..10).map(|i| entry_new(&format!("thread_entry{i}"), &format!("thread_entry{i}"))).collect();
    for (i, entry) in entries.iter().enumerate() {
        set_password(&mut remote, entry, &format!("thread_entry{i}")).unwrap();
    }
    for (i, entry) in entries.iter().enumerate() {
        assert_eq!(get_password(&mut remote, entry).unwrap(), format!("thread_entry{i}"));
        delete_credential(&mut remote, entry).unwrap();
        assert!(matches!(get_password(&mut remote, entry), Err(StoreError::NoEntry)));
    }
}
