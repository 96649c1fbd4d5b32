use herdr_federation::origin::{ConnectionTarget, Origin, OriginKey};
use herdr_federation::path::UnixPath;
use herdr_federation::registry::{FederationRegistry, ReconcileDelta};

fn key(text: &str) -> OriginKey {
    OriginKey::new(text).unwrap()
}

fn origin(text: &str, label: &str, sock: &str) -> Origin {
    Origin::new(
        key(text),
        label,
        ConnectionTarget::LocalSocket(UnixPath::from_string(sock.to_string())),
    )
}

#[test]
fn upsert_keys_by_durable_id_not_label() {
    let mut reg = FederationRegistry::new();
    reg.upsert(origin("n1", "old-name", "/tmp/a.sock"));
    let prev = reg.upsert(origin("n1", "new-name", "/tmp/b.sock"));

    assert_eq!(prev.map(|o| o.label), Some("old-name".to_string()));
    assert_eq!(reg.len(), 1);
    assert_eq!(reg.get(&key("n1")).unwrap().label, "new-name");
}

#[test]
fn iter_is_deterministic_key_order() {
    let mut reg = FederationRegistry::new();
    reg.upsert(origin("n3", "c", "/tmp/c.sock"));
    reg.upsert(origin("n1", "a", "/tmp/a.sock"));
    reg.upsert(origin("n2", "b", "/tmp/b.sock"));

    let keys: Vec<String> = reg.keys().into_iter().map(|k| k.to_string()).collect();
    assert_eq!(keys, vec!["n1", "n2", "n3"]);
    let labels: Vec<&str> = reg.iter().into_iter().map(|o| o.label.as_str()).collect();
    assert_eq!(labels, vec!["a", "b", "c"]);
}

#[test]
fn reconcile_reports_added_updated_removed() {
    let mut reg = FederationRegistry::new();
    reg.upsert(origin("n1", "a", "/tmp/a.sock"));
    reg.upsert(origin("n2", "b", "/tmp/b.sock"));

    let delta = reg.reconcile(vec![
        origin("n1", "a", "/tmp/a.sock"),
        origin("n2", "b-renamed", "/tmp/b.sock"),
        origin("n3", "c", "/tmp/c.sock"),
    ]);

    assert_eq!(delta.added, vec![key("n3")]);
    assert_eq!(delta.updated, vec![key("n2")]);
    assert!(delta.removed.is_empty());
    assert_eq!(reg.len(), 3);

    // Next pass drops n1 and n2.
    let delta = reg.reconcile(vec![origin("n3", "c", "/tmp/c.sock")]);
    assert!(delta.added.is_empty());
    assert!(delta.updated.is_empty());
    assert_eq!(delta.removed, vec![key("n1"), key("n2")]);
    assert_eq!(reg.len(), 1);
}

#[test]
fn reconcile_to_empty_removes_all() {
    let mut reg = FederationRegistry::new();
    reg.upsert(origin("n1", "a", "/tmp/a.sock"));
    let delta = reg.reconcile(vec![]);
    assert_eq!(delta.removed, vec![key("n1")]);
    assert!(reg.is_empty());
}

#[test]
fn reconciling_the_same_pass_again_changes_nothing() {
    let pass = || vec![origin("n2", "b", "/b"), origin("n1", "a", "/a")];
    let mut reg = FederationRegistry::default();
    assert!(!reg.reconcile(pass()).is_empty());
    assert!(reg.reconcile(pass()).is_empty());
    assert_eq!(reg.reconcile(pass()), ReconcileDelta::default());
}

#[test]
fn a_new_key_named_twice_is_added_once() {
    let mut reg = FederationRegistry::new();
    let delta =
        reg.reconcile(vec![origin("n1", "a", "/tmp/a.sock"), origin("n1", "b", "/tmp/b.sock")]);
    assert_eq!(delta.added, vec![key("n1")]);
    assert!(delta.updated.is_empty());
    assert!(delta.removed.is_empty());
    assert_eq!(reg.len(), 1);
    assert_eq!(reg.get(&key("n1")).unwrap().label, "b");
}

#[test]
fn a_persisting_key_named_twice_is_judged_by_its_last_origin() {
    let start = || {
        let mut reg = FederationRegistry::new();
        reg.upsert(origin("n1", "a", "/a"));
        reg
    };
    let mut reg = start();
    let delta = reg.reconcile(vec![origin("n1", "b", "/a"), origin("n1", "a", "/a")]);
    assert!(delta.is_empty());
    let mut reg = start();
    let delta = reg.reconcile(vec![origin("n1", "b", "/a"), origin("n1", "c", "/a")]);
    assert_eq!(delta.updated, vec![key("n1")]);
    assert!(delta.added.is_empty());
    assert_eq!(reg.get(&key("n1")).unwrap().label, "c");
}

#[test]
fn removal_gives_the_origin_back() {
    let mut reg = FederationRegistry::new();
    reg.upsert(origin("n1", "a", "/a"));
    let copy = reg.clone();
    assert!(reg.contains(&key("n1")));
    assert_eq!(reg.remove(&key("n1")), Some(origin("n1", "a", "/a")));
    assert_eq!(reg.remove(&key("n1")), None);
    assert!(!reg.contains(&key("n1")));
    assert!(reg.get(&key("n1")).is_none());
    assert!(copy.contains(&key("n1")));
}

#[test]
fn keys_are_ordered_like_texts() {
    let mut texts = vec!["b", "a", "ab", "B", "é", "z", "a-1", "a.1", "𝄞", "\u{fb01}"];
    let mut reg = FederationRegistry::new();
    for text in &texts {
        reg.upsert(origin(text, "x", "/x"));
    }
    let keys: Vec<&str> = reg.keys().into_iter().map(|k| k.as_str()).collect();
    texts.sort();
    assert_eq!(keys, texts);
}
