use herdr_federation::origin::{ConnectionTarget, Origin, OriginKey};
use herdr_federation::path::UnixPath;

fn socket(path: &str) -> ConnectionTarget {
    ConnectionTarget::LocalSocket(UnixPath::from_string(path.to_string()))
}

#[test]
fn origin_key_is_stable_string() {
    let key = OriginKey::new("nABC123CNTRL").unwrap();
    assert_eq!(key.as_str(), "nABC123CNTRL");
    assert_eq!(key.to_string(), "nABC123CNTRL");
    assert_eq!(key, OriginKey::try_from(String::from("nABC123CNTRL")).unwrap());
}

#[test]
fn origin_key_accepts_static_style_keys() {
    assert!(OriginKey::new("static-box").is_ok());
    assert!(OriginKey::new("sess_a").is_ok());
    assert!(OriginKey::new("mini.local").is_ok());
}

#[test]
fn origin_key_rejects_namespacing_separator() {
    assert!(OriginKey::new("my~box").is_err());
    assert!(OriginKey::new("~").is_err());
}

#[test]
fn origin_key_rejects_path_and_control_characters() {
    assert!(OriginKey::new("").is_err());
    assert!(OriginKey::new("a/b").is_err());
    assert!(OriginKey::new("a\\b").is_err());
    assert!(OriginKey::new("..").is_err());
    assert!(OriginKey::new("a..b").is_err());
    assert!(OriginKey::new("../../etc/passwd").is_err());
    assert!(OriginKey::new("a b").is_err());
    assert!(OriginKey::new("a\tb").is_err());
    assert!(OriginKey::new("a\u{7}b").is_err());
}

#[test]
fn origin_key_deserialization_validates() {
    let read = |text: &str| OriginKey::try_from(serde_json::from_str::<String>(text).unwrap());
    assert!(read("\"nABC123CNTRL\"").is_ok());
    assert!(read("\"my~box\"").is_err());
    assert!(read("\"../escape\"").is_err());
}

#[test]
fn origin_carries_label_and_target_separately() {
    let origin = Origin::new(
        OriginKey::new("n1").unwrap(),
        "trilliums-mini",
        socket("/tmp/mini1.sock"),
    );
    assert_eq!(origin.key, OriginKey::new("n1").unwrap());
    assert_eq!(origin.label, "trilliums-mini");
    assert_eq!(origin.target, socket("/tmp/mini1.sock"));
}

#[test]
fn rejections_name_the_key_and_the_first_broken_rule() {
    let message = |key: &str| OriginKey::new(key).unwrap_err().to_string();
    assert_eq!(message(""), "invalid origin key \"\": must not be empty");
    assert_eq!(
        message("a~/..b c"),
        "invalid origin key \"a~/..b c\": must not contain the '~' namespacing separator"
    );
    assert_eq!(
        message("a/..b c"),
        "invalid origin key \"a/..b c\": must not contain path separators"
    );
    assert_eq!(
        message("a..b c"),
        "invalid origin key \"a..b c\": must not contain '..'"
    );
    assert_eq!(
        message("a\tb"),
        "invalid origin key \"a\\tb\": must not contain whitespace or control characters"
    );
}

#[test]
fn targets_are_compared_by_path_components() {
    assert_eq!(socket("/tmp//a.sock"), socket("/tmp/./a.sock"));
    assert_ne!(socket("/tmp/a.sock"), socket("tmp/a.sock"));
    assert_eq!(socket("/tmp/a.sock").socket_path().as_str(), "/tmp/a.sock");
}

#[test]
fn keys_can_be_sorted_and_hashed() {
    let key = |text: &str| OriginKey::new(text).unwrap();
    let sorted: std::collections::BTreeSet<OriginKey> =
        [key("b"), key("a"), key("ab"), key("a")].into_iter().collect();
    let texts: Vec<String> = sorted.iter().map(|key| key.to_string()).collect();
    assert_eq!(texts, vec!["a", "ab", "b"]);
    let hashed: std::collections::HashSet<OriginKey> = sorted.into_iter().collect();
    assert!(hashed.contains(&key("ab")));
    assert!(!hashed.contains(&key("c")));
}
