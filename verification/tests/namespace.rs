use herdr_federation::namespace::{
    is_foreign, is_foreign_workspace_id, namespace_public_id, namespace_terminal_id,
    parse_foreign_terminal_id, parse_foreign_workspace_id,
};
use herdr_federation::origin::OriginKey;
use herdr_federation::terminal::TerminalId;

#[test]
fn namespacing_round_trips() {
    let origin = OriginKey::new("nABC123CNTRL").unwrap();
    let raw = TerminalId::from_string("term_18f2a3c1");

    let foreign = namespace_terminal_id(&origin, &raw);
    assert_eq!(foreign.as_str(), "fed~nABC123CNTRL~term_18f2a3c1");
    assert!(is_foreign(&foreign));

    let (parsed_origin, parsed_raw) = parse_foreign_terminal_id(&foreign).unwrap();
    assert_eq!(parsed_origin, origin);
    assert_eq!(parsed_raw, raw);
}

#[test]
fn public_id_namespacer_shares_terminal_shape() {
    let origin = OriginKey::new("n1").unwrap();
    assert_eq!(namespace_public_id(&origin, "w5"), "fed~n1~w5");
    assert_eq!(
        namespace_terminal_id(&origin, &TerminalId::from_string("term_1")).as_str(),
        namespace_public_id(&origin, "term_1")
    );
}

#[test]
fn local_ids_are_not_foreign() {
    let local = TerminalId::from_string("term_18f2a3c1");
    assert!(!is_foreign(&local));
    assert!(parse_foreign_terminal_id(&local).is_none());
}

#[test]
fn distinct_origins_never_collide() {
    let raw = TerminalId::from_string("term_1");
    let a = namespace_terminal_id(&OriginKey::new("n1").unwrap(), &raw);
    let b = namespace_terminal_id(&OriginKey::new("n2").unwrap(), &raw);
    assert_ne!(a, b);
}

#[test]
fn malformed_foreign_ids_reject() {
    for malformed in ["fed~n1", "fed~~raw", "fed~n1~"] {
        let id = TerminalId::from_string(malformed);
        assert!(parse_foreign_terminal_id(&id).is_none(), "{malformed}");
        assert!(!is_foreign(&id), "{malformed}");
    }
}

#[test]
fn origin_keys_that_would_alias_are_unrepresentable() {
    assert!(OriginKey::new("my~box").is_err());

    let id = TerminalId::from_string("fed~my~box~term_1");
    let (origin, raw) = parse_foreign_terminal_id(&id).unwrap();
    assert_eq!(origin, OriginKey::new("my").unwrap());
    assert_eq!(raw.as_str(), "box~term_1");
}

#[test]
fn foreign_ids_with_an_invalid_key_reject() {
    for malformed in ["fed~a b~raw", "fed~..~raw", "fed~a/b~raw", "fed~", "fe", "", "FED~n1~raw"] {
        let id = TerminalId::from_string(malformed);
        assert!(parse_foreign_terminal_id(&id).is_none(), "{malformed}");
        assert!(!is_foreign_workspace_id(malformed), "{malformed}");
    }
}

#[test]
fn workspace_ids_parse_like_terminal_ids() {
    let key = OriginKey::new("n1").unwrap();
    let id = namespace_public_id(&key, "w1");
    assert!(is_foreign_workspace_id(&id));
    let (origin, raw) = parse_foreign_workspace_id(&id).unwrap();
    assert_eq!(origin, key);
    assert_eq!(raw, "w1");
    assert!(parse_foreign_workspace_id("w1").is_none());
}

#[test]
fn parsing_and_namespacing_undo_each_other() {
    for key in ["n1", "mini.local", "static-box", "ünïcode"] {
        let origin = OriginKey::new(key).unwrap();
        for raw in ["w1", "a~b", "~", "fed~n1~x", " spaced "] {
            let id = namespace_public_id(&origin, raw);
            let (parsed_origin, parsed_raw) = parse_foreign_workspace_id(&id).unwrap();
            assert_eq!(parsed_origin.as_str(), key);
            assert_eq!(parsed_raw, raw);
            assert_eq!(namespace_public_id(&parsed_origin, &parsed_raw), id);
        }
    }
}
