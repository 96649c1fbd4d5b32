use herdr_federation::label::{
    local_origin_prefix, origin_label_prefix, prefixed_workspace_label, LocalPrefix,
    ORIGIN_LABEL_PREFIX_CHARS,
};

#[test]
fn prefix_truncates_to_five_chars() {
    assert_eq!(origin_label_prefix("macbook"), "macbo");
    assert_eq!(origin_label_prefix("mini1"), "mini1");
    assert_eq!(origin_label_prefix("mini2"), "mini2");
    assert_eq!(origin_label_prefix("trilliums-mini"), "trill");
    // Five characters, not five bytes.
    assert_eq!(origin_label_prefix("münchen"), "münch");
}

#[test]
fn prefix_handles_empty_and_short_labels() {
    assert_eq!(origin_label_prefix(""), "");
    assert_eq!(origin_label_prefix("   "), "");
    assert_eq!(origin_label_prefix("ab"), "ab");
}

#[test]
fn local_prefix_is_stable_and_cached() {
    for hostname in [None, Some("macbook-pro"), Some("box"), Some("  \t")] {
        let mut local = LocalPrefix::new();
        assert!(!local.is_kept());
        let first = local.get(hostname);
        assert!(local.is_kept());
        let second = local.get(Some("renamed"));
        assert_eq!(first, second, "cached prefix is stable");
        assert_eq!(local.get(None), first, "cached prefix is stable");
        assert_eq!(first, local_origin_prefix(hostname));
        assert!(
            first.chars().count() <= ORIGIN_LABEL_PREFIX_CHARS,
            "local prefix is at most 5 chars"
        );
    }
    assert_eq!(local_origin_prefix(None), "");
    assert_eq!(local_origin_prefix(Some("macbook-pro")), "macbo");
}

#[test]
fn prefixed_label_leaves_foreign_rows_unchanged() {
    assert_eq!(
        prefixed_workspace_label(true, "mini1:FM", &local_origin_prefix(Some("macbook"))),
        "mini1:FM"
    );
}

#[test]
fn prefixed_label_adds_local_prefix_to_local_rows() {
    for hostname in [None, Some("macbook")] {
        let prefix = local_origin_prefix(hostname);
        if prefix.is_empty() {
            assert_eq!(prefixed_workspace_label(false, "FM", &prefix), "FM");
        } else {
            assert_eq!(
                prefixed_workspace_label(false, "FM", &prefix),
                format!("{prefix}:FM")
            );
        }
    }
}
