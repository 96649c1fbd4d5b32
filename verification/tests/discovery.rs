use herdr_federation::discovery::{
    discover, forwarded_socket_path, DiscoveryConfig, StaticOrigin, TailscaleNode, TailscaleStatus,
};
use herdr_federation::origin::{ConnectionTarget, OriginKey};
use herdr_federation::path::UnixPath;

const FIXTURE: &str = r#"{
    "Self": { "ID": "nSELF", "HostName": "laptop", "DNSName": "laptop.tail.ts.net.", "Online": true },
    "Peer": {
        "key1": { "ID": "nMINI1", "HostName": "trilliums-mini", "DNSName": "trilliums-mini.tail.ts.net.", "Online": true },
        "key2": { "ID": "nMINI2", "HostName": "mini-two", "DNSName": "mini-two.tail.ts.net.", "Online": false }
    }
}"#;

fn read_node(value: &serde_json::Value) -> TailscaleNode {
    TailscaleNode {
        id: value["ID"].as_str().unwrap().to_string(),
        host_name: value["HostName"].as_str().unwrap_or("").to_string(),
        dns_name: value["DNSName"].as_str().unwrap_or("").to_string(),
        online: value["Online"].as_bool().unwrap_or(false),
    }
}

fn read_status(text: &str) -> TailscaleStatus {
    let value: serde_json::Value = serde_json::from_str(text).unwrap();
    TailscaleStatus {
        self_node: value.get("Self").map(read_node),
        peers: value["Peer"]
            .as_object()
            .unwrap()
            .iter()
            .map(|(key, node)| (key.clone(), read_node(node)))
            .collect(),
    }
}

fn path(text: &str) -> UnixPath {
    UnixPath::from_string(text.to_string())
}

fn config() -> DiscoveryConfig {
    DiscoveryConfig {
        forwarded_socket_dir: path("/run/herdr/fed"),
        static_origins: vec![],
    }
}

fn nobody() -> TailscaleStatus {
    TailscaleStatus { self_node: None, peers: vec![] }
}

fn node(id: &str, host_name: &str, dns_name: &str) -> TailscaleNode {
    TailscaleNode {
        id: id.to_string(),
        host_name: host_name.to_string(),
        dns_name: dns_name.to_string(),
        online: true,
    }
}

#[test]
fn parses_status_and_skips_offline_and_self() {
    let status = read_status(FIXTURE);
    let origins = discover(&status, &config());

    // Only the online peer; self excluded, offline peer excluded.
    assert_eq!(origins.len(), 1);
    let mini1 = &origins[0];
    assert_eq!(mini1.key, OriginKey::new("nMINI1").unwrap());
    assert_eq!(mini1.label, "trilliums-mini");
    assert_eq!(
        mini1.target,
        ConnectionTarget::LocalSocket(path("/run/herdr/fed/nMINI1.sock"))
    );
}

#[test]
fn static_origin_reaches_non_tailnet_host() {
    let cfg = DiscoveryConfig {
        forwarded_socket_dir: path("/run/herdr/fed"),
        static_origins: vec![StaticOrigin {
            key: OriginKey::new("static-box").unwrap(),
            label: Some("build-box".to_string()),
            socket_path: path("/tmp/build.sock"),
        }],
    };
    let origins = discover(&nobody(), &cfg);
    assert_eq!(origins.len(), 1);
    assert_eq!(origins[0].label, "build-box");
    assert_eq!(
        origins[0].target,
        ConnectionTarget::LocalSocket(path("/tmp/build.sock"))
    );
}

#[test]
fn static_origin_overrides_discovered_peer() {
    let status = read_status(FIXTURE);
    let cfg = DiscoveryConfig {
        forwarded_socket_dir: path("/run/herdr/fed"),
        static_origins: vec![StaticOrigin {
            key: OriginKey::new("nMINI1").unwrap(),
            label: None,
            socket_path: path("/custom/mini1.sock"),
        }],
    };
    let origins = discover(&status, &cfg);
    assert_eq!(origins.len(), 1);
    // The label falls back to the peer's; the socket is the override.
    assert_eq!(origins[0].label, "trilliums-mini");
    assert_eq!(
        origins[0].target,
        ConnectionTarget::LocalSocket(path("/custom/mini1.sock"))
    );
}

#[test]
fn self_federation_harness_uses_two_static_local_sockets() {
    let cfg = DiscoveryConfig {
        forwarded_socket_dir: path("/unused"),
        static_origins: vec![
            StaticOrigin {
                key: OriginKey::new("sess-a").unwrap(),
                label: Some("A".to_string()),
                socket_path: path("/tmp/a.sock"),
            },
            StaticOrigin {
                key: OriginKey::new("sess-b").unwrap(),
                label: Some("B".to_string()),
                socket_path: path("/tmp/b.sock"),
            },
        ],
    };
    let origins = discover(&nobody(), &cfg);
    assert_eq!(origins.len(), 2);
}

#[test]
fn forwarded_socket_path_follows_convention() {
    let socket = forwarded_socket_path(
        &path("/run/herdr/fed"),
        &OriginKey::new("nMINI1").unwrap(),
    );
    assert_eq!(socket, path("/run/herdr/fed/nMINI1.sock"));
}

#[test]
fn peers_with_invalid_ids_are_skipped() {
    let status = TailscaleStatus {
        self_node: None,
        peers: vec![("key1".to_string(), node("bad~id", "rogue", ""))],
    };
    assert!(discover(&status, &config()).is_empty());
}

#[test]
fn socket_paths_cannot_escape_the_socket_dir() {
    assert!(OriginKey::new("../../etc/cron.d/evil").is_err());
    assert!(OriginKey::new("sub/dir").is_err());
    assert!(OriginKey::new("..").is_err());

    let dir = path("/run/herdr/fed");
    let socket = forwarded_socket_path(&dir, &OriginKey::new("mini.local").unwrap());
    assert!(socket.components().starts_with(&dir.components()));
    assert_eq!(socket.components().len(), dir.components().len() + 1);
}

#[test]
fn labels_prefer_the_short_domain_name() {
    assert_eq!(node("n1", "host", "short.tail.ts.net.").display_label(), "short");
    assert_eq!(node("n1", "host", "plain").display_label(), "plain");
    assert_eq!(node("n1", "host", "plain..").display_label(), "plain");
    assert_eq!(node("n1", "host", ".odd.name").display_label(), ".odd.name");
    assert_eq!(node("n1", "host", "...").display_label(), "host");
    assert_eq!(node("n1", "host", "").display_label(), "host");
    assert_eq!(node("n1", "", "").display_label(), "n1");
}

#[test]
fn origins_come_by_key_whatever_the_walk() {
    let peers = vec![
        ("a".to_string(), node("n3", "three", "")),
        ("b".to_string(), node("n1", "one", "")),
        ("c".to_string(), node("n2", "two", "")),
    ];
    let mut reversed = peers.clone();
    reversed.reverse();
    let labels = |peers: Vec<(String, TailscaleNode)>| -> Vec<String> {
        let status = TailscaleStatus { self_node: None, peers };
        discover(&status, &config()).into_iter().map(|o| o.label).collect()
    };
    assert_eq!(labels(peers), vec!["one", "two", "three"]);
    assert_eq!(labels(reversed), vec!["one", "two", "three"]);
}

#[test]
fn a_static_origin_without_label_or_peer_shows_its_key() {
    let cfg = DiscoveryConfig {
        forwarded_socket_dir: path("/run"),
        static_origins: vec![StaticOrigin {
            key: OriginKey::new("lonely").unwrap(),
            label: None,
            socket_path: path("/tmp/l.sock"),
        }],
    };
    assert_eq!(discover(&nobody(), &cfg)[0].label, "lonely");
}

#[test]
fn different_keys_have_different_sockets() {
    let dir = path("/run/fed/");
    let a = forwarded_socket_path(&dir, &OriginKey::new("n1").unwrap());
    let b = forwarded_socket_path(&dir, &OriginKey::new("n2").unwrap());
    assert_eq!(a.as_str(), "/run/fed/n1.sock");
    assert_ne!(a, b);
}

#[test]
fn the_local_node_is_no_peer_of_itself() {
    let status = TailscaleStatus {
        self_node: Some(node("nSELF", "laptop", "")),
        peers: vec![
            ("a".to_string(), node("nSELF", "laptop", "")),
            ("b".to_string(), node("n1", "one", "")),
        ],
    };
    let keys: Vec<String> =
        discover(&status, &config()).into_iter().map(|o| o.key.to_string()).collect();
    assert_eq!(keys, vec!["n1"]);
}

#[test]
fn the_last_static_origin_with_a_key_wins() {
    let explicit = |label: Option<&str>, socket: &str| StaticOrigin {
        key: OriginKey::new("n1").unwrap(),
        label: label.map(|text| text.to_string()),
        socket_path: path(socket),
    };
    let cfg = DiscoveryConfig {
        forwarded_socket_dir: path("/run"),
        static_origins: vec![explicit(Some("first"), "/1"), explicit(None, "/2")],
    };
    let origins = discover(&nobody(), &cfg);
    assert_eq!(origins.len(), 1);
    assert_eq!(origins[0].label, "n1");
    assert_eq!(origins[0].target, ConnectionTarget::LocalSocket(path("/2")));
    let status = TailscaleStatus {
        self_node: None,
        peers: vec![("a".to_string(), node("n1", "one", ""))],
    };
    let origins = discover(&status, &cfg);
    assert_eq!(origins.len(), 1);
    assert_eq!(origins[0].label, "one");
    assert_eq!(origins[0].target, ConnectionTarget::LocalSocket(path("/2")));
}
