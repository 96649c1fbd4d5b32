//! Origin discovery: the online peers of the tailnet, united with the origins of
//! the configuration, by durable key.
//!
//! The subprocess call is the caller's; here is the policy of the union. An
//! origin is reachable through a socket that is forwarded to a local path by
//! convention, or through the path that the configuration gives.
use vstd::prelude::*;

use crate::keyed::{
    by_key, has_key, increasing, laid_over, lemma_by_key_is_well_keyed, lemma_laid_over,
    lemma_last_counts, lemma_listing, lemma_well_keyed, listing, lists, well_keyed, KeyedOrigins,
};
use crate::origin::{origin_views, valid_key, ConnectionTarget, Origin, OriginKey, OriginView};
use crate::path::{
    components, joined, lemma_joined_is_injective, lemma_joined_stays_inside, same_path, UnixPath,
};
use crate::seqs::{lemma_filter_contains, lemma_filter_push};
use crate::text::{
    copy_option, find_char, law_only_the_end_is_cut, lemma_length_before, length_before,
    text_before, text_or_none, trim_end_matches, without_trailing,
};

verus! {

/// A node of the tailnet. Its id is the durable origin key.
#[derive(Debug)]
pub struct TailscaleNode {
    pub id: String,
    pub host_name: String,
    pub dns_name: String,
    pub online: bool,
}

/// A node, as text.
pub struct NodeView {
    pub id: Seq<char>,
    pub host_name: Seq<char>,
    pub dns_name: Seq<char>,
    pub online: bool,
}

impl View for TailscaleNode {
    type V = NodeView;

    open spec fn view(&self) -> NodeView {
        NodeView {
            id: self.id@,
            host_name: self.host_name@,
            dns_name: self.dns_name@,
            online: self.online,
        }
    }
}

impl Clone for TailscaleNode {
    fn clone(&self) -> (r: Self)
        ensures
            r == *self,
    {
        TailscaleNode {
            id: self.id.clone(),
            host_name: self.host_name.clone(),
            dns_name: self.dns_name.clone(),
            online: self.online,
        }
    }
}

/// The part of the tailnet's status that discovery reads.
#[derive(Debug, Clone)]
pub struct TailscaleStatus {
    pub self_node: Option<TailscaleNode>,
    /// The peers under their node keys, in the order in which they are walked.
    pub peers: Vec<(String, TailscaleNode)>,
}

/// The id of the local node.
pub open spec fn id_of(node: Option<TailscaleNode>) -> Option<Seq<char>> {
    match node {
        Some(node) => Some(node.id@),
        None => None,
    }
}

/// Each of the peers.
pub open spec fn peer_nodes(peers: Seq<(String, TailscaleNode)>) -> Seq<NodeView> {
    peers.map_values(|peer: (String, TailscaleNode)| peer.1@)
}

/// The display label of a node: the short name of its domain name, else its
/// host name, else its id.
pub open spec fn label_of(node: NodeView) -> Seq<char> {
    let name = without_trailing(node.dns_name, '.');
    let short = length_before(name, '.');
    if 0 < short < name.len() {
        name.take(short as int)
    } else if name.len() > 0 {
        name
    } else if node.host_name.len() > 0 {
        node.host_name
    } else {
        node.id
    }
}

impl TailscaleNode {
    /// Preferred display label.
    pub fn display_label(&self) -> (r: String)
        ensures
            r@ == label_of(self@),
    {
        // A domain name is fully qualified, with a dot at its end.
        let name = trim_end_matches(self.dns_name.as_str(), '.');
        let short = find_char(name, '.');
        if 0 < short && short < name.unicode_len() {
            assert(name@.take(short as int) == name@.subrange(0, short as int));
            return name.substring_char(0, short).to_owned();
        }
        if !name.is_empty() {
            return name.to_owned();
        }
        if !self.host_name.as_str().is_empty() {
            return self.host_name.clone();
        }
        self.id.clone()
    }
}

/// An explicit origin of the configuration: a host off the tailnet, or another
/// label or socket for a discovered peer.
#[derive(Debug, PartialEq, Eq)]
pub struct StaticOrigin {
    pub key: OriginKey,
    /// Display override. Falls back to the tailnet label, then the key.
    pub label: Option<String>,
    /// Local path where this origin's JSON API is reachable.
    pub socket_path: UnixPath,
}

/// An explicit origin, as text.
pub struct StaticView {
    pub key: Seq<char>,
    pub label: Option<Seq<char>>,
    pub socket: Seq<char>,
}

impl View for StaticOrigin {
    type V = StaticView;

    open spec fn view(&self) -> StaticView {
        StaticView {
            key: self.key@,
            label: text_or_none(self.label),
            socket: self.socket_path@,
        }
    }
}

impl Clone for StaticOrigin {
    fn clone(&self) -> (r: Self)
        ensures
            r == *self,
    {
        StaticOrigin {
            key: self.key.clone(),
            label: copy_option(&self.label),
            socket_path: self.socket_path.clone(),
        }
    }
}

/// Each of a row of explicit origins.
pub open spec fn static_views(row: Seq<StaticOrigin>) -> Seq<StaticView> {
    row.map_values(|origin: StaticOrigin| origin@)
}

/// Inputs to a discovery pass.
#[derive(Debug, Clone)]
pub struct DiscoveryConfig {
    /// The directory with the forwarded API sockets, named `<key>.sock`.
    pub forwarded_socket_dir: UnixPath,
    /// Explicit origins.
    pub static_origins: Vec<StaticOrigin>,
}

// ---------------------------------------------------------------------------
// The socket convention

/// Where the socket of an origin is forwarded to.
pub open spec fn forwarded_socket(dir: Seq<char>, key: Seq<char>) -> Seq<char> {
    joined(dir, key + ".sock"@)
}

/// Convention for where an origin's forwarded JSON API socket lands: always
/// directly inside `dir`.
pub fn forwarded_socket_path(dir: &UnixPath, key: &OriginKey) -> (r: UnixPath)
    ensures
        r@ == forwarded_socket(dir@, key@),
        components(r@) == components(dir@).push(key@ + ".sock"@),
{
    let mut name = key.as_str().to_owned();
    name.append(".sock");
    proof {
        law_sockets_stay_in_their_directory(dir@, key@);
    }
    dir.join(name.as_str())
}

/// No key can lead out of the socket directory: the path has the components of
/// the directory and one more, the socket's file name.
pub proof fn law_sockets_stay_in_their_directory(dir: Seq<char>, key: Seq<char>)
    requires
        valid_key(key),
    ensures
        components(forwarded_socket(dir, key)) == components(dir).push(key + ".sock"@),
{
    lemma_socket_name(key);
    lemma_joined_stays_inside(dir, key + ".sock"@);
}

/// Different origins have different sockets.
pub proof fn law_sockets_are_distinct(dir: Seq<char>, key1: Seq<char>, key2: Seq<char>)
    requires
        valid_key(key1),
        valid_key(key2),
        same_path(forwarded_socket(dir, key1), forwarded_socket(dir, key2)),
    ensures
        key1 == key2,
{
    lemma_socket_name(key1);
    lemma_socket_name(key2);
    lemma_joined_is_injective(dir, key1 + ".sock"@, key2 + ".sock"@);
    reveal_strlit(".sock");
    let a = key1 + ".sock"@;
    let b = key2 + ".sock"@;
    assert(a.take(a.len() - 5) == key1);
    assert(b.take(b.len() - 5) == key2);
}

proof fn lemma_socket_name(key: Seq<char>)
    requires
        valid_key(key),
    ensures
        (key + ".sock"@).len() > 1,
        !(key + ".sock"@).contains('/'),
{
    reveal_strlit(".sock");
    let name = key + ".sock"@;
    if name.contains('/') {
        let i = choose|i: int| 0 <= i < name.len() && name[i] == '/';
        if i < key.len() {
            assert(key[i] == '/');
            assert(key.contains('/'));
        } else {
            assert(name[i] == ".sock"@[i - key.len()]);
        }
    }
}

// ---------------------------------------------------------------------------
// The union

/// Whether a peer is an origin: it is online, it is not the local node, and its
/// id is a key.
pub open spec fn is_reachable(node: NodeView, self_id: Option<Seq<char>>) -> bool {
    node.online && self_id != Some(node.id) && valid_key(node.id)
}

/// The origin of a peer.
pub open spec fn peer_origin(dir: Seq<char>, node: NodeView) -> OriginView {
    OriginView {
        key: node.id,
        label: label_of(node),
        socket: forwarded_socket(dir, node.id),
    }
}

/// The origins of the peers.
pub open spec fn peer_origins(
    nodes: Seq<NodeView>,
    self_id: Option<Seq<char>>,
    dir: Seq<char>,
) -> Seq<OriginView> {
    nodes.filter(|node: NodeView| is_reachable(node, self_id)).map_values(
        |node: NodeView| peer_origin(dir, node),
    )
}

/// The origin that an explicit one stands for: its label is its own, else that
/// of the peer with its key, else its key.
pub open spec fn static_origin(
    peers: Map<Seq<char>, OriginView>,
    origin: StaticView,
) -> OriginView {
    OriginView {
        key: origin.key,
        label: match origin.label {
            Some(label) => label,
            None => if peers.contains_key(origin.key) {
                peers[origin.key].label
            } else {
                origin.key
            },
        },
        socket: origin.socket,
    }
}

/// The origins that a row of explicit ones stands for.
pub open spec fn static_rows(peers: Map<Seq<char>, OriginView>, row: Seq<StaticView>) -> Seq<
    OriginView,
> {
    row.map_values(|origin: StaticView| static_origin(peers, origin))
}

/// The peers with a row of explicit origins laid over them: each replaces what
/// stood under its key.
pub open spec fn with_statics(
    peers: Map<Seq<char>, OriginView>,
    row: Seq<StaticView>,
) -> Map<Seq<char>, OriginView> {
    laid_over(peers, static_rows(peers, row))
}

/// The reachable origins, by key.
pub open spec fn reachable(
    nodes: Seq<NodeView>,
    self_id: Option<Seq<char>>,
    dir: Seq<char>,
    statics: Seq<StaticView>,
) -> Map<Seq<char>, OriginView> {
    with_statics(by_key(peer_origins(nodes, self_id, dir)), statics)
}

/// The reachable origins: online peers, under the forwarded-socket convention,
/// united with the explicit origins, which win on key conflict. The local node
/// is no peer of itself; offline peers and peers whose id is no key are left
/// out. The origins come by increasing key.
pub fn discover(status: &TailscaleStatus, config: &DiscoveryConfig) -> (r: Vec<Origin>)
    ensures
        origin_views(r@) == listing(
            reachable(
                peer_nodes(status.peers@),
                id_of(status.self_node),
                config.forwarded_socket_dir@,
                static_views(config.static_origins@),
            ),
        ),
        increasing(origin_views(r@)),
{
    let mut known = KeyedOrigins::new();
    let ghost dir = config.forwarded_socket_dir@;
    let ghost self_id = id_of(status.self_node);
    let ghost nodes = peer_nodes(status.peers@);
    let ghost keep = |node: NodeView| is_reachable(node, self_id);
    let mut i: usize = 0;
    proof {
        reveal(Seq::filter);
        assert(peer_origins(nodes.take(0), self_id, dir) == Seq::<OriginView>::empty());
    }
    while i < status.peers.len()
        invariant
            i <= status.peers@.len(),
            dir == config.forwarded_socket_dir@,
            self_id == id_of(status.self_node),
            nodes == peer_nodes(status.peers@),
            keep == (|node: NodeView| is_reachable(node, self_id)),
            known@ == by_key(peer_origins(nodes.take(i as int), self_id, dir)),
        decreases status.peers@.len() - i,
    {
        let node = &status.peers[i].1;
        let ghost done = nodes.take(i as int);
        proof {
            assert(nodes.take(i + 1) == done.push(node@));
            lemma_filter_push(done, node@, keep);
        }
        let is_self = match &status.self_node {
            Some(local) => local.id == node.id,
            None => false,
        };
        if node.online && !is_self {
            if let Ok(key) = OriginKey::new(node.id.as_str()) {
                let target = ConnectionTarget::LocalSocket(
                    forwarded_socket_path(&config.forwarded_socket_dir, &key),
                );
                let label = node.display_label();
                known.insert(Origin::new(key, label.as_str(), target));
                proof {
                    let before = peer_origins(done, self_id, dir);
                    let after = peer_origins(done.push(node@), self_id, dir);
                    assert(after == before.push(peer_origin(dir, node@)));
                    assert(after.drop_last() == before);
                }
            }
        }
        i = i + 1;
    }
    assert(nodes.take(i as int) == nodes);
    let peers = known.clone();
    let ghost statics = static_views(config.static_origins@);
    let mut k: usize = 0;
    while k < config.static_origins.len()
        invariant
            k <= config.static_origins@.len(),
            statics == static_views(config.static_origins@),
            known@ == with_statics(peers@, statics.take(k as int)),
        decreases config.static_origins@.len() - k,
    {
        let explicit = &config.static_origins[k];
        let ghost next = statics.take(k + 1);
        proof {
            assert(next.last() == explicit@);
            assert(static_rows(peers@, next).drop_last() == static_rows(
                peers@,
                statics.take(k as int),
            ));
        }
        let label = match &explicit.label {
            Some(label) => label.clone(),
            None => match peers.get(&explicit.key) {
                Some(origin) => origin.label.clone(),
                None => explicit.key.to_string(),
            },
        };
        known.insert(
            Origin::new(
                explicit.key.clone(),
                label.as_str(),
                ConnectionTarget::LocalSocket(explicit.socket_path.clone()),
            ),
        );
        k = k + 1;
    }
    assert(statics.take(k as int) == statics);
    let values = known.values();
    let mut r: Vec<Origin> = Vec::new();
    let mut n: usize = 0;
    while n < values.len()
        invariant
            n <= values@.len(),
            r@ == values@.take(n as int),
        decreases values@.len() - n,
    {
        r.push(values[n].clone());
        assert(r@ == values@.take(n + 1));
        n = n + 1;
    }
    assert(r@ == values@);
    r
}

// ---------------------------------------------------------------------------
// What discovery promises

/// Whether a row of explicit origins has one with a key.
pub open spec fn names_key(row: Seq<StaticView>, key: Seq<char>) -> bool {
    exists|i: int| 0 <= i < row.len() && (#[trigger] row[i]).key == key
}

proof fn lemma_with_statics(peers: Map<Seq<char>, OriginView>, row: Seq<StaticView>)
    ensures
        forall|key: Seq<char>| #[trigger]
            with_statics(peers, row).contains_key(key) <==> peers.contains_key(key) || names_key(
                row,
                key,
            ),
        forall|key: Seq<char>|
            !names_key(row, key) ==> #[trigger] with_statics(peers, row)[key] == peers[key],
        well_keyed(peers) ==> well_keyed(with_statics(peers, row)),
{
    let rows = static_rows(peers, row);
    lemma_laid_over(peers, rows);
    assert forall|key: Seq<char>| names_key(row, key) <==> #[trigger] has_key(rows, key) by {
        if names_key(row, key) {
            let i = choose|i: int| 0 <= i < row.len() && (#[trigger] row[i]).key == key;
            assert(rows[i].key == key);
        }
        if has_key(rows, key) {
            let i = choose|i: int| 0 <= i < rows.len() && (#[trigger] rows[i]).key == key;
            assert(row[i].key == key);
        }
    }
    if well_keyed(peers) {
        lemma_well_keyed(peers, rows);
    }
    assert forall|key: Seq<char>| #[trigger]
        with_statics(peers, row).contains_key(key) <==> peers.contains_key(key) || names_key(
            row,
            key,
        ) by {
        assert(has_key(rows, key) <==> names_key(row, key));
    }
    assert forall|key: Seq<char>| !names_key(row, key) implies #[trigger] with_statics(
        peers,
        row,
    )[key] == peers[key] by {
        assert(!has_key(rows, key));
    }
}

/// Whether a row of nodes has a reachable one with an id.
pub open spec fn reaches(nodes: Seq<NodeView>, self_id: Option<Seq<char>>, id: Seq<char>) -> bool {
    exists|i: int|
        0 <= i < nodes.len() && (#[trigger] nodes[i]).id == id && is_reachable(nodes[i], self_id)
}

/// An origin of the peers belongs to a reachable node, and every reachable node
/// has one.
proof fn lemma_peer_origins(
    nodes: Seq<NodeView>,
    self_id: Option<Seq<char>>,
    dir: Seq<char>,
    origin: OriginView,
)
    ensures
        peer_origins(nodes, self_id, dir).contains(origin) <==> exists|i: int|
            0 <= i < nodes.len() && is_reachable(#[trigger] nodes[i], self_id) && peer_origin(
                dir,
                nodes[i],
            ) == origin,
{
    let keep = |node: NodeView| is_reachable(node, self_id);
    let kept = nodes.filter(keep);
    let row = peer_origins(nodes, self_id, dir);
    if row.contains(origin) {
        let k = choose|k: int| 0 <= k < row.len() && row[k] == origin;
        assert(kept.contains(kept[k]));
        lemma_filter_contains(nodes, keep, kept[k]);
        let i = choose|i: int| 0 <= i < nodes.len() && nodes[i] == kept[k];
        assert(is_reachable(nodes[i], self_id) && peer_origin(dir, nodes[i]) == origin);
    }
    if exists|i: int|
        0 <= i < nodes.len() && is_reachable(#[trigger] nodes[i], self_id) && peer_origin(
            dir,
            nodes[i],
        ) == origin {
        let i = choose|i: int|
            0 <= i < nodes.len() && is_reachable(#[trigger] nodes[i], self_id) && peer_origin(
                dir,
                nodes[i],
            ) == origin;
        assert(nodes.contains(nodes[i]));
        lemma_filter_contains(nodes, keep, nodes[i]);
        let k = choose|k: int| 0 <= k < kept.len() && kept[k] == nodes[i];
        assert(row[k] == origin);
    }
}

proof fn lemma_peer_keys(
    nodes: Seq<NodeView>,
    self_id: Option<Seq<char>>,
    dir: Seq<char>,
    key: Seq<char>,
)
    ensures
        has_key(peer_origins(nodes, self_id, dir), key) <==> reaches(nodes, self_id, key),
{
    let row = peer_origins(nodes, self_id, dir);
    if has_key(row, key) {
        let k = choose|k: int| 0 <= k < row.len() && (#[trigger] row[k]).key == key;
        assert(row.contains(row[k]));
        lemma_peer_origins(nodes, self_id, dir, row[k]);
        let i = choose|i: int|
            0 <= i < nodes.len() && is_reachable(#[trigger] nodes[i], self_id) && peer_origin(
                dir,
                nodes[i],
            ) == row[k];
        assert(nodes[i].id == key);
    }
    if reaches(nodes, self_id, key) {
        let i = choose|i: int|
            0 <= i < nodes.len() && (#[trigger] nodes[i]).id == key && is_reachable(
                nodes[i],
                self_id,
            );
        lemma_peer_origins(nodes, self_id, dir, peer_origin(dir, nodes[i]));
        let k = choose|k: int| 0 <= k < row.len() && row[k] == peer_origin(dir, nodes[i]);
        assert(row[k].key == key);
    }
}

/// Who is discovered: the explicit origins, and the peers that are online, are
/// not the local node, and have a key for an id. Nobody else.
pub proof fn law_who_is_discovered(
    nodes: Seq<NodeView>,
    self_id: Option<Seq<char>>,
    dir: Seq<char>,
    statics: Seq<StaticView>,
    key: Seq<char>,
)
    ensures
        has_key(listing(reachable(nodes, self_id, dir, statics)), key) <==> names_key(statics, key)
            || reaches(nodes, self_id, key),
        lists(
            listing(reachable(nodes, self_id, dir, statics)),
            reachable(nodes, self_id, dir, statics),
        ),
{
    let row = peer_origins(nodes, self_id, dir);
    lemma_by_key_is_well_keyed(row);
    lemma_with_statics(by_key(row), statics);
    lemma_listing(reachable(nodes, self_id, dir, statics));
    lemma_laid_over(Map::empty(), row);
    lemma_peer_keys(nodes, self_id, dir, key);
    assert(reachable(nodes, self_id, dir, statics).contains_key(key) <==> by_key(
        row,
    ).contains_key(key) || names_key(statics, key));
}

/// The local node is never an origin of its own, unless it is configured as
/// one.
pub proof fn law_self_is_no_peer(
    nodes: Seq<NodeView>,
    self_id: Seq<char>,
    dir: Seq<char>,
    statics: Seq<StaticView>,
)
    requires
        !names_key(statics, self_id),
    ensures
        !has_key(listing(reachable(nodes, Some(self_id), dir, statics)), self_id),
{
    law_who_is_discovered(nodes, Some(self_id), dir, statics, self_id);
}

/// Explicit origins win: the last explicit origin with a key decides the
/// socket, and the label where it has one.
pub proof fn law_statics_win(
    nodes: Seq<NodeView>,
    self_id: Option<Seq<char>>,
    dir: Seq<char>,
    statics: Seq<StaticView>,
    i: int,
)
    requires
        0 <= i < statics.len(),
        forall|j: int| i < j < statics.len() ==> (#[trigger] statics[j]).key != statics[i].key,
    ensures
        reachable(nodes, self_id, dir, statics).contains_key(statics[i].key),
        reachable(nodes, self_id, dir, statics)[statics[i].key].socket == statics[i].socket,
        statics[i].label matches Some(label) ==> reachable(
            nodes,
            self_id,
            dir,
            statics,
        )[statics[i].key].label == label,
{
    lemma_last_static(by_key(peer_origins(nodes, self_id, dir)), statics, i);
}

/// Under the key of the last explicit origin with it stands that origin.
proof fn lemma_last_static(
    peers: Map<Seq<char>, OriginView>,
    statics: Seq<StaticView>,
    i: int,
)
    requires
        0 <= i < statics.len(),
        forall|j: int| i < j < statics.len() ==> (#[trigger] statics[j]).key != statics[i].key,
    ensures
        with_statics(peers, statics).contains_key(statics[i].key),
        with_statics(peers, statics)[statics[i].key] == static_origin(peers, statics[i]),
{
    let rows = static_rows(peers, statics);
    assert forall|j: int| i < j < rows.len() implies (#[trigger] rows[j]).key != rows[i].key by {
        assert(statics[j].key != statics[i].key);
    }
    lemma_last_counts(peers, rows, i);
}

/// An explicit origin without a label keeps that of the peer with its key, and
/// shows its key where there is no such peer. Where several explicit origins
/// share a key, this holds of the last one, whatever the others say.
pub proof fn law_statics_keep_the_peer_label(
    nodes: Seq<NodeView>,
    self_id: Option<Seq<char>>,
    dir: Seq<char>,
    statics: Seq<StaticView>,
    i: int,
)
    requires
        0 <= i < statics.len(),
        forall|j: int| i < j < statics.len() ==> (#[trigger] statics[j]).key != statics[i].key,
        statics[i].label is None,
    ensures
        reachable(nodes, self_id, dir, statics)[statics[i].key].label == if reaches(
            nodes,
            self_id,
            statics[i].key,
        ) {
            by_key(peer_origins(nodes, self_id, dir))[statics[i].key].label
        } else {
            statics[i].key
        },
{
    let row = peer_origins(nodes, self_id, dir);
    lemma_last_static(by_key(row), statics, i);
    lemma_laid_over(Map::empty(), row);
    lemma_peer_keys(nodes, self_id, dir, statics[i].key);
    assert(by_key(row).contains_key(statics[i].key) <==> has_key(row, statics[i].key));
}

/// A peer that no explicit origin overrides is reached through its own socket,
/// directly inside the socket directory.
pub proof fn law_peers_use_forwarded_sockets(
    nodes: Seq<NodeView>,
    self_id: Option<Seq<char>>,
    dir: Seq<char>,
    statics: Seq<StaticView>,
    key: Seq<char>,
)
    requires
        reaches(nodes, self_id, key),
        !names_key(statics, key),
    ensures
        reachable(nodes, self_id, dir, statics)[key].socket == forwarded_socket(dir, key),
        components(reachable(nodes, self_id, dir, statics)[key].socket) == components(dir).push(
            key + ".sock"@,
        ),
{
    let row = peer_origins(nodes, self_id, dir);
    lemma_with_statics(by_key(row), statics);
    lemma_peer_keys(nodes, self_id, dir, key);
    lemma_peers_keep_their_sockets(nodes, self_id, dir, row);
    law_sockets_stay_in_their_directory(dir, key);
    assert(reachable(nodes, self_id, dir, statics)[key] == by_key(row)[key]);
    lemma_by_key_socket(row, dir, key);
}

proof fn lemma_peers_keep_their_sockets(
    nodes: Seq<NodeView>,
    self_id: Option<Seq<char>>,
    dir: Seq<char>,
    row: Seq<OriginView>,
)
    requires
        row == peer_origins(nodes, self_id, dir),
    ensures
        forall|k: int|
            0 <= k < row.len() ==> (#[trigger] row[k]).socket == forwarded_socket(dir, row[k].key),
{
}

proof fn lemma_by_key_socket(row: Seq<OriginView>, dir: Seq<char>, key: Seq<char>)
    requires
        has_key(row, key),
        forall|k: int|
            0 <= k < row.len() ==> (#[trigger] row[k]).socket == forwarded_socket(dir, row[k].key),
    ensures
        by_key(row)[key].socket == forwarded_socket(dir, key),
    decreases row.len(),
{
    let rest = row.drop_last();
    if row.last().key == key {
        assert(row[row.len() - 1].socket == forwarded_socket(dir, key));
    } else {
        let k = choose|k: int| 0 <= k < row.len() && (#[trigger] row[k]).key == key;
        assert(rest[k].key == key);
        assert forall|j: int| 0 <= j < rest.len() implies (#[trigger] rest[j]).socket
            == forwarded_socket(dir, rest[j].key) by {
            assert(row[j].socket == forwarded_socket(dir, row[j].key));
        }
        lemma_by_key_socket(rest, dir, key);
    }
}

/// Whether no two nodes share an id.
pub open spec fn distinct_ids(nodes: Seq<NodeView>) -> bool {
    forall|i: int, j: int|
        0 <= i < j < nodes.len() ==> (#[trigger] nodes[i]).id != (#[trigger] nodes[j]).id
}

/// The order in which the peers are walked carries no meaning: two walks over
/// the same nodes, whose ids differ, discover the same.
pub proof fn law_walk_order_is_immaterial(
    nodes1: Seq<NodeView>,
    nodes2: Seq<NodeView>,
    self_id: Option<Seq<char>>,
    dir: Seq<char>,
    statics: Seq<StaticView>,
)
    requires
        distinct_ids(nodes1),
        distinct_ids(nodes2),
        forall|node: NodeView| #[trigger] nodes1.contains(node) <==> nodes2.contains(node),
    ensures
        reachable(nodes1, self_id, dir, statics) == reachable(nodes2, self_id, dir, statics),
{
    let row1 = peer_origins(nodes1, self_id, dir);
    let row2 = peer_origins(nodes2, self_id, dir);
    lemma_peer_map(nodes1, self_id, dir);
    lemma_peer_map(nodes2, self_id, dir);
    assert forall|key: Seq<char>| by_key(row1).contains_key(key) <==> #[trigger] by_key(
        row2,
    ).contains_key(key) by {
        if reaches(nodes1, self_id, key) {
            let i = choose|i: int|
                0 <= i < nodes1.len() && (#[trigger] nodes1[i]).id == key && is_reachable(
                    nodes1[i],
                    self_id,
                );
            assert(nodes1.contains(nodes1[i]));
            let j = choose|j: int| 0 <= j < nodes2.len() && nodes2[j] == nodes1[i];
            assert(nodes2[j].id == key);
        }
        if reaches(nodes2, self_id, key) {
            let j = choose|j: int|
                0 <= j < nodes2.len() && (#[trigger] nodes2[j]).id == key && is_reachable(
                    nodes2[j],
                    self_id,
                );
            assert(nodes2.contains(nodes2[j]));
            assert(nodes1.contains(nodes2[j]));
            let i = choose|i: int| 0 <= i < nodes1.len() && nodes1[i] == nodes2[j];
            assert(nodes1[i].id == key);
        }
    }
    assert forall|key: Seq<char>| #[trigger] by_key(row2).contains_key(key) implies by_key(
        row1,
    )[key] == by_key(row2)[key] by {
        let j = choose|j: int|
            0 <= j < nodes2.len() && (#[trigger] nodes2[j]).id == key && is_reachable(
                nodes2[j],
                self_id,
            );
        assert(nodes2.contains(nodes2[j]));
        assert(nodes1.contains(nodes2[j]));
        let i = choose|i: int| 0 <= i < nodes1.len() && nodes1[i] == nodes2[j];
        assert(by_key(row2)[nodes2[j].id] == peer_origin(dir, nodes2[j]));
        assert(by_key(row1)[nodes1[i].id] == peer_origin(dir, nodes1[i]));
    }
    assert(by_key(row1) == by_key(row2));
}

/// With distinct ids, the map of the peers holds each reachable node's origin
/// under its id.
proof fn lemma_peer_map(nodes: Seq<NodeView>, self_id: Option<Seq<char>>, dir: Seq<char>)
    requires
        distinct_ids(nodes),
    ensures
        forall|key: Seq<char>| #[trigger]
            by_key(peer_origins(nodes, self_id, dir)).contains_key(key) <==> reaches(
                nodes,
                self_id,
                key,
            ),
        forall|i: int|
            0 <= i < nodes.len() && is_reachable(nodes[i], self_id) ==> by_key(
                peer_origins(nodes, self_id, dir),
            )[(#[trigger] nodes[i]).id] == peer_origin(dir, nodes[i]),
{
    let row = peer_origins(nodes, self_id, dir);
    lemma_laid_over(Map::empty(), row);
    assert forall|key: Seq<char>| #[trigger] by_key(row).contains_key(key) <==> reaches(
        nodes,
        self_id,
        key,
    ) by {
        lemma_peer_keys(nodes, self_id, dir, key);
    }
    assert forall|i: int| 0 <= i < nodes.len() && is_reachable(nodes[i], self_id) implies by_key(
        row,
    )[(#[trigger] nodes[i]).id] == peer_origin(dir, nodes[i]) by {
        lemma_by_key_member(row, nodes[i].id);
        assert(reaches(nodes, self_id, nodes[i].id));
        assert(by_key(row).contains_key(nodes[i].id));
        let origin = by_key(row)[nodes[i].id];
        lemma_peer_origins(nodes, self_id, dir, origin);
        let k = choose|k: int|
            0 <= k < nodes.len() && is_reachable(#[trigger] nodes[k], self_id) && peer_origin(
                dir,
                nodes[k],
            ) == origin;
        assert(nodes[k].id == nodes[i].id);
        if k < i {
            assert(nodes[k].id != nodes[i].id);
        }
        if i < k {
            assert(nodes[i].id != nodes[k].id);
        }
    }
}

/// What a row's map holds under a key is an origin of the row, with that key.
proof fn lemma_by_key_member(row: Seq<OriginView>, key: Seq<char>)
    ensures
        by_key(row).contains_key(key) ==> row.contains(by_key(row)[key]) && by_key(row)[key].key
            == key,
    decreases row.len(),
{
    if row.len() > 0 {
        let rest = row.drop_last();
        lemma_by_key_member(rest, key);
        if key == row.last().key {
            assert(row[row.len() - 1] == row.last());
        } else if by_key(row).contains_key(key) {
            let k = choose|k: int| 0 <= k < rest.len() && rest[k] == by_key(rest)[key];
            assert(row[k] == by_key(row)[key]);
        }
    }
}

/// Who is discovered of the peers: one that no explicit origin names is there just
/// where a node of that id is online, is not the local node, and has a key for an id.
pub proof fn law_only_online_others_are_discovered(
    nodes: Seq<NodeView>,
    self_id: Option<Seq<char>>,
    dir: Seq<char>,
    statics: Seq<StaticView>,
    key: Seq<char>,
)
    requires
        forall|i: int| 0 <= i < statics.len() ==> (#[trigger] statics[i]).key != key,
    ensures
        has_key(listing(reachable(nodes, self_id, dir, statics)), key) <==> {
            &&& valid_key(key)
            &&& self_id != Some(key)
            &&& exists|i: int|
                0 <= i < nodes.len() && (#[trigger] nodes[i]).id == key && nodes[i].online
        },
{
    law_who_is_discovered(nodes, self_id, dir, statics, key);
    if valid_key(key) && self_id != Some(key) && exists|i: int|
        0 <= i < nodes.len() && (#[trigger] nodes[i]).id == key && nodes[i].online {
        let i = choose|i: int|
            0 <= i < nodes.len() && (#[trigger] nodes[i]).id == key && nodes[i].online;
        assert(is_reachable(nodes[i], self_id));
        assert(reaches(nodes, self_id, key));
    }
    if reaches(nodes, self_id, key) {
        let i = choose|i: int|
            0 <= i < nodes.len() && (#[trigger] nodes[i]).id == key && is_reachable(
                nodes[i],
                self_id,
            );
        assert(nodes[i].id == key && nodes[i].online);
    }
}

/// How a discovered peer is described: by its id, under its own label, and through
/// the socket of its id in the socket directory. An explicit origin for it that has no
/// label shows the peer's.
pub proof fn law_peers_are_described_by_their_nodes(
    nodes: Seq<NodeView>,
    self_id: Option<Seq<char>>,
    dir: Seq<char>,
    statics: Seq<StaticView>,
    n: int,
)
    requires
        distinct_ids(nodes),
        0 <= n < nodes.len(),
        nodes[n].online,
        valid_key(nodes[n].id),
        self_id != Some(nodes[n].id),
    ensures
        ({
            let found = reachable(nodes, self_id, dir, statics);
            let id = nodes[n].id;
            &&& found.contains_key(id)
            &&& found[id].key == id
            &&& !names_key(statics, id) ==> found[id].label == label_of(nodes[n])
                && found[id].socket == joined(dir, id + ".sock"@)
            &&& forall|i: int|
                0 <= i < statics.len() && (#[trigger] statics[i]).key == id && statics[i].label
                    is None && (forall|j: int|
                    i < j < statics.len() ==> (#[trigger] statics[j]).key != id)
                    ==> found[id].label == label_of(nodes[n])
        }),
{
    let row = peer_origins(nodes, self_id, dir);
    let found = reachable(nodes, self_id, dir, statics);
    let id = nodes[n].id;
    lemma_peer_map(nodes, self_id, dir);
    lemma_by_key_is_well_keyed(row);
    lemma_with_statics(by_key(row), statics);
    assert(is_reachable(nodes[n], self_id));
    assert(reaches(nodes, self_id, id));
    assert(by_key(row).contains_key(id));
    assert(by_key(row)[nodes[n].id] == peer_origin(dir, nodes[n]));
    assert(found.contains_key(id));
    if !names_key(statics, id) {
        assert(with_statics(by_key(row), statics)[id] == by_key(row)[id]);
    }
    assert forall|i: int|
        0 <= i < statics.len() && (#[trigger] statics[i]).key == id && statics[i].label is None && (
        forall|j: int|
            i < j < statics.len() ==> (#[trigger] statics[j]).key != id) implies found[id].label
        == label_of(nodes[n]) by {
        lemma_last_static(by_key(row), statics, i);
    }
}

/// The label of a node is the first part of its domain name, up to the first dot;
/// where it has no domain name, its host name, and where it has neither, its id.
pub proof fn law_labels_are_short_names(node: NodeView, short: Seq<char>, rest: Seq<char>)
    ensures
        short.len() > 0 && !short.contains('.') && node.dns_name == short + seq!['.'] + rest
            ==> label_of(node) == short,
        node.dns_name.len() > 0 && !node.dns_name.contains('.') ==> label_of(node)
            == node.dns_name,
        (forall|i: int| 0 <= i < node.dns_name.len() ==> #[trigger] node.dns_name[i] == '.') ==> {
            &&& node.host_name.len() > 0 ==> label_of(node) == node.host_name
            &&& node.host_name.len() == 0 ==> label_of(node) == node.id
        },
{
    let dns = node.dns_name;
    let name = without_trailing(dns, '.');
    law_only_the_end_is_cut(dns, '.');
    lemma_length_before(name, '.');
    let n = length_before(name, '.') as int;
    if forall|i: int| 0 <= i < dns.len() ==> #[trigger] dns[i] == '.' {
        if name.len() > 0 {
            assert(dns[name.len() - 1] == '.');
        }
    }
    if dns.len() > 0 && !dns.contains('.') {
        if name.len() < dns.len() {
            assert(dns[name.len() as int] == '.');
        }
        assert(name == dns);
    }
    if short.len() > 0 && !short.contains('.') && dns == short + seq!['.'] + rest {
        assert forall|i: int| 0 <= i < short.len() implies dns[i] == short[i] && short[i]
            != '.' by {
            assert(short.contains(short[i]));
        }
        assert(name.len() >= short.len()) by {
            if name.len() < short.len() {
                assert(dns[short.len() - 1] == '.');
            }
        }
        assert forall|i: int| 0 <= i < short.len() implies name[i] == short[i] by {
            assert(name[i] == dns[i]);
        }
        assert(n >= short.len()) by {
            if n < short.len() {
                assert(name[n] == '.');
            }
        }
        if name.len() > short.len() {
            assert(name[short.len() as int] == dns[short.len() as int]);
            assert(n == short.len());
            assert(name.take(n) == short);
        } else {
            assert(name == short);
        }
    }
}

/// Nodes and explicit origins are seen as what is held, field by field.
pub proof fn law_what_is_seen_is_held(
    node: TailscaleNode,
    origin: StaticOrigin,
)
    ensures
        node@.id == node.id@,
        node@.host_name == node.host_name@,
        node@.dns_name == node.dns_name@,
        node@.online == node.online,
        origin@.key == origin.key@,
        origin@.label == text_or_none(origin.label),
        origin@.socket == origin.socket_path@,
{
}

/// Nodes and explicit origins are taken as they come, each in its place.
pub proof fn law_rows_are_seen_in_their_places(
    node: TailscaleNode,
    peers: Seq<(String, TailscaleNode)>,
    statics: Seq<StaticOrigin>,
)
    ensures
        id_of(Some(node)) == Some(node.id@),
        id_of(None) is None,
        peer_nodes(peers).len() == peers.len(),
        forall|i: int| 0 <= i < peers.len() ==> #[trigger] peer_nodes(peers)[i] == peers[i].1@,
        static_views(statics).len() == statics.len(),
        forall|i: int|
            0 <= i < statics.len() ==> #[trigger] static_views(statics)[i] == statics[i]@,
{
}

/// What a discovery pass comes to. The local node is no origin, unless it is configured as
/// one; an online peer with a key for an id is one; every explicit origin is one, through
/// its own socket where it is the last with its key; and whoever is one is a peer that is
/// online, or explicit.
pub proof fn law_what_discovery_comes_to(
    status: &TailscaleStatus,
    config: &DiscoveryConfig,
    r: Vec<Origin>,
    key: Seq<char>,
)
    requires
        call_ensures(discover, (status, config), r),
    ensures
        ({
            let is_static = exists|i: int|
                0 <= i < config.static_origins@.len() && (
                #[trigger] config.static_origins@[i]).key@ == key;
            let is_peer = exists|i: int|
                0 <= i < status.peers@.len() && (#[trigger] status.peers@[i]).1.id@ == key
                    && status.peers@[i].1.online;
            let is_local = status.self_node matches Some(node) && node.id@ == key;
            let is_origin = exists|i: int| 0 <= i < r@.len() && (#[trigger] r@[i]).key@ == key;
            is_origin <==> is_static || (is_peer && !is_local && valid_key(key))
        }),
        forall|i: int, k: int|
            #![trigger config.static_origins@[i], r@[k]]
            0 <= i < config.static_origins@.len() && 0 <= k < r@.len() && r@[k].key@
                == config.static_origins@[i].key@ && (forall|j: int|
                i < j < config.static_origins@.len() ==> (
                #[trigger] config.static_origins@[j]).key@ != config.static_origins@[i].key@)
                ==> {
                &&& r@[k].target@ == config.static_origins@[i].socket_path@
                &&& config.static_origins@[i].label matches Some(label) ==> r@[k].label@ == label@
            },
        forall|i: int, j: int|
            0 <= i < j < r@.len() ==> text_before((#[trigger] r@[i]).key@, (#[trigger] r@[j]).key@),
{
    let nodes = peer_nodes(status.peers@);
    let self_id = id_of(status.self_node);
    let dir = config.forwarded_socket_dir@;
    let statics = static_views(config.static_origins@);
    let found = reachable(nodes, self_id, dir, statics);
    let views = origin_views(r@);
    assert(views == listing(found));
    law_who_is_discovered(nodes, self_id, dir, statics, key);
    assert forall|i: int| 0 <= i < r@.len() implies #[trigger] views[i].key == r@[i].key@ by {
    }
    if has_key(views, key) {
        let i = choose|i: int| 0 <= i < views.len() && (#[trigger] views[i]).key == key;
        assert(r@[i].key@ == key);
    }
    if exists|i: int| 0 <= i < r@.len() && (#[trigger] r@[i]).key@ == key {
        let i = choose|i: int| 0 <= i < r@.len() && (#[trigger] r@[i]).key@ == key;
        assert(views[i].key == key);
    }
    if names_key(statics, key) {
        let i = choose|i: int| 0 <= i < statics.len() && (#[trigger] statics[i]).key == key;
        assert(config.static_origins@[i].key@ == key);
    }
    if exists|i: int|
        0 <= i < config.static_origins@.len() && (#[trigger] config.static_origins@[i]).key@
            == key {
        let i = choose|i: int|
            0 <= i < config.static_origins@.len() && (#[trigger] config.static_origins@[i]).key@
                == key;
        assert(statics[i].key == key);
    }
    if reaches(nodes, self_id, key) {
        let i = choose|i: int|
            0 <= i < nodes.len() && (#[trigger] nodes[i]).id == key && is_reachable(
                nodes[i],
                self_id,
            );
        assert(status.peers@[i].1.id@ == key && status.peers@[i].1.online);
    }
    if valid_key(key) && self_id != Some(key) && exists|i: int|
        0 <= i < status.peers@.len() && (#[trigger] status.peers@[i]).1.id@ == key
            && status.peers@[i].1.online {
        let i = choose|i: int|
            0 <= i < status.peers@.len() && (#[trigger] status.peers@[i]).1.id@ == key
                && status.peers@[i].1.online;
        assert(nodes[i].id == key && is_reachable(nodes[i], self_id));
    }
    assert forall|i: int, k: int|
        #![trigger config.static_origins@[i], r@[k]]
        0 <= i < config.static_origins@.len() && 0 <= k < r@.len() && r@[k].key@
            == config.static_origins@[i].key@ && (forall|j: int|
            i < j < config.static_origins@.len() ==> (#[trigger] config.static_origins@[j]).key@
                != config.static_origins@[i].key@) implies ({
        &&& r@[k].target@ == config.static_origins@[i].socket_path@
        &&& config.static_origins@[i].label matches Some(label) ==> r@[k].label@ == label@
    }) by {
        assert(statics[i] == config.static_origins@[i]@);
        assert forall|j: int| i < j < statics.len() implies (#[trigger] statics[j]).key
            != statics[i].key by {
            assert(config.static_origins@[j].key@ != config.static_origins@[i].key@);
        }
        law_statics_win(nodes, self_id, dir, statics, i);
        assert(views[k] == r@[k]@);
        assert(found[views[k].key] == views[k]);
    }
    assert forall|i: int, j: int| 0 <= i < j < r@.len() implies text_before(
        (#[trigger] r@[i]).key@,
        (#[trigger] r@[j]).key@,
    ) by {
        assert(text_before(views[i].key, views[j].key));
    }
}

} // verus!
