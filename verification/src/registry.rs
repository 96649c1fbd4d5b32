//! The set of federated origins the local hub aggregates.
//!
//! Keyed by the durable [`OriginKey`], so that an origin that is discovered
//! again with another address or name is updated in place, never doubled.
use vstd::prelude::*;

use crate::keyed::{
    by_key, has_key, lemma_by_key_is_well_keyed, lemma_laid_over, lemma_last_counts, lemma_listing,
    listing, lists, well_keyed, KeyedOrigins,
};
use crate::origin::{origin_views, same_origin, Origin, OriginKey, OriginView};
use crate::path::same_path;
use crate::seqs::{
    first_index, first_seen, law_first_seen_keeps_the_order, lemma_filter_contains,
    lemma_filter_keeps_order, lemma_filter_no_duplicates, lemma_filter_push, lemma_first_seen,
    lemma_first_seen_push,
};
use crate::text::{lemma_text_before_asymmetric, text_before};

verus! {

/// What a [`FederationRegistry::reconcile`] pass changed.
#[derive(Debug, Default, Clone, PartialEq, Eq)]
pub struct ReconcileDelta {
    /// Origins present after the pass that were absent before.
    pub added: Vec<OriginKey>,
    /// Origins whose target or label changed but whose key persisted.
    pub updated: Vec<OriginKey>,
    /// Origins absent after the pass that were present before.
    pub removed: Vec<OriginKey>,
}

/// A change, as the keys it speaks of.
#[verifier::ext_equal]
pub struct DeltaView {
    pub added: Seq<Seq<char>>,
    pub updated: Seq<Seq<char>>,
    pub removed: Seq<Seq<char>>,
}

/// Each of a row of keys, as text.
pub open spec fn key_texts(keys: Seq<OriginKey>) -> Seq<Seq<char>> {
    keys.map_values(|key: OriginKey| key@)
}

/// The keys of a row of origins.
pub open spec fn keys_of(row: Seq<OriginView>) -> Seq<Seq<char>> {
    row.map_values(|origin: OriginView| origin.key)
}

impl View for ReconcileDelta {
    type V = DeltaView;

    open spec fn view(&self) -> DeltaView {
        DeltaView {
            added: key_texts(self.added@),
            updated: key_texts(self.updated@),
            removed: key_texts(self.removed@),
        }
    }
}

impl DeltaView {
    /// Whether nothing changed.
    pub open spec fn is_empty(self) -> bool {
        self.added.len() == 0 && self.updated.len() == 0 && self.removed.len() == 0
    }
}

impl ReconcileDelta {
    /// Whether nothing changed.
    pub fn is_empty(&self) -> (r: bool)
        ensures
            r == self@.is_empty(),
    {
        self.added.len() == 0 && self.updated.len() == 0 && self.removed.len() == 0
    }
}

// ---------------------------------------------------------------------------
// What a pass changes

/// The keys of a row that a map has not, each once, in the order in which the
/// row first names them.
pub open spec fn added_keys(m: Map<Seq<char>, OriginView>, row: Seq<OriginView>) -> Seq<
    Seq<char>,
> {
    first_seen(keys_of(row)).filter(|key: Seq<char>| !m.contains_key(key))
}

/// Whether a key is in a map and in a row, with another origin in the row. Of
/// several origins that the row has under the key, the last one counts.
pub open spec fn is_updated(
    m: Map<Seq<char>, OriginView>,
    row: Seq<OriginView>,
    key: Seq<char>,
) -> bool {
    m.contains_key(key) && has_key(row, key) && !same_origin(m[key], by_key(row)[key])
}

/// The keys whose origin in a map becomes another in a row, each once, in the
/// order in which the row first names them.
pub open spec fn updated_keys(m: Map<Seq<char>, OriginView>, row: Seq<OriginView>) -> Seq<
    Seq<char>,
> {
    first_seen(keys_of(row)).filter(|key: Seq<char>| is_updated(m, row, key))
}

/// The keys of a map that a row has not, by increasing key.
pub open spec fn removed_keys(m: Map<Seq<char>, OriginView>, row: Seq<OriginView>) -> Seq<
    Seq<char>,
> {
    keys_of(listing(m).filter(|origin: OriginView| !has_key(row, origin.key)))
}

/// What replacing a map by a row changes.
pub open spec fn delta_of(m: Map<Seq<char>, OriginView>, row: Seq<OriginView>) -> DeltaView {
    DeltaView {
        added: added_keys(m, row),
        updated: updated_keys(m, row),
        removed: removed_keys(m, row),
    }
}

// ---------------------------------------------------------------------------

/// Registry of federated origins, ordered by durable key.
#[derive(Debug)]
pub struct FederationRegistry {
    origins: KeyedOrigins,
}

impl View for FederationRegistry {
    type V = Map<Seq<char>, OriginView>;

    closed spec fn view(&self) -> Map<Seq<char>, OriginView> {
        self.origins@
    }
}

impl Clone for FederationRegistry {
    fn clone(&self) -> (r: Self)
        ensures
            r@ == self@,
    {
        FederationRegistry { origins: self.origins.clone() }
    }
}

impl Default for FederationRegistry {
    fn default() -> (r: Self)
        ensures
            r@ == Map::<Seq<char>, OriginView>::empty(),
    {
        FederationRegistry { origins: KeyedOrigins::new() }
    }
}

/// Each of a row of borrowed origins, as text.
pub open spec fn borrowed_views(row: Seq<&Origin>) -> Seq<OriginView> {
    row.map_values(|origin: &Origin| origin@)
}

/// Each of a row of borrowed keys, as text.
pub open spec fn borrowed_keys(row: Seq<&OriginKey>) -> Seq<Seq<char>> {
    row.map_values(|key: &OriginKey| key@)
}

impl FederationRegistry {
    pub fn new() -> (r: FederationRegistry)
        ensures
            r@ == Map::<Seq<char>, OriginView>::empty(),
    {
        FederationRegistry { origins: KeyedOrigins::new() }
    }

    /// Inserts or replaces an origin, returning the previous entry if any.
    pub fn upsert(&mut self, origin: Origin) -> (r: Option<Origin>)
        ensures
            final(self)@ == old(self)@.insert(origin@.key, origin@),
            r is Some <==> old(self)@.contains_key(origin@.key),
            r matches Some(previous) ==> previous@ == old(self)@[origin@.key],
    {
        self.origins.insert(origin)
    }

    /// Removes an origin and gives it back.
    pub fn remove(&mut self, key: &OriginKey) -> (r: Option<Origin>)
        ensures
            final(self)@ == old(self)@.remove(key@),
            r is Some <==> old(self)@.contains_key(key@),
            r matches Some(previous) ==> previous@ == old(self)@[key@],
    {
        self.origins.remove(key)
    }

    pub fn get(&self, key: &OriginKey) -> (r: Option<&Origin>)
        ensures
            r is Some <==> self@.contains_key(key@),
            r matches Some(origin) ==> origin@ == self@[key@],
    {
        self.origins.get(key)
    }

    pub fn contains(&self, key: &OriginKey) -> (r: bool)
        ensures
            r == self@.contains_key(key@),
    {
        self.origins.get(key).is_some()
    }

    pub fn len(&self) -> (r: usize)
        ensures
            self@.dom().finite(),
            r == self@.len(),
    {
        self.origins.values().len()
    }

    pub fn is_empty(&self) -> (r: bool)
        ensures
            r == (self@ == Map::<Seq<char>, OriginView>::empty()),
    {
        let values = self.origins.values();
        proof {
            let row = origin_views(values@);
            if values@.len() == 0 {
                assert forall|key: Seq<char>| !self@.contains_key(key) by {
                }
                assert(self@ == Map::<Seq<char>, OriginView>::empty());
            } else {
                assert(has_key(row, row[0].key));
            }
        }
        values.len() == 0
    }

    /// Origins in stable key order.
    pub fn iter(&self) -> (r: Vec<&Origin>)
        ensures
            well_keyed(self@),
            lists(borrowed_views(r@), self@),
            borrowed_views(r@) == listing(self@),
    {
        let values = self.origins.values();
        let mut r: Vec<&Origin> = Vec::new();
        let mut i: usize = 0;
        while i < values.len()
            invariant
                i <= values@.len(),
                borrowed_views(r@) == origin_views(values@).take(i as int),
            decreases values@.len() - i,
        {
            let ghost before = r@;
            r.push(&values[i]);
            assert(borrowed_views(r@) == borrowed_views(before).push(values@[i as int]@));
            assert(borrowed_views(r@) == origin_views(values@).take(i + 1));
            i = i + 1;
        }
        assert(borrowed_views(r@) == origin_views(values@));
        r
    }

    /// Keys in stable order.
    pub fn keys(&self) -> (r: Vec<&OriginKey>)
        ensures
            borrowed_keys(r@) == keys_of(listing(self@)),
    {
        let values = self.origins.values();
        let mut r: Vec<&OriginKey> = Vec::new();
        let mut i: usize = 0;
        while i < values.len()
            invariant
                i <= values@.len(),
                borrowed_keys(r@) == keys_of(origin_views(values@)).take(i as int),
            decreases values@.len() - i,
        {
            let ghost before = r@;
            r.push(&values[i].key);
            assert(borrowed_keys(r@) == borrowed_keys(before).push(values@[i as int].key@));
            assert(borrowed_keys(r@) == keys_of(origin_views(values@)).take(i + 1));
            i = i + 1;
        }
        assert(borrowed_keys(r@) == keys_of(origin_views(values@)));
        r
    }

    /// Replaces the whole set from a fresh discovery pass, reporting what
    /// changed.
    ///
    /// Additions and updates are applied and keys that are no longer present
    /// are removed: a discovery pass is authoritative about who is reachable.
    pub fn reconcile(&mut self, discovered: Vec<Origin>) -> (r: ReconcileDelta)
        ensures
            final(self)@ == by_key(origin_views(discovered@)),
            r@ == delta_of(old(self)@, origin_views(discovered@)),
    {
        let ghost m = self@;
        let ghost row = origin_views(discovered@);
        let removed = self.missing_from(&discovered);
        let fresh = gather(&discovered);
        let ghost is_new = |key: Seq<char>| !m.contains_key(key);
        let ghost is_other = |key: Seq<char>| is_updated(m, row, key);
        let mut added: Vec<OriginKey> = Vec::new();
        let mut updated: Vec<OriginKey> = Vec::new();
        let mut i: usize = 0;
        proof {
            reveal(Seq::filter);
            let seen = first_seen(keys_of(row.take(0)));
            assert(key_texts(added@) == seen.filter(is_new));
            assert(key_texts(updated@) == seen.filter(is_other));
            lemma_laid_over(Map::empty(), row);
        }
        while i < discovered.len()
            invariant
                i <= discovered@.len(),
                row == origin_views(discovered@),
                self@ == m,
                fresh@ == by_key(row),
                is_new == (|key: Seq<char>| !m.contains_key(key)),
                is_other == (|key: Seq<char>| is_updated(m, row, key)),
                forall|key: Seq<char>| #[trigger]
                    by_key(row).contains_key(key) <==> has_key(row, key),
                key_texts(added@) == first_seen(keys_of(row.take(i as int))).filter(is_new),
                key_texts(updated@) == first_seen(keys_of(row.take(i as int))).filter(is_other),
            decreases discovered@.len() - i,
        {
            let key = &discovered[i].key;
            let ghost done = keys_of(row.take(i as int));
            let ghost added_before = added@;
            let ghost updated_before = updated@;
            proof {
                assert(keys_of(row.take(i + 1)) == done.push(key@));
                lemma_first_seen_push(done, key@);
                lemma_filter_push(first_seen(done), key@, is_new);
                lemma_filter_push(first_seen(done), key@, is_other);
                lemma_keys_of(row.take(i as int), key@);
                assert(row[i as int].key == key@);
                assert(has_key(row, key@));
            }
            if !holds_key(&discovered, i, key) {
                match (self.origins.get(key), fresh.get(key)) {
                    (None, _) => {
                        added.push(key.clone());
                        assert(key_texts(added@) == key_texts(added_before).push(key@));
                    },
                    (Some(before), Some(after)) => {
                        if *before != *after {
                            updated.push(key.clone());
                            assert(key_texts(updated@) == key_texts(updated_before).push(key@));
                        }
                    },
                    (Some(_), None) => {
                        assert(by_key(row).contains_key(key@));
                    },
                }
            }
            i = i + 1;
        }
        assert(row.take(i as int) == row);
        self.origins = fresh;
        ReconcileDelta { added, updated, removed }
    }

    /// The keys that a discovery pass did not find, in key order.
    fn missing_from(&self, discovered: &Vec<Origin>) -> (r: Vec<OriginKey>)
        ensures
            lists(listing(self@), self@),
            key_texts(r@) == removed_keys(self@, origin_views(discovered@)),
    {
        let ghost row = origin_views(discovered@);
        let ghost keep = |origin: OriginView| !has_key(row, origin.key);
        let values = self.origins.values();
        let ghost all = origin_views(values@);
        let mut r: Vec<OriginKey> = Vec::new();
        let mut i: usize = 0;
        proof {
            reveal(Seq::filter);
            assert(key_texts(r@) == keys_of(all.take(0).filter(keep)));
        }
        while i < values.len()
            invariant
                i <= values@.len(),
                row == origin_views(discovered@),
                keep == (|origin: OriginView| !has_key(row, origin.key)),
                all == origin_views(values@),
                key_texts(r@) == keys_of(all.take(i as int).filter(keep)),
            decreases values@.len() - i,
        {
            let ghost before = r@;
            proof {
                assert(row.take(row.len() as int) == row);
                assert(all.take(i + 1) == all.take(i as int).push(all[i as int]));
                lemma_filter_push(all.take(i as int), all[i as int], keep);
            }
            if !holds_key(discovered, discovered.len(), &values[i].key) {
                r.push(values[i].key.clone());
                proof {
                    let kept = all.take(i as int).filter(keep);
                    assert(key_texts(r@) == key_texts(before).push(all[i as int].key));
                    assert(keys_of(kept.push(all[i as int])) == keys_of(kept).push(
                        all[i as int].key,
                    ));
                }
            }
            i = i + 1;
        }
        assert(all.take(i as int) == all);
        r
    }
}

/// A row of origins, by key.
fn gather(row: &Vec<Origin>) -> (r: KeyedOrigins)
    ensures
        r@ == by_key(origin_views(row@)),
{
    let mut r = KeyedOrigins::new();
    let ghost all = origin_views(row@);
    let mut i: usize = 0;
    while i < row.len()
        invariant
            i <= row@.len(),
            all == origin_views(row@),
            r@ == by_key(all.take(i as int)),
        decreases row@.len() - i,
    {
        proof {
            let next = all.take(i + 1);
            assert(next.drop_last() == all.take(i as int));
            assert(next.last() == row@[i as int]@);
        }
        r.insert(row[i].clone());
        i = i + 1;
    }
    assert(all.take(i as int) == all);
    r
}

/// Whether one of the first `n` of a row of origins has a key.
fn holds_key(row: &Vec<Origin>, n: usize, key: &OriginKey) -> (r: bool)
    requires
        n <= row@.len(),
    ensures
        r == has_key(origin_views(row@).take(n as int), key@),
{
    let ghost first = origin_views(row@).take(n as int);
    let mut i: usize = 0;
    while i < n
        invariant
            i <= n <= row@.len(),
            first == origin_views(row@).take(n as int),
            forall|k: int| 0 <= k < i ==> (#[trigger] first[k]).key != key@,
        decreases n - i,
    {
        if row[i].key == *key {
            assert(first[i as int].key == key@);
            return true;
        }
        i = i + 1;
    }
    false
}

// ---------------------------------------------------------------------------
// What reconciling keeps

/// The removed keys are those that were there and were not discovered.
proof fn lemma_removed_keys(
    m: Map<Seq<char>, OriginView>,
    row: Seq<OriginView>,
    list: Seq<OriginView>,
)
    requires
        list == listing(m),
        lists(list, m),
    ensures
        forall|key: Seq<char>| #[trigger]
            removed_keys(m, row).contains(key) <==> m.contains_key(key) && !has_key(row, key),
{
    let keep = |origin: OriginView| !has_key(row, origin.key);
    let kept = list.filter(keep);
    assert forall|key: Seq<char>| #[trigger]
        removed_keys(m, row).contains(key) <==> m.contains_key(key) && !has_key(row, key) by {
        if keys_of(kept).contains(key) {
            let k = choose|k: int| 0 <= k < kept.len() && keys_of(kept)[k] == key;
            assert(kept.contains(kept[k]));
            lemma_filter_contains(list, keep, kept[k]);
            let i = choose|i: int| 0 <= i < list.len() && list[i] == kept[k];
            assert(list[i].key == key);
            assert(has_key(list, key));
        }
        if m.contains_key(key) && !has_key(row, key) {
            let i = choose|i: int| 0 <= i < list.len() && (#[trigger] list[i]).key == key;
            assert(list.contains(list[i]));
            lemma_filter_contains(list, keep, list[i]);
            let k = choose|k: int| 0 <= k < kept.len() && kept[k] == list[i];
            assert(keys_of(kept)[k] == key);
        }
    }
}

/// The keys of a row are those that it has.
proof fn lemma_keys_of(row: Seq<OriginView>, key: Seq<char>)
    ensures
        keys_of(row).contains(key) <==> has_key(row, key),
{
    if keys_of(row).contains(key) {
        let i = choose|i: int| 0 <= i < row.len() && keys_of(row)[i] == key;
        assert(row[i].key == key);
    }
    if has_key(row, key) {
        let i = choose|i: int| 0 <= i < row.len() && (#[trigger] row[i]).key == key;
        assert(keys_of(row)[i] == key);
    }
}

/// What a pass reports: the added keys are the discovered ones that were absent
/// before, the updated ones those that were there before and are now there with
/// another label or target, and the removed ones those that were there and were
/// not discovered.
pub proof fn law_delta_says_what_changed(
    m: Map<Seq<char>, OriginView>,
    row: Seq<OriginView>,
    key: Seq<char>,
)
    requires
        well_keyed(m),
    ensures
        delta_of(m, row).added.contains(key) <==> has_key(row, key)
            && !m.contains_key(key),
        delta_of(m, row).updated.contains(key) <==> has_key(row, key)
            && m.contains_key(key) && !same_origin(m[key], by_key(row)[key]),
        delta_of(m, row).removed.contains(key) <==> m.contains_key(key)
            && !has_key(row, key),
{
    lemma_listing(m);
    lemma_removed_keys(m, row, listing(m));
    lemma_keys_of(row, key);
    lemma_first_seen(keys_of(row));
    let seen = first_seen(keys_of(row));
    lemma_filter_contains(seen, |key: Seq<char>| !m.contains_key(key), key);
    lemma_filter_contains(seen, |key: Seq<char>| is_updated(m, row, key), key);
}

/// A key is reported once at most, however often the pass names it.
pub proof fn law_delta_names_a_key_once(m: Map<Seq<char>, OriginView>, row: Seq<OriginView>)
    requires
        well_keyed(m),
    ensures
        ({
            let delta = delta_of(m, row);
            (delta.added + delta.updated + delta.removed).no_duplicates()
        }),
{
    let delta = delta_of(m, row);
    let seen = first_seen(keys_of(row));
    lemma_first_seen(keys_of(row));
    lemma_filter_no_duplicates(seen, |key: Seq<char>| !m.contains_key(key));
    lemma_filter_no_duplicates(seen, |key: Seq<char>| is_updated(m, row, key));
    lemma_listing(m);
    let list = listing(m);
    assert forall|i: int, j: int| 0 <= i < j < list.len() implies list[i] != list[j] by {
        lemma_text_before_asymmetric(list[i].key, list[j].key);
    }
    let keep = |origin: OriginView| !has_key(row, origin.key);
    lemma_filter_no_duplicates(list, keep);
    let kept = list.filter(keep);
    assert forall|i: int, j: int| 0 <= i < j < delta.removed.len() implies delta.removed[i]
        != delta.removed[j] by {
        assert(kept.contains(kept[i]) && kept.contains(kept[j]));
        lemma_filter_contains(list, keep, kept[i]);
        lemma_filter_contains(list, keep, kept[j]);
        let a = choose|a: int| 0 <= a < list.len() && list[a] == kept[i];
        let b = choose|b: int| 0 <= b < list.len() && list[b] == kept[j];
        assert(m[list[a].key] == list[a] && m[list[b].key] == list[b]);
    }
    let all = delta.added + delta.updated + delta.removed;
    assert forall|i: int, j: int| 0 <= i < j < all.len() implies all[i] != all[j] by {
        law_delta_says_what_changed(m, row, all[i]);
        let n = delta.added.len() as int;
        let k = n + delta.updated.len();
        if i < n {
            assert(all[i] == delta.added[i]);
        } else if i < k {
            assert(all[i] == delta.updated[i - n]);
        } else {
            assert(all[i] == delta.removed[i - k]);
        }
        if j < n {
            assert(all[j] == delta.added[j]);
        } else if j < k {
            assert(all[j] == delta.updated[j - n]);
        } else {
            assert(all[j] == delta.removed[j - k]);
        }
    }
}

/// Reconciling the same pass again changes nothing.
pub proof fn law_reconciling_again_changes_nothing(row: Seq<OriginView>)
    ensures
        delta_of(by_key(row), row).is_empty(),
{
    let delta = delta_of(by_key(row), row);
    lemma_laid_over(Map::empty(), row);
    lemma_by_key_is_well_keyed(row);
    if delta.added.len() > 0 {
        law_delta_says_what_changed(by_key(row), row, delta.added[0]);
        assert(delta.added.contains(delta.added[0]));
    }
    if delta.updated.len() > 0 {
        law_delta_says_what_changed(by_key(row), row, delta.updated[0]);
        assert(delta.updated.contains(delta.updated[0]));
    }
    if delta.removed.len() > 0 {
        law_delta_says_what_changed(by_key(row), row, delta.removed[0]);
        assert(delta.removed.contains(delta.removed[0]));
    }
}

/// A report names keys in order: those that were added and those that were updated as
/// the pass first names them, those that were removed by increasing key.
pub proof fn law_delta_names_keys_in_order(m: Map<Seq<char>, OriginView>, row: Seq<OriginView>)
    requires
        well_keyed(m),
    ensures
        ({
            let delta = delta_of(m, row);
            let names = row.map_values(|origin: OriginView| origin.key);
            &&& forall|i: int, j: int|
                0 <= i < j < delta.added.len() ==> first_index(names, #[trigger] delta.added[i])
                    < first_index(names, #[trigger] delta.added[j])
            &&& forall|i: int, j: int|
                0 <= i < j < delta.updated.len() ==> first_index(
                    names,
                    #[trigger] delta.updated[i],
                ) < first_index(names, #[trigger] delta.updated[j])
            &&& forall|i: int, j: int|
                0 <= i < j < delta.removed.len() ==> text_before(
                    #[trigger] delta.removed[i],
                    #[trigger] delta.removed[j],
                )
        }),
{
    let delta = delta_of(m, row);
    let names = keys_of(row);
    let seen = first_seen(names);
    let earlier = |a: Seq<char>, b: Seq<char>| first_index(names, a) < first_index(names, b);
    law_first_seen_keeps_the_order(names);
    lemma_filter_keeps_order(seen, |key: Seq<char>| !m.contains_key(key), earlier);
    lemma_filter_keeps_order(seen, |key: Seq<char>| is_updated(m, row, key), earlier);
    assert forall|i: int, j: int| 0 <= i < j < delta.added.len() implies first_index(
        names,
        #[trigger] delta.added[i],
    ) < first_index(names, #[trigger] delta.added[j]) by {
        assert(earlier(delta.added[i], delta.added[j]));
    }
    assert forall|i: int, j: int| 0 <= i < j < delta.updated.len() implies first_index(
        names,
        #[trigger] delta.updated[i],
    ) < first_index(names, #[trigger] delta.updated[j]) by {
        assert(earlier(delta.updated[i], delta.updated[j]));
    }
    lemma_listing(m);
    let lesser = |a: OriginView, b: OriginView| text_before(a.key, b.key);
    let keep = |origin: OriginView| !has_key(row, origin.key);
    lemma_filter_keeps_order(listing(m), keep, lesser);
    let kept = listing(m).filter(keep);
    assert forall|i: int, j: int| 0 <= i < j < delta.removed.len() implies text_before(
        #[trigger] delta.removed[i],
        #[trigger] delta.removed[j],
    ) by {
        assert(lesser(kept[i], kept[j]));
    }
}

/// Of several origins that a pass names under one key, the last is the one that is
/// kept, and the one that is compared with what was there before.
pub proof fn law_the_last_of_a_pass_counts(
    m: Map<Seq<char>, OriginView>,
    row: Seq<OriginView>,
    i: int,
)
    requires
        well_keyed(m),
        0 <= i < row.len(),
        forall|j: int| i < j < row.len() ==> (#[trigger] row[j]).key != row[i].key,
    ensures
        by_key(row).contains_key(row[i].key),
        by_key(row)[row[i].key] == row[i],
        m.contains_key(row[i].key) ==> (delta_of(m, row).updated.contains(row[i].key) <==> {
            let before = m[row[i].key];
            ||| before.key != row[i].key
            ||| before.label != row[i].label
            ||| !same_path(before.socket, row[i].socket)
        }),
{
    lemma_last_counts(Map::empty(), row, i);
    law_delta_says_what_changed(m, row, row[i].key);
    assert(has_key(row, row[i].key));
}

/// A change is seen as what is held, field by field.
pub proof fn law_what_is_seen_is_held(delta: ReconcileDelta)
    ensures
        delta@.added == key_texts(delta.added@),
        delta@.updated == key_texts(delta.updated@),
        delta@.removed == key_texts(delta.removed@),
{
}

/// Keys and origins are seen each in its place.
pub proof fn law_rows_are_seen_in_their_places(
    keys: Seq<OriginKey>,
    row: Seq<OriginView>,
    borrowed: Seq<&Origin>,
    names: Seq<&OriginKey>,
)
    ensures
        key_texts(keys).len() == keys.len(),
        forall|i: int| 0 <= i < keys.len() ==> #[trigger] key_texts(keys)[i] == keys[i]@,
        keys_of(row).len() == row.len(),
        forall|i: int| 0 <= i < row.len() ==> #[trigger] keys_of(row)[i] == row[i].key,
        borrowed_views(borrowed).len() == borrowed.len(),
        forall|i: int|
            0 <= i < borrowed.len() ==> #[trigger] borrowed_views(borrowed)[i] == borrowed[i]@,
        borrowed_keys(names).len() == names.len(),
        forall|i: int| 0 <= i < names.len() ==> #[trigger] borrowed_keys(names)[i] == names[i]@,
{
}

/// A change is empty just where it names no key, and then the pass found what was there:
/// the same keys, and under each an origin that says the same.
pub proof fn law_an_empty_change_changes_nothing(
    m: Map<Seq<char>, OriginView>,
    row: Seq<OriginView>,
    key: Seq<char>,
)
    requires
        well_keyed(m),
    ensures
        ({
            let delta = delta_of(m, row);
            let named = delta.added.contains(key) || delta.updated.contains(key)
                || delta.removed.contains(key);
            &&& named ==> !delta.is_empty()
            &&& delta.added.len() + delta.updated.len() + delta.removed.len() > 0
                ==> !delta.is_empty()
            &&& delta.added.len() + delta.updated.len() + delta.removed.len() == 0
                ==> delta.is_empty()
            &&& delta.is_empty() ==> {
                &&& m.contains_key(key) <==> by_key(row).contains_key(key)
                &&& m.contains_key(key) ==> same_origin(m[key], by_key(row)[key])
            }
        }),
{
    law_delta_says_what_changed(m, row, key);
    lemma_laid_over(Map::empty(), row);
    assert(by_key(row).contains_key(key) <==> has_key(row, key));
}

} // verus!
