//! Origins by key, in the order of their keys.
use vstd::prelude::*;

use crate::origin::{origin_views, Origin, OriginKey, OriginView};
use crate::text::{
    lemma_text_before_asymmetric, lemma_text_before_total, lemma_text_before_transitive, precedes,
    text_before,
};

verus! {

/// A map with a row of origins inserted in turn, each under its key.
pub open spec fn laid_over(m: Map<Seq<char>, OriginView>, row: Seq<OriginView>) -> Map<
    Seq<char>,
    OriginView,
>
    decreases row.len(),
{
    if row.len() == 0 {
        m
    } else {
        laid_over(m, row.drop_last()).insert(row.last().key, row.last())
    }
}

/// A row of origins by key; of several with one key, the last.
pub open spec fn by_key(row: Seq<OriginView>) -> Map<Seq<char>, OriginView> {
    laid_over(Map::empty(), row)
}

/// Whether a row has an origin with a key.
pub open spec fn has_key(row: Seq<OriginView>, key: Seq<char>) -> bool {
    exists|i: int| 0 <= i < row.len() && (#[trigger] row[i]).key == key
}

/// Whether the keys of a row increase.
pub open spec fn increasing(row: Seq<OriginView>) -> bool {
    forall|i: int, j: int|
        0 <= i < j < row.len() ==> text_before((#[trigger] row[i]).key, (#[trigger] row[j]).key)
}

/// Whether a row lists a map: every origin of it once, by increasing key.
pub open spec fn lists(row: Seq<OriginView>, m: Map<Seq<char>, OriginView>) -> bool {
    &&& increasing(row)
    &&& forall|key: Seq<char>| #[trigger] m.contains_key(key) <==> has_key(row, key)
    &&& forall|i: int| 0 <= i < row.len() ==> m[(#[trigger] row[i]).key] == row[i]
}

/// The origins of a map, by increasing key.
pub open spec fn listing(m: Map<Seq<char>, OriginView>) -> Seq<OriginView> {
    choose|row: Seq<OriginView>| lists(row, m)
}

/// What a map holds after a row is laid over it: the row's origins, and what
/// was there under other keys.
pub proof fn lemma_laid_over(m: Map<Seq<char>, OriginView>, row: Seq<OriginView>)
    ensures
        forall|key: Seq<char>| #[trigger]
            laid_over(m, row).contains_key(key) <==> m.contains_key(key) || has_key(row, key),
        forall|key: Seq<char>|
            !has_key(row, key) ==> #[trigger] laid_over(m, row)[key] == m[key],
        forall|key: Seq<char>|
            has_key(row, key) ==> (#[trigger] laid_over(m, row)[key]).key == key,
        forall|key: Seq<char>|
            has_key(row, key) ==> #[trigger] laid_over(m, row)[key] == by_key(row)[key],
    decreases row.len(),
{
    if row.len() > 0 {
        let rest = row.drop_last();
        lemma_laid_over(m, rest);
        lemma_laid_over(Map::empty(), rest);
        let last = row.last();
        let before = laid_over(m, rest);
        assert forall|key: Seq<char>| #[trigger]
            laid_over(m, row).contains_key(key) <==> m.contains_key(key) || has_key(row, key) by {
            lemma_has_key_last(row, key);
            assert(before.insert(last.key, last).contains_key(key) <==> before.contains_key(key)
                || key == last.key);
        }
        assert forall|key: Seq<char>| !has_key(row, key) implies #[trigger] laid_over(m, row)[key]
            == m[key] by {
            lemma_has_key_last(row, key);
            assert(before[key] == m[key]);
        }
        assert forall|key: Seq<char>| has_key(row, key) implies (#[trigger] laid_over(
            m,
            row,
        )[key]).key == key by {
            lemma_has_key_last(row, key);
            assert(key != last.key ==> before[key].key == key);
        }
        assert forall|key: Seq<char>| has_key(row, key) implies #[trigger] laid_over(m, row)[key]
            == by_key(row)[key] by {
            lemma_has_key_last(row, key);
            assert(key != last.key ==> before[key] == by_key(rest)[key]);
        }
    } else {
        assert forall|key: Seq<char>| !has_key(row, key) by {
        }
    }
}

/// Of the origins of a row with one key, the last one stands in the map.
pub proof fn lemma_last_counts(m: Map<Seq<char>, OriginView>, row: Seq<OriginView>, i: int)
    requires
        0 <= i < row.len(),
        forall|j: int| i < j < row.len() ==> (#[trigger] row[j]).key != row[i].key,
    ensures
        laid_over(m, row).contains_key(row[i].key),
        laid_over(m, row)[row[i].key] == row[i],
    decreases row.len(),
{
    let rest = row.drop_last();
    if i < rest.len() {
        assert forall|j: int| i < j < rest.len() implies (#[trigger] rest[j]).key
            != rest[i].key by {
            assert(row[j].key != row[i].key);
        }
        lemma_last_counts(m, rest, i);
        assert(row[row.len() - 1].key != row[i].key);
    }
}

/// A row has a key if what comes before its last has it, or its last does.
pub proof fn lemma_has_key_last(row: Seq<OriginView>, key: Seq<char>)
    requires
        row.len() > 0,
    ensures
        has_key(row, key) <==> has_key(row.drop_last(), key) || row.last().key == key,
{
    if has_key(row, key) {
        let i = choose|i: int| 0 <= i < row.len() && (#[trigger] row[i]).key == key;
        if i < row.len() - 1 {
            assert(row.drop_last()[i].key == key);
        }
    }
    if has_key(row.drop_last(), key) {
        let i = choose|i: int|
            0 <= i < row.len() - 1 && (#[trigger] row.drop_last()[i]).key == key;
        assert(row[i].key == key);
    }
    if row.last().key == key {
        assert(row[row.len() - 1].key == key);
    }
}

/// A row whose keys differ lays out its map: under the key of each origin
/// stands that origin.
pub proof fn lemma_distinct_by_key(row: Seq<OriginView>)
    requires
        forall|i: int, j: int|
            0 <= i < j < row.len() ==> (#[trigger] row[i]).key != (#[trigger] row[j]).key,
    ensures
        forall|i: int| 0 <= i < row.len() ==> by_key(row)[(#[trigger] row[i]).key] == row[i],
        by_key(row).dom().finite(),
        by_key(row).len() == row.len(),
    decreases row.len(),
{
    if row.len() > 0 {
        let rest = row.drop_last();
        assert forall|i: int, j: int| 0 <= i < j < rest.len() implies (#[trigger] rest[i]).key != (
        #[trigger] rest[j]).key by {
            assert(row[i].key != row[j].key);
        }
        lemma_distinct_by_key(rest);
        lemma_laid_over(Map::empty(), rest);
        assert forall|i: int| 0 <= i < row.len() implies by_key(row)[(#[trigger] row[i]).key]
            == row[i] by {
            if i < rest.len() {
                assert(row[i] == rest[i]);
                assert(row[i].key != row[row.len() - 1].key);
            }
        }
        assert(!has_key(rest, row.last().key)) by {
            if has_key(rest, row.last().key) {
                let i = choose|i: int|
                    0 <= i < rest.len() && (#[trigger] rest[i]).key == row.last().key;
                assert(row[i].key == row[row.len() - 1].key);
            }
        }
        assert(!by_key(rest).contains_key(row.last().key));
        assert(by_key(row).dom() == by_key(rest).dom().insert(row.last().key));
    } else {
        assert(by_key(row).dom() == Set::<Seq<char>>::empty());
    }
}

/// A row by increasing key lists its map.
pub proof fn lemma_increasing_lists(row: Seq<OriginView>)
    requires
        increasing(row),
    ensures
        lists(row, by_key(row)),
        by_key(row).dom().finite(),
        by_key(row).len() == row.len(),
{
    assert forall|i: int, j: int| 0 <= i < j < row.len() implies (#[trigger] row[i]).key != (
    #[trigger] row[j]).key by {
        lemma_text_before_asymmetric(row[i].key, row[j].key);
    }
    lemma_distinct_by_key(row);
    lemma_laid_over(Map::empty(), row);
}

/// The order of keys leaves no choice: two rows that list one map are the same.
pub proof fn law_listing_is_unique(
    a: Seq<OriginView>,
    b: Seq<OriginView>,
    m: Map<Seq<char>, OriginView>,
)
    requires
        lists(a, m),
        lists(b, m),
    ensures
        a == b,
    decreases a.len(),
{
    if a.len() == 0 {
        if b.len() > 0 {
            assert(has_key(b, b[0].key));
            assert(m.contains_key(b[0].key));
            assert(false);
        }
    } else {
        assert(has_key(a, a.last().key));
        assert(m.contains_key(a.last().key));
        assert(b.len() > 0);
        assert(has_key(b, b.last().key));
        assert(m.contains_key(b.last().key));
        let i = choose|i: int| 0 <= i < b.len() && (#[trigger] b[i]).key == a.last().key;
        let j = choose|j: int| 0 <= j < a.len() && (#[trigger] a[j]).key == b.last().key;
        if a.last().key != b.last().key {
            assert(text_before(b[i].key, b[b.len() - 1].key));
            assert(text_before(a[j].key, a[a.len() - 1].key));
            lemma_text_before_asymmetric(a.last().key, b.last().key);
        }
        let key = a.last().key;
        lemma_lists_drop_last(a, m);
        lemma_lists_drop_last(b, m);
        law_listing_is_unique(a.drop_last(), b.drop_last(), m.remove(key));
        assert(a == a.drop_last().push(a.last()));
        assert(b == b.drop_last().push(b.last()));
    }
}

proof fn lemma_lists_drop_last(row: Seq<OriginView>, m: Map<Seq<char>, OriginView>)
    requires
        lists(row, m),
        row.len() > 0,
    ensures
        lists(row.drop_last(), m.remove(row.last().key)),
{
    let rest = row.drop_last();
    let less = m.remove(row.last().key);
    assert forall|i: int, j: int| 0 <= i < j < rest.len() implies text_before(
        (#[trigger] rest[i]).key,
        (#[trigger] rest[j]).key,
    ) by {
        assert(text_before(row[i].key, row[j].key));
    }
    assert forall|i: int| 0 <= i < rest.len() implies row.last().key != (
    #[trigger] rest[i]).key by {
        lemma_text_before_asymmetric(row[i].key, row[row.len() - 1].key);
    }
    assert forall|key: Seq<char>| #[trigger] less.contains_key(key) <==> has_key(rest, key) by {
        lemma_has_key_last(row, key);
        assert(m.contains_key(key) <==> has_key(row, key));
        if has_key(rest, key) {
            let i = choose|i: int| 0 <= i < rest.len() && (#[trigger] rest[i]).key == key;
            assert(row.last().key != rest[i].key);
        }
    }
    assert forall|i: int| 0 <= i < rest.len() implies less[(#[trigger] rest[i]).key] == rest[i] by {
        assert(m[row[i].key] == row[i]);
    }
}

/// Whether a map is what a set of origins can be: finitely many of them, each
/// under its own key.
pub open spec fn well_keyed(m: Map<Seq<char>, OriginView>) -> bool {
    &&& m.dom().finite()
    &&& forall|key: Seq<char>| #[trigger] m.contains_key(key) ==> m[key].key == key
}

/// Every well-keyed map can be listed.
pub proof fn lemma_listing(m: Map<Seq<char>, OriginView>)
    requires
        well_keyed(m),
    ensures
        lists(listing(m), m),
    decreases m.dom().len(),
{
    if m.dom().len() == 0 {
        assert forall|key: Seq<char>| !m.contains_key(key) by {
            if m.contains_key(key) {
                assert(m.dom().remove(key).len() == m.dom().len() - 1);
            }
        }
        assert(lists(Seq::empty(), m));
    } else {
        let key = m.dom().choose();
        assert(m.contains_key(key));
        let rest = m.remove(key);
        assert(rest.dom() == m.dom().remove(key));
        lemma_listing(rest);
        let row = listing(rest);
        lemma_same_maps(row, rest);
        assert(!has_key(row, key)) by {
            assert(!rest.contains_key(key));
        }
        let slot = lemma_free_slot(row, key);
        lemma_inserted(row, slot, m[key]);
        let more = row.insert(slot, m[key]);
        lemma_increasing_lists(more);
        assert(rest.insert(key, m[key]) == m);
        assert(lists(more, m));
    }
}

/// Where a key that a row has not belongs.
proof fn lemma_free_slot(row: Seq<OriginView>, key: Seq<char>) -> (slot: int)
    requires
        increasing(row),
        !has_key(row, key),
    ensures
        0 <= slot <= row.len(),
        forall|i: int| 0 <= i < slot ==> text_before((#[trigger] row[i]).key, key),
        forall|i: int| slot <= i < row.len() ==> text_before(key, (#[trigger] row[i]).key),
    decreases row.len(),
{
    if row.len() == 0 || text_before(row.last().key, key) {
        assert forall|i: int| 0 <= i < row.len() implies text_before(
            (#[trigger] row[i]).key,
            key,
        ) by {
            if i < row.len() - 1 {
                lemma_text_before_transitive(row[i].key, row[row.len() - 1].key, key);
            }
        }
        row.len() as int
    } else {
        let rest = row.drop_last();
        assert forall|i: int, j: int| 0 <= i < j < rest.len() implies text_before(
            (#[trigger] rest[i]).key,
            (#[trigger] rest[j]).key,
        ) by {
            assert(text_before(row[i].key, row[j].key));
        }
        lemma_has_key_last(row, key);
        lemma_text_before_total(row.last().key, key);
        let slot = lemma_free_slot(rest, key);
        assert forall|i: int| 0 <= i < slot implies text_before((#[trigger] row[i]).key, key) by {
            assert(row[i] == rest[i]);
        }
        assert forall|i: int| slot <= i < row.len() implies text_before(
            key,
            (#[trigger] row[i]).key,
        ) by {
            if i < rest.len() {
                assert(row[i] == rest[i]);
            }
        }
        slot
    }
}

/// What a row lays out over a well-keyed map is well keyed.
pub proof fn lemma_well_keyed(m: Map<Seq<char>, OriginView>, row: Seq<OriginView>)
    requires
        well_keyed(m),
    ensures
        well_keyed(laid_over(m, row)),
    decreases row.len(),
{
    if row.len() > 0 {
        let before = laid_over(m, row.drop_last());
        lemma_well_keyed(m, row.drop_last());
        assert(laid_over(m, row).dom() == before.dom().insert(row.last().key));
        assert forall|key: Seq<char>| #[trigger] laid_over(m, row).contains_key(key) implies
            laid_over(m, row)[key].key == key by {
            assert(key != row.last().key ==> before.contains_key(key));
        }
    }
}

/// What a row lays out is well keyed.
pub proof fn lemma_by_key_is_well_keyed(row: Seq<OriginView>)
    ensures
        well_keyed(by_key(row)),
{
    assert(Map::<Seq<char>, OriginView>::empty().dom() == Set::<Seq<char>>::empty());
    lemma_well_keyed(Map::empty(), row);
}

// ---------------------------------------------------------------------------

/// Origins by key.
#[derive(Debug)]
pub struct KeyedOrigins {
    rows: Vec<Origin>,
}

impl View for KeyedOrigins {
    type V = Map<Seq<char>, OriginView>;

    closed spec fn view(&self) -> Map<Seq<char>, OriginView> {
        by_key(origin_views(self.rows@))
    }
}

impl KeyedOrigins {
    #[verifier::type_invariant]
    spec fn in_order(self) -> bool {
        increasing(origin_views(self.rows@))
    }

    /// No origins.
    pub fn new() -> (r: KeyedOrigins)
        ensures
            r@ == Map::<Seq<char>, OriginView>::empty(),
    {
        KeyedOrigins { rows: Vec::new() }
    }

    /// Inserts an origin, or replaces the one with its key and gives that back.
    pub fn insert(&mut self, origin: Origin) -> (r: Option<Origin>)
        ensures
            final(self)@ == old(self)@.insert(origin@.key, origin@),
            r is Some <==> old(self)@.contains_key(origin@.key),
            r matches Some(previous) ==> previous@ == old(self)@[origin@.key],
    {
        proof {
            use_type_invariant(&*self);
        }
        let mut rows: Vec<Origin> = Vec::new();
        std::mem::swap(&mut rows, &mut self.rows);
        let ghost before = origin_views(rows@);
        let ghost row = origin@;
        let slot = slot_of(&rows, &origin.key);
        proof {
            lemma_increasing_lists(before);
        }
        if slot < rows.len() && rows[slot].key == origin.key {
            let previous = rows[slot].clone();
            rows.set(slot, origin);
            proof {
                assert(origin_views(rows@) == before.update(slot as int, row));
                lemma_replaced(before, slot as int, row);
            }
            self.rows = rows;
            Some(previous)
        } else {
            rows.insert(slot, origin);
            proof {
                assert(origin_views(rows@) == before.insert(slot as int, row));
                lemma_slot_is_free(before, slot as int, row.key);
                lemma_inserted(before, slot as int, row);
            }
            self.rows = rows;
            None
        }
    }

    /// Removes the origin with a key and gives it back.
    pub fn remove(&mut self, key: &OriginKey) -> (r: Option<Origin>)
        ensures
            final(self)@ == old(self)@.remove(key@),
            r is Some <==> old(self)@.contains_key(key@),
            r matches Some(previous) ==> previous@ == old(self)@[key@],
    {
        proof {
            use_type_invariant(&*self);
        }
        let mut rows: Vec<Origin> = Vec::new();
        std::mem::swap(&mut rows, &mut self.rows);
        let ghost before = origin_views(rows@);
        let slot = slot_of(&rows, key);
        proof {
            lemma_increasing_lists(before);
        }
        if slot < rows.len() && rows[slot].key == *key {
            let previous = rows.remove(slot);
            proof {
                assert(origin_views(rows@) == before.remove(slot as int));
                lemma_removed(before, slot as int);
            }
            self.rows = rows;
            Some(previous)
        } else {
            proof {
                lemma_slot_is_free(before, slot as int, key@);
                assert(by_key(before).remove(key@) == by_key(before));
            }
            self.rows = rows;
            None
        }
    }

    /// The origin with a key.
    pub fn get(&self, key: &OriginKey) -> (r: Option<&Origin>)
        ensures
            r is Some <==> self@.contains_key(key@),
            r matches Some(origin) ==> origin@ == self@[key@],
    {
        proof {
            use_type_invariant(&*self);
        }
        let ghost row = origin_views(self.rows@);
        let slot = slot_of(&self.rows, key);
        proof {
            lemma_increasing_lists(row);
        }
        if slot < self.rows.len() && self.rows[slot].key == *key {
            assert(row[slot as int].key == key@);
            Some(&self.rows[slot])
        } else {
            proof {
                lemma_slot_is_free(row, slot as int, key@);
            }
            None
        }
    }

    /// The origins, by increasing key.
    pub fn values(&self) -> (r: &Vec<Origin>)
        ensures
            lists(origin_views(r@), self@),
            origin_views(r@) == listing(self@),
            well_keyed(self@),
            self@.len() == r@.len(),
    {
        proof {
            use_type_invariant(&*self);
            let row = origin_views(self.rows@);
            lemma_increasing_lists(row);
            lemma_by_key_is_well_keyed(row);
            law_listing_is_unique(row, listing(self@), self@);
        }
        &self.rows
    }
}

impl Clone for KeyedOrigins {
    fn clone(&self) -> (r: Self)
        ensures
            r@ == self@,
    {
        proof {
            use_type_invariant(&*self);
        }
        let mut rows: Vec<Origin> = Vec::new();
        let mut i: usize = 0;
        while i < self.rows.len()
            invariant
                i <= self.rows@.len(),
                rows@ == self.rows@.take(i as int),
            decreases self.rows@.len() - i,
        {
            rows.push(self.rows[i].clone());
            assert(rows@ == self.rows@.take(i + 1));
            i = i + 1;
        }
        assert(rows@ == self.rows@);
        KeyedOrigins { rows }
    }
}

/// Where a key stands in a row by increasing key, or would.
fn slot_of(rows: &Vec<Origin>, key: &OriginKey) -> (r: usize)
    requires
        increasing(origin_views(rows@)),
    ensures
        r <= rows@.len(),
        forall|i: int| 0 <= i < r ==> text_before((#[trigger] origin_views(rows@)[i]).key, key@),
        r < rows@.len() ==> !text_before(origin_views(rows@)[r as int].key, key@),
{
    let mut slot: usize = 0;
    while slot < rows.len() && precedes(rows[slot].key.as_str(), key.as_str())
        invariant
            slot <= rows@.len(),
            forall|i: int|
                0 <= i < slot ==> text_before((#[trigger] origin_views(rows@)[i]).key, key@),
        decreases rows@.len() - slot,
    {
        slot = slot + 1;
    }
    slot
}

proof fn lemma_slot_is_free(row: Seq<OriginView>, slot: int, key: Seq<char>)
    requires
        increasing(row),
        0 <= slot <= row.len(),
        forall|i: int| 0 <= i < slot ==> text_before((#[trigger] row[i]).key, key),
        slot < row.len() ==> !text_before(row[slot].key, key) && row[slot].key != key,
    ensures
        !has_key(row, key),
        forall|i: int| slot <= i < row.len() ==> text_before(key, (#[trigger] row[i]).key),
{
    if slot < row.len() {
        lemma_text_before_total(row[slot].key, key);
    }
    assert forall|i: int| slot <= i < row.len() implies text_before(
        key,
        (#[trigger] row[i]).key,
    ) by {
        if i > slot {
            lemma_text_before_transitive(key, row[slot].key, row[i].key);
        }
    }
    if has_key(row, key) {
        let i = choose|i: int| 0 <= i < row.len() && (#[trigger] row[i]).key == key;
        lemma_text_before_total(key, key);
        if text_before(key, key) {
            lemma_text_before_asymmetric(key, key);
        }
    }
}

proof fn lemma_inserted(row: Seq<OriginView>, slot: int, origin: OriginView)
    requires
        increasing(row),
        0 <= slot <= row.len(),
        forall|i: int| 0 <= i < slot ==> text_before((#[trigger] row[i]).key, origin.key),
        forall|i: int| slot <= i < row.len() ==> text_before(origin.key, (#[trigger] row[i]).key),
    ensures
        increasing(row.insert(slot, origin)),
        by_key(row.insert(slot, origin)) == by_key(row).insert(origin.key, origin),
{
    let more = row.insert(slot, origin);
    assert forall|i: int| 0 <= i < more.len() implies #[trigger] more[i] == if i < slot {
        row[i]
    } else if i == slot {
        origin
    } else {
        row[i - 1]
    } by {
    }
    assert forall|i: int, j: int| 0 <= i < j < more.len() implies text_before(
        (#[trigger] more[i]).key,
        (#[trigger] more[j]).key,
    ) by {
        if i != slot && j != slot {
            let a = if i < slot {
                i
            } else {
                i - 1
            };
            let b = if j < slot {
                j
            } else {
                j - 1
            };
            assert(text_before(row[a].key, row[b].key));
        }
    }
    lemma_increasing_lists(row);
    lemma_increasing_lists(more);
    assert forall|key: Seq<char>| #[trigger] has_key(more, key) <==> has_key(row, key)
        || key == origin.key by {
        if has_key(more, key) {
            let i = choose|i: int| 0 <= i < more.len() && (#[trigger] more[i]).key == key;
            if i < slot {
                assert(row[i].key == key);
            } else if i > slot {
                assert(row[i - 1].key == key);
            }
        }
        if has_key(row, key) {
            let i = choose|i: int| 0 <= i < row.len() && (#[trigger] row[i]).key == key;
            if i < slot {
                assert(more[i].key == key);
            } else {
                assert(more[i + 1].key == key);
            }
        }
        if key == origin.key {
            assert(more[slot].key == key);
        }
    }
    assert forall|i: int| 0 <= i < more.len() implies by_key(row).insert(origin.key, origin)[(
    #[trigger] more[i]).key] == more[i] by {
        if i != slot {
            assert(by_key(more)[more[i].key] == more[i]);
            assert(by_key(more)[more[slot].key] == more[slot]);
            let a = if i < slot {
                i
            } else {
                i - 1
            };
            assert(by_key(row)[row[a].key] == row[a]);
        }
    }
    lemma_same_maps(more, by_key(row).insert(origin.key, origin));
}

proof fn lemma_replaced(row: Seq<OriginView>, slot: int, origin: OriginView)
    requires
        increasing(row),
        0 <= slot < row.len(),
        row[slot].key == origin.key,
    ensures
        increasing(row.update(slot, origin)),
        by_key(row.update(slot, origin)) == by_key(row).insert(origin.key, origin),
{
    let more = row.update(slot, origin);
    assert forall|i: int| 0 <= i < more.len() implies (#[trigger] more[i]).key == row[i].key by {
    }
    assert forall|i: int, j: int| 0 <= i < j < more.len() implies text_before(
        (#[trigger] more[i]).key,
        (#[trigger] more[j]).key,
    ) by {
        assert(text_before(row[i].key, row[j].key));
    }
    lemma_increasing_lists(row);
    lemma_increasing_lists(more);
    assert forall|key: Seq<char>| #[trigger] has_key(more, key) <==> has_key(row, key) by {
        if has_key(more, key) {
            let i = choose|i: int| 0 <= i < more.len() && (#[trigger] more[i]).key == key;
            assert(row[i].key == key);
        }
        if has_key(row, key) {
            let i = choose|i: int| 0 <= i < row.len() && (#[trigger] row[i]).key == key;
            assert(more[i].key == key);
        }
    }
    assert(has_key(row, origin.key));
    assert forall|i: int| 0 <= i < more.len() implies by_key(row).insert(origin.key, origin)[(
    #[trigger] more[i]).key] == more[i] by {
        if i != slot {
            assert(by_key(more)[more[i].key] == more[i]);
            assert(by_key(more)[more[slot].key] == more[slot]);
            assert(by_key(row)[row[i].key] == row[i]);
        }
    }
    lemma_same_maps(more, by_key(row).insert(origin.key, origin));
}

proof fn lemma_removed(row: Seq<OriginView>, slot: int)
    requires
        increasing(row),
        0 <= slot < row.len(),
    ensures
        increasing(row.remove(slot)),
        by_key(row.remove(slot)) == by_key(row).remove(row[slot].key),
{
    let less = row.remove(slot);
    let gone = row[slot].key;
    assert forall|i: int| 0 <= i < less.len() implies #[trigger] less[i] == if i < slot {
        row[i]
    } else {
        row[i + 1]
    } by {
    }
    assert forall|i: int, j: int| 0 <= i < j < less.len() implies text_before(
        (#[trigger] less[i]).key,
        (#[trigger] less[j]).key,
    ) by {
        let a = if i < slot {
            i
        } else {
            i + 1
        };
        let b = if j < slot {
            j
        } else {
            j + 1
        };
        assert(text_before(row[a].key, row[b].key));
    }
    lemma_increasing_lists(row);
    lemma_increasing_lists(less);
    assert forall|i: int| 0 <= i < less.len() implies (#[trigger] less[i]).key != gone by {
        if i < slot {
            lemma_text_before_asymmetric(row[i].key, row[slot].key);
        } else {
            lemma_text_before_asymmetric(row[slot].key, row[i + 1].key);
        }
    }
    assert forall|key: Seq<char>| #[trigger] has_key(less, key) <==> has_key(row, key) && key
        != gone by {
        if has_key(less, key) {
            let i = choose|i: int| 0 <= i < less.len() && (#[trigger] less[i]).key == key;
            if i < slot {
                assert(row[i].key == key);
            } else {
                assert(row[i + 1].key == key);
            }
        }
        if has_key(row, key) && key != gone {
            let i = choose|i: int| 0 <= i < row.len() && (#[trigger] row[i]).key == key;
            if i < slot {
                assert(less[i].key == key);
            } else {
                assert(less[i - 1].key == key);
            }
        }
    }
    lemma_same_maps(less, by_key(row).remove(gone));
}

/// A map that a row lists is the row's own.
proof fn lemma_same_maps(row: Seq<OriginView>, m: Map<Seq<char>, OriginView>)
    requires
        increasing(row),
        forall|key: Seq<char>| #[trigger] m.contains_key(key) <==> has_key(row, key),
        forall|i: int| 0 <= i < row.len() ==> m[(#[trigger] row[i]).key] == row[i],
    ensures
        by_key(row) == m,
{
    lemma_increasing_lists(row);
    assert forall|key: Seq<char>| by_key(row).contains_key(key) <==> #[trigger] m.contains_key(
        key,
    ) by {
    }
    assert forall|key: Seq<char>| #[trigger] m.contains_key(key) implies by_key(row)[key]
        == m[key] by {
        let i = choose|i: int| 0 <= i < row.len() && (#[trigger] row[i]).key == key;
        assert(by_key(row)[row[i].key] == row[i]);
    }
    assert(by_key(row) == m);
}

} // verus!
