//! Status of the federated origins: which are reachable, when they last
//! answered, and what went wrong.
use std::time::{Duration, SystemTime, SystemTimeError};

use vstd::prelude::*;

use crate::origin::OriginKey;
use crate::seqs::{lemma_filter_contains, lemma_filter_no_duplicates};

verus! {

/// Status of a single federated origin.
#[derive(Debug)]
pub enum OriginStatus {
    /// Never polled yet.
    Unknown,
    /// The last poll succeeded.
    Reachable,
    /// The last poll failed.
    Unreachable { error: String },
}

/// A status, as text.
pub enum StatusView {
    Unknown,
    Reachable,
    Unreachable { error: Seq<char> },
}

impl View for OriginStatus {
    type V = StatusView;

    open spec fn view(&self) -> StatusView {
        match self {
            OriginStatus::Unknown => StatusView::Unknown,
            OriginStatus::Reachable => StatusView::Reachable,
            OriginStatus::Unreachable { error } => StatusView::Unreachable { error: error@ },
        }
    }
}

/// A status in words.
pub open spec fn status_text(status: StatusView) -> Seq<char> {
    match status {
        StatusView::Unknown => "unknown"@,
        StatusView::Reachable => "reachable"@,
        StatusView::Unreachable { error } => "unreachable: "@ + error,
    }
}

impl OriginStatus {
    /// The status in words.
    pub fn to_string(&self) -> (r: String)
        ensures
            r@ == status_text(self@),
    {
        match self {
            OriginStatus::Unknown => "unknown".to_owned(),
            OriginStatus::Reachable => "reachable".to_owned(),
            OriginStatus::Unreachable { error } => {
                let mut r = "unreachable: ".to_owned();
                r.append(error.as_str());
                r
            },
        }
    }
}

impl Clone for OriginStatus {
    fn clone(&self) -> (r: Self)
        ensures
            r == *self,
    {
        match self {
            OriginStatus::Unknown => OriginStatus::Unknown,
            OriginStatus::Reachable => OriginStatus::Reachable,
            OriginStatus::Unreachable { error } => OriginStatus::Unreachable {
                error: error.clone(),
            },
        }
    }
}

impl PartialEq for OriginStatus {
    fn eq(&self, other: &Self) -> (r: bool) {
        match (self, other) {
            (OriginStatus::Unknown, OriginStatus::Unknown) => true,
            (OriginStatus::Reachable, OriginStatus::Reachable) => true,
            (OriginStatus::Unreachable { error: a }, OriginStatus::Unreachable { error: b }) => {
                *a == *b
            },
            _ => false,
        }
    }
}

impl vstd::std_specs::cmp::PartialEqSpecImpl for OriginStatus {
    open spec fn obeys_eq_spec() -> bool {
        true
    }

    open spec fn eq_spec(&self, other: &Self) -> bool {
        self@ == other@
    }
}

impl Eq for OriginStatus {

}

/// Detailed status of a single origin.
#[derive(Debug)]
pub struct OriginStatusDetail {
    pub status: OriginStatus,
    /// Time of the last poll (unix seconds).
    pub last_poll_at: Option<u64>,
    /// Time of the last successful poll (unix seconds).
    pub last_success_at: Option<u64>,
    /// Number of failed polls since the last successful one.
    pub failure_count: u32,
}

/// A detailed status, as text.
pub struct DetailView {
    pub status: StatusView,
    pub last_poll_at: Option<u64>,
    pub last_success_at: Option<u64>,
    pub failure_count: int,
}

impl View for OriginStatusDetail {
    type V = DetailView;

    open spec fn view(&self) -> DetailView {
        DetailView {
            status: self.status@,
            last_poll_at: self.last_poll_at,
            last_success_at: self.last_success_at,
            failure_count: self.failure_count as int,
        }
    }
}

impl Clone for OriginStatusDetail {
    fn clone(&self) -> (r: Self)
        ensures
            r == *self,
    {
        OriginStatusDetail {
            status: self.status.clone(),
            last_poll_at: self.last_poll_at,
            last_success_at: self.last_success_at,
            failure_count: self.failure_count,
        }
    }
}

/// An origin that was never polled.
pub open spec fn unpolled() -> DetailView {
    DetailView {
        status: StatusView::Unknown,
        last_poll_at: None,
        last_success_at: None,
        failure_count: 0,
    }
}

/// An origin whose poll succeeded at a time.
pub open spec fn succeeded(now: u64) -> DetailView {
    DetailView {
        status: StatusView::Reachable,
        last_poll_at: Some(now),
        last_success_at: Some(now),
        failure_count: 0,
    }
}

/// An origin whose poll failed at a time.
pub open spec fn failed(before: DetailView, error: Seq<char>, now: u64) -> DetailView {
    DetailView {
        status: StatusView::Unreachable { error },
        last_poll_at: Some(now),
        last_success_at: before.last_success_at,
        failure_count: before.failure_count + 1,
    }
}

impl OriginStatusDetail {
    pub fn new() -> (r: OriginStatusDetail)
        ensures
            r@ == unpolled(),
    {
        OriginStatusDetail {
            status: OriginStatus::Unknown,
            last_poll_at: None,
            last_success_at: None,
            failure_count: 0,
        }
    }

    /// Notes a poll that succeeded at `now`.
    pub fn mark_success_at(&mut self, now: u64)
        ensures
            final(self)@ == succeeded(now),
    {
        self.status = OriginStatus::Reachable;
        self.last_poll_at = Some(now);
        self.last_success_at = Some(now);
        self.failure_count = 0;
    }

    /// Notes a poll that failed at `now`.
    pub fn mark_failure_at(&mut self, error: &str, now: u64)
        requires
            old(self)@.failure_count < u32::MAX,
        ensures
            final(self)@ == failed(old(self)@, error@, now),
    {
        self.status = OriginStatus::Unreachable { error: error.to_owned() };
        self.last_poll_at = Some(now);
        self.failure_count = self.failure_count + 1;
    }

    /// Notes a poll that succeeded now.
    pub fn mark_success(&mut self)
        ensures
            exists|now: u64| final(self)@ == #[trigger] succeeded(now),
    {
        let now = now_unix_seconds();
        self.mark_success_at(now);
    }

    /// Notes a poll that failed now.
    pub fn mark_failure(&mut self, error: &str)
        requires
            old(self)@.failure_count < u32::MAX,
        ensures
            exists|now: u64| final(self)@ == #[trigger] failed(old(self)@, error@, now),
    {
        let now = now_unix_seconds();
        self.mark_failure_at(error, now);
    }
}

/// A reading of the machine's clock.
#[verifier::external_type_specification]
#[verifier::external_body]
pub struct ExSystemTime(SystemTime);

/// How far one reading of the clock lies before another.
#[verifier::external_type_specification]
#[verifier::external_body]
pub struct ExSystemTimeError(SystemTimeError);

/// `SystemTime::now`: the machine's clock. Nothing is promised of the time.
pub assume_specification[ SystemTime::now ]() -> SystemTime;

/// `SystemTime::duration_since`: how far a reading lies after an earlier one, or
/// an error where it lies before. Nothing is promised of the two readings.
pub assume_specification[ SystemTime::duration_since ](
    reading: &SystemTime,
    since: SystemTime,
) -> Result<Duration, SystemTimeError>;

/// `Duration::as_secs`: the whole seconds of a span of time. Nothing is promised
/// of the span.
pub assume_specification[ Duration::as_secs ](span: &Duration) -> u64;

/// `SystemTime::UNIX_EPOCH`: the epoch as a reading of the clock. Nothing is
/// promised of it.
#[verifier::external_body]
fn epoch() -> (r: SystemTime) {
    SystemTime::UNIX_EPOCH
}

/// Reads the clock, in whole seconds since the epoch; none for a clock that is
/// set before it.
fn read_clock() -> (r: Option<u64>) {
    match SystemTime::now().duration_since(epoch()) {
        Ok(elapsed) => Some(elapsed.as_secs()),
        Err(_) => None,
    }
}

/// The time that a reading of the clock stands for: the epoch where the clock
/// is set before it.
pub open spec fn seconds_of(reading: Option<u64>) -> u64 {
    match reading {
        Some(seconds) => seconds,
        None => 0,
    }
}

/// The time that a reading of the clock stands for.
pub fn unix_seconds(reading: Option<u64>) -> (r: u64)
    ensures
        r == seconds_of(reading),
{
    match reading {
        Some(seconds) => seconds,
        None => 0,
    }
}

/// The current time in unix seconds, as the machine tells it.
pub fn now_unix_seconds() -> (r: u64) {
    unix_seconds(read_clock())
}

// ---------------------------------------------------------------------------
// The tracker

/// The origins of a row of entries, by key.
pub open spec fn entry_map(rows: Seq<(Seq<char>, DetailView)>) -> Map<Seq<char>, DetailView>
    decreases rows.len(),
{
    if rows.len() == 0 {
        Map::empty()
    } else {
        entry_map(rows.drop_last()).insert(rows.last().0, rows.last().1)
    }
}

/// Whether a row of entries has one with a key.
pub open spec fn has_entry(rows: Seq<(Seq<char>, DetailView)>, key: Seq<char>) -> bool {
    exists|i: int| 0 <= i < rows.len() && (#[trigger] rows[i]).0 == key
}

/// Whether no two entries share a key.
pub open spec fn distinct_entries(rows: Seq<(Seq<char>, DetailView)>) -> bool {
    forall|i: int, j: int|
        0 <= i < j < rows.len() ==> (#[trigger] rows[i]).0 != (#[trigger] rows[j]).0
}

/// Whether an origin was polled, and its status is the outcome: reachable
/// exactly if no poll failed since the last that succeeded, which then is the
/// last.
pub open spec fn polled(detail: DetailView) -> bool {
    &&& detail.last_poll_at is Some
    &&& !(detail.status is Unknown)
    &&& detail.failure_count >= 0
    &&& detail.status is Reachable <==> detail.failure_count == 0
    &&& detail.status is Reachable ==> detail.last_success_at == detail.last_poll_at
}

/// Whether a map is what a tracker can hold: finitely many origins, all of them
/// polled.
pub open spec fn well_tracked(m: Map<Seq<char>, DetailView>) -> bool {
    &&& m.dom().finite()
    &&& forall|key: Seq<char>| #[trigger] m.contains_key(key) ==> polled(m[key])
}

/// Each of a row of entries, as text.
pub open spec fn entry_views(entries: Seq<(OriginKey, OriginStatusDetail)>) -> Seq<
    (Seq<char>, DetailView),
> {
    entries.map_values(|entry: (OriginKey, OriginStatusDetail)| (entry.0@, entry.1@))
}

/// What is known of an origin.
pub open spec fn detail_of(m: Map<Seq<char>, DetailView>, key: Seq<char>) -> DetailView {
    if m.contains_key(key) {
        m[key]
    } else {
        unpolled()
    }
}

/// Tracks the status of all federated origins.
#[derive(Debug)]
pub struct FederationStatusTracker {
    entries: Vec<(OriginKey, OriginStatusDetail)>,
}

impl View for FederationStatusTracker {
    type V = Map<Seq<char>, DetailView>;

    closed spec fn view(&self) -> Map<Seq<char>, DetailView> {
        entry_map(entry_views(self.entries@))
    }
}

/// Each of a row of keyed statuses, as text.
pub open spec fn keyed_statuses(rows: Seq<(OriginKey, OriginStatus)>) -> Seq<
    (Seq<char>, StatusView),
> {
    rows.map_values(|row: (OriginKey, OriginStatus)| (row.0@, row.1@))
}

/// Whether a row of keyed statuses names every origin of a map once, with its
/// status.
pub open spec fn names_all(
    rows: Seq<(Seq<char>, StatusView)>,
    m: Map<Seq<char>, DetailView>,
) -> bool {
    &&& forall|i: int, j: int|
        0 <= i < j < rows.len() ==> (#[trigger] rows[i]).0 != (#[trigger] rows[j]).0
    &&& forall|key: Seq<char>| #[trigger]
        m.contains_key(key) <==> exists|i: int| 0 <= i < rows.len() && (#[trigger] rows[i]).0 == key
    &&& forall|i: int| 0 <= i < rows.len() ==> (#[trigger] rows[i]).1 == m[rows[i].0].status
}

/// The keys whose status is reachable.
pub open spec fn reachable_keys(m: Map<Seq<char>, DetailView>) -> Set<Seq<char>> {
    m.dom().filter(|key: Seq<char>| m[key].status is Reachable)
}

/// The keys whose status is unreachable.
pub open spec fn unreachable_keys(m: Map<Seq<char>, DetailView>) -> Set<Seq<char>> {
    m.dom().filter(|key: Seq<char>| m[key].status is Unreachable)
}

impl FederationStatusTracker {
    #[verifier::type_invariant]
    spec fn tracks(self) -> bool {
        let rows = entry_views(self.entries@);
        &&& distinct_entries(rows)
        &&& forall|i: int| 0 <= i < rows.len() ==> polled((#[trigger] rows[i]).1)
    }

    pub fn new() -> (r: FederationStatusTracker)
        ensures
            r@ == Map::<Seq<char>, DetailView>::empty(),
    {
        FederationStatusTracker { entries: Vec::new() }
    }

    /// Marks an origin as successfully polled at `now`.
    pub fn mark_success_at(&mut self, key: &OriginKey, now: u64)
        ensures
            final(self)@ == old(self)@.insert(key@, succeeded(now)),
    {
        let mut detail = self.get_detail(key);
        detail.mark_success_at(now);
        self.put(key, detail);
    }

    /// Marks an origin as failed to poll at `now`.
    pub fn mark_failure_at(&mut self, key: &OriginKey, error: &str, now: u64)
        requires
            detail_of(old(self)@, key@).failure_count < u32::MAX,
        ensures
            final(self)@ == old(self)@.insert(
                key@,
                failed(detail_of(old(self)@, key@), error@, now),
            ),
    {
        let mut detail = self.get_detail(key);
        detail.mark_failure_at(error, now);
        self.put(key, detail);
    }

    /// Marks an origin as successfully polled.
    pub fn mark_success(&mut self, key: &OriginKey)
        ensures
            exists|now: u64|
                final(self)@ == old(self)@.insert(key@, #[trigger] succeeded(now)),
    {
        let now = now_unix_seconds();
        self.mark_success_at(key, now);
    }

    /// Marks an origin as failed to poll.
    pub fn mark_failure(&mut self, key: &OriginKey, error: &str)
        requires
            detail_of(old(self)@, key@).failure_count < u32::MAX,
        ensures
            exists|now: u64|
                final(self)@ == old(self)@.insert(
                    key@,
                    #[trigger] failed(detail_of(old(self)@, key@), error@, now),
                ),
    {
        let now = now_unix_seconds();
        self.mark_failure_at(key, error, now);
    }

    /// The status of a single origin.
    pub fn get_status(&self, key: &OriginKey) -> (r: OriginStatus)
        ensures
            r@ == detail_of(self@, key@).status,
    {
        self.get_detail(key).status
    }

    /// The detailed status of a single origin.
    pub fn get_detail(&self, key: &OriginKey) -> (r: OriginStatusDetail)
        ensures
            r@ == detail_of(self@, key@),
    {
        proof {
            use_type_invariant(&*self);
            lemma_entry_map(entry_views(self.entries@));
        }
        let slot = self.slot_of(key);
        if slot < self.entries.len() {
            assert(entry_views(self.entries@)[slot as int].0 == key@);
            self.entries[slot].1.clone()
        } else {
            OriginStatusDetail::new()
        }
    }

    /// All origin statuses, each tracked origin once.
    pub fn all_statuses(&self) -> (r: Vec<(OriginKey, OriginStatus)>)
        ensures
            names_all(keyed_statuses(r@), self@),
    {
        let ghost rows = entry_views(self.entries@);
        proof {
            use_type_invariant(&*self);
            lemma_entry_map(rows);
        }
        let mut r: Vec<(OriginKey, OriginStatus)> = Vec::new();
        let mut i: usize = 0;
        while i < self.entries.len()
            invariant
                i <= self.entries@.len(),
                rows == entry_views(self.entries@),
                r@.len() == i,
                forall|k: int|
                    0 <= k < i ==> (#[trigger] keyed_statuses(r@)[k]) == (
                        rows[k].0,
                        rows[k].1.status,
                    ),
            decreases self.entries@.len() - i,
        {
            let ghost before = r@;
            r.push((self.entries[i].0.clone(), self.entries[i].1.status.clone()));
            assert(keyed_statuses(r@) == keyed_statuses(before).push(
                (rows[i as int].0, rows[i as int].1.status),
            ));
            i = i + 1;
        }
        proof {
            let all = keyed_statuses(r@);
            assert forall|k: int, j: int| 0 <= k < j < all.len() implies (#[trigger] all[k]).0 != (
            #[trigger] all[j]).0 by {
                assert(rows[k].0 != rows[j].0);
            }
            assert forall|key: Seq<char>| #[trigger]
                self@.contains_key(key) <==> exists|k: int|
                    0 <= k < all.len() && (#[trigger] all[k]).0 == key by {
                if has_entry(rows, key) {
                    let k = choose|k: int| 0 <= k < rows.len() && (#[trigger] rows[k]).0 == key;
                    assert(all[k].0 == key);
                }
                if exists|k: int| 0 <= k < all.len() && (#[trigger] all[k]).0 == key {
                    let k = choose|k: int| 0 <= k < all.len() && (#[trigger] all[k]).0 == key;
                    assert(rows[k].0 == key);
                }
            }
            assert forall|k: int| 0 <= k < all.len() implies (#[trigger] all[k]).1
                == self@[all[k].0].status by {
                assert(self@[rows[k].0] == rows[k].1);
            }
        }
        r
    }

    /// Counts reachable origins.
    pub fn reachable_count(&self) -> (r: usize)
        ensures
            well_tracked(self@),
            r == reachable_keys(self@).len(),
    {
        let ghost rows = entry_views(self.entries@);
        proof {
            use_type_invariant(&*self);
            lemma_well_tracked(rows);
        }
        let mut count: usize = 0;
        let mut i: usize = 0;
        assert(reachable_keys(entry_map(rows.take(0))) == Set::<Seq<char>>::empty());
        while i < self.entries.len()
            invariant
                i <= self.entries@.len(),
                rows == entry_views(self.entries@),
                distinct_entries(rows),
                count <= i,
                reachable_keys(entry_map(rows.take(i as int))).finite(),
                count == reachable_keys(entry_map(rows.take(i as int))).len(),
            decreases self.entries@.len() - i,
        {
            proof {
                lemma_next_entry(rows, i as int);
            }
            if matches!(self.entries[i].1.status, OriginStatus::Reachable) {
                count = count + 1;
            }
            i = i + 1;
        }
        assert(rows.take(i as int) == rows);
        count
    }

    /// Counts unreachable origins.
    pub fn unreachable_count(&self) -> (r: usize)
        ensures
            well_tracked(self@),
            r == unreachable_keys(self@).len(),
    {
        let ghost rows = entry_views(self.entries@);
        proof {
            use_type_invariant(&*self);
            lemma_well_tracked(rows);
        }
        let mut count: usize = 0;
        let mut i: usize = 0;
        assert(unreachable_keys(entry_map(rows.take(0))) == Set::<Seq<char>>::empty());
        while i < self.entries.len()
            invariant
                i <= self.entries@.len(),
                rows == entry_views(self.entries@),
                distinct_entries(rows),
                count <= i,
                unreachable_keys(entry_map(rows.take(i as int))).finite(),
                count == unreachable_keys(entry_map(rows.take(i as int))).len(),
            decreases self.entries@.len() - i,
        {
            proof {
                lemma_next_entry(rows, i as int);
            }
            if matches!(self.entries[i].1.status, OriginStatus::Unreachable { .. }) {
                count = count + 1;
            }
            i = i + 1;
        }
        assert(rows.take(i as int) == rows);
        count
    }

    /// Where an origin's entry stands; the number of entries where it has none.
    fn slot_of(&self, key: &OriginKey) -> (r: usize)
        ensures
            r <= self.entries@.len(),
            r < self.entries@.len() ==> entry_views(self.entries@)[r as int].0 == key@,
            r == self.entries@.len() ==> !has_entry(entry_views(self.entries@), key@),
    {
        let mut slot: usize = 0;
        while slot < self.entries.len() && self.entries[slot].0 != *key
            invariant
                slot <= self.entries@.len(),
                forall|i: int|
                    0 <= i < slot ==> (#[trigger] entry_views(self.entries@)[i]).0 != key@,
            decreases self.entries@.len() - slot,
        {
            slot = slot + 1;
        }
        slot
    }

    /// Replaces what is known of an origin.
    fn put(&mut self, key: &OriginKey, detail: OriginStatusDetail)
        requires
            polled(detail@),
        ensures
            final(self)@ == old(self)@.insert(key@, detail@),
    {
        proof {
            use_type_invariant(&*self);
        }
        let slot = self.slot_of(key);
        let mut entries: Vec<(OriginKey, OriginStatusDetail)> = Vec::new();
        std::mem::swap(&mut entries, &mut self.entries);
        let ghost before = entry_views(entries@);
        let ghost view = detail@;
        if slot < entries.len() {
            entries.set(slot, (key.clone(), detail));
            proof {
                assert(entry_views(entries@) == before.update(slot as int, (key@, view)));
                lemma_entry_replaced(before, slot as int, view);
            }
        } else {
            entries.push((key.clone(), detail));
            proof {
                assert(entry_views(entries@) == before.push((key@, view)));
                assert(before.push((key@, view)).drop_last() == before);
                lemma_entry_added(before, key@, view);
            }
        }
        self.entries = entries;
    }
}

impl Default for FederationStatusTracker {
    fn default() -> (r: Self)
        ensures
            r@ == Map::<Seq<char>, DetailView>::empty(),
    {
        FederationStatusTracker::new()
    }
}

/// A row without doubled keys lays out its map.
proof fn lemma_entry_map(rows: Seq<(Seq<char>, DetailView)>)
    requires
        distinct_entries(rows),
    ensures
        forall|key: Seq<char>| #[trigger]
            entry_map(rows).contains_key(key) <==> has_entry(rows, key),
        forall|i: int| 0 <= i < rows.len() ==> entry_map(rows)[(#[trigger] rows[i]).0] == rows[i].1,
        entry_map(rows).dom().finite(),
        entry_map(rows).len() == rows.len(),
    decreases rows.len(),
{
    if rows.len() == 0 {
        assert(entry_map(rows).dom() == Set::<Seq<char>>::empty());
    } else {
        let rest = rows.drop_last();
        let last = rows.last();
        assert forall|i: int, j: int| 0 <= i < j < rest.len() implies (#[trigger] rest[i]).0 != (
        #[trigger] rest[j]).0 by {
            assert(rows[i].0 != rows[j].0);
        }
        lemma_entry_map(rest);
        assert(!has_entry(rest, last.0)) by {
            if has_entry(rest, last.0) {
                let i = choose|i: int| 0 <= i < rest.len() && (#[trigger] rest[i]).0 == last.0;
                assert(rows[i].0 != rows[rows.len() - 1].0);
            }
        }
        assert(entry_map(rows).dom() == entry_map(rest).dom().insert(last.0));
        assert forall|key: Seq<char>| #[trigger]
            entry_map(rows).contains_key(key) <==> has_entry(rows, key) by {
            assert(entry_map(rest).contains_key(key) <==> has_entry(rest, key));
            if has_entry(rows, key) {
                let i = choose|i: int| 0 <= i < rows.len() && (#[trigger] rows[i]).0 == key;
                if i < rest.len() {
                    assert(rest[i].0 == key);
                }
            }
            if has_entry(rest, key) {
                let i = choose|i: int| 0 <= i < rest.len() && (#[trigger] rest[i]).0 == key;
                assert(rows[i].0 == key);
            }
            if key == last.0 {
                assert(rows[rows.len() - 1].0 == key);
            }
        }
        assert forall|i: int| 0 <= i < rows.len() implies entry_map(rows)[(#[trigger] rows[i]).0]
            == rows[i].1 by {
            if i < rest.len() {
                assert(rest[i] == rows[i]);
                assert(rows[i].0 != rows[rows.len() - 1].0);
            }
        }
    }
}

/// A row of polled origins is well tracked.
proof fn lemma_well_tracked(rows: Seq<(Seq<char>, DetailView)>)
    requires
        distinct_entries(rows),
        forall|i: int| 0 <= i < rows.len() ==> polled((#[trigger] rows[i]).1),
    ensures
        well_tracked(entry_map(rows)),
{
    lemma_entry_map(rows);
    assert forall|key: Seq<char>| #[trigger] entry_map(rows).contains_key(key) implies polled(
        entry_map(rows)[key],
    ) by {
        let i = choose|i: int| 0 <= i < rows.len() && (#[trigger] rows[i]).0 == key;
        assert(entry_map(rows)[rows[i].0] == rows[i].1);
    }
}

proof fn lemma_entry_added(rows: Seq<(Seq<char>, DetailView)>, key: Seq<char>, detail: DetailView)
    requires
        distinct_entries(rows),
        !has_entry(rows, key),
    ensures
        distinct_entries(rows.push((key, detail))),
{
    let more = rows.push((key, detail));
    assert forall|i: int, j: int| 0 <= i < j < more.len() implies (#[trigger] more[i]).0 != (
    #[trigger] more[j]).0 by {
        assert(more[i] == rows[i]);
        if j < rows.len() {
            assert(rows[i].0 != rows[j].0);
        }
    }
}

proof fn lemma_entry_replaced(
    rows: Seq<(Seq<char>, DetailView)>,
    slot: int,
    detail: DetailView,
)
    requires
        distinct_entries(rows),
        0 <= slot < rows.len(),
    ensures
        distinct_entries(rows.update(slot, (rows[slot].0, detail))),
        entry_map(rows.update(slot, (rows[slot].0, detail))) == entry_map(rows).insert(
            rows[slot].0,
            detail,
        ),
{
    let key = rows[slot].0;
    let more = rows.update(slot, (key, detail));
    assert forall|i: int| 0 <= i < more.len() implies (#[trigger] more[i]).0 == rows[i].0 by {
    }
    assert forall|i: int, j: int| 0 <= i < j < more.len() implies (#[trigger] more[i]).0 != (
    #[trigger] more[j]).0 by {
        assert(rows[i].0 != rows[j].0);
    }
    lemma_entry_map(rows);
    lemma_entry_map(more);
    assert forall|other: Seq<char>| #[trigger] has_entry(more, other) <==> has_entry(
        rows,
        other,
    ) by {
        if has_entry(more, other) {
            let i = choose|i: int| 0 <= i < more.len() && (#[trigger] more[i]).0 == other;
            assert(rows[i].0 == other);
        }
        if has_entry(rows, other) {
            let i = choose|i: int| 0 <= i < rows.len() && (#[trigger] rows[i]).0 == other;
            assert(more[i].0 == other);
        }
    }
    let changed = entry_map(rows).insert(key, detail);
    assert forall|other: Seq<char>| #[trigger] entry_map(more).contains_key(other)
        <==> changed.contains_key(other) by {
        assert(has_entry(more, other) <==> has_entry(rows, other));
        assert(rows[slot].0 == key);
    }
    assert forall|other: Seq<char>| #[trigger]
        entry_map(more).contains_key(other) implies entry_map(more)[other] == changed[other] by {
        let i = choose|i: int| 0 <= i < more.len() && (#[trigger] more[i]).0 == other;
        assert(entry_map(more)[more[i].0] == more[i].1);
        if i != slot {
            assert(entry_map(rows)[rows[i].0] == rows[i].1);
            if i < slot {
                assert(rows[i].0 != rows[slot].0);
            } else {
                assert(rows[slot].0 != rows[i].0);
            }
        }
    }
    assert(entry_map(more) == changed);
}

/// One entry more counts once more.
proof fn lemma_next_entry(rows: Seq<(Seq<char>, DetailView)>, i: int)
    requires
        distinct_entries(rows),
        0 <= i < rows.len(),
        reachable_keys(entry_map(rows.take(i))).finite() || unreachable_keys(
            entry_map(rows.take(i)),
        ).finite(),
    ensures
        reachable_keys(entry_map(rows.take(i))).finite() ==> reachable_keys(
            entry_map(rows.take(i + 1)),
        ).finite() && reachable_keys(entry_map(rows.take(i + 1))).len() == reachable_keys(
            entry_map(rows.take(i)),
        ).len() + if rows[i].1.status is Reachable {
            1int
        } else {
            0int
        },
        unreachable_keys(entry_map(rows.take(i))).finite() ==> unreachable_keys(
            entry_map(rows.take(i + 1)),
        ).finite() && unreachable_keys(entry_map(rows.take(i + 1))).len() == unreachable_keys(
            entry_map(rows.take(i)),
        ).len() + if rows[i].1.status is Unreachable {
            1int
        } else {
            0int
        },
{
    let less = rows.take(i);
    let more = rows.take(i + 1);
    assert(more.drop_last() == less);
    assert(distinct_entries(less)) by {
        assert forall|a: int, b: int| 0 <= a < b < less.len() implies (#[trigger] less[a]).0 != (
        #[trigger] less[b]).0 by {
            assert(rows[a].0 != rows[b].0);
        }
    }
    lemma_entry_map(less);
    let key = rows[i].0;
    assert(!has_entry(less, key)) by {
        if has_entry(less, key) {
            let a = choose|a: int| 0 <= a < less.len() && (#[trigger] less[a]).0 == key;
            assert(rows[a].0 != rows[i].0);
        }
    }
    let m = entry_map(less);
    let n = entry_map(more);
    assert(n == m.insert(key, rows[i].1));
    assert(!m.contains_key(key));
    if rows[i].1.status is Reachable {
        assert(reachable_keys(n) == reachable_keys(m).insert(key));
    } else {
        assert(reachable_keys(n) == reachable_keys(m));
    }
    if rows[i].1.status is Unreachable {
        assert(unreachable_keys(n) == unreachable_keys(m).insert(key));
    } else {
        assert(unreachable_keys(n) == unreachable_keys(m));
    }
}

// ---------------------------------------------------------------------------
// What tracking promises

/// Every tracked origin is counted once: as reachable or as unreachable.
pub proof fn law_counts_add_up(m: Map<Seq<char>, DetailView>)
    requires
        well_tracked(m),
    ensures
        reachable_keys(m).len() + unreachable_keys(m).len() == m.len(),
{
    let a = reachable_keys(m);
    let b = unreachable_keys(m);
    assert(a.disjoint(b));
    assert(a.union(b) == m.dom()) by {
        assert forall|key: Seq<char>| m.dom().contains(key) implies #[trigger] a.union(
            b,
        ).contains(key) by {
            assert(m.contains_key(key));
        }
    }
    vstd::set_lib::lemma_set_disjoint_lens(a, b);
}

/// A poll concerns its own origin only: what is known of every other origin
/// stays as it was.
pub proof fn law_other_origins_stay(
    m: Map<Seq<char>, DetailView>,
    key: Seq<char>,
    detail: DetailView,
    other: Seq<char>,
)
    requires
        other != key,
    ensures
        detail_of(m.insert(key, detail), other) == detail_of(m, other),
{
}

/// A success after any number of failures leaves no trace of them.
pub proof fn law_recovery_resets_failures(
    m: Map<Seq<char>, DetailView>,
    key: Seq<char>,
    error: Seq<char>,
    failed_at: u64,
    now: u64,
)
    ensures
        m.insert(key, failed(detail_of(m, key), error, failed_at)).insert(key, succeeded(now))
            == m.insert(key, succeeded(now)),
        detail_of(m.insert(key, succeeded(now)), key).failure_count == 0,
        detail_of(m.insert(key, succeeded(now)), key).status is Reachable,
{
    assert(m.insert(key, failed(detail_of(m, key), error, failed_at)).insert(key, succeeded(now))
        == m.insert(key, succeeded(now)));
}

/// Failures in a row are counted, and the time of the last success is kept.
pub proof fn law_failures_are_counted(
    m: Map<Seq<char>, DetailView>,
    key: Seq<char>,
    error: Seq<char>,
    now: u64,
)
    ensures
        ({
            let after = m.insert(key, failed(detail_of(m, key), error, now));
            &&& detail_of(after, key).failure_count == detail_of(m, key).failure_count + 1
            &&& detail_of(after, key).last_success_at == detail_of(m, key).last_success_at
            &&& detail_of(after, key).status == (StatusView::Unreachable { error })
        }),
{
}

/// One poll of an origin.
pub enum Poll {
    Success { now: u64 },
    Failure { error: Seq<char>, now: u64 },
}

/// What is known of an origin after one poll more.
pub open spec fn after_poll(before: DetailView, poll: Poll) -> DetailView {
    match poll {
        Poll::Success { now } => succeeded(now),
        Poll::Failure { error, now } => failed(before, error, now),
    }
}

/// What is known of an origin after a row of polls.
pub open spec fn after_polls(polls: Seq<Poll>) -> DetailView
    decreases polls.len(),
{
    if polls.len() == 0 {
        unpolled()
    } else {
        after_poll(after_polls(polls.drop_last()), polls.last())
    }
}

/// Whether the last `n` polls of a row failed, and the one before them, if there
/// is one, did not.
pub open spec fn failures_at_the_end(polls: Seq<Poll>, n: int) -> bool {
    &&& 0 <= n <= polls.len()
    &&& forall|i: int| polls.len() - n <= i < polls.len() ==> (#[trigger] polls[i]) is Failure
    &&& n < polls.len() ==> polls[polls.len() - n - 1] is Success
}

/// The failure count is the number of failed polls since the last successful
/// one, whatever polls there were; the time of that success is kept, and the
/// status and the poll time are those of the last poll.
pub proof fn law_failure_count_is_the_run_of_failures(polls: Seq<Poll>, n: int)
    requires
        failures_at_the_end(polls, n),
    ensures
        after_polls(polls).failure_count == n,
        after_polls(polls).last_success_at == if n < polls.len() {
            Some(polls[polls.len() - n - 1]->Success_now)
        } else {
            None
        },
        polls.len() == 0 ==> after_polls(polls) == unpolled(),
        polls.len() > 0 ==> match polls.last() {
            Poll::Success { now } => after_polls(polls).status is Reachable && after_polls(
                polls,
            ).last_poll_at == Some(now),
            Poll::Failure { error, now } => after_polls(polls).status == (
            StatusView::Unreachable { error }) && after_polls(polls).last_poll_at == Some(now),
        },
    decreases polls.len(),
{
    if n > 0 {
        let rest = polls.drop_last();
        assert(polls[polls.len() - 1] is Failure);
        assert forall|i: int| rest.len() - (n - 1) <= i < rest.len() implies (
        #[trigger] rest[i]) is Failure by {
            assert(polls[i] is Failure);
        }
        law_failure_count_is_the_run_of_failures(rest, n - 1);
    }
}

/// What a tracker holds after a row of marks, each of the origin with a key.
pub open spec fn after_marks(marks: Seq<(Seq<char>, Poll)>) -> Map<Seq<char>, DetailView>
    decreases marks.len(),
{
    if marks.len() == 0 {
        Map::empty()
    } else {
        let before = after_marks(marks.drop_last());
        let (key, poll) = marks.last();
        before.insert(key, after_poll(detail_of(before, key), poll))
    }
}

/// The polls of one origin among a row of marks.
pub open spec fn polls_of(marks: Seq<(Seq<char>, Poll)>, key: Seq<char>) -> Seq<Poll>
    decreases marks.len(),
{
    if marks.len() == 0 {
        Seq::empty()
    } else {
        let before = polls_of(marks.drop_last(), key);
        if marks.last().0 == key {
            before.push(marks.last().1)
        } else {
            before
        }
    }
}

/// After any marks of any origins, each origin stands as its own polls left it:
/// it is tracked exactly if it was marked, its status is the outcome of its last
/// poll, it has a time of success exactly if it ever succeeded, and its failure
/// count is the number of its failures since then.
pub proof fn law_each_origin_has_its_own_history(marks: Seq<(Seq<char>, Poll)>, key: Seq<char>)
    ensures
        ({
            let polls = polls_of(marks, key);
            let detail = detail_of(after_marks(marks), key);
            &&& detail == after_polls(polls)
            &&& after_marks(marks).contains_key(key) <==> polls.len() > 0
            &&& detail.status is Unknown <==> polls.len() == 0
            &&& detail.last_poll_at is None <==> polls.len() == 0
            &&& detail.status is Reachable <==> polls.len() > 0 && polls.last() is Success
            &&& detail.status is Unreachable <==> polls.len() > 0 && polls.last() is Failure
            &&& polls.len() > 0 && polls.last() is Failure ==> detail.status == (
            StatusView::Unreachable { error: polls.last()->error })
            &&& detail.last_success_at is None <==> forall|i: int|
                0 <= i < polls.len() ==> (#[trigger] polls[i]) is Failure
            &&& failures_at_the_end(polls, detail.failure_count)
        }),
{
    lemma_history(marks, key);
    lemma_polls(polls_of(marks, key));
}

proof fn lemma_history(marks: Seq<(Seq<char>, Poll)>, key: Seq<char>)
    ensures
        detail_of(after_marks(marks), key) == after_polls(polls_of(marks, key)),
        after_marks(marks).contains_key(key) <==> polls_of(marks, key).len() > 0,
    decreases marks.len(),
{
    if marks.len() > 0 {
        let rest = marks.drop_last();
        lemma_history(rest, key);
        if marks.last().0 == key {
            assert(polls_of(marks, key).drop_last() == polls_of(rest, key));
        }
    }
}

proof fn lemma_polls(polls: Seq<Poll>)
    ensures
        failures_at_the_end(polls, after_polls(polls).failure_count),
        after_polls(polls).last_success_at is None <==> forall|i: int|
            0 <= i < polls.len() ==> (#[trigger] polls[i]) is Failure,
        polls.len() > 0 ==> polled(after_polls(polls)),
    decreases polls.len(),
{
    if polls.len() > 0 {
        let rest = polls.drop_last();
        lemma_polls(rest);
        let n = after_polls(rest).failure_count;
        if polls.last() is Failure {
            assert forall|i: int| polls.len() - (n + 1) <= i < polls.len() implies (
            #[trigger] polls[i]) is Failure by {
                if i < rest.len() {
                    assert(rest[i] is Failure);
                }
            }
            if n < rest.len() {
                assert(polls[polls.len() - (n + 1) - 1] == rest[rest.len() - n - 1]);
            }
            if after_polls(rest).last_success_at is None {
                assert forall|i: int| 0 <= i < polls.len() implies (#[trigger] polls[i])
                    is Failure by {
                    if i < rest.len() {
                        assert(rest[i] is Failure);
                    }
                }
            } else {
                let i = choose|i: int| 0 <= i < rest.len() && !((#[trigger] rest[i]) is Failure);
                assert(!(polls[i] is Failure));
            }
        } else {
            assert(!(polls[polls.len() - 1] is Failure));
        }
    }
}

/// A tracker never holds an origin that was not polled, whatever marks it got.
pub proof fn law_marks_are_well_tracked(marks: Seq<(Seq<char>, Poll)>)
    ensures
        well_tracked(after_marks(marks)),
    decreases marks.len(),
{
    let m = after_marks(marks);
    if marks.len() == 0 {
        assert(m.dom() == Set::<Seq<char>>::empty());
    } else {
        law_marks_are_well_tracked(marks.drop_last());
        assert(m.dom() == after_marks(marks.drop_last()).dom().insert(marks.last().0));
    }
    assert forall|key: Seq<char>| #[trigger] m.contains_key(key) implies polled(m[key]) by {
        lemma_history(marks, key);
        lemma_polls(polls_of(marks, key));
    }
}

/// The rows of a list that say reachable.
pub open spec fn listed_reachable(rows: Seq<(Seq<char>, StatusView)>) -> Seq<
    (Seq<char>, StatusView),
> {
    rows.filter(|row: (Seq<char>, StatusView)| row.1 is Reachable)
}

/// The rows of a list that say unreachable.
pub open spec fn listed_unreachable(rows: Seq<(Seq<char>, StatusView)>) -> Seq<
    (Seq<char>, StatusView),
> {
    rows.filter(|row: (Seq<char>, StatusView)| row.1 is Unreachable)
}

/// The counts are those of the listed statuses: every tracked origin is listed
/// once, none as unknown, and each count is the number of rows with its outcome.
pub proof fn law_counts_are_those_of_the_list(
    rows: Seq<(Seq<char>, StatusView)>,
    m: Map<Seq<char>, DetailView>,
)
    requires
        names_all(rows, m),
        well_tracked(m),
    ensures
        rows.len() == m.len(),
        forall|i: int| 0 <= i < rows.len() ==> !((#[trigger] rows[i]).1 is Unknown),
        listed_reachable(rows).len() == reachable_keys(m).len(),
        listed_unreachable(rows).len() == unreachable_keys(m).len(),
        listed_reachable(rows).len() + listed_unreachable(rows).len() == rows.len(),
{
    assert forall|i: int| 0 <= i < rows.len() implies !((#[trigger] rows[i]).1 is Unknown) by {
        assert(m.contains_key(rows[i].0));
    }
    lemma_rows_counted(rows, m, |row: (Seq<char>, StatusView)| true, m.dom());
    lemma_everything_kept(rows);
    lemma_rows_counted(
        rows,
        m,
        |row: (Seq<char>, StatusView)| row.1 is Reachable,
        reachable_keys(m),
    );
    lemma_rows_counted(
        rows,
        m,
        |row: (Seq<char>, StatusView)| row.1 is Unreachable,
        unreachable_keys(m),
    );
    law_counts_add_up(m);
}

proof fn lemma_everything_kept(rows: Seq<(Seq<char>, StatusView)>)
    ensures
        rows.filter(|row: (Seq<char>, StatusView)| true) == rows,
    decreases rows.len(),
{
    reveal(Seq::filter);
    if rows.len() > 0 {
        lemma_everything_kept(rows.drop_last());
        assert(rows == rows.drop_last().push(rows.last()));
    }
}

/// The rows that are kept are as many as the keys that they name.
proof fn lemma_rows_counted(
    rows: Seq<(Seq<char>, StatusView)>,
    m: Map<Seq<char>, DetailView>,
    keep: spec_fn((Seq<char>, StatusView)) -> bool,
    keys: Set<Seq<char>>,
)
    requires
        names_all(rows, m),
        forall|key: Seq<char>| #[trigger]
            keys.contains(key) <==> m.contains_key(key) && keep((key, m[key].status)),
    ensures
        rows.filter(keep).len() == keys.len(),
{
    let kept = rows.filter(keep);
    let named = kept.map_values(|row: (Seq<char>, StatusView)| row.0);
    assert(rows.no_duplicates()) by {
        assert forall|i: int, j: int| 0 <= i < j < rows.len() implies rows[i] != rows[j] by {
            assert(rows[i].0 != rows[j].0);
        }
    }
    lemma_filter_no_duplicates(rows, keep);
    assert forall|i: int, j: int| 0 <= i < j < named.len() implies named[i] != named[j] by {
        assert(kept.contains(kept[i]) && kept.contains(kept[j]));
        lemma_filter_contains(rows, keep, kept[i]);
        lemma_filter_contains(rows, keep, kept[j]);
        let a = choose|a: int| 0 <= a < rows.len() && rows[a] == kept[i];
        let b = choose|b: int| 0 <= b < rows.len() && rows[b] == kept[j];
        if a < b {
            assert(rows[a].0 != rows[b].0);
        } else if b < a {
            assert(rows[b].0 != rows[a].0);
        }
        assert(kept[i] != kept[j]);
    }
    assert forall|key: Seq<char>| #[trigger] named.to_set().contains(key) <==> keys.contains(
        key,
    ) by {
        if named.contains(key) {
            let i = choose|i: int| 0 <= i < named.len() && named[i] == key;
            assert(kept.contains(kept[i]));
            lemma_filter_contains(rows, keep, kept[i]);
            let a = choose|a: int| 0 <= a < rows.len() && rows[a] == kept[i];
            assert(rows[a].0 == key);
            assert(rows[a] == (key, m[key].status));
        }
        if keys.contains(key) {
            let a = choose|a: int| 0 <= a < rows.len() && (#[trigger] rows[a]).0 == key;
            assert(rows[a] == (key, m[key].status));
            assert(rows.contains(rows[a]));
            lemma_filter_contains(rows, keep, rows[a]);
            let i = choose|i: int| 0 <= i < kept.len() && kept[i] == rows[a];
            assert(named[i] == key);
        }
    }
    assert(named.to_set() == keys);
    named.unique_seq_to_set();
}

/// A status in words: one word for an outcome, and behind `unreachable` the error as
/// it is.
pub proof fn law_statuses_are_told_in_full(error: Seq<char>)
    ensures
        status_text(StatusView::Unknown) == "unknown"@,
        status_text(StatusView::Reachable) == "reachable"@,
        "unreachable: "@.is_prefix_of(status_text(StatusView::Unreachable { error })),
        error.is_suffix_of(status_text(StatusView::Unreachable { error })),
        status_text(StatusView::Unreachable { error }).len() == 13 + error.len(),
{
    reveal_strlit("unreachable: ");
}

/// The clock is believed, and a clock before the epoch reads as the epoch.
pub proof fn law_the_clock_never_reads_before_the_epoch(seconds: u64)
    ensures
        seconds_of(Some(seconds)) == seconds,
        seconds_of(None) == 0,
{
}

/// What one poll leaves behind: its outcome and its time. A success is the last
/// success, and nothing is left of failures before it; a failure is counted, and the
/// last success stays.
pub proof fn law_a_poll_leaves_its_outcome(before: DetailView, error: Seq<char>, now: u64)
    ensures
        succeeded(now).status is Reachable,
        succeeded(now).last_poll_at == Some(now),
        succeeded(now).last_success_at == Some(now),
        succeeded(now).failure_count == 0,
        failed(before, error, now).status == (StatusView::Unreachable { error }),
        failed(before, error, now).last_poll_at == Some(now),
        failed(before, error, now).last_success_at == before.last_success_at,
        failed(before, error, now).failure_count == before.failure_count + 1,
        unpolled().status is Unknown,
        unpolled().last_poll_at is None,
        unpolled().last_success_at is None,
        unpolled().failure_count == 0,
{
}

/// A detailed status is seen as what is held, field by field.
pub proof fn law_what_is_seen_is_held(detail: OriginStatusDetail)
    ensures
        detail@.status == detail.status@,
        detail@.last_poll_at == detail.last_poll_at,
        detail@.last_success_at == detail.last_success_at,
        detail@.failure_count == detail.failure_count as int,
{
}

/// Statuses are seen each in its place, under its own key.
pub proof fn law_rows_are_seen_in_their_places(
    entries: Seq<(OriginKey, OriginStatusDetail)>,
    rows: Seq<(OriginKey, OriginStatus)>,
)
    ensures
        entry_views(entries).len() == entries.len(),
        forall|i: int|
            0 <= i < entries.len() ==> #[trigger] entry_views(entries)[i]
                == (entries[i].0@, entries[i].1@),
        keyed_statuses(rows).len() == rows.len(),
        forall|i: int|
            0 <= i < rows.len() ==> #[trigger] keyed_statuses(rows)[i] == (rows[i].0@, rows[i].1@),
{
}

} // verus!
