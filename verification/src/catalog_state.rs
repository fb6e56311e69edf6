//! The file-backed archive catalog: segment entries kept in segment-id order
//! with their rollups, and the event locators that map an event id to the
//! segment holding it.
use vstd::prelude::*;
use crate::catalog::{
    ArchivedUsageSegment, archived_segment_from_record,
    UsageCatalogSegmentRecord, UsageCatalogKeyRollupRecord, UsageCatalogFieldRollupRecord,
};
use crate::scan::{seq_less, after_last, parse_u64_spec, lemma_seq_less_irreflexive, lemma_seq_less_transitive, lemma_seq_less_total};

verus! {

/// One catalogued segment with its per-key and per-field rollups.
#[derive(Debug, Clone)]
pub struct CatalogSegmentEntry {
    pub record: UsageCatalogSegmentRecord,
    pub rollups: Vec<UsageCatalogKeyRollupRecord>,
    pub field_rollups: Vec<UsageCatalogFieldRollupRecord>,
}

/// The segment that holds one event.
#[derive(Debug, Clone)]
pub struct EventLocator {
    pub event_id: String,
    pub segment_id: String,
}

/// The catalog contents: entries in ascending segment-id order, one per id,
/// and at most one locator per event id.
#[derive(Debug, Clone)]
pub struct TestTieredUsageCatalogState {
    pub segments: Vec<CatalogSegmentEntry>,
    pub event_locators: Vec<EventLocator>,
}

/// Whether no key occurs twice.
pub open spec fn unique_keys(keys: Seq<Seq<char>>) -> bool {
    forall|i: int, j: int| 0 <= i < keys.len() && 0 <= j < keys.len() && i != j ==> keys[i] != keys[j]
}

/// Whether the keys ascend strictly.
pub open spec fn strictly_ascending(keys: Seq<Seq<char>>) -> bool {
    forall|i: int, j: int| 0 <= i < j < keys.len() ==> seq_less(#[trigger] keys[i], #[trigger] keys[j])
}

/// The index of a key that occurs once.
pub proof fn lemma_index_of_unique(keys: Seq<Seq<char>>, i: int)
    requires
        unique_keys(keys),
        0 <= i < keys.len(),
    ensures
        keys.index_of(keys[i]) == i,
{
    assert(keys.contains(keys[i]));
    let j = keys.index_of(keys[i]);
    assert(0 <= j < keys.len() && keys[j] == keys[i]);
}

/// Strictly ascending keys are unique.
pub proof fn lemma_ascending_unique(keys: Seq<Seq<char>>)
    requires
        strictly_ascending(keys),
    ensures
        unique_keys(keys),
{
    assert forall|i: int, j: int| 0 <= i < keys.len() && 0 <= j < keys.len() && i != j implies keys[i] != keys[j] by {
        if i < j {
            assert(seq_less(keys[i], keys[j]));
            lemma_seq_less_irreflexive(keys[i]);
        } else {
            assert(seq_less(keys[j], keys[i]));
            lemma_seq_less_irreflexive(keys[j]);
        }
    }
}

/// The map from each key to the value at the same position.
pub open spec fn pairs_map<V>(keys: Seq<Seq<char>>, vals: Seq<V>) -> Map<Seq<char>, V> {
    Map::new(|k: Seq<char>| keys.contains(k), |k: Seq<char>| vals[keys.index_of(k)])
}

/// Appending a new key adds it to the map.
pub proof fn lemma_pairs_map_push<V>(keys: Seq<Seq<char>>, vals: Seq<V>, k: Seq<char>, v: V)
    requires
        unique_keys(keys),
        keys.len() == vals.len(),
        !keys.contains(k),
    ensures
        unique_keys(keys.push(k)),
        pairs_map(keys.push(k), vals.push(v)) == pairs_map(keys, vals).insert(k, v),
{
    let nk = keys.push(k);
    let nv = vals.push(v);
    assert(unique_keys(nk)) by {
        assert forall|i: int, j: int| 0 <= i < nk.len() && 0 <= j < nk.len() && i != j implies nk[i] != nk[j] by {
            if i == keys.len() {
                assert(keys[j] == nk[j]);
            } else if j == keys.len() {
                assert(keys[i] == nk[i]);
            }
        }
    }
    assert forall|q: Seq<char>| #![auto] pairs_map(nk, nv).dom().contains(q) <==> pairs_map(keys, vals).insert(k, v).dom().contains(q) by {
        if keys.contains(q) {
            let i = keys.index_of(q);
            assert(nk[i] == q);
        }
        if nk.contains(q) && q != k {
            let i = nk.index_of(q);
            assert(keys[i] == q);
        }
        assert(nk[keys.len() as int] == k);
    }
    assert forall|q: Seq<char>| #![auto] pairs_map(nk, nv).dom().contains(q) implies pairs_map(nk, nv)[q] == pairs_map(keys, vals).insert(k, v)[q] by {
        let i = nk.index_of(q);
        lemma_index_of_unique(nk, i);
        if q != k {
            assert(keys[i] == q);
            lemma_index_of_unique(keys, i);
        }
    }
    assert(pairs_map(nk, nv) =~= pairs_map(keys, vals).insert(k, v));
}

/// Replacing the value at a position rebinds that position's key.
pub proof fn lemma_pairs_map_update<V>(keys: Seq<Seq<char>>, vals: Seq<V>, i: int, v: V)
    requires
        unique_keys(keys),
        keys.len() == vals.len(),
        0 <= i < keys.len(),
    ensures
        pairs_map(keys, vals.update(i, v)) == pairs_map(keys, vals).insert(keys[i], v),
{
    let nv = vals.update(i, v);
    assert forall|q: Seq<char>| #![auto] pairs_map(keys, nv).dom().contains(q) <==> pairs_map(keys, vals).insert(keys[i], v).dom().contains(q) by {
        if q == keys[i] {
            assert(keys.contains(q));
        }
    }
    assert forall|q: Seq<char>| #![auto] pairs_map(keys, nv).dom().contains(q) implies pairs_map(keys, nv)[q] == pairs_map(keys, vals).insert(keys[i], v)[q] by {
        let j = keys.index_of(q);
        lemma_index_of_unique(keys, j);
        lemma_index_of_unique(keys, i);
    }
    assert(pairs_map(keys, nv) =~= pairs_map(keys, vals).insert(keys[i], v));
}

/// Looking a key up by its position.
pub proof fn lemma_pairs_map_at<V>(keys: Seq<Seq<char>>, vals: Seq<V>, i: int)
    requires
        unique_keys(keys),
        keys.len() == vals.len(),
        0 <= i < keys.len(),
    ensures
        pairs_map(keys, vals).dom().contains(keys[i]),
        pairs_map(keys, vals)[keys[i]] == vals[i],
{
    assert(keys.contains(keys[i]));
    lemma_index_of_unique(keys, i);
}

impl TestTieredUsageCatalogState {
    /// The segment ids in entry order.
    pub open spec fn ids(self) -> Seq<Seq<char>> {
        Seq::new(self.segments@.len(), |i: int| self.segments@[i].record.segment_id@)
    }

    /// The event ids in locator order.
    pub open spec fn event_ids(self) -> Seq<Seq<char>> {
        Seq::new(self.event_locators@.len(), |i: int| self.event_locators@[i].event_id@)
    }

    /// Entries ascend by segment id; event ids are unique.
    pub open spec fn wf(self) -> bool {
        &&& strictly_ascending(self.ids())
        &&& unique_keys(self.event_ids())
    }

    /// The catalogued segments by id.
    pub open spec fn segment_map(self) -> Map<Seq<char>, CatalogSegmentEntry> {
        Map::new(
            |k: Seq<char>| self.ids().contains(k),
            |k: Seq<char>| self.segments@[self.ids().index_of(k)],
        )
    }

    /// The segment ids in locator order.
    pub open spec fn locator_segments(self) -> Seq<Seq<char>> {
        Seq::new(self.event_locators@.len(), |i: int| self.event_locators@[i].segment_id@)
    }

    /// The segment id of each located event.
    pub open spec fn locator_map(self) -> Map<Seq<char>, Seq<char>> {
        pairs_map(self.event_ids(), self.locator_segments())
    }

    /// The empty catalog.
    pub fn new() -> (r: Self)
        ensures
            r.wf(),
            r.segment_map() == Map::<Seq<char>, CatalogSegmentEntry>::empty(),
            r.locator_map() == Map::<Seq<char>, Seq<char>>::empty(),
    {
        let r = TestTieredUsageCatalogState { segments: Vec::new(), event_locators: Vec::new() };
        assert(r.segment_map() =~= Map::<Seq<char>, CatalogSegmentEntry>::empty());
        assert(r.locator_map() =~= Map::<Seq<char>, Seq<char>>::empty());
        r
    }

    /// Stores an entry under its segment id, replacing the entry of that id.
    pub fn put_segment(&mut self, entry: CatalogSegmentEntry)
        requires
            old(self).wf(),
        ensures
            final(self).wf(),
            final(self).segment_map() == old(self).segment_map().insert(entry.record.segment_id@, entry),
            final(self).event_locators == old(self).event_locators,
    {
        let ghost old_ids = self.ids();
        let ghost id = entry.record.segment_id@;
        let mut p: usize = 0;
        while p < self.segments.len()
            && crate::scan::str_less(self.segments[p].record.segment_id.as_str(), entry.record.segment_id.as_str())
            invariant
                p <= self.segments.len(),
                self.ids() == old_ids,
                id == entry.record.segment_id@,
                forall|i: int| 0 <= i < p ==> seq_less(#[trigger] old_ids[i], id),
            decreases self.segments.len() - p,
        {
            p = p + 1;
        }
        proof {
            lemma_ascending_unique(old_ids);
        }
        if p < self.segments.len() && self.segments[p].record.segment_id == entry.record.segment_id {
            self.segments.set(p, entry);
            proof {
                assert(self.ids() =~= old_ids.update(p as int, id));
                assert(self.ids() =~= old_ids);
                lemma_ascending_unique(self.ids());
                assert(old_ids[p as int] == id);
                assert forall|k: Seq<char>| #![auto] self.segment_map().dom().contains(k) <==>
                    old(self).segment_map().insert(id, entry).dom().contains(k) by {
                    if k == id {
                        assert(self.ids()[p as int] == k);
                    }
                }
                assert forall|k: Seq<char>| #![auto] self.segment_map().dom().contains(k) implies
                    self.segment_map()[k] == old(self).segment_map().insert(id, entry)[k] by {
                    let i = self.ids().index_of(k);
                    lemma_index_of_unique(self.ids(), i);
                    if k == id {
                        lemma_index_of_unique(self.ids(), p as int);
                    } else {
                        lemma_index_of_unique(old_ids, i);
                    }
                }
                assert(self.segment_map() =~= old(self).segment_map().insert(id, entry));
            }
        } else {
            proof {
                if p < old_ids.len() {
                    lemma_seq_less_total(old_ids[p as int], id);
                }
            }
            self.segments.insert(p, entry);
            proof {
                let new_ids = self.ids();
                assert(new_ids =~= old_ids.insert(p as int, id));
                assert forall|i: int, j: int| 0 <= i < j < new_ids.len() implies seq_less(#[trigger] new_ids[i], #[trigger] new_ids[j]) by {
                    if j < p {
                    } else if j == p {
                    } else if i < p {
                        assert(new_ids[j] == old_ids[j - 1]);
                        if j - 1 > p {
                            assert(seq_less(old_ids[p as int], old_ids[j - 1]));
                            lemma_seq_less_transitive(id, old_ids[p as int], old_ids[j - 1]);
                        }
                        lemma_seq_less_transitive(old_ids[i], id, old_ids[j - 1]);
                    } else if i == p {
                        if j - 1 > p {
                            assert(seq_less(old_ids[p as int], old_ids[j - 1]));
                            lemma_seq_less_transitive(id, old_ids[p as int], old_ids[j - 1]);
                        }
                    } else {
                        assert(new_ids[i] == old_ids[i - 1]);
                        assert(new_ids[j] == old_ids[j - 1]);
                    }
                }
                lemma_ascending_unique(new_ids);
                assert(!old_ids.contains(id)) by {
                    if old_ids.contains(id) {
                        let q = old_ids.index_of(id);
                        if q < p {
                            lemma_seq_less_irreflexive(id);
                        } else if q > p {
                            assert(seq_less(old_ids[p as int], old_ids[q]));
                            lemma_seq_less_transitive(id, old_ids[p as int], id);
                            lemma_seq_less_irreflexive(id);
                        }
                    }
                }
                assert forall|k: Seq<char>| #![auto] self.segment_map().dom().contains(k) <==>
                    old(self).segment_map().insert(id, entry).dom().contains(k) by {
                    if old_ids.contains(k) {
                        let q = old_ids.index_of(k);
                        if q < p {
                            assert(new_ids[q] == k);
                        } else {
                            assert(new_ids[q + 1] == k);
                        }
                    }
                    if new_ids.contains(k) && k != id {
                        let q = new_ids.index_of(k);
                        if q < p {
                            assert(old_ids[q] == k);
                        } else {
                            assert(old_ids[q - 1] == k);
                        }
                    }
                    assert(new_ids[p as int] == id);
                }
                assert forall|k: Seq<char>| #![auto] self.segment_map().dom().contains(k) implies
                    self.segment_map()[k] == old(self).segment_map().insert(id, entry)[k] by {
                    let i = new_ids.index_of(k);
                    lemma_index_of_unique(new_ids, i);
                    if k == id {
                        lemma_index_of_unique(new_ids, p as int);
                    } else if i < p {
                        assert(old_ids[i] == k);
                        lemma_index_of_unique(old_ids, i);
                    } else {
                        assert(old_ids[i - 1] == k);
                        lemma_index_of_unique(old_ids, i - 1);
                    }
                }
                assert(self.segment_map() =~= old(self).segment_map().insert(id, entry));
            }
        }
    }
}

impl EventLocator {
    /// A copy of this locator.
    pub fn duplicate(&self) -> (r: Self)
        ensures
            r == *self,
    {
        EventLocator { event_id: self.event_id.clone(), segment_id: self.segment_id.clone() }
    }
}

/// The locators that do not point at `segment_id`.
pub open spec fn locators_without(m: Map<Seq<char>, Seq<char>>, segment_id: Seq<char>) -> Map<Seq<char>, Seq<char>> {
    Map::new(|e: Seq<char>| m.dom().contains(e) && m[e] != segment_id, |e: Seq<char>| m[e])
}

impl TestTieredUsageCatalogState {
    /// Drops every locator that points at `segment_id`.
    pub fn drop_locators_of(&mut self, segment_id: &String)
        requires
            old(self).wf(),
        ensures
            final(self).wf(),
            final(self).segments == old(self).segments,
            final(self).locator_map() == locators_without(old(self).locator_map(), segment_id@),
    {
        let ghost old_keys = self.event_ids();
        let ghost old_vals = self.locator_segments();
        let ghost old_map = self.locator_map();
        let mut out: Vec<EventLocator> = Vec::new();
        let mut i: usize = 0;
        while i < self.event_locators.len()
            invariant
                i <= self.event_locators.len(),
                self.event_ids() == old_keys,
                self.locator_segments() == old_vals,
                old_map == pairs_map(old_keys, old_vals),
                unique_keys(old_keys),
                old_keys.len() == old_vals.len(),
                unique_keys(Seq::new(out@.len(), |a: int| out@[a].event_id@)),
                forall|a: int| 0 <= a < out@.len() ==> old_keys.take(i as int).contains(#[trigger] out@[a].event_id@),
                pairs_map(Seq::new(out@.len(), |a: int| out@[a].event_id@), Seq::new(out@.len(), |a: int| out@[a].segment_id@))
                    == Map::new(|e: Seq<char>| old_keys.take(i as int).contains(e) && old_map[e] != segment_id@, |e: Seq<char>| old_map[e]),
            decreases self.event_locators.len() - i,
        {
            let ghost ok = Seq::new(out@.len(), |a: int| out@[a].event_id@);
            let ghost ov = Seq::new(out@.len(), |a: int| out@[a].segment_id@);
            let ghost ek = old_keys[i as int];
            proof {
                lemma_pairs_map_at(old_keys, old_vals, i as int);
                assert(old_keys.take(i + 1) =~= old_keys.take(i as int).push(ek));
                assert(!ok.contains(ek)) by {
                    if ok.contains(ek) {
                        let a = ok.index_of(ek);
                        assert(old_keys.take(i as int).contains(out@[a].event_id@));
                        let b = old_keys.take(i as int).index_of(ek);
                        assert(old_keys[b] == old_keys[i as int]);
                    }
                }
            }
            if self.event_locators[i].segment_id != *segment_id {
                let l = self.event_locators[i].duplicate();
                out.push(l);
                proof {
                    let nk = Seq::new(out@.len(), |a: int| out@[a].event_id@);
                    let nv = Seq::new(out@.len(), |a: int| out@[a].segment_id@);
                    assert(nk =~= ok.push(ek));
                    assert(nv =~= ov.push(old_vals[i as int]));
                    lemma_pairs_map_push(ok, ov, ek, old_vals[i as int]);
                    assert(self.locator_segments()[i as int] == old_vals[i as int]);
                    assert(old_map[ek] == old_vals[i as int]);
                    assert(old_vals[i as int] != segment_id@);
                    assert forall|e: Seq<char>| old_keys.take(i + 1).contains(e) <==> (old_keys.take(i as int).contains(e) || e == ek) by {
                        if old_keys.take(i + 1).contains(e) {
                            let b = old_keys.take(i + 1).index_of(e);
                            if b < i {
                                assert(old_keys.take(i as int)[b] == e);
                            }
                        }
                        if old_keys.take(i as int).contains(e) {
                            let b = old_keys.take(i as int).index_of(e);
                            assert(old_keys.take(i + 1)[b] == e);
                        }
                        if e == ek {
                            assert(old_keys.take(i + 1)[i as int] == e);
                        }
                    }
                    let prev = Map::new(|e: Seq<char>| old_keys.take(i as int).contains(e) && old_map[e] != segment_id@, |e: Seq<char>| old_map[e]);
                    let next = Map::new(|e: Seq<char>| old_keys.take(i + 1).contains(e) && old_map[e] != segment_id@, |e: Seq<char>| old_map[e]);
                    assert(pairs_map(ok, ov) == prev);
                    assert(self.event_locators@.len() == old_keys.len());
                    assert(old_keys.take(i + 1)[i as int] == ek);
                    assert(old_keys.take(i + 1).contains(ek));
                    assert(next.dom().contains(ek));
                    assert forall|e: Seq<char>| #![auto] prev.insert(ek, old_vals[i as int]).dom().contains(e) <==> next.dom().contains(e) by {
                        if e == ek {
                        } else {
                            assert(old_keys.take(i + 1).contains(e) <==> old_keys.take(i as int).contains(e));
                        }
                    }
                    assert forall|e: Seq<char>| #![auto] next.dom().contains(e) implies prev.insert(ek, old_vals[i as int])[e] == next[e] by {
                    }
                    assert(prev.insert(ek, old_vals[i as int]) =~= next);
                    assert(pairs_map(nk, nv) == pairs_map(ok, ov).insert(ek, old_vals[i as int]));
                    assert(pairs_map(nk, nv) =~= next);
                    assert forall|a: int| 0 <= a < out@.len() implies old_keys.take(i + 1).contains(#[trigger] out@[a].event_id@) by {
                        if a < out@.len() - 1 {
                            assert(old_keys.take(i as int).contains(out@[a].event_id@));
                            let b = old_keys.take(i as int).index_of(out@[a].event_id@);
                            assert(old_keys.take(i + 1)[b] == out@[a].event_id@);
                        } else {
                            assert(old_keys.take(i + 1)[i as int] == ek);
                        }
                    }
                }
            } else {
                proof {
                    assert(self.locator_segments()[i as int] == old_vals[i as int]);
                    assert(old_map[ek] == segment_id@);
                    assert forall|e: Seq<char>| old_keys.take(i + 1).contains(e) <==> (old_keys.take(i as int).contains(e) || e == ek) by {
                        if old_keys.take(i + 1).contains(e) {
                            let b = old_keys.take(i + 1).index_of(e);
                            if b < i {
                                assert(old_keys.take(i as int)[b] == e);
                            }
                        }
                        if old_keys.take(i as int).contains(e) {
                            let b = old_keys.take(i as int).index_of(e);
                            assert(old_keys.take(i + 1)[b] == e);
                        }
                        if e == ek {
                            assert(old_keys.take(i + 1)[i as int] == e);
                        }
                    }
                    assert(Map::new(|e: Seq<char>| old_keys.take(i as int).contains(e) && old_map[e] != segment_id@, |e: Seq<char>| old_map[e])
                        =~= Map::new(|e: Seq<char>| old_keys.take(i + 1).contains(e) && old_map[e] != segment_id@, |e: Seq<char>| old_map[e]));
                    assert forall|a: int| 0 <= a < out@.len() implies old_keys.take(i + 1).contains(#[trigger] out@[a].event_id@) by {
                        assert(old_keys.take(i as int).contains(out@[a].event_id@));
                        let b = old_keys.take(i as int).index_of(out@[a].event_id@);
                        assert(old_keys.take(i + 1)[b] == out@[a].event_id@);
                    }
                }
            }
            i = i + 1;
        }
        self.event_locators = out;
        proof {
            assert(old_keys.take(old_keys.len() as int) =~= old_keys);
            assert(self.event_ids() =~= Seq::new(out@.len(), |a: int| out@[a].event_id@));
            assert(self.locator_segments() =~= Seq::new(out@.len(), |a: int| out@[a].segment_id@));
            assert(self.locator_map() =~= locators_without(old_map, segment_id@));
        }
    }

    /// Points `event_id` at `segment_id`.
    pub fn put_locator(&mut self, event_id: String, segment_id: String)
        requires
            old(self).wf(),
        ensures
            final(self).wf(),
            final(self).segments == old(self).segments,
            final(self).locator_map() == old(self).locator_map().insert(event_id@, segment_id@),
    {
        let ghost keys = self.event_ids();
        let ghost vals = self.locator_segments();
        let mut i: usize = 0;
        while i < self.event_locators.len() && self.event_locators[i].event_id != event_id
            invariant
                i <= self.event_locators.len(),
                self.event_ids() == keys,
                forall|j: int| 0 <= j < i ==> keys[j] != event_id@,
            decreases self.event_locators.len() - i,
        {
            i = i + 1;
        }
        if i < self.event_locators.len() {
            let ghost ev = event_id@;
            let ghost sv = segment_id@;
            self.event_locators.set(i, EventLocator { event_id, segment_id });
            proof {
                assert(self.event_ids() =~= keys);
                assert(self.locator_segments() =~= vals.update(i as int, sv));
                lemma_pairs_map_update(keys, vals, i as int, sv);
            }
        } else {
            let ghost ev = event_id@;
            let ghost sv = segment_id@;
            self.event_locators.push(EventLocator { event_id, segment_id });
            proof {
                assert(!keys.contains(ev)) by {
                    if keys.contains(ev) {
                        let j = keys.index_of(ev);
                    }
                }
                assert(self.event_ids() =~= keys.push(ev));
                assert(self.locator_segments() =~= vals.push(sv));
                lemma_pairs_map_push(keys, vals, ev, sv);
            }
        }
    }
}

/// A segment removed from the catalog by retention.
#[derive(Debug, Clone)]
pub struct UsageCatalogRetentionSegment {
    pub segment_id: String,
    pub archive_path: String,
}

/// Whether a segment ended before the retention cutoff.
pub open spec fn segment_expired(entry: CatalogSegmentEntry, cutoff_ms: i64) -> bool {
    entry.record.end_ms matches Some(end) && end < cutoff_ms
}

/// The id and archive path of a segment.
pub open spec fn retention_view(entry: CatalogSegmentEntry) -> (Seq<char>, Seq<char>) {
    (entry.record.segment_id@, entry.record.archive_path@)
}

/// The views of a list of strings.
pub open spec fn string_views(v: Seq<String>) -> Seq<Seq<char>> {
    Seq::new(v.len(), |i: int| v[i]@)
}

/// The locators after publishing `events` into `segment_id`: the segment's
/// old locators are dropped, then each event points at the segment.
pub open spec fn published_locators(
    m: Map<Seq<char>, Seq<char>>,
    segment_id: Seq<char>,
    events: Seq<Seq<char>>,
) -> Map<Seq<char>, Seq<char>> {
    Map::new(
        |e: Seq<char>| events.contains(e) || (m.dom().contains(e) && m[e] != segment_id),
        |e: Seq<char>| if events.contains(e) { segment_id } else { m[e] },
    )
}

/// The largest sequence number among the segment ids (the text after the
/// last `-`, parsed as `u64`), or zero.
pub open spec fn max_sequence(ids: Seq<Seq<char>>) -> u64
    decreases ids.len(),
{
    if ids.len() == 0 {
        0
    } else {
        let rest = max_sequence(ids.drop_last());
        match parse_u64_spec(after_last(ids.last(), '-')) {
            Some(v) => if v > rest { v } else { rest },
            None => rest,
        }
    }
}

/// The sequence number of a segment id: the text after its last `-`.
pub fn parse_sequence_from_segment_id(segment_id: &str) -> (r: Option<u64>)
    ensures
        r == parse_u64_spec(after_last(segment_id@, '-')),
{
    let tail = crate::scan::last_field(segment_id, '-');
    crate::scan::parse_u64_chars(&tail)
}

/// The archive catalog kept in a JSON file: its path and contents.
#[derive(Debug, Clone)]
pub struct TestTieredUsageCatalog {
    pub path: String,
    pub state: TestTieredUsageCatalogState,
}

impl TestTieredUsageCatalog {
    /// Well-formed contents.
    pub open spec fn wf(self) -> bool {
        self.state.wf()
    }

    /// An empty catalog stored at `path`.
    pub fn new(path: String) -> (r: Self)
        ensures
            r.wf(),
            r.path@ == path@,
            r.state.segment_map() == Map::<Seq<char>, CatalogSegmentEntry>::empty(),
            r.state.locator_map() == Map::<Seq<char>, Seq<char>>::empty(),
    {
        TestTieredUsageCatalog { path, state: TestTieredUsageCatalogState::new() }
    }

    /// Whether no segment is catalogued.
    pub fn is_empty(&self) -> (r: bool)
        ensures
            r == (self.state.segment_map().dom() == Set::<Seq<char>>::empty()),
    {
        let r = self.state.segments.len() == 0;
        proof {
            if !r {
                assert(self.state.ids()[0] == self.state.ids()[0]);
                assert(self.state.segment_map().dom().contains(self.state.ids()[0]));
            } else {
                assert(self.state.segment_map().dom() =~= Set::<Seq<char>>::empty());
            }
        }
        r
    }

    /// The largest sequence number among the catalogued segment ids, or zero.
    pub fn next_sequence(&self) -> (r: u64)
        ensures
            r == max_sequence(self.state.ids()),
    {
        let mut best: u64 = 0;
        let mut i: usize = 0;
        while i < self.state.segments.len()
            invariant
                i <= self.state.segments.len(),
                best == max_sequence(self.state.ids().take(i as int)),
            decreases self.state.segments.len() - i,
        {
            proof {
                assert(self.state.ids().take(i + 1).drop_last() =~= self.state.ids().take(i as int));
                assert(self.state.ids().take(i + 1).last() == self.state.segments@[i as int].record.segment_id@);
            }
            match parse_sequence_from_segment_id(self.state.segments[i].record.segment_id.as_str()) {
                Some(v) => {
                    if v > best {
                        best = v;
                    }
                },
                None => {},
            }
            i = i + 1;
        }
        assert(self.state.ids().take(i as int) =~= self.state.ids());
        best
    }

    /// The archive path of a catalogued segment.
    pub fn archive_path_for_segment(&self, segment_id: &str) -> (r: Option<String>)
        requires
            self.wf(),
        ensures
            r is Some <==> self.state.segment_map().dom().contains(segment_id@),
            r matches Some(p) ==> p@ == self.state.segment_map()[segment_id@].record.archive_path@,
    {
        let ghost ids = self.state.ids();
        let mut i: usize = 0;
        while i < self.state.segments.len()
            invariant
                i <= self.state.segments.len(),
                self.wf(),
                ids == self.state.ids(),
                forall|j: int| 0 <= j < i ==> ids[j] != segment_id@,
            decreases self.state.segments.len() - i,
        {
            if crate::text::str_equals(self.state.segments[i].record.segment_id.as_str(), segment_id) {
                proof {
                    crate::catalog_state::lemma_ascending_unique(ids);
                    lemma_index_of_unique(ids, i as int);
                }
                return Some(self.state.segments[i].record.archive_path.clone());
            }
            i = i + 1;
        }
        proof {
            if ids.contains(segment_id@) {
                let j = ids.index_of(segment_id@);
            }
        }
        None
    }

    /// Catalogues a segment with its rollups, replacing an entry of the same
    /// id, and points each of `event_ids` at it after dropping the locators
    /// that pointed at it before.
    pub fn publish_segment(
        &mut self,
        segment: UsageCatalogSegmentRecord,
        rollups: Vec<UsageCatalogKeyRollupRecord>,
        field_rollups: Vec<UsageCatalogFieldRollupRecord>,
        event_ids: &Vec<String>,
    )
        requires
            old(self).wf(),
        ensures
            final(self).wf(),
            final(self).path == old(self).path,
            final(self).state.segment_map() == old(self).state.segment_map().insert(
                segment.segment_id@,
                CatalogSegmentEntry { record: segment, rollups, field_rollups },
            ),
            final(self).state.locator_map() == published_locators(
                old(self).state.locator_map(),
                segment.segment_id@,
                string_views(event_ids@),
            ),
    {
        let ghost old_map = self.state.locator_map();
        let ghost events = string_views(event_ids@);
        let id = segment.segment_id.clone();
        self.state.put_segment(CatalogSegmentEntry { record: segment, rollups, field_rollups });
        self.state.drop_locators_of(&id);
        let mut k: usize = 0;
        proof {
            assert(events.take(0) =~= Seq::<Seq<char>>::empty());
            assert(self.state.locator_map() =~= Map::new(
                |e: Seq<char>| events.take(0).contains(e) || (old_map.dom().contains(e) && old_map[e] != id@),
                |e: Seq<char>| if events.take(0).contains(e) { id@ } else { old_map[e] },
            ));
        }
        while k < event_ids.len()
            invariant
                k <= event_ids.len(),
                self.wf(),
                events == string_views(event_ids@),
                self.state.segment_map() == old(self).state.segment_map().insert(
                    segment.segment_id@,
                    CatalogSegmentEntry { record: segment, rollups, field_rollups },
                ),
                id@ == segment.segment_id@,
                self.path == old(self).path,
                self.state.locator_map() == Map::new(
                    |e: Seq<char>| events.take(k as int).contains(e) || (old_map.dom().contains(e) && old_map[e] != id@),
                    |e: Seq<char>| if events.take(k as int).contains(e) { id@ } else { old_map[e] },
                ),
            decreases event_ids.len() - k,
        {
            let ghost before = self.state.locator_map();
            let ghost segs_before = self.state.segment_map();
            self.state.put_locator(event_ids[k].clone(), id.clone());
            proof {
                let ev = events[k as int];
                assert(self.state.locator_map() == before.insert(ev, id@));
                assert(ev == event_ids@[k as int]@);
                assert forall|e: Seq<char>| events.take(k + 1).contains(e) <==> (events.take(k as int).contains(e) || e == ev) by {
                    assert(events.take(k + 1)[k as int] == ev);
                    if events.take(k + 1).contains(e) {
                        let b = events.take(k + 1).index_of(e);
                        if b < k {
                            assert(events.take(k as int)[b] == e);
                        }
                    }
                    if events.take(k as int).contains(e) {
                        let b = events.take(k as int).index_of(e);
                        assert(events.take(k + 1)[b] == e);
                    }
                }
                let next = Map::new(
                    |e: Seq<char>| events.take(k + 1).contains(e) || (old_map.dom().contains(e) && old_map[e] != id@),
                    |e: Seq<char>| if events.take(k + 1).contains(e) { id@ } else { old_map[e] },
                );
                let prev = Map::new(
                    |e: Seq<char>| events.take(k as int).contains(e) || (old_map.dom().contains(e) && old_map[e] != id@),
                    |e: Seq<char>| if events.take(k as int).contains(e) { id@ } else { old_map[e] },
                );
                assert(before == prev);
                assert forall|e: Seq<char>| #![auto] prev.insert(ev, id@).dom().contains(e) <==> next.dom().contains(e) by {
                    assert(events.take(k + 1).contains(e) == (events.take(k as int).contains(e) || e == ev));
                }
                assert forall|e: Seq<char>| #![auto] next.dom().contains(e) implies prev.insert(ev, id@)[e] == next[e] by {
                    assert(events.take(k + 1).contains(e) == (events.take(k as int).contains(e) || e == ev));
                }
                assert(prev.insert(ev, id@) =~= next);
            }
            k = k + 1;
        }
        proof {
            assert(events.take(k as int) =~= events);
            assert(self.state.locator_map() =~= published_locators(old_map, id@, events));
        }
    }
}

/// Removing an element keeps keys strictly ascending.
pub proof fn lemma_ascending_remove(keys: Seq<Seq<char>>, i: int)
    requires
        strictly_ascending(keys),
        0 <= i < keys.len(),
    ensures
        strictly_ascending(keys.remove(i)),
{
    let r = keys.remove(i);
    assert forall|a: int, b: int| 0 <= a < b < r.len() implies seq_less(#[trigger] r[a], #[trigger] r[b]) by {
        let a2 = if a < i { a } else { a + 1 };
        let b2 = if b < i { b } else { b + 1 };
        assert(r[a] == keys[a2]);
        assert(r[b] == keys[b2]);
    }
}

impl TestTieredUsageCatalogState {
    /// The position of the entry with id `segment_id`.
    pub fn entry_index(&self, segment_id: &str) -> (r: Option<usize>)
        requires
            self.wf(),
        ensures
            r is None <==> !self.ids().contains(segment_id@),
            r matches Some(i) ==> i < self.segments@.len() && self.ids()[i as int] == segment_id@
                && self.segment_map()[segment_id@] == self.segments@[i as int],
    {
        let ghost ids = self.ids();
        let mut i: usize = 0;
        while i < self.segments.len()
            invariant
                i <= self.segments.len(),
                self.wf(),
                ids == self.ids(),
                forall|j: int| 0 <= j < i ==> ids[j] != segment_id@,
            decreases self.segments.len() - i,
        {
            if crate::text::str_equals(self.segments[i].record.segment_id.as_str(), segment_id) {
                proof {
                    lemma_ascending_unique(ids);
                    lemma_index_of_unique(ids, i as int);
                }
                return Some(i);
            }
            i = i + 1;
        }
        proof {
            if ids.contains(segment_id@) {
                let j = ids.index_of(segment_id@);
            }
        }
        None
    }

    /// The segment id an event points at.
    pub fn locator_of(&self, event_id: &str) -> (r: Option<&String>)
        requires
            self.wf(),
        ensures
            r is None <==> !self.locator_map().dom().contains(event_id@),
            r matches Some(s) ==> s@ == self.locator_map()[event_id@],
    {
        let ghost keys = self.event_ids();
        let mut i: usize = 0;
        while i < self.event_locators.len()
            invariant
                i <= self.event_locators.len(),
                self.wf(),
                keys == self.event_ids(),
                forall|j: int| 0 <= j < i ==> keys[j] != event_id@,
            decreases self.event_locators.len() - i,
        {
            if crate::text::str_equals(self.event_locators[i].event_id.as_str(), event_id) {
                proof {
                    lemma_pairs_map_at(keys, self.locator_segments(), i as int);
                }
                return Some(&self.event_locators[i].segment_id);
            }
            i = i + 1;
        }
        proof {
            if keys.contains(event_id@) {
                let j = keys.index_of(event_id@);
            }
        }
        None
    }
}

/// The archived view of a catalogued segment.
pub open spec fn archived_view(entry: CatalogSegmentEntry) -> (Seq<char>, Option<i64>, Option<i64>) {
    (entry.record.archive_path@, entry.record.start_ms, entry.record.end_ms)
}

/// The segment an event is located in, when both the locator and the
/// segment are catalogued.
pub open spec fn located_entry(state: TestTieredUsageCatalogState, event_id: Seq<char>) -> Option<CatalogSegmentEntry> {
    if state.locator_map().dom().contains(event_id) && state.segment_map().dom().contains(state.locator_map()[event_id]) {
        Some(state.segment_map()[state.locator_map()[event_id]])
    } else {
        None
    }
}

/// The locators left after dropping those that point at any of `ids`.
pub open spec fn locators_outside(m: Map<Seq<char>, Seq<char>>, ids: Seq<Seq<char>>) -> Map<Seq<char>, Seq<char>> {
    Map::new(|e: Seq<char>| m.dom().contains(e) && !ids.contains(m[e]), |e: Seq<char>| m[e])
}

impl TestTieredUsageCatalog {
    /// The archived segment holding an event.
    pub fn locate_archived_segment(&self, event_id: &str) -> (r: Option<ArchivedUsageSegment>)
        requires
            self.wf(),
        ensures
            r is Some <==> located_entry(self.state, event_id@) is Some,
            r matches Some(a) ==> (a.archive_path@, a.start_ms, a.end_ms) == archived_view(located_entry(self.state, event_id@)->0),
    {
        match self.state.locator_of(event_id) {
            None => None,
            Some(segment_id) => match self.state.entry_index(segment_id.as_str()) {
                None => None,
                Some(i) => Some(archived_segment_from_record(&self.state.segments[i].record)),
            },
        }
    }

    /// Removes the segments that ended before `cutoff_ms`, with their
    /// rollups and event locators, and returns them in segment-id order.
    pub fn delete_expired_segments(&mut self, cutoff_ms: i64) -> (r: Vec<UsageCatalogRetentionSegment>)
        requires
            old(self).wf(),
        ensures
            final(self).wf(),
            final(self).path == old(self).path,
            Seq::new(r@.len(), |i: int| (r@[i].segment_id@, r@[i].archive_path@))
                == old(self).state.segments@.filter(|e: CatalogSegmentEntry| segment_expired(e, cutoff_ms)).map_values(
                |e: CatalogSegmentEntry| retention_view(e)),
            final(self).state.segments@ == old(self).state.segments@.filter(|e: CatalogSegmentEntry| !segment_expired(e, cutoff_ms)),
            final(self).state.locator_map() == locators_outside(
                old(self).state.locator_map(),
                Seq::new(r@.len(), |i: int| r@[i].segment_id@),
            ),
    {
        let ghost old_segs = self.state.segments@;
        let ghost old_map = self.state.locator_map();
        let ghost expired = |e: CatalogSegmentEntry| segment_expired(e, cutoff_ms);
        let ghost kept = |e: CatalogSegmentEntry| !segment_expired(e, cutoff_ms);
        let mut deleted: Vec<UsageCatalogRetentionSegment> = Vec::new();
        let mut i: usize = 0;
        let mut j: usize = 0;
        proof {
            reveal(Seq::filter);
            assert(old_segs.take(0).filter(kept) =~= Seq::<CatalogSegmentEntry>::empty());
            assert(old_segs.take(0).filter(expired) =~= Seq::<CatalogSegmentEntry>::empty());
            assert(self.state.segments@ =~= old_segs.take(0).filter(kept) + old_segs.skip(0));
        }
        assert(old_segs.len() == self.state.segments.len());
        while i < self.state.segments.len()
            invariant
                j <= old_segs.len(),
                old_segs.len() <= usize::MAX,
                i == old_segs.take(j as int).filter(kept).len(),
                self.state.segments@ == old_segs.take(j as int).filter(kept) + old_segs.skip(j as int),
                Seq::new(deleted@.len(), |a: int| (deleted@[a].segment_id@, deleted@[a].archive_path@))
                    == old_segs.take(j as int).filter(expired).map_values(|e: CatalogSegmentEntry| retention_view(e)),
                strictly_ascending(self.state.ids()),
                unique_keys(self.state.event_ids()),
                self.state.locator_map() == old_map,
                self.path == old(self).path,
                expired == (|e: CatalogSegmentEntry| segment_expired(e, cutoff_ms)),
                kept == (|e: CatalogSegmentEntry| !segment_expired(e, cutoff_ms)),
            decreases self.state.segments.len() - i,
        {
            let ghost cur = self.state.segments@;
            proof {
                assert(old_segs.take(j as int).filter(kept).len() + old_segs.skip(j as int).len() == cur.len());
                assert(j < old_segs.len());
                assert(cur[i as int] == old_segs[j as int]);
                assert(old_segs.take(j + 1).drop_last() =~= old_segs.take(j as int));
                assert(old_segs.take(j + 1).last() == old_segs[j as int]);
                assert(old_segs.skip(j as int).drop_first() =~= old_segs.skip(j + 1));
            }
            let end = self.state.segments[i].record.end_ms;
            let is_expired = match end {
                Some(e) => e < cutoff_ms,
                None => false,
            };
            if is_expired {
                let item = UsageCatalogRetentionSegment {
                    segment_id: self.state.segments[i].record.segment_id.clone(),
                    archive_path: self.state.segments[i].record.archive_path.clone(),
                };
                let ghost del_before = deleted@;
                proof {
                    assert(item.segment_id@ == old_segs[j as int].record.segment_id@);
                    assert(item.archive_path@ == old_segs[j as int].record.archive_path@);
                }
                deleted.push(item);
                let ghost ids_before = self.state.ids();
                self.state.segments.remove(i);
                proof {
                    assert(expired(old_segs[j as int]));
                    assert(!kept(old_segs[j as int]));
                    assert(old_segs.take(j + 1) =~= old_segs.take(j as int).push(old_segs[j as int]));
                    old_segs.take(j as int).lemma_filter_push(old_segs[j as int], kept);
                    old_segs.take(j as int).lemma_filter_push(old_segs[j as int], expired);
                    assert(old_segs.take(j + 1).filter(kept) == old_segs.take(j as int).filter(kept));
                    assert(old_segs.take(j + 1).filter(expired) == old_segs.take(j as int).filter(expired).push(old_segs[j as int]));
                    assert(self.state.ids() =~= ids_before.remove(i as int));
                    lemma_ascending_remove(ids_before, i as int);
                    assert(self.state.segments@ =~= old_segs.take(j + 1).filter(kept) + old_segs.skip(j + 1));
                    assert(deleted@ == del_before.push(item));
                    assert(old_segs.take(j as int).filter(expired).push(old_segs[j as int]).map_values(|e: CatalogSegmentEntry| retention_view(e))
                        =~= old_segs.take(j as int).filter(expired).map_values(|e: CatalogSegmentEntry| retention_view(e)).push(retention_view(old_segs[j as int])));
                    assert(Seq::new(deleted@.len(), |a: int| (deleted@[a].segment_id@, deleted@[a].archive_path@))
                        =~= Seq::new(del_before.len(), |a: int| (del_before[a].segment_id@, del_before[a].archive_path@)).push(retention_view(old_segs[j as int])));
                    assert(Seq::new(deleted@.len(), |a: int| (deleted@[a].segment_id@, deleted@[a].archive_path@))
                        =~= old_segs.take(j + 1).filter(expired).map_values(|e: CatalogSegmentEntry| retention_view(e)));
                }
            } else {
                proof {
                    assert(!expired(old_segs[j as int]));
                    assert(kept(old_segs[j as int]));
                    assert(old_segs.take(j + 1) =~= old_segs.take(j as int).push(old_segs[j as int]));
                    old_segs.take(j as int).lemma_filter_push(old_segs[j as int], kept);
                    old_segs.take(j as int).lemma_filter_push(old_segs[j as int], expired);
                    assert(old_segs.take(j + 1).filter(kept) == old_segs.take(j as int).filter(kept).push(old_segs[j as int]));
                    assert(self.state.segments@ =~= old_segs.take(j + 1).filter(kept) + old_segs.skip(j + 1));
                    assert(old_segs.take(j + 1).filter(expired) == old_segs.take(j as int).filter(expired));
                }
                i = i + 1;
            }
            j = j + 1;
        }
        proof {
            assert(old_segs.take(j as int).filter(kept).len() + old_segs.skip(j as int).len() == self.state.segments@.len());
            assert(j == old_segs.len());
            assert(old_segs.take(j as int) =~= old_segs);
            assert(self.state.segments@ =~= old_segs.filter(kept));
        }
        let ghost dids = Seq::new(deleted@.len(), |a: int| deleted@[a].segment_id@);
        let mut k: usize = 0;
        proof {
            assert(self.state.locator_map() =~= locators_outside(old_map, dids.take(0)));
        }
        while k < deleted.len()
            invariant
                k <= deleted.len(),
                self.wf(),
                self.path == old(self).path,
                self.state.segments@ == old_segs.filter(kept),
                dids == Seq::new(deleted@.len(), |a: int| deleted@[a].segment_id@),
                self.state.locator_map() == locators_outside(old_map, dids.take(k as int)),
            decreases deleted.len() - k,
        {
            let ghost before = self.state.locator_map();
            self.state.drop_locators_of(&deleted[k].segment_id);
            proof {
                assert forall|x: Seq<char>| dids.take(k + 1).contains(x) == (dids.take(k as int).contains(x) || x == dids[k as int]) by {
                    assert(dids.take(k + 1)[k as int] == dids[k as int]);
                    if dids.take(k + 1).contains(x) {
                        let b = dids.take(k + 1).index_of(x);
                        if b < k {
                            assert(dids.take(k as int)[b] == x);
                        }
                    }
                    if dids.take(k as int).contains(x) {
                        let b = dids.take(k as int).index_of(x);
                        assert(dids.take(k + 1)[b] == x);
                    }
                }
                let next = locators_outside(old_map, dids.take(k + 1));
                let now = locators_without(before, dids[k as int]);
                assert forall|e: Seq<char>| #![auto] now.dom().contains(e) <==> next.dom().contains(e) by {
                    if old_map.dom().contains(e) {
                        assert(dids.take(k + 1).contains(old_map[e]) == (dids.take(k as int).contains(old_map[e]) || old_map[e] == dids[k as int]));
                    }
                }
                assert(now =~= next);
            }
            k = k + 1;
        }
        proof {
            assert(dids.take(k as int) =~= dids);
        }
        deleted
    }
}

/// Every published event is located in the published segment, and every
/// other event keeps its segment unless it pointed at the published id.
pub proof fn lemma_published_events_locate(
    before: TestTieredUsageCatalogState,
    after: TestTieredUsageCatalogState,
    entry: CatalogSegmentEntry,
    events: Seq<Seq<char>>,
    event_id: Seq<char>,
)
    requires
        after.segment_map() == before.segment_map().insert(entry.record.segment_id@, entry),
        after.locator_map() == published_locators(before.locator_map(), entry.record.segment_id@, events),
    ensures
        events.contains(event_id) ==> located_entry(after, event_id) == Some(entry),
        (!events.contains(event_id) && located_entry(before, event_id) is Some
            && before.locator_map()[event_id] != entry.record.segment_id@)
            ==> located_entry(after, event_id) == located_entry(before, event_id),
{
}

/// After publishing, the segment's archive path is the published one.
pub proof fn lemma_published_segment_found(
    before: TestTieredUsageCatalogState,
    after: TestTieredUsageCatalogState,
    entry: CatalogSegmentEntry,
    other_id: Seq<char>,
)
    requires
        after.segment_map() == before.segment_map().insert(entry.record.segment_id@, entry),
    ensures
        after.segment_map().dom().contains(entry.record.segment_id@),
        after.segment_map()[entry.record.segment_id@].record.archive_path@ == entry.record.archive_path@,
        other_id != entry.record.segment_id@ ==> (after.segment_map().dom().contains(other_id)
            == before.segment_map().dom().contains(other_id)) && (before.segment_map().dom().contains(other_id)
            ==> after.segment_map()[other_id] == before.segment_map()[other_id]),
{
}

/// Filtering keeps exactly the elements that satisfy the predicate.
pub proof fn lemma_filter_members(s: Seq<CatalogSegmentEntry>, pred: spec_fn(CatalogSegmentEntry) -> bool, x: CatalogSegmentEntry)
    ensures
        s.filter(pred).contains(x) <==> (s.contains(x) && pred(x)),
    decreases s.len(),
{
    reveal(Seq::filter);
    if s.len() > 0 {
        lemma_filter_members(s.drop_last(), pred, x);
        assert(s =~= s.drop_last().push(s.last()));
        if s.contains(x) && x != s.last() {
            let i = s.index_of(x);
            assert(s.drop_last()[i] == x);
        }
        if s.drop_last().contains(x) {
            let i = s.drop_last().index_of(x);
            assert(s[i] == x);
        }
        if pred(s.last()) {
            let f = s.drop_last().filter(pred);
            if f.push(s.last()).contains(x) && x != s.last() {
                let i = f.push(s.last()).index_of(x);
                assert(f[i] == x);
            }
            if f.contains(x) {
                let i = f.index_of(x);
                assert(f.push(s.last())[i] == x);
            }
            assert(f.push(s.last())[f.len() as int] == s.last());
        }
    }
}

/// Retention keeps exactly the segments that had not expired, returns
/// exactly the expired ones, and unlocates the events of the removed ones.
pub proof fn lemma_retention_removes_exactly_expired(
    before: Seq<CatalogSegmentEntry>,
    cutoff_ms: i64,
    x: CatalogSegmentEntry,
)
    ensures
        before.filter(|e: CatalogSegmentEntry| !segment_expired(e, cutoff_ms)).contains(x)
            <==> (before.contains(x) && !segment_expired(x, cutoff_ms)),
        before.filter(|e: CatalogSegmentEntry| segment_expired(e, cutoff_ms)).contains(x)
            <==> (before.contains(x) && segment_expired(x, cutoff_ms)),
{
    lemma_filter_members(before, |e: CatalogSegmentEntry| !segment_expired(e, cutoff_ms), x);
    lemma_filter_members(before, |e: CatalogSegmentEntry| segment_expired(e, cutoff_ms), x);
}

/// An event whose segment was removed is no longer located.
pub proof fn lemma_removed_segment_events_unlocated(
    before: Map<Seq<char>, Seq<char>>,
    removed_ids: Seq<Seq<char>>,
    event_id: Seq<char>,
)
    requires
        before.dom().contains(event_id),
        removed_ids.contains(before[event_id]),
    ensures
        !locators_outside(before, removed_ids).dom().contains(event_id),
{
}

/// The next sequence is at least the sequence number of every catalogued
/// The largest sequence number is zero or the sequence number of one of
/// the ids.
pub proof fn lemma_max_sequence_is_attained(ids: Seq<Seq<char>>)
    ensures
        max_sequence(ids) == 0 || exists|i: int| 0 <= i < ids.len() && parse_u64_spec(after_last(#[trigger] ids[i], '-'))
            == Some(max_sequence(ids)),
    decreases ids.len(),
{
    if ids.len() > 0 {
        let prefix = ids.drop_last();
        lemma_max_sequence_is_attained(prefix);
        if max_sequence(ids) != 0 {
            if max_sequence(ids) == max_sequence(prefix) {
                let i = choose|i: int| 0 <= i < prefix.len() && parse_u64_spec(after_last(#[trigger] prefix[i], '-'))
                    == Some(max_sequence(prefix));
                assert(ids[i] == prefix[i]);
            } else {
                assert(ids[ids.len() - 1] == ids.last());
            }
        }
    }
}

/// segment id.
pub proof fn lemma_next_sequence_bounds(ids: Seq<Seq<char>>, i: int)
    requires
        0 <= i < ids.len(),
        parse_u64_spec(after_last(ids[i], '-')) is Some,
    ensures
        parse_u64_spec(after_last(ids[i], '-'))->0 <= max_sequence(ids),
    decreases ids.len(),
{
    if i < ids.len() - 1 {
        lemma_next_sequence_bounds(ids.drop_last(), i);
        assert(ids.drop_last()[i] == ids[i]);
    }
}

} // verus!
