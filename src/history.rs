//! The scan history: the record type, the choice of backend, the flat
//! backend's bounded insert and numbered listing, and the migration between
//! backends.

use vstd::prelude::*;
use crate::text::text_equals;

verus! {

/// One accepted scan. `timestamp` is local time, `YYYY-MM-DD HH:MM:SS`.
#[derive(Debug, Clone)]
pub struct ScanObject {
    pub id: i64,
    pub url: String,
    pub timestamp: String,
}

/// A scan record as plain values.
pub struct ScanView {
    pub id: i64,
    pub url: Seq<char>,
    pub timestamp: Seq<char>,
}

impl View for ScanObject {
    type V = ScanView;

    open spec fn view(&self) -> ScanView {
        ScanView { id: self.id, url: self.url@, timestamp: self.timestamp@ }
    }
}

pub open spec fn records(v: Seq<ScanObject>) -> Seq<ScanView> {
    v.map_values(|s: ScanObject| s@)
}

/// The (url, timestamp) pairs of a history, identities left out.
pub open spec fn pairs(h: Seq<ScanView>) -> Seq<(Seq<char>, Seq<char>)> {
    h.map_values(|s: ScanView| (s.url, s.timestamp))
}

/// The first `cap` entries, or all when there are fewer.
pub open spec fn capped<A>(s: Seq<A>, cap: nat) -> Seq<A> {
    if s.len() <= cap {
        s
    } else {
        s.take(cap as int)
    }
}

/// The flat history after inserting `scan`: at the head, then cut to `cap`.
pub open spec fn inserted(h: Seq<ScanView>, scan: ScanView, cap: nat) -> Seq<ScanView> {
    capped(seq![scan] + h, cap)
}

/// The flat history after inserting `items`, first to last.
pub open spec fn insert_each(h: Seq<ScanView>, items: Seq<ScanView>, cap: nat) -> Seq<ScanView>
    decreases items.len(),
{
    if items.len() == 0 {
        h
    } else {
        inserted(insert_each(h, items.drop_last(), cap), items.last(), cap)
    }
}

/// What a query of the flat history returns: the first `cap` records, each
/// numbered by its position.
pub open spec fn listed(h: Seq<ScanView>, cap: nat) -> Seq<ScanView> {
    Seq::new(
        capped(h, cap).len(),
        |i: int| ScanView { id: i as i64, url: h[i].url, timestamp: h[i].timestamp },
    )
}

/// What migrating a history `source` into a flat history `dest` leaves
/// there: the records a query of `source` returns, inserted oldest first.
pub open spec fn migrated(source: Seq<ScanView>, dest: Seq<ScanView>, cap: nat) -> Seq<ScanView> {
    insert_each(dest, listed(source, cap).reverse(), cap)
}

/// Text order, character by character; a prefix comes first.
pub open spec fn text_le(a: Seq<char>, b: Seq<char>) -> bool
    decreases a.len(),
{
    if a.len() == 0 {
        true
    } else if b.len() == 0 {
        false
    } else if a[0] != b[0] {
        (a[0] as u32) < (b[0] as u32)
    } else {
        text_le(a.drop_first(), b.drop_first())
    }
}

/// Where the history is kept.
#[derive(Debug, Clone, Copy, PartialEq, Eq, Structural)]
pub enum StorageMethod {
    /// One table of an embedded database, with identities it assigns.
    Relational,
    /// One file holding the whole history, newest first.
    Flat,
}

pub open spec fn storage_method_for(name: Seq<char>) -> StorageMethod {
    if name == "sqlite"@ {
        StorageMethod::Relational
    } else {
        StorageMethod::Flat
    }
}

/// The backend a configured storage method names: `"sqlite"` is the
/// relational one, anything else the flat one.
pub fn storage_method_from(name: &str) -> (r: StorageMethod)
    ensures
        r == storage_method_for(name@),
{
    if text_equals(name, "sqlite") {
        StorageMethod::Relational
    } else {
        StorageMethod::Flat
    }
}

impl ScanObject {
    /// A record of a new scan; each backend gives it its own identity.
    pub fn new(url: String, timestamp: String) -> (r: ScanObject)
        ensures
            r@ == (ScanView { id: 0, url: url@, timestamp: timestamp@ }),
    {
        ScanObject { id: 0, url, timestamp }
    }

    /// A copy of the record.
    pub fn duplicate(&self) -> (r: ScanObject)
        ensures
            r@ == self@,
    {
        ScanObject { id: self.id, url: self.url.clone(), timestamp: self.timestamp.clone() }
    }
}

/// Inserts `scan` at the head of a flat history and cuts it to `max_items`.
pub fn flat_insert(history: &mut Vec<ScanObject>, max_items: u32, scan: &ScanObject)
    ensures
        records(final(history)@) == inserted(records(old(history)@), scan@, max_items as nat),
{
    let ghost before = records(history@);
    history.insert(0, scan.duplicate());
    assert(records(history@) =~= seq![scan@] + before);
    history.truncate(max_items as usize);
    assert(records(history@) =~= inserted(before, scan@, max_items as nat));
}

/// The first `max_items` records of a flat history, each numbered by its
/// position.
pub fn flat_list(history: &Vec<ScanObject>, max_items: u32) -> (r: Vec<ScanObject>)
    ensures
        records(r@) == listed(records(history@), max_items as nat),
{
    let n: usize = if history.len() <= max_items as usize {
        history.len()
    } else {
        max_items as usize
    };
    let mut out: Vec<ScanObject> = Vec::new();
    let mut i: usize = 0;
    while i < n
        invariant
            n == capped(records(history@), max_items as nat).len(),
            n <= history@.len(),
            i <= n,
            records(out@) == listed(records(history@), max_items as nat).take(i as int),
        decreases n - i,
    {
        let ghost before = records(out@);
        let s = &history[i];
        let copy = ScanObject { id: i as i64, url: s.url.clone(), timestamp: s.timestamp.clone() };
        assert(copy@ == listed(records(history@), max_items as nat)[i as int]);
        out.push(copy);
        assert(records(out@) =~= before.push(copy@));
        assert(records(out@) =~= listed(records(history@), max_items as nat).take(i + 1));
        i += 1;
    }
    assert(records(out@) =~= listed(records(history@), max_items as nat));
    out
}

/// The records a query returned, oldest first: the order in which to insert
/// them elsewhere so that the newest ends up at the head.
pub fn migration_order(items: &Vec<ScanObject>) -> (r: Vec<ScanObject>)
    ensures
        records(r@) == records(items@).reverse(),
{
    let mut out: Vec<ScanObject> = Vec::new();
    let mut i: usize = items.len();
    while i > 0
        invariant
            i <= items@.len(),
            records(out@) == records(items@).subrange(i as int, items@.len() as int).reverse(),
        decreases i,
    {
        let ghost before = records(out@);
        i -= 1;
        let copy = items[i].duplicate();
        out.push(copy);
        assert(records(out@) =~= before.push(copy@));
        let ghost n = items@.len() as int;
        assert forall|k: int| 0 <= k < n - i implies #[trigger] records(out@)[k] == records(items@).subrange(i as int, n).reverse()[k] by {
            if k < n - i - 1 {
                assert(before[k] == records(items@).subrange(i + 1, n).reverse()[k]);
            }
        }
        assert(records(out@) =~= records(items@).subrange(i as int, n).reverse());
    }
    assert(records(items@).subrange(0, items@.len() as int) =~= records(items@));
    out
}

/// Migrates into a flat history: inserts the records a query of the source
/// returned, oldest first, through the bounded insert, and returns how many
/// were read.
pub fn migrate_into_flat(items: &Vec<ScanObject>, dest: &mut Vec<ScanObject>, max_items: u32) -> (r: u32)
    requires
        items@.len() <= u32::MAX,
    ensures
        r == items@.len(),
        records(final(dest)@) == insert_each(records(old(dest)@), records(items@).reverse(), max_items as nat),
{
    let order = migration_order(items);
    let mut i: usize = 0;
    while i < order.len()
        invariant
            i <= order@.len(),
            records(order@) == records(items@).reverse(),
            records(dest@) == insert_each(records(old(dest)@), records(order@).take(i as int), max_items as nat),
        decreases order@.len() - i,
    {
        assert(records(order@).take(i + 1).drop_last() =~= records(order@).take(i as int));
        flat_insert(dest, max_items, &order[i]);
        i += 1;
    }
    assert(records(order@).take(order@.len() as int) =~= records(order@));
    items.len() as u32
}

/// Inserting `items` in turn into an empty flat history keeps the last
/// `cap` of them, the newest at the head.
pub proof fn lemma_insert_each_newest_first(items: Seq<ScanView>, cap: nat)
    ensures
        insert_each(Seq::empty(), items, cap).len() == capped(items, cap).len(),
        forall|i: int|
            0 <= i < insert_each(Seq::empty(), items, cap).len() ==> #[trigger] insert_each(
                Seq::empty(),
                items,
                cap,
            )[i] == items[items.len() - 1 - i],
    decreases items.len(),
{
    if items.len() > 0 {
        lemma_insert_each_newest_first(items.drop_last(), cap);
        let prev = insert_each(Seq::empty(), items.drop_last(), cap);
        let full = seq![items.last()] + prev;
        let now = insert_each(Seq::empty(), items, cap);
        assert(now == capped(full, cap));
        assert forall|i: int| 0 <= i < now.len() implies #[trigger] now[i] == items[items.len() - 1 - i] by {
            if i > 0 {
                assert(now[i] == full[i]);
                assert(full[i] == prev[i - 1]);
            }
        }
    }
}

/// After a run of inserts into an empty flat history with cap `cap`, a query
/// returns at most `cap` records, the newest first; when the inserts came in
/// timestamp order, the query is in descending timestamp order.
pub proof fn lemma_query_after_inserts(items: Seq<ScanView>, cap: nat)
    ensures
        listed(insert_each(Seq::empty(), items, cap), cap).len() <= cap,
        listed(insert_each(Seq::empty(), items, cap), cap).len() == capped(items, cap).len(),
        forall|i: int|
            0 <= i < listed(insert_each(Seq::empty(), items, cap), cap).len() ==> #[trigger] pairs(
                listed(insert_each(Seq::empty(), items, cap), cap),
            )[i] == pairs(items)[items.len() - 1 - i],
        (forall|i: int, j: int|
            0 <= i < j < items.len() ==> text_le(items[i].timestamp, items[j].timestamp)) ==> (forall|i: int, j: int|
            0 <= i < j < listed(insert_each(Seq::empty(), items, cap), cap).len() ==> text_le(
                #[trigger] listed(insert_each(Seq::empty(), items, cap), cap)[j].timestamp,
                #[trigger] listed(insert_each(Seq::empty(), items, cap), cap)[i].timestamp,
            )),
{
    lemma_insert_each_newest_first(items, cap);
    let h = insert_each(Seq::empty(), items, cap);
    let r = listed(h, cap);
    assert(capped(h, cap) =~= h);
    assert forall|i: int| 0 <= i < r.len() implies #[trigger] pairs(r)[i] == pairs(items)[items.len() - 1 - i] by {
        assert(r[i].url == h[i].url);
        assert(h[i] == items[items.len() - 1 - i]);
    }
    if forall|i: int, j: int| 0 <= i < j < items.len() ==> text_le(items[i].timestamp, items[j].timestamp) {
        assert forall|i: int, j: int| 0 <= i < j < r.len() implies text_le(#[trigger] r[j].timestamp, #[trigger] r[i].timestamp) by {
            assert(r[j].timestamp == items[items.len() - 1 - j].timestamp);
            assert(r[i].timestamp == items[items.len() - 1 - i].timestamp);
        }
    }
}

/// Migrating a history that fits the cap into an empty flat history leaves
/// exactly what a query of the source returns.
pub proof fn lemma_migrate_into_empty(source: Seq<ScanView>, cap: nat)
    requires
        source.len() <= cap,
    ensures
        migrated(source, Seq::empty(), cap) == listed(source, cap),
{
    let l = listed(source, cap);
    lemma_insert_each_newest_first(l.reverse(), cap);
    let m = migrated(source, Seq::empty(), cap);
    assert forall|i: int| 0 <= i < m.len() implies #[trigger] m[i] == l[i] by {
        assert(m[i] == l.reverse()[l.len() - 1 - i]);
    }
    assert(m =~= l);
}

/// Migrating a history from one backend to another and back, each time into
/// an empty history, keeps its (url, timestamp) pairs, in order and so as a
/// multiset, when it fits the cap. The identities may change.
pub proof fn lemma_round_trip_keeps_pairs(h: Seq<ScanView>, cap: nat)
    requires
        h.len() <= cap,
    ensures
        pairs(migrated(migrated(h, Seq::empty(), cap), Seq::empty(), cap)) == pairs(h),
        pairs(migrated(migrated(h, Seq::empty(), cap), Seq::empty(), cap)).to_multiset() == pairs(h).to_multiset(),
{
    lemma_migrate_into_empty(h, cap);
    let once = listed(h, cap);
    assert(pairs(once) =~= pairs(h));
    lemma_migrate_into_empty(once, cap);
    let twice = listed(once, cap);
    assert(pairs(twice) =~= pairs(once));
}

} // verus!
