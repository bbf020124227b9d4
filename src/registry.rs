use vstd::prelude::*;

use crate::query::{fresh_at, previous_of, CachedResult, QueryResult};

verus! {

/// The deduplication key of a cache record: the query keys, in order, and a
/// token that identifies the fetch function.
pub struct RegistryEntry {
    pub query_keys: Vec<u64>,
    pub query_fn_id: u64,
}

impl View for RegistryEntry {
    type V = (Seq<u64>, u64);

    open spec fn view(&self) -> (Seq<u64>, u64) {
        (self.query_keys@, self.query_fn_id)
    }
}

/// Whether two key lists have an element in common.
pub open spec fn keys_intersect(a: Seq<u64>, b: Seq<u64>) -> bool {
    exists|i: int, j: int| 0 <= i < a.len() && 0 <= j < b.len() && a[i] == b[j]
}

/// Whether a list holds no element twice.
pub open spec fn distinct_ids(s: Seq<u64>) -> bool {
    forall|i: int, j: int| 0 <= i < j < s.len() ==> s[i] != s[j]
}

fn copy_ids(v: &Vec<u64>) -> (r: Vec<u64>)
    ensures
        r@ == v@,
{
    let mut r: Vec<u64> = Vec::new();
    let mut i: usize = 0;
    while i < v.len()
        invariant
            i <= v.len(),
            r@ == v@.subrange(0, i as int),
        decreases v.len() - i,
    {
        r.push(v[i]);
        i += 1;
        assert(r@ =~= v@.subrange(0, i as int));
    }
    assert(r@ =~= v@);
    r
}

fn contains_id(v: &Vec<u64>, x: u64) -> (r: Option<usize>)
    ensures
        r is Some ==> r->Some_0 < v@.len() && v@[r->Some_0 as int] == x,
        r is None ==> !v@.contains(x),
{
    let mut i: usize = 0;
    while i < v.len()
        invariant
            i <= v.len(),
            forall|k: int| 0 <= k < i ==> v@[k] != x,
        decreases v.len() - i,
    {
        if v[i] == x {
            return Some(i);
        }
        i += 1;
    }
    None
}

impl RegistryEntry {
    pub fn new(query_keys: Vec<u64>, query_fn_id: u64) -> (r: Self)
        ensures
            r@ == (query_keys@, query_fn_id),
    {
        RegistryEntry { query_keys, query_fn_id }
    }

    /// Whether both name the same keys, in the same order, and the same fetch function.
    pub fn same_as(&self, other: &RegistryEntry) -> (r: bool)
        ensures
            r == (self@ == other@),
    {
        if self.query_fn_id != other.query_fn_id || self.query_keys.len() != other.query_keys.len() {
            return false;
        }
        let mut i: usize = 0;
        while i < self.query_keys.len()
            invariant
                i <= self.query_keys.len(),
                self.query_keys@.len() == other.query_keys@.len(),
                forall|k: int| 0 <= k < i ==> self.query_keys@[k] == other.query_keys@[k],
            decreases self.query_keys.len() - i,
        {
            if self.query_keys[i] != other.query_keys[i] {
                return false;
            }
            i += 1;
        }
        assert(self.query_keys@ =~= other.query_keys@);
        true
    }

    pub fn duplicate(&self) -> (r: RegistryEntry)
        ensures
            r@ == self@,
    {
        RegistryEntry { query_keys: copy_ids(&self.query_keys), query_fn_id: self.query_fn_id }
    }

    /// Whether any of this entry's keys is among `keys`.
    pub fn shares_key(&self, keys: &Vec<u64>) -> (r: bool)
        ensures
            r == keys_intersect(self.query_keys@, keys@),
    {
        let mut i: usize = 0;
        while i < self.query_keys.len()
            invariant
                i <= self.query_keys.len(),
                forall|a: int, b: int|
                    0 <= a < i && 0 <= b < keys@.len() ==> self.query_keys@[a] != keys@[b],
            decreases self.query_keys.len() - i,
        {
            match contains_id(keys, self.query_keys[i]) {
                Some(j) => {
                    assert(self.query_keys@[i as int] == keys@[j as int]);
                    return true;
                },
                None => {},
            }
            i += 1;
        }
        false
    }
}

/// One cache record: its entry, the cached value, who listens, and the
/// fetch function it was registered with.
pub struct QueryRecord<T, E, F> {
    pub entry: RegistryEntry,
    pub value: CachedResult<T, E>,
    pub listeners: Vec<u64>,
    pub query_fn: F,
}

/// What validation decided for a record.
pub struct Validation {
    /// Whether the fetch function must run now.
    pub fetch: bool,
    /// The listeners to notify before the fetch, or instead of it.
    pub notify: Vec<u64>,
}

/// A refetch that an invalidation launched.
pub struct Refetch {
    /// The record's position in the registry when the refetch was launched.
    pub index: usize,
    pub entry: RegistryEntry,
    /// The listeners notified of the move to `Loading`.
    pub notify: Vec<u64>,
}

/// The mapping from registry entries to cache records.
pub struct QueryRegistry<T, E, F> {
    records: Vec<QueryRecord<T, E, F>>,
}

/// A value that was never fetched, or never stamped, is still loading.
pub open spec fn value_wf<T, E>(v: CachedResult<T, E>) -> bool {
    (!v.has_been_queried || v.instant is None) ==> v.value is Loading
}

/// Whether validation must run the fetch: the value is neither fresh nor
/// loading, or it was never fetched.
pub open spec fn fetch_due<T, E>(v: CachedResult<T, E>, now: u64) -> bool {
    (!fresh_at(v.instant, now) && !(v.value is Loading)) || !v.has_been_queried
}

impl<T, E, F> QueryRegistry<T, E, F> {
    /// The records, in the order they were registered.
    pub closed spec fn records(&self) -> Seq<QueryRecord<T, E, F>> {
        self.records@
    }

    /// Entries are unique, every record has listeners, none twice, and a
    /// record's value stays loading until it is first fetched and stamped.
    pub open spec fn wf(&self) -> bool {
        &&& forall|i: int, j: int|
            0 <= i < j < self.records().len() ==> self.records()[i].entry@ != self.records()[j].entry@
        &&& forall|i: int|
            0 <= i < self.records().len() ==> self.records()[i].listeners@.len() > 0
        &&& forall|i: int|
            0 <= i < self.records().len() ==> distinct_ids(#[trigger] self.records()[i].listeners@)
        &&& forall|i: int|
            0 <= i < self.records().len() ==> value_wf(#[trigger] self.records()[i].value)
    }

    pub open spec fn has_entry(&self, e: (Seq<u64>, u64)) -> bool {
        exists|i: int| 0 <= i < self.records().len() && self.records()[i].entry@ == e
    }

    /// The position of the record for `e`, where there is one.
    pub open spec fn index_of(&self, e: (Seq<u64>, u64)) -> int {
        choose|i: int| 0 <= i < self.records().len() && self.records()[i].entry@ == e
    }

    pub proof fn lemma_index_of(&self, e: (Seq<u64>, u64), i: int)
        requires
            self.wf(),
            0 <= i < self.records().len(),
            self.records()[i].entry@ == e,
        ensures
            self.has_entry(e),
            self.index_of(e) == i,
    {
    }

    pub fn new() -> (r: Self)
        ensures
            r.wf(),
            r.records().len() == 0,
    {
        QueryRegistry { records: Vec::new() }
    }

    pub fn len(&self) -> (r: usize)
        ensures
            r == self.records().len(),
    {
        self.records.len()
    }

    /// The position of the record registered under `entry`.
    pub fn find(&self, entry: &RegistryEntry) -> (r: Option<usize>)
        requires
            self.wf(),
        ensures
            r is Some ==> self.has_entry(entry@) && r->Some_0 == self.index_of(entry@),
            r is None ==> !self.has_entry(entry@),
    {
        let mut i: usize = 0;
        while i < self.records.len()
            invariant
                self.wf(),
                i <= self.records@.len(),
                forall|k: int| 0 <= k < i ==> self.records@[k].entry@ != entry@,
            decreases self.records.len() - i,
        {
            if self.records[i].entry.same_as(entry) {
                proof {
                    self.lemma_index_of(entry@, i as int);
                }
                return Some(i);
            }
            i += 1;
        }
        None
    }

    pub fn record(&self, i: usize) -> (r: &QueryRecord<T, E, F>)
        requires
            i < self.records().len(),
        ensures
            *r == self.records()[i as int],
    {
        &self.records[i]
    }

    /// Registers `listener` for `entry`. An existing record is reused, its
    /// value and fetch function kept; otherwise a new record is made with a
    /// never-fetched value and `query_fn`. Returns the record's position.
    pub fn subscribe(&mut self, entry: RegistryEntry, query_fn: F, listener: u64) -> (r: usize)
        requires
            old(self).wf(),
        ensures
            subscribed(*old(self), *final(self), entry@, query_fn, listener, r as int),
    {
        match self.find(&entry) {
            Some(i) => {
                if contains_id(&self.records[i].listeners, listener).is_none() {
                    self.records[i].listeners.push(listener);
                    proof {
                        let ls = self.records@[i as int].listeners@;
                        assert forall|a: int, b: int| 0 <= a < b < ls.len() implies ls[a] != ls[b] by {
                            if b == ls.len() - 1 {
                                assert(old(self).records@[i as int].listeners@.contains(ls[a]));
                            }
                        }
                    }
                }
                proof {
                    old(self).lemma_index_of(entry@, i as int);
                }
                i
            },
            None => {
                let mut listeners: Vec<u64> = Vec::new();
                listeners.push(listener);
                let rec = QueryRecord { entry, value: CachedResult::new(), listeners, query_fn };
                self.records.push(rec);
                proof {
                    assert(self.records@[old(self).records@.len() as int].listeners@ =~= seq![listener]);
                }
                self.records.len() - 1
            },
        }
    }

    /// Removes `listener` from the record of `entry`, and the record itself
    /// when no listener is left. Returns whether the record was removed.
    pub fn unsubscribe(&mut self, entry: &RegistryEntry, listener: u64) -> (removed: bool)
        requires
            old(self).wf(),
        ensures
            unsubscribed(*old(self), *final(self), entry@, listener, removed),
    {
        let i = match self.find(entry) {
            Some(i) => i,
            None => {
                return false;
            },
        };
        proof {
            old(self).lemma_index_of(entry@, i as int);
        }
        let ghost old_ls = self.records@[i as int].listeners@;
        match contains_id(&self.records[i].listeners, listener) {
            Some(j) => {
                self.records[i].listeners.remove(j);
                proof {
                    let ls = self.records@[i as int].listeners@;
                    assert(ls =~= old_ls.remove(j as int));
                    assert forall|x: u64| ls.contains(x) <==> (old_ls.contains(x) && x != listener) by {
                        if ls.contains(x) {
                            let k = choose|k: int| 0 <= k < ls.len() && ls[k] == x;
                            if k < j {
                                assert(old_ls[k] == x);
                            } else {
                                assert(old_ls[k + 1] == x);
                            }
                        }
                        if old_ls.contains(x) && x != listener {
                            let k = choose|k: int| 0 <= k < old_ls.len() && old_ls[k] == x;
                            if k < j {
                                assert(ls[k] == x);
                            } else {
                                assert(ls[k - 1] == x);
                            }
                        }
                    }
                }
            },
            None => {},
        }
        if self.records[i].listeners.len() == 0 {
            self.records.remove(i);
            proof {
                assert(self.records@ =~= old(self).records@.remove(i as int));
                assert forall|x: u64| old_ls.contains(x) implies x == listener by {
                    let k = choose|k: int| 0 <= k < old_ls.len() && old_ls[k] == x;
                    assert(old_ls.len() == 1);
                    assert(old_ls[0] == listener);
                }
            }
            true
        } else {
            proof {
                let ls = self.records@[i as int].listeners@;
                assert(ls.contains(ls[0]));
            }
            false
        }
    }

    /// Decides whether the record of `entry` must be fetched at `now`.
    /// When a fetch is due and a value was cached before, the value moves to
    /// `Loading` with its last successful value and every listener is to be
    /// notified; a first fetch notifies nobody yet. When no fetch is due the
    /// value stays and every listener is notified. `None` when no record is
    /// registered under `entry`.
    pub fn begin_validation(&mut self, entry: &RegistryEntry, now: u64) -> (r: Option<Validation>)
        requires
            old(self).wf(),
        ensures
            final(self).wf(),
            r is None <==> !old(self).has_entry(entry@),
            r is None ==> final(self).records() == old(self).records(),
            r is Some ==> {
                let i = old(self).index_of(entry@);
                let old_rec = old(self).records()[i];
                let rec = final(self).records()[i];
                let v = r->Some_0;
                &&& final(self).records().len() == old(self).records().len()
                &&& forall|k: int|
                    0 <= k < old(self).records().len() && k != i ==> final(self).records()[k]
                        == old(self).records()[k]
                &&& rec.entry == old_rec.entry
                &&& rec.listeners == old_rec.listeners
                &&& rec.query_fn == old_rec.query_fn
                &&& v.fetch == fetch_due(old_rec.value, now)
                &&& rec.value == after_validation(old_rec.value, now)
                &&& v.notify@ == if v.fetch && old_rec.value.instant is None {
                    Seq::<u64>::empty()
                } else {
                    old_rec.listeners@
                }
            },
    {
        let i = match self.find(entry) {
            Some(i) => i,
            None => {
                return None;
            },
        };
        proof {
            old(self).lemma_index_of(entry@, i as int);
        }
        let is_fresh = self.records[i].value.is_fresh(now);
        let is_loading = self.records[i].value.value.is_loading();
        let has_been_cached = self.records[i].value.has_been_cached();
        let has_been_queried = self.records[i].value.has_been_queried();
        if (!is_fresh && !is_loading) || !has_been_queried {
            let notify = if has_been_cached {
                self.records[i].value.mark_loading(now);
                copy_ids(&self.records[i].listeners)
            } else {
                self.records[i].value.has_been_queried = true;
                Vec::new()
            };
            Some(Validation { fetch: true, notify })
        } else {
            Some(Validation { fetch: false, notify: copy_ids(&self.records[i].listeners) })
        }
    }

    /// Writes the result of a completed fetch for `entry`, stamped at `now`,
    /// and returns the listeners registered at this moment. When the record
    /// is gone the registry is unchanged and nobody is notified.
    pub fn complete_fetch(&mut self, entry: &RegistryEntry, result: QueryResult<T, E>, now: u64) -> (r: Vec<u64>)
        requires
            old(self).wf(),
        ensures
            final(self).wf(),
            !old(self).has_entry(entry@) ==> final(self).records() == old(self).records()
                && r@.len() == 0,
            old(self).has_entry(entry@) ==> {
                let i = old(self).index_of(entry@);
                let old_rec = old(self).records()[i];
                let rec = final(self).records()[i];
                &&& final(self).records().len() == old(self).records().len()
                &&& forall|k: int|
                    0 <= k < old(self).records().len() && k != i ==> final(self).records()[k]
                        == old(self).records()[k]
                &&& rec.entry == old_rec.entry
                &&& rec.listeners == old_rec.listeners
                &&& rec.query_fn == old_rec.query_fn
                &&& rec.value.value == result
                &&& rec.value.instant == Some(now)
                &&& rec.value.has_been_queried
                &&& r@ == old_rec.listeners@
            },
    {
        let i = match self.find(entry) {
            Some(i) => i,
            None => {
                return Vec::new();
            },
        };
        proof {
            old(self).lemma_index_of(entry@, i as int);
        }
        self.records[i].value = CachedResult::settled(result, now);
        copy_ids(&self.records[i].listeners)
    }

    /// Moves the record at `i` to `Loading`, stamped at `now`, when its keys
    /// share one with `keys`; returns whether they did.
    fn invalidate_one(&mut self, i: usize, keys: &Vec<u64>, now: u64) -> (hit: bool)
        requires
            old(self).wf(),
            i < old(self).records().len(),
        ensures
            final(self).wf(),
            hit == keys_intersect(old(self).records()[i as int].entry.query_keys@, keys@),
            final(self).records().len() == old(self).records().len(),
            forall|k: int|
                0 <= k < old(self).records().len() && k != i ==> final(self).records()[k]
                    == old(self).records()[k],
            invalidated(old(self).records()[i as int], final(self).records()[i as int], keys@, now),
    {
        if self.records[i].entry.shares_key(keys) {
            self.records[i].value.mark_loading(now);
            true
        } else {
            false
        }
    }

    /// Moves every record whose keys share one with `keys` to `Loading`,
    /// keeping its last successful value, stamped at `now`, and returns one
    /// refetch for each, in registry order, with the listeners to notify.
    /// Other records are left as they are.
    pub fn begin_invalidation(&mut self, keys: &Vec<u64>, now: u64) -> (r: Vec<Refetch>)
        requires
            old(self).wf(),
        ensures
            final(self).wf(),
            final(self).records().len() == old(self).records().len(),
            forall|i: int|
                0 <= i < old(self).records().len() ==> invalidated(
                    old(self).records()[i],
                    #[trigger] final(self).records()[i],
                    keys@,
                    now,
                ),
            forall|k: int|
                0 <= k < r@.len() ==> refetch_of(old(self).records(), #[trigger] r@[k], keys@),
            forall|k1: int, k2: int|
                0 <= k1 < k2 < r@.len() ==> #[trigger] r@[k1].index < #[trigger] r@[k2].index,
            forall|i: int|
                0 <= i < old(self).records().len() && keys_intersect(
                    #[trigger] old(self).records()[i].entry.query_keys@,
                    keys@,
                ) ==> exists|k: int| 0 <= k < r@.len() && #[trigger] r@[k].index == i,
    {
        let mut r: Vec<Refetch> = Vec::new();
        let mut i: usize = 0;
        while i < self.records.len()
            invariant
                self.wf(),
                i <= self.records@.len(),
                self.records@.len() == old(self).records@.len(),
                forall|j: int|
                    0 <= j < i ==> invalidated(
                        old(self).records@[j],
                        #[trigger] self.records@[j],
                        keys@,
                        now,
                    ),
                forall|j: int| i <= j < self.records@.len() ==> #[trigger] self.records@[j] == old(self).records@[j],
                forall|k: int|
                    0 <= k < r@.len() ==> refetch_of(old(self).records@, #[trigger] r@[k], keys@)
                        && r@[k].index < i,
                forall|k1: int, k2: int|
                    0 <= k1 < k2 < r@.len() ==> #[trigger] r@[k1].index < #[trigger] r@[k2].index,
                forall|j: int|
                    0 <= j < i && keys_intersect(#[trigger] old(self).records@[j].entry.query_keys@, keys@)
                        ==> exists|k: int| 0 <= k < r@.len() && #[trigger] r@[k].index == j,
            decreases self.records.len() - i,
        {
            let ghost before = self.records@;
            if self.invalidate_one(i, keys, now) {
                let entry = self.records[i].entry.duplicate();
                let notify = copy_ids(&self.records[i].listeners);
                let ghost old_r = r@;
                r.push(Refetch { index: i, entry, notify });
                proof {
                    assert(r@[old_r.len() as int].index == i);
                    assert forall|j: int|
                        0 <= j < i + 1 && keys_intersect(#[trigger] old(self).records@[j].entry.query_keys@, keys@)
                        implies exists|k: int| 0 <= k < r@.len() && #[trigger] r@[k].index == j by {
                        if j < i {
                            let k = choose|k: int| 0 <= k < old_r.len() && #[trigger] old_r[k].index == j;
                            assert(r@[k] == old_r[k]);
                        } else {
                            assert(r@[old_r.len() as int].index == j);
                        }
                    }
                }
            }
            proof {
                assert forall|j: int| 0 <= j < i + 1 implies invalidated(
                        old(self).records@[j],
                        #[trigger] self.records@[j],
                        keys@,
                        now,
                    ) by {
                    if j < i {
                        assert(self.records@[j] == before[j]);
                    }
                }
            }
            i += 1;
        }
        r
    }
}

/// How `subscribe(e, f, listener)` leaves the registry `o` as `n`, with the
/// record at position `r`: an existing record for `e` gains the listener;
/// otherwise a new record for `e` is appended with a never-fetched value, `f`
/// and the listener.
pub open spec fn subscribed<T, E, F>(
    o: QueryRegistry<T, E, F>,
    n: QueryRegistry<T, E, F>,
    e: (Seq<u64>, u64),
    f: F,
    listener: u64,
    r: int,
) -> bool {
    &&& n.wf()
    &&& 0 <= r < n.records().len()
    &&& n.records()[r].entry@ == e
    &&& o.has_entry(e) ==> {
        let old_rec = o.records()[r];
        let rec = n.records()[r];
        &&& r == o.index_of(e)
        &&& n.records().len() == o.records().len()
        &&& forall|k: int| 0 <= k < o.records().len() && k != r ==> n.records()[k] == o.records()[k]
        &&& rec.value == old_rec.value
        &&& rec.query_fn == old_rec.query_fn
        &&& rec.listeners@ == if old_rec.listeners@.contains(listener) {
            old_rec.listeners@
        } else {
            old_rec.listeners@.push(listener)
        }
    }
    &&& !o.has_entry(e) ==> {
        let rec = n.records()[r];
        &&& r == o.records().len()
        &&& n.records().len() == o.records().len() + 1
        &&& forall|k: int| 0 <= k < o.records().len() ==> n.records()[k] == o.records()[k]
        &&& rec.value.value == QueryResult::<T, E>::Loading(None)
        &&& rec.value.instant is None
        &&& !rec.value.has_been_queried
        &&& rec.query_fn == f
        &&& rec.listeners@ == seq![listener]
    }
}

/// How `unsubscribe(e, listener)` leaves the registry `o` as `n`: the
/// listener leaves the record of `e`, and the record is removed, reported by
/// `removed`, when no other listener was left.
pub open spec fn unsubscribed<T, E, F>(
    o: QueryRegistry<T, E, F>,
    n: QueryRegistry<T, E, F>,
    e: (Seq<u64>, u64),
    listener: u64,
    removed: bool,
) -> bool {
    &&& n.wf()
    &&& !o.has_entry(e) ==> n.records() == o.records() && !removed
    &&& o.has_entry(e) ==> {
        let i = o.index_of(e);
        let old_rec = o.records()[i];
        &&& removed == (forall|x: u64| old_rec.listeners@.contains(x) ==> x == listener)
        &&& removed ==> n.records() == o.records().remove(i)
        &&& !removed ==> {
            let rec = n.records()[i];
            &&& n.records().len() == o.records().len()
            &&& forall|k: int| 0 <= k < o.records().len() && k != i ==> n.records()[k] == o.records()[k]
            &&& rec.value == old_rec.value
            &&& rec.query_fn == old_rec.query_fn
            &&& rec.entry@ == old_rec.entry@
            &&& forall|x: u64|
                rec.listeners@.contains(x) <==> (old_rec.listeners@.contains(x) && x != listener)
        }
    }
}

/// The cached value after validation at `now`: unchanged when no fetch is
/// due; `Loading` with the last successful value when one is due and a value
/// was cached before; otherwise only marked as queried.
pub open spec fn after_validation<T, E>(v: CachedResult<T, E>, now: u64) -> CachedResult<T, E> {
    if !fetch_due(v, now) {
        v
    } else if v.instant is Some {
        CachedResult { value: QueryResult::Loading(previous_of(v.value)), instant: Some(now), has_been_queried: true }
    } else {
        CachedResult { value: v.value, instant: None, has_been_queried: true }
    }
}

/// How invalidation by `keys` at `now` leaves one record: a record whose keys
/// share one with `keys` is `Loading` with its last successful value; any
/// other record is untouched.
pub open spec fn invalidated<T, E, F>(
    old_rec: QueryRecord<T, E, F>,
    rec: QueryRecord<T, E, F>,
    keys: Seq<u64>,
    now: u64,
) -> bool {
    &&& rec.entry == old_rec.entry
    &&& rec.listeners == old_rec.listeners
    &&& rec.query_fn == old_rec.query_fn
    &&& keys_intersect(old_rec.entry.query_keys@, keys) ==> {
        &&& rec.value.value == QueryResult::<T, E>::Loading(previous_of(old_rec.value.value))
        &&& rec.value.instant == Some(now)
        &&& rec.value.has_been_queried
    }
    &&& !keys_intersect(old_rec.entry.query_keys@, keys) ==> rec == old_rec
}

/// A refetch names a record that matched `keys`, by position and entry, and
/// carries that record's listeners.
pub open spec fn refetch_of<T, E, F>(recs: Seq<QueryRecord<T, E, F>>, f: Refetch, keys: Seq<u64>) -> bool {
    &&& f.index < recs.len()
    &&& keys_intersect(recs[f.index as int].entry.query_keys@, keys)
    &&& f.entry@ == recs[f.index as int].entry@
    &&& f.notify@ == recs[f.index as int].listeners@
}

/// Two subscriptions to the same entry share one record: the second finds
/// the record the first made or joined, keeps its fetch function, and both
/// listeners are registered on it.
pub proof fn lemma_dedup<T, E, F>(
    r0: QueryRegistry<T, E, F>,
    r1: QueryRegistry<T, E, F>,
    r2: QueryRegistry<T, E, F>,
    e: (Seq<u64>, u64),
    f1: F,
    f2: F,
    l1: u64,
    l2: u64,
    i1: int,
    i2: int,
)
    requires
        r0.wf(),
        subscribed(r0, r1, e, f1, l1, i1),
        subscribed(r1, r2, e, f2, l2, i2),
    ensures
        i1 == i2,
        r2.records().len() == r1.records().len(),
        r2.records()[i2].query_fn == r1.records()[i1].query_fn,
        r2.records()[i2].value == r1.records()[i1].value,
        r2.records()[i2].listeners@.contains(l1),
        r2.records()[i2].listeners@.contains(l2),
{
    r1.lemma_index_of(e, i1);
    let ls1 = r1.records()[i1].listeners@;
    let ls2 = r2.records()[i2].listeners@;
    if r0.has_entry(e) {
        let ls0 = r0.records()[i1].listeners@;
        if !ls0.contains(l1) {
            assert(ls1[ls0.len() as int] == l1);
        }
    } else {
        assert(ls1[0] == l1);
    }
    assert(ls1.contains(l1));
    if !ls1.contains(l2) {
        assert(ls2[ls1.len() as int] == l2);
        let k = choose|k: int| 0 <= k < ls1.len() && ls1[k] == l1;
        assert(ls2[k] == l1);
    }
}

/// Subscriptions to different entries (other keys, or the same keys with
/// another fetch function) get different records.
pub proof fn lemma_distinct_entries<T, E, F>(
    r0: QueryRegistry<T, E, F>,
    r1: QueryRegistry<T, E, F>,
    r2: QueryRegistry<T, E, F>,
    e1: (Seq<u64>, u64),
    e2: (Seq<u64>, u64),
    f1: F,
    f2: F,
    l1: u64,
    l2: u64,
    i1: int,
    i2: int,
)
    requires
        r0.wf(),
        subscribed(r0, r1, e1, f1, l1, i1),
        subscribed(r1, r2, e2, f2, l2, i2),
        e1 != e2,
    ensures
        i1 != i2,
        r2.records()[i1].entry@ == e1,
        r2.records()[i2].entry@ == e2,
{
    if r1.has_entry(e2) {
        r1.lemma_index_of(e2, r1.index_of(e2));
        assert(r1.records()[i2].entry@ == e2);
    }
}

/// Validation that starts a fetch leaves the value loading and queried, so
/// no later validation starts another fetch before this one completes.
pub proof fn lemma_single_fetch_per_cycle<T, E>(v: CachedResult<T, E>, now: u64, later: u64)
    requires
        value_wf(v),
        fetch_due(v, now),
    ensures
        value_wf(after_validation(v, now)),
        !fetch_due(after_validation(v, now), later),
{
}

/// Removing the only listener of an entry removes its record; removing one
/// of several keeps the record and every other listener.
pub proof fn lemma_listener_lifecycle<T, E, F>(
    o: QueryRegistry<T, E, F>,
    n: QueryRegistry<T, E, F>,
    e: (Seq<u64>, u64),
    listener: u64,
    removed: bool,
)
    requires
        o.wf(),
        o.has_entry(e),
        unsubscribed(o, n, e, listener, removed),
    ensures
        o.records()[o.index_of(e)].listeners@ == seq![listener] ==> removed && !n.has_entry(e),
        forall|x: u64|
            o.records()[o.index_of(e)].listeners@.contains(x) && x != listener ==> {
                &&& !removed
                &&& n.has_entry(e)
                &&& n.records()[n.index_of(e)].listeners@.contains(x)
                &&& n.records()[n.index_of(e)].value == o.records()[o.index_of(e)].value
            },
{
    let i = o.index_of(e);
    let ls = o.records()[i].listeners@;
    if ls == seq![listener] {
        assert forall|x: u64| ls.contains(x) implies x == listener by {
            let k = choose|k: int| 0 <= k < ls.len() && ls[k] == x;
        }
        if n.has_entry(e) {
            let k = choose|k: int| 0 <= k < n.records().len() && n.records()[k].entry@ == e;
            if k < i {
                assert(o.records()[k].entry@ == e);
            } else {
                assert(o.records()[k + 1].entry@ == e);
            }
        }
    }
    assert forall|x: u64| ls.contains(x) && x != listener implies {
        &&& !removed
        &&& n.has_entry(e)
        &&& n.records()[n.index_of(e)].listeners@.contains(x)
        &&& n.records()[n.index_of(e)].value == o.records()[o.index_of(e)].value
    } by {
        n.lemma_index_of(e, i);
    }
}

/// Invalidating the single key `k` reloads exactly the records whose key
/// list contains `k`; a record with no key `k` is untouched.
pub proof fn lemma_invalidation_matching<T, E, F>(
    old_rec: QueryRecord<T, E, F>,
    rec: QueryRecord<T, E, F>,
    k: u64,
    now: u64,
)
    requires
        invalidated(old_rec, rec, seq![k], now),
    ensures
        old_rec.entry.query_keys@.contains(k) ==> {
            &&& rec.value.value == QueryResult::<T, E>::Loading(previous_of(old_rec.value.value))
            &&& rec.value.instant == Some(now)
        },
        !old_rec.entry.query_keys@.contains(k) ==> rec == old_rec,
{
    let keys = old_rec.entry.query_keys@;
    if keys.contains(k) {
        let i = choose|i: int| 0 <= i < keys.len() && keys[i] == k;
        assert(seq![k][0] == k);
        assert(keys_intersect(keys, seq![k]));
    }
    if keys_intersect(keys, seq![k]) {
        let (i, j) = choose|i: int, j: int| 0 <= i < keys.len() && 0 <= j < 1 && keys[i] == seq![k][j];
        assert(keys.contains(k));
    }
}

/// Invalidating a record that resolved to `v` shows `Loading(Some(v))`
/// until the refetch completes, never `Loading(None)`.
pub proof fn lemma_loading_keeps_value<T, E, F>(
    old_rec: QueryRecord<T, E, F>,
    rec: QueryRecord<T, E, F>,
    keys: Seq<u64>,
    now: u64,
    v: T,
)
    requires
        invalidated(old_rec, rec, keys, now),
        keys_intersect(old_rec.entry.query_keys@, keys),
        old_rec.value.value == QueryResult::<T, E>::Value(v),
    ensures
        rec.value.value == QueryResult::<T, E>::Loading(Some(v)),
{
}

} // verus!
