//! The correlation cache: a bounded, insertion-ordered map from an origin
//! message id to the replicas posted for it.

use vstd::prelude::*;

use crate::model::CacheValue;

verus! {

/// What the cache holds, oldest reservation first: each origin id with the
/// records appended to it, in arrival order.
pub type Entries = Seq<(u64, Seq<CacheValue>)>;

/// `k` is one of the origin ids in `s`.
pub open spec fn has_key(s: Entries, k: u64) -> bool {
    exists|i: int| 0 <= i < s.len() && #[trigger] s[i].0 == k
}

/// No origin id occurs twice.
pub open spec fn keys_distinct(s: Entries) -> bool {
    forall|i: int, j: int| 0 <= i < j < s.len() ==> #[trigger] s[i].0 != #[trigger] s[j].0
}

/// The origin ids, oldest first.
pub open spec fn keys_of(s: Entries) -> Seq<u64> {
    s.map_values(|e: (u64, Seq<CacheValue>)| e.0)
}

/// The position of `k` in `s` (meaningful when `has_key(s, k)`).
pub open spec fn key_index(s: Entries, k: u64) -> int {
    choose|i: int| 0 <= i < s.len() && s[i].0 == k
}

/// The records kept for `k`, or `None` when `k` is not tracked.
pub open spec fn lookup_spec(s: Entries, k: u64) -> Option<Seq<CacheValue>> {
    if has_key(s, k) {
        Some(s[key_index(s, k)].1)
    } else {
        None
    }
}

/// The newest `c` entries of `t`.
pub open spec fn keep_newest(t: Entries, c: nat) -> Entries {
    if t.len() > c {
        t.subrange(t.len() - c, t.len() as int)
    } else {
        t
    }
}

/// Reserving `k` with initial records `v` under capacity `c`: nothing
/// changes when `k` is present; otherwise `k` joins as the newest entry and
/// the oldest entries beyond the capacity are evicted.
pub open spec fn reserve_spec(s: Entries, c: nat, k: u64, v: Seq<CacheValue>) -> Entries {
    if has_key(s, k) {
        s
    } else {
        keep_newest(s.push((k, v)), c)
    }
}

/// Appending record `r` to the entry of `k`; nothing changes when `k` is
/// not tracked.
pub open spec fn append_spec(s: Entries, k: u64, r: CacheValue) -> Entries {
    Seq::new(
        s.len(),
        |i: int|
            if s[i].0 == k {
                (k, s[i].1.push(r))
            } else {
                s[i]
            },
    )
}

/// Removing the entry of `k`, if there is one.
pub open spec fn remove_spec(s: Entries, k: u64) -> Entries {
    if has_key(s, k) {
        s.remove(key_index(s, k))
    } else {
        s
    }
}

/// With distinct keys, the position of a key is the one it occupies.
pub proof fn lemma_key_index(s: Entries, k: u64, i: int)
    requires
        keys_distinct(s),
        0 <= i < s.len(),
        s[i].0 == k,
    ensures
        key_index(s, k) == i,
{
    let j = key_index(s, k);
    assert(0 <= j < s.len() && s[j].0 == k);
    if j < i {
        assert(s[j].0 != s[i].0);
    } else if i < j {
        assert(s[i].0 != s[j].0);
    }
}

/// The newest `c` elements of `q`.
pub open spec fn newest(q: Seq<u64>, c: nat) -> Seq<u64> {
    if q.len() > c {
        q.subrange(q.len() - c, q.len() as int)
    } else {
        q
    }
}

/// The cache after reserving each of `ks` in order, with no records,
/// starting from `s`.
pub open spec fn reserve_all(s: Entries, c: nat, ks: Seq<u64>) -> Entries
    decreases ks.len(),
{
    if ks.len() == 0 {
        s
    } else {
        reserve_spec(reserve_all(s, c, ks.drop_last()), c, ks.last(), Seq::empty())
    }
}

proof fn lemma_keys_of_keep_newest(t: Entries, c: nat)
    ensures
        keys_of(keep_newest(t, c)) == newest(keys_of(t), c),
{
    assert(keys_of(keep_newest(t, c)) =~= newest(keys_of(t), c));
}

proof fn lemma_newest_push(p: Seq<u64>, c: nat, k: u64)
    ensures
        newest(newest(p, c).push(k), c) == newest(p.push(k), c),
{
    assert(newest(newest(p, c).push(k), c) =~= newest(p.push(k), c));
}

/// Reserving fresh keys into an empty cache keeps exactly the newest `c`
/// of them, in order.
proof fn lemma_reserve_all_keys(c: nat, ks: Seq<u64>)
    requires
        ks.no_duplicates(),
    ensures
        keys_of(reserve_all(Seq::empty(), c, ks)) == newest(ks, c),
    decreases ks.len(),
{
    if ks.len() == 0 {
        assert(keys_of(Seq::<(u64, Seq<CacheValue>)>::empty()) =~= Seq::<u64>::empty());
    } else {
        let p = ks.drop_last();
        let k = ks.last();
        assert(p.no_duplicates());
        lemma_reserve_all_keys(c, p);
        let r = reserve_all(Seq::empty(), c, p);
        assert(ks =~= p.push(k));
        if has_key(r, k) {
            let i = choose|i: int| 0 <= i < r.len() && #[trigger] r[i].0 == k;
            assert(keys_of(r)[i] == k);
            assert(newest(p, c).contains(k));
            let j = choose|j: int| 0 <= j < newest(p, c).len() && newest(p, c)[j] == k;
            let j1 = if p.len() > c { j + p.len() - c } else { j };
            assert(p[j1] == k);
            assert(ks[j1] == ks[ks.len() - 1]);
        }
        let t = r.push((k, Seq::<CacheValue>::empty()));
        assert(keys_of(t) =~= keys_of(r).push(k));
        lemma_keys_of_keep_newest(t, c);
        lemma_newest_push(p, c, k);
    }
}

/// First in, first out: reserving `c + 1` distinct keys in order into an
/// empty cache of capacity `c` leaves exactly the last `c` keys, in order,
/// and the first one absent.
pub proof fn lemma_fifo_eviction(c: nat, ks: Seq<u64>)
    requires
        ks.len() == c + 1,
        ks.no_duplicates(),
    ensures
        keys_of(reserve_all(Seq::empty(), c, ks)) == ks.subrange(1, c as int + 1),
        !has_key(reserve_all(Seq::empty(), c, ks), ks[0]),
{
    lemma_reserve_all_keys(c, ks);
    let r = reserve_all(Seq::empty(), c, ks);
    let tail = ks.subrange(1, c as int + 1);
    assert(keys_of(r) == tail);
    if has_key(r, ks[0]) {
        let i = choose|i: int| 0 <= i < r.len() && #[trigger] r[i].0 == ks[0];
        assert(keys_of(r)[i] == r[i].0);
        assert(tail[i] == ks[i + 1]);
        assert(ks[0] != ks[i + 1]);
    }
}

/// An entry evicted by a later reservation is gone, and appending a record
/// to it afterwards changes nothing.
pub proof fn lemma_append_after_eviction(s: Entries, c: nat, k: u64, fresh: u64, r: CacheValue)
    requires
        keys_distinct(s),
        c > 0,
        s.len() == c,
        s[0].0 == k,
        !has_key(s, fresh),
    ensures
        !has_key(reserve_spec(s, c, fresh, Seq::empty()), k),
        append_spec(reserve_spec(s, c, fresh, Seq::empty()), k, r) == reserve_spec(
            s,
            c,
            fresh,
            Seq::empty(),
        ),
{
    let t = reserve_spec(s, c, fresh, Seq::empty());
    assert(t =~= s.push((fresh, Seq::<CacheValue>::empty())).subrange(1, c as int + 1));
    if has_key(t, k) {
        let i = choose|i: int| 0 <= i < t.len() && #[trigger] t[i].0 == k;
        if i < c - 1 {
            assert(s[0].0 != s[i + 1].0);
        } else {
            assert(s[0].0 == fresh);
        }
    }
    assert(append_spec(t, k, r) =~= t);
}

/// Appending to an untracked key changes nothing.
pub proof fn lemma_append_absent(s: Entries, k: u64, r: CacheValue)
    requires
        !has_key(s, k),
    ensures
        append_spec(s, k, r) == s,
{
    assert(append_spec(s, k, r) =~= s);
}

/// After `remove`, `k` is not found, and removing it again changes nothing.
pub proof fn lemma_remove_idempotent(s: Entries, k: u64)
    requires
        keys_distinct(s),
    ensures
        !has_key(remove_spec(s, k), k),
        lookup_spec(remove_spec(s, k), k) is None,
        remove_spec(remove_spec(s, k), k) == remove_spec(s, k),
{
    if has_key(s, k) {
        let i = key_index(s, k);
        let t = s.remove(i);
        if has_key(t, k) {
            let j = choose|j: int| 0 <= j < t.len() && #[trigger] t[j].0 == k;
            if j < i {
                assert(s[j].0 != s[i].0);
            } else {
                assert(s[i].0 != s[j + 1].0);
            }
        }
    }
}

/// Appending to a tracked key adds the record at the end of its entry and
/// leaves the keys as they were.
pub proof fn lemma_append_present(s: Entries, k: u64, r: CacheValue)
    requires
        keys_distinct(s),
        has_key(s, k),
    ensures
        keys_of(append_spec(s, k, r)) == keys_of(s),
        keys_distinct(append_spec(s, k, r)),
        has_key(append_spec(s, k, r), k),
        lookup_spec(append_spec(s, k, r), k) == Some(lookup_spec(s, k)->0.push(r)),
{
    let t = append_spec(s, k, r);
    let i = key_index(s, k);
    assert(keys_of(t) =~= keys_of(s));
    assert(t[i].0 == k);
    lemma_key_index(t, k, i);
}

/// The size bound holds after every reservation: whatever keys are
/// reserved, in whatever order, a cache within its capacity `c` stays
/// within it, for every `c`, zero included.
pub proof fn lemma_reserve_within_capacity(s: Entries, c: nat, ks: Seq<u64>)
    requires
        s.len() <= c,
    ensures
        reserve_all(s, c, ks).len() <= c,
    decreases ks.len(),
{
    if ks.len() > 0 {
        lemma_reserve_within_capacity(s, c, ks.drop_last());
    }
}

/// The cache after reserving each of `es` in order, each key with its
/// records, starting from `s`.
pub open spec fn reserve_each(s: Entries, c: nat, es: Entries) -> Entries
    decreases es.len(),
{
    if es.len() == 0 {
        s
    } else {
        reserve_spec(reserve_each(s, c, es.drop_last()), c, es.last().0, es.last().1)
    }
}

/// A bounded correlation cache with strict first-in, first-out eviction.
#[derive(Debug)]
pub struct MessageCache {
    /// The most entries the cache may hold.
    size: usize,
    /// The entries, oldest reservation first.
    cache: Vec<(u64, Vec<CacheValue>)>,
}

impl View for MessageCache {
    type V = Entries;

    closed spec fn view(&self) -> Entries {
        self.cache@.map_values(|e: (u64, Vec<CacheValue>)| (e.0, e.1@))
    }
}

impl MessageCache {
    /// The capacity the cache was made with.
    pub closed spec fn capacity(&self) -> nat {
        self.size as nat
    }

    /// Keys are distinct and the capacity is respected.
    pub closed spec fn wf(&self) -> bool {
        &&& keys_distinct(self@)
        &&& self@.len() <= self.size
    }

    /// An empty cache that holds at most `size` entries.
    pub fn new(size: usize) -> (r: Self)
        ensures
            r.wf(),
            r.capacity() == size,
            r@ == Seq::<(u64, Seq<CacheValue>)>::empty(),
    {
        let r = MessageCache { size, cache: Vec::new() };
        assert(r@ =~= Seq::<(u64, Seq<CacheValue>)>::empty());
        r
    }

    /// The number of entries held.
    pub fn len(&self) -> (r: usize)
        ensures
            r == self@.len(),
    {
        self.cache.len()
    }

    /// The capacity the cache was made with.
    pub fn size(&self) -> (r: usize)
        ensures
            r == self.capacity(),
    {
        self.size
    }

    /// The position of `k`, if it is tracked.
    fn find(&self, k: u64) -> (r: Option<usize>)
        requires
            self.wf(),
        ensures
            match r {
                Some(i) => i < self@.len() && self@[i as int].0 == k && key_index(self@, k) == i,
                None => !has_key(self@, k),
            },
    {
        let mut i: usize = 0;
        while i < self.cache.len()
            invariant
                self.wf(),
                i <= self.cache@.len(),
                forall|j: int| 0 <= j < i ==> #[trigger] self@[j].0 != k,
            decreases self.cache@.len() - i,
        {
            if self.cache[i].0 == k {
                proof {
                    lemma_key_index(self@, k, i as int);
                }
                return Some(i);
            }
            i = i + 1;
        }
        None
    }
    /// Reserves `k` with the records `v`: when `k` is already tracked nothing
    /// changes; otherwise the oldest entries are evicted while the cache is
    /// full and `k` becomes the newest entry. With capacity zero the cache
    /// stays empty.
    pub fn push(&mut self, k: u64, v: Vec<CacheValue>) -> (r: &mut Self)
        requires
            old(self).wf(),
        ensures
            *final(self) == *final(r),
            r.wf(),
            r.capacity() == old(self).capacity(),
            r@ == reserve_spec(old(self)@, old(self).capacity(), k, v@),
            r@.len() <= r.capacity(),
    {
        if self.find(k).is_some() {
            return self;
        }
        if self.size == 0 {
            assert(self@.len() == 0);
            assert(reserve_spec(self@, 0, k, v@) =~= self@);
            return self;
        }
        let ghost before = self@;
        self.pop_if_oversized();
        let ghost mid = self@;
        self.cache.push((k, v));
        proof {
            let t = before.push((k, v@));
            assert(self@ =~= mid.push((k, v@)));
            if before.len() == self.size {
                assert(self@ =~= t.subrange(t.len() - self.size, t.len() as int));
            } else {
                assert(self@ =~= t);
            }
            assert forall|i: int, j: int| 0 <= i < j < self@.len() implies #[trigger] self@[i].0
                != #[trigger] self@[j].0 by {
                if j == self@.len() - 1 {
                    assert(before.contains(self@[i]) ==> has_key(before, self@[i].0));
                }
            }
        }
        self
    }

    /// Evicts the oldest entry when the cache is full, so that one more
    /// entry fits.
    fn pop_if_oversized(&mut self) -> (r: &mut Self)
        requires
            old(self).wf(),
            old(self).size > 0,
        ensures
            *final(self) == *final(r),
            r.size == old(self).size,
            r@.len() < r.size,
            keys_distinct(r@),
            forall|i: int| 0 <= i < r@.len() ==> old(self)@.contains(#[trigger] r@[i]),
            old(self)@.len() < old(self).size ==> r@ == old(self)@,
            old(self)@.len() == old(self).size ==> r@ == old(self)@.subrange(1, old(self)@.len() as int),
    {
        let ghost before = self@;
        if self.cache.len() >= self.size {
            self.cache.remove(0);
            assert(self@ =~= before.subrange(1, before.len() as int));
            assert forall|i: int| 0 <= i < self@.len() implies before.contains(#[trigger] self@[i]) by {
                assert(self@[i] == before[i + 1]);
            }
        }
        self
    }

    /// Appends `record` to the entry of `k`, keeping arrival order. When `k`
    /// is not tracked (never reserved, or evicted since) nothing changes.
    pub fn push_into_value(&mut self, k: u64, record: CacheValue) -> (r: &mut Self)
        requires
            old(self).wf(),
        ensures
            *final(self) == *final(r),
            r.wf(),
            r.capacity() == old(self).capacity(),
            r@ == append_spec(old(self)@, k, record),
            !has_key(old(self)@, k) ==> r@ == old(self)@,
    {
        let ghost before = self@;
        match self.find(k) {
            Some(i) => {
                let (key, mut records) = self.cache.remove(i);
                records.push(record);
                self.cache.insert(i, (key, records));
                assert(self@ =~= append_spec(before, k, record)) by {
                    assert forall|j: int| 0 <= j < before.len() && j != i implies before[j].0
                        != k by {
                        if j < i {
                            assert(before[j].0 != before[i as int].0);
                        } else {
                            assert(before[i as int].0 != before[j].0);
                        }
                    }
                }
            },
            None => {
                assert(self@ =~= append_spec(before, k, record));
            },
        }
        self
    }

    /// The records kept for `k`, or `None` when `k` is not tracked.
    pub fn get_entry(&self, k: u64) -> (r: Option<&Vec<CacheValue>>)
        requires
            self.wf(),
        ensures
            match r {
                Some(v) => lookup_spec(self@, k) == Some(v@),
                None => lookup_spec(self@, k) is None,
            },
    {
        match self.find(k) {
            Some(i) => Some(&self.cache[i].1),
            None => None,
        }
    }

    /// Removes the entry of `k`, if there is one.
    pub fn remove(&mut self, k: u64) -> (r: &mut Self)
        requires
            old(self).wf(),
        ensures
            *final(self) == *final(r),
            r.wf(),
            r.capacity() == old(self).capacity(),
            r@ == remove_spec(old(self)@, k),
            !has_key(r@, k),
    {
        let ghost before = self@;
        match self.find(k) {
            Some(i) => {
                self.cache.remove(i);
                assert(self@ =~= before.remove(i as int));
                assert forall|a: int, b: int| 0 <= a < b < self@.len() implies #[trigger] self@[a].0
                    != #[trigger] self@[b].0 by {
                    let a1 = if a < i { a } else { a + 1 };
                    let b1 = if b < i { b } else { b + 1 };
                    assert(before[a1].0 != before[b1].0);
                }
                assert forall|j: int| 0 <= j < self@.len() implies #[trigger] self@[j].0 != k by {
                    let j1 = if j < i { j } else { j + 1 };
                    assert(before[j1].0 != before[i as int].0);
                }
            },
            None => {},
        }
        self
    }
    /// A cache of capacity `size` holding `entries` as if each had been
    /// reserved in order with its records: a repeated key keeps its first
    /// records, and only the newest `size` keys remain.
    pub fn from_entries(size: usize, entries: Vec<(u64, Vec<CacheValue>)>) -> (r: Self)
        ensures
            r.wf(),
            r.capacity() == size,
            r@ == reserve_each(
                Seq::empty(),
                size as nat,
                entries@.map_values(|e: (u64, Vec<CacheValue>)| (e.0, e.1@)),
            ),
    {
        let ghost es = entries@.map_values(|e: (u64, Vec<CacheValue>)| (e.0, e.1@));
        let mut r = MessageCache::new(size);
        let total = entries.len();
        let mut rest = entries;
        let ghost n = es.len();
        let mut done: usize = 0;
        while rest.len() > 0
            invariant
                r.wf(),
                r.capacity() == size,
                n == es.len(),
                done + rest@.len() == n,
                n == total,
                r@ == reserve_each(Seq::empty(), size as nat, es.subrange(0, done as int)),
                forall|i: int|
                    0 <= i < rest@.len() ==> (#[trigger] rest@[i]).0 == es[done + i].0
                        && rest@[i].1@ == es[done + i].1,
            decreases rest@.len(),
        {
            let (k, v) = rest.remove(0);
            proof {
                assert(es.subrange(0, done + 1).drop_last() =~= es.subrange(0, done as int));
            }
            r.push(k, v);
            done = done + 1;
        }
        assert(es.subrange(0, n as int) =~= es);
        r
    }

    /// The entries, oldest first, each with a copy of its records.
    pub fn to_entries(&self) -> (r: Vec<(u64, Vec<CacheValue>)>)
        ensures
            r@.map_values(|e: (u64, Vec<CacheValue>)| (e.0, e.1@)) == self@,
    {
        let mut out: Vec<(u64, Vec<CacheValue>)> = Vec::new();
        let mut i: usize = 0;
        while i < self.cache.len()
            invariant
                i <= self@.len(),
                self@.len() == self.cache@.len(),
                out@.map_values(|e: (u64, Vec<CacheValue>)| (e.0, e.1@)) == self@.subrange(0, i as int),
            decreases self.cache@.len() - i,
        {
            let records = copy_records(&self.cache[i].1);
            let ghost before = out@;
            out.push((self.cache[i].0, records));
            proof {
                assert(out@ == before.push((self.cache@[i as int].0, records)));
                assert(self@[i as int] == (self.cache@[i as int].0, self.cache@[i as int].1@));
                assert(out@.map_values(|e: (u64, Vec<CacheValue>)| (e.0, e.1@)) =~= before.map_values(
                    |e: (u64, Vec<CacheValue>)| (e.0, e.1@),
                ).push(self@[i as int]));
                assert(out@.map_values(|e: (u64, Vec<CacheValue>)| (e.0, e.1@)) =~= self@.subrange(
                    0,
                    i + 1,
                ));
            }
            i = i + 1;
        }
        assert(self@.subrange(0, self@.len() as int) =~= self@);
        out
    }
}

/// A copy of `v`.
fn copy_records(v: &Vec<CacheValue>) -> (r: Vec<CacheValue>)
    ensures
        r@ == v@,
{
    let mut out: Vec<CacheValue> = Vec::new();
    let mut i: usize = 0;
    while i < v.len()
        invariant
            i <= v@.len(),
            out@ == v@.subrange(0, i as int),
        decreases v@.len() - i,
    {
        out.push(v[i]);
        assert(out@ =~= v@.subrange(0, i + 1));
        i = i + 1;
    }
    assert(out@ =~= v@);
    out
}

} // verus!
