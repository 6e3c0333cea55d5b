//! Reference semantics of the store under test.
//!
//! The correctness scenario judges the live store's replies against what
//! a correct store would return.  This module is that reference: entries
//! kept sorted by key, viewed abstractly as a map from keys to values,
//! with put, get, delete and scan proved against that view.  A get of an
//! absent key returns `None`: absence is represented explicitly and is
//! never conflated with an empty value.

use vstd::prelude::*;
use crate::message::KvEntry;
use crate::message::copy_bytes;
use crate::order::bytes_eq;
use crate::order::bytes_lt;
use crate::order::lemma_lex_lt_common_prefix;
use crate::order::lemma_lex_lt_irrefl;
use crate::order::lemma_lex_lt_total;
use crate::order::lemma_lex_lt_trans;
use crate::order::lex_lt;

verus! {

/// Keys strictly ascending in lexicographic order.
pub open spec fn sorted_by_key(s: Seq<KvEntry>) -> bool {
    forall|i: int, j: int|
        0 <= i < j < s.len() ==> lex_lt(#[trigger] s[i].key@, #[trigger] s[j].key@)
}

/// No key occurs twice.
pub open spec fn distinct_keys(s: Seq<KvEntry>) -> bool {
    forall|i: int, j: int| 0 <= i < j < s.len() ==> (#[trigger] s[i].key@) != (#[trigger] s[j].key@)
}

/// The map a sequence of entries denotes; later entries would win,
/// though a sorted sequence never repeats a key.
pub open spec fn map_of(s: Seq<KvEntry>) -> Map<Seq<u8>, Seq<u8>>
    decreases s.len(),
{
    if s.len() == 0 {
        Map::empty()
    } else {
        map_of(s.drop_last()).insert(s.last().key@, s.last().value@)
    }
}

/// Strictly ascending keys are in particular pairwise distinct.
pub proof fn lemma_sorted_distinct(s: Seq<KvEntry>)
    requires
        sorted_by_key(s),
    ensures
        distinct_keys(s),
{
    assert forall|i: int, j: int| 0 <= i < j < s.len() implies (#[trigger] s[i].key@)
        != (#[trigger] s[j].key@) by {
        if s[i].key@ == s[j].key@ {
            assert(lex_lt(s[i].key@, s[j].key@));
            lemma_lex_lt_irrefl(s[i].key@);
        }
    }
}

/// A key is in the map exactly when some entry carries it.
pub proof fn lemma_map_of_contains(s: Seq<KvEntry>, k: Seq<u8>)
    ensures
        map_of(s).contains_key(k) <==> exists|i: int| 0 <= i < s.len() && (#[trigger] s[i].key@)
            == k,
    decreases s.len(),
{
    if s.len() > 0 {
        lemma_map_of_contains(s.drop_last(), k);
        if s.last().key@ == k {
            assert(s[s.len() - 1].key@ == k);
        } else {
            if map_of(s).contains_key(k) {
                let i = choose|i: int|
                    0 <= i < s.drop_last().len() && (#[trigger] s.drop_last()[i].key@) == k;
                assert(s[i].key@ == k);
            }
            if exists|i: int| 0 <= i < s.len() && (#[trigger] s[i].key@) == k {
                let i = choose|i: int| 0 <= i < s.len() && (#[trigger] s[i].key@) == k;
                assert(i < s.len() - 1);
                assert(s.drop_last()[i].key@ == k);
            }
        }
    }
}

/// With distinct keys, the map sends each entry's key to its value.
pub proof fn lemma_map_of_index(s: Seq<KvEntry>, i: int)
    requires
        distinct_keys(s),
        0 <= i < s.len(),
    ensures
        map_of(s).contains_key(s[i].key@),
        map_of(s)[s[i].key@] == s[i].value@,
    decreases s.len(),
{
    if i < s.len() - 1 {
        assert(s.drop_last()[i] == s[i]);
        lemma_map_of_index(s.drop_last(), i);
        assert(s.last().key@ != s[i].key@);
    }
}

/// Inserting an entry whose key is fresh inserts its pair into the map.
pub proof fn lemma_map_of_insert(s: Seq<KvEntry>, p: int, e: KvEntry)
    requires
        0 <= p <= s.len(),
        forall|j: int| 0 <= j < s.len() ==> (#[trigger] s[j].key@) != e.key@,
    ensures
        map_of(s.insert(p, e)) == map_of(s).insert(e.key@, e.value@),
    decreases s.len(),
{
    let s2 = s.insert(p, e);
    if p == s.len() {
        assert(s2.drop_last() =~= s);
        assert(s2.last() == e);
    } else {
        assert(s2.last() == s.last());
        assert(s2.drop_last() =~= s.drop_last().insert(p, e));
        assert forall|j: int| 0 <= j < s.drop_last().len() implies (#[trigger] s.drop_last()[j].key@)
            != e.key@ by {
            assert(s.drop_last()[j] == s[j]);
        }
        lemma_map_of_insert(s.drop_last(), p, e);
        assert(s.last().key@ != e.key@);
        assert(map_of(s.drop_last()).insert(e.key@, e.value@).insert(
            s.last().key@,
            s.last().value@,
        ) =~= map_of(s.drop_last()).insert(s.last().key@, s.last().value@).insert(
            e.key@,
            e.value@,
        ));
    }
}

/// Removing the entry at `p` removes its key from the map.
pub proof fn lemma_map_of_remove(s: Seq<KvEntry>, p: int)
    requires
        distinct_keys(s),
        0 <= p < s.len(),
    ensures
        map_of(s.remove(p)) == map_of(s).remove(s[p].key@),
    decreases s.len(),
{
    let s2 = s.remove(p);
    if p == s.len() - 1 {
        assert(s2 =~= s.drop_last());
        lemma_map_of_contains(s.drop_last(), s[p].key@);
        assert forall|i: int| 0 <= i < s.drop_last().len() implies (
        #[trigger] s.drop_last()[i].key@) != s[p].key@ by {
            assert(s.drop_last()[i] == s[i]);
        }
        assert(!map_of(s.drop_last()).contains_key(s[p].key@));
        assert(map_of(s.drop_last()).insert(s[p].key@, s[p].value@).remove(s[p].key@)
            =~= map_of(s.drop_last()));
    } else {
        assert(s2.last() == s.last());
        assert(s2.drop_last() =~= s.drop_last().remove(p));
        assert forall|i: int, j: int| 0 <= i < j < s.drop_last().len() implies (
        #[trigger] s.drop_last()[i].key@) != (#[trigger] s.drop_last()[j].key@) by {
            assert(s.drop_last()[i] == s[i]);
            assert(s.drop_last()[j] == s[j]);
        }
        lemma_map_of_remove(s.drop_last(), p);
        assert(s.drop_last()[p] == s[p]);
        assert(s.last().key@ != s[p].key@);
        assert(map_of(s.drop_last()).remove(s[p].key@).insert(s.last().key@, s.last().value@)
            =~= map_of(s.drop_last()).insert(s.last().key@, s.last().value@).remove(s[p].key@));
    }
}

/// Index of the first entry whose key is not below `k`; the length when
/// every key is below `k`.
pub open spec fn first_geq(s: Seq<KvEntry>, k: Seq<u8>) -> int
    decreases s.len(),
{
    if s.len() == 0 {
        0
    } else if !lex_lt(s[0].key@, k) {
        0
    } else {
        1 + first_geq(s.skip(1), k)
    }
}

/// Index of the first entry whose key is above `k`; the length when no
/// key is above `k`.
pub open spec fn first_gt(s: Seq<KvEntry>, k: Seq<u8>) -> int
    decreases s.len(),
{
    if s.len() == 0 {
        0
    } else if lex_lt(k, s[0].key@) {
        0
    } else {
        1 + first_gt(s.skip(1), k)
    }
}

/// `first_geq` splits the sequence: keys below `k` before it, the rest
/// from it on.
pub proof fn lemma_first_geq_bounds(s: Seq<KvEntry>, k: Seq<u8>)
    ensures
        0 <= first_geq(s, k) <= s.len(),
        forall|j: int| 0 <= j < first_geq(s, k) ==> lex_lt(#[trigger] s[j].key@, k),
        first_geq(s, k) < s.len() ==> !lex_lt(s[first_geq(s, k)].key@, k),
    decreases s.len(),
{
    if s.len() > 0 && lex_lt(s[0].key@, k) {
        lemma_first_geq_bounds(s.skip(1), k);
        let f = first_geq(s, k);
        assert forall|j: int| 0 <= j < f implies lex_lt(#[trigger] s[j].key@, k) by {
            if j > 0 {
                assert(s.skip(1)[j - 1] == s[j]);
                assert(lex_lt(s.skip(1)[j - 1].key@, k));
            }
        }
        if f < s.len() {
            assert(s.skip(1)[f - 1] == s[f]);
        }
    }
}

/// Any index with those two properties is `first_geq`.
pub proof fn lemma_first_geq_unique(s: Seq<KvEntry>, k: Seq<u8>, p: int)
    requires
        0 <= p <= s.len(),
        forall|j: int| 0 <= j < p ==> lex_lt(#[trigger] s[j].key@, k),
        p < s.len() ==> !lex_lt(s[p].key@, k),
    ensures
        p == first_geq(s, k),
{
    lemma_first_geq_bounds(s, k);
    let f = first_geq(s, k);
    if p < f {
        assert(lex_lt(s[p].key@, k));
    }
    if f < p {
        assert(lex_lt(s[f].key@, k));
    }
}

/// `first_gt` splits the sequence: keys not above `k` before it, the
/// rest from it on.
pub proof fn lemma_first_gt_bounds(s: Seq<KvEntry>, k: Seq<u8>)
    ensures
        0 <= first_gt(s, k) <= s.len(),
        forall|j: int| 0 <= j < first_gt(s, k) ==> !lex_lt(k, #[trigger] s[j].key@),
        first_gt(s, k) < s.len() ==> lex_lt(k, s[first_gt(s, k)].key@),
    decreases s.len(),
{
    if s.len() > 0 && !lex_lt(k, s[0].key@) {
        lemma_first_gt_bounds(s.skip(1), k);
        let f = first_gt(s, k);
        assert forall|j: int| 0 <= j < f implies !lex_lt(k, #[trigger] s[j].key@) by {
            if j > 0 {
                assert(s.skip(1)[j - 1] == s[j]);
            }
        }
        if f < s.len() {
            assert(s.skip(1)[f - 1] == s[f]);
        }
    }
}

/// Any index with those two properties is `first_gt`.
pub proof fn lemma_first_gt_unique(s: Seq<KvEntry>, k: Seq<u8>, p: int)
    requires
        0 <= p <= s.len(),
        forall|j: int| 0 <= j < p ==> !lex_lt(k, #[trigger] s[j].key@),
        p < s.len() ==> lex_lt(k, s[p].key@),
    ensures
        p == first_gt(s, k),
{
    lemma_first_gt_bounds(s, k);
    let f = first_gt(s, k);
    if p < f {
        assert(!lex_lt(k, s[p].key@));
    }
    if f < p {
        assert(!lex_lt(k, s[f].key@));
    }
}

/// Inserting between smaller and larger keys keeps the keys ascending.
pub proof fn lemma_sorted_insert(s: Seq<KvEntry>, p: int, e: KvEntry)
    requires
        sorted_by_key(s),
        0 <= p <= s.len(),
        forall|j: int| 0 <= j < p ==> lex_lt(#[trigger] s[j].key@, e.key@),
        forall|j: int| p <= j < s.len() ==> lex_lt(e.key@, #[trigger] s[j].key@),
    ensures
        sorted_by_key(s.insert(p, e)),
{
    let t = s.insert(p, e);
    s.insert_ensures(p, e);
    assert forall|i: int, j: int| 0 <= i < j < t.len() implies lex_lt(
        #[trigger] t[i].key@,
        #[trigger] t[j].key@,
    ) by {
        if i < p {
            assert(t[i] == s[i]);
        }
        if i == p {
            assert(t[i] == e);
        }
        if i > p {
            assert(t[i] == s[i - 1]);
        }
        if j < p {
            assert(t[j] == s[j]);
        }
        if j == p {
            assert(t[j] == e);
        }
        if j > p {
            assert(t[j] == s[j - 1]);
        }
    }
}

/// Removing an entry keeps the keys ascending.
pub proof fn lemma_sorted_remove(s: Seq<KvEntry>, p: int)
    requires
        sorted_by_key(s),
        0 <= p < s.len(),
    ensures
        sorted_by_key(s.remove(p)),
{
    let t = s.remove(p);
    s.remove_ensures(p);
    assert forall|i: int, j: int| 0 <= i < j < t.len() implies lex_lt(
        #[trigger] t[i].key@,
        #[trigger] t[j].key@,
    ) by {
        if i < p {
            assert(t[i] == s[i]);
        } else {
            assert(t[i] == s[i + 1]);
        }
        if j < p {
            assert(t[j] == s[j]);
        } else {
            assert(t[j] == s[j + 1]);
        }
    }
}

/// What a put leaves in the store, on the map view.
pub open spec fn put_spec(m: Map<Seq<u8>, Seq<u8>>, k: Seq<u8>, v: Seq<u8>) -> Map<
    Seq<u8>,
    Seq<u8>,
> {
    m.insert(k, v)
}

/// What a get returns, on the map view: the value under the key, or
/// `None` when the key is absent.
pub open spec fn get_spec(m: Map<Seq<u8>, Seq<u8>>, k: Seq<u8>) -> Option<Seq<u8>> {
    if m.contains_key(k) {
        Option::Some(m[k])
    } else {
        Option::None
    }
}

/// What a delete leaves in the store, on the map view.
pub open spec fn delete_spec(m: Map<Seq<u8>, Seq<u8>>, k: Seq<u8>) -> Map<Seq<u8>, Seq<u8>> {
    m.remove(k)
}

/// The reference store: entries sorted by key, viewed as a map.
pub struct ModelStore {
    pub entries: Vec<KvEntry>,
}

impl View for ModelStore {
    type V = Map<Seq<u8>, Seq<u8>>;

    open spec fn view(&self) -> Map<Seq<u8>, Seq<u8>> {
        map_of(self.entries@)
    }
}

impl ModelStore {
    /// Keys strictly ascending: the store's internal invariant.
    pub open spec fn wf(self) -> bool {
        sorted_by_key(self.entries@)
    }

    /// An empty store.
    pub fn new() -> (s: ModelStore)
        ensures
            s.wf(),
            s@ == Map::<Seq<u8>, Seq<u8>>::empty(),
    {
        ModelStore { entries: Vec::new() }
    }

    /// Index of the first entry whose key is not below `key`.
    fn find_lower(&self, key: &Vec<u8>) -> (p: usize)
        requires
            self.wf(),
        ensures
            p as int == first_geq(self.entries@, key@),
    {
        let ghost s = self.entries@;
        let mut i: usize = 0;
        while i < self.entries.len() && bytes_lt(&self.entries[i].key, key)
            invariant
                self.wf(),
                s == self.entries@,
                i <= s.len(),
                forall|j: int| 0 <= j < i ==> lex_lt(#[trigger] s[j].key@, key@),
            decreases s.len() - i,
        {
            i = i + 1;
        }
        proof {
            lemma_first_geq_unique(s, key@, i as int);
        }
        i
    }

    /// Index of the first entry whose key is above `key`.
    fn find_upper(&self, key: &Vec<u8>) -> (p: usize)
        requires
            self.wf(),
        ensures
            p as int == first_gt(self.entries@, key@),
    {
        let ghost s = self.entries@;
        let mut i: usize = 0;
        while i < self.entries.len() && !bytes_lt(key, &self.entries[i].key)
            invariant
                self.wf(),
                s == self.entries@,
                i <= s.len(),
                forall|j: int| 0 <= j < i ==> !lex_lt(key@, #[trigger] s[j].key@),
            decreases s.len() - i,
        {
            i = i + 1;
        }
        proof {
            lemma_first_gt_unique(s, key@, i as int);
        }
        i
    }

    /// Stores `entry`, replacing any entry under the same key.
    pub fn put(&mut self, entry: KvEntry)
        requires
            old(self).wf(),
        ensures
            final(self).wf(),
            final(self)@ == put_spec(old(self)@, entry.key@, entry.value@),
    {
        let ghost s0 = self.entries@;
        let ghost k = entry.key@;
        let ghost v = entry.value@;
        let p = self.find_lower(&entry.key);
        proof {
            lemma_first_geq_bounds(s0, k);
            lemma_sorted_distinct(s0);
        }
        if p < self.entries.len() && bytes_eq(&self.entries[p].key, &entry.key) {
            let _replaced = self.entries.remove(p);
            let ghost s1 = self.entries@;
            proof {
                lemma_map_of_remove(s0, p as int);
                lemma_sorted_remove(s0, p as int);
                s0.remove_ensures(p as int);
                assert forall|j: int| 0 <= j < p implies lex_lt(#[trigger] s1[j].key@, k) by {
                    assert(s1[j] == s0[j]);
                }
                assert forall|j: int| p <= j < s1.len() implies lex_lt(
                    k,
                    #[trigger] s1[j].key@,
                ) by {
                    assert(s1[j] == s0[j + 1]);
                    assert(lex_lt(s0[p as int].key@, s0[j + 1].key@));
                }
                assert forall|j: int| 0 <= j < s1.len() implies (#[trigger] s1[j].key@) != k by {
                    if s1[j].key@ == k {
                        lemma_lex_lt_irrefl(k);
                    }
                }
                lemma_sorted_insert(s1, p as int, entry);
                lemma_map_of_insert(s1, p as int, entry);
            }
            self.entries.insert(p, entry);
            proof {
                assert(map_of(s0).remove(k).insert(k, v) =~= map_of(s0).insert(k, v));
            }
        } else {
            proof {
                assert forall|j: int| p <= j < s0.len() implies lex_lt(
                    k,
                    #[trigger] s0[j].key@,
                ) by {
                    lemma_lex_lt_total(k, s0[p as int].key@);
                    if j > p {
                        lemma_lex_lt_trans(k, s0[p as int].key@, s0[j].key@);
                    }
                }
                assert forall|j: int| 0 <= j < s0.len() implies (#[trigger] s0[j].key@) != k by {
                    if s0[j].key@ == k {
                        lemma_lex_lt_irrefl(k);
                    }
                }
                lemma_sorted_insert(s0, p as int, entry);
                lemma_map_of_insert(s0, p as int, entry);
            }
            self.entries.insert(p, entry);
        }
    }

    /// Returns the value stored under `key`, or `None` when the key is
    /// absent.  Absence is explicit: it is never conflated with an empty
    /// value.
    pub fn get(&self, key: &Vec<u8>) -> (r: Option<Vec<u8>>)
        requires
            self.wf(),
        ensures
            (r is Some) == (get_spec(self@, key@) is Some),
            (r matches Some(val) ==> get_spec(self@, key@) == Option::Some(val@)),
    {
        let ghost s0 = self.entries@;
        let p = self.find_lower(key);
        proof {
            lemma_first_geq_bounds(s0, key@);
            lemma_sorted_distinct(s0);
            lemma_map_of_contains(s0, key@);
        }
        if p < self.entries.len() && bytes_eq(&self.entries[p].key, key) {
            proof {
                lemma_map_of_index(s0, p as int);
            }
            Some(copy_bytes(&self.entries[p].value))
        } else {
            proof {
                if map_of(s0).contains_key(key@) {
                    let i = choose|i: int|
                        0 <= i < s0.len() && (#[trigger] s0[i].key@) == key@;
                    if i < p {
                        lemma_lex_lt_irrefl(key@);
                    }
                    if i > p {
                        assert(lex_lt(s0[p as int].key@, s0[i].key@));
                    }
                }
            }
            None
        }
    }

    /// Removes `key`; returns whether it was present.  Deleting an
    /// absent key leaves the store unchanged and reports `false`.
    pub fn delete(&mut self, key: &Vec<u8>) -> (existed: bool)
        requires
            old(self).wf(),
        ensures
            final(self).wf(),
            final(self)@ == delete_spec(old(self)@, key@),
            existed == old(self)@.contains_key(key@),
    {
        let ghost s0 = self.entries@;
        let p = self.find_lower(key);
        proof {
            lemma_first_geq_bounds(s0, key@);
            lemma_sorted_distinct(s0);
            lemma_map_of_contains(s0, key@);
        }
        if p < self.entries.len() && bytes_eq(&self.entries[p].key, key) {
            proof {
                lemma_map_of_index(s0, p as int);
                lemma_map_of_remove(s0, p as int);
                lemma_sorted_remove(s0, p as int);
            }
            let _removed = self.entries.remove(p);
            true
        } else {
            proof {
                if map_of(s0).contains_key(key@) {
                    let i = choose|i: int|
                        0 <= i < s0.len() && (#[trigger] s0[i].key@) == key@;
                    if i < p {
                        lemma_lex_lt_irrefl(key@);
                    }
                    if i > p {
                        assert(lex_lt(s0[p as int].key@, s0[i].key@));
                    }
                }
                assert(map_of(s0).remove(key@) =~= map_of(s0));
            }
            false
        }
    }

    /// Scans from `start_key`: at most `limit` entries, ascending by key,
    /// or descending from `start_key` when `reverse` is set.  When
    /// `key_only` is set the returned entries carry empty values.
    pub fn scan(&self, start_key: &Vec<u8>, limit: u32, reverse: bool, key_only: bool) -> (r: Vec<
        KvEntry,
    >)
        requires
            self.wf(),
        ensures
            r@.len() <= limit as int,
            !reverse ==> forall|q: int|
                0 <= q < r@.len() ==> !lex_lt((#[trigger] r@[q]).key@, start_key@),
            !reverse ==> forall|q1: int, q2: int|
                0 <= q1 < q2 < r@.len() ==> lex_lt(
                    (#[trigger] r@[q1]).key@,
                    (#[trigger] r@[q2]).key@,
                ),
            reverse ==> forall|q: int|
                0 <= q < r@.len() ==> !lex_lt(start_key@, (#[trigger] r@[q]).key@),
            reverse ==> forall|q1: int, q2: int|
                0 <= q1 < q2 < r@.len() ==> lex_lt(
                    (#[trigger] r@[q2]).key@,
                    (#[trigger] r@[q1]).key@,
                ),
            !reverse ==> ({
                let p = first_geq(self.entries@, start_key@);
                &&& r@.len() == (if self.entries@.len() - p < limit as int {
                    self.entries@.len() - p
                } else {
                    limit as int
                })
                &&& forall|q: int|
                    0 <= q < r@.len() ==> (#[trigger] r@[q]).key@ == self.entries@[p + q].key@
                &&& forall|q: int|
                    0 <= q < r@.len() ==> (#[trigger] r@[q]).value@ == (if key_only {
                        Seq::<u8>::empty()
                    } else {
                        self.entries@[p + q].value@
                    })
            }),
            reverse ==> ({
                let c = first_gt(self.entries@, start_key@);
                &&& r@.len() == (if c < limit as int {
                    c
                } else {
                    limit as int
                })
                &&& forall|q: int|
                    0 <= q < r@.len() ==> (#[trigger] r@[q]).key@ == self.entries@[c - 1 - q].key@
                &&& forall|q: int|
                    0 <= q < r@.len() ==> (#[trigger] r@[q]).value@ == (if key_only {
                        Seq::<u8>::empty()
                    } else {
                        self.entries@[c - 1 - q].value@
                    })
            }),
    {
        let ghost s0 = self.entries@;
        let lim: usize = limit as usize;
        let mut r: Vec<KvEntry> = Vec::new();
        if !reverse {
            let p = self.find_lower(start_key);
            proof {
                lemma_first_geq_bounds(s0, start_key@);
            }
            let mut t: usize = p;
            while t < self.entries.len() && r.len() < lim
                invariant
                    self.wf(),
                    s0 == self.entries@,
                    lim == limit as usize,
                    p as int == first_geq(s0, start_key@),
                    p <= t <= s0.len(),
                    r@.len() == t - p,
                    r@.len() <= lim as int,
                    forall|q: int|
                        0 <= q < r@.len() ==> (#[trigger] r@[q]).key@ == s0[p + q].key@,
                    forall|q: int|
                        0 <= q < r@.len() ==> (#[trigger] r@[q]).value@ == (if key_only {
                            Seq::<u8>::empty()
                        } else {
                            s0[p + q].value@
                        }),
                decreases s0.len() - t,
            {
                let k2 = copy_bytes(&self.entries[t].key);
                let v2 = if key_only {
                    Vec::new()
                } else {
                    copy_bytes(&self.entries[t].value)
                };
                r.push(KvEntry { key: k2, value: v2 });
                t = t + 1;
            }
            proof {
                assert forall|q: int| 0 <= q < r@.len() implies !lex_lt(
                    (#[trigger] r@[q]).key@,
                    start_key@,
                ) by {
                    if lex_lt(s0[p + q].key@, start_key@) {
                        if q > 0 {
                            lemma_lex_lt_trans(
                                s0[p as int].key@,
                                s0[p + q].key@,
                                start_key@,
                            );
                        }
                    }
                }
                assert forall|q1: int, q2: int| 0 <= q1 < q2 < r@.len() implies lex_lt(
                    (#[trigger] r@[q1]).key@,
                    (#[trigger] r@[q2]).key@,
                ) by {
                    assert(lex_lt(s0[p + q1].key@, s0[p + q2].key@));
                }
            }
        } else {
            let c = self.find_upper(start_key);
            proof {
                lemma_first_gt_bounds(s0, start_key@);
            }
            let mut t: usize = c;
            while t > 0 && r.len() < lim
                invariant
                    self.wf(),
                    s0 == self.entries@,
                    lim == limit as usize,
                    c as int == first_gt(s0, start_key@),
                    0 <= t <= c,
                    c <= s0.len(),
                    r@.len() == c - t,
                    r@.len() <= lim as int,
                    forall|q: int|
                        0 <= q < r@.len() ==> (#[trigger] r@[q]).key@ == s0[c - 1 - q].key@,
                    forall|q: int|
                        0 <= q < r@.len() ==> (#[trigger] r@[q]).value@ == (if key_only {
                            Seq::<u8>::empty()
                        } else {
                            s0[c - 1 - q].value@
                        }),
                decreases t,
            {
                t = t - 1;
                let k2 = copy_bytes(&self.entries[t].key);
                let v2 = if key_only {
                    Vec::new()
                } else {
                    copy_bytes(&self.entries[t].value)
                };
                r.push(KvEntry { key: k2, value: v2 });
            }
            proof {
                assert forall|q: int| 0 <= q < r@.len() implies !lex_lt(
                    start_key@,
                    (#[trigger] r@[q]).key@,
                ) by {
                    assert(r@[q].key@ == s0[c - 1 - q].key@);
                }
                assert forall|q1: int, q2: int| 0 <= q1 < q2 < r@.len() implies lex_lt(
                    (#[trigger] r@[q2]).key@,
                    (#[trigger] r@[q1]).key@,
                ) by {
                    assert(lex_lt(s0[c - 1 - q2].key@, s0[c - 1 - q1].key@));
                }
            }
        }
        r
    }
}

/// Round trip: after putting (k, v), a get of k yields exactly v.
pub proof fn lemma_put_get_round_trip(m: Map<Seq<u8>, Seq<u8>>, k: Seq<u8>, v: Seq<u8>)
    requires
        k.len() <= crate::MAX_KEY_SIZE,
        v.len() <= crate::MAX_VALUE_SIZE,
    ensures
        get_spec(put_spec(m, k, v), k) == Option::Some(v),
{
}

/// After deleting k, a get of k reports absence.
pub proof fn lemma_delete_get_absent(m: Map<Seq<u8>, Seq<u8>>, k: Seq<u8>)
    ensures
        get_spec(delete_spec(m, k), k) is None,
{
}

/// Deleting a key that is not in the store leaves the store unchanged.
pub proof fn lemma_delete_absent_noop(m: Map<Seq<u8>, Seq<u8>>, k: Seq<u8>)
    requires
        !m.contains_key(k),
    ensures
        delete_spec(m, k) == m,
{
    assert(m.remove(k) =~= m);
}

/// A scan from k right after putting (k, v) starts at k's own entry:
/// with limit 1 it returns exactly one entry, whose key is k.
pub proof fn lemma_scan_after_put_sees_key(s: ModelStore, k: Seq<u8>)
    requires
        s.wf(),
        s@.contains_key(k),
    ensures
        first_geq(s.entries@, k) < s.entries@.len(),
        s.entries@[first_geq(s.entries@, k)].key@ == k,
        s.entries@[first_geq(s.entries@, k)].value@ == s@[k],
        s.entries@.len() - first_geq(s.entries@, k) >= 1,
{
    let s0 = s.entries@;
    lemma_map_of_contains(s0, k);
    let i = choose|i: int| 0 <= i < s0.len() && (#[trigger] s0[i].key@) == k;
    lemma_lex_lt_irrefl(k);
    assert forall|j: int| 0 <= j < i implies lex_lt(#[trigger] s0[j].key@, k) by {
        assert(lex_lt(s0[j].key@, s0[i].key@));
    }
    lemma_first_geq_unique(s0, k, i);
    lemma_sorted_distinct(s0);
    lemma_map_of_index(s0, i);
}

} // verus!
