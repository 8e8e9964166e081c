//! An ordered map from addresses to records.
//!
//! The map is modelled as a sequence of `(address, record)` pairs in strictly
//! ascending byte order of the addresses, so that a key occurs at most once
//! and listings come out in a fixed order.

use vstd::prelude::*;
use vstd::string::*;
use vstd::utf8::{decode_utf8, encode_utf8, encode_utf8_decode_utf8};

verus! {

/// Lexicographic order on byte strings that agree before index `from`.
pub open spec fn bytes_before(a: Seq<u8>, b: Seq<u8>, from: int) -> bool
    decreases b.len() - from,
{
    if from < 0 || from >= b.len() {
        false
    } else if from >= a.len() {
        true
    } else if a[from] != b[from] {
        a[from] < b[from]
    } else {
        bytes_before(a, b, from + 1)
    }
}

/// Address `a` sorts strictly before address `b`: byte order of the UTF-8
/// encodings.
pub open spec fn key_before(a: Seq<char>, b: Seq<char>) -> bool {
    bytes_before(encode_utf8(a), encode_utf8(b), 0)
}

/// The keys are strictly ascending.
pub open spec fn ordered<V>(m: Seq<(Seq<char>, V)>) -> bool {
    forall|i: int, j: int| 0 <= i < j < m.len() ==> key_before(#[trigger] m[i].0, #[trigger] m[j].0)
}

/// Some entry has the key.
pub open spec fn contains_key<V>(m: Seq<(Seq<char>, V)>, key: Seq<char>) -> bool {
    exists|i: int| 0 <= i < m.len() && #[trigger] m[i].0 == key
}

/// The position of the entry with the key, where there is one.
pub open spec fn index_of<V>(m: Seq<(Seq<char>, V)>, key: Seq<char>) -> int {
    choose|i: int| 0 <= i < m.len() && #[trigger] m[i].0 == key
}

/// The record stored under the key, where there is one.
pub open spec fn record<V>(m: Seq<(Seq<char>, V)>, key: Seq<char>) -> V {
    m[index_of(m, key)].1
}

/// The number of entries whose key sorts strictly before `key`.
pub open spec fn rank<V>(m: Seq<(Seq<char>, V)>, key: Seq<char>) -> int
    decreases m.len(),
{
    if m.len() == 0 {
        0
    } else {
        rank(m.drop_last(), key) + if key_before(m.last().0, key) {
            1int
        } else {
            0int
        }
    }
}

/// The number of entries whose key does not sort after `key`.
pub open spec fn rank_through<V>(m: Seq<(Seq<char>, V)>, key: Seq<char>) -> int
    decreases m.len(),
{
    if m.len() == 0 {
        0
    } else {
        rank_through(m.drop_last(), key) + if key_before(key, m.last().0) {
            0int
        } else {
            1int
        }
    }
}

/// The map with `value` stored under `key`: in place of the old record, or
/// as a new entry at its place in the order.
pub open spec fn put<V>(m: Seq<(Seq<char>, V)>, key: Seq<char>, value: V) -> Seq<(Seq<char>, V)> {
    if contains_key(m, key) {
        m.update(index_of(m, key), (key, value))
    } else {
        m.insert(rank(m, key), (key, value))
    }
}

/// The map without the entry for `key`.
pub open spec fn without<V>(m: Seq<(Seq<char>, V)>, key: Seq<char>) -> Seq<(Seq<char>, V)> {
    if contains_key(m, key) {
        m.remove(index_of(m, key))
    } else {
        m
    }
}

/// Up to `limit` entries in ascending order, starting behind `start_after`
/// where that is given and at the smallest key where it is not.
pub open spec fn page<V>(m: Seq<(Seq<char>, V)>, start_after: Option<Seq<char>>, limit: int) -> Seq<
    (Seq<char>, V),
> {
    let first = match start_after {
        Some(key) => rank_through(m, key),
        None => 0,
    };
    let last = if first + limit < m.len() {
        first + limit
    } else {
        m.len() as int
    };
    m.subrange(first, last)
}

/// No byte string sorts before itself.
pub proof fn lemma_bytes_before_irreflexive(a: Seq<u8>, from: int)
    requires
        0 <= from,
    ensures
        !bytes_before(a, a, from),
    decreases a.len() - from,
{
    if from < a.len() {
        lemma_bytes_before_irreflexive(a, from + 1);
    }
}

/// The order on byte strings is transitive.
pub proof fn lemma_bytes_before_transitive(a: Seq<u8>, b: Seq<u8>, c: Seq<u8>, from: int)
    requires
        0 <= from,
        bytes_before(a, b, from),
        bytes_before(b, c, from),
    ensures
        bytes_before(a, c, from),
    decreases b.len() - from,
{
    if from < a.len() && a[from] == b[from] && b[from] == c[from] {
        lemma_bytes_before_transitive(a, b, c, from + 1);
    }
}

/// Two byte strings that agree before `from` are equal or ordered one way or
/// the other.
pub proof fn lemma_bytes_before_total(a: Seq<u8>, b: Seq<u8>, from: int)
    requires
        0 <= from <= a.len(),
        from <= b.len(),
        forall|j: int| 0 <= j < from ==> a[j] == b[j],
    ensures
        a == b || bytes_before(a, b, from) || bytes_before(b, a, from),
    decreases a.len() - from,
{
    if from == a.len() && from == b.len() {
        assert(a =~= b);
    } else if from < a.len() && from < b.len() && a[from] == b[from] {
        lemma_bytes_before_total(a, b, from + 1);
    }
}

/// No address sorts before itself.
pub proof fn lemma_key_before_irreflexive(a: Seq<char>)
    ensures
        !key_before(a, a),
{
    lemma_bytes_before_irreflexive(encode_utf8(a), 0);
}

/// The order on addresses is transitive.
pub proof fn lemma_key_before_transitive(a: Seq<char>, b: Seq<char>, c: Seq<char>)
    requires
        key_before(a, b),
        key_before(b, c),
    ensures
        key_before(a, c),
{
    lemma_bytes_before_transitive(encode_utf8(a), encode_utf8(b), encode_utf8(c), 0);
}

/// Two different addresses are ordered one way or the other.
pub proof fn lemma_key_before_total(a: Seq<char>, b: Seq<char>)
    ensures
        a == b || key_before(a, b) || key_before(b, a),
{
    lemma_bytes_before_total(encode_utf8(a), encode_utf8(b), 0);
    if encode_utf8(a) == encode_utf8(b) {
        encode_utf8_decode_utf8(a);
        encode_utf8_decode_utf8(b);
        assert(a == decode_utf8(encode_utf8(a)));
    }
}

/// In an ordered map a key occurs at one position only.
pub proof fn lemma_index_of_unique<V>(m: Seq<(Seq<char>, V)>, key: Seq<char>, i: int)
    requires
        ordered(m),
        0 <= i < m.len(),
        m[i].0 == key,
    ensures
        contains_key(m, key),
        index_of(m, key) == i,
{
    let k = index_of(m, key);
    lemma_key_before_irreflexive(key);
    if k < i {
        assert(key_before(m[k].0, m[i].0));
    } else if i < k {
        assert(key_before(m[i].0, m[k].0));
    }
}

/// Where the entries before position `i` are exactly those whose key does not
/// sort after `key`, `rank_through` of `key` is `i`.
pub proof fn lemma_rank_through_boundary<V>(m: Seq<(Seq<char>, V)>, key: Seq<char>, i: int)
    requires
        0 <= i <= m.len(),
        forall|j: int| 0 <= j < m.len() ==> (key_before(key, #[trigger] m[j].0) <==> j >= i),
    ensures
        rank_through(m, key) == i,
    decreases m.len(),
{
    if m.len() > 0 {
        let rest = m.drop_last();
        let bound = if i < m.len() {
            i
        } else {
            m.len() - 1
        };
        assert forall|j: int| 0 <= j < rest.len() implies (key_before(key, #[trigger] rest[j].0)
            <==> j >= bound) by {
            assert(rest[j] == m[j]);
        }
        lemma_rank_through_boundary(rest, key, bound);
    }
}

/// What a lookup sees after `put`: the new record under `key`, every other
/// key as before.
pub proof fn lemma_put_lookup<V>(m: Seq<(Seq<char>, V)>, key: Seq<char>, value: V, other: Seq<char>)
    requires
        ordered(m),
    ensures
        ordered(put(m, key, value)),
        contains_key(put(m, key, value), key),
        record(put(m, key, value), key) == value,
        other != key ==> contains_key(put(m, key, value), other) == contains_key(m, other),
        other != key && contains_key(m, other) ==> record(put(m, key, value), other) == record(
            m,
            other,
        ),
{
    let n = put(m, key, value);
    lemma_put_ordered(m, key, value);
    if contains_key(m, key) {
        let i = index_of(m, key);
        assert(n[i].0 == key);
        lemma_index_of_unique(n, key, i);
        if other != key {
            if contains_key(m, other) {
                let k = index_of(m, other);
                assert(n[k] == m[k]);
                lemma_index_of_unique(n, other, k);
            }
            if contains_key(n, other) {
                let k = index_of(n, other);
                assert(n[k] == m[k]);
                assert(m[k].0 == other);
            }
        }
    } else {
        let i = rank(m, key);
        lemma_rank_bounds(m, key);
        assert(n[i] == (key, value));
        lemma_index_of_unique(n, key, i);
        if other != key {
            if contains_key(m, other) {
                let k = index_of(m, other);
                let k2 = if k < i {
                    k
                } else {
                    k + 1
                };
                assert(n[k2] == m[k]);
                lemma_index_of_unique(n, other, k2);
            }
            if contains_key(n, other) {
                let k = index_of(n, other);
                let k2 = if k < i {
                    k
                } else {
                    k - 1
                };
                assert(n[k] == m[k2]);
                assert(m[k2].0 == other);
            }
        }
    }
}

/// Every entry after `put` is the new one or one that was there before.
pub proof fn lemma_put_entries<V>(m: Seq<(Seq<char>, V)>, key: Seq<char>, value: V)
    ensures
        forall|j: int|
            0 <= j < put(m, key, value).len() ==> (#[trigger] put(m, key, value)[j]) == (key, value)
                || m.contains(put(m, key, value)[j]),
{
    let n = put(m, key, value);
    lemma_rank_bounds(m, key);
    assert forall|j: int| 0 <= j < n.len() implies (#[trigger] n[j]) == (key, value) || m.contains(
        n[j],
    ) by {
        if contains_key(m, key) {
            if j != index_of(m, key) {
                assert(n[j] == m[j]);
            }
        } else {
            let i = rank(m, key);
            if j < i {
                assert(n[j] == m[j]);
            } else if j > i {
                assert(n[j] == m[j - 1]);
            }
        }
    }
}

/// The rank of a key lies within the map.
pub proof fn lemma_rank_bounds<V>(m: Seq<(Seq<char>, V)>, key: Seq<char>)
    ensures
        0 <= rank(m, key) <= m.len(),
        0 <= rank_through(m, key) <= m.len(),
    decreases m.len(),
{
    if m.len() > 0 {
        lemma_rank_bounds(m.drop_last(), key);
    }
}

/// In an ordered map the entries before the rank of a key are exactly those
/// that sort before it.
pub proof fn lemma_rank_splits<V>(m: Seq<(Seq<char>, V)>, key: Seq<char>)
    requires
        ordered(m),
    ensures
        forall|j: int| 0 <= j < m.len() ==> (key_before(#[trigger] m[j].0, key) <==> j < rank(m, key)),
    decreases m.len(),
{
    if m.len() > 0 {
        let rest = m.drop_last();
        let last = m.len() - 1;
        assert forall|i: int, j: int| 0 <= i < j < rest.len() implies key_before(
            #[trigger] rest[i].0,
            #[trigger] rest[j].0,
        ) by {
            assert(rest[i] == m[i] && rest[j] == m[j]);
        }
        lemma_rank_splits(rest, key);
        lemma_rank_bounds(rest, key);
        assert forall|j: int| 0 <= j < m.len() implies (key_before(#[trigger] m[j].0, key) <==> j
            < rank(m, key)) by {
            if j < last {
                assert(rest[j] == m[j]);
                if !key_before(m[j].0, key) && key_before(m[last].0, key) {
                    assert(key_before(m[j].0, m[last].0));
                    lemma_key_before_transitive(m[j].0, m[last].0, key);
                }
            } else {
                if key_before(m[last].0, key) && rank(rest, key) < last {
                    let k = rank(rest, key);
                    assert(rest[k] == m[k]);
                    assert(!key_before(m[k].0, key));
                    assert(key_before(m[k].0, m[last].0));
                    lemma_key_before_transitive(m[k].0, m[last].0, key);
                }
            }
        }
    }
}

/// `put` keeps the map ordered.
pub proof fn lemma_put_ordered<V>(m: Seq<(Seq<char>, V)>, key: Seq<char>, value: V)
    requires
        ordered(m),
    ensures
        ordered(put(m, key, value)),
{
    let n = put(m, key, value);
    if contains_key(m, key) {
        let i = index_of(m, key);
        assert forall|a: int, b: int| 0 <= a < b < n.len() implies key_before(
            #[trigger] n[a].0,
            #[trigger] n[b].0,
        ) by {
            assert(n[a].0 == m[a].0 && n[b].0 == m[b].0);
        }
    } else {
        let i = rank(m, key);
        lemma_rank_bounds(m, key);
        lemma_rank_splits(m, key);
        assert forall|a: int, b: int| 0 <= a < b < n.len() implies key_before(
            #[trigger] n[a].0,
            #[trigger] n[b].0,
        ) by {
            let a0 = if a < i {
                a
            } else {
                a - 1
            };
            let b0 = if b < i {
                b
            } else {
                b - 1
            };
            if a == i {
                assert(n[b] == m[b0]);
                assert(!key_before(m[b0].0, key));
                assert(m[b0].0 != key);
                lemma_key_before_total(m[b0].0, key);
            } else if b == i {
                assert(n[a] == m[a0]);
            } else {
                assert(n[a] == m[a0] && n[b] == m[b0]);
            }
        }
    }
}

/// One entry of an [`AddrMap`].
#[derive(Clone, Debug, PartialEq, Eq)]
pub struct Entry<T> {
    pub key: String,
    pub value: T,
}

/// An ordered map from addresses to records of type `T`. Its keys are
/// strictly ascending at all times, so that each occurs once.
#[derive(Debug, PartialEq, Eq)]
pub struct AddrMap<T: View> {
    entries: Vec<Entry<T>>,
}

impl<T: View> View for AddrMap<T> {
    type V = Seq<(Seq<char>, T::V)>;

    closed spec fn view(&self) -> Self::V {
        Seq::new(self.entries@.len(), |i: int| (self.entries@[i].key@, self.entries@[i].value@))
    }
}

/// Whether `a` sorts strictly before `b`.
fn bytes_precede(a: &[u8], b: &[u8]) -> (res: bool)
    ensures
        res == bytes_before(a@, b@, 0),
{
    let mut i: usize = 0;
    while i < a.len() && i < b.len()
        invariant
            i <= a.len(),
            i <= b.len(),
            bytes_before(a@, b@, 0) == bytes_before(a@, b@, i as int),
        decreases a.len() - i,
    {
        if a[i] != b[i] {
            return a[i] < b[i];
        }
        i += 1;
    }
    i < b.len()
}

/// Whether address `a` sorts strictly before address `b`.
pub fn key_precedes(a: &str, b: &str) -> (res: bool)
    ensures
        res == key_before(a@, b@),
{
    bytes_precede(a.as_bytes(), b.as_bytes())
}

impl<T: View> AddrMap<T> {
    /// The keys are strictly ascending.
    #[verifier::type_invariant]
    pub open spec fn wf(&self) -> bool {
        ordered(self@)
    }

    /// The empty map.
    pub fn new() -> (res: Self)
        ensures
            res@ == Seq::<(Seq<char>, T::V)>::empty(),
    {
        let res = AddrMap { entries: Vec::new() };
        assert(res@ =~= Seq::<(Seq<char>, T::V)>::empty());
        res
    }

    /// The number of entries.
    pub fn len(&self) -> (res: usize)
        ensures
            res == self@.len(),
    {
        self.entries.len()
    }

    /// The key of the entry at position `i`.
    pub fn key_at(&self, i: usize) -> (res: &String)
        requires
            i < self@.len(),
        ensures
            res@ == self@[i as int].0,
    {
        &self.entries[i].key
    }

    /// The record of the entry at position `i`.
    pub fn value_at(&self, i: usize) -> (res: &T)
        requires
            i < self@.len(),
        ensures
            res@ == self@[i as int].1,
    {
        &self.entries[i].value
    }

    /// The position at which `key` stands or would stand, and whether it is
    /// there.
    fn slot(&self, key: &str) -> (res: (usize, bool))
        ensures
            res.0 == rank(self@, key@),
            res.0 <= self@.len(),
            res.1 == contains_key(self@, key@),
            res.1 ==> res.0 < self@.len() && index_of(self@, key@) == res.0,
    {
        let mut i: usize = 0;
        while i < self.entries.len() && key_precedes(self.entries[i].key.as_str(), key)
            invariant
                i <= self.entries@.len(),
                forall|j: int| 0 <= j < i ==> key_before(#[trigger] self@[j].0, key@),
            decreases self.entries@.len() - i,
        {
            i += 1;
        }
        let found = i < self.entries.len() && !key_precedes(key, self.entries[i].key.as_str());
        proof {
            use_type_invariant(self);
            let m = self@;
            lemma_rank_splits(m, key@);
            lemma_rank_bounds(m, key@);
            lemma_key_before_irreflexive(key@);
            if i < m.len() {
                assert(!key_before(m[i as int].0, key@));
            }
            if rank(m, key@) < i {
                assert(key_before(m[rank(m, key@)].0, key@));
            }
            if found {
                lemma_key_before_total(m[i as int].0, key@);
                lemma_index_of_unique(m, key@, i as int);
            } else if contains_key(m, key@) {
                let k = index_of(m, key@);
                if k > i {
                    assert(key_before(m[i as int].0, m[k].0));
                } else if k < i {
                    assert(key_before(m[k].0, key@));
                }
            }
        }
        (i, found)
    }

    /// The position of the entry for `key`, if there is one.
    pub fn find(&self, key: &str) -> (res: Option<usize>)
        ensures
            match res {
                Some(i) => contains_key(self@, key@) && i == index_of(self@, key@) && i
                    < self@.len() && self@[i as int].0 == key@,
                None => !contains_key(self@, key@),
            },
    {
        let (i, found) = self.slot(key);
        if found {
            Some(i)
        } else {
            None
        }
    }

    /// Stores `value` under `key`, in place of the record that was there.
    pub fn put(&mut self, key: String, value: T)
        ensures
            final(self)@ == put(old(self)@, key@, value@),
    {
        proof {
            use_type_invariant(&*self);
        }
        let (i, found) = self.slot(key.as_str());
        let ghost before = self@;
        let mut entries: Vec<Entry<T>> = Vec::new();
        std::mem::swap(&mut entries, &mut self.entries);
        if found {
            let _ = entries.remove(i);
        }
        entries.insert(i, Entry { key, value });
        proof {
            let after = Seq::new(entries@.len(), |j: int| (entries@[j].key@, entries@[j].value@));
            assert(after =~= put(before, key@, value@));
            lemma_put_ordered(before, key@, value@);
        }
        self.entries = entries;
    }

    /// Removes the entry for `key`; says whether there was one.
    pub fn remove(&mut self, key: &str) -> (res: bool)
        ensures
            res == contains_key(old(self)@, key@),
            final(self)@ == without(old(self)@, key@),
    {
        proof {
            use_type_invariant(&*self);
        }
        let (i, found) = self.slot(key);
        let ghost before = self@;
        if found {
            let mut entries: Vec<Entry<T>> = Vec::new();
            std::mem::swap(&mut entries, &mut self.entries);
            let _ = entries.remove(i);
            proof {
                let after = Seq::new(
                    entries@.len(),
                    |j: int| (entries@[j].key@, entries@[j].value@),
                );
                assert(after =~= before.remove(i as int));
                assert forall|a: int, b: int| 0 <= a < b < after.len() implies key_before(
                    #[trigger] after[a].0,
                    #[trigger] after[b].0,
                ) by {
                    let a0 = if a < i {
                        a
                    } else {
                        a + 1
                    };
                    let b0 = if b < i {
                        b
                    } else {
                        b + 1
                    };
                    assert(after[a] == before[a0] && after[b] == before[b0]);
                }
            }
            self.entries = entries;
        }
        found
    }

    /// The position of the first entry whose key sorts after `key`.
    pub fn first_after(&self, key: &str) -> (res: usize)
        ensures
            res == rank_through(self@, key@),
            res <= self@.len(),
    {
        let mut i: usize = 0;
        while i < self.entries.len() && !key_precedes(key, self.entries[i].key.as_str())
            invariant
                i <= self.entries@.len(),
                forall|j: int| 0 <= j < i ==> !key_before(key@, #[trigger] self@[j].0),
            decreases self.entries@.len() - i,
        {
            i += 1;
        }
        proof {
            use_type_invariant(self);
            let m = self@;
            assert forall|j: int| 0 <= j < m.len() implies (key_before(key@, #[trigger] m[j].0) <==> j
                >= i) by {
                if j > i {
                    assert(key_before(m[i as int].0, m[j].0));
                    lemma_key_before_transitive(key@, m[i as int].0, m[j].0);
                }
            }
            lemma_rank_through_boundary(m, key@, i as int);
        }
        i
    }
}

impl<T: View + Copy> AddrMap<T> {
    /// A copy of the map.
    pub fn duplicate(&self) -> (res: Self)
        ensures
            res@ == self@,
    {
        let mut entries: Vec<Entry<T>> = Vec::new();
        let mut i: usize = 0;
        while i < self.entries.len()
            invariant
                i <= self.entries@.len(),
                entries@.len() == i,
                forall|j: int|
                    0 <= j < i ==> (#[trigger] entries@[j]).key@ == self.entries@[j].key@
                        && entries@[j].value == self.entries@[j].value,
            decreases self.entries@.len() - i,
        {
            let key = self.entries[i].key.clone();
            let value = self.entries[i].value;
            entries.push(Entry { key, value });
            i += 1;
        }
        proof {
            use_type_invariant(self);
            let copied = Seq::new(entries@.len(), |j: int| (entries@[j].key@, entries@[j].value@));
            assert(copied =~= self@);
        }
        AddrMap { entries }
    }
}

} // verus!
