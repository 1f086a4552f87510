//! Memory-bounded LRU cache of rendered animation frames, shared across
//! streams. The dispatcher caches looping sequences that meet the minimum
//! frame count; an entry that would not fit under the budget on its own is
//! refused, and the least recently used entries leave to make room.

use vstd::prelude::*;

use crate::text::chars_eq;
use crate::text::chars_of;

verus! {

/// Identifies a rendered animation in the frame cache: the source, the
/// output size, and the fit and resampling names.
#[derive(Debug, Clone, PartialEq, Eq, Hash)]
pub struct CacheKey {
    pub url: String,
    pub width: u32,
    pub height: u32,
    pub fit: &'static str,
    pub method: &'static str,
}

/// What tells two keys apart.
pub open spec fn key_view(k: CacheKey) -> (Seq<char>, u32, u32, Seq<char>, Seq<char>) {
    (k.url@, k.width, k.height, k.fit@, k.method@)
}

/// Compares two keys by their parts.
pub fn same_key(a: &CacheKey, b: &CacheKey) -> (r: bool)
    ensures
        r == (key_view(*a) == key_view(*b)),
{
    if a.width != b.width || a.height != b.height {
        return false;
    }
    if !(a.url == b.url) {
        return false;
    }
    let fa = chars_of(a.fit);
    let fb = chars_of(b.fit);
    if !chars_eq(&fa, &fb) {
        return false;
    }
    let ma = chars_of(a.method);
    let mb = chars_of(b.method);
    chars_eq(&ma, &mb)
}

/// One cached entry as the contracts see it: its key, its value and its
/// size in bytes.
pub type EntryView<V> = ((Seq<char>, u32, u32, Seq<char>, Seq<char>), V, nat);

/// The bytes that the entries hold.
pub open spec fn total_bytes<V>(s: Seq<EntryView<V>>) -> nat
    decreases s.len(),
{
    if s.len() == 0 {
        0
    } else {
        total_bytes(s.drop_last()) + s.last().2
    }
}

/// The position of the entry with key `k`, or the number of entries when
/// there is none.
pub open spec fn index_of<V>(s: Seq<EntryView<V>>, k: (Seq<char>, u32, u32, Seq<char>, Seq<char>)) -> int
    decreases s.len(),
{
    if s.len() == 0 {
        0
    } else if s[0].0 == k {
        0
    } else {
        1 + index_of(s.drop_first(), k)
    }
}

/// The entries without the one with key `k`.
pub open spec fn without<V>(s: Seq<EntryView<V>>, k: (Seq<char>, u32, u32, Seq<char>, Seq<char>)) -> Seq<EntryView<V>> {
    let i = index_of(s, k);
    if i < s.len() {
        s.remove(i)
    } else {
        s
    }
}

/// The entries after evicting least recently used ones (from the front)
/// until `incoming` more bytes fit under `max_bytes`, or none are left.
pub open spec fn evict_for<V>(s: Seq<EntryView<V>>, incoming: nat, max_bytes: nat) -> Seq<EntryView<V>>
    decreases s.len(),
{
    if s.len() > 0 && total_bytes(s) + incoming > max_bytes {
        evict_for(s.drop_first(), incoming, max_bytes)
    } else {
        s
    }
}

/// The entries after inserting `value` of `bytes` under `k` (when it fits
/// the budget at all): a previous entry for `k` leaves, older entries are
/// evicted to make room, and the new entry becomes the most recent.
pub open spec fn after_insert<V>(
    s: Seq<EntryView<V>>,
    k: (Seq<char>, u32, u32, Seq<char>, Seq<char>),
    value: V,
    bytes: nat,
    max_bytes: nat,
) -> Seq<EntryView<V>> {
    if bytes > max_bytes {
        s
    } else {
        evict_for(without(s, k), bytes, max_bytes).push((k, value, bytes))
    }
}

/// The entries after a lookup of `k` hits: the entry becomes the most
/// recent.
pub open spec fn after_touch<V>(s: Seq<EntryView<V>>, k: (Seq<char>, u32, u32, Seq<char>, Seq<char>)) -> Seq<
    EntryView<V>,
> {
    let i = index_of(s, k);
    if i < s.len() {
        s.remove(i).push(s[i])
    } else {
        s
    }
}

/// No key occurs twice.
pub open spec fn keys_distinct<V>(s: Seq<EntryView<V>>) -> bool {
    forall|i: int, j: int| 0 <= i < j < s.len() ==> #[trigger] s[i].0 != #[trigger] s[j].0
}

pub proof fn lemma_index_of<V>(s: Seq<EntryView<V>>, k: (Seq<char>, u32, u32, Seq<char>, Seq<char>))
    ensures
        0 <= index_of(s, k) <= s.len(),
        index_of(s, k) < s.len() ==> s[index_of(s, k)].0 == k,
        forall|j: int| 0 <= j < index_of(s, k) ==> #[trigger] s[j].0 != k,
    decreases s.len(),
{
    if s.len() > 0 && s[0].0 != k {
        lemma_index_of(s.drop_first(), k);
        assert forall|j: int| 0 <= j < index_of(s, k) implies #[trigger] s[j].0 != k by {
            if j > 0 {
                assert(s[j] == s.drop_first()[j - 1]);
            }
        }
    }
}

pub proof fn lemma_total_concat<V>(a: Seq<EntryView<V>>, b: Seq<EntryView<V>>)
    ensures
        total_bytes(a + b) == total_bytes(a) + total_bytes(b),
    decreases b.len(),
{
    if b.len() > 0 {
        lemma_total_concat(a, b.drop_last());
        assert((a + b).drop_last() =~= a + b.drop_last());
    } else {
        assert(a + b =~= a);
    }
}

/// Taking out the entry at `i` takes its bytes out of the total.
pub proof fn lemma_total_remove<V>(s: Seq<EntryView<V>>, i: int)
    requires
        0 <= i < s.len(),
    ensures
        total_bytes(s.remove(i)) + s[i].2 == total_bytes(s),
{
    let a = s.take(i);
    let b = s.skip(i + 1);
    assert(s =~= a + (seq![s[i]] + b));
    assert(s.remove(i) =~= a + b);
    lemma_total_concat(a, seq![s[i]] + b);
    lemma_total_concat(seq![s[i]], b);
    lemma_total_concat(a, b);
    assert(seq![s[i]].drop_last() =~= Seq::<EntryView<V>>::empty());
    assert(total_bytes(Seq::<EntryView<V>>::empty()) == 0);
    assert(total_bytes(seq![s[i]]) == s[i].2);
}

/// Eviction only drops entries from the front: what remains is a suffix.
pub proof fn lemma_evict_suffix<V>(s: Seq<EntryView<V>>, incoming: nat, max_bytes: nat)
    ensures
        exists|n: int| 0 <= n <= s.len() && #[trigger] s.skip(n) == evict_for(s, incoming, max_bytes),
    decreases s.len(),
{
    if s.len() > 0 && total_bytes(s) + incoming > max_bytes {
        lemma_evict_suffix(s.drop_first(), incoming, max_bytes);
        let n = choose|n: int| 0 <= n <= s.drop_first().len() && #[trigger] s.drop_first().skip(n) == evict_for(
            s.drop_first(),
            incoming,
            max_bytes,
        );
        assert(s.skip(n + 1) =~= s.drop_first().skip(n));
    } else {
        assert(s.skip(0) =~= s);
    }
}

/// After `without`, no entry has the key.
pub proof fn lemma_without_absent<V>(s: Seq<EntryView<V>>, k: (Seq<char>, u32, u32, Seq<char>, Seq<char>))
    requires
        keys_distinct(s),
    ensures
        forall|j: int| 0 <= j < without(s, k).len() ==> #[trigger] without(s, k)[j].0 != k,
{
    lemma_index_of(s, k);
    let i = index_of(s, k);
    if i < s.len() {
        assert forall|j: int| 0 <= j < without(s, k).len() implies #[trigger] without(s, k)[j].0 != k by {
            let j0 = if j < i { j } else { j + 1 };
            assert(without(s, k)[j] == s[j0]);
            if j0 < i {
                assert(s[j0].0 != s[i].0);
            } else {
                assert(s[i].0 != s[j0].0);
            }
        }
    }
}

/// What was inserted is found again: after an insert that fits the budget,
/// a lookup of the key finds the new entry, the most recent one.
pub proof fn lemma_insert_then_lookup<V>(
    s: Seq<EntryView<V>>,
    k: (Seq<char>, u32, u32, Seq<char>, Seq<char>),
    value: V,
    bytes: nat,
    max_bytes: nat,
)
    requires
        keys_distinct(s),
        bytes <= max_bytes,
    ensures
        ({
            let t = after_insert(s, k, value, bytes, max_bytes);
            &&& index_of(t, k) == t.len() - 1
            &&& t[index_of(t, k)] == (k, value, bytes)
        }),
{
    let w = without(s, k);
    lemma_without_absent(s, k);
    lemma_evict_suffix(w, bytes, max_bytes);
    let e = evict_for(w, bytes, max_bytes);
    let n = choose|n: int| 0 <= n <= w.len() && #[trigger] w.skip(n) == e;
    let t = e.push((k, value, bytes));
    assert forall|j: int| 0 <= j < e.len() implies #[trigger] t[j].0 != k by {
        assert(t[j] == w[j + n]);
    }
    lemma_index_of(t, k);
    if index_of(t, k) < t.len() - 1 {
        assert(t[index_of(t, k)].0 != k);
    }
    if index_of(t, k) == t.len() {
        assert(t[t.len() - 1].0 == k);
    }
}

/// A well-formed cache lists each key once, so [`lemma_insert_then_lookup`]
/// applies to it.
pub proof fn lemma_wf_keys_distinct<V>(c: &FrameCache<V>)
    requires
        c.wf(),
    ensures
        keys_distinct(c.entries()),
{
}

/// The entries of a cache stay within its budget.
pub proof fn lemma_within_budget<V>(c: &FrameCache<V>)
    requires
        c.wf(),
    ensures
        total_bytes(c.entries()) <= c.max_bytes(),
{
}

/// The frame cache, least recently used entry first.
pub struct FrameCache<V> {
    entries: Vec<(CacheKey, V, usize)>,
    bytes: usize,
    max_bytes: usize,
    min_frames: usize,
}

impl<V> FrameCache<V> {
    /// The entries, least recently used first.
    pub closed spec fn entries(&self) -> Seq<EntryView<V>> {
        self.entries@.map_values(|e: (CacheKey, V, usize)| (key_view(e.0), e.1, e.2 as nat))
    }

    pub closed spec fn max_bytes(&self) -> nat {
        self.max_bytes as nat
    }

    pub closed spec fn min_frames(&self) -> nat {
        self.min_frames as nat
    }

    /// The running byte count matches the entries, which fit the budget and
    /// list each key once.
    pub closed spec fn wf(&self) -> bool {
        &&& self.bytes == total_bytes(self.entries())
        &&& self.bytes <= self.max_bytes
        &&& keys_distinct(self.entries())
    }

    /// An empty cache of `max_mb` mebibytes that takes sequences of at least
    /// `min_frames` frames.
    pub fn new(max_mb: u32, min_frames: u32) -> (r: FrameCache<V>)
        requires
            max_mb as int * 1024 * 1024 <= usize::MAX,
        ensures
            r.wf(),
            r.entries().len() == 0,
            r.max_bytes() == max_mb as int * 1024 * 1024,
            r.min_frames() == min_frames,
    {
        let r = FrameCache {
            entries: Vec::new(),
            bytes: 0,
            max_bytes: (max_mb as usize) * 1024 * 1024,
            min_frames: min_frames as usize,
        };
        assert(r.entries() =~= Seq::<EntryView<V>>::empty());
        r
    }

    /// Caching is on when the budget is not zero.
    pub fn is_enabled(&self) -> (r: bool)
        ensures
            r == (self.max_bytes() > 0),
    {
        self.max_bytes > 0
    }

    /// Whether a sequence of `frame_count` frames may be cached: caching is
    /// on, the playback loops and the sequence is long enough.
    pub fn eligible(&self, frame_count: usize, looping: bool) -> (r: bool)
        ensures
            r == (self.max_bytes() > 0 && looping && frame_count >= self.min_frames()),
    {
        self.is_enabled() && looping && frame_count >= self.min_frames
    }
    /// The position of the entry with `key`, if there is one.
    fn position(&self, key: &CacheKey) -> (r: Option<usize>)
        ensures
            ({
                let i = index_of(self.entries(), key_view(*key));
                if i < self.entries().len() {
                    r == Some(i as usize)
                } else {
                    r is None
                }
            }),
    {
        proof {
            lemma_index_of(self.entries(), key_view(*key));
        }
        let mut i: usize = 0;
        while i < self.entries.len()
            invariant
                i <= self.entries@.len(),
                self.entries().len() == self.entries@.len(),
                0 <= index_of(self.entries(), key_view(*key)) <= self.entries().len(),
                index_of(self.entries(), key_view(*key)) < self.entries().len() ==> self.entries()[index_of(
                    self.entries(),
                    key_view(*key),
                )].0 == key_view(*key),
                forall|j: int| 0 <= j < index_of(self.entries(), key_view(*key)) ==> #[trigger] self.entries()[j].0 != key_view(*key),
                forall|j: int| 0 <= j < i ==> #[trigger] self.entries()[j].0 != key_view(*key),
            decreases self.entries@.len() - i,
        {
            if same_key(&self.entries[i].0, key) {
                assert(self.entries()[i as int].0 == key_view(*key));
                return Some(i);
            }
            assert(self.entries()[i as int].0 != key_view(*key));
            i = i + 1;
        }
        None
    }

    /// Marks the entry with `key` as the most recently used, returning its
    /// new position (the last) on a hit.
    pub fn touch(&mut self, key: &CacheKey) -> (r: Option<usize>)
        requires
            old(self).wf(),
        ensures
            final(self).wf(),
            final(self).max_bytes() == old(self).max_bytes(),
            final(self).min_frames() == old(self).min_frames(),
            final(self).entries() == after_touch(old(self).entries(), key_view(*key)),
            r == (if index_of(old(self).entries(), key_view(*key)) < old(self).entries().len() {
                Some((old(self).entries().len() - 1) as usize)
            } else {
                None
            }),
    {
        let ghost s0 = self.entries();
        assert(s0.len() == self.entries@.len());
        proof {
            lemma_index_of(s0, key_view(*key));
        }
        match self.position(key) {
            Some(i) => {
                let e = self.entries.remove(i);
                self.entries.push(e);
                let n = self.entries.len();
                proof {
                    assert(self.entries() =~= s0.remove(i as int).push(s0[i as int]));
                    lemma_total_remove(s0, i as int);
                    let s1 = s0.remove(i as int);
                    assert(s1.push(s0[i as int]).drop_last() =~= s1);
                    assert forall|a: int, b: int| 0 <= a < b < self.entries().len() implies #[trigger] self.entries()[a].0
                        != #[trigger] self.entries()[b].0 by {
                        let m = self.entries().len() - 1;
                        let a0 = if a < i { a } else if a < m { a + 1 } else { i as int };
                        let b0 = if b < i { b } else if b < m { b + 1 } else { i as int };
                        assert(self.entries()[a] == s0[a0]);
                        assert(self.entries()[b] == s0[b0]);
                    }
                }
                Some(n - 1)
            },
            None => None,
        }
    }

    /// The value of the entry at `i`.
    pub fn value_at(&self, i: usize) -> (r: &V)
        requires
            i < self.entries().len(),
        ensures
            *r == self.entries()[i as int].1,
    {
        &self.entries[i].1
    }

    /// Looks up the value under `key`; a hit marks the entry as the most
    /// recently used.
    pub fn get(&mut self, key: &CacheKey) -> (r: Option<&V>)
        requires
            old(self).wf(),
        ensures
            final(self).wf(),
            final(self).max_bytes() == old(self).max_bytes(),
            final(self).min_frames() == old(self).min_frames(),
            final(self).entries() == after_touch(old(self).entries(), key_view(*key)),
            match r {
                Some(v) => index_of(old(self).entries(), key_view(*key)) < old(self).entries().len() && *v
                    == old(self).entries()[index_of(old(self).entries(), key_view(*key))].1,
                None => index_of(old(self).entries(), key_view(*key)) >= old(self).entries().len(),
            },
    {
        proof {
            lemma_index_of(self.entries(), key_view(*key));
        }
        let ghost s0 = self.entries();
        let ghost k0 = index_of(s0, key_view(*key));
        let n0: usize = self.entries.len();
        assert(s0.len() == n0);
        match self.touch(key) {
            Some(i) => {
                assert(self.entries() == s0.remove(k0).push(s0[k0]));
                assert(i as int == s0.remove(k0).len());
                assert(self.entries()[i as int] === s0[k0]);
                Some(self.value_at(i))
            },
            None => None,
        }
    }

    /// Inserts `value`, of `bytes`, under `key`: refused (returning false)
    /// when it exceeds the budget on its own; otherwise a previous entry for
    /// the key leaves, the least recently used entries are evicted until it
    /// fits, and it becomes the most recent (see [`after_insert`]).
    pub fn insert(&mut self, key: CacheKey, value: V, bytes: usize) -> (inserted: bool)
        requires
            old(self).wf(),
        ensures
            final(self).wf(),
            final(self).max_bytes() == old(self).max_bytes(),
            final(self).min_frames() == old(self).min_frames(),
            inserted == (bytes <= old(self).max_bytes()),
            inserted ==> index_of(final(self).entries(), key_view(key)) == final(self).entries().len() - 1
                && final(self).entries()[final(self).entries().len() - 1] == (key_view(key), value, bytes as nat),
            final(self).entries() == after_insert(
                old(self).entries(),
                key_view(key),
                value,
                bytes as nat,
                old(self).max_bytes(),
            ),
    {
        if bytes > self.max_bytes {
            return false;
        }
        proof {
            lemma_insert_then_lookup(self.entries(), key_view(key), value, bytes as nat, self.max_bytes());
        }
        let ghost kv = key_view(key);
        let ghost s0 = self.entries();
        let n0: usize = self.entries.len();
        assert(s0.len() == n0);
        proof {
            lemma_index_of(s0, kv);
        }
        match self.position(&key) {
            Some(i) => {
                let old_entry = self.entries.remove(i);
                proof {
                    lemma_total_remove(s0, i as int);
                    assert(self.entries() =~= s0.remove(i as int));
                }
                self.bytes = self.bytes - old_entry.2;
                assert forall|j: int| 0 <= j < self.entries().len() implies #[trigger] self.entries()[j].0 != kv by {
                    let j0 = if j < i { j } else { j + 1 };
                    assert(self.entries()[j] == s0[j0]);
                    if j0 < i {
                        assert(s0[j0].0 != s0[i as int].0);
                    } else {
                        assert(s0[i as int].0 != s0[j0].0);
                    }
                }
                assert forall|a: int, b: int| 0 <= a < b < self.entries().len() implies #[trigger] self.entries()[a].0
                    != #[trigger] self.entries()[b].0 by {
                    let a0 = if a < i { a } else { a + 1 };
                    let b0 = if b < i { b } else { b + 1 };
                    assert(self.entries()[a] == s0[a0]);
                    assert(self.entries()[b] == s0[b0]);
                }
            },
            None => {
                assert(forall|j: int| 0 <= j < self.entries().len() ==> #[trigger] self.entries()[j].0 != kv);
                assert(without(s0, kv) == s0);
            },
        }
        assert(self.entries() == without(s0, kv));
        let ghost target = evict_for(without(s0, kv), bytes as nat, self.max_bytes as nat);
        while self.entries.len() > 0 && self.bytes > self.max_bytes - bytes
            invariant
                bytes <= self.max_bytes,
                self.bytes == total_bytes(self.entries()),
                self.bytes <= self.max_bytes,
                keys_distinct(self.entries()),
                forall|j: int| 0 <= j < self.entries().len() ==> #[trigger] self.entries()[j].0 != kv,
                evict_for(self.entries(), bytes as nat, self.max_bytes as nat) == target,
                self.max_bytes == old(self).max_bytes,
                self.min_frames == old(self).min_frames,
            decreases self.entries@.len(),
        {
            let ghost s = self.entries();
            let e = self.entries.remove(0);
            proof {
                lemma_total_remove(s, 0);
                assert(self.entries() =~= s.remove(0));
                assert(s.remove(0) =~= s.drop_first());
                assert forall|a: int, b: int| 0 <= a < b < self.entries().len() implies #[trigger] self.entries()[a].0
                    != #[trigger] self.entries()[b].0 by {
                    assert(self.entries()[a] == s[a + 1]);
                    assert(self.entries()[b] == s[b + 1]);
                }
                assert forall|j: int| 0 <= j < self.entries().len() implies #[trigger] self.entries()[j].0 != kv by {
                    assert(self.entries()[j] == s[j + 1]);
                }
            }
            self.bytes = self.bytes - e.2;
        }
        let ghost s2 = self.entries();
        self.bytes = self.bytes + bytes;
        self.entries.push((key, value, bytes));
        proof {
            assert(self.entries() =~= s2.push((kv, value, bytes as nat)));
            assert(s2.push((kv, value, bytes as nat)).drop_last() =~= s2);
            assert forall|a: int, b: int| 0 <= a < b < self.entries().len() implies #[trigger] self.entries()[a].0
                != #[trigger] self.entries()[b].0 by {
                if b == s2.len() {
                    assert(self.entries()[a] == s2[a]);
                } else {
                    assert(self.entries()[a] == s2[a]);
                    assert(self.entries()[b] == s2[b]);
                }
            }
        }
        true
    }
}

} // verus!
