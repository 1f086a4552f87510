//! The DDP collision registry: at most one active stream per display
//! address and output id. Reserving a taken key displaces its holder, whose
//! stream is then cancelled; a release only frees the key while the
//! releasing stream still holds it.

use vstd::prelude::*;

use crate::output::sink::StreamId;

verus! {

/// The network address of a display, by its numeric value.
#[derive(Debug, Clone, Copy, PartialEq, Eq, Hash, Structural)]
pub enum DestAddr {
    V4(u32),
    V6(u128),
}

/// One display output: its address and the DDP output id.
#[derive(Debug, Clone, Copy, PartialEq, Eq, Hash, Structural)]
pub struct DdpKey {
    pub dest: DestAddr,
    pub output_id: u8,
}

/// A granted reservation: the key and the stream that holds it.
#[derive(Debug, Clone, Copy, PartialEq, Eq, Structural)]
pub struct DdpReservation {
    pub(crate) key: DdpKey,
    pub(crate) stream_id: StreamId,
}

impl DdpReservation {
    /// The reservation of `key` granted to `stream_id`.
    pub fn new(key: DdpKey, stream_id: StreamId) -> (r: DdpReservation)
        ensures
            r.spec_key() == key,
            r.spec_stream_id() == stream_id,
    {
        DdpReservation { key, stream_id }
    }

    pub closed spec fn spec_key(&self) -> DdpKey {
        self.key
    }

    pub closed spec fn spec_stream_id(&self) -> StreamId {
        self.stream_id
    }

    pub fn key(&self) -> (r: DdpKey)
        ensures
            r == self.spec_key(),
    {
        self.key
    }

    pub fn stream_id(&self) -> (r: StreamId)
        ensures
            r == self.spec_stream_id(),
    {
        self.stream_id
    }
}

/// The holders after `stream_id` reserves `key`: it holds `key` from now on,
/// whoever held it before.
pub open spec fn after_reserve(m: Map<DdpKey, StreamId>, key: DdpKey, stream_id: StreamId) -> Map<
    DdpKey,
    StreamId,
> {
    m.insert(key, stream_id)
}

/// Whether a release of `key` by `stream_id` frees the key: only while that
/// stream still holds it.
pub open spec fn release_applies(m: Map<DdpKey, StreamId>, key: DdpKey, stream_id: StreamId) -> bool {
    m.contains_key(key) && m[key] == stream_id
}

/// The holders after `stream_id` releases `key`.
pub open spec fn after_release(m: Map<DdpKey, StreamId>, key: DdpKey, stream_id: StreamId) -> Map<
    DdpKey,
    StreamId,
> {
    if release_applies(m, key, stream_id) {
        m.remove(key)
    } else {
        m
    }
}

/// The table of held keys, owned by the registry's task.
pub struct RegistryTable {
    entries: Vec<(DdpKey, StreamId)>,
    holders: Ghost<Map<DdpKey, StreamId>>,
}

impl View for RegistryTable {
    type V = Map<DdpKey, StreamId>;

    closed spec fn view(&self) -> Map<DdpKey, StreamId> {
        self.holders@
    }
}

impl RegistryTable {
    /// The entries list each held key once, with its holder.
    pub closed spec fn wf(&self) -> bool {
        &&& forall|i: int, j: int|
            0 <= i < j < self.entries@.len() ==> #[trigger] self.entries@[i].0 != #[trigger] self.entries@[j].0
        &&& forall|i: int|
            0 <= i < self.entries@.len() ==> #[trigger] self.holders@.contains_key(self.entries@[i].0)
                && self.holders@[self.entries@[i].0] == self.entries@[i].1
        &&& forall|k: DdpKey|
            #[trigger] self.holders@.contains_key(k) ==> exists|i: int|
                0 <= i < self.entries@.len() && #[trigger] self.entries@[i].0 == k
    }

    /// A table in which no key is held.
    pub fn new() -> (r: RegistryTable)
        ensures
            r.wf(),
            r@ == Map::<DdpKey, StreamId>::empty(),
    {
        RegistryTable { entries: Vec::new(), holders: Ghost(Map::empty()) }
    }

    /// The position of `key` in the entries, if it is held.
    fn position(&self, key: &DdpKey) -> (r: Option<usize>)
        requires
            self.wf(),
        ensures
            r is Some <==> self@.contains_key(*key),
            r matches Some(i) ==> i < self.entries@.len() && self.entries@[i as int].0 == *key,
    {
        let mut i: usize = 0;
        while i < self.entries.len()
            invariant
                self.wf(),
                i <= self.entries@.len(),
                forall|j: int| 0 <= j < i ==> #[trigger] self.entries@[j].0 != *key,
            decreases self.entries@.len() - i,
        {
            if self.entries[i].0 == *key {
                assert(self.holders@.contains_key(self.entries@[i as int].0));
                return Some(i);
            }
            i = i + 1;
        }
        None
    }

    /// The stream that holds `key`, if any.
    pub fn holder(&self, key: &DdpKey) -> (r: Option<StreamId>)
        requires
            self.wf(),
        ensures
            r == (if self@.contains_key(*key) {
                Some(self@[*key])
            } else {
                None
            }),
    {
        match self.position(key) {
            Some(i) => Some(self.entries[i].1),
            None => None,
        }
    }

    /// Grants `key` to `stream_id`, returning the stream it displaces (whose
    /// stream is to be cancelled) if the key was held.
    #[verifier::spinoff_prover]
    pub fn reserve(&mut self, key: DdpKey, stream_id: StreamId) -> (displaced: Option<StreamId>)
        requires
            old(self).wf(),
        ensures
            final(self).wf(),
            final(self)@ == after_reserve(old(self)@, key, stream_id),
            displaced == (if old(self)@.contains_key(key) {
                Some(old(self)@[key])
            } else {
                None
            }),
    {
        let ghost m0 = self.holders@;
        match self.position(&key) {
            Some(i) => {
                let prev = self.entries[i].1;
                self.entries.set(i, (key, stream_id));
                self.holders = Ghost(m0.insert(key, stream_id));
                assert forall|k: DdpKey| #[trigger] self.holders@.contains_key(k) implies exists|j: int|
                    0 <= j < self.entries@.len() && #[trigger] self.entries@[j].0 == k by {
                    if k != key {
                        let j = choose|j: int| 0 <= j < self.entries@.len() && #[trigger] old(self).entries@[j].0 == k;
                        assert(self.entries@[j].0 == k);
                    } else {
                        assert(self.entries@[i as int].0 == k);
                    }
                }
                Some(prev)
            },
            None => {
                let ghost e0 = self.entries@;
                self.entries.push((key, stream_id));
                self.holders = Ghost(m0.insert(key, stream_id));
                assert forall|k: DdpKey| #[trigger] self.holders@.contains_key(k) implies exists|j: int|
                    0 <= j < self.entries@.len() && #[trigger] self.entries@[j].0 == k by {
                    if k != key {
                        let j = choose|j: int| 0 <= j < e0.len() && #[trigger] e0[j].0 == k;
                        assert(self.entries@[j].0 == k);
                    } else {
                        assert(self.entries@[e0.len() as int].0 == k);
                    }
                }
                assert forall|a: int, b: int| 0 <= a < b < self.entries@.len() implies #[trigger] self.entries@[a].0
                    != #[trigger] self.entries@[b].0 by {
                    if b == e0.len() {
                        assert(m0.contains_key(e0[a].0));
                    }
                }
                None
            },
        }
    }

    /// Frees `key` if `stream_id` still holds it; a stream displaced earlier
    /// leaves the new holder in place. Returns whether the key was freed.
    #[verifier::spinoff_prover]
    pub fn release(&mut self, key: DdpKey, stream_id: StreamId) -> (released: bool)
        requires
            old(self).wf(),
        ensures
            final(self).wf(),
            released == release_applies(old(self)@, key, stream_id),
            final(self)@ == after_release(old(self)@, key, stream_id),
    {
        let ghost m0 = self.holders@;
        let ghost e0 = self.entries@;
        match self.position(&key) {
            Some(i) => {
                if self.entries[i].1 == stream_id {
                    self.entries.remove(i);
                    self.holders = Ghost(m0.remove(key));
                    assert forall|a: int, b: int| 0 <= a < b < self.entries@.len() implies #[trigger] self.entries@[a].0
                        != #[trigger] self.entries@[b].0 by {
                        let a0 = if a < i { a } else { a + 1 };
                        let b0 = if b < i { b } else { b + 1 };
                        assert(self.entries@[a] == e0[a0]);
                        assert(self.entries@[b] == e0[b0]);
                    }
                    assert forall|j: int| 0 <= j < self.entries@.len() implies #[trigger] self.holders@.contains_key(
                        self.entries@[j].0,
                    ) && self.holders@[self.entries@[j].0] == self.entries@[j].1 by {
                        let j0 = if j < i { j } else { j + 1 };
                        assert(self.entries@[j] == e0[j0]);
                        assert(e0[j0].0 != e0[i as int].0);
                        assert(m0.contains_key(e0[j0].0));
                        assert(m0[e0[j0].0] == e0[j0].1);
                        assert(self.holders@.contains_key(e0[j0].0));
                        assert(self.holders@[e0[j0].0] == e0[j0].1);
                    }
                    assert forall|k: DdpKey| #[trigger] self.holders@.contains_key(k) implies exists|j: int|
                        0 <= j < self.entries@.len() && #[trigger] self.entries@[j].0 == k by {
                        let j0 = choose|j: int| 0 <= j < e0.len() && #[trigger] e0[j].0 == k;
                        assert(j0 != i);
                        let j = if j0 < i { j0 } else { j0 - 1 };
                        assert(self.entries@[j] == e0[j0]);
                    }
                    true
                } else {
                    false
                }
            },
            None => false,
        }
    }
}

/// A stream displaced from a key cannot free it: once `newer` has reserved
/// `key`, a release by any other stream leaves `newer` holding it.
pub proof fn lemma_displaced_release_keeps_holder(
    m: Map<DdpKey, StreamId>,
    key: DdpKey,
    older: StreamId,
    newer: StreamId,
)
    requires
        older != newer,
    ensures
        after_release(after_reserve(m, key, newer), key, older) == after_reserve(m, key, newer),
        after_release(after_reserve(m, key, newer), key, older)[key] == newer,
{
}

/// Reserving then releasing by the same stream frees the key and leaves the
/// other keys as they were.
pub proof fn lemma_reserve_then_release(m: Map<DdpKey, StreamId>, key: DdpKey, s: StreamId)
    ensures
        after_release(after_reserve(m, key, s), key, s) == m.remove(key),
{
    assert(after_release(after_reserve(m, key, s), key, s) =~= m.remove(key));
}

/// Keys that differ do not displace each other: reserving one leaves the
/// holder of the other in place.
pub proof fn lemma_distinct_keys_coexist(
    m: Map<DdpKey, StreamId>,
    k1: DdpKey,
    k2: DdpKey,
    s1: StreamId,
    s2: StreamId,
)
    requires
        k1 != k2,
    ensures
        after_reserve(after_reserve(m, k1, s1), k2, s2).contains_key(k1),
        after_reserve(after_reserve(m, k1, s1), k2, s2)[k1] == s1,
        after_reserve(after_reserve(m, k1, s1), k2, s2)[k2] == s2,
{
}

} // verus!
