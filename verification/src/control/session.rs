//! The streams of one control connection: which stream serves each output
//! the client addressed, and the reverse index, so the connection can
//! cancel them when it drops. A stream started on an output that already
//! has one replaces it, and the old stream is to be cancelled.

use vstd::prelude::*;

use crate::num::decimal;
use crate::num::push_decimal;
use crate::output::ddp::registry::DestAddr;
use crate::output::sink::StreamId;
use crate::text::chars_of;
use crate::text::string_from_chars;

verus! {

/// An output as the client addresses it.
#[derive(Debug, Clone, Copy, PartialEq, Eq, Hash, Structural)]
pub enum ClientKey {
    Ddp { dest: DestAddr, output_id: u8 },
}

/// The id of the `n`-th connection: `ws-` and its number.
pub fn client_id(n: u64) -> (r: String)
    ensures
        r@ == "ws-"@ + decimal(n as nat),
{
    let mut v = chars_of("ws-");
    push_decimal(&mut v, n);
    string_from_chars(&v)
}

/// The reverse index without the entries that point at `key`.
pub open spec fn without_key(ids: Map<StreamId, ClientKey>, key: ClientKey) -> Map<StreamId, ClientKey> {
    Map::new(|s: StreamId| ids.contains_key(s) && ids[s] != key, |s: StreamId| ids[s])
}


/// A list of distinct keys that matches a map has the map's size.
proof fn lemma_len_matches(e: Seq<(ClientKey, StreamId)>, m: Map<ClientKey, StreamId>)
    requires
        forall|i: int, j: int| 0 <= i < j < e.len() ==> #[trigger] e[i].0 != #[trigger] e[j].0,
        forall|i: int| 0 <= i < e.len() ==> #[trigger] m.contains_key(e[i].0) && m[e[i].0] == e[i].1,
        forall|k: ClientKey| #[trigger] m.contains_key(k) ==> exists|i: int| 0 <= i < e.len() && #[trigger] e[i].0 == k,
    ensures
        m.len() == e.len(),
        m.dom().finite(),
    decreases e.len(),
{
    if e.len() == 0 {
        assert(m.dom() =~= Set::<ClientKey>::empty());
    } else {
        let last = e.last();
        let e1 = e.drop_last();
        let m1 = m.remove(last.0);
        assert forall|k: ClientKey| #[trigger] m1.contains_key(k) implies exists|i: int|
            0 <= i < e1.len() && #[trigger] e1[i].0 == k by {
            let i = choose|i: int| 0 <= i < e.len() && #[trigger] e[i].0 == k;
            assert(i != e.len() - 1);
            assert(e1[i].0 == k);
        }
        assert forall|i: int| 0 <= i < e1.len() implies #[trigger] m1.contains_key(e1[i].0) && m1[e1[i].0] == e1[i].1 by {
            assert(e1[i] == e[i]);
            assert(e[i].0 != e[e.len() - 1].0);
        }
        assert forall|i: int, j: int| 0 <= i < j < e1.len() implies #[trigger] e1[i].0 != #[trigger] e1[j].0 by {
            assert(e1[i] == e[i] && e1[j] == e[j]);
        }
        lemma_len_matches(e1, m1);
        assert(m.dom() =~= m1.dom().insert(last.0));
        assert(m.contains_key(e[e.len() - 1].0));
    }
}

/// The streams of a connection.
pub struct SessionStreams {
    streams: Vec<(ClientKey, StreamId)>,
    ids: Vec<(StreamId, ClientKey)>,
    by_key: Ghost<Map<ClientKey, StreamId>>,
    by_id: Ghost<Map<StreamId, ClientKey>>,
}

impl SessionStreams {
    /// The stream serving each output.
    pub closed spec fn streams(&self) -> Map<ClientKey, StreamId> {
        self.by_key@
    }

    /// The output of each stream started on this connection.
    pub closed spec fn stream_ids(&self) -> Map<StreamId, ClientKey> {
        self.by_id@
    }

    /// Each list holds each key once and agrees with its map.
    pub closed spec fn wf(&self) -> bool {
        &&& forall|i: int, j: int|
            0 <= i < j < self.streams@.len() ==> #[trigger] self.streams@[i].0 != #[trigger] self.streams@[j].0
        &&& forall|i: int|
            0 <= i < self.streams@.len() ==> #[trigger] self.by_key@.contains_key(self.streams@[i].0)
                && self.by_key@[self.streams@[i].0] == self.streams@[i].1
        &&& forall|k: ClientKey|
            #[trigger] self.by_key@.contains_key(k) ==> exists|i: int|
                0 <= i < self.streams@.len() && #[trigger] self.streams@[i].0 == k
        &&& forall|i: int, j: int|
            0 <= i < j < self.ids@.len() ==> #[trigger] self.ids@[i].0 != #[trigger] self.ids@[j].0
        &&& forall|i: int|
            0 <= i < self.ids@.len() ==> #[trigger] self.by_id@.contains_key(self.ids@[i].0)
                && self.by_id@[self.ids@[i].0] == self.ids@[i].1
        &&& forall|s: StreamId|
            #[trigger] self.by_id@.contains_key(s) ==> exists|i: int|
                0 <= i < self.ids@.len() && #[trigger] self.ids@[i].0 == s
    }

    /// No streams yet.
    pub fn new() -> (r: SessionStreams)
        ensures
            r.wf(),
            r.streams() == Map::<ClientKey, StreamId>::empty(),
            r.stream_ids() == Map::<StreamId, ClientKey>::empty(),
    {
        SessionStreams { streams: Vec::new(), ids: Vec::new(), by_key: Ghost(Map::empty()), by_id: Ghost(Map::empty()) }
    }

    fn key_position(&self, key: &ClientKey) -> (r: Option<usize>)
        requires
            self.wf(),
        ensures
            r is Some <==> self.streams().contains_key(*key),
            r matches Some(i) ==> i < self.streams@.len() && self.streams@[i as int].0 == *key,
    {
        let mut i: usize = 0;
        while i < self.streams.len()
            invariant
                self.wf(),
                i <= self.streams@.len(),
                forall|j: int| 0 <= j < i ==> #[trigger] self.streams@[j].0 != *key,
            decreases self.streams@.len() - i,
        {
            if self.streams[i].0 == *key {
                assert(self.by_key@.contains_key(self.streams@[i as int].0));
                return Some(i);
            }
            i = i + 1;
        }
        None
    }

    fn id_position(&self, id: StreamId) -> (r: Option<usize>)
        requires
            self.wf(),
        ensures
            r is Some <==> self.stream_ids().contains_key(id),
            r matches Some(i) ==> i < self.ids@.len() && self.ids@[i as int].0 == id,
    {
        let mut i: usize = 0;
        while i < self.ids.len()
            invariant
                self.wf(),
                i <= self.ids@.len(),
                forall|j: int| 0 <= j < i ==> #[trigger] self.ids@[j].0 != id,
            decreases self.ids@.len() - i,
        {
            if self.ids[i].0 == id {
                assert(self.by_id@.contains_key(self.ids@[i as int].0));
                return Some(i);
            }
            i = i + 1;
        }
        None
    }

    /// The stream serving `key`, if any.
    pub fn stream_for(&self, key: &ClientKey) -> (r: Option<StreamId>)
        requires
            self.wf(),
        ensures
            r == (if self.streams().contains_key(*key) {
                Some(self.streams()[*key])
            } else {
                None
            }),
    {
        match self.key_position(key) {
            Some(i) => Some(self.streams[i].1),
            None => None,
        }
    }

    /// Drops the reverse entries that point at `key`.
    fn forget_key(&mut self, key: ClientKey)
        requires
            old(self).wf(),
        ensures
            final(self).wf(),
            final(self).streams() == old(self).streams(),
            final(self).stream_ids() == without_key(old(self).stream_ids(), key),
    {
        let ghost e0 = self.ids@;
        let ghost m0 = self.by_id@;
        let ghost s0 = self.streams@;
        let ghost k0 = self.by_key@;
        let mut kept: Vec<(StreamId, ClientKey)> = Vec::new();
        let mut i: usize = 0;
        while i < self.ids.len()
            invariant
                self.wf(),
                self.ids@ == e0,
                self.by_id@ == m0,
                i <= e0.len(),
                forall|a: int| 0 <= a < kept@.len() ==> #[trigger] kept@[a].1 != key,
                forall|a: int|
                    0 <= a < kept@.len() ==> exists|b: int| 0 <= b < i && #[trigger] e0[b] == #[trigger] kept@[a],
                forall|b: int|
                    0 <= b < i && #[trigger] e0[b].1 != key ==> exists|a: int|
                        0 <= a < kept@.len() && #[trigger] kept@[a] == e0[b],
                forall|a: int, c: int| 0 <= a < c < kept@.len() ==> #[trigger] kept@[a].0 != #[trigger] kept@[c].0,
            decreases e0.len() - i,
        {
            let e = self.ids[i];
            if e.1 != key {
                let ghost before = kept@;
                assert forall|a: int| 0 <= a < before.len() implies #[trigger] before[a].0 != e.0 by {
                    let b = choose|b: int| 0 <= b < i && #[trigger] e0[b] == #[trigger] before[a];
                    assert(b < i);
                }
                kept.push(e);
                assert forall|a: int| 0 <= a < kept@.len() implies exists|b: int|
                    0 <= b < i + 1 && #[trigger] e0[b] == #[trigger] kept@[a] by {
                    if a < before.len() {
                        let b = choose|b: int| 0 <= b < i && #[trigger] e0[b] == #[trigger] before[a];
                        assert(e0[b] == kept@[a]);
                    } else {
                        assert(e0[i as int] == kept@[a]);
                    }
                }
                assert forall|b: int| 0 <= b < i + 1 && #[trigger] e0[b].1 != key implies exists|a: int|
                    0 <= a < kept@.len() && #[trigger] kept@[a] == e0[b] by {
                    if b < i {
                        let a = choose|a: int| 0 <= a < before.len() && #[trigger] before[a] == e0[b];
                        assert(kept@[a] == e0[b]);
                    } else {
                        assert(kept@[before.len() as int] == e0[b]);
                    }
                }
            }
            i = i + 1;
        }
        self.ids = kept;
        self.by_id = Ghost(without_key(m0, key));
        assert forall|a: int| 0 <= a < self.ids@.len() implies #[trigger] self.by_id@.contains_key(self.ids@[a].0)
            && self.by_id@[self.ids@[a].0] == self.ids@[a].1 by {
            let b = choose|b: int| 0 <= b < e0.len() && #[trigger] e0[b] == #[trigger] self.ids@[a];
            assert(m0.contains_key(e0[b].0));
        }
        assert forall|s: StreamId| #[trigger] self.by_id@.contains_key(s) implies exists|a: int|
            0 <= a < self.ids@.len() && #[trigger] self.ids@[a].0 == s by {
            let b = choose|b: int| 0 <= b < e0.len() && #[trigger] e0[b].0 == s;
            assert(m0[e0[b].0] == e0[b].1);
            assert(e0[b].1 != key);
            let a = choose|a: int| 0 <= a < self.ids@.len() && #[trigger] self.ids@[a] == e0[b];
            assert(self.ids@[a].0 == s);
        }
        assert(self.streams@ == s0 && self.by_key@ == k0);
        assert forall|k: ClientKey| #[trigger] self.by_key@.contains_key(k) implies exists|j: int|
            0 <= j < self.streams@.len() && #[trigger] self.streams@[j].0 == k by {
            let j = choose|j: int| 0 <= j < s0.len() && #[trigger] s0[j].0 == k;
            assert(self.streams@[j].0 == k);
        }
    }

    /// Records `id` as the stream serving `key`, in both directions. A
    /// stream that served `key` before is returned, to be cancelled, and
    /// its reverse entries are dropped.
    pub fn attach(&mut self, key: ClientKey, id: StreamId) -> (replaced: Option<StreamId>)
        requires
            old(self).wf(),
        ensures
            final(self).wf(),
            final(self).streams() == old(self).streams().insert(key, id),
            replaced == (if old(self).streams().contains_key(key) {
                Some(old(self).streams()[key])
            } else {
                None
            }),
            final(self).stream_ids() == (if replaced is Some {
                without_key(old(self).stream_ids(), key)
            } else {
                old(self).stream_ids()
            }).insert(id, key),
    {
        let ghost k0 = self.by_key@;
        let replaced = match self.key_position(&key) {
            Some(i) => {
                let prev = self.streams[i].1;
                self.streams.set(i, (key, id));
                self.by_key = Ghost(k0.insert(key, id));
                assert forall|k: ClientKey| #[trigger] self.by_key@.contains_key(k) implies exists|j: int|
                    0 <= j < self.streams@.len() && #[trigger] self.streams@[j].0 == k by {
                    if k != key {
                        let j = choose|j: int| 0 <= j < old(self).streams@.len() && #[trigger] old(self).streams@[j].0 == k;
                        assert(self.streams@[j].0 == k);
                    } else {
                        assert(self.streams@[i as int].0 == k);
                    }
                }
                Some(prev)
            },
            None => {
                let ghost e0 = self.streams@;
                self.streams.push((key, id));
                self.by_key = Ghost(k0.insert(key, id));
                assert forall|k: ClientKey| #[trigger] self.by_key@.contains_key(k) implies exists|j: int|
                    0 <= j < self.streams@.len() && #[trigger] self.streams@[j].0 == k by {
                    if k != key {
                        let j = choose|j: int| 0 <= j < e0.len() && #[trigger] e0[j].0 == k;
                        assert(self.streams@[j].0 == k);
                    } else {
                        assert(self.streams@[e0.len() as int].0 == k);
                    }
                }
                assert forall|a: int, b: int| 0 <= a < b < self.streams@.len() implies #[trigger] self.streams@[a].0
                    != #[trigger] self.streams@[b].0 by {
                    if b == e0.len() {
                        assert(k0.contains_key(e0[a].0));
                    }
                }
                None
            },
        };
        if replaced.is_some() {
            self.forget_key(key);
        }
        let ghost m1 = self.by_id@;
        let ghost s1 = self.streams@;
        let ghost k1 = self.by_key@;
        match self.id_position(id) {
            Some(i) => {
                let ghost e1 = self.ids@;
                self.ids.set(i, (id, key));
                self.by_id = Ghost(m1.insert(id, key));
                assert forall|s: StreamId| #[trigger] self.by_id@.contains_key(s) implies exists|j: int|
                    0 <= j < self.ids@.len() && #[trigger] self.ids@[j].0 == s by {
                    if s != id {
                        assert(m1.contains_key(s));
                        let j = choose|j: int| 0 <= j < e1.len() && #[trigger] e1[j].0 == s;
                        assert(j != i);
                        assert(self.ids@[j].0 == s);
                    } else {
                        assert(self.ids@[i as int].0 == s);
                    }
                }
            },
            None => {
                let ghost e1 = self.ids@;
                self.ids.push((id, key));
                self.by_id = Ghost(m1.insert(id, key));
                assert forall|s: StreamId| #[trigger] self.by_id@.contains_key(s) implies exists|j: int|
                    0 <= j < self.ids@.len() && #[trigger] self.ids@[j].0 == s by {
                    if s != id {
                        let j = choose|j: int| 0 <= j < e1.len() && #[trigger] e1[j].0 == s;
                        assert(self.ids@[j].0 == s);
                    } else {
                        assert(self.ids@[e1.len() as int].0 == s);
                    }
                }
                assert forall|a: int, b: int| 0 <= a < b < self.ids@.len() implies #[trigger] self.ids@[a].0
                    != #[trigger] self.ids@[b].0 by {
                    if b == e1.len() {
                        assert(m1.contains_key(e1[a].0));
                    }
                }
            },
        }
        assert forall|k: ClientKey| #[trigger] self.by_key@.contains_key(k) implies exists|j: int|
            0 <= j < self.streams@.len() && #[trigger] self.streams@[j].0 == k by {
            assert(k1.contains_key(k));
            let j = choose|j: int| 0 <= j < s1.len() && #[trigger] s1[j].0 == k;
            assert(self.streams@[j].0 == k);
        }
        replaced
    }

    /// Forgets the stream serving `key` and returns it, to be cancelled;
    /// the reverse index is left as it is.
    pub fn detach(&mut self, key: &ClientKey) -> (removed: Option<StreamId>)
        requires
            old(self).wf(),
        ensures
            final(self).wf(),
            final(self).streams() == old(self).streams().remove(*key),
            final(self).stream_ids() == old(self).stream_ids(),
            removed == (if old(self).streams().contains_key(*key) {
                Some(old(self).streams()[*key])
            } else {
                None
            }),
    {
        let ghost m0 = self.by_key@;
        let ghost e0 = self.streams@;
        let ghost d0 = self.ids@;
        let ghost n0 = self.by_id@;
        match self.key_position(key) {
            Some(i) => {
                let (_, id) = self.streams.remove(i);
                self.by_key = Ghost(m0.remove(*key));
                assert forall|a: int, b: int| 0 <= a < b < self.streams@.len() implies #[trigger] self.streams@[a].0
                    != #[trigger] self.streams@[b].0 by {
                    let a0 = if a < i { a } else { a + 1 };
                    let b0 = if b < i { b } else { b + 1 };
                    assert(self.streams@[a] == e0[a0]);
                    assert(self.streams@[b] == e0[b0]);
                }
                assert forall|j: int| 0 <= j < self.streams@.len() implies #[trigger] self.by_key@.contains_key(
                    self.streams@[j].0,
                ) && self.by_key@[self.streams@[j].0] == self.streams@[j].1 by {
                    let j0 = if j < i { j } else { j + 1 };
                    assert(self.streams@[j] == e0[j0]);
                    assert(e0[j0].0 != e0[i as int].0);
                    assert(m0.contains_key(e0[j0].0));
                    assert(m0[e0[j0].0] == e0[j0].1);
                }
                assert forall|k: ClientKey| #[trigger] self.by_key@.contains_key(k) implies exists|j: int|
                    0 <= j < self.streams@.len() && #[trigger] self.streams@[j].0 == k by {
                    let j0 = choose|j: int| 0 <= j < e0.len() && #[trigger] e0[j].0 == k;
                    assert(j0 != i);
                    let j = if j0 < i { j0 } else { j0 - 1 };
                    assert(self.streams@[j] == e0[j0]);
                }
                assert forall|s: StreamId| #[trigger] self.by_id@.contains_key(s) implies exists|j: int|
                    0 <= j < self.ids@.len() && #[trigger] self.ids@[j].0 == s by {
                    assert(n0.contains_key(s));
                    let j = choose|j: int| 0 <= j < d0.len() && #[trigger] d0[j].0 == s;
                    assert(self.ids@[j].0 == s);
                }
                Some(id)
            },
            None => None,
        }
    }

    /// Forgets every stream and returns them, to be cancelled when the
    /// connection drops; the reverse index is left as it is.
    #[verifier::spinoff_prover]
    pub fn drain(&mut self) -> (ids: Vec<StreamId>)
        requires
            old(self).wf(),
        ensures
            final(self).wf(),
            final(self).streams() == Map::<ClientKey, StreamId>::empty(),
            final(self).stream_ids() == old(self).stream_ids(),
            ids@.len() == old(self).streams().len(),
            ids@.to_set() == old(self).streams().values(),
    {
        let ghost e0 = self.streams@;
        let ghost m0 = self.by_key@;
        let mut ids: Vec<StreamId> = Vec::new();
        let mut i: usize = 0;
        while i < self.streams.len()
            invariant
                self.streams@ == e0,
                self.by_key@ == m0,
                self.wf(),
                i <= e0.len(),
                ids@.len() == i,
                forall|j: int| 0 <= j < i ==> #[trigger] ids@[j] == e0[j].1,
            decreases e0.len() - i,
        {
            ids.push(self.streams[i].1);
            i = i + 1;
        }
        assert forall|v: StreamId| ids@.to_set().contains(v) <==> #[trigger] m0.values().contains(v) by {
            if ids@.to_set().contains(v) {
                let j = choose|j: int| 0 <= j < ids@.len() && ids@[j] == v;
                assert(m0.contains_key(e0[j].0));
                assert(m0[e0[j].0] == e0[j].1);
            }
            if m0.values().contains(v) {
                let k = choose|k: ClientKey| #[trigger] m0.contains_key(k) && m0[k] == v;
                let j = choose|j: int| 0 <= j < e0.len() && #[trigger] e0[j].0 == k;
                assert(ids@[j] == v);
                assert(ids@.contains(v));
            }
        }
        assert(ids@.to_set() =~= m0.values());
        proof {
            lemma_len_matches(e0, m0);
        }
        let ghost d0 = self.ids@;
        let ghost n0 = self.by_id@;
        self.streams = Vec::new();
        self.by_key = Ghost(Map::empty());
        assert forall|s: StreamId| #[trigger] self.by_id@.contains_key(s) implies exists|j: int|
            0 <= j < self.ids@.len() && #[trigger] self.ids@[j].0 == s by {
            assert(n0.contains_key(s));
            let j = choose|j: int| 0 <= j < d0.len() && #[trigger] d0[j].0 == s;
            assert(self.ids@[j].0 == s);
        }
        ids
    }
}

/// A stream started on an output that already has one takes its place:
/// the output is served by the new stream only.
pub proof fn lemma_restart_replaces(
    streams: Map<ClientKey, StreamId>,
    key: ClientKey,
    older: StreamId,
    newer: StreamId,
)
    ensures
        streams.insert(key, older).insert(key, newer)[key] == newer,
        streams.insert(key, older).insert(key, newer) == streams.insert(key, newer),
{
    assert(streams.insert(key, older).insert(key, newer) =~= streams.insert(key, newer));
}

} // verus!
