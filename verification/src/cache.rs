//! Bounded LRU cache of decoded frames, keyed by (take, frame index).
//! Frames share their pixels, so a cache hit is a pointer clone; the byte
//! cap bounds total decoded-frame memory (about 13 frames at 1440p under
//! 200 MB). Entries are few, so lookups and eviction scan linearly.
use vstd::prelude::*;

use crate::media::VideoFrame;

verus! {

pub const DEFAULT_CAP_BYTES: usize = 209_715_200;

#[derive(Debug, Clone, Copy, PartialEq, Eq, Hash, Structural)]
pub struct FrameKey {
    pub take: u32,
    pub frame: u64,
}

/// What the cache holds for one key: the frame's pixels and format, and
/// when it was last used.
pub ghost struct Cached {
    pub data: Seq<u8>,
    pub width: u32,
    pub height: u32,
    pub pts_ns: u64,
    pub last_used: u64,
}

struct Entry {
    key: FrameKey,
    frame: VideoFrame,
    last_used: u64,
}

pub struct FrameCache {
    entries: Vec<Entry>,
    cap_bytes: usize,
    bytes: usize,
    tick: u64,
}

/// The cached view of a frame used at `tick`.
pub open spec fn cached_of(frame: VideoFrame, tick: u64) -> Cached {
    Cached {
        data: frame.data@,
        width: frame.width,
        height: frame.height,
        pts_ns: frame.pts_ns,
        last_used: tick,
    }
}

/// `g` was in the cache before a store of `key` and is gone after it.
pub open spec fn evicted(before: Map<FrameKey, Cached>, after: Map<FrameKey, Cached>, key: FrameKey, g: FrameKey) -> bool {
    before.contains_key(g) && g != key && !after.contains_key(g)
}

/// `frame` is what `c` says the cache holds.
pub open spec fn shows(frame: VideoFrame, c: Cached) -> bool {
    &&& frame.data@ == c.data
    &&& frame.width == c.width
    &&& frame.height == c.height
    &&& frame.pts_ns == c.pts_ns
}

spec fn entry_view(e: Entry) -> Cached {
    cached_of(e.frame, e.last_used)
}

spec fn total_bytes(entries: Seq<Entry>) -> nat
    decreases entries.len(),
{
    if entries.len() == 0 {
        0
    } else {
        total_bytes(entries.drop_last()) + entries.last().frame.data@.len()
    }
}

spec fn keys_distinct(entries: Seq<Entry>) -> bool {
    forall|i: int, j: int|
        0 <= i < entries.len() && 0 <= j < entries.len() && i != j ==> entries[i].key
            != entries[j].key
}

spec fn has_key(entries: Seq<Entry>, k: FrameKey) -> bool {
    exists|i: int| 0 <= i < entries.len() && entries[i].key == k
}

spec fn map_of(entries: Seq<Entry>) -> Map<FrameKey, Cached> {
    Map::new(
        |k: FrameKey| has_key(entries, k),
        |k: FrameKey|
            entry_view(entries[choose|i: int| 0 <= i < entries.len() && entries[i].key == k]),
    )
}

proof fn lemma_map_of_at(entries: Seq<Entry>, i: int)
    requires
        keys_distinct(entries),
        0 <= i < entries.len(),
    ensures
        map_of(entries).contains_key(entries[i].key),
        map_of(entries)[entries[i].key] == entry_view(entries[i]),
{
    let k = entries[i].key;
    assert(has_key(entries, k));
    let j = choose|j: int| 0 <= j < entries.len() && entries[j].key == k;
    assert(j == i);
}

spec fn uses_distinct(entries: Seq<Entry>) -> bool {
    forall|i: int, j: int|
        0 <= i < entries.len() && 0 <= j < entries.len() && i != j ==> entries[i].last_used
            != entries[j].last_used
}

proof fn lemma_map_of_update(entries: Seq<Entry>, i: int, e: Entry)
    requires
        keys_distinct(entries),
        0 <= i < entries.len(),
        e.key == entries[i].key,
    ensures
        keys_distinct(entries.update(i, e)),
        map_of(entries.update(i, e)) == map_of(entries).insert(e.key, entry_view(e)),
{
    let after = entries.update(i, e);
    assert(keys_distinct(after));
    assert forall|k: FrameKey| #[trigger] has_key(after, k) == has_key(entries, k) by {
        if has_key(entries, k) {
            let j = choose|j: int| 0 <= j < entries.len() && entries[j].key == k;
            assert(after[j].key == k);
        }
        if has_key(after, k) {
            let j = choose|j: int| 0 <= j < after.len() && after[j].key == k;
            assert(entries[j].key == k);
        }
    }
    assert forall|k: FrameKey| #[trigger] has_key(after, k) implies map_of(after)[k] == map_of(
        entries,
    ).insert(e.key, entry_view(e))[k] by {
        let j = choose|j: int| 0 <= j < after.len() && after[j].key == k;
        lemma_map_of_at(after, j);
        lemma_map_of_at(entries, j);
    }
    assert(map_of(after) =~= map_of(entries).insert(e.key, entry_view(e)));
}

proof fn lemma_map_of_push(entries: Seq<Entry>, e: Entry)
    requires
        keys_distinct(entries),
        !has_key(entries, e.key),
    ensures
        keys_distinct(entries.push(e)),
        map_of(entries.push(e)) == map_of(entries).insert(e.key, entry_view(e)),
{
    let after = entries.push(e);
    assert(keys_distinct(after)) by {
        assert forall|i: int, j: int|
            0 <= i < after.len() && 0 <= j < after.len() && i != j implies after[i].key
                != after[j].key by {
            if i == entries.len() {
                assert(entries[j].key != e.key);
            } else if j == entries.len() {
                assert(entries[i].key != e.key);
            }
        }
    }
    assert forall|k: FrameKey| #[trigger] has_key(after, k) == (has_key(entries, k) || k == e.key) by {
        if has_key(entries, k) {
            let j = choose|j: int| 0 <= j < entries.len() && entries[j].key == k;
            assert(after[j].key == k);
        }
        if k == e.key {
            assert(after[entries.len() as int].key == k);
        }
        if has_key(after, k) && k != e.key {
            let j = choose|j: int| 0 <= j < after.len() && after[j].key == k;
            assert(j < entries.len());
            assert(entries[j].key == k);
        }
    }
    assert forall|k: FrameKey| #[trigger] has_key(after, k) implies map_of(after)[k] == map_of(
        entries,
    ).insert(e.key, entry_view(e))[k] by {
        let j = choose|j: int| 0 <= j < after.len() && after[j].key == k;
        lemma_map_of_at(after, j);
        if j < entries.len() {
            lemma_map_of_at(entries, j);
        }
    }
    assert(map_of(after) =~= map_of(entries).insert(e.key, entry_view(e)));
}

proof fn lemma_map_of_remove(entries: Seq<Entry>, i: int)
    requires
        keys_distinct(entries),
        0 <= i < entries.len(),
    ensures
        keys_distinct(entries.remove(i)),
        map_of(entries.remove(i)) == map_of(entries).remove(entries[i].key),
{
    let after = entries.remove(i);
    let gone = entries[i].key;
    assert(keys_distinct(after)) by {
        assert forall|a: int, b: int|
            0 <= a < after.len() && 0 <= b < after.len() && a != b implies after[a].key
                != after[b].key by {
            let a2 = if a < i {
                a
            } else {
                a + 1
            };
            let b2 = if b < i {
                b
            } else {
                b + 1
            };
            assert(after[a] == entries[a2]);
            assert(after[b] == entries[b2]);
        }
    }
    assert forall|k: FrameKey| #[trigger] has_key(after, k) == (has_key(entries, k) && k != gone) by {
        if has_key(entries, k) && k != gone {
            let j = choose|j: int| 0 <= j < entries.len() && entries[j].key == k;
            assert(j != i);
            if j < i {
                assert(after[j].key == k);
            } else {
                assert(after[j - 1].key == k);
            }
        }
        if has_key(after, k) {
            let j = choose|j: int| 0 <= j < after.len() && after[j].key == k;
            let j2 = if j < i {
                j
            } else {
                j + 1
            };
            assert(entries[j2].key == k);
            assert(j2 != i);
        }
    }
    assert forall|k: FrameKey| #[trigger] has_key(after, k) implies map_of(after)[k] == map_of(
        entries,
    )[k] by {
        let j = choose|j: int| 0 <= j < after.len() && after[j].key == k;
        let j2 = if j < i {
            j
        } else {
            j + 1
        };
        assert(after[j] == entries[j2]);
        lemma_map_of_at(after, j);
        lemma_map_of_at(entries, j2);
    }
    assert(map_of(after) =~= map_of(entries).remove(gone));
}

proof fn lemma_total_push(entries: Seq<Entry>, e: Entry)
    ensures
        total_bytes(entries.push(e)) == total_bytes(entries) + e.frame.data@.len(),
{
    assert(entries.push(e).drop_last() =~= entries);
}

proof fn lemma_total_remove(entries: Seq<Entry>, i: int)
    requires
        0 <= i < entries.len(),
    ensures
        total_bytes(entries.remove(i)) + entries[i].frame.data@.len() == total_bytes(entries),
    decreases entries.len(),
{
    if i == entries.len() - 1 {
        assert(entries.remove(i) =~= entries.drop_last());
    } else {
        let front = entries.drop_last();
        lemma_total_remove(front, i);
        assert(entries.remove(i) =~= front.remove(i).push(entries.last()));
        lemma_total_push(front.remove(i), entries.last());
    }
}

proof fn lemma_total_update(entries: Seq<Entry>, i: int, e: Entry)
    requires
        0 <= i < entries.len(),
    ensures
        total_bytes(entries.update(i, e)) + entries[i].frame.data@.len() == total_bytes(entries)
            + e.frame.data@.len(),
{
    lemma_total_remove(entries, i);
    lemma_total_remove(entries.update(i, e), i);
    assert(entries.update(i, e).remove(i) =~= entries.remove(i));
}

/// Bytes of pixel data that the cached frames hold together.
pub open spec fn bytes_of(m: Map<FrameKey, Cached>) -> nat
    decreases m.dom().len(),
    when m.dom().finite()
{
    if m.dom().len() == 0 {
        0
    } else {
        let k = m.dom().choose();
        m[k].data.len() + bytes_of(m.remove(k))
    }
}

/// Counting the bytes of a cache may start from any of its frames.
pub proof fn lemma_bytes_of_remove(m: Map<FrameKey, Cached>, k: FrameKey)
    requires
        m.dom().finite(),
        m.contains_key(k),
    ensures
        bytes_of(m) == m[k].data.len() + bytes_of(m.remove(k)),
    decreases m.dom().len(),
{
    let c = m.dom().choose();
    assert(m.dom().len() != 0);
    if c != k {
        let mc = m.remove(c);
        let mk = m.remove(k);
        assert(mc.dom().len() < m.dom().len());
        lemma_bytes_of_remove(mc, k);
        lemma_bytes_of_remove(mk, c);
        assert(mc.remove(k) =~= mk.remove(c));
    }
}

/// Storing a frame under a key counts its bytes in place of whatever the
/// key held before.
pub proof fn lemma_bytes_of_insert(m: Map<FrameKey, Cached>, k: FrameKey, v: Cached)
    requires
        m.dom().finite(),
    ensures
        m.insert(k, v).dom().finite(),
        bytes_of(m.insert(k, v)) == bytes_of(m.remove(k)) + v.data.len(),
{
    let m2 = m.insert(k, v);
    assert(m2.dom() =~= m.dom().insert(k));
    lemma_bytes_of_remove(m2, k);
    assert(m2.remove(k) =~= m.remove(k));
}

proof fn lemma_total_is_bytes(entries: Seq<Entry>)
    requires
        keys_distinct(entries),
    ensures
        map_of(entries).dom().finite(),
        total_bytes(entries) == bytes_of(map_of(entries)),
    decreases entries.len(),
{
    if entries.len() == 0 {
        assert(map_of(entries).dom() =~= Set::<FrameKey>::empty());
    } else {
        let front = entries.drop_last();
        let e = entries.last();
        assert(keys_distinct(front));
        assert(!has_key(front, e.key)) by {
            if has_key(front, e.key) {
                let j = choose|j: int| 0 <= j < front.len() && front[j].key == e.key;
                assert(entries[j].key == entries[entries.len() - 1].key);
            }
        }
        lemma_total_is_bytes(front);
        lemma_map_of_push(front, e);
        assert(front.push(e) =~= entries);
        let m = map_of(front);
        let m2 = m.insert(e.key, entry_view(e));
        assert(m2.dom() =~= m.dom().insert(e.key));
        lemma_bytes_of_remove(m2, e.key);
        assert(m2.remove(e.key) =~= m);
    }
}

proof fn lemma_held_is_bytes(cache: FrameCache)
    requires
        cache.wf(),
    ensures
        cache@.dom().finite(),
        cache.held_bytes() == bytes_of(cache@),
        bytes_of(cache@) <= cache.cap(),
{
    lemma_total_is_bytes(cache.entries@);
}

impl FrameCache {
    /// The cached frames by key.
    pub closed spec fn view(&self) -> Map<FrameKey, Cached> {
        map_of(self.entries@)
    }

    /// The byte cap the cache was made with.
    pub closed spec fn cap(&self) -> nat {
        self.cap_bytes as nat
    }

    /// Bytes of pixel data currently held.
    pub closed spec fn held_bytes(&self) -> nat {
        self.bytes as nat
    }

    /// The use counter: every lookup and every stored frame advances it.
    pub closed spec fn clock(&self) -> nat {
        self.tick as nat
    }

    /// The cache's invariant: distinct keys, the byte count is the sum of
    /// the held frames and within the cap, and every use lies in the past.
    pub closed spec fn wf(&self) -> bool {
        &&& keys_distinct(self.entries@)
        &&& self.bytes as nat == total_bytes(self.entries@)
        &&& self.bytes <= self.cap_bytes
        &&& self.cap_bytes <= usize::MAX / 2
        &&& forall|i: int|
            0 <= i < self.entries@.len() ==> #[trigger] self.entries@[i].last_used <= self.tick
        &&& uses_distinct(self.entries@)
    }

    /// An empty cache that holds at most `cap_bytes` of pixel data.
    pub fn new(cap_bytes: usize) -> (r: Self)
        requires
            cap_bytes <= usize::MAX / 2,
        ensures
            r.wf(),
            r@ == Map::<FrameKey, Cached>::empty(),
            r.cap() == cap_bytes,
            r.held_bytes() == 0,
            r.held_bytes() == bytes_of(r@),
            r.clock() == 0,
    {
        let r = Self { entries: Vec::new(), cap_bytes, bytes: 0, tick: 0 };
        proof {
            lemma_held_is_bytes(r);
        }
        assert(r@ =~= Map::<FrameKey, Cached>::empty());
        r
    }

    /// The use counter, for callers that must not let it run over.
    pub fn uses(&self) -> (r: u64)
        ensures
            r == self.clock(),
    {
        self.tick
    }

    fn position(&self, key: FrameKey) -> (r: Option<usize>)
        requires
            keys_distinct(self.entries@),
        ensures
            r matches Some(i) ==> i < self.entries@.len() && self.entries@[i as int].key == key,
            r is None ==> !has_key(self.entries@, key),
    {
        let mut i: usize = 0;
        while i < self.entries.len()
            invariant
                i <= self.entries@.len(),
                forall|j: int| 0 <= j < i ==> self.entries@[j].key != key,
            decreases self.entries.len() - i,
        {
            if self.entries[i].key == key {
                return Some(i);
            }
            i = i + 1;
        }
        None
    }

    /// The cached frame for `key`, marking it most recently used.
    #[verifier::spinoff_prover]
    pub fn get(&mut self, key: FrameKey) -> (r: Option<VideoFrame>)
        requires
            old(self).wf(),
            old(self).clock() < u64::MAX,
        ensures
            final(self).wf(),
            final(self).clock() == old(self).clock() + 1,
            final(self).cap() == old(self).cap(),
            final(self).held_bytes() == old(self).held_bytes(),
            final(self).held_bytes() == bytes_of(final(self)@),
            bytes_of(final(self)@) <= final(self).cap(),
            r is Some <==> old(self)@.contains_key(key),
            r matches Some(f) ==> shows(f, old(self)@[key]),
            old(self)@.contains_key(key) ==> final(self)@ == old(self)@.insert(
                key,
                Cached { last_used: final(self).clock() as u64, ..old(self)@[key] },
            ),
            !old(self)@.contains_key(key) ==> final(self)@ == old(self)@,
    {
        self.tick = self.tick + 1;
        let tick = self.tick;
        match self.position(key) {
            Some(i) => {
                let ghost before = self.entries@;
                let frame = self.entries[i].frame.share();
                let entry = Entry { key, frame: self.entries[i].frame.share(), last_used: tick };
                proof {
                    lemma_map_of_at(before, i as int);
                    lemma_total_update(before, i as int, entry);
                    lemma_map_of_update(before, i as int, entry);
                }
                self.entries.set(i, entry);
                proof {
                    let after = self.entries@;
                    assert(after == before.update(i as int, entry));
                    assert(uses_distinct(after)) by {
                        assert forall|a: int, b: int|
                            0 <= a < after.len() && 0 <= b < after.len() && a != b implies after[a].last_used
                                != after[b].last_used by {
                            if a != i && b != i {
                                assert(after[a] == before[a]);
                                assert(after[b] == before[b]);
                            } else if a == i {
                                assert(before[b].last_used <= old(self).tick);
                            } else {
                                assert(before[a].last_used <= old(self).tick);
                            }
                        }
                    }
                    assert(map_of(after) =~= map_of(before).insert(
                        key,
                        Cached { last_used: tick, ..map_of(before)[key] },
                    ));
                }
                proof {
                    lemma_held_is_bytes(*self);
                }
                Some(frame)
            },
            None => {
                proof {
                    lemma_held_is_bytes(*self);
                }
                None
            },
        }
    }

    /// Index of the least recently used entry.
    fn oldest(&self) -> (r: usize)
        requires
            self.entries@.len() > 0,
        ensures
            r < self.entries@.len(),
            forall|j: int|
                0 <= j < self.entries@.len() ==> self.entries@[r as int].last_used
                    <= #[trigger] self.entries@[j].last_used,
    {
        let mut best: usize = 0;
        let mut i: usize = 1;
        while i < self.entries.len()
            invariant
                1 <= i <= self.entries@.len(),
                best < i,
                forall|j: int|
                    0 <= j < i ==> self.entries@[best as int].last_used
                        <= #[trigger] self.entries@[j].last_used,
            decreases self.entries.len() - i,
        {
            if self.entries[i].last_used < self.entries[best].last_used {
                best = i;
            }
            i = i + 1;
        }
        best
    }

    /// Store `frame` under `key` as the most recently used entry, then evict
    /// least recently used entries until the cache is back under its cap. A
    /// frame larger than the whole cap is not stored at all.
    #[verifier::spinoff_prover]
    pub fn insert(&mut self, key: FrameKey, frame: VideoFrame)
        requires
            old(self).wf(),
            old(self).clock() < u64::MAX,
        ensures
            final(self).wf(),
            final(self).cap() == old(self).cap(),
            final(self).held_bytes() == bytes_of(final(self)@),
            bytes_of(final(self)@) <= final(self).cap(),
            frame.data@.len() > old(self).cap() ==> final(self)@ == old(self)@ && final(self).clock()
                == old(self).clock(),
            frame.data@.len() <= old(self).cap() ==> {
                &&& final(self).clock() == old(self).clock() + 1
                &&& bytes_of(old(self)@.insert(key, cached_of(frame, final(self).clock() as u64)))
                    <= old(self).cap() ==> final(self)@ == old(self)@.insert(
                    key,
                    cached_of(frame, final(self).clock() as u64),
                )
                &&& final(self)@.contains_key(key)
                &&& final(self)@[key] == cached_of(frame, final(self).clock() as u64)
                &&& forall|k: FrameKey| #[trigger]
                    final(self)@.contains_key(k) && k != key ==> old(self)@.contains_key(k)
                        && final(self)@[k] == old(self)@[k]
                &&& forall|gone: FrameKey, kept: FrameKey|
                    #![trigger old(self)@.contains_key(gone), final(self)@.contains_key(kept)]
                    old(self)@.contains_key(gone) && gone != key && !final(self)@.contains_key(gone)
                        && final(self)@.contains_key(kept) ==> old(self)@[gone].last_used
                        < final(self)@[kept].last_used
                &&& (exists|g: FrameKey| #[trigger] evicted(old(self)@, final(self)@, key, g))
                    ==> exists|g: FrameKey|
                    #[trigger] evicted(old(self)@, final(self)@, key, g) && final(self).held_bytes()
                        + old(self)@[g].data.len() > final(self).cap() && forall|h: FrameKey|
                        #[trigger] evicted(old(self)@, final(self)@, key, h) ==> old(self)@[h].last_used
                            <= old(self)@[g].last_used
            },
    {
        if frame.byte_len() > self.cap_bytes {
            proof {
                lemma_held_is_bytes(*self);
            }
            return;
        }
        self.tick = self.tick + 1;
        let tick = self.tick;
        let len = frame.byte_len();
        let ghost old_entries = self.entries@;
        let entry = Entry { key, frame, last_used: tick };
        match self.position(key) {
            Some(i) => {
                proof {
                    lemma_total_update(old_entries, i as int, entry);
                    lemma_total_remove(old_entries, i as int);
                    lemma_map_of_update(old_entries, i as int, entry);
                }
                self.bytes = self.bytes - self.entries[i].frame.byte_len() + len;
                self.entries.set(i, entry);
                assert(self.entries@ == old_entries.update(i as int, entry));
            },
            None => {
                proof {
                    lemma_total_push(old_entries, entry);
                    lemma_map_of_push(old_entries, entry);
                }
                self.bytes = self.bytes + len;
                self.entries.push(entry);
            },
        }
        let ghost placed = map_of(self.entries@);
        assert(placed == map_of(old_entries).insert(key, cached_of(entry.frame, tick)));
        proof {
            // The new entry is the unique most recent one.
            assert forall|a: int|
                0 <= a < self.entries@.len() && self.entries@[a].key != key implies #[trigger] self.entries@[a].last_used
                < tick by {
                let e = self.entries@[a];
                assert(has_key(old_entries, e.key)) by {
                    lemma_map_of_at(self.entries@, a);
                }
                let j = choose|j: int| 0 <= j < old_entries.len() && old_entries[j].key == e.key;
                lemma_map_of_at(old_entries, j);
                lemma_map_of_at(self.entries@, a);
            }
            assert(uses_distinct(self.entries@)) by {
                assert forall|a: int, b: int|
                    0 <= a < self.entries@.len() && 0 <= b < self.entries@.len() && a != b implies self.entries@[a].last_used
                        != self.entries@[b].last_used by {
                    let ea = self.entries@[a];
                    let eb = self.entries@[b];
                    if ea.key != key && eb.key != key {
                        lemma_map_of_at(self.entries@, a);
                        lemma_map_of_at(self.entries@, b);
                        let ja = choose|j: int| 0 <= j < old_entries.len() && old_entries[j].key == ea.key;
                        let jb = choose|j: int| 0 <= j < old_entries.len() && old_entries[j].key == eb.key;
                        assert(has_key(old_entries, ea.key));
                        assert(has_key(old_entries, eb.key));
                        lemma_map_of_at(old_entries, ja);
                        lemma_map_of_at(old_entries, jb);
                    }
                }
            }
        }
        let ghost start_bytes = self.bytes;
        proof {
            lemma_total_is_bytes(self.entries@);
        }
        let ghost mut last_gone: Option<FrameKey> = None;
        while self.bytes > self.cap_bytes
            invariant
                last_gone is None ==> self.bytes == start_bytes,
                last_gone is Some ==> start_bytes > self.cap_bytes,
                last_gone is None ==> forall|k: FrameKey| #[trigger]
                    placed.contains_key(k) ==> map_of(self.entries@).contains_key(k),
                last_gone matches Some(g) ==> {
                    &&& placed.contains_key(g)
                    &&& !map_of(self.entries@).contains_key(g)
                    &&& self.bytes + placed[g].data.len() > self.cap_bytes
                    &&& forall|h: FrameKey| #[trigger]
                        placed.contains_key(h) && !map_of(self.entries@).contains_key(h)
                            ==> placed[h].last_used <= placed[g].last_used
                },
                keys_distinct(self.entries@),
                uses_distinct(self.entries@),
                self.bytes as nat == total_bytes(self.entries@),
                self.cap_bytes == old(self).cap_bytes,
                self.cap_bytes <= usize::MAX / 2,
                self.tick == tick,
                len <= self.cap_bytes,
                entry.frame.data@.len() == len,
                map_of(self.entries@).contains_key(key),
                map_of(self.entries@)[key] == cached_of(entry.frame, tick),
                forall|a: int|
                    0 <= a < self.entries@.len() ==> #[trigger] self.entries@[a].last_used <= tick,
                forall|k: FrameKey| #[trigger]
                    map_of(self.entries@).contains_key(k) ==> placed.contains_key(k) && map_of(
                        self.entries@,
                    )[k] == placed[k],
                forall|gone: FrameKey, kept: FrameKey|
                    #![trigger placed.contains_key(gone), map_of(self.entries@).contains_key(kept)]
                    placed.contains_key(gone) && !map_of(self.entries@).contains_key(gone)
                        && map_of(self.entries@).contains_key(kept) ==> placed[gone].last_used
                        < map_of(self.entries@)[kept].last_used,
            decreases self.entries@.len(),
        {
            let ghost before = self.entries@;
            proof {
                assert(has_key(before, key));
                if before.len() == 1 {
                    assert(before[0].key == key);
                    lemma_map_of_at(before, 0);
                    assert(before.drop_last().len() == 0);
                    assert(total_bytes(before.drop_last()) == 0);
                    assert(total_bytes(before) == before[0].frame.data@.len());
                    assert(before[0].frame.data@.len() == len);
                    assert(false);
                }
            }
            let victim = self.oldest();
            proof {
                let k = choose|j: int| 0 <= j < before.len() && before[j].key == key;
                lemma_map_of_at(before, k);
                assert(before.len() >= 2);
                let other = if k == 0 {
                    1int
                } else {
                    0int
                };
                assert(before[other].last_used != before[k].last_used);
                assert(before[victim as int].last_used <= before[other].last_used);
                assert(before[victim as int].key != key);
                lemma_total_remove(before, victim as int);
                lemma_map_of_remove(before, victim as int);
                lemma_map_of_at(before, victim as int);
            }
            let removed = self.entries.remove(victim);
            self.bytes = self.bytes - removed.frame.byte_len();
            proof {
                let after = self.entries@;
                let vk = before[victim as int].key;
                assert(after == before.remove(victim as int));
                assert(map_of(after) == map_of(before).remove(vk));
                assert forall|a: int| 0 <= a < after.len() implies #[trigger] after[a].last_used <= tick by {
                    if a < victim {
                        assert(after[a] == before[a]);
                    } else {
                        assert(after[a] == before[a + 1]);
                    }
                }
                assert(uses_distinct(after)) by {
                    assert forall|a: int, b: int|
                        0 <= a < after.len() && 0 <= b < after.len() && a != b implies after[a].last_used
                            != after[b].last_used by {
                        let a2 = if a < victim {
                            a
                        } else {
                            a + 1
                        };
                        let b2 = if b < victim {
                            b
                        } else {
                            b + 1
                        };
                        assert(after[a] == before[a2]);
                        assert(after[b] == before[b2]);
                    }
                }
                assert forall|gone: FrameKey, kept: FrameKey|
                    #![trigger placed.contains_key(gone), map_of(after).contains_key(kept)]
                    placed.contains_key(gone) && !map_of(after).contains_key(gone)
                        && map_of(after).contains_key(kept) implies placed[gone].last_used
                        < map_of(after)[kept].last_used by {
                    let jk = choose|j: int| 0 <= j < after.len() && after[j].key == kept;
                    let jk2 = if jk < victim {
                        jk
                    } else {
                        jk + 1
                    };
                    assert(after[jk] == before[jk2]);
                    lemma_map_of_at(after, jk);
                    lemma_map_of_at(before, jk2);
                    assert(jk2 != victim);
                    assert(before[victim as int].last_used < before[jk2].last_used);
                    if gone == vk {
                        lemma_map_of_at(before, victim as int);
                    } else {
                        assert(map_of(before).contains_key(vk));
                    }
                }
                lemma_map_of_at(before, victim as int);
                assert(placed[vk] == map_of(before)[vk]);
                assert(placed[vk].data.len() == removed.frame.data@.len());
                assert forall|h: FrameKey| #[trigger]
                    placed.contains_key(h) && !map_of(after).contains_key(h) implies placed[h].last_used
                    <= placed[vk].last_used by {
                    if h != vk {
                        assert(!map_of(before).contains_key(h));
                        assert(map_of(before).contains_key(vk));
                    }
                }
                last_gone = Some(vk);
            }
        }
        proof {
            let fin = map_of(self.entries@);
            lemma_held_is_bytes(*self);
            if start_bytes <= self.cap_bytes {
                assert(last_gone is None);
                assert(fin =~= placed);
            }
            assert forall|gone: FrameKey, kept: FrameKey|
                #![trigger old(self)@.contains_key(gone), fin.contains_key(kept)]
                old(self)@.contains_key(gone) && gone != key && !fin.contains_key(gone)
                    && fin.contains_key(kept) implies old(self)@[gone].last_used
                    < fin[kept].last_used by {
                assert(placed.contains_key(gone));
                assert(placed[gone] == old(self)@[gone]);
            }
            if exists|g: FrameKey| #[trigger] evicted(old(self)@, fin, key, g) {
                let w = choose|g: FrameKey| #[trigger] evicted(old(self)@, fin, key, g);
                assert(placed.contains_key(w));
                let g = last_gone->0;
                assert(g != key);
                assert(evicted(old(self)@, fin, key, g));
                assert forall|h: FrameKey| #[trigger] evicted(old(self)@, fin, key, h) implies old(
                    self,
                )@[h].last_used <= old(self)@[g].last_used by {
                    assert(placed.contains_key(h));
                }
            }
        }
    }
}

/// The cache never holds more pixel data than the cap it was made with: its
/// frames hold `held_bytes` together, and that stays within the cap.
pub proof fn law_cache_within_cap(cache: FrameCache)
    requires
        cache.wf(),
    ensures
        cache@.dom().finite(),
        cache.held_bytes() == bytes_of(cache@),
        bytes_of(cache@) <= cache.cap(),
{
    lemma_held_is_bytes(cache);
}

/// A lookup gives back what a store put there: once `insert` holds `frame`
/// under a key, the frame a `get` of that key returns has the same pixels,
/// size and presentation time.
pub proof fn law_get_returns_what_insert_stored(
    held: Map<FrameKey, Cached>,
    key: FrameKey,
    frame: VideoFrame,
    tick: u64,
    got: VideoFrame,
)
    requires
        held.contains_key(key),
        held[key] == cached_of(frame, tick),
        shows(got, held[key]),
    ensures
        got.data@ == frame.data@,
        got.width == frame.width,
        got.height == frame.height,
        got.pts_ns == frame.pts_ns,
{
}

} // verus!
