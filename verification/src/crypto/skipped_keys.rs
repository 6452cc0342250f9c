//! The skipped-key cache: message keys derived ahead of their message, kept
//! until the message arrives or the cache evicts them, oldest first.

use vstd::prelude::*;

verus! {

/// Names one message of one receive chain.
#[derive(Debug, Clone, Copy, PartialEq, Eq, Hash, Structural)]
pub struct MessageId {
    pub chain_id: u64,
    pub message_number: u64,
}

/// One cached message key.
#[derive(Clone, Copy)]
pub struct SkippedKeyEntry {
    pub id: MessageId,
    pub key: [u8; 32],
}

/// The contents of a cache: identifier and key, oldest entry first.
pub type CacheView = Seq<(MessageId, Seq<u8>)>;

/// Whether the cache holds a key for `id`.
pub open spec fn cache_holds(cache: CacheView, id: MessageId) -> bool {
    exists|i: int| 0 <= i < cache.len() && (#[trigger] cache[i]).0 == id
}

/// The place of the entry for `id`.
pub open spec fn cache_position(cache: CacheView, id: MessageId) -> int {
    choose|i: int| 0 <= i < cache.len() && (#[trigger] cache[i]).0 == id
}

/// The key cached for `id`.
pub open spec fn cache_key(cache: CacheView, id: MessageId) -> Seq<u8> {
    cache[cache_position(cache, id)].1
}

/// The cache without its entry for `id`.
pub open spec fn cache_without(cache: CacheView, id: MessageId) -> CacheView {
    if cache_holds(cache, id) {
        cache.remove(cache_position(cache, id))
    } else {
        cache
    }
}

/// The cache after `(id, key)` was put in: an older entry for `id` leaves,
/// then the oldest entry leaves if the cache is full, then the new entry goes
/// to the end. A cache of capacity zero stays empty.
pub open spec fn cache_with(cache: CacheView, capacity: nat, id: MessageId, key: Seq<u8>)
    -> CacheView {
    let base = cache_without(cache, id);
    if capacity == 0 {
        cache
    } else if base.len() >= capacity {
        base.drop_first().push((id, key))
    } else {
        base.push((id, key))
    }
}

/// No identifier occurs twice, and the cache is within its capacity.
pub open spec fn cache_wf(cache: CacheView, capacity: nat) -> bool {
    &&& cache.len() <= capacity
    &&& forall|i: int, j: int|
        0 <= i < j < cache.len() ==> (#[trigger] cache[i]).0 != (#[trigger] cache[j]).0
}

/// In a well-formed cache, the place of an identifier is the one place where it stands.
pub proof fn lemma_cache_position(cache: CacheView, capacity: nat, id: MessageId, i: int)
    requires
        cache_wf(cache, capacity),
        0 <= i < cache.len(),
        cache[i].0 == id,
    ensures
        cache_holds(cache, id),
        cache_position(cache, id) == i,
        cache_key(cache, id) == cache[i].1,
{
    let p = cache_position(cache, id);
    assert(0 <= p < cache.len() && cache[p].0 == id);
    if p < i {
        assert(cache[p].0 != cache[i].0);
    } else if i < p {
        assert(cache[i].0 != cache[p].0);
    }
}

/// Taking an entry out keeps a cache well formed, and the identifier is gone.
pub proof fn lemma_cache_without_wf(cache: CacheView, capacity: nat, id: MessageId)
    requires
        cache_wf(cache, capacity),
    ensures
        cache_wf(cache_without(cache, id), capacity),
        !cache_holds(cache_without(cache, id), id),
        forall|other: MessageId|
            other != id ==> (cache_holds(cache_without(cache, id), other) <==> cache_holds(
                cache,
                other,
            )),
{
    let out = cache_without(cache, id);
    if cache_holds(cache, id) {
        let p = cache_position(cache, id);
        assert forall|i: int, j: int| 0 <= i < j < out.len() implies (#[trigger] out[i]).0 != (
        #[trigger] out[j]).0 by {
            let oi = if i < p { i } else { i + 1 };
            let oj = if j < p { j } else { j + 1 };
            assert(out[i] == cache[oi]);
            assert(out[j] == cache[oj]);
            assert(cache[oi].0 != cache[oj].0);
        }
        if cache_holds(out, id) {
            let q = cache_position(out, id);
            let oq = if q < p { q } else { q + 1 };
            assert(out[q] == cache[oq]);
            if oq < p {
                assert(cache[oq].0 != cache[p].0);
            } else {
                assert(cache[p].0 != cache[oq].0);
            }
        }
        assert forall|other: MessageId| other != id implies (cache_holds(out, other)
            <==> cache_holds(cache, other)) by {
            if cache_holds(out, other) {
                let q = cache_position(out, other);
                let oq = if q < p { q } else { q + 1 };
                assert(out[q] == cache[oq]);
                assert(cache[oq].0 == other);
            }
            if cache_holds(cache, other) {
                let q = cache_position(cache, other);
                assert(q != p);
                let nq = if q < p { q } else { q - 1 };
                assert(out[nq] == cache[q]);
                assert(out[nq].0 == other);
            }
        }
    }
}

/// Putting an entry in keeps a cache well formed.
pub proof fn lemma_cache_with_wf(cache: CacheView, capacity: nat, id: MessageId, key: Seq<u8>)
    requires
        cache_wf(cache, capacity),
    ensures
        cache_wf(cache_with(cache, capacity, id, key), capacity),
        capacity > 0 ==> cache_holds(cache_with(cache, capacity, id, key), id) && cache_key(
            cache_with(cache, capacity, id, key),
            id,
        ) == key,
{
    let base = cache_without(cache, id);
    let out = cache_with(cache, capacity, id, key);
    lemma_cache_without_wf(cache, capacity, id);
    if capacity > 0 {
        let kept = if base.len() >= capacity {
            base.drop_first()
        } else {
            base
        };
        let shift: int = if base.len() >= capacity {
            1
        } else {
            0
        };
        assert(out == kept.push((id, key)));
        assert forall|i: int| 0 <= i < kept.len() implies (#[trigger] kept[i]) == base[i
            + shift] by {}
        assert forall|i: int, j: int| 0 <= i < j < out.len() implies (#[trigger] out[i]).0 != (
        #[trigger] out[j]).0 by {
            assert(out[i] == kept[i]);
            assert(kept[i] == base[i + shift]);
            if j < kept.len() {
                assert(out[j] == kept[j]);
                assert(kept[j] == base[j + shift]);
                assert(base[i + shift].0 != base[j + shift].0);
            } else {
                assert(out[j] == (id, key));
                assert(base[i + shift].0 != id);
            }
        }
        let last = out.len() - 1;
        assert(out[last] == (id, key));
        lemma_cache_position(out, capacity, id, last);
    }
}

/// Every cached key belongs to an earlier receive chain than `chain_id`, or
/// to that chain and a message no later than `counter`.
pub open spec fn cache_behind(cache: CacheView, chain_id: u64, counter: u64) -> bool {
    forall|i: int|
        0 <= i < cache.len() ==> (#[trigger] cache[i]).0.chain_id < chain_id || (
        cache[i].0.chain_id == chain_id && cache[i].0.message_number <= counter)
}

/// Every entry of a cache that lost one entry was in the cache before.
pub proof fn lemma_cache_without_entries(cache: CacheView, id: MessageId)
    ensures
        forall|i: int|
            0 <= i < cache_without(cache, id).len() ==> cache.contains(
                #[trigger] cache_without(cache, id)[i],
            ),
{
    let out = cache_without(cache, id);
    assert forall|i: int| 0 <= i < out.len() implies cache.contains(#[trigger] out[i]) by {
        if cache_holds(cache, id) {
            let p = cache_position(cache, id);
            let oi = if i < p { i } else { i + 1 };
            assert(out[i] == cache[oi]);
        } else {
            assert(out[i] == cache[i]);
        }
    }
}

/// Every entry of a cache that took one entry in is that entry or was in
/// the cache before.
pub proof fn lemma_cache_with_entries(cache: CacheView, capacity: nat, id: MessageId, key: Seq<u8>)
    ensures
        forall|i: int|
            0 <= i < cache_with(cache, capacity, id, key).len() ==> (#[trigger] cache_with(
                cache,
                capacity,
                id,
                key,
            )[i]) == (id, key) || cache.contains(cache_with(cache, capacity, id, key)[i]),
{
    let out = cache_with(cache, capacity, id, key);
    let base = cache_without(cache, id);
    lemma_cache_without_entries(cache, id);
    assert forall|i: int| 0 <= i < out.len() implies (#[trigger] out[i]) == (id, key)
        || cache.contains(out[i]) by {
        if capacity == 0 {
            assert(out[i] == cache[i]);
        } else if base.len() >= capacity {
            if i < out.len() - 1 {
                assert(out[i] == base[i + 1]);
                assert(cache.contains(base[i + 1]));
            }
        } else {
            if i < out.len() - 1 {
                assert(out[i] == base[i]);
                assert(cache.contains(base[i]));
            }
        }
    }
}

/// A cache that is behind a counter stays behind it when an entry leaves,
/// and when an entry of the same chain at or below the counter comes in.
pub proof fn lemma_cache_behind_kept(
    cache: CacheView,
    capacity: nat,
    chain_id: u64,
    counter: u64,
    id: MessageId,
    key: Seq<u8>,
)
    requires
        cache_behind(cache, chain_id, counter),
    ensures
        cache_behind(cache_without(cache, id), chain_id, counter),
        id.chain_id == chain_id && id.message_number <= counter ==> cache_behind(
            cache_with(cache, capacity, id, key),
            chain_id,
            counter,
        ),
{
    lemma_cache_without_entries(cache, id);
    lemma_cache_with_entries(cache, capacity, id, key);
    let without = cache_without(cache, id);
    assert forall|i: int| 0 <= i < without.len() implies (#[trigger] without[i]).0.chain_id
        < chain_id || (without[i].0.chain_id == chain_id && without[i].0.message_number
        <= counter) by {
        assert(cache.contains(without[i]));
        let j = choose|j: int| 0 <= j < cache.len() && cache[j] == without[i];
        assert(cache[j].0 == without[i].0);
    }
    if id.chain_id == chain_id && id.message_number <= counter {
        let with = cache_with(cache, capacity, id, key);
        assert forall|i: int| 0 <= i < with.len() implies (#[trigger] with[i]).0.chain_id
            < chain_id || (with[i].0.chain_id == chain_id && with[i].0.message_number
            <= counter) by {
            if with[i] != (id, key) {
                assert(cache.contains(with[i]));
                let j = choose|j: int| 0 <= j < cache.len() && cache[j] == with[i];
                assert(cache[j].0 == with[i].0);
            }
        }
    }
}

/// A bounded cache of message keys that were derived before their message came.
pub struct SkippedKeyCache {
    entries: Vec<SkippedKeyEntry>,
    capacity: usize,
}

impl SkippedKeyCache {
    /// What the cache holds, oldest entry first.
    pub closed spec fn view(&self) -> CacheView {
        self.entries@.map_values(|e: SkippedKeyEntry| (e.id, e.key@))
    }

    /// The number of entries the cache may hold.
    pub closed spec fn capacity(&self) -> nat {
        self.capacity as nat
    }

    /// The cache is within its capacity and names no message twice.
    pub open spec fn wf(&self) -> bool {
        cache_wf(self@, self.capacity())
    }

    /// An empty cache for up to `capacity` keys.
    pub fn new(capacity: usize) -> (out: Self)
        ensures
            out.wf(),
            out@ == CacheView::empty(),
            out.capacity() == capacity,
    {
        let out = SkippedKeyCache { entries: Vec::new(), capacity };
        proof {
            assert(out@ =~= CacheView::empty());
        }
        out
    }

    /// The number of cached keys.
    pub fn len(&self) -> (out: usize)
        ensures
            out == self@.len(),
    {
        self.entries.len()
    }

    /// Whether no key is cached.
    pub fn is_empty(&self) -> (out: bool)
        ensures
            out == (self@.len() == 0),
    {
        self.entries.len() == 0
    }

    /// The capacity the cache was made with.
    pub fn max_entries(&self) -> (out: usize)
        ensures
            out == self.capacity(),
    {
        self.capacity
    }

    fn find(&self, id: MessageId) -> (out: Option<usize>)
        requires
            self.wf(),
        ensures
            out is Some <==> cache_holds(self@, id),
            out matches Some(i) ==> i < self@.len() && i == cache_position(self@, id)
                && self.entries@[i as int].id == id,
    {
        let mut i: usize = 0;
        while i < self.entries.len()
            invariant
                self.wf(),
                i <= self.entries@.len(),
                self@.len() == self.entries@.len(),
                forall|j: int| 0 <= j < i ==> (#[trigger] self@[j]).0 != id,
            decreases self.entries@.len() - i,
        {
            if self.entries[i].id == id {
                proof {
                    assert(self@[i as int].0 == id);
                    lemma_cache_position(self@, self.capacity(), id, i as int);
                }
                return Some(i);
            }
            proof {
                assert(self@[i as int].0 == self.entries@[i as int].id);
            }
            i += 1;
        }
        None
    }

    /// Whether a key is cached for `id`.
    pub fn contains(&self, id: MessageId) -> (out: bool)
        requires
            self.wf(),
        ensures
            out == cache_holds(self@, id),
    {
        self.find(id).is_some()
    }

    /// The key cached for `id`, which stays in the cache.
    pub fn get(&self, id: MessageId) -> (out: Option<[u8; 32]>)
        requires
            self.wf(),
        ensures
            out is Some <==> cache_holds(self@, id),
            out matches Some(k) ==> k@ == cache_key(self@, id),
    {
        match self.find(id) {
            Some(i) => {
                let entry = self.entries[i];
                proof {
                    assert(self@[i as int].1 == entry.key@);
                }
                Some(entry.key)
            },
            None => None,
        }
    }

    /// Takes the key cached for `id` out of the cache.
    pub fn take(&mut self, id: MessageId) -> (out: Option<[u8; 32]>)
        requires
            old(self).wf(),
        ensures
            final(self).wf(),
            final(self).capacity() == old(self).capacity(),
            final(self)@ == cache_without(old(self)@, id),
            out is Some <==> cache_holds(old(self)@, id),
            out matches Some(k) ==> k@ == cache_key(old(self)@, id),
    {
        proof {
            lemma_cache_without_wf(self@, self.capacity(), id);
        }
        match self.find(id) {
            Some(i) => {
                let entry = self.entries.remove(i);
                proof {
                    assert(old(self)@[i as int].1 == entry.key@);
                    assert(self@ =~= old(self)@.remove(i as int));
                }
                Some(entry.key)
            },
            None => None,
        }
    }

    /// Puts a key in. An older key for the same message leaves; where the
    /// cache is full, its oldest entry leaves first.
    pub fn insert(&mut self, id: MessageId, key: [u8; 32])
        requires
            old(self).wf(),
        ensures
            final(self).wf(),
            final(self).capacity() == old(self).capacity(),
            final(self)@ == cache_with(old(self)@, old(self).capacity(), id, key@),
    {
        proof {
            lemma_cache_with_wf(self@, self.capacity(), id, key@);
        }
        if self.capacity == 0 {
            return ;
        }
        let _ = self.take(id);
        let ghost base = self@;
        if self.entries.len() >= self.capacity {
            let _ = self.entries.remove(0);
            proof {
                assert(self@ =~= base.drop_first());
            }
        }
        let ghost kept = self@;
        self.entries.push(SkippedKeyEntry { id, key });
        proof {
            assert(self@ =~= kept.push((id, key@)));
        }
    }

    /// Empties the cache.
    pub fn clear(&mut self)
        ensures
            final(self).wf(),
            final(self).capacity() == old(self).capacity(),
            final(self)@ == CacheView::empty(),
    {
        self.entries.clear();
        proof {
            assert(self@ =~= CacheView::empty());
        }
    }

    /// The cached entries, oldest first.
    pub fn entries(&self) -> (out: Vec<SkippedKeyEntry>)
        ensures
            out@.map_values(|e: SkippedKeyEntry| (e.id, e.key@)) == self@,
    {
        let mut out: Vec<SkippedKeyEntry> = Vec::new();
        let mut i: usize = 0;
        while i < self.entries.len()
            invariant
                i <= self.entries@.len(),
                out@ == self.entries@.subrange(0, i as int),
            decreases self.entries@.len() - i,
        {
            out.push(self.entries[i]);
            i += 1;
            proof {
                assert(out@ =~= self.entries@.subrange(0, i as int));
            }
        }
        proof {
            assert(out@ =~= self.entries@);
        }
        out
    }
}

/// The contents of a list of entries.
pub open spec fn entries_view(entries: Seq<SkippedKeyEntry>) -> CacheView {
    entries.map_values(|e: SkippedKeyEntry| (e.id, e.key@))
}

impl SkippedKeyCache {
    /// A cache of the capacity handed in that holds the entries handed in,
    /// oldest first. Refused where the entries are more than the capacity
    /// or name a message twice.
    pub fn from_entries(entries: Vec<SkippedKeyEntry>, capacity: usize) -> (out: Option<Self>)
        ensures
            out is Some <==> cache_wf(entries_view(entries@), capacity as nat),
            out matches Some(cache) ==> cache.wf() && cache@ == entries_view(entries@)
                && cache.capacity() == capacity,
    {
        let ghost view = entries_view(entries@);
        if entries.len() > capacity {
            return None;
        }
        let mut j: usize = 0;
        while j < entries.len()
            invariant
                j <= entries@.len(),
                view == entries_view(entries@),
                forall|a: int, b: int|
                    0 <= a < b < j ==> (#[trigger] view[a]).0 != (#[trigger] view[b]).0,
            decreases entries@.len() - j,
        {
            let mut i: usize = 0;
            while i < j
                invariant
                    i <= j < entries@.len(),
                    view == entries_view(entries@),
                    forall|a: int| 0 <= a < i ==> (#[trigger] view[a]).0 != view[j as int].0,
                decreases j - i,
            {
                if entries[i].id == entries[j].id {
                    proof {
                        assert(view[i as int].0 == view[j as int].0);
                    }
                    return None;
                }
                i += 1;
            }
            j += 1;
        }
        Some(SkippedKeyCache { entries, capacity })
    }
}

} // verus!
