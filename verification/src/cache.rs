//! The result cache: a bounded key-to-outcome store with least-recently-used
//! eviction. The model is the sequence of entries in recency order: index 0
//! is the oldest-unused entry, the last index the most recently used one.
//! Every read and every write moves the touched entry to the back; when a
//! fresh key arrives at capacity, the front entry is the one evicted.

use vstd::prelude::*;

use crate::detection::{dup_outcome, Detection, Unrecognized};

verus! {

/// What a classification outcome looks like to the cache.
pub type Stored = Result<Detection, Unrecognized>;

/// The lookup key: the input string together with the auxiliary headers the
/// call supplied. Two calls with the same string but different headers are
/// different keys.
pub struct CacheKey {
    pub ua: String,
    pub headers: Vec<(String, String)>,
}

/// The mathematical view of a key.
pub struct CacheKeyV {
    pub ua: Seq<char>,
    pub headers: Seq<(Seq<char>, Seq<char>)>,
}

impl View for CacheKey {
    type V = CacheKeyV;

    open spec fn view(&self) -> CacheKeyV {
        CacheKeyV {
            ua: self.ua@,
            headers: self.headers@.map_values(|p: (String, String)| (p.0@, p.1@)),
        }
    }
}

/// Decides whether two keys are the same key, at the level of their views.
pub fn key_eq(a: &CacheKey, b: &CacheKey) -> (r: bool)
    ensures
        r == (a@ == b@),
{
    if !(a.ua == b.ua) {
        return false;
    }
    let n = a.headers.len();
    if n != b.headers.len() {
        proof {
            assert(a@.headers.len() != b@.headers.len());
        }
        return false;
    }
    let mut i: usize = 0;
    while i < n
        invariant
            i <= n,
            n == a.headers@.len(),
            n == b.headers@.len(),
            a.ua@ == b.ua@,
            forall|j: int|
                0 <= j < i ==> ((#[trigger] a.headers@[j]).0@ == b.headers@[j].0@
                    && a.headers@[j].1@ == b.headers@[j].1@),
        decreases n - i,
    {
        let pa = &a.headers[i];
        let pb = &b.headers[i];
        let names_eq = pa.0 == pb.0;
        let values_eq = pa.1 == pb.1;
        if !names_eq || !values_eq {
            proof {
                assert(a@.headers[i as int] != b@.headers[i as int]);
            }
            return false;
        }
        proof {
            assert(a.headers@[i as int].0@ == b.headers@[i as int].0@);
            assert(a.headers@[i as int].1@ == b.headers@[i as int].1@);
        }
        i = i + 1;
    }
    proof {
        assert(a@.headers =~= b@.headers);
    }
    true
}

/// Whether the model holds an entry under key `k`.
pub open spec fn has_key(m: Seq<(CacheKeyV, Stored)>, k: CacheKeyV) -> bool {
    exists|i: int| 0 <= i < m.len() && (#[trigger] m[i]).0 == k
}

/// A bounded store with least-recently-used eviction.
pub struct LruCache {
    capacity: usize,
    entries: Vec<(CacheKey, Stored)>,
}

impl LruCache {
    /// The fixed capacity this cache was built with.
    pub closed spec fn cap(&self) -> nat {
        self.capacity as nat
    }

    /// The entries in recency order: oldest-unused first.
    pub closed spec fn model(&self) -> Seq<(CacheKeyV, Stored)> {
        self.entries@.map_values(|e: (CacheKey, Stored)| (e.0@, e.1))
    }

    /// The cache never exceeds its capacity and never holds a key twice.
    pub closed spec fn wf(&self) -> bool {
        &&& self.entries@.len() <= self.capacity
        &&& (forall|i: int, j: int|
            0 <= i < j < self.model().len() ==> (#[trigger] self.model()[i]).0 != (
            #[trigger] self.model()[j]).0)
    }

    /// An empty cache of the given capacity. Capacity zero is allowed: such
    /// a cache stores nothing and every lookup misses.
    pub fn new(capacity: usize) -> (r: LruCache)
        ensures
            r.wf(),
            r.cap() == capacity,
            r.model() == Seq::<(CacheKeyV, Stored)>::empty(),
    {
        let r = LruCache { capacity, entries: Vec::new() };
        proof {
            assert(r.model() =~= Seq::<(CacheKeyV, Stored)>::empty());
        }
        r
    }

    fn index_of(&self, k: &CacheKey) -> (r: Option<usize>)
        ensures
            match r {
                Option::Some(i) => i < self.model().len() && self.model()[i as int].0 == k@,
                Option::None => !has_key(self.model(), k@),
            },
    {
        let n = self.entries.len();
        let mut i: usize = 0;
        while i < n
            invariant
                i <= n,
                n == self.entries@.len(),
                forall|j: int| 0 <= j < i ==> (#[trigger] self.model()[j]).0 != k@,
            decreases n - i,
        {
            if key_eq(&self.entries[i].0, k) {
                proof {
                    assert(self.model()[i as int].0 == k@);
                }
                return Option::Some(i);
            }
            proof {
                assert(self.model()[i as int].0 != k@);
            }
            i = i + 1;
        }
        Option::None
    }

    /// Looks a key up. A hit returns a copy of the stored outcome and
    /// promotes the entry to most-recently-used; a miss changes nothing.
    pub fn get(&mut self, k: &CacheKey) -> (r: Option<Stored>)
        requires
            old(self).wf(),
        ensures
            final(self).wf(),
            final(self).cap() == old(self).cap(),
            match r {
                Option::Some(v) => exists|j: int|
                    0 <= j < old(self).model().len() && (#[trigger] old(self).model()[j]) == (
                    k@,
                    v,
                ) && final(self).model() == old(self).model().remove(j).push((k@, v)),
                Option::None => !has_key(old(self).model(), k@) && final(self).model() == old(
                    self,
                ).model(),
            },
    {
        match self.index_of(k) {
            Option::Some(i) => {
                let ghost m0 = self.model();
                let e = self.entries.remove(i);
                let v = dup_outcome(&e.1);
                self.entries.push(e);
                proof {
                    assert(self.model() =~= m0.remove(i as int).push((k@, v)));
                    assert(m0[i as int] == (k@, v));
                    lemma_promote_keeps_wf(m0, i as int, (k@, v), self.model());
                    assert(0 <= i < m0.len() && m0[i as int] == (k@, v) && self.model()
                        == m0.remove(i as int).push((k@, v)));
                }
                Option::Some(v)
            },
            Option::None => Option::None,
        }
    }

    /// Stores an outcome under a key. A key already present is rewritten and
    /// promoted; a fresh key at capacity evicts the front entry, the least
    /// recently used one; a zero-capacity cache stores nothing.
    pub fn put(&mut self, k: CacheKey, v: Stored)
        requires
            old(self).wf(),
        ensures
            final(self).wf(),
            final(self).cap() == old(self).cap(),
            old(self).cap() == 0 ==> final(self).model() == old(self).model(),
            old(self).cap() > 0 && has_key(old(self).model(), k@) ==> exists|j: int|
                0 <= j < old(self).model().len() && (#[trigger] old(self).model()[j]).0 == k@
                    && final(self).model() == old(self).model().remove(j).push((k@, v)),
            old(self).cap() > 0 && !has_key(old(self).model(), k@) && old(self).model().len() < old(
                self,
            ).cap() ==> final(self).model() == old(self).model().push((k@, v)),
            old(self).cap() > 0 && !has_key(old(self).model(), k@) && old(self).model().len()
                >= old(self).cap() ==> old(self).model().len() == old(self).cap()
                && final(self).model() == old(self).model().drop_first().push((k@, v)),
    {
        if self.capacity == 0 {
            return ;
        }
        let ghost m0 = self.model();
        match self.index_of(&k) {
            Option::Some(i) => {
                let _ = self.entries.remove(i);
                proof {
                    let ghost mr = self.model();
                    assert(mr =~= m0.remove(i as int));
                }
                self.entries.push((k, v));
                proof {
                    assert(self.model() =~= m0.remove(i as int).push((k@, v)));
                    lemma_promote_keeps_wf(m0, i as int, (k@, v), self.model());
                }
            },
            Option::None => {
                if self.entries.len() == self.capacity {
                    let _ = self.entries.remove(0);
                    proof {
                        assert(self.model() =~= m0.drop_first());
                        assert(m0.drop_first() =~= m0.remove(0));
                    }
                    let ghost m1 = self.model();
                    self.entries.push((k, v));
                    proof {
                        assert(self.model() =~= m1.push((k@, v)));
                        lemma_append_fresh_keeps_wf(m1, (k@, v), self.model());
                        assert(forall|j: int|
                            0 <= j < m1.len() ==> (#[trigger] m1[j]) == m0[j + 1]);
                        assert(!has_key(m1, k@));
                        assert(self.model() =~= m0.drop_first().push((k@, v)));
                    }
                } else {
                    self.entries.push((k, v));
                    proof {
                        assert(self.model() =~= m0.push((k@, v)));
                        lemma_append_fresh_keeps_wf(m0, (k@, v), self.model());
                    }
                }
            },
        }
    }

    /// The configured capacity.
    pub fn capacity_value(&self) -> (r: usize)
        ensures
            r == self.cap(),
    {
        self.capacity
    }

    /// How many entries the cache holds now.
    pub fn len(&self) -> (r: usize)
        ensures
            r == self.model().len(),
    {
        self.entries.len()
    }
}

/// Moving one entry of a duplicate-free sequence to the back, rewriting its
/// value under the same key, keeps the keys duplicate-free.
proof fn lemma_promote_keeps_wf(
    m0: Seq<(CacheKeyV, Stored)>,
    i: int,
    e: (CacheKeyV, Stored),
    m1: Seq<(CacheKeyV, Stored)>,
)
    requires
        0 <= i < m0.len(),
        m0[i].0 == e.0,
        m1 == m0.remove(i).push(e),
        forall|x: int, y: int|
            0 <= x < y < m0.len() ==> (#[trigger] m0[x]).0 != (#[trigger] m0[y]).0,
    ensures
        m1.len() == m0.len(),
        forall|x: int, y: int|
            0 <= x < y < m1.len() ==> (#[trigger] m1[x]).0 != (#[trigger] m1[y]).0,
{
    assert forall|x: int, y: int|
        0 <= x < y < m1.len() implies (#[trigger] m1[x]).0 != (#[trigger] m1[y]).0 by {
        let ox = if x < i {
            x
        } else {
            x + 1
        };
        if y < m1.len() - 1 {
            let oy = if y < i {
                y
            } else {
                y + 1
            };
            assert(m1[x] == m0[ox]);
            assert(m1[y] == m0[oy]);
        } else {
            assert(m1[y] == e);
            assert(m1[x] == m0[ox]);
            assert(ox != i);
            assert(m0[ox].0 != m0[i].0);
        }
    }
}

/// Appending an entry under a key the sequence does not hold keeps the keys
/// duplicate-free.
proof fn lemma_append_fresh_keeps_wf(
    m0: Seq<(CacheKeyV, Stored)>,
    e: (CacheKeyV, Stored),
    m1: Seq<(CacheKeyV, Stored)>,
)
    requires
        m1 == m0.push(e),
        !has_key(m0, e.0),
        forall|x: int, y: int|
            0 <= x < y < m0.len() ==> (#[trigger] m0[x]).0 != (#[trigger] m0[y]).0,
    ensures
        m1.len() == m0.len() + 1,
        forall|x: int, y: int|
            0 <= x < y < m1.len() ==> (#[trigger] m1[x]).0 != (#[trigger] m1[y]).0,
{
    assert forall|x: int, y: int|
        0 <= x < y < m1.len() implies (#[trigger] m1[x]).0 != (#[trigger] m1[y]).0 by {
        if y < m1.len() - 1 {
            assert(m1[x] == m0[x]);
            assert(m1[y] == m0[y]);
        } else {
            assert(m1[x] == m0[x]);
            assert(m1[y] == e);
            assert(0 <= x < m0.len() && m0[x].0 == m0[x].0);
        }
    }
}

} // verus!
