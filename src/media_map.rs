use vstd::prelude::*;
use vstd::string::StringExecFns;

use crate::media::texts;
use crate::text::same_text;

verus! {

/// A cache of media durations by path, bounded by `limit`: when full, the
/// entry inserted longest ago makes room (first in, first out).
///
/// `queue` keeps the keys in the order in which they were inserted; it is
/// what eviction follows.
pub struct MediaMap<V> {
    entries: Vec<(String, V)>,
    queue: Vec<String>,
    limit: usize,
}

/// What a `MediaMap` holds: its entries, its eviction queue and its bound.
pub struct MediaMapView<V> {
    pub data: Map<Seq<char>, V>,
    pub queue: Seq<Seq<char>>,
    pub limit: nat,
}

/// No key occurs twice among the entries.
pub open spec fn keys_unique<V>(e: Seq<(String, V)>) -> bool {
    forall|i: int, j: int| 0 <= i < j < e.len() ==> (#[trigger] e[i]).0@ != (#[trigger] e[j]).0@
}

/// The map that a sequence of entries stands for.
pub open spec fn entries_map<V>(e: Seq<(String, V)>) -> Map<Seq<char>, V>
    decreases e.len(),
{
    if e.len() == 0 {
        Map::empty()
    } else {
        entries_map(e.drop_last()).insert(e.last().0@, e.last().1)
    }
}

/// The first position of `k` in `q`.
pub open spec fn position(q: Seq<Seq<char>>, k: Seq<char>) -> Option<int>
    decreases q.len(),
{
    if q.len() == 0 {
        None
    } else if q[0] == k {
        Some(0)
    } else {
        match position(q.drop_first(), k) {
            Some(i) => Some(i + 1),
            None => None,
        }
    }
}

/// `q` without the first occurrence of `k`.
pub open spec fn without_first(q: Seq<Seq<char>>, k: Seq<char>) -> Seq<Seq<char>> {
    match position(q, k) {
        Some(i) => q.remove(i),
        None => q,
    }
}

/// The cache after `add_obj(key, value)`: when it holds `limit` entries or
/// more, the oldest queued key is dropped first.
pub open spec fn add_spec<V>(m: MediaMapView<V>, key: Seq<char>, value: V) -> MediaMapView<V> {
    let full = m.data.len() >= m.limit && m.queue.len() > 0;
    let data = if full {
        m.data.remove(m.queue[0])
    } else {
        m.data
    };
    let queue = if full {
        m.queue.drop_first()
    } else {
        m.queue
    };
    MediaMapView { data: data.insert(key, value), queue: queue.push(key), limit: m.limit }
}

/// The cache after `remove_obj(key)`.
pub open spec fn remove_spec<V>(m: MediaMapView<V>, key: Seq<char>) -> MediaMapView<V> {
    MediaMapView { data: m.data.remove(key), queue: without_first(m.queue, key), limit: m.limit }
}

/// The cache after `update_obj(old_key, new_key)`: an entry under `old_key`
/// moves to `new_key`, taking the old key's place in the queue; where the
/// old key is not queued, the new key is queued last, after dropping the
/// oldest key if the queue is full.
pub open spec fn update_spec<V>(m: MediaMapView<V>, old_key: Seq<char>, new_key: Seq<char>) -> MediaMapView<V> {
    if m.data.contains_key(old_key) {
        let value = m.data[old_key];
        let data = m.data.remove(old_key);
        match position(m.queue, old_key) {
            Some(i) => MediaMapView {
                data: data.insert(new_key, value),
                queue: m.queue.update(i, new_key),
                limit: m.limit,
            },
            None => if m.queue.len() >= m.limit && m.queue.len() > 0 {
                MediaMapView {
                    data: data.remove(m.queue[0]).insert(new_key, value),
                    queue: m.queue.drop_first().push(new_key),
                    limit: m.limit,
                }
            } else {
                MediaMapView {
                    data: data.insert(new_key, value),
                    queue: m.queue.push(new_key),
                    limit: m.limit,
                }
            },
        }
    } else {
        m
    }
}

proof fn lemma_map_dom<V>(e: Seq<(String, V)>, k: Seq<char>)
    ensures
        entries_map(e).contains_key(k) <==> exists|i: int| 0 <= i < e.len() && (#[trigger] e[i]).0@ == k,
        entries_map(e).dom().finite(),
    decreases e.len(),
{
    if e.len() > 0 {
        lemma_map_dom(e.drop_last(), k);
        if entries_map(e.drop_last()).contains_key(k) {
            let i = choose|i: int| 0 <= i < e.drop_last().len() && (#[trigger] e.drop_last()[i]).0@ == k;
            assert(e[i] == e.drop_last()[i]);
        }
        if exists|i: int| 0 <= i < e.len() && (#[trigger] e[i]).0@ == k {
            let i = choose|i: int| 0 <= i < e.len() && (#[trigger] e[i]).0@ == k;
            if i < e.len() - 1 {
                assert(e.drop_last()[i] == e[i]);
            }
        }
    }
}

proof fn lemma_map_value<V>(e: Seq<(String, V)>, i: int)
    requires
        keys_unique(e),
        0 <= i < e.len(),
    ensures
        entries_map(e).contains_key(e[i].0@),
        entries_map(e)[e[i].0@] == e[i].1,
    decreases e.len(),
{
    if i < e.len() - 1 {
        let d = e.drop_last();
        assert(d[i] == e[i]);
        assert forall|a: int, b: int| 0 <= a < b < d.len() implies (#[trigger] d[a]).0@ != (
        #[trigger] d[b]).0@ by {
            assert(d[a] == e[a] && d[b] == e[b]);
        }
        lemma_map_value(d, i);
        assert(e[i].0@ != e[e.len() - 1].0@);
    }
}

proof fn lemma_unique_prefix<V>(e: Seq<(String, V)>)
    requires
        keys_unique(e),
        e.len() > 0,
    ensures
        keys_unique(e.drop_last()),
        !entries_map(e.drop_last()).contains_key(e.last().0@),
{
    let d = e.drop_last();
    assert forall|a: int, b: int| 0 <= a < b < d.len() implies (#[trigger] d[a]).0@ != (
    #[trigger] d[b]).0@ by {
        assert(d[a] == e[a] && d[b] == e[b]);
    }
    lemma_map_dom(d, e.last().0@);
    if exists|i: int| 0 <= i < d.len() && (#[trigger] d[i]).0@ == e.last().0@ {
        let i = choose|i: int| 0 <= i < d.len() && (#[trigger] d[i]).0@ == e.last().0@;
        assert(d[i] == e[i]);
    }
}

proof fn lemma_map_len<V>(e: Seq<(String, V)>)
    requires
        keys_unique(e),
    ensures
        entries_map(e).len() == e.len(),
    decreases e.len(),
{
    if e.len() > 0 {
        lemma_unique_prefix(e);
        lemma_map_len(e.drop_last());
        lemma_map_dom(e.drop_last(), e.last().0@);
    }
}

proof fn lemma_map_remove<V>(e: Seq<(String, V)>, i: int)
    requires
        keys_unique(e),
        0 <= i < e.len(),
    ensures
        keys_unique(e.remove(i)),
        entries_map(e.remove(i)) == entries_map(e).remove(e[i].0@),
    decreases e.len(),
{
    let r = e.remove(i);
    assert forall|a: int, b: int| 0 <= a < b < r.len() implies (#[trigger] r[a]).0@ != (
    #[trigger] r[b]).0@ by {
        let a2 = if a < i { a } else { a + 1 };
        let b2 = if b < i { b } else { b + 1 };
        assert(r[a] == e[a2] && r[b] == e[b2]);
    }
    lemma_unique_prefix(e);
    let d = e.drop_last();
    if i == e.len() - 1 {
        assert(r =~= d);
        assert(entries_map(r) =~= entries_map(e).remove(e[i].0@));
    } else {
        assert(r.drop_last() =~= d.remove(i));
        assert(r.last() == e.last());
        assert(d[i] == e[i]);
        lemma_map_remove(d, i);
        assert(e[i].0@ != e.last().0@);
        assert(entries_map(r) =~= entries_map(e).remove(e[i].0@));
    }
}

proof fn lemma_position<V>(q: Seq<Seq<char>>, k: Seq<char>, i: int)
    requires
        0 <= i <= q.len(),
        forall|j: int| 0 <= j < i ==> q[j] != k,
    ensures
        i < q.len() && q[i] == k ==> position(q, k) == Some(i),
        i == q.len() ==> position(q, k) is None,
    decreases q.len(),
{
    if q.len() > 0 && i > 0 {
        assert forall|j: int| 0 <= j < i - 1 implies q.drop_first()[j] != k by {
            assert(q.drop_first()[j] == q[j + 1]);
        }
        lemma_position::<V>(q.drop_first(), k, i - 1);
        assert(q[0] != k);
    }
}

impl<V> View for MediaMap<V> {
    type V = MediaMapView<V>;

    closed spec fn view(&self) -> MediaMapView<V> {
        MediaMapView {
            data: entries_map(self.entries@),
            queue: texts(self.queue@),
            limit: self.limit as nat,
        }
    }
}

impl<V: Copy> MediaMap<V> {
    /// The well-formedness of the cache: each key is held once.
    pub closed spec fn wf(&self) -> bool {
        keys_unique(self.entries@)
    }

    /// An empty cache bounded by `limit`.
    pub fn create(limit: usize) -> (r: Self)
        ensures
            r.wf(),
            r@.data == Map::<Seq<char>, V>::empty(),
            r@.queue == Seq::<Seq<char>>::empty(),
            r@.limit == limit,
    {
        let r = MediaMap { entries: Vec::new(), queue: Vec::new(), limit };
        assert(texts(r.queue@) =~= Seq::<Seq<char>>::empty());
        r
    }

    /// The index of the entry under `key`.
    fn find_entry(&self, key: &str) -> (r: Option<usize>)
        requires
            self.wf(),
        ensures
            match r {
                Some(i) => i < self.entries@.len() && self.entries@[i as int].0@ == key@,
                None => !self@.data.contains_key(key@),
            },
    {
        let mut i: usize = 0;
        while i < self.entries.len()
            invariant
                0 <= i <= self.entries@.len(),
                forall|j: int| 0 <= j < i ==> (#[trigger] self.entries@[j]).0@ != key@,
            decreases self.entries.len() - i,
        {
            if same_text(self.entries[i].0.as_str(), key) {
                return Some(i);
            }
            i = i + 1;
        }
        proof {
            lemma_map_dom(self.entries@, key@);
        }
        None
    }

    /// The first position of `key` in the queue.
    fn find_queued(&self, key: &str) -> (r: Option<usize>)
        ensures
            match r {
                Some(i) => i < self.queue@.len() && position(self@.queue, key@) == Some(i as int),
                None => position(self@.queue, key@) is None,
            },
    {
        let ghost q = self@.queue;
        let mut i: usize = 0;
        while i < self.queue.len()
            invariant
                0 <= i <= self.queue@.len(),
                q == texts(self.queue@),
                forall|j: int| 0 <= j < i ==> q[j] != key@,
            decreases self.queue.len() - i,
        {
            if same_text(self.queue[i].as_str(), key) {
                proof {
                    lemma_position::<V>(q, key@, i as int);
                }
                return Some(i);
            }
            i = i + 1;
        }
        proof {
            lemma_position::<V>(q, key@, i as int);
        }
        None
    }

    /// Removes the entry under `key`, if there is one.
    fn drop_entry(&mut self, key: &str) -> (r: Option<V>)
        requires
            old(self).wf(),
        ensures
            final(self).wf(),
            final(self)@ == (MediaMapView { data: old(self)@.data.remove(key@), ..old(self)@ }),
            r == if old(self)@.data.contains_key(key@) {
                Some(old(self)@.data[key@])
            } else {
                None::<V>
            },
    {
        match self.find_entry(key) {
            Some(i) => {
                proof {
                    lemma_map_value(self.entries@, i as int);
                    lemma_map_remove(self.entries@, i as int);
                }
                let (_, v) = self.entries.remove(i);
                proof {
                    assert(self@.data =~= old(self)@.data.remove(key@));
                }
                Some(v)
            },
            None => {
                proof {
                    assert(self@.data =~= old(self)@.data.remove(key@));
                }
                None
            },
        }
    }

    /// Puts `value` under `key`, replacing what was there.
    fn put_entry(&mut self, key: String, value: V)
        requires
            old(self).wf(),
        ensures
            final(self).wf(),
            final(self)@ == (MediaMapView { data: old(self)@.data.insert(key@, value), ..old(self)@ }),
    {
        self.drop_entry(key.as_str());
        let ghost before = self.entries@;
        proof {
            lemma_map_dom(before, key@);
        }
        self.entries.push((key, value));
        proof {
            assert(self.entries@.drop_last() =~= before);
            assert forall|a: int, b: int| 0 <= a < b < self.entries@.len() implies (
            #[trigger] self.entries@[a]).0@ != (#[trigger] self.entries@[b]).0@ by {
                if b == self.entries@.len() - 1 {
                    assert(self.entries@[a] == before[a]);
                } else {
                    assert(self.entries@[a] == before[a] && self.entries@[b] == before[b]);
                }
            }
            assert(self@.data =~= old(self)@.data.insert(key@, value));
        }
    }

    /// Drops the oldest queued key and its entry.
    fn evict_oldest(&mut self)
        requires
            old(self).wf(),
            old(self)@.queue.len() > 0,
        ensures
            final(self).wf(),
            final(self)@ == (MediaMapView {
                data: old(self)@.data.remove(old(self)@.queue[0]),
                queue: old(self)@.queue.drop_first(),
                limit: old(self)@.limit,
            }),
    {
        let oldest = self.queue.remove(0);
        self.drop_entry(oldest.as_str());
        proof {
            assert(self@.queue =~= old(self)@.queue.drop_first());
        }
    }

    /// Inserts `value` under `key`; a full cache first drops its oldest key.
    pub fn add_obj(&mut self, key: String, value: V)
        requires
            old(self).wf(),
        ensures
            final(self).wf(),
            final(self)@ == add_spec(old(self)@, key@, value),
    {
        proof {
            lemma_map_len(self.entries@);
        }
        if self.entries.len() >= self.limit && self.queue.len() > 0 {
            self.evict_oldest();
        }
        let queued = key.clone();
        self.put_entry(key, value);
        self.queue.push(queued);
        proof {
            assert(self@.queue =~= add_spec(old(self)@, key@, value).queue);
        }
    }

    /// The value under `key`.
    pub fn get_obj(&self, key: &str) -> (r: Option<V>)
        requires
            self.wf(),
        ensures
            r == if self@.data.contains_key(key@) {
                Some(self@.data[key@])
            } else {
                None::<V>
            },
    {
        match self.find_entry(key) {
            Some(i) => {
                proof {
                    lemma_map_value(self.entries@, i as int);
                }
                Some(self.entries[i].1)
            },
            None => None,
        }
    }

    /// Removes the entry under `key` and the first queued occurrence of it.
    pub fn remove_obj(&mut self, key: &str)
        requires
            old(self).wf(),
        ensures
            final(self).wf(),
            final(self)@ == remove_spec(old(self)@, key@),
    {
        self.drop_entry(key);
        match self.find_queued(key) {
            Some(i) => {
                self.queue.remove(i);
                proof {
                    assert(self@.queue =~= old(self)@.queue.remove(i as int));
                }
            },
            None => {},
        }
        assert(self@.queue == without_first(old(self)@.queue, key@));
        assert(self@.data == old(self)@.data.remove(key@));
    }

    /// Moves the entry under `old_key` to `new_key`; see `update_spec`.
    pub fn update_obj(&mut self, old_key: &str, new_key: &str)
        requires
            old(self).wf(),
        ensures
            final(self).wf(),
            final(self)@ == update_spec(old(self)@, old_key@, new_key@),
    {
        let ghost start = self@;
        match self.drop_entry(old_key) {
            Some(value) => {
                match self.find_queued(old_key) {
                    Some(i) => {
                        self.queue[i] = String::from_str(new_key);
                        proof {
                            assert(self@.queue =~= start.queue.update(i as int, new_key@));
                        }
                    },
                    None => {
                        assert(self@.queue.len() == self.queue@.len());
                        if self.queue.len() >= self.limit && self.queue.len() > 0 {
                            self.evict_oldest();
                        }
                        self.queue.push(String::from_str(new_key));
                        proof {
                            assert(self@.queue =~= update_spec(start, old_key@, new_key@).queue);
                        }
                    },
                }
                self.put_entry(String::from_str(new_key), value);
                proof {
                    let target = update_spec(start, old_key@, new_key@);
                    assert(self@.data =~= target.data);
                    assert(self@.queue == target.queue);
                    assert(self@.limit == target.limit);
                }
            },
            None => {
                assert(self@.data =~= start.data);
            },
        }
    }
}

} // verus!
