use vstd::prelude::*;

use vstd::slice::slice_subrange;

use crate::{MAX_DEPTH, MAX_THREAD_NAME};

verus! {

/// Entries that a sink made by `Collector::new` holds at most.
pub const SINK_CAPACITY: usize = 4096;

/// What a sample is tallied under: the instruction addresses of its stack,
/// innermost first, the thread's name and the thread's id. The key is kept
/// inline, so that it can be built and stored without touching the heap.
#[derive(Clone, Copy)]
pub struct StackKey {
    frames: [usize; MAX_DEPTH],
    depth: usize,
    name: [u8; MAX_THREAD_NAME],
    name_len: usize,
    thread_id: u64,
}

/// A key as a mathematical value: the stack, the name and the id.
pub type KeyView = (Seq<usize>, Seq<u8>, u64);

impl View for StackKey {
    type V = KeyView;

    closed spec fn view(&self) -> KeyView {
        (self.frames@.take(self.depth as int), self.name@.take(self.name_len as int), self.thread_id)
    }
}

impl StackKey {
    pub closed spec fn wf(&self) -> bool {
        self.depth <= MAX_DEPTH && self.name_len <= MAX_THREAD_NAME
    }

    /// A key for the given stack, name and id.
    pub fn new(frames: &[usize], name: &[u8], thread_id: u64) -> (r: StackKey)
        requires
            frames@.len() <= MAX_DEPTH,
            name@.len() <= MAX_THREAD_NAME,
        ensures
            r.wf(),
            r@ == (frames@, name@, thread_id),
    {
        let mut key = StackKey {
            frames: [0usize; MAX_DEPTH],
            depth: frames.len(),
            name: [0u8; MAX_THREAD_NAME],
            name_len: name.len(),
            thread_id,
        };
        let mut i: usize = 0;
        while i < frames.len()
            invariant
                i <= frames@.len() <= MAX_DEPTH,
                key.frames@.len() == MAX_DEPTH,
                key.depth == frames@.len(),
                forall|k: int| 0 <= k < i ==> key.frames@[k] == frames@[k],
                key.name_len == name@.len(),
                key.thread_id == thread_id,
            decreases frames@.len() - i,
        {
            key.frames[i] = frames[i];
            i += 1;
        }
        let mut j: usize = 0;
        while j < name.len()
            invariant
                j <= name@.len() <= MAX_THREAD_NAME,
                key.name@.len() == MAX_THREAD_NAME,
                key.name_len == name@.len(),
                forall|k: int| 0 <= k < j ==> key.name@[k] == name@[k],
                key.frames@.len() == MAX_DEPTH,
                key.depth == frames@.len(),
                forall|k: int| 0 <= k < frames@.len() ==> key.frames@[k] == frames@[k],
                key.thread_id == thread_id,
            decreases name@.len() - j,
        {
            key.name[j] = name[j];
            j += 1;
        }
        assert(key.frames@.take(key.depth as int) =~= frames@);
        assert(key.name@.take(key.name_len as int) =~= name@);
        key
    }

    /// The stack's addresses, innermost first.
    pub fn frames(&self) -> (r: &[usize])
        requires
            self.wf(),
        ensures
            r@ == self@.0,
    {
        let all: &[usize] = self.frames.as_slice();
        let r = slice_subrange(all, 0, self.depth);
        assert(all@.subrange(0, self.depth as int) =~= self@.0);
        r
    }

    /// The thread's name, without its NUL byte.
    pub fn thread_name(&self) -> (r: &[u8])
        requires
            self.wf(),
        ensures
            r@ == self@.1,
    {
        let all: &[u8] = self.name.as_slice();
        let r = slice_subrange(all, 0, self.name_len);
        assert(all@.subrange(0, self.name_len as int) =~= self@.1);
        r
    }

    pub fn thread_id(&self) -> (r: u64)
        ensures
            r == self@.2,
    {
        self.thread_id
    }

    /// Whether two keys stand for the same stack, name and id.
    pub fn same_as(&self, other: &StackKey) -> (r: bool)
        requires
            self.wf(),
            other.wf(),
        ensures
            r == (self@ == other@),
    {
        if self.depth != other.depth || self.name_len != other.name_len || self.thread_id
            != other.thread_id {
            proof {
                assert(self.frames@.len() == MAX_DEPTH && other.frames@.len() == MAX_DEPTH);
                assert(self.name@.len() == MAX_THREAD_NAME && other.name@.len() == MAX_THREAD_NAME);
                assert(self@.0.len() == self.depth && other@.0.len() == other.depth);
                assert(self@.1.len() == self.name_len && other@.1.len() == other.name_len);
            }
            return false;
        }
        let mut i: usize = 0;
        while i < self.depth
            invariant
                i <= self.depth == other.depth <= MAX_DEPTH,
                self.frames@.len() == MAX_DEPTH,
                other.frames@.len() == MAX_DEPTH,
                forall|k: int| 0 <= k < i ==> self.frames@[k] == other.frames@[k],
            decreases self.depth - i,
        {
            if self.frames[i] != other.frames[i] {
                assert(self@.0[i as int] != other@.0[i as int]);
                return false;
            }
            i += 1;
        }
        let mut j: usize = 0;
        while j < self.name_len
            invariant
                j <= self.name_len == other.name_len <= MAX_THREAD_NAME,
                self.name@.len() == MAX_THREAD_NAME,
                other.name@.len() == MAX_THREAD_NAME,
                forall|k: int| 0 <= k < j ==> self.name@[k] == other.name@[k],
            decreases self.name_len - j,
        {
            if self.name[j] != other.name[j] {
                assert(self@.1[j as int] != other@.1[j as int]);
                return false;
            }
            j += 1;
        }
        assert(self@.0 =~= other@.0);
        assert(self@.1 =~= other@.1);
        true
    }
}

/// One tally of the sink.
#[derive(Clone, Copy)]
pub struct Entry {
    pub key: StackKey,
    pub count: u64,
}

/// The sample sink: a table of distinct keys, each with its count, that holds
/// at most a fixed number of entries. Its room is taken when it is made, so
/// that adding a sample does not allocate.
pub struct Collector {
    entries: Vec<Entry>,
    capacity: usize,
    tallies: Ghost<Map<KeyView, u64>>,
}

impl View for Collector {
    type V = Map<KeyView, u64>;

    closed spec fn view(&self) -> Map<KeyView, u64> {
        self.tallies@
    }
}

impl Collector {
    /// Entries are well formed, keys are distinct, and the tallies are what
    /// the entries hold.
    pub closed spec fn wf(&self) -> bool {
        &&& self.entries@.len() <= self.capacity
        &&& forall|i: int| 0 <= i < self.entries@.len() ==> (#[trigger] self.entries@[i]).key.wf()
        &&& forall|i: int, j: int|
            0 <= i < j < self.entries@.len() ==> self.entries@[i].key@ != self.entries@[j].key@
        &&& forall|i: int|
            0 <= i < self.entries@.len() ==> self.tallies@.contains_key(
                (#[trigger] self.entries@[i]).key@,
            ) && self.tallies@[self.entries@[i].key@] == self.entries@[i].count
        &&& forall|k: KeyView|
            #[trigger] self.tallies@.contains_key(k) ==> exists|i: int|
                0 <= i < self.entries@.len() && (#[trigger] self.entries@[i]).key@ == k
    }

    /// How many distinct keys are held.
    pub closed spec fn size(&self) -> nat {
        self.entries@.len()
    }

    pub closed spec fn spec_capacity(&self) -> nat {
        self.capacity as nat
    }

    /// An empty sink with room for `capacity` keys.
    pub fn with_capacity(capacity: usize) -> (r: Collector)
        ensures
            r.wf(),
            r@ == Map::<KeyView, u64>::empty(),
            r.size() == 0,
            r.spec_capacity() == capacity,
    {
        Collector { entries: Vec::with_capacity(capacity), capacity, tallies: Ghost(Map::empty()) }
    }

    /// An empty sink with room for `SINK_CAPACITY` keys.
    pub fn new() -> (r: Collector)
        ensures
            r.wf(),
            r@ == Map::<KeyView, u64>::empty(),
            r.size() == 0,
            r.spec_capacity() == SINK_CAPACITY,
    {
        Collector::with_capacity(SINK_CAPACITY)
    }

    pub fn len(&self) -> (r: usize)
        ensures
            r == self.size(),
    {
        self.entries.len()
    }

    pub fn capacity(&self) -> (r: usize)
        ensures
            r == self.spec_capacity(),
    {
        self.capacity
    }

    /// The entries, each key once, with its count.
    pub fn entries(&self) -> (r: &Vec<Entry>)
        requires
            self.wf(),
        ensures
            r@.len() == self.size(),
            forall|i: int| 0 <= i < r@.len() ==> (#[trigger] r@[i]).key.wf(),
            forall|i: int|
                0 <= i < r@.len() ==> self@.contains_key((#[trigger] r@[i]).key@) && self@[r@[i].key@]
                    == r@[i].count,
            forall|i: int, j: int| 0 <= i < j < r@.len() ==> r@[i].key@ != r@[j].key@,
            forall|k: KeyView| #[trigger]
                self@.contains_key(k) ==> exists|i: int| 0 <= i < r@.len() && (#[trigger] r@[i]).key@ == k,
    {
        &self.entries
    }

    /// Adds `n` to the count of `key`. A key not yet held gets an entry of its
    /// own while there is room; when there is none the sample is dropped and
    /// `false` comes back. A count stops at `u64::MAX`.
    pub fn add(&mut self, key: StackKey, n: u64) -> (r: bool)
        requires
            old(self).wf(),
            key.wf(),
        ensures
            final(self).wf(),
            final(self).spec_capacity() == old(self).spec_capacity(),
            old(self)@.contains_key(key@) ==> r && final(self)@ == old(self)@.insert(
                key@,
                sat_add(old(self)@[key@], n),
            ) && final(self).size() == old(self).size(),
            !old(self)@.contains_key(key@) && old(self).size() < old(self).spec_capacity() ==> r
                && final(self)@ == old(self)@.insert(key@, n) && final(self).size() == old(
                self,
            ).size() + 1,
            !old(self)@.contains_key(key@) && old(self).size() >= old(self).spec_capacity() ==> !r
                && final(self)@ == old(self)@ && final(self).size() == old(self).size(),
    {
        let mut i: usize = 0;
        while i < self.entries.len()
            invariant
                self.wf(),
                self.entries@ == old(self).entries@,
                self.tallies@ == old(self).tallies@,
                self.capacity == old(self).capacity,
                key.wf(),
                i <= self.entries@.len(),
                forall|k: int| 0 <= k < i ==> self.entries@[k].key@ != key@,
            decreases self.entries@.len() - i,
        {
            if self.entries[i].key.same_as(&key) {
                let e = self.entries[i];
                let count = e.count.saturating_add(n);
                self.entries.set(i, Entry { key: e.key, count });
                self.tallies = Ghost(self.tallies@.insert(key@, count));
                proof {
                    assert forall|k: KeyView| #[trigger] self.tallies@.contains_key(k) implies exists|
                        m: int,
                    | 0 <= m < self.entries@.len() && (#[trigger] self.entries@[m]).key@ == k by {
                        if k != key@ {
                            let m = choose|m: int|
                                0 <= m < old(self).entries@.len() && (#[trigger] old(
                                    self,
                                ).entries@[m]).key@ == k;
                            assert(self.entries@[m].key@ == k);
                        } else {
                            assert(self.entries@[i as int].key@ == k);
                        }
                    }
                }
                return true;
            }
            i += 1;
        }
        if self.entries.len() < self.capacity {
            self.entries.push(Entry { key, count: n });
            self.tallies = Ghost(self.tallies@.insert(key@, n));
            proof {
                assert forall|k: KeyView| #[trigger] self.tallies@.contains_key(k) implies exists|
                    m: int,
                | 0 <= m < self.entries@.len() && (#[trigger] self.entries@[m]).key@ == k by {
                    if k != key@ {
                        let m = choose|m: int|
                            0 <= m < old(self).entries@.len() && (#[trigger] old(
                                self,
                            ).entries@[m]).key@ == k;
                        assert(self.entries@[m].key@ == k);
                    } else {
                        assert(self.entries@[self.entries@.len() - 1].key@ == k);
                    }
                }
            }
            true
        } else {
            proof {
                if old(self)@.contains_key(key@) {
                    let m = choose|m: int|
                        0 <= m < old(self).entries@.len() && (#[trigger] old(self).entries@[m]).key@
                            == key@;
                    assert(self.entries@[m].key@ != key@);
                }
            }
            false
        }
    }
}

/// `a + b`, held at `u64::MAX`.
pub open spec fn sat_add(a: u64, b: u64) -> u64 {
    if a + b > u64::MAX {
        u64::MAX
    } else {
        (a + b) as u64
    }
}

} // verus!
