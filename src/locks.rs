//! Keyed shared/exclusive lock table.
use vstd::prelude::*;
use vstd::string::*;

verus! {

/// The key under which writers to `path` of `bucket` serialise.
pub open spec fn file_lock_key(bucket: Seq<char>, path: Seq<char>) -> Seq<char> {
    "file:"@ + bucket + ":"@ + path
}

/// The key under which reference-count updates of `hash` in `bucket` serialise.
pub open spec fn hash_lock_key(bucket: Seq<char>, hash: Seq<char>) -> Seq<char> {
    "hash:"@ + bucket + ":"@ + hash
}

/// Lock key for a file: `file:{bucket}:{path}`.
pub fn file_lock(bucket: &str, path: &str) -> (r: String)
    ensures
        r@ == file_lock_key(bucket@, path@),
{
    let mut key = String::from_str("file:");
    key.append(bucket);
    key.append(":");
    key.append(path);
    key
}

/// Lock key for a content hash: `hash:{bucket}:{hash}`.
pub fn hash_lock(bucket: &str, hash: &str) -> (r: String)
    ensures
        r@ == hash_lock_key(bucket@, hash@),
{
    let mut key = String::from_str("hash:");
    key.append(bucket);
    key.append(":");
    key.append(hash);
    key
}

/// How a key is currently held: by `shared` readers, or by one exclusive holder.
#[derive(Clone, Copy, PartialEq, Eq, Structural)]
pub struct LockState {
    pub shared: u64,
    pub exclusive: bool,
}

/// The state of a key that nobody holds.
pub open spec fn free_state() -> LockState {
    LockState { shared: 0, exclusive: false }
}

/// The state of `key` in `table`; a key without an entry is free.
pub open spec fn state_of(table: Map<Seq<char>, LockState>, key: Seq<char>) -> LockState {
    if table.contains_key(key) {
        table[key]
    } else {
        free_state()
    }
}

/// A shared hold can be granted while no exclusive holder is active and the
/// reader count can still grow.
pub open spec fn can_share(s: LockState) -> bool {
    !s.exclusive && s.shared < u64::MAX
}

/// An exclusive hold can be granted only when nobody holds the key.
pub open spec fn can_own(s: LockState) -> bool {
    !s.exclusive && s.shared == 0
}

/// The state after one holder lets go: the exclusive holder if there is
/// one, else one of the readers.
pub open spec fn released_state(s: LockState) -> LockState {
    if s.exclusive {
        LockState { shared: s.shared, exclusive: false }
    } else if s.shared > 0 {
        LockState { shared: (s.shared - 1) as u64, exclusive: false }
    } else {
        s
    }
}

/// The table after `key` is released: the key leaves the table once nobody
/// holds it.
pub open spec fn table_after_release(table: Map<Seq<char>, LockState>, key: Seq<char>) -> Map<
    Seq<char>,
    LockState,
> {
    if !table.contains_key(key) {
        table
    } else if released_state(table[key]) == free_state() {
        table.remove(key)
    } else {
        table.insert(key, released_state(table[key]))
    }
}

/// In-process lock table: one reader/writer state per key, created on first
/// use and dropped once nobody holds it.
pub struct MemoryLocks {
    keys: Vec<String>,
    states: Vec<LockState>,
    table: Ghost<Map<Seq<char>, LockState>>,
}

impl View for MemoryLocks {
    type V = Map<Seq<char>, LockState>;

    closed spec fn view(&self) -> Map<Seq<char>, LockState> {
        self.table@
    }
}

impl MemoryLocks {
    /// Number of rows in the table.
    pub closed spec fn rows(&self) -> nat {
        self.keys@.len()
    }

    /// Key of row `i`.
    pub closed spec fn key_at(&self, i: int) -> Seq<char> {
        self.keys@[i]@
    }

    /// The rows hold distinct keys, and the table maps exactly those keys to
    /// their states; no key is held both shared and exclusively.
    pub closed spec fn wf(&self) -> bool {
        &&& self.keys@.len() == self.states@.len()
        &&& forall|i: int, j: int|
            0 <= i < j < self.keys@.len() ==> self.keys@[i]@ != self.keys@[j]@
        &&& forall|i: int|
            0 <= i < self.keys@.len() ==> #[trigger] self.table@.contains_key(self.keys@[i]@)
                && self.table@[self.keys@[i]@] == self.states@[i]
        &&& forall|k: Seq<char>|
            #[trigger] self.table@.contains_key(k) ==> exists|i: int|
                0 <= i < self.keys@.len() && self.keys@[i]@ == k
        &&& forall|k: Seq<char>|
            #[trigger] self.table@.contains_key(k) ==> !(self.table@[k].exclusive
                && self.table@[k].shared > 0)
    }

    /// An empty table.
    pub fn new() -> (r: Self)
        ensures
            r.wf(),
            r@ == Map::<Seq<char>, LockState>::empty(),
    {
        MemoryLocks { keys: Vec::new(), states: Vec::new(), table: Ghost(Map::empty()) }
    }

    fn find(&self, key: &str) -> (r: Option<usize>)
        requires
            self.wf(),
        ensures
            match r {
                Some(i) => i < self.keys@.len() && self.keys@[i as int]@ == key@,
                None => !self@.contains_key(key@),
            },
    {
        let target = String::from_str(key);
        let mut i: usize = 0;
        while i < self.keys.len()
            invariant
                self.wf(),
                i <= self.keys@.len(),
                target@ == key@,
                forall|j: int| 0 <= j < i ==> self.keys@[j]@ != key@,
            decreases self.keys@.len() - i,
        {
            if self.keys[i] == target {
                return Some(i);
            }
            i = i + 1;
        }
        None
    }

    /// The row of `key`, created free if the key has none.
    pub fn get_or_create_lock(&mut self, key: &str) -> (r: usize)
        requires
            old(self).wf(),
        ensures
            final(self).wf(),
            r < final(self).rows(),
            final(self).key_at(r as int) == key@,
            final(self)@ == (if old(self)@.contains_key(key@) {
                old(self)@
            } else {
                old(self)@.insert(key@, free_state())
            }),
    {
        match self.find(key) {
            Some(i) => i,
            None => {
                let ghost old_keys = self.keys@;
                self.keys.push(String::from_str(key));
                self.states.push(LockState { shared: 0, exclusive: false });
                self.table = Ghost(self.table@.insert(key@, free_state()));
                assert forall|k: Seq<char>| #[trigger] self.table@.contains_key(k) implies exists|i: int|
                    0 <= i < self.keys@.len() && self.keys@[i]@ == k by {
                    if k != key@ {
                        let i = choose|i: int| 0 <= i < old_keys.len() && old_keys[i]@ == k;
                        assert(self.keys@[i] == old_keys[i]);
                    } else {
                        assert(self.keys@[old_keys.len() as int]@ == k);
                    }
                }
                self.keys.len() - 1
            },
        }
    }

    fn set_state(&mut self, i: usize, st: LockState)
        requires
            old(self).wf(),
            i < old(self).keys@.len(),
            !(st.exclusive && st.shared > 0),
        ensures
            final(self).wf(),
            final(self)@ == old(self)@.insert(old(self).keys@[i as int]@, st),
            final(self).keys@ == old(self).keys@,
    {
        let ghost k = self.keys@[i as int]@;
        let ghost old_table = self.table@;
        self.states.set(i, st);
        self.table = Ghost(self.table@.insert(k, st));
        assert forall|q: Seq<char>| #[trigger] self.table@.contains_key(q) implies exists|j: int|
            0 <= j < self.keys@.len() && self.keys@[j]@ == q by {
            if q == k {
                assert(self.keys@[i as int]@ == q);
            } else {
                assert(old_table.contains_key(q));
            }
        }
    }

    /// Tries to take a shared hold on `key`; fails while an exclusive holder
    /// is active.
    pub fn acquire_shared(&mut self, key: &str) -> (r: bool)
        requires
            old(self).wf(),
        ensures
            final(self).wf(),
            r == can_share(state_of(old(self)@, key@)),
            r ==> final(self)@ == old(self)@.insert(
                key@,
                LockState { shared: (state_of(old(self)@, key@).shared + 1) as u64, exclusive: false },
            ),
            !r ==> final(self)@ == old(self)@,
    {
        let i = self.get_or_create_lock(key);
        let st = self.states[i];
        assert(self.table@.contains_key(self.keys@[i as int]@));
        if !st.exclusive && st.shared < u64::MAX {
            self.set_state(i, LockState { shared: st.shared + 1, exclusive: false });
            assert(self@ =~= old(self)@.insert(key@, LockState { shared: (st.shared + 1) as u64, exclusive: false }));
            true
        } else {
            false
        }
    }

    /// Tries to take the sole hold on `key`; fails while anybody holds it.
    pub fn acquire_exclusive(&mut self, key: &str) -> (r: bool)
        requires
            old(self).wf(),
        ensures
            final(self).wf(),
            r == can_own(state_of(old(self)@, key@)),
            r ==> final(self)@ == old(self)@.insert(key@, LockState { shared: 0, exclusive: true }),
            !r ==> final(self)@ == old(self)@,
    {
        let i = self.get_or_create_lock(key);
        let st = self.states[i];
        assert(self.table@.contains_key(self.keys@[i as int]@));
        if !st.exclusive && st.shared == 0 {
            self.set_state(i, LockState { shared: 0, exclusive: true });
            assert(self@ =~= old(self)@.insert(key@, LockState { shared: 0, exclusive: true }));
            true
        } else {
            false
        }
    }

    /// Lets go of one hold on `key`; tells whether the key had an entry.
    pub fn release(&mut self, key: &str) -> (r: bool)
        requires
            old(self).wf(),
        ensures
            final(self).wf(),
            r == old(self)@.contains_key(key@),
            final(self)@ == table_after_release(old(self)@, key@),
    {
        match self.find(key) {
            None => false,
            Some(i) => {
                let st = self.states[i];
                let next = if st.exclusive {
                    LockState { shared: st.shared, exclusive: false }
                } else if st.shared > 0 {
                    LockState { shared: st.shared - 1, exclusive: false }
                } else {
                    st
                };
                if !next.exclusive && next.shared == 0 {
                    let ghost old_keys = self.keys@;
                    let ghost old_states = self.states@;
                    let ghost old_table = self.table@;
                    self.keys.swap_remove(i);
                    self.states.swap_remove(i);
                    self.table = Ghost(self.table@.remove(key@));
                    assert forall|a: int, b: int|
                        0 <= a < b < self.keys@.len() implies self.keys@[a]@ != self.keys@[b]@ by {
                        let oa = if a == i { old_keys.len() - 1 } else { a };
                        let ob = if b == i { old_keys.len() - 1 } else { b };
                        assert(self.keys@[a] == old_keys[oa]);
                        assert(self.keys@[b] == old_keys[ob]);
                    }
                    assert forall|j: int| 0 <= j < self.keys@.len() implies #[trigger] self.table@.contains_key(self.keys@[j]@)
                        && self.table@[self.keys@[j]@] == self.states@[j] by {
                        let oj = if j == i { old_keys.len() - 1 } else { j };
                        assert(self.keys@[j] == old_keys[oj]);
                        assert(self.states@[j] == old_states[oj]);
                        assert(oj != i);
                        if oj < i {
                            assert(old_keys[oj]@ != old_keys[i as int]@);
                        } else {
                            assert(old_keys[i as int]@ != old_keys[oj]@);
                        }
                        assert(old_table.contains_key(old_keys[oj]@));
                    }
                    assert forall|q: Seq<char>| #[trigger] self.table@.contains_key(q) implies exists|j: int|
                        0 <= j < self.keys@.len() && self.keys@[j]@ == q by {
                        let oj = choose|j: int| 0 <= j < old_keys.len() && old_keys[j]@ == q;
                        assert(oj != i);
                        if oj == old_keys.len() - 1 {
                            assert(self.keys@[i as int]@ == q);
                        } else {
                            assert(self.keys@[oj]@ == q);
                        }
                    }
                    assert(self.table@ == table_after_release(old_table, key@));
                } else {
                    self.set_state(i, next);
                }
                true
            },
        }
    }
}

/// The lock implementations a bucket can be configured with.
#[derive(Clone, Copy, PartialEq, Eq, Structural, Debug)]
pub enum LocksType {
    Memory,
}

/// The lock manager of one bucket.
pub enum LocksStorage {
    Memory(MemoryLocks),
}

impl View for LocksStorage {
    type V = Map<Seq<char>, LockState>;

    open spec fn view(&self) -> Map<Seq<char>, LockState> {
        match self {
            LocksStorage::Memory(m) => m@,
        }
    }
}

impl LocksStorage {
    /// The lock table is well formed.
    pub open spec fn wf(&self) -> bool {
        match self {
            LocksStorage::Memory(m) => m.wf(),
        }
    }

    /// A lock manager of the given kind, holding nothing.
    pub fn new(lock_type: &LocksType) -> (r: Box<Self>)
        ensures
            r.wf(),
            r@ == Map::<Seq<char>, LockState>::empty(),
    {
        match lock_type {
            LocksType::Memory => Box::new(LocksStorage::Memory(MemoryLocks::new())),
        }
    }

    /// Tries to take a shared hold on `key`; `false` means the caller must
    /// wait for a release and try again.
    pub fn acquire_shared(&mut self, key: &str) -> (r: bool)
        requires
            old(self).wf(),
        ensures
            final(self).wf(),
            r == can_share(state_of(old(self)@, key@)),
            r ==> final(self)@ == old(self)@.insert(
                key@,
                LockState { shared: (state_of(old(self)@, key@).shared + 1) as u64, exclusive: false },
            ),
            !r ==> final(self)@ == old(self)@,
    {
        match self {
            LocksStorage::Memory(lock) => lock.acquire_shared(key),
        }
    }

    /// Tries to take the sole hold on `key`; `false` means the caller must
    /// wait for a release and try again.
    pub fn acquire_exclusive(&mut self, key: &str) -> (r: bool)
        requires
            old(self).wf(),
        ensures
            final(self).wf(),
            r == can_own(state_of(old(self)@, key@)),
            r ==> final(self)@ == old(self)@.insert(key@, LockState { shared: 0, exclusive: true }),
            !r ==> final(self)@ == old(self)@,
    {
        match self {
            LocksStorage::Memory(lock) => lock.acquire_exclusive(key),
        }
    }

    /// Lets go of one hold on `key`; tells whether a lock for `key` existed.
    pub fn release(&mut self, key: &str) -> (r: bool)
        requires
            old(self).wf(),
        ensures
            final(self).wf(),
            r == old(self)@.contains_key(key@),
            final(self)@ == table_after_release(old(self)@, key@),
    {
        match self {
            LocksStorage::Memory(lock) => lock.release(key),
        }
    }
}

} // verus!
