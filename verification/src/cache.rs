//! A bounded in-memory cache from asset names to their encoded
//! representations. When it is full, storing a new name first drops a batch
//! of the entries that were stored longest ago.

use vstd::prelude::*;

verus! {

/// Entries a cache holds at most, unless it is made with other limits.
pub const DEFAULT_CAPACITY: usize = 50;

/// Entries a full cache drops at once, unless it is made with other limits.
pub const DEFAULT_BATCH: usize = 10;

/// The model of a cache: its entries, each a name with its value, oldest
/// first, and the two limits it was made with.
pub struct CacheView {
    pub entries: Seq<(Seq<char>, Seq<char>)>,
    pub capacity: nat,
    pub batch: nat,
}

impl CacheView {
    /// No name occurs twice, the entries are no more than the capacity, and
    /// a batch is at least one entry and at most the capacity.
    pub open spec fn wf(self) -> bool {
        &&& 1 <= self.batch <= self.capacity
        &&& self.entries.len() <= self.capacity
        &&& forall|i: int, j: int|
            0 <= i < j < self.entries.len() ==> self.entries[i].0 != self.entries[j].0
    }

    /// The entry at position `i` is the one for `name`.
    pub open spec fn holds_at(self, name: Seq<char>, i: int) -> bool {
        0 <= i < self.entries.len() && self.entries[i].0 == name
    }

    /// There is an entry for `name`.
    pub open spec fn contains(self, name: Seq<char>) -> bool {
        exists|i: int| self.holds_at(name, i)
    }

    /// Where the entry for `name` stands, if there is one.
    pub open spec fn position(self, name: Seq<char>) -> int {
        choose|i: int| self.holds_at(name, i)
    }

    /// The value stored for `name`.
    pub open spec fn lookup(self, name: Seq<char>) -> Option<Seq<char>> {
        if self.contains(name) {
            Some(self.entries[self.position(name)].1)
        } else {
            None
        }
    }

    /// The cache after `value` is stored for `name`. A name that is there
    /// keeps its place and gets the new value. A new name goes to the end;
    /// where the cache is full, the `batch` oldest entries leave first.
    pub open spec fn stored(self, name: Seq<char>, value: Seq<char>) -> CacheView {
        if self.contains(name) {
            CacheView { entries: self.entries.update(self.position(name), (name, value)), ..self }
        } else if self.entries.len() < self.capacity {
            CacheView { entries: self.entries.push((name, value)), ..self }
        } else {
            CacheView {
                entries: self.entries.skip(self.batch as int).push((name, value)),
                ..self
            }
        }
    }

    /// The cache after the entry for `name`, if any, is dropped.
    pub open spec fn without(self, name: Seq<char>) -> CacheView {
        if self.contains(name) {
            CacheView { entries: self.entries.remove(self.position(name)), ..self }
        } else {
            self
        }
    }

    /// The cache after all entries are dropped.
    pub open spec fn emptied(self) -> CacheView {
        CacheView { entries: Seq::empty(), ..self }
    }

    /// In a well-formed cache a name stands at one position only.
    pub proof fn lemma_position(self, name: Seq<char>, i: int)
        requires
            self.wf(),
            self.holds_at(name, i),
        ensures
            self.contains(name),
            self.position(name) == i,
    {
        let chosen = self.position(name);
        assert(self.holds_at(name, chosen));
        if chosen < i {
            assert(self.entries[chosen].0 != self.entries[i].0);
        } else if i < chosen {
            assert(self.entries[i].0 != self.entries[chosen].0);
        }
    }

    /// Storing keeps a cache well-formed, and so never leaves more entries
    /// than the capacity.
    pub proof fn lemma_stored_wf(self, name: Seq<char>, value: Seq<char>)
        requires
            self.wf(),
        ensures
            self.stored(name, value).wf(),
            self.stored(name, value).entries.len() <= self.capacity,
    {
        let after = self.stored(name, value).entries;
        if self.contains(name) {
            let at = self.position(name);
            assert(self.holds_at(name, at));
            assert forall|i: int, j: int| 0 <= i < j < after.len() implies after[i].0
                != after[j].0 by {
                assert(after[i].0 == self.entries[i].0);
                assert(after[j].0 == self.entries[j].0);
            }
        } else {
            let kept = if self.entries.len() < self.capacity {
                self.entries
            } else {
                self.entries.skip(self.batch as int)
            };
            let shift: int = if self.entries.len() < self.capacity {
                0
            } else {
                self.batch as int
            };
            assert(after == kept.push((name, value)));
            assert forall|i: int, j: int| 0 <= i < j < after.len() implies after[i].0
                != after[j].0 by {
                assert(after[i] == self.entries[i + shift]);
                if j < kept.len() {
                    assert(after[j] == self.entries[j + shift]);
                } else {
                    assert(!self.holds_at(name, i + shift));
                }
            }
        }
    }

    /// Storing a new name in a full cache drops exactly one batch before
    /// the name goes in.
    pub proof fn lemma_stored_evicts_one_batch(self, name: Seq<char>, value: Seq<char>)
        requires
            self.wf(),
            !self.contains(name),
            self.entries.len() == self.capacity,
        ensures
            self.stored(name, value).entries.len() == self.capacity - self.batch + 1,
            self.stored(name, value).entries.len() <= self.capacity,
    {
    }

    /// What was stored last for a name is what the cache gives for it.
    pub proof fn lemma_lookup_stored(self, name: Seq<char>, value: Seq<char>)
        requires
            self.wf(),
        ensures
            self.stored(name, value).lookup(name) == Some(value),
    {
        self.lemma_stored_wf(name, value);
        let after = self.stored(name, value);
        if self.contains(name) {
            let at = self.position(name);
            assert(self.holds_at(name, at));
            assert(after.holds_at(name, at));
            after.lemma_position(name, at);
        } else {
            let at = after.entries.len() - 1;
            assert(after.holds_at(name, at));
            after.lemma_position(name, at);
        }
    }

    /// Storing one name never changes what the cache gives for another: it
    /// gives what it gave before, or nothing where the entry was dropped.
    pub proof fn lemma_lookup_other_stored(
        self,
        name: Seq<char>,
        value: Seq<char>,
        other: Seq<char>,
    )
        requires
            self.wf(),
            other != name,
        ensures
            self.stored(name, value).lookup(other) is Some ==> self.stored(name, value).lookup(
                other,
            ) == self.lookup(other),
            self.entries.len() < self.capacity || self.contains(name) ==> self.stored(
                name,
                value,
            ).lookup(other) == self.lookup(other),
    {
        self.lemma_stored_wf(name, value);
        let after = self.stored(name, value);
        let shift: int = if self.contains(name) || self.entries.len() < self.capacity {
            0
        } else {
            self.batch as int
        };
        if self.contains(name) {
            assert(self.holds_at(name, self.position(name)));
        }
        if after.contains(other) {
            let at = after.position(other);
            assert(after.holds_at(other, at));
            assert(after.entries[at] == self.entries[at + shift]);
            assert(self.holds_at(other, at + shift));
            self.lemma_position(other, at + shift);
        }
        if shift == 0 && self.contains(other) {
            let at = self.position(other);
            assert(self.holds_at(other, at));
            assert(after.entries[at] == self.entries[at]);
            assert(after.holds_at(other, at));
            after.lemma_position(other, at);
        }
    }

    /// Dropping a name keeps a cache well-formed, leaves nothing for that
    /// name, and changes nothing for any other.
    pub proof fn lemma_without(self, name: Seq<char>, other: Seq<char>)
        requires
            self.wf(),
        ensures
            self.without(name).wf(),
            self.without(name).lookup(name) is None,
            other != name ==> self.without(name).lookup(other) == self.lookup(other),
    {
        let after = self.without(name);
        if self.contains(name) {
            let at = self.position(name);
            assert(self.holds_at(name, at));
            assert forall|i: int, j: int| 0 <= i < j < after.entries.len() implies after.entries[i].0
                != after.entries[j].0 by {
                let si = if i < at {
                    i
                } else {
                    i + 1
                };
                let sj = if j < at {
                    j
                } else {
                    j + 1
                };
                assert(after.entries[i] == self.entries[si]);
                assert(after.entries[j] == self.entries[sj]);
            }
            if after.contains(name) {
                let k = after.position(name);
                assert(after.holds_at(name, k));
                let sk = if k < at {
                    k
                } else {
                    k + 1
                };
                assert(after.entries[k] == self.entries[sk]);
                self.lemma_position(name, sk);
            }
            if other != name {
                if after.contains(other) {
                    let k = after.position(other);
                    assert(after.holds_at(other, k));
                    let sk = if k < at {
                        k
                    } else {
                        k + 1
                    };
                    assert(after.entries[k] == self.entries[sk]);
                    self.lemma_position(other, sk);
                }
                if self.contains(other) {
                    let k = self.position(other);
                    assert(self.holds_at(other, k));
                    let ak = if k < at {
                        k
                    } else {
                        k - 1
                    };
                    assert(after.entries[ak] == self.entries[k]);
                    assert(after.holds_at(other, ak));
                    after.lemma_position(other, ak);
                }
            }
        }
    }
}

/// One cached asset.
struct CacheEntry {
    name: String,
    value: String,
}

/// The cache itself. It is well-formed at all times.
pub struct AssetCache {
    entries: Vec<CacheEntry>,
    capacity: usize,
    batch: usize,
}

/// The entries of the model for the entries in memory.
spec fn entries_view(entries: Seq<CacheEntry>) -> Seq<(Seq<char>, Seq<char>)> {
    Seq::new(entries.len(), |i: int| (entries[i].name@, entries[i].value@))
}

impl View for AssetCache {
    type V = CacheView;

    closed spec fn view(&self) -> CacheView {
        CacheView {
            entries: entries_view(self.entries@),
            capacity: self.capacity as nat,
            batch: self.batch as nat,
        }
    }
}

impl AssetCache {
    /// What holds of every cache at all times: its model is well-formed.
    #[verifier::type_invariant]
    pub open spec fn well_formed(self) -> bool {
        self@.wf()
    }

    /// An empty cache with the default limits.
    pub fn new() -> (cache: AssetCache)
        ensures
            cache@ == (CacheView {
                entries: Seq::empty(),
                capacity: DEFAULT_CAPACITY as nat,
                batch: DEFAULT_BATCH as nat,
            }),
            cache@.wf(),
    {
        let cache = AssetCache {
            entries: Vec::new(),
            capacity: DEFAULT_CAPACITY,
            batch: DEFAULT_BATCH,
        };
        assert(cache@.entries =~= Seq::empty());
        cache
    }

    /// An empty cache that holds at most `capacity` entries and drops
    /// `batch` of them when it is full; none where a batch would be empty or
    /// more than the capacity.
    pub fn with_limits(capacity: usize, batch: usize) -> (made: Option<AssetCache>)
        ensures
            made is Some <==> 1 <= batch <= capacity,
            made matches Some(cache) ==> cache@.wf() && cache@ == (CacheView {
                entries: Seq::empty(),
                capacity: capacity as nat,
                batch: batch as nat,
            }),
    {
        if 1 <= batch && batch <= capacity {
            let cache = AssetCache { entries: Vec::new(), capacity, batch };
            assert(cache@.entries =~= Seq::empty());
            Some(cache)
        } else {
            None
        }
    }

    /// The number of entries.
    pub fn len(&self) -> (count: usize)
        ensures
            count == self@.entries.len(),
            count <= self@.capacity,
            self@.wf(),
    {
        proof {
            use_type_invariant(self);
        }
        self.entries.len()
    }

    /// The most entries this cache holds.
    pub fn capacity(&self) -> (capacity: usize)
        ensures
            capacity == self@.capacity,
    {
        self.capacity
    }

    /// The number of entries this cache drops when it is full.
    pub fn batch(&self) -> (batch: usize)
        ensures
            batch == self@.batch,
    {
        self.batch
    }

    fn position_of(&self, key: &String) -> (found: Option<usize>)
        ensures
            self@.wf(),
            match found {
                Some(i) => self@.holds_at(key@, i as int) && self@.position(key@) == i
                    && self@.contains(key@) && i < self.entries.len(),
                None => !self@.contains(key@),
            },
    {
        proof {
            use_type_invariant(self);
        }
        let mut i: usize = 0;
        while i < self.entries.len()
            invariant
                i <= self.entries.len(),
                self@.wf(),
                forall|j: int| 0 <= j < i ==> !self@.holds_at(key@, j),
            decreases self.entries.len() - i,
        {
            if self.entries[i].name == *key {
                proof {
                    self@.lemma_position(key@, i as int);
                }
                return Some(i);
            }
            i += 1;
        }
        None
    }

    /// Whether there is an entry for `name`.
    pub fn contains(&self, name: &str) -> (present: bool)
        ensures
            present == self@.contains(name@),
    {
        let key = name.to_owned();
        self.position_of(&key).is_some()
    }

    /// The value stored for `name`, if there is one.
    pub fn lookup(&self, name: &str) -> (value: Option<String>)
        ensures
            match value {
                Some(v) => self@.lookup(name@) == Some(v@),
                None => self@.lookup(name@) is None,
            },
    {
        let key = name.to_owned();
        match self.position_of(&key) {
            Some(i) => Some(self.entries[i].value.clone()),
            None => None,
        }
    }

    /// Stores `value` for `name`. A name that is there keeps its place. A
    /// new name in a full cache first makes the oldest batch leave.
    pub fn store(&mut self, name: &str, value: String)
        ensures
            final(self)@ == old(self)@.stored(name@, value@),
            final(self)@.wf(),
    {
        let key = name.to_owned();
        proof {
            use_type_invariant(&*self);
            self@.lemma_stored_wf(name@, value@);
        }
        let found = self.position_of(&key);
        let mut entries: Vec<CacheEntry> = Vec::new();
        core::mem::swap(&mut self.entries, &mut entries);
        match found {
            Some(i) => {
                entries.set(i, CacheEntry { name: key, value });
            },
            None => {
                if entries.len() >= self.capacity {
                    entries = entries.split_off(self.batch);
                }
                entries.push(CacheEntry { name: key, value });
            },
        }
        assert(entries_view(entries@) =~= old(self)@.stored(name@, value@).entries);
        self.entries = entries;
    }

    /// Drops the entry for `name`, if there is one.
    pub fn invalidate(&mut self, name: &str)
        ensures
            final(self)@ == old(self)@.without(name@),
            final(self)@.wf(),
    {
        let key = name.to_owned();
        proof {
            use_type_invariant(&*self);
            self@.lemma_without(name@, name@);
        }
        let found = self.position_of(&key);
        let mut entries: Vec<CacheEntry> = Vec::new();
        core::mem::swap(&mut self.entries, &mut entries);
        match found {
            Some(i) => {
                let _ = entries.remove(i);
            },
            None => {},
        }
        assert(entries_view(entries@) =~= old(self)@.without(name@).entries);
        self.entries = entries;
    }

    /// Drops every entry and says how many there were.
    pub fn clear(&mut self) -> (cleared: usize)
        ensures
            cleared == old(self)@.entries.len(),
            final(self)@ == old(self)@.emptied(),
            final(self)@.wf(),
    {
        proof {
            use_type_invariant(&*self);
        }
        let cleared = self.entries.len();
        self.entries = Vec::new();
        assert(self@.entries =~= old(self)@.emptied().entries);
        cleared
    }
}

} // verus!
