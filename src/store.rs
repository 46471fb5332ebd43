use vstd::prelude::*;

verus! {

/// The storage partition that a storage call targets.
#[derive(Clone, Copy, Debug, PartialEq, Eq, Structural)]
pub enum StoreKind {
    Public,
    Confidential,
}

/// The store kind that a guest tag names, if any.
pub open spec fn store_kind_of(tag: u32) -> Option<StoreKind> {
    if tag == 0 {
        Some(StoreKind::Public)
    } else if tag == 1 {
        Some(StoreKind::Confidential)
    } else {
        None
    }
}

/// Decode a guest store-kind tag.
pub fn store_kind_from_tag(tag: u32) -> (r: Option<StoreKind>)
    ensures
        r == store_kind_of(tag),
{
    if tag == 0 {
        Some(StoreKind::Public)
    } else if tag == 1 {
        Some(StoreKind::Confidential)
    } else {
        None
    }
}

/// A fully scoped storage key: instance, then store kind, then the guest's key.
pub type ScopedKey = (u64, StoreKind, Seq<u8>);

/// One stored key and its value.
pub struct Entry {
    pub instance: u64,
    pub kind: StoreKind,
    pub key: Vec<u8>,
    pub value: Vec<u8>,
}

impl Entry {
    pub open spec fn scoped_key(&self) -> ScopedKey {
        (self.instance, self.kind, self.key@)
    }
}

/// Whether two byte strings are equal.
pub fn bytes_eq(a: &Vec<u8>, b: &Vec<u8>) -> (r: bool)
    ensures
        r == (a@ == b@),
{
    if a.len() != b.len() {
        return false;
    }
    let mut i: usize = 0;
    while i < a.len()
        invariant
            a@.len() == b@.len(),
            0 <= i <= a@.len(),
            forall|j: int| 0 <= j < i ==> a@[j] == b@[j],
        decreases a@.len() - i,
    {
        if a[i] != b[i] {
            return false;
        }
        i = i + 1;
    }
    proof {
        assert(a@ =~= b@);
    }
    true
}

/// The contract state of this module: raw byte values under scoped keys.
///
/// The whole state is this module's partition of the runtime state, the
/// outermost layer of the namespace. Within it each instance, and within an
/// instance each store kind, is a namespace of its own; a key written in one
/// is never seen from another.
pub struct ContractState {
    entries: Vec<Entry>,
    contents: Ghost<Map<ScopedKey, Seq<u8>>>,
}

impl View for ContractState {
    type V = Map<ScopedKey, Seq<u8>>;

    closed spec fn view(&self) -> Map<ScopedKey, Seq<u8>> {
        self.contents@
    }
}

impl ContractState {
    pub closed spec fn wf(&self) -> bool {
        &&& forall|i: int, j: int|
            0 <= i < j < self.entries@.len() ==> #[trigger] self.entries@[i].scoped_key()
                != #[trigger] self.entries@[j].scoped_key()
        &&& forall|i: int|
            0 <= i < self.entries@.len() ==> self.contents@.contains_key(
                #[trigger] self.entries@[i].scoped_key(),
            ) && self.contents@[self.entries@[i].scoped_key()] == self.entries@[i].value@
        &&& forall|k: ScopedKey|
            #[trigger] self.contents@.contains_key(k) ==> exists|i: int|
                0 <= i < self.entries@.len() && #[trigger] self.entries@[i].scoped_key() == k
    }

    /// An empty state.
    pub fn new() -> (r: ContractState)
        ensures
            r.wf(),
            r@ == Map::<ScopedKey, Seq<u8>>::empty(),
    {
        ContractState { entries: Vec::new(), contents: Ghost(Map::empty()) }
    }

    /// Where `(instance, kind, key)` is stored, if it is.
    fn find(&self, instance: u64, kind: StoreKind, key: &Vec<u8>) -> (r: Option<usize>)
        requires
            self.wf(),
        ensures
            match r {
                Some(i) => i < self.entries@.len() && self.entries@[i as int].scoped_key() == (
                instance, kind, key@),
                None => !self@.contains_key((instance, kind, key@)),
            },
    {
        let mut i: usize = 0;
        while i < self.entries.len()
            invariant
                self.wf(),
                0 <= i <= self.entries@.len(),
                forall|j: int|
                    0 <= j < i ==> #[trigger] self.entries@[j].scoped_key() != (instance, kind, key@),
            decreases self.entries@.len() - i,
        {
            let e = &self.entries[i];
            if e.instance == instance && e.kind == kind && bytes_eq(&e.key, key) {
                return Some(i);
            }
            i = i + 1;
        }
        None
    }

    /// The value stored under `key` for `instance` in `kind`.
    pub fn get(&self, instance: u64, kind: StoreKind, key: &Vec<u8>) -> (r: Option<Vec<u8>>)
        requires
            self.wf(),
        ensures
            match r {
                Some(v) => self@.contains_key((instance, kind, key@)) && v@ == self@[(
                instance, kind, key@)],
                None => !self@.contains_key((instance, kind, key@)),
            },
    {
        match self.find(instance, kind, key) {
            Some(i) => Some(self.entries[i].value.clone()),
            None => None,
        }
    }

    /// Store `value` under `key` for `instance` in `kind`, replacing any old value.
    pub fn insert(&mut self, instance: u64, kind: StoreKind, key: &Vec<u8>, value: &Vec<u8>)
        requires
            old(self).wf(),
        ensures
            final(self).wf(),
            final(self)@ == old(self)@.insert((instance, kind, key@), value@),
    {
        let ghost k = (instance, kind, key@);
        match self.find(instance, kind, key) {
            Some(i) => {
                let ghost old_entries = self.entries@;
                let e = Entry { instance, kind, key: key.clone(), value: value.clone() };
                self.entries.set(i, e);
                self.contents = Ghost(self.contents@.insert(k, value@));
                proof {
                    assert forall|j: int| 0 <= j < self.entries@.len() implies
                        #[trigger] self.entries@[j].scoped_key() == old_entries[j].scoped_key() by {}
                    assert forall|kk: ScopedKey| #[trigger] self.contents@.contains_key(kk) implies
                        exists|j: int| 0 <= j < self.entries@.len() && #[trigger] self.entries@[j].scoped_key() == kk by {
                        if kk != k {
                            let j = choose|j: int| 0 <= j < old_entries.len() && #[trigger] old_entries[j].scoped_key() == kk;
                            assert(self.entries@[j].scoped_key() == kk);
                        } else {
                            assert(self.entries@[i as int].scoped_key() == kk);
                        }
                    }
                }
            },
            None => {
                let ghost old_entries = self.entries@;
                let e = Entry { instance, kind, key: key.clone(), value: value.clone() };
                self.entries.push(e);
                self.contents = Ghost(self.contents@.insert(k, value@));
                proof {
                    let n = old_entries.len() as int;
                    assert(self.entries@[n].scoped_key() == k);
                    assert forall|j: int| 0 <= j < n implies #[trigger] self.entries@[j] == old_entries[j] by {}
                    assert forall|kk: ScopedKey| #[trigger] self.contents@.contains_key(kk) implies
                        exists|j: int| 0 <= j < self.entries@.len() && #[trigger] self.entries@[j].scoped_key() == kk by {
                        if kk != k {
                            let j = choose|j: int| 0 <= j < old_entries.len() && #[trigger] old_entries[j].scoped_key() == kk;
                            assert(self.entries@[j].scoped_key() == kk);
                        } else {
                            assert(self.entries@[n].scoped_key() == kk);
                        }
                    }
                }
            },
        }
    }

    /// Delete `key` for `instance` in `kind`; nothing happens where it is absent.
    pub fn remove(&mut self, instance: u64, kind: StoreKind, key: &Vec<u8>)
        requires
            old(self).wf(),
        ensures
            final(self).wf(),
            final(self)@ == old(self)@.remove((instance, kind, key@)),
    {
        let ghost k = (instance, kind, key@);
        match self.find(instance, kind, key) {
            Some(i) => {
                let ghost old_entries = self.entries@;
                self.entries.remove(i);
                self.contents = Ghost(self.contents@.remove(k));
                proof {
                    assert forall|j: int| 0 <= j < self.entries@.len() implies
                        #[trigger] self.entries@[j] == (if j < i { old_entries[j] } else { old_entries[j + 1] }) by {}
                    assert forall|kk: ScopedKey| #[trigger] self.contents@.contains_key(kk) implies
                        exists|j: int| 0 <= j < self.entries@.len() && #[trigger] self.entries@[j].scoped_key() == kk by {
                        let j = choose|j: int| 0 <= j < old_entries.len() && #[trigger] old_entries[j].scoped_key() == kk;
                        assert(j != i);
                        if j < i {
                            assert(self.entries@[j].scoped_key() == kk);
                        } else {
                            assert(self.entries@[j - 1].scoped_key() == kk);
                        }
                    }
                }
            },
            None => {
                proof {
                    assert(self.contents@.remove(k) =~= self.contents@);
                }
            },
        }
    }
}

} // verus!
