//! Key-value storage for resolved preimages.
//!
//! Storage is a capability: anything offering `get`/`set` over 32-byte keys
//! with map semantics is substitutable. This module provides the in-memory
//! store and the split store that keeps `Local` keys apart from fetched
//! ones; a disk-backed variant lives with the process plumbing, outside
//! this crate.

use vstd::prelude::*;
use crate::byteops::copy_bytes;
use crate::key::{key_type_of_tag, key_type_tag, key_value_matches, KeyType, PreimageKeyV};

verus! {

/// Map semantics over 32-byte keys: `get` reads the model, `set` inserts.
pub trait KeyValueStore: Sized {
    /// The store's contents as a map from wire keys to values.
    spec fn model(&self) -> Map<Seq<u8>, Seq<u8>>;

    /// The store's internal invariant.
    spec fn wf(&self) -> bool;

    /// Looks a key up; returns exactly what the model binds it to.
    fn get(&self, key: &Vec<u8>) -> (r: Option<Vec<u8>>)
        requires
            self.wf(),
        ensures
            match r {
                Some(v) => self.model().dom().contains(key@) && v@ == self.model()[key@],
                None => !self.model().dom().contains(key@),
            },
    ;

    /// Binds a key to a value. Never rejects a syntactically valid key.
    fn set(&mut self, key: &Vec<u8>, value: &Vec<u8>)
        requires
            old(self).wf(),
            key@.len() == 32,
        ensures
            final(self).wf(),
            final(self).model() == old(self).model().insert(key@, value@),
    ;
}

/// The in-memory store: parallel key and value vectors with unique keys.
pub struct MemKvStore {
    keys: Vec<Vec<u8>>,
    vals: Vec<Vec<u8>>,
    contents: Ghost<Map<Seq<u8>, Seq<u8>>>,
}

impl MemKvStore {
    /// Creates an empty store.
    pub fn new() -> (r: MemKvStore)
        ensures
            r.wf(),
            r.model() == Map::<Seq<u8>, Seq<u8>>::empty(),
    {
        MemKvStore { keys: Vec::new(), vals: Vec::new(), contents: Ghost(Map::empty()) }
    }

}

impl KeyValueStore for MemKvStore {
    closed spec fn model(&self) -> Map<Seq<u8>, Seq<u8>> {
        self.contents@
    }

    closed spec fn wf(&self) -> bool {
        &&& self.keys@.len() == self.vals@.len()
        &&& forall|i: int, j: int|
            0 <= i < j < self.keys@.len() ==> self.keys@[i]@ != self.keys@[j]@
        &&& forall|j: int|
            0 <= j < self.keys@.len() ==> #[trigger] self.contents@.dom().contains(
                self.keys@[j]@,
            ) && self.contents@[self.keys@[j]@] == self.vals@[j]@
        &&& forall|k: Seq<u8>|
            self.contents@.dom().contains(k) ==> exists|j: int|
                0 <= j < self.keys@.len() && #[trigger] self.keys@[j]@ == k
    }

    fn get(&self, key: &Vec<u8>) -> (r: Option<Vec<u8>>) {
        let mut i: usize = 0;
        while i < self.keys.len()
            invariant
                self.wf(),
                i <= self.keys@.len(),
                forall|j: int| 0 <= j < i ==> self.keys@[j]@ != key@,
            decreases self.keys@.len() - i,
        {
            if crate::byteops::bytes_eq(&self.keys[i], key) {
                proof {
                    assert(self.contents@.dom().contains(self.keys@[i as int]@));
                }
                return Some(copy_bytes(&self.vals[i]));
            }
            i = i + 1;
        }
        proof {
            if self.contents@.dom().contains(key@) {
                let j = choose|j: int|
                    0 <= j < self.keys@.len() && #[trigger] self.keys@[j]@ == key@;
                assert(false);
            }
        }
        None
    }

    #[verifier::loop_isolation(false)]
    fn set(&mut self, key: &Vec<u8>, value: &Vec<u8>) {
        let ghost old_self = *self;
        let mut i: usize = 0;
        while i < self.keys.len()
            invariant
                *self == old_self,
                old_self.wf(),
                i <= self.keys@.len(),
                forall|j: int| 0 <= j < i ==> self.keys@[j]@ != key@,
            decreases self.keys@.len() - i,
        {
            if crate::byteops::bytes_eq(&self.keys[i], key) {
                self.vals.set(i, copy_bytes(value));
                proof {
                    self.contents@ = self.contents@.insert(key@, value@);
                    assert forall|k: Seq<u8>| self.contents@.dom().contains(k) implies exists|j: int|
                        0 <= j < self.keys@.len() && #[trigger] self.keys@[j]@ == k by {
                        if k != key@ {
                            assert(old_self.contents@.dom().contains(k));
                            let j = choose|j: int|
                                0 <= j < old_self.keys@.len() && #[trigger] old_self.keys@[j]@
                                    == k;
                            assert(self.keys@[j]@ == k);
                        } else {
                            assert(self.keys@[i as int]@ == k);
                        }
                    }
                    assert forall|j: int| 0 <= j < self.keys@.len() implies
                        #[trigger] self.contents@.dom().contains(self.keys@[j]@)
                            && self.contents@[self.keys@[j]@] == self.vals@[j]@ by {
                        if j != i {
                            if j < i {
                                assert(old_self.keys@[j]@ != old_self.keys@[i as int]@);
                            } else {
                                assert(old_self.keys@[i as int]@ != old_self.keys@[j]@);
                            }
                            assert(old_self.contents@.dom().contains(old_self.keys@[j]@));
                        }
                    }
                    assert(self.wf());
                    assert(self.model() =~= old_self.model().insert(key@, value@));
                }
                return ;
            }
            i = i + 1;
        }
        self.keys.push(copy_bytes(key));
        self.vals.push(copy_bytes(value));
        proof {
            self.contents@ = self.contents@.insert(key@, value@);
            assert forall|k: Seq<u8>| self.contents@.dom().contains(k) implies exists|j: int|
                0 <= j < self.keys@.len() && #[trigger] self.keys@[j]@ == k by {
                if k != key@ {
                    assert(old_self.contents@.dom().contains(k));
                    let j = choose|j: int|
                        0 <= j < old_self.keys@.len() && #[trigger] old_self.keys@[j]@ == k;
                    assert(self.keys@[j]@ == k);
                } else {
                    assert(self.keys@[self.keys@.len() - 1]@ == k);
                }
            }
            assert(self.wf());
            assert(self.model() =~= old_self.model().insert(key@, value@));
        }
    }
}

/// Whether a wire key is a `Local` key.
pub open spec fn is_local_wire_key(k: Seq<u8>) -> bool {
    k.len() > 0 && k[0] == key_type_tag(KeyType::Local)
}

/// The split store: `Local` keys go to a local store, everything else to
/// a remote store. Both sides answer through the one `get`/`set` contract.
pub struct SplitKvStore<L: KeyValueStore, R: KeyValueStore> {
    pub local: L,
    pub remote: R,
}

impl<L: KeyValueStore, R: KeyValueStore> SplitKvStore<L, R> {
    /// Creates a split store over the two given sides.
    pub fn new(local: L, remote: R) -> (r: SplitKvStore<L, R>)
        requires
            local.wf(),
            remote.wf(),
        ensures
            r.wf(),
            r.local == local,
            r.remote == remote,
    {
        SplitKvStore { local, remote }
    }
}

impl<L: KeyValueStore, R: KeyValueStore> KeyValueStore for SplitKvStore<L, R> {
    open spec fn model(&self) -> Map<Seq<u8>, Seq<u8>> {
        Map::new(
            |k: Seq<u8>|
                if is_local_wire_key(k) {
                    self.local.model().dom().contains(k)
                } else {
                    self.remote.model().dom().contains(k)
                },
            |k: Seq<u8>|
                if is_local_wire_key(k) {
                    self.local.model()[k]
                } else {
                    self.remote.model()[k]
                },
        )
    }

    open spec fn wf(&self) -> bool {
        self.local.wf() && self.remote.wf()
    }

    fn get(&self, key: &Vec<u8>) -> (r: Option<Vec<u8>>) {
        if key.len() > 0 && key[0] == KeyType::Local.tag() {
            self.local.get(key)
        } else {
            self.remote.get(key)
        }
    }

    fn set(&mut self, key: &Vec<u8>, value: &Vec<u8>) {
        let ghost old_self = *self;
        if key.len() > 0 && key[0] == KeyType::Local.tag() {
            self.local.set(key, value);
        } else {
            self.remote.set(key, value);
        }
        proof {
            assert(self.model() =~= old_self.model().insert(key@, value@));
        }
    }
}

/// Every non-`Local` hash-committed entry of the store matches its key's
/// digest scheme.
pub open spec fn kv_integrity(m: Map<Seq<u8>, Seq<u8>>) -> bool {
    forall|k: Seq<u8>| #[trigger] m.dom().contains(k) ==> wire_key_value_matches(k, m[k])
}

/// The integrity relation on one wire key and its value: malformed keys
/// never enter an integral store; well-formed keys match their scheme.
pub open spec fn wire_key_value_matches(k: Seq<u8>, value: Seq<u8>) -> bool {
    &&& k.len() == 32
    &&& match key_type_of_tag(k[0]) {
        Some(t) => key_value_matches(
            PreimageKeyV { key_type: t, digest: k.subrange(1, 32) },
            value,
        ),
        None => false,
    }
}

} // verus!
