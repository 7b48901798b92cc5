//! An in-memory key store: private keys filed under the address they
//! control.

use vstd::prelude::*;
use crate::address::copy_bytes;
use crate::text::text_equal;

verus! {

/// A private key.
#[derive(Debug, PartialEq, Eq)]
pub struct KeyInfo {
    pub private_key: Vec<u8>,
}

impl View for KeyInfo {
    type V = Seq<u8>;

    open spec fn view(&self) -> Seq<u8> {
        self.private_key@
    }
}

impl DeepView for KeyInfo {
    type V = Seq<u8>;

    open spec fn deep_view(&self) -> Seq<u8> {
        self@
    }
}

impl Clone for KeyInfo {
    fn clone(&self) -> (r: Self)
        ensures
            r@ == self@,
    {
        KeyInfo { private_key: copy_bytes(&self.private_key) }
    }
}

/// Why a key could not be stored.
#[derive(Clone, Copy, Debug, PartialEq, Eq, Structural)]
pub enum KeyStoreError {
    /// No address could be derived from the private key.
    KeyConversion,
}

/// The entries of a store as pairs of address and key.
pub open spec fn entries_view(entries: Seq<(String, KeyInfo)>) -> Seq<(Seq<char>, Seq<u8>)> {
    entries.map_values(|e: (String, KeyInfo)| (e.0@, e.1@))
}

/// No address is filed twice.
pub open spec fn distinct_keys(s: Seq<(Seq<char>, Seq<u8>)>) -> bool {
    forall|i: int, j: int| 0 <= i < j < s.len() ==> (#[trigger] s[i]).0 != (#[trigger] s[j]).0
}

pub open spec fn has_key(s: Seq<(Seq<char>, Seq<u8>)>, k: Seq<char>) -> bool {
    exists|i: int| 0 <= i < s.len() && (#[trigger] s[i]).0 == k
}

pub open spec fn index_of_key(s: Seq<(Seq<char>, Seq<u8>)>, k: Seq<char>) -> int {
    choose|i: int| 0 <= i < s.len() && (#[trigger] s[i]).0 == k
}

/// The mapping that a list of entries without repeated addresses stands for.
pub open spec fn as_map(s: Seq<(Seq<char>, Seq<u8>)>) -> Map<Seq<char>, Seq<u8>> {
    Map::new(|k: Seq<char>| has_key(s, k), |k: Seq<char>| s[index_of_key(s, k)].1)
}

/// In a list without repeated addresses every entry is found under its
/// address.
pub proof fn lemma_as_map_entry(s: Seq<(Seq<char>, Seq<u8>)>, i: int)
    requires
        distinct_keys(s),
        0 <= i < s.len(),
    ensures
        as_map(s).dom().contains(s[i].0),
        as_map(s)[s[i].0] == s[i].1,
{
    let k = s[i].0;
    assert(has_key(s, k));
    let j = index_of_key(s, k);
    assert(0 <= j < s.len() && s[j].0 == k);
    if i < j {
        assert(s[i].0 != s[j].0);
    }
    if j < i {
        assert(s[j].0 != s[i].0);
    }
}

/// A key store that lives in memory.
#[derive(Debug)]
pub struct MemoryKeyStore {
    data: Vec<(String, KeyInfo)>,
}

impl View for MemoryKeyStore {
    type V = Map<Seq<char>, Seq<u8>>;

    closed spec fn view(&self) -> Map<Seq<char>, Seq<u8>> {
        as_map(entries_view(self.data@))
    }
}

impl MemoryKeyStore {
    #[verifier::type_invariant]
    spec fn inv(self) -> bool {
        distinct_keys(entries_view(self.data@))
    }

    /// An empty store.
    pub fn new() -> (r: Self)
        ensures
            r@ == Map::<Seq<char>, Seq<u8>>::empty(),
    {
        let r = MemoryKeyStore { data: Vec::new() };
        assert(r@ =~= Map::<Seq<char>, Seq<u8>>::empty());
        r
    }

    fn find(&self, addr: &str) -> (r: Option<usize>)
        ensures
            match r {
                Some(i) => i < self.data@.len() && self.data@[i as int].0@ == addr@,
                None => !has_key(entries_view(self.data@), addr@),
            },
    {
        let ghost s = entries_view(self.data@);
        let mut i: usize = 0;
        while i < self.data.len()
            invariant
                i <= self.data.len(),
                s == entries_view(self.data@),
                forall|k: int| 0 <= k < i ==> (#[trigger] s[k]).0 != addr@,
            decreases self.data.len() - i,
        {
            assert(s[i as int].0 == self.data@[i as int].0@);
            if text_equal(self.data[i].0.as_str(), addr) {
                return Some(i);
            }
            i += 1;
        }
        None
    }

    /// The key filed under `addr`, if there is one.
    pub fn get(&self, addr: &str) -> (r: Option<KeyInfo>)
        ensures
            r.deep_view() == (if self@.dom().contains(addr@) {
                Some(self@[addr@])
            } else {
                None
            }),
    {
        proof {
            use_type_invariant(self);
        }
        match self.find(addr) {
            Some(i) => {
                proof {
                    let s = entries_view(self.data@);
                    assert(s[i as int].0 == addr@);
                    lemma_as_map_entry(s, i as int);
                }
                Some(self.data[i].1.clone())
            },
            None => None,
        }
    }

    /// All addresses a key is filed under, each once.
    pub fn list_all(&self) -> (r: Vec<String>)
        ensures
            r.deep_view().no_duplicates(),
            r.deep_view().to_set() == self@.dom(),
    {
        proof {
            use_type_invariant(self);
        }
        let ghost s = entries_view(self.data@);
        let mut out: Vec<String> = Vec::new();
        let mut i: usize = 0;
        while i < self.data.len()
            invariant
                i <= self.data.len(),
                s == entries_view(self.data@),
                out.len() == i,
                forall|k: int| 0 <= k < i ==> out.deep_view()[k] == (#[trigger] s[k]).0,
            decreases self.data.len() - i,
        {
            let ghost before = out.deep_view();
            assert(s[i as int].0 == self.data@[i as int].0@);
            out.push(self.data[i].0.clone());
            assert(out.deep_view() =~= before.push(s[i as int].0));
            i += 1;
        }
        proof {
            let keys = out.deep_view();
            assert forall|a: int, b: int| 0 <= a < keys.len() && 0 <= b < keys.len() && a
                != b implies keys[a] != keys[b] by {
                if a < b {
                    assert(s[a].0 != s[b].0);
                } else {
                    assert(s[b].0 != s[a].0);
                }
            }
            assert forall|k: Seq<char>| keys.to_set().contains(k) == self@.dom().contains(k) by {
                if keys.contains(k) {
                    let a = choose|a: int| 0 <= a < keys.len() && keys[a] == k;
                    assert(s[a].0 == k);
                }
                if has_key(s, k) {
                    let a = index_of_key(s, k);
                    assert(keys[a] == k);
                }
            }
            assert(keys.to_set() =~= self@.dom());
        }
        out
    }

    /// Files `info` under the address derived from it, replacing a key filed
    /// there before.  `addr` is that address, absent when none could be
    /// derived; the store is then left as it was and the failure is
    /// `KeyConversion`.
    pub fn put(&mut self, addr: Option<String>, info: KeyInfo) -> (r: Result<(), KeyStoreError>)
        ensures
            match addr {
                Some(a) => r is Ok && final(self)@ == old(self)@.insert(a@, info@),
                None => r == Err::<(), KeyStoreError>(KeyStoreError::KeyConversion) && final(self)@
                    == old(self)@,
            },
    {
        proof {
            use_type_invariant(&*self);
        }
        let addr = match addr {
            Some(a) => a,
            None => {
                return Err(KeyStoreError::KeyConversion);
            },
        };
        let ghost s = entries_view(self.data@);
        let ghost k = addr@;
        let ghost v = info@;
        let found = self.find(addr.as_str());
        let mut taken = MemoryKeyStore::new();
        core::mem::swap(self, &mut taken);
        let mut data = taken.data;
        match found {
            Some(i) => {
                data[i] = (addr, info);
                proof {
                    let t = entries_view(data@);
                    assert(t =~= s.update(i as int, (k, v)));
                    assert(s[i as int].0 == k);
                    assert forall|a: int, b: int| 0 <= a < b < t.len() implies (#[trigger] t[a]).0
                        != (#[trigger] t[b]).0 by {
                        assert(s[a].0 != s[b].0);
                    }
                    lemma_same_keys_insert(s, t, i as int, k, v);
                }
            },
            None => {
                data.push((addr, info));
                proof {
                    let t = entries_view(data@);
                    assert(t =~= s.push((k, v)));
                    assert forall|a: int, b: int| 0 <= a < b < t.len() implies (#[trigger] t[a]).0
                        != (#[trigger] t[b]).0 by {
                        if b < s.len() {
                            assert(s[a].0 != s[b].0);
                        } else {
                            assert(s[a].0 != k);
                        }
                    }
                    lemma_same_keys_insert(s, t, s.len() as int, k, v);
                }
            },
        }
        *self = MemoryKeyStore { data };
        Ok(())
    }
}

/// Replacing the entry of an address, or adding an entry for a new address,
/// is insertion into the mapping.
pub proof fn lemma_same_keys_insert(
    s: Seq<(Seq<char>, Seq<u8>)>,
    t: Seq<(Seq<char>, Seq<u8>)>,
    i: int,
    k: Seq<char>,
    v: Seq<u8>,
)
    requires
        distinct_keys(s),
        distinct_keys(t),
        0 <= i <= s.len(),
        i < s.len() ==> s[i].0 == k && t == s.update(i, (k, v)),
        i == s.len() ==> !has_key(s, k) && t == s.push((k, v)),
    ensures
        as_map(t) == as_map(s).insert(k, v),
{
    assert(t[i] == (k, v));
    lemma_as_map_entry(t, i);
    assert forall|x: Seq<char>| as_map(t).dom().contains(x) == as_map(s).insert(
        k,
        v,
    ).dom().contains(x) by {
        if has_key(t, x) {
            let j = index_of_key(t, x);
            if j != i {
                assert(s[j].0 == x);
            }
        }
        if has_key(s, x) {
            let j = index_of_key(s, x);
            assert(t[j].0 == x);
        }
    }
    assert forall|x: Seq<char>| as_map(t).dom().contains(x) implies as_map(t)[x] == as_map(
        s,
    ).insert(k, v)[x] by {
        if x != k {
            let j = index_of_key(t, x);
            assert(j != i);
            assert(s[j] == t[j]);
            lemma_as_map_entry(t, j);
            lemma_as_map_entry(s, j);
        }
    }
    assert(as_map(t) =~= as_map(s).insert(k, v));
}

} // verus!
