use vstd::prelude::*;
use vstd::hash_map::StringHashMap;

use crate::compression::clone_bytes;
use crate::kvs::{Kvs, KvsError};

verus! {

/// An in-memory backend: a hash map from keys to byte sequences that stores
/// and presents values unchanged and never fails.
pub struct MemKvs {
    m: StringHashMap<Vec<u8>>,
}

impl MemKvs {
    /// Creates an empty store.
    pub fn new() -> (r: MemKvs)
        ensures
            r.contents() == Map::<Seq<char>, Seq<u8>>::empty(),
            r.reliable(),
    {
        let r = MemKvs { m: StringHashMap::new() };
        proof {
            assert(r.contents() =~= Map::<Seq<char>, Seq<u8>>::empty());
        }
        r
    }
}

impl Kvs for MemKvs {
    closed spec fn contents(&self) -> Map<Seq<char>, Seq<u8>> {
        Map::new(|k: Seq<char>| self.m@.dom().contains(k), |k: Seq<char>| self.m@[k]@)
    }

    open spec fn reliable(&self) -> bool {
        true
    }

    open spec fn stored_form(key: Seq<char>, value: Seq<u8>) -> Option<Seq<u8>> {
        Some(value)
    }

    open spec fn presented_form(key: Seq<char>, stored: Seq<u8>) -> Option<Seq<u8>> {
        Some(stored)
    }

    open spec fn admits(key: Seq<char>, value: Seq<u8>) -> bool {
        true
    }

    fn get(&self, key: &str) -> (r: Result<Option<Vec<u8>>, KvsError>)
        ensures
            r is Ok,
    {
        match self.m.get(key) {
            Some(v) => Ok(Some(clone_bytes(v))),
            None => Ok(None),
        }
    }

    fn insert(&mut self, key: &str, value: Vec<u8>) -> (r: Result<Option<Vec<u8>>, KvsError>)
        ensures
            r is Ok,
    {
        let prev = match self.m.get(key) {
            Some(v) => Some(clone_bytes(v)),
            None => None,
        };
        self.m.insert(key.to_owned(), value);
        proof {
            assert(self.contents() =~= old(self).contents().insert(key@, value@));
        }
        Ok(prev)
    }

    fn remove(&mut self, key: &str) -> (r: Result<Option<Vec<u8>>, KvsError>)
        ensures
            r is Ok,
    {
        let prev = match self.m.get(key) {
            Some(v) => Some(clone_bytes(v)),
            None => None,
        };
        self.m.remove(key);
        proof {
            assert(self.contents() =~= old(self).contents().remove(key@));
        }
        Ok(prev)
    }
}

} // verus!
