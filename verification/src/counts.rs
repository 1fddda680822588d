//! How many active jobs each client holds, by the client's identity string.

use vstd::prelude::*;
use vstd::hash_map::StringHashMap;
use crate::oid::{hex_string, ObjectId};

verus! {

/// What `counts` says of the client known under `key`: its number of active
/// jobs, or nothing where the client has no entry.
pub open spec fn lookup(counts: Map<Seq<char>, i32>, key: Seq<char>) -> Option<i32> {
    if counts.contains_key(key) {
        Some(counts[key])
    } else {
        None
    }
}

/// The active-job counts of a snapshot, keyed by identity string. A client
/// without active jobs need not have an entry.
pub struct JobCounts {
    map: StringHashMap<i32>,
}

impl View for JobCounts {
    type V = Map<Seq<char>, i32>;

    closed spec fn view(&self) -> Map<Seq<char>, i32> {
        self.map@
    }
}

impl JobCounts {
    /// Counts for nobody.
    pub fn new() -> (counts: JobCounts)
        ensures
            counts@ == Map::<Seq<char>, i32>::empty(),
    {
        JobCounts { map: StringHashMap::new() }
    }

    /// Records `count` for the client known under `key`, in place of what was
    /// recorded for it before.
    pub fn insert(&mut self, key: String, count: i32)
        ensures
            final(self)@ == old(self)@.insert(key@, count),
    {
        self.map.insert(key, count);
    }

    /// The count recorded under `key`.
    pub fn get(&self, key: &str) -> (count: Option<i32>)
        ensures
            count == lookup(self@, key@),
    {
        match self.map.get(key) {
            Some(count) => Some(*count),
            None => None,
        }
    }

    /// The count recorded for the client of identity `id`.
    pub fn count_of(&self, id: &ObjectId) -> (count: Option<i32>)
        ensures
            count == lookup(self@, hex_string(id@)),
    {
        let key = id.to_hex();
        self.get(key.as_str())
    }

    /// The number of clients that have an entry.
    pub fn len(&self) -> (n: usize)
        ensures
            n == self@.len(),
    {
        broadcast use vstd::hash_map::group_hash_map_axioms;

        self.map.len()
    }
}

} // verus!
