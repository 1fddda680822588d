//! A worker endpoint, and the rule by which two records name the same one.

use vstd::prelude::*;
use crate::oid::ObjectId;

verus! {

/// A worker endpoint that can be given jobs.
#[derive(Debug)]
pub struct Client {
    /// The identity that the store gave it; absent until it is persisted.
    pub id: Option<ObjectId>,
    pub name: String,
    /// Start and end of the time window in which it may work. An external
    /// scheduler reads them; nothing here does.
    pub availability_start: String,
    pub availability_end: String,
    /// How many jobs it may hold at once.
    pub maximum_jobs: i32,
    /// Its tier: clients with a lower number are asked first.
    pub priority: i32,
    pub online: bool,
    /// Lets the client take jobs although it is not online.
    pub ignore_online: bool,
}

/// What makes a client the entity that it is: the identity that the store
/// gave it or, as long as it has none, its name.
pub enum Identity {
    Persisted(Seq<u8>),
    Transient(Seq<char>),
}

impl Client {
    /// What makes this client the entity that it is.
    pub open spec fn identity(&self) -> Identity {
        match self.id {
            Some(id) => Identity::Persisted(id@),
            None => Identity::Transient(self.name@),
        }
    }

    /// Whether `self` and `other` are the same entity. Two persisted clients
    /// are the same if their identities match; two that were never persisted
    /// are the same if their names match; a persisted and an unpersisted one
    /// are never the same.
    pub open spec fn same_entity(&self, other: &Client) -> bool {
        self.identity() == other.identity()
    }

    /// Whether the client may be given work at all: it is online, or it is
    /// marked to be used regardless.
    pub open spec fn available(&self) -> bool {
        self.online || self.ignore_online
    }
}

impl PartialEq for Client {
    fn eq(&self, other: &Client) -> (same: bool) {
        match (&self.id, &other.id) {
            (None, None) => self.name == other.name,
            (Some(a), Some(b)) => a == b,
            _ => false,
        }
    }
}

impl vstd::std_specs::cmp::PartialEqSpecImpl for Client {
    open spec fn obeys_eq_spec() -> bool {
        true
    }

    open spec fn eq_spec(&self, other: &Client) -> bool {
        self.same_entity(other)
    }
}

impl Eq for Client {}

impl Clone for Client {
    fn clone(&self) -> (copy: Client)
        ensures
            copy == *self,
    {
        Client {
            id: self.id,
            name: self.name.clone(),
            availability_start: self.availability_start.clone(),
            availability_end: self.availability_end.clone(),
            maximum_jobs: self.maximum_jobs,
            priority: self.priority,
            online: self.online,
            ignore_online: self.ignore_online,
        }
    }
}

} // verus!
