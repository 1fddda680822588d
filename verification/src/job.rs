//! A unit of work, and the reference by which it names the client that it is
//! assigned to.

use vstd::prelude::*;
use crate::client::Client;
use crate::oid::{hex_string, ObjectId};

verus! {

/// The name of the collection in which the store keeps the clients.
pub open spec fn clients_collection() -> Seq<char> {
    "clients"@
}

/// A reference to a client in the store: the collection, the identity in it
/// and, where it is not the present one, the database.
#[derive(Clone, Debug)]
pub struct AssignedClient {
    pub collection: String,
    pub id: ObjectId,
    pub db: String,
}

/// The reference to a client as it is shown to a reader, with the identity
/// written as a string.
#[derive(Clone, Debug)]
pub struct AssignedClientJson {
    pub collection: String,
    pub id: ObjectId,
    pub db: String,
}

/// A unit of work.
#[derive(Clone, Debug)]
pub struct Job {
    /// The identity that the store gave it; absent until it is persisted.
    pub id: Option<ObjectId>,
    pub name: String,
    /// Where the source of the job lies.
    pub path: String,
    pub subtitle: String,
    pub custom_parameters: Vec<String>,
    /// The one client that the job is assigned to.
    pub assigned_client: AssignedClient,
}

/// A job as it is shown to a reader.
#[derive(Clone, Debug)]
pub struct JobJson {
    pub id: Option<ObjectId>,
    pub name: String,
    pub path: String,
    pub subtitle: String,
    pub custom_parameters: Vec<String>,
    pub assigned_client: AssignedClientJson,
}

impl AssignedClient {
    /// Whether `self` refers to the client of identity `id` in the clients
    /// collection of the present database.
    pub open spec fn refers_to(&self, id: ObjectId) -> bool {
        &&& self.collection@ == clients_collection()
        &&& self.db@ == Seq::<char>::empty()
        &&& self.id == id
    }

    /// The reference to `client`, which must be persisted.
    pub fn from_client(client: Client) -> (assigned: AssignedClient)
        requires
            client.id is Some,
        ensures
            assigned.refers_to(client.id->0),
    {
        AssignedClient::to_identity(client.id.unwrap())
    }

    /// The reference to the client of identity `id`.
    pub fn to_identity(id: ObjectId) -> (assigned: AssignedClient)
        ensures
            assigned.refers_to(id),
    {
        AssignedClient { collection: "clients".to_owned(), db: String::new(), id }
    }
}

impl From<AssignedClient> for AssignedClientJson {
    fn from(ac: AssignedClient) -> (shown: AssignedClientJson) {
        AssignedClientJson { id: ac.id, collection: ac.collection, db: ac.db }
    }
}

impl vstd::std_specs::convert::FromSpecImpl<AssignedClient> for AssignedClientJson {
    open spec fn obeys_from_spec() -> bool {
        true
    }

    open spec fn from_spec(ac: AssignedClient) -> AssignedClientJson {
        AssignedClientJson { id: ac.id, collection: ac.collection, db: ac.db }
    }
}

impl AssignedClientJson {
    /// The identity of the client as it is written out for a reader.
    pub fn id_string(&self) -> (text: String)
        ensures
            text@ == hex_string(self.id@),
    {
        self.id.to_hex()
    }
}

impl From<Job> for JobJson {
    fn from(job: Job) -> (shown: JobJson) {
        JobJson {
            id: job.id,
            assigned_client: AssignedClientJson::from(job.assigned_client),
            name: job.name,
            path: job.path,
            subtitle: job.subtitle,
            custom_parameters: job.custom_parameters,
        }
    }
}

impl vstd::std_specs::convert::FromSpecImpl<Job> for JobJson {
    open spec fn obeys_from_spec() -> bool {
        true
    }

    open spec fn from_spec(job: Job) -> JobJson {
        JobJson {
            id: job.id,
            assigned_client: AssignedClientJson {
                id: job.assigned_client.id,
                collection: job.assigned_client.collection,
                db: job.assigned_client.db,
            },
            name: job.name,
            path: job.path,
            subtitle: job.subtitle,
            custom_parameters: job.custom_parameters,
        }
    }
}

} // verus!
