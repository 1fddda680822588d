//! Assigns each incoming job to one worker client of a processing farm.
//!
//! The clients are grouped into priority tiers together with their current
//! load, and one client is selected per call: the least loaded one that is
//! available, has capacity left and was not ruled out by the caller, from the
//! tier with the lowest priority number that has such a client.

pub mod cfg;
pub mod client;
pub mod counts;
pub mod db;
pub mod group;
pub mod job;
pub mod laws;
pub mod log;
pub mod oid;
pub mod order;
pub mod select;
pub mod seqs;

pub use crate::client::Client;
pub use crate::counts::JobCounts;
pub use crate::group::group_clients;
pub use crate::job::{AssignedClient, AssignedClientJson, Job, JobJson};
pub use crate::oid::ObjectId;
pub use crate::select::{get_eligible_client, select, InfuserError};
