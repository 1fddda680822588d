//! What is computed on the way to and from the store: the active-job counts
//! from the rows of an aggregation, and the assignment that is written into a
//! job before it is stored.

use vstd::prelude::*;
use crate::client::Client;
use crate::counts::{lookup, JobCounts};
use crate::job::{AssignedClient, Job};
use crate::oid::{hex_string, lemma_hex_string_injective, ObjectId};

verus! {

/// The counts that the rows of an aggregation give: each row holds the
/// identity of a client and the number of jobs assigned to it, and is recorded
/// under the string of that identity. Where two rows name one client, the
/// later one stands.
pub open spec fn tally(rows: Seq<(ObjectId, i32)>) -> Map<Seq<char>, i32>
    decreases rows.len(),
{
    if rows.len() == 0 {
        Map::empty()
    } else {
        tally(rows.drop_last()).insert(hex_string(rows.last().0@), rows.last().1)
    }
}

/// The counts hold an entry under exactly the strings of the identities that
/// a row names, and under each the count of the last row with that string.
proof fn lemma_tally(rows: Seq<(ObjectId, i32)>)
    ensures
        forall|key: Seq<char>| #[trigger]
            tally(rows).contains_key(key) <==> exists|i: int|
                0 <= i < rows.len() && hex_string((#[trigger] rows[i]).0@) == key,
        forall|i: int|
            0 <= i < rows.len() && (forall|j: int|
                i < j < rows.len() ==> hex_string((#[trigger] rows[j]).0@) != hex_string(
                    rows[i].0@,
                )) ==> tally(rows)[hex_string((#[trigger] rows[i]).0@)] == rows[i].1,
    decreases rows.len(),
{
    if rows.len() > 0 {
        let head = rows.drop_last();
        lemma_tally(head);
        assert forall|key: Seq<char>| #[trigger]
            tally(rows).contains_key(key) <==> exists|i: int|
                0 <= i < rows.len() && hex_string((#[trigger] rows[i]).0@) == key by {
            if tally(rows).contains_key(key) {
                if hex_string(rows.last().0@) == key {
                    assert(hex_string(rows[rows.len() - 1].0@) == key);
                } else {
                    assert(tally(head).contains_key(key));
                    let i = choose|i: int|
                        0 <= i < head.len() && hex_string((#[trigger] head[i]).0@) == key;
                    assert(hex_string(rows[i].0@) == key);
                }
            }
            if exists|i: int| 0 <= i < rows.len() && hex_string((#[trigger] rows[i]).0@) == key {
                let i = choose|i: int|
                    0 <= i < rows.len() && hex_string((#[trigger] rows[i]).0@) == key;
                if i < rows.len() - 1 {
                    assert(hex_string(head[i].0@) == key);
                }
            }
        }
        assert forall|i: int|
            0 <= i < rows.len() && (forall|j: int|
                i < j < rows.len() ==> hex_string((#[trigger] rows[j]).0@) != hex_string(
                    rows[i].0@,
                )) implies tally(rows)[hex_string((#[trigger] rows[i]).0@)] == rows[i].1 by {
            if i < rows.len() - 1 {
                assert(head[i] == rows[i]);
                assert forall|j: int| i < j < head.len() implies hex_string(
                    (#[trigger] head[j]).0@,
                ) != hex_string(head[i].0@) by {
                    assert(head[j] == rows[j]);
                }
                assert(hex_string(rows[rows.len() - 1].0@) != hex_string(rows[i].0@));
            }
        }
    }
}

/// The counts hold an entry for exactly the clients that a row names, and
/// for each the count of the last row that names it.
pub proof fn law_tally_counts_last_row(rows: Seq<(ObjectId, i32)>)
    ensures
        forall|key: Seq<char>| #[trigger]
            tally(rows).contains_key(key) <==> exists|i: int|
                0 <= i < rows.len() && hex_string((#[trigger] rows[i]).0@) == key,
        forall|i: int|
            0 <= i < rows.len() && (forall|j: int|
                i < j < rows.len() ==> (#[trigger] rows[j]).0@ != rows[i].0@) ==> lookup(
                tally(rows),
                hex_string((#[trigger] rows[i]).0@),
            ) == Some(rows[i].1),
{
    lemma_tally(rows);
    assert forall|i: int|
        0 <= i < rows.len() && (forall|j: int|
            i < j < rows.len() ==> (#[trigger] rows[j]).0@ != rows[i].0@) implies lookup(
        tally(rows),
        hex_string((#[trigger] rows[i]).0@),
    ) == Some(rows[i].1) by {
        assert forall|j: int| i < j < rows.len() implies hex_string((#[trigger] rows[j]).0@)
            != hex_string(rows[i].0@) by {
            if hex_string(rows[j].0@) == hex_string(rows[i].0@) {
                lemma_hex_string_injective(rows[j].0@, rows[i].0@);
            }
        }
        assert(tally(rows).contains_key(hex_string(rows[i].0@)));
    }
}

/// Collects the active-job counts from the rows of an aggregation over the
/// jobs.
pub fn job_counts(rows: &Vec<(ObjectId, i32)>) -> (counts: JobCounts)
    ensures
        counts@ == tally(rows@),
{
    let mut job_counts = JobCounts::new();
    let mut i: usize = 0;
    while i < rows.len()
        invariant
            i <= rows.len(),
            job_counts@ == tally(rows@.take(i as int)),
        decreases rows.len() - i,
    {
        assert(rows@.take(i + 1).drop_last() =~= rows@.take(i as int));
        let oid = rows[i].0;
        let count = rows[i].1;
        job_counts.insert(oid.to_hex(), count);
        i += 1;
    }
    assert(rows@.take(i as int) =~= rows@);
    job_counts
}

/// Assigns `job` to `client`, which must be persisted: the job then refers to
/// the client by its identity, and nothing else of the job changes.
pub fn assign_job(client: &Client, job: &mut Job)
    requires
        client.id is Some,
    ensures
        final(job).assigned_client.refers_to(client.id->0),
        final(job).id == old(job).id,
        final(job).name == old(job).name,
        final(job).path == old(job).path,
        final(job).subtitle == old(job).subtitle,
        final(job).custom_parameters == old(job).custom_parameters,
{
    job.assigned_client = AssignedClient::to_identity(client.id.unwrap());
}

} // verus!
