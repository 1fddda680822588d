//! Grouping: from a flat list of clients and their active-job counts to
//! priority tiers, each client with its load.

use vstd::prelude::*;
use std::collections::BTreeMap;
use crate::client::Client;
use crate::counts::{lookup, JobCounts};
use crate::oid::{bson_default, hex_string, ObjectId};
use crate::seqs::{lemma_filter_push, lemma_take_all};

verus! {

/// A client as a tier holds it: with its load, the number of its active jobs,
/// which is absent where nothing is known of it.
pub type Member = (Client, Option<i32>);

/// A snapshot of the clients, grouped for one selection: the tiers by their
/// priority number, in ascending order, each with its members in a fixed
/// order.
pub type GroupedClients = BTreeMap<i32, Vec<Member>>;

/// The tiers that a grouped snapshot holds, each as the sequence of its
/// members.
pub open spec fn tiers_of(grouped: GroupedClients) -> Map<i32, Seq<Member>> {
    grouped@.map_values(|members: Vec<Member>| members@)
}

/// Whether `load` can be the load that `counts` gives for `client`.
///
/// A persisted client is looked up under the string of its identity. One that
/// was never persisted is looked up under the string of a newly generated
/// identity: it has a load only if `counts` happens to hold that string.
pub open spec fn load_fits(client: Client, counts: Map<Seq<char>, i32>, load: Option<i32>) -> bool {
    match client.id {
        Some(id) => load == lookup(counts, hex_string(id@)),
        None => exists|fresh: ObjectId| load == lookup(counts, hex_string(#[trigger] fresh@)),
    }
}

/// Whether `loads` holds, position by position, a load that fits the client
/// at that position.
pub open spec fn loads_fit(
    clients: Seq<Client>,
    counts: Map<Seq<char>, i32>,
    loads: Seq<Option<i32>>,
) -> bool {
    &&& loads.len() == clients.len()
    &&& forall|i: int| 0 <= i < clients.len() ==> load_fits(clients[i], counts, #[trigger] loads[i])
}

/// Whether `counts` alone settles the load of every client: each client is
/// persisted, or `counts` holds nothing under the string of any identity, so
/// that no newly generated identity can meet an entry.
pub open spec fn settled(clients: Seq<Client>, counts: Map<Seq<char>, i32>) -> bool {
    ||| forall|i: int| 0 <= i < clients.len() ==> (#[trigger] clients[i]).id is Some
    ||| forall|fresh: ObjectId| !counts.contains_key(hex_string(#[trigger] fresh@))
}

/// The loads of the clients where `counts` settles them: for a persisted
/// client what is recorded under the string of its identity, for another
/// nothing.
pub open spec fn settled_loads(clients: Seq<Client>, counts: Map<Seq<char>, i32>) -> Seq<
    Option<i32>,
> {
    Seq::new(
        clients.len(),
        |i: int|
            match clients[i].id {
                Some(id) => lookup(counts, hex_string(id@)),
                None => None,
            },
    )
}

/// Where `counts` settles the loads, only one sequence of loads fits.
pub proof fn lemma_settled_loads(
    clients: Seq<Client>,
    counts: Map<Seq<char>, i32>,
    loads: Seq<Option<i32>>,
)
    requires
        settled(clients, counts),
        loads_fit(clients, counts, loads),
    ensures
        loads == settled_loads(clients, counts),
{
    assert forall|i: int| 0 <= i < clients.len() implies loads[i] == settled_loads(
        clients,
        counts,
    )[i] by {
        assert(load_fits(clients[i], counts, loads[i]));
    }
    assert(loads =~= settled_loads(clients, counts));
}

/// Each client with its load.
pub open spec fn with_loads(clients: Seq<Client>, loads: Seq<Option<i32>>) -> Seq<Member> {
    Seq::new(clients.len(), |i: int| (clients[i], loads[i]))
}

/// The members of priority `p` among `members`, in their order.
pub open spec fn tier_of(members: Seq<Member>, p: i32) -> Seq<Member> {
    members.filter(|member: Member| member.0.priority == p)
}

/// The tiers of `members`: one for each priority that occurs, holding the
/// members of that priority in their order.
pub open spec fn grouping(members: Seq<Member>) -> Map<i32, Seq<Member>> {
    Map::new(|p: i32| tier_of(members, p).len() > 0, |p: i32| tier_of(members, p))
}

/// The load of `client` according to `counts`.
pub fn current_load(client: &Client, counts: &JobCounts) -> (load: Option<i32>)
    ensures
        load_fits(*client, counts@, load),
{
    match client.id {
        Some(id) => counts.count_of(&id),
        None => {
            let fresh = bson_default();
            counts.count_of(&fresh)
        },
    }
}

/// Sorts `members` into tiers by priority. Within a tier the members keep
/// the order in which they came.
pub fn group_by_priority(members: Vec<Member>) -> (grouped: GroupedClients)
    ensures
        tiers_of(grouped) == grouping(members@),
{
    broadcast use vstd::std_specs::btree::group_btree_axioms;
    broadcast use vstd::laws_cmp::group_laws_cmp;

    let mut dict: GroupedClients = BTreeMap::new();
    assert(tiers_of(dict) =~= grouping(Seq::empty())) by {
        reveal(Seq::filter);
    }
    for member in seen: members
        invariant
            tiers_of(dict) == grouping(seen.seq().take(seen.index())),
    {
        let ghost before = seen.seq().take(seen.index());
        let ghost old_dict = dict;
        let prio = member.0.priority;
        let mut tier = match dict.remove(&prio) {
            Some(tier) => tier,
            None => Vec::new(),
        };
        let ghost held = tier@;
        tier.push(member);
        dict.insert(prio, tier);
        proof {
            assert(held == tier_of(before, prio)) by {
                if tiers_of(old_dict).contains_key(prio) {
                    assert(old_dict@.contains_key(prio));
                    assert(tiers_of(old_dict)[prio] == old_dict@[prio]@);
                } else {
                    assert(!old_dict@.contains_key(prio));
                    assert(tier_of(before, prio) =~= Seq::empty());
                }
            }
            assert(dict@ =~= old_dict@.remove(prio).insert(prio, tier));
            assert(tier@ == held.push(member));
            let after = seen.seq().take(seen.index() + 1);
            assert(after =~= before.push(member));
            assert forall|p: i32| #[trigger] tier_of(after, p) == if p == prio {
                tier_of(before, p).push(member)
            } else {
                tier_of(before, p)
            } by {
                lemma_filter_push(before, member, |held: Member| held.0.priority == p);
            }
            assert forall|p: i32| tiers_of(dict).contains_key(p) <==> grouping(
                after,
            ).contains_key(p) by {
                if p != prio {
                    assert(tiers_of(old_dict).contains_key(p) <==> grouping(before).contains_key(
                        p,
                    ));
                }
            }
            assert forall|p: i32| tiers_of(dict).contains_key(p) implies tiers_of(dict)[p]
                == grouping(after)[p] by {
                if p != prio {
                    assert(tiers_of(old_dict).contains_key(p));
                    assert(tiers_of(old_dict)[p] == grouping(before)[p]);
                }
            }
            assert(tiers_of(dict) =~= grouping(after));
        }
    }
    proof {
        lemma_take_all(members@);
    }
    dict
}

/// Groups the clients into priority tiers and attaches to each its load
/// according to `machine_jobcounts`.
///
/// The map that comes back has one tier for each priority that occurs among
/// the clients. Each tier holds the clients of that priority in the order of
/// `client_vec`, each with a load that fits it: the count recorded under its
/// identity string, or none where nothing is recorded.
pub fn group_clients(client_vec: Vec<Client>, machine_jobcounts: JobCounts) -> (grouped:
    GroupedClients)
    ensures
        exists|loads: Seq<Option<i32>>| #[trigger]
            loads_fit(client_vec@, machine_jobcounts@, loads) && tiers_of(grouped) == grouping(
                with_loads(client_vec@, loads),
            ),
        settled(client_vec@, machine_jobcounts@) ==> tiers_of(grouped) == grouping(
            with_loads(client_vec@, settled_loads(client_vec@, machine_jobcounts@)),
        ),
{
    let ghost clients = client_vec@;
    let ghost mut loads: Seq<Option<i32>> = Seq::empty();
    let mut members: Vec<Member> = Vec::new();
    for client in seen: client_vec
        invariant
            seen.seq() == clients,
            loads.len() == seen.index(),
            members@.len() == seen.index(),
            forall|i: int|
                0 <= i < seen.index() ==> load_fits(
                    clients[i],
                    machine_jobcounts@,
                    #[trigger] loads[i],
                ),
            forall|i: int|
                0 <= i < seen.index() ==> #[trigger] members@[i] == (clients[i], loads[i]),
    {
        let job_count = current_load(&client, &machine_jobcounts);
        proof {
            loads = loads.push(job_count);
        }
        members.push((client, job_count));
    }
    let grouped = group_by_priority(members);
    proof {
        assert(members@ =~= with_loads(clients, loads));
        assert(loads_fit(clients, machine_jobcounts@, loads));
        if settled(clients, machine_jobcounts@) {
            lemma_settled_loads(clients, machine_jobcounts@, loads);
        }
    }
    grouped
}

} // verus!
