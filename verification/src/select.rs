//! The selection rule: which client of a grouped snapshot gets the next job.

use vstd::prelude::*;
use vstd::std_specs::btree::increasing_seq;
use crate::client::Client;
use crate::counts::JobCounts;
use crate::group::{
    group_clients, grouping, lemma_settled_loads, loads_fit, settled, settled_loads, tiers_of,
    with_loads, GroupedClients, Member,
};
use crate::laws::law_lowest_tier_decides;
use crate::order::lemma_increasing_priorities;

verus! {

/// The failure of a selection.
#[derive(Debug)]
pub struct InfuserError {
    pub message: String,
}

impl InfuserError {
    /// The text that the error shows when it is printed.
    pub fn to_string(&self) -> (text: String)
        ensures
            text@ == self.message@,
    {
        self.message.clone()
    }
}

/// Whether the caller ruled `client` out: it is the same entity as one of
/// `excluded`.
pub open spec fn is_excluded(client: Client, excluded: Seq<Client>) -> bool {
    exists|j: int| 0 <= j < excluded.len() && (#[trigger] excluded[j]).same_entity(&client)
}

/// Whether `client` is looked at at all: it was not ruled out, and it is
/// available.
pub open spec fn in_play(client: Client, excluded: Seq<Client>) -> bool {
    !is_excluded(client, excluded) && client.available()
}

/// Whether a tier member can be chosen: it is in play, and its load is
/// unknown or below its capacity. A client of unknown load counts as idle,
/// whatever its capacity.
pub open spec fn is_candidate(member: Member, excluded: Seq<Client>) -> bool {
    in_play(member.0, excluded) && match member.1 {
        None => true,
        Some(load) => load < member.0.maximum_jobs,
    }
}

/// The count that is recorded for a member when it is chosen: its load, or 0
/// where the load is unknown.
pub open spec fn recorded(member: Member) -> i32 {
    match member.1 {
        Some(load) => load,
        None => 0i32,
    }
}

/// Whether `member` is in play and of unknown load.
pub open spec fn idle(member: Member, excluded: Seq<Client>) -> bool {
    in_play(member.0, excluded) && member.1 is None
}

/// The count that a known load has to stay below to replace the best member
/// found so far.
pub open spec fn bar(best: Option<(int, i32)>) -> int {
    match best {
        Some((_, count)) => count as int,
        None => i32::MAX as int,
    }
}

/// The best member among the first `upto` of `tier`, as its position and the
/// count recorded for it, after they were looked at one by one in order.
///
/// A member that is not in play changes nothing. One of unknown load becomes
/// the best with count 0, whatever was found before it. One of known load
/// becomes the best if that load is below its own capacity and below the count
/// recorded so far.
pub open spec fn scan(tier: Seq<Member>, excluded: Seq<Client>, upto: int)
    -> Option<(int, i32)>
    decreases upto,
{
    if upto <= 0 {
        None
    } else {
        let before = scan(tier, excluded, upto - 1);
        let member = tier[upto - 1];
        if !in_play(member.0, excluded) {
            before
        } else {
            match member.1 {
                None => Some((upto - 1, 0i32)),
                Some(load) => if load < bar(before) && load < member.0.maximum_jobs {
                    Some((upto - 1, load))
                } else {
                    before
                },
            }
        }
    }
}

/// The member of `tier` that gets the job, if the tier has one to give.
pub open spec fn tier_pick(tier: Seq<Member>, excluded: Seq<Client>) -> Option<(int, i32)> {
    scan(tier, excluded, tier.len() as int)
}

/// Whether the tier of priority `p` exists and has a member to give.
pub open spec fn tier_yields(
    tiers: Map<i32, Seq<Member>>,
    excluded: Seq<Client>,
    p: i32,
) -> bool {
    tiers.contains_key(p) && tier_pick(tiers[p], excluded) is Some
}

/// Whether `p` is the tier that decides: it yields, and no tier of a lower
/// number does.
pub open spec fn decides(
    tiers: Map<i32, Seq<Member>>,
    excluded: Seq<Client>,
    p: i32,
) -> bool {
    tier_yields(tiers, excluded, p) && forall|q: i32|
        q < p ==> !#[trigger] tier_yields(tiers, excluded, q)
}

/// The outcome of a selection over `tiers`: the chosen client, the count
/// recorded for it and its capacity; or nothing, where no tier yields.
pub open spec fn pick(tiers: Map<i32, Seq<Member>>, excluded: Seq<Client>)
    -> Option<(Client, i32, i32)> {
    if exists|p: i32| decides(tiers, excluded, p) {
        let p = choose|p: i32| decides(tiers, excluded, p);
        let (at, count) = tier_pick(tiers[p], excluded)->0;
        Some((tiers[p][at].0, count, tiers[p][at].0.maximum_jobs))
    } else {
        None
    }
}

/// Tells whether the caller ruled `client` out.
fn ruled_out(excluded: &Vec<Client>, client: &Client) -> (found: bool)
    ensures
        found == is_excluded(*client, excluded@),
{
    let mut j: usize = 0;
    while j < excluded.len()
        invariant
            j <= excluded.len(),
            forall|k: int| 0 <= k < j ==> !(#[trigger] excluded@[k]).same_entity(client),
        decreases excluded.len() - j,
    {
        if excluded[j] == *client {
            return true;
        }
        j += 1;
    }
    false
}

/// Looks through one tier and returns the position of the member that gets
/// the job, with the count recorded for it.
fn pick_in_tier(tier: &Vec<Member>, excluded: &Vec<Client>) -> (found: Option<(usize, i32)>)
    ensures
        match found {
            Some((at, count)) => tier_pick(tier@, excluded@) == Some((at as int, count)),
            None => tier_pick(tier@, excluded@) is None,
        },
        found matches Some((at, _)) ==> at < tier.len(),
{
    let mut eligible_job_count: i32 = i32::MAX;
    let mut eligible: Option<usize> = None;
    let mut i: usize = 0;
    while i < tier.len()
        invariant
            i <= tier.len(),
            match eligible {
                Some(at) => at < i && scan(tier@, excluded@, i as int) == Some(
                    (at as int, eligible_job_count),
                ),
                None => scan(tier@, excluded@, i as int) is None && eligible_job_count
                    == i32::MAX,
            },
        decreases tier.len() - i,
    {
        let client = &tier[i].0;
        let current_job_count = tier[i].1;
        if !ruled_out(excluded, client) && (client.online || client.ignore_online) {
            match current_job_count {
                Some(count) => {
                    if count < eligible_job_count && count < client.maximum_jobs {
                        eligible = Some(i);
                        eligible_job_count = count;
                    }
                },
                None => {
                    eligible = Some(i);
                    eligible_job_count = 0;
                },
            }
        }
        i += 1;
    }
    match eligible {
        Some(at) => Some((at, eligible_job_count)),
        None => None,
    }
}

/// The priorities of the tiers that a walk over a grouped snapshot visits, in
/// the order of the walk.
spec fn walk_keys(walk: Seq<(&i32, &Vec<Member>)>) -> Seq<i32> {
    walk.map_values(|step: (&i32, &Vec<Member>)| *step.0)
}

/// Two tiers cannot both decide.
proof fn lemma_decides_once(
    tiers: Map<i32, Seq<Member>>,
    excluded: Seq<Client>,
    p: i32,
    q: i32,
)
    requires
        decides(tiers, excluded, p),
        decides(tiers, excluded, q),
    ensures
        p == q,
{
}

/// Selects the client that gets the next job.
///
/// The tiers are tried in ascending order of their priority number. Within a
/// tier the members are looked at in order, as `scan` says, and the first tier
/// that has a member to give decides: later tiers are not looked at. The
/// result holds the chosen client, the count recorded for it and its capacity.
/// Where no tier yields, the call fails.
pub fn get_eligible_client<'a>(
    grouped_clients: &'a GroupedClients,
    ignored_clients: &Vec<Client>,
) -> (found: Result<(&'a Client, i32, i32), InfuserError>)
    ensures
        match found {
            Ok((client, count, max)) => pick(tiers_of(*grouped_clients), ignored_clients@)
                == Some((*client, count, max)),
            Err(e) => pick(tiers_of(*grouped_clients), ignored_clients@) is None && e.message@
                == "no eligible client found"@,
        },
{
    broadcast use vstd::std_specs::btree::group_btree_axioms;
    broadcast use vstd::laws_cmp::group_laws_cmp;

    let ghost tiers = tiers_of(*grouped_clients);
    let ghost excluded = ignored_clients@;
    for step in walk: grouped_clients.iter()
        invariant
            tiers == tiers_of(*grouped_clients),
            excluded == ignored_clients@,
            increasing_seq(walk_keys(walk.seq())),
            forall|p: i32| #[trigger]
                grouped_clients@.contains_key(p) ==> walk.seq().contains(
                    (&p, &grouped_clients@[p]),
                ),
            forall|j: int|
                0 <= j < walk.seq().len() ==> grouped_clients@.contains_key(
                    *(#[trigger] walk.seq()[j]).0,
                ) && grouped_clients@[*walk.seq()[j].0] == *walk.seq()[j].1,
            forall|j: int|
                0 <= j < walk.index() ==> !tier_yields(
                    tiers,
                    excluded,
                    *(#[trigger] walk.seq()[j]).0,
                ),
    {
        let (priority, members) = step;
        match pick_in_tier(members, ignored_clients) {
            Some((at, count)) => {
                let client = &members[at].0;
                proof {
                    let seen = walk.seq();
                    let here = walk.index();
                    assert(tiers[*priority] == members@);
                    assert(tier_yields(tiers, excluded, *priority));
                    assert forall|q: i32| q < *priority implies !#[trigger] tier_yields(
                        tiers,
                        excluded,
                        q,
                    ) by {
                        if tier_yields(tiers, excluded, q) {
                            assert(grouped_clients@.contains_key(q));
                            let j = choose|j: int|
                                0 <= j < seen.len() && seen[j] == (&q, &grouped_clients@[q]);
                            assert(walk_keys(seen)[j] == q);
                            assert(walk_keys(seen)[here] == *priority);
                            if j > here {
                                lemma_increasing_priorities(walk_keys(seen), here, j);
                            }
                        }
                    }
                    assert(decides(tiers, excluded, *priority));
                    lemma_decides_once(
                        tiers,
                        excluded,
                        *priority,
                        choose|p: i32| decides(tiers, excluded, p),
                    );
                }
                return Ok((client, count, client.maximum_jobs));
            },
            None => {},
        }
    }
    Err(InfuserError { message: "no eligible client found".to_owned() })
}

/// The outcome of a selection over `members`, once they are grouped into
/// tiers by priority.
pub open spec fn outcome(members: Seq<Member>, excluded: Seq<Client>) -> Option<
    (Client, i32, i32),
> {
    pick(grouping(members), excluded)
}

/// Whether `found` reports `outcome`: the chosen client with its count and
/// capacity, or the failure that stands for no client at all.
pub open spec fn reports(
    found: Result<(Client, i32, i32), InfuserError>,
    outcome: Option<(Client, i32, i32)>,
) -> bool {
    match found {
        Ok(chosen) => outcome == Some(chosen),
        Err(e) => outcome is None && e.message@ == "no eligible client found"@,
    }
}

/// Whether `found` can be what a selection gives for these clients, counts
/// and exclusions: it reports the outcome over the clients with loads that
/// fit them.
pub open spec fn selects(
    clients: Seq<Client>,
    counts: Map<Seq<char>, i32>,
    excluded: Seq<Client>,
    found: Result<(Client, i32, i32), InfuserError>,
) -> bool {
    exists|loads: Seq<Option<i32>>| #[trigger]
        loads_fit(clients, counts, loads) && reports(
            found,
            outcome(with_loads(clients, loads), excluded),
        )
}

/// Selects, from a snapshot of all known clients and their active-job counts,
/// the client that gets the next job, leaving out those in `excluded`.
///
/// The clients are grouped into tiers as `group_clients` says, and the choice
/// is made over the tiers as `get_eligible_client` says.
pub fn select(clients: Vec<Client>, load_counts: JobCounts, excluded: &Vec<Client>) -> (found:
    Result<(Client, i32, i32), InfuserError>)
    ensures
        selects(clients@, load_counts@, excluded@, found),
        settled(clients@, load_counts@) ==> reports(
            found,
            outcome(with_loads(clients@, settled_loads(clients@, load_counts@)), excluded@),
        ),
        found matches Ok((client, count, max)) ==> {
            &&& clients@.contains(client)
            &&& client.available()
            &&& !is_excluded(client, excluded@)
            &&& max == client.maximum_jobs
            &&& count < max || (count == 0 && max <= 0)
        },
        (forall|i: int| 0 <= i < clients.len() ==> !(#[trigger] clients@[i]).available())
            ==> found is Err,
{
    let ghost counts = load_counts@;
    let ghost listed = clients@;
    let grouped = group_clients(clients, load_counts);
    let found = match get_eligible_client(&grouped, excluded) {
        Ok((client, count, max)) => Ok((client.clone(), count, max)),
        Err(e) => Err(e),
    };
    proof {
        let loads = choose|loads: Seq<Option<i32>>| #[trigger]
            loads_fit(listed, counts, loads) && tiers_of(grouped) == grouping(
                with_loads(listed, loads),
            );
        assert(reports(found, outcome(with_loads(listed, loads), excluded@)));
        law_lowest_tier_decides(with_loads(listed, loads), excluded@);
        if settled(listed, counts) {
            lemma_settled_loads(listed, counts, loads);
        }
    }
    found
}

} // verus!
