//! What holds of every selection, proved from the definitions.

use vstd::prelude::*;
use crate::client::Client;
use crate::group::{
    grouping, lemma_settled_loads, loads_fit, settled, tier_of, with_loads, Member,
};
use crate::seqs::{lemma_filter_push, lemma_filters_commute, lemma_take_all};
use crate::select::{
    decides, idle, in_play, is_candidate, is_excluded, outcome, pick, recorded, reports, scan,
    selects, tier_pick, tier_yields, InfuserError,
};

verus! {

/// What a scan of the first `upto` members finds. If it finds a member, that
/// member is a candidate and the count is the one recorded for it; no member
/// after it is of unknown load and in play, and no candidate after it has a
/// lower load. If it finds none, there is no candidate.
pub proof fn lemma_scan_finds(tier: Seq<Member>, excluded: Seq<Client>, upto: int)
    requires
        0 <= upto <= tier.len(),
    ensures
        match scan(tier, excluded, upto) {
            Some((at, count)) => {
                &&& 0 <= at < upto
                &&& is_candidate(tier[at], excluded)
                &&& count == recorded(tier[at])
                &&& forall|j: int| at < j < upto ==> !idle(#[trigger] tier[j], excluded)
                &&& forall|j: int|
                    at < j < upto && is_candidate(#[trigger] tier[j], excluded) ==> recorded(
                        tier[j],
                    ) >= count
            },
            None => forall|j: int| 0 <= j < upto ==> !is_candidate(#[trigger] tier[j], excluded),
        },
    decreases upto,
{
    if upto > 0 {
        lemma_scan_finds(tier, excluded, upto - 1);
    }
}

/// Among members whose loads are all known, the least loaded candidate gets
/// the job, and of several with that load the first.
pub proof fn law_least_loaded_wins(
    tier: Seq<Member>,
    excluded: Seq<Client>,
    upto: int,
)
    requires
        0 <= upto <= tier.len(),
        forall|j: int| 0 <= j < upto ==> !idle(#[trigger] tier[j], excluded),
    ensures
        scan(tier, excluded, upto) matches Some((at, count)) ==> {
            &&& forall|j: int|
                0 <= j < at && is_candidate(#[trigger] tier[j], excluded) ==> recorded(tier[j])
                    > count
            &&& forall|j: int|
                at < j < upto && is_candidate(#[trigger] tier[j], excluded) ==> recorded(
                    tier[j],
                ) >= count
        },
    decreases upto,
{
    if upto > 0 {
        law_least_loaded_wins(tier, excluded, upto - 1);
        lemma_scan_finds(tier, excluded, upto - 1);
        lemma_scan_finds(tier, excluded, upto);
    }
}

/// Where no known load is negative, the last member of unknown load that is
/// in play gets the job, with count 0.
pub proof fn law_last_idle_wins(
    tier: Seq<Member>,
    excluded: Seq<Client>,
    upto: int,
    last: int,
)
    requires
        0 <= last < upto <= tier.len(),
        idle(tier[last], excluded),
        forall|j: int| last < j < upto ==> !idle(#[trigger] tier[j], excluded),
        forall|j: int| 0 <= j < upto && in_play((#[trigger] tier[j]).0, excluded) ==> recorded(
            tier[j],
        ) >= 0,
    ensures
        scan(tier, excluded, upto) == Some((last, 0i32)),
    decreases upto,
{
    if last < upto - 1 {
        law_last_idle_wins(tier, excluded, upto - 1, last);
    }
}

/// Whether the member at `before` leaves the choice to the one at `at`, which
/// comes later and has a known load. A member of unknown load that is in play
/// does so only if the later load is negative. A candidate of known load does
/// so if its load is higher, unless a member of unknown load that is in play
/// stands between the two.
pub open spec fn gives_way(tier: Seq<Member>, excluded: Seq<Client>, before: int, at: int) -> bool {
    &&& idle(tier[before], excluded) ==> recorded(tier[at]) < 0
    &&& is_candidate(tier[before], excluded) && !idle(tier[before], excluded) && (forall|k: int|
        before < k < at ==> !idle(#[trigger] tier[k], excluded)) ==> recorded(tier[before])
        > recorded(tier[at])
}

/// Whether the member at `at` is the one that gets the job among the first
/// `upto` members, said without going through them one by one.
///
/// It is a candidate. After it stands no member of unknown load that is in
/// play, and no candidate of a lower load. If its own load is known, every
/// member before it gives way to it.
pub open spec fn wins(tier: Seq<Member>, excluded: Seq<Client>, at: int, upto: int) -> bool {
    &&& 0 <= at < upto
    &&& is_candidate(tier[at], excluded)
    &&& forall|j: int| at < j < upto ==> !idle(#[trigger] tier[j], excluded)
    &&& forall|j: int|
        at < j < upto && is_candidate(#[trigger] tier[j], excluded) ==> recorded(tier[j])
            >= recorded(tier[at])
    &&& tier[at].1 is Some ==> forall|j: int|
        0 <= j < at ==> #[trigger] gives_way(tier, excluded, j, at)
}

/// At most one member wins.
pub proof fn lemma_wins_once(
    tier: Seq<Member>,
    excluded: Seq<Client>,
    a: int,
    b: int,
    upto: int,
)
    requires
        upto <= tier.len(),
        wins(tier, excluded, a, upto),
        wins(tier, excluded, b, upto),
    ensures
        a == b,
{
    if a < b {
        assert(!idle(tier[b], excluded));
        assert(gives_way(tier, excluded, a, b));
    }
    if b < a {
        assert(!idle(tier[a], excluded));
        assert(gives_way(tier, excluded, b, a));
    }
}

/// The member that a scan finds is the one that wins, and the count is the
/// one recorded for it.
pub proof fn lemma_scan_wins(tier: Seq<Member>, excluded: Seq<Client>, upto: int)
    requires
        0 <= upto <= tier.len(),
    ensures
        scan(tier, excluded, upto) matches Some((at, count)) ==> wins(tier, excluded, at, upto)
            && count == recorded(tier[at]),
    decreases upto,
{
    if upto > 0 {
        lemma_scan_wins(tier, excluded, upto - 1);
        lemma_scan_finds(tier, excluded, upto - 1);
        let last = upto - 1;
        let before = scan(tier, excluded, last);
        if scan(tier, excluded, upto) is Some {
            let (at, count) = scan(tier, excluded, upto)->0;
            if at == last {
                if tier[last].1 is Some {
                    assert forall|j: int| 0 <= j < last implies #[trigger] gives_way(
                        tier,
                        excluded,
                        j,
                        last,
                    ) by {
                        if before is Some {
                            let (held, _) = before->0;
                            if j < held && tier[held].1 is Some {
                                assert(gives_way(tier, excluded, j, held));
                            }
                        }
                    }
                }
            } else {
                assert(before == Some((at, count)));
                if tier[at].1 is Some {
                    assert forall|j: int| 0 <= j < at implies #[trigger] gives_way(
                        tier,
                        excluded,
                        j,
                        at,
                    ) by {
                        assert(wins(tier, excluded, at, last));
                    }
                }
            }
        }
    }
}

/// The member of a tier that gets the job is the one that wins, with the
/// count recorded for it; and a tier without a candidate gives none.
pub proof fn law_tier_pick_wins(tier: Seq<Member>, excluded: Seq<Client>)
    ensures
        forall|at: int| #[trigger]
            wins(tier, excluded, at, tier.len() as int) <==> tier_pick(tier, excluded) == Some(
                (at, recorded(tier[at])),
            ),
        tier_pick(tier, excluded) is None <==> forall|j: int|
            0 <= j < tier.len() ==> !is_candidate(#[trigger] tier[j], excluded),
{
    let n = tier.len() as int;
    lemma_scan_wins(tier, excluded, n);
    lemma_scan_finds(tier, excluded, n);
    assert forall|at: int| #[trigger]
        wins(tier, excluded, at, n) implies tier_pick(tier, excluded) == Some(
        (at, recorded(tier[at])),
    ) by {
        let (found, _) = tier_pick(tier, excluded)->0;
        lemma_wins_once(tier, excluded, at, found, n);
    }
}

/// A tier holds members of its own priority only, all of them taken from the
/// list that was grouped, and it holds each member of the list that has its
/// priority.
pub proof fn lemma_tier_members(members: Seq<Member>, p: i32)
    ensures
        forall|k: int|
            0 <= k < tier_of(members, p).len() ==> (#[trigger] tier_of(members, p)[k]).0.priority
                == p && members.contains(tier_of(members, p)[k]),
        forall|i: int|
            0 <= i < members.len() && (#[trigger] members[i]).0.priority == p ==> tier_of(
                members,
                p,
            ).contains(members[i]),
{
    let of_p = |member: Member| member.0.priority == p;
    assert forall|k: int| 0 <= k < tier_of(members, p).len() implies (#[trigger] tier_of(
        members,
        p,
    )[k]).0.priority == p && members.contains(tier_of(members, p)[k]) by {
        members.lemma_filter_pred(of_p, k);
        assert(members.filter(of_p).contains(members.filter(of_p)[k]));
        members.lemma_filter_contains_rev(of_p, members.filter(of_p)[k]);
    }
    assert forall|i: int|
        0 <= i < members.len() && (#[trigger] members[i]).0.priority == p implies tier_of(
        members,
        p,
    ).contains(members[i]) by {
        members.lemma_filter_contains(of_p, i);
    }
}

/// The tier of priority `p` yields exactly if the list holds a candidate of
/// that priority.
pub proof fn lemma_tier_yields(
    members: Seq<Member>,
    excluded: Seq<Client>,
    p: i32,
)
    ensures
        tier_yields(grouping(members), excluded, p) <==> exists|i: int|
            0 <= i < members.len() && is_candidate(#[trigger] members[i], excluded)
                && members[i].0.priority == p,
{
    let tier = tier_of(members, p);
    lemma_tier_members(members, p);
    lemma_scan_finds(tier, excluded, tier.len() as int);
    if tier_yields(grouping(members), excluded, p) {
        let (at, _) = tier_pick(tier, excluded)->0;
        assert(members.contains(tier[at]));
        let i = choose|i: int| 0 <= i < members.len() && members[i] == tier[at];
        assert(is_candidate(members[i], excluded) && members[i].0.priority == p);
    }
    if exists|i: int|
        0 <= i < members.len() && is_candidate(#[trigger] members[i], excluded)
            && members[i].0.priority == p {
        let i = choose|i: int|
            0 <= i < members.len() && is_candidate(#[trigger] members[i], excluded)
                && members[i].0.priority == p;
        assert(tier.contains(members[i]));
        let k = choose|k: int| 0 <= k < tier.len() && tier[k] == members[i];
        assert(is_candidate(tier[k], excluded));
    }
}

/// Where a tier yields, some tier decides: the one of the lowest number that
/// yields.
pub proof fn lemma_some_tier_decides(
    tiers: Map<i32, Seq<Member>>,
    excluded: Seq<Client>,
    p: i32,
)
    requires
        tier_yields(tiers, excluded, p),
    ensures
        exists|q: i32| q <= p && decides(tiers, excluded, q),
    decreases p - i32::MIN,
{
    if exists|q: i32| q < p && tier_yields(tiers, excluded, q) {
        let q = choose|q: i32| q < p && tier_yields(tiers, excluded, q);
        lemma_some_tier_decides(tiers, excluded, q);
    } else {
        assert(decides(tiers, excluded, p));
    }
}

/// The outcome is that of the tier that decides.
pub proof fn lemma_pick_of_tier(
    tiers: Map<i32, Seq<Member>>,
    excluded: Seq<Client>,
    p: i32,
)
    requires
        decides(tiers, excluded, p),
    ensures
        ({
            let (at, count) = tier_pick(tiers[p], excluded)->0;
            pick(tiers, excluded) == Some((tiers[p][at].0, count, tiers[p][at].0.maximum_jobs))
        }),
{
    let q = choose|q: i32| decides(tiers, excluded, q);
    assert(q == p);
}

/// There is no outcome exactly if no tier yields.
pub proof fn lemma_pick_nothing(
    tiers: Map<i32, Seq<Member>>,
    excluded: Seq<Client>,
)
    ensures
        pick(tiers, excluded) is None <==> forall|p: i32| !tier_yields(tiers, excluded, p),
{
    if exists|p: i32| tier_yields(tiers, excluded, p) {
        let p = choose|p: i32| tier_yields(tiers, excluded, p);
        lemma_some_tier_decides(tiers, excluded, p);
    }
}

/// The chosen client is a candidate of the list, and no candidate of the list
/// has a lower priority number: the tier of the lowest number that holds a
/// candidate decides. Where the list holds no candidate, and only then,
/// nothing is chosen.
pub proof fn law_lowest_tier_decides(members: Seq<Member>, excluded: Seq<Client>)
    ensures
        match outcome(members, excluded) {
            Some((client, count, max)) => {
                &&& exists|i: int|
                    0 <= i < members.len() && (#[trigger] members[i]).0 == client && is_candidate(
                        members[i],
                        excluded,
                    ) && count == recorded(members[i])
                &&& max == client.maximum_jobs
                &&& forall|j: int|
                    0 <= j < members.len() && is_candidate(#[trigger] members[j], excluded)
                        ==> client.priority <= members[j].0.priority
            },
            None => forall|j: int|
                0 <= j < members.len() ==> !is_candidate(#[trigger] members[j], excluded),
        },
{
    let tiers = grouping(members);
    lemma_pick_nothing(tiers, excluded);
    assert forall|j: int|
        0 <= j < members.len() && is_candidate(
            #[trigger] members[j],
            excluded,
        ) implies tier_yields(tiers, excluded, members[j].0.priority) by {
        lemma_tier_yields(members, excluded, members[j].0.priority);
    }
    if outcome(members, excluded) is Some {
        let p = choose|p: i32| decides(tiers, excluded, p);
        lemma_pick_of_tier(tiers, excluded, p);
        let tier = tier_of(members, p);
        let (at, _) = tier_pick(tier, excluded)->0;
        lemma_scan_finds(tier, excluded, tier.len() as int);
        lemma_tier_members(members, p);
        assert(members.contains(tier[at]));
        let i = choose|i: int| 0 <= i < members.len() && members[i] == tier[at];
        assert(members[i].0 == tier[at].0);
    }
}

/// No member that is in play and whose recorded count is below its capacity
/// stands in a tier of a lower number than the chosen client.
pub proof fn law_no_lower_tier_has_room(members: Seq<Member>, excluded: Seq<Client>)
    ensures
        outcome(members, excluded) matches Some((client, _, _)) ==> forall|j: int|
            0 <= j < members.len() && in_play((#[trigger] members[j]).0, excluded) && recorded(
                members[j],
            ) < members[j].0.maximum_jobs ==> client.priority <= members[j].0.priority,
{
    law_lowest_tier_decides(members, excluded);
}

/// Where no client is available, nothing is chosen.
pub proof fn law_nobody_available(members: Seq<Member>, excluded: Seq<Client>)
    requires
        forall|i: int| 0 <= i < members.len() ==> !(#[trigger] members[i]).0.available(),
    ensures
        outcome(members, excluded) is None,
{
    law_lowest_tier_decides(members, excluded);
}

/// A client that the caller ruled out is never chosen.
pub proof fn law_excluded_never_chosen(members: Seq<Member>, excluded: Seq<Client>)
    ensures
        outcome(members, excluded) matches Some((client, _, _)) ==> !is_excluded(client, excluded),
{
    law_lowest_tier_decides(members, excluded);
}

/// Whether the chosen client is one of unknown load that has no capacity at
/// all. Such a client counts as idle and is chosen with count 0, although 0 is
/// not below its capacity.
pub open spec fn idle_without_room(members: Seq<Member>, excluded: Seq<Client>)
    -> bool {
    outcome(members, excluded) matches Some((_, count, max)) && count == 0 && max <= 0
}

/// The count recorded for the chosen client is below its capacity, unless the
/// chosen client is one of unknown load without capacity.
pub proof fn law_count_below_capacity(members: Seq<Member>, excluded: Seq<Client>)
    requires
        !idle_without_room(members, excluded),
    ensures
        outcome(members, excluded) matches Some((_, count, max)) ==> count < max,
{
    law_lowest_tier_decides(members, excluded);
}

/// Only a client of unknown load can be chosen without capacity.
pub proof fn law_only_idle_without_room(
    members: Seq<Member>,
    excluded: Seq<Client>,
)
    requires
        idle_without_room(members, excluded),
    ensures
        exists|i: int|
            0 <= i < members.len() && idle(#[trigger] members[i], excluded) && outcome(
                members,
                excluded,
            ) == Some((members[i].0, 0i32, members[i].0.maximum_jobs)),
{
    law_lowest_tier_decides(members, excluded);
    let (client, count, max) = outcome(members, excluded)->0;
    let i = choose|i: int|
        0 <= i < members.len() && (#[trigger] members[i]).0 == client && is_candidate(
            members[i],
            excluded,
        ) && count == recorded(members[i]);
    assert(idle(members[i], excluded));
}

/// The members that the caller did not rule out, in their order.
pub open spec fn without(members: Seq<Member>, excluded: Seq<Client>) -> Seq<Member> {
    members.filter(|member: Member| !is_excluded(member.0, excluded))
}

/// The client that a scan of the first `upto` members finds, with the count
/// recorded for it.
pub open spec fn found_in(tier: Seq<Member>, excluded: Seq<Client>, upto: int)
    -> Option<(Client, i32)> {
    match scan(tier, excluded, upto) {
        Some((at, count)) => Some((tier[at].0, count)),
        None => None,
    }
}

/// A scan depends on the members that it looks at, and on no others.
proof fn lemma_scan_prefix(
    a: Seq<Member>,
    b: Seq<Member>,
    excluded: Seq<Client>,
    upto: int,
)
    requires
        0 <= upto <= a.len(),
        upto <= b.len(),
        forall|j: int| 0 <= j < upto ==> a[j] == b[j],
    ensures
        scan(a, excluded, upto) == scan(b, excluded, upto),
    decreases upto,
{
    if upto > 0 {
        lemma_scan_prefix(a, b, excluded, upto - 1);
    }
}

/// A scan finds the same client with the same count whether it skips the
/// members that were ruled out or they were taken away beforehand.
proof fn lemma_scan_without(
    tier: Seq<Member>,
    excluded: Seq<Client>,
    upto: int,
)
    requires
        0 <= upto <= tier.len(),
    ensures
        found_in(tier, excluded, upto) == found_in(
            without(tier.take(upto), excluded),
            Seq::empty(),
            without(tier.take(upto), excluded).len() as int,
        ),
    decreases upto,
{
    let nobody = Seq::<Client>::empty();
    if upto == 0 {
        reveal(Seq::filter);
        assert(tier.take(0) =~= Seq::empty());
    } else {
        lemma_scan_without(tier, excluded, upto - 1);
        let head = tier.take(upto - 1);
        let x = tier[upto - 1];
        assert(tier.take(upto) =~= head.push(x));
        lemma_filter_push(head, x, |member: Member| !is_excluded(member.0, excluded));
        let kept = without(head, excluded);
        let n = kept.len() as int;
        if !is_excluded(x.0, excluded) {
            let more = kept.push(x);
            assert(without(tier.take(upto), excluded) == more);
            lemma_scan_prefix(more, kept, nobody, n);
            lemma_scan_finds(kept, nobody, n);
            assert(!is_excluded(x.0, nobody));
            assert(more[n] == x);
        }
    }
}

/// The outcome is what it would be if the clients that the caller ruled out
/// were not in the list at all.
pub proof fn law_exclusion_is_removal(members: Seq<Member>, excluded: Seq<Client>)
    ensures
        outcome(members, excluded) == outcome(without(members, excluded), Seq::empty()),
{
    let nobody = Seq::<Client>::empty();
    let kept = without(members, excluded);
    let all = grouping(members);
    let rest = grouping(kept);
    assert forall|p: i32|
        found_in(tier_of(members, p), excluded, tier_of(members, p).len() as int) == found_in(
            tier_of(kept, p),
            nobody,
            tier_of(kept, p).len() as int,
        ) && (#[trigger] tier_yields(all, excluded, p) <==> tier_yields(rest, nobody, p)) by {
        let tier = tier_of(members, p);
        lemma_filters_commute(
            members,
            |member: Member| !is_excluded(member.0, excluded),
            |member: Member| member.0.priority == p,
        );
        assert(tier_of(kept, p) == without(tier, excluded));
        lemma_take_all(tier);
        lemma_scan_without(tier, excluded, tier.len() as int);
        lemma_scan_finds(tier, excluded, tier.len() as int);
        lemma_scan_finds(tier_of(kept, p), nobody, tier_of(kept, p).len() as int);
    }
    if exists|p: i32| decides(all, excluded, p) {
        let p = choose|p: i32| decides(all, excluded, p);
        assert forall|q: i32| q < p implies !#[trigger] tier_yields(rest, nobody, q) by {
            assert(!tier_yields(all, excluded, q));
        }
        assert(decides(rest, nobody, p));
        lemma_pick_of_tier(all, excluded, p);
        lemma_pick_of_tier(rest, nobody, p);
    } else {
        assert forall|p: i32| !decides(rest, nobody, p) by {
            if decides(rest, nobody, p) {
                assert forall|q: i32| q < p implies !#[trigger] tier_yields(all, excluded, q) by {
                    assert(!tier_yields(rest, nobody, q));
                }
                assert(decides(all, excluded, p));
            }
        }
    }
}

/// Whether two results of a selection say the same: the same client with the
/// same count and capacity, or the same failure.
pub open spec fn agree(
    first: Result<(Client, i32, i32), InfuserError>,
    second: Result<(Client, i32, i32), InfuserError>,
) -> bool {
    match (first, second) {
        (Ok(a), Ok(b)) => a == b,
        (Err(a), Err(b)) => a.message@ == b.message@,
        _ => false,
    }
}

/// Two selections on the same clients, counts and exclusions give the same
/// result, where the counts settle the load of every client.
pub proof fn law_same_input_same_result(
    clients: Seq<Client>,
    counts: Map<Seq<char>, i32>,
    excluded: Seq<Client>,
    first: Result<(Client, i32, i32), InfuserError>,
    second: Result<(Client, i32, i32), InfuserError>,
)
    requires
        settled(clients, counts),
        selects(clients, counts, excluded, first),
        selects(clients, counts, excluded, second),
    ensures
        agree(first, second),
{
    let loads_first = choose|loads: Seq<Option<i32>>| #[trigger]
        loads_fit(clients, counts, loads) && reports(
            first,
            outcome(with_loads(clients, loads), excluded),
        );
    let loads_second = choose|loads: Seq<Option<i32>>| #[trigger]
        loads_fit(clients, counts, loads) && reports(
            second,
            outcome(with_loads(clients, loads), excluded),
        );
    lemma_settled_loads(clients, counts, loads_first);
    lemma_settled_loads(clients, counts, loads_second);
}

} // verus!
