use infuser::{get_eligible_client, group_clients, select, Client, JobCounts, ObjectId};
use std::collections::BTreeMap;

fn oid(n: u8) -> ObjectId {
    ObjectId::from_bytes([0, 0, 0, 0, 0, 0, 0, 0, 0, 0, 0, n])
}

fn client(n: u8, priority: i32, online: bool, maximum_jobs: i32) -> Client {
    Client {
        id: Some(oid(n)),
        name: format!("client-{}", n),
        availability_start: String::new(),
        availability_end: String::new(),
        maximum_jobs,
        priority,
        online,
        ignore_online: false,
    }
}

fn unsaved(name: &str, priority: i32, maximum_jobs: i32) -> Client {
    Client {
        id: None,
        name: name.to_string(),
        availability_start: String::new(),
        availability_end: String::new(),
        maximum_jobs,
        priority,
        online: true,
        ignore_online: false,
    }
}

fn counts(entries: &[(u8, i32)]) -> JobCounts {
    let mut counts = JobCounts::new();
    for (n, count) in entries {
        counts.insert(oid(*n).to_hex(), *count);
    }
    counts
}

fn copies(clients: &[Client]) -> Vec<Client> {
    clients.to_vec()
}

#[test]
fn single_idle_client_is_chosen_with_count_zero() {
    let clients = vec![client(1, 1, true, 5)];
    let (chosen, count, max) = select(clients, counts(&[]), &vec![]).unwrap();
    assert_eq!(chosen.id, Some(oid(1)));
    assert_eq!(count, 0);
    assert_eq!(max, 5);
}

#[test]
fn falls_through_to_next_tier_when_first_is_offline() {
    let clients = vec![client(1, 1, false, 5), client(2, 2, true, 3)];
    let (chosen, count, max) = select(clients, counts(&[]), &vec![]).unwrap();
    assert_eq!(chosen.id, Some(oid(2)));
    assert_eq!(count, 0);
    assert_eq!(max, 3);
}

#[test]
fn client_at_capacity_is_not_chosen() {
    let clients = vec![client(1, 1, true, 2)];
    let err = select(clients, counts(&[(1, 2)]), &vec![]).unwrap_err();
    assert_eq!(err.message, "no eligible client found");
    assert_eq!(err.to_string(), "no eligible client found");
}

#[test]
fn lower_count_wins_within_a_tier() {
    let clients = vec![client(1, 1, true, 5), client(2, 1, true, 5)];
    let (chosen, count, max) = select(clients, counts(&[(1, 3), (2, 1)]), &vec![]).unwrap();
    assert_eq!(chosen.id, Some(oid(2)));
    assert_eq!(count, 1);
    assert_eq!(max, 5);
}

#[test]
fn excluded_client_gives_way_to_the_next_best() {
    let clients = vec![client(1, 1, true, 5), client(2, 1, true, 5)];
    let excluded = vec![client(2, 1, true, 5)];
    let (chosen, count, max) = select(clients, counts(&[(1, 3), (2, 1)]), &excluded).unwrap();
    assert_eq!(chosen.id, Some(oid(1)));
    assert_eq!(count, 3);
    assert_eq!(max, 5);
}

#[test]
fn nobody_online_means_no_client() {
    let clients = vec![client(1, 1, false, 5), client(2, 1, false, 5), client(3, 7, false, 1)];
    let err = select(clients, counts(&[(2, 1)]), &vec![]).unwrap_err();
    assert_eq!(err.message, "no eligible client found");
}

#[test]
fn empty_client_list_means_no_client() {
    let err = select(Vec::new(), counts(&[(1, 1)]), &vec![]).unwrap_err();
    assert_eq!(err.message, "no eligible client found");
}

#[test]
fn ignore_online_lets_an_offline_client_work() {
    let mut sleeper = client(1, 1, false, 4);
    sleeper.ignore_online = true;
    let (chosen, count, max) = select(vec![sleeper], counts(&[(1, 3)]), &vec![]).unwrap();
    assert_eq!(chosen.id, Some(oid(1)));
    assert_eq!((count, max), (3, 4));
}

#[test]
fn chosen_client_comes_from_the_lowest_tier_with_a_candidate() {
    let clients = vec![
        client(1, 5, true, 9),
        client(2, 3, true, 1),
        client(3, 3, false, 9),
        client(4, 4, true, 9),
        client(5, -2, true, 2),
    ];
    // tier -2 is full, tier 3 has one full and one offline member
    let loads = counts(&[(5, 2), (2, 1), (4, 8), (1, 0)]);
    let (chosen, count, max) = select(clients, loads, &vec![]).unwrap();
    assert_eq!(chosen.id, Some(oid(4)));
    assert_eq!((count, max), (8, 9));
}

#[test]
fn a_better_client_in_a_later_tier_is_not_looked_at() {
    let clients = vec![client(1, 2, true, 10), client(2, 1, true, 10)];
    let (chosen, count, _) = select(clients, counts(&[(1, 0), (2, 9)]), &vec![]).unwrap();
    assert_eq!(chosen.id, Some(oid(2)));
    assert_eq!(count, 9);
}

#[test]
fn recorded_count_is_below_capacity() {
    let clients = vec![client(1, 1, true, 3), client(2, 1, true, 2), client(3, 1, true, 7)];
    let (chosen, count, max) =
        select(clients, counts(&[(1, 3), (2, 2), (3, 6)]), &vec![]).unwrap();
    assert_eq!(chosen.id, Some(oid(3)));
    assert!(count < max);
    assert_eq!((count, max), (6, 7));
}

#[test]
fn client_of_unknown_load_is_chosen_even_without_capacity() {
    let clients = vec![client(1, 1, true, 0)];
    let (chosen, count, max) = select(clients, counts(&[]), &vec![]).unwrap();
    assert_eq!(chosen.id, Some(oid(1)));
    assert_eq!((count, max), (0, 0));
}

#[test]
fn client_of_known_load_without_capacity_is_not_chosen() {
    let clients = vec![client(1, 1, true, 0)];
    assert!(select(clients, counts(&[(1, 0)]), &vec![]).is_err());
}

#[test]
fn same_input_gives_same_result() {
    let clients = vec![
        client(1, 2, true, 4),
        client(2, 2, true, 4),
        client(3, 2, true, 4),
        client(4, 1, false, 4),
    ];
    let excluded = vec![client(3, 2, true, 4)];
    let first = select(copies(&clients), counts(&[(1, 2), (2, 2), (3, 0)]), &excluded).unwrap();
    let second = select(copies(&clients), counts(&[(1, 2), (2, 2), (3, 0)]), &excluded).unwrap();
    assert_eq!(first.0.id, Some(oid(1)));
    assert_eq!(first.0.id, second.0.id);
    assert_eq!(first.0.name, second.0.name);
    assert_eq!((first.1, first.2), (second.1, second.2));
    assert_eq!((first.1, first.2), (2, 4));
}

#[test]
fn exclusion_is_the_same_as_removal() {
    let all = vec![client(1, 1, true, 5), client(2, 1, true, 5), client(3, 2, true, 5)];
    let excluded = vec![client(1, 1, true, 5), client(2, 1, true, 5)];
    let with_exclusion =
        select(copies(&all), counts(&[(1, 0), (2, 1), (3, 4)]), &excluded).unwrap();
    let removed = vec![client(3, 2, true, 5)];
    let with_removal = select(removed, counts(&[(1, 0), (2, 1), (3, 4)]), &vec![]).unwrap();
    assert_eq!(with_exclusion.0.id, Some(oid(3)));
    assert_eq!(with_exclusion.0.id, with_removal.0.id);
    assert_eq!((with_exclusion.1, with_exclusion.2), (4, 5));
    assert_eq!((with_removal.1, with_removal.2), (4, 5));
}

#[test]
fn only_eligible_client_excluded_means_no_client() {
    let clients = vec![client(1, 1, true, 5), client(2, 1, false, 5)];
    let excluded = vec![client(1, 9, false, 0)];
    assert!(select(clients, counts(&[]), &excluded).is_err());
}

#[test]
fn unsaved_clients_are_excluded_by_name() {
    let clients = vec![unsaved("alpha", 1, 5), unsaved("beta", 1, 5)];
    let excluded = vec![unsaved("beta", 3, 1)];
    let (chosen, count, max) = select(clients, counts(&[]), &excluded).unwrap();
    assert_eq!(chosen.name, "alpha");
    assert_eq!(chosen.id, None);
    assert_eq!((count, max), (0, 5));
}

#[test]
fn unsaved_client_has_no_load() {
    let clients = vec![client(1, 1, true, 5), unsaved("fresh", 1, 5)];
    let (chosen, count, _) = select(clients, counts(&[(1, 0)]), &vec![]).unwrap();
    assert_eq!(chosen.name, "fresh");
    assert_eq!(count, 0);
}

#[test]
fn last_client_of_unknown_load_wins() {
    let clients = vec![client(1, 1, true, 5), client(2, 1, true, 5), client(3, 1, true, 5)];
    let grouped = group_clients(clients, counts(&[(3, 0)]));
    let (chosen, count, max) = get_eligible_client(&grouped, &vec![]).unwrap();
    assert_eq!(chosen.id, Some(oid(2)));
    assert_eq!((count, max), (0, 5));
}

#[test]
fn first_client_of_least_known_load_wins() {
    let clients = vec![
        client(1, 1, true, 5),
        client(2, 1, true, 5),
        client(3, 1, true, 5),
        client(4, 1, true, 5),
    ];
    let grouped = group_clients(clients, counts(&[(1, 4), (2, 2), (3, 2), (4, 3)]));
    let (chosen, count, _) = get_eligible_client(&grouped, &vec![]).unwrap();
    assert_eq!(chosen.id, Some(oid(2)));
    assert_eq!(count, 2);
}

#[test]
fn unknown_load_replaces_a_lower_known_load() {
    let mut tiers = BTreeMap::new();
    tiers.insert(1, vec![(client(1, 1, true, 5), Some(-4)), (client(2, 1, true, 5), None)]);
    let (chosen, count, _) = get_eligible_client(&tiers, &vec![]).unwrap();
    assert_eq!(chosen.id, Some(oid(2)));
    assert_eq!(count, 0);
}

#[test]
fn negative_known_load_replaces_an_unknown_load() {
    let mut tiers = BTreeMap::new();
    tiers.insert(
        1,
        vec![
            (client(1, 1, true, 5), None),
            (client(2, 1, true, 5), Some(0)),
            (client(3, 1, true, 5), Some(-1)),
        ],
    );
    let (chosen, count, max) = get_eligible_client(&tiers, &vec![]).unwrap();
    assert_eq!(chosen.id, Some(oid(3)));
    assert_eq!((count, max), (-1, 5));
}

#[test]
fn tiers_are_tried_in_ascending_order_of_their_number() {
    let mut tiers = BTreeMap::new();
    tiers.insert(10, vec![(client(1, 10, true, 5), Some(0))]);
    tiers.insert(-3, vec![(client(2, -3, true, 5), Some(4))]);
    tiers.insert(2, vec![(client(3, 2, true, 5), None)]);
    let (chosen, count, _) = get_eligible_client(&tiers, &vec![]).unwrap();
    assert_eq!(chosen.id, Some(oid(2)));
    assert_eq!(count, 4);
}

#[test]
fn empty_snapshot_gives_the_error() {
    let tiers: BTreeMap<i32, Vec<(Client, Option<i32>)>> = BTreeMap::new();
    let err = get_eligible_client(&tiers, &vec![]).unwrap_err();
    assert_eq!(err.message, "no eligible client found");
}

#[test]
fn count_at_the_largest_integer_is_never_below_capacity() {
    let mut tiers = BTreeMap::new();
    tiers.insert(1, vec![(client(1, 1, true, i32::MAX), Some(i32::MAX))]);
    assert!(get_eligible_client(&tiers, &vec![]).is_err());
    let mut tiers = BTreeMap::new();
    tiers.insert(1, vec![(client(1, 1, true, i32::MAX), Some(i32::MAX - 1))]);
    let (_, count, max) = get_eligible_client(&tiers, &vec![]).unwrap();
    assert_eq!((count, max), (i32::MAX - 1, i32::MAX));
}
