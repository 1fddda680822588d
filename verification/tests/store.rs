use infuser::db::{assign_job, job_counts};
use infuser::{AssignedClient, AssignedClientJson, Client, Job, JobCounts, JobJson, ObjectId};

fn oid(n: u8) -> ObjectId {
    ObjectId::from_bytes([n, 0, 0, 0, 0, 0, 0, 0, 0, 0, 0, n])
}

fn client(id: Option<ObjectId>) -> Client {
    Client {
        id,
        name: "worker".to_string(),
        availability_start: String::new(),
        availability_end: String::new(),
        maximum_jobs: 3,
        priority: 1,
        online: true,
        ignore_online: false,
    }
}

fn job() -> Job {
    Job {
        id: Some(oid(0x42)),
        name: "film".to_string(),
        path: "/srv/film.ts".to_string(),
        subtitle: "part one".to_string(),
        custom_parameters: vec!["-crf".to_string(), "21".to_string()],
        assigned_client: AssignedClient {
            collection: "elsewhere".to_string(),
            id: oid(9),
            db: "old".to_string(),
        },
    }
}

#[test]
fn counts_start_empty() {
    let counts = JobCounts::new();
    assert_eq!(counts.len(), 0);
    assert_eq!(counts.get("anything"), None);
    assert_eq!(counts.count_of(&oid(1)), None);
}

#[test]
fn counts_keep_the_last_value_recorded_under_a_key() {
    let mut counts = JobCounts::new();
    counts.insert("a".to_string(), 1);
    counts.insert("b".to_string(), 2);
    counts.insert("a".to_string(), 5);
    assert_eq!(counts.len(), 2);
    assert_eq!(counts.get("a"), Some(5));
    assert_eq!(counts.get("b"), Some(2));
    assert_eq!(counts.get("c"), None);
}

#[test]
fn count_of_an_identity_is_read_under_its_string() {
    let mut counts = JobCounts::new();
    counts.insert("070000000000000000000007".to_string(), 12);
    assert_eq!(counts.count_of(&oid(7)), Some(12));
    assert_eq!(counts.count_of(&oid(8)), None);
}

#[test]
fn rows_are_tallied_under_the_identity_strings() {
    let rows = vec![(oid(1), 3), (oid(2), 1), (oid(3), 0)];
    let counts = job_counts(&rows);
    assert_eq!(counts.len(), 3);
    assert_eq!(counts.get("010000000000000000000001"), Some(3));
    assert_eq!(counts.get("020000000000000000000002"), Some(1));
    assert_eq!(counts.get("030000000000000000000003"), Some(0));
    assert_eq!(counts.get("040000000000000000000004"), None);
}

#[test]
fn the_later_of_two_rows_for_one_client_stands() {
    let rows = vec![(oid(1), 3), (oid(2), 1), (oid(1), 8)];
    let counts = job_counts(&rows);
    assert_eq!(counts.len(), 2);
    assert_eq!(counts.count_of(&oid(1)), Some(8));
    assert_eq!(counts.count_of(&oid(2)), Some(1));
}

#[test]
fn no_rows_give_no_counts() {
    let counts = job_counts(&Vec::new());
    assert_eq!(counts.len(), 0);
}

#[test]
fn assignment_refers_to_the_client_in_the_clients_collection() {
    let assigned = AssignedClient::from_client(client(Some(oid(5))));
    assert_eq!(assigned.collection, "clients");
    assert_eq!(assigned.db, "");
    assert_eq!(assigned.id, oid(5));
    let direct = AssignedClient::to_identity(oid(6));
    assert_eq!(direct.collection, "clients");
    assert_eq!(direct.db, "");
    assert_eq!(direct.id, oid(6));
}

#[test]
fn assigning_a_job_changes_only_its_assignment() {
    let mut job = job();
    assign_job(&client(Some(oid(5))), &mut job);
    assert_eq!(job.assigned_client.collection, "clients");
    assert_eq!(job.assigned_client.db, "");
    assert_eq!(job.assigned_client.id, oid(5));
    assert_eq!(job.id, Some(oid(0x42)));
    assert_eq!(job.name, "film");
    assert_eq!(job.path, "/srv/film.ts");
    assert_eq!(job.subtitle, "part one");
    assert_eq!(job.custom_parameters, vec!["-crf".to_string(), "21".to_string()]);
}

#[test]
fn a_job_is_shown_with_all_its_fields() {
    let shown = JobJson::from(job());
    assert_eq!(shown.id, Some(oid(0x42)));
    assert_eq!(shown.name, "film");
    assert_eq!(shown.path, "/srv/film.ts");
    assert_eq!(shown.subtitle, "part one");
    assert_eq!(shown.custom_parameters, vec!["-crf".to_string(), "21".to_string()]);
    assert_eq!(shown.assigned_client.collection, "elsewhere");
    assert_eq!(shown.assigned_client.db, "old");
    assert_eq!(shown.assigned_client.id, oid(9));
}

#[test]
fn an_assignment_is_shown_with_the_identity_as_a_string() {
    let shown = AssignedClientJson::from(AssignedClient::to_identity(oid(0xab)));
    assert_eq!(shown.collection, "clients");
    assert_eq!(shown.db, "");
    assert_eq!(shown.id_string(), "ab00000000000000000000ab");
}
