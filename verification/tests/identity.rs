use infuser::{Client, ObjectId};

fn named(id: Option<ObjectId>, name: &str) -> Client {
    Client {
        id,
        name: name.to_string(),
        availability_start: "00:00".to_string(),
        availability_end: "23:59".to_string(),
        maximum_jobs: 1,
        priority: 1,
        online: true,
        ignore_online: false,
    }
}

#[test]
fn identity_prints_as_lower_case_hex() {
    let id = ObjectId::from_bytes([
        0x53, 0xe3, 0x7d, 0x08, 0x77, 0x6f, 0x72, 0x4e, 0x42, 0x00, 0x00, 0x00,
    ]);
    assert_eq!(id.to_hex(), "53e37d08776f724e42000000");
}

#[test]
fn identity_string_has_two_digits_for_each_byte() {
    let id = ObjectId::from_bytes([
        0x00, 0x01, 0x0a, 0x0f, 0x10, 0x9a, 0xa9, 0xab, 0xcd, 0xef, 0xf0, 0xff,
    ]);
    let text = id.to_hex();
    assert_eq!(text.len(), 24);
    assert_eq!(text, "00010a0f109aa9abcdeff0ff");
}

#[test]
fn identity_string_is_the_one_that_bson_prints() {
    let bytes = [0xde, 0xad, 0xbe, 0xef, 1, 2, 3, 4, 5, 6, 7, 0x80];
    let ours = ObjectId::from_bytes(bytes).to_hex();
    let theirs = bson::oid::ObjectId::from_bytes(bytes).to_string();
    assert_eq!(ours, theirs);
    assert_eq!(bson::oid::ObjectId::parse_str(&ours).unwrap().bytes(), bytes);
}

#[test]
fn identities_are_equal_when_their_bytes_are() {
    let a = ObjectId::from_bytes([1; 12]);
    let b = ObjectId::from_bytes([1; 12]);
    let mut other = [1; 12];
    other[11] = 2;
    let c = ObjectId::from_bytes(other);
    assert_eq!(a, b);
    assert_ne!(a, c);
    assert_eq!(a.bytes, [1; 12]);
}

#[test]
fn persisted_clients_are_the_same_when_their_identities_match() {
    let id = ObjectId::from_bytes([7; 12]);
    let one = named(Some(id), "left");
    let mut two = named(Some(id), "right");
    two.maximum_jobs = 9;
    two.online = false;
    assert!(one == two);
}

#[test]
fn persisted_clients_differ_when_their_identities_differ() {
    let one = named(Some(ObjectId::from_bytes([7; 12])), "same");
    let two = named(Some(ObjectId::from_bytes([8; 12])), "same");
    assert!(one != two);
}

#[test]
fn unpersisted_clients_are_the_same_when_their_names_match() {
    let one = named(None, "worker");
    let mut two = named(None, "worker");
    two.priority = 4;
    let three = named(None, "other");
    assert!(one == two);
    assert!(one != three);
}

#[test]
fn a_persisted_client_is_never_the_same_as_an_unpersisted_one() {
    let one = named(Some(ObjectId::from_bytes([0; 12])), "worker");
    let two = named(None, "worker");
    assert!(one != two);
    assert!(two != one);
}

#[test]
fn a_copy_of_a_client_keeps_every_field() {
    let mut source = named(Some(ObjectId::from_bytes([3; 12])), "worker");
    source.ignore_online = true;
    source.maximum_jobs = -2;
    source.priority = 11;
    let copy = source.clone();
    assert_eq!(copy.id, source.id);
    assert_eq!(copy.name, "worker");
    assert_eq!(copy.availability_start, "00:00");
    assert_eq!(copy.availability_end, "23:59");
    assert_eq!(copy.maximum_jobs, -2);
    assert_eq!(copy.priority, 11);
    assert!(copy.online);
    assert!(copy.ignore_online);
}
