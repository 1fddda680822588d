use infuser::cfg::{db_name_default, Config};
use infuser::db::assign_job;
use infuser::{AssignedClient, Client, Job, ObjectId};

#[test]
fn it_works() {
    assert_eq!(2 + 2, 4);
}

#[test]
fn test_insert() {
    let config = Config {
        db_url: "mongodb://192.168.178.75:27107".to_string(),
        db_name: db_name_default(),
        default_client: "encoder".to_string(),
    };
    assert_eq!(config.db_name, "DefaultDB");
    let res = Client {
        id: Some(ObjectId::from_bytes([0x60, 0x71, 0x9f, 0x2a, 1, 2, 3, 4, 5, 6, 7, 8])),
        name: config.default_client,
        availability_start: "08:00".to_string(),
        availability_end: "18:00".to_string(),
        maximum_jobs: 2,
        priority: 1,
        online: true,
        ignore_online: false,
    };
    let mut job = Job {
        id: None,
        path: "\\\\vdr-u\\SDuRec\\Recording\\exists\\Geheimnisvolle Wildblumen_2021-04-10-14-58-01-arte HD (AC3,deu).ts".to_string(),
        name: "Geheimnisvolle Wildblumen".to_string(),
        subtitle: "Bl√ºtenpracht im Wald".to_string(),
        assigned_client: AssignedClient::to_identity(ObjectId::from_bytes([0; 12])),
        custom_parameters: Vec::new(),
    };
    assign_job(&res, &mut job);
    assert_eq!(job.assigned_client.collection, "clients");
    assert_eq!(job.assigned_client.db, "");
    assert_eq!(job.assigned_client.id, res.id.unwrap());
    assert_eq!(job.id, None);
    assert_eq!(job.name, "Geheimnisvolle Wildblumen");
    assert_eq!(job.subtitle, "Bl√ºtenpracht im Wald");
    assert!(job.custom_parameters.is_empty());
}
