use infuser::cfg::{db_name_default, db_url_default, default_client_default, Config};

#[test]
fn default_store_address() {
    assert_eq!(db_url_default(), "mongodb://localhost:27107");
}

#[test]
fn default_database_name() {
    assert_eq!(db_name_default(), "DefaultDB");
}

#[test]
fn default_client_is_the_host_name() {
    let expected = gethostname::gethostname().into_string().ok();
    assert_eq!(default_client_default(), expected);
}

#[test]
fn settings_for_a_client_use_the_defaults_for_the_store() {
    let cfg = Config::for_client("render-7".to_string());
    assert_eq!(cfg.db_url, "mongodb://localhost:27107");
    assert_eq!(cfg.db_name, "DefaultDB");
    assert_eq!(cfg.default_client, "render-7");
}

#[test]
fn standard_settings_name_this_machine() {
    match (Config::standard(), gethostname::gethostname().into_string()) {
        (Some(cfg), Ok(host)) => {
            assert_eq!(cfg.db_url, "mongodb://localhost:27107");
            assert_eq!(cfg.db_name, "DefaultDB");
            assert_eq!(cfg.default_client, host);
        }
        (None, Err(_)) => {}
        _ => panic!("settings and host name disagree"),
    }
}

#[test]
fn settings_for_a_host_name_work_under_that_name() {
    let cfg = Config::for_host(Some("render-9".to_string())).unwrap();
    assert_eq!(cfg.db_url, "mongodb://localhost:27107");
    assert_eq!(cfg.db_name, "DefaultDB");
    assert_eq!(cfg.default_client, "render-9");
}

#[test]
fn no_host_name_gives_no_settings() {
    assert!(Config::for_host(None).is_none());
}
