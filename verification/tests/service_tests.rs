use config::blob::ConfigS3Storage;
use config::container::Container;
use config::models::{CreateConfig, CreateEnvironment};
use config::paging::{ConfigQueryParams, EnvironmentQueryParams};
use config::repositories::{ConfigScyllaRepository, EnvironmentScyllaRepository};
use config::services::{ConfigServiceImpl, EnvironmentServiceImpl};

fn new_env(name: &str) -> CreateEnvironment {
    CreateEnvironment { name: name.to_string() }
}

fn new_cfg(name: &str, payload: &str) -> CreateConfig {
    CreateConfig { name: name.to_string(), config: payload.to_string() }
}

#[test]
fn environment_then_config_then_cascade() {
    // create environment "prod" with identifier 1001, then config "db-url"
    // with identifier 2001 under it, payload and metadata in their stores
    let mut c = Container::new();
    let env = EnvironmentScyllaRepository::create(&mut c.metadata, 1001, &new_env("prod")).unwrap();
    assert_eq!(env.id, 1001);
    let row = ConfigScyllaRepository::create(
        &mut c.metadata,
        2001,
        1001,
        &new_cfg("db-url", "postgres://..."),
    ).unwrap();
    assert_eq!(row.id, 2001);
    ConfigS3Storage::create(&mut c.storage, 1001, 2001, "postgres://...").unwrap();

    // a read assembles metadata and payload
    let got = ConfigServiceImpl::get(&c, 1001, 2001).unwrap();
    assert_eq!(got.id, 2001);
    assert_eq!(got.name.as_str(), "db-url");
    assert_eq!(got.config.as_str(), "postgres://...");
    assert_eq!(got.environment_id, 1001);

    // deleting the environment removes the config transitively
    EnvironmentServiceImpl::delete(&mut c, 1001).unwrap();
    let missing = ConfigServiceImpl::get(&c, 1001, 2001).err().unwrap();
    assert_eq!(missing.code, 104);
}

#[test]
fn coordinator_create_and_read_back() {
    let mut c = Container::new();
    let env = EnvironmentServiceImpl::create(&mut c, new_env("prod")).unwrap();
    let created = ConfigServiceImpl::create(&mut c, env.id, new_cfg("db-url", "secret-value"))
        .unwrap();
    assert_eq!(created.environment_id, env.id);
    assert_eq!(created.config.as_str(), "secret-value");
    assert!(created.id > env.id);

    let got = ConfigServiceImpl::get(&c, env.id, created.id).unwrap();
    assert_eq!(got.config.as_str(), "secret-value");
    assert_eq!(got.name.as_str(), "db-url");
    assert_eq!(got.created_at, created.created_at);
}

#[test]
fn create_under_missing_environment_leaves_no_trace() {
    let mut c = Container::new();
    let refused = ConfigServiceImpl::create(&mut c, 999, new_cfg("db-url", "x")).err().unwrap();
    assert_eq!(refused.code, 104);
    // neither a metadata row nor a blob survives the refused create
    assert!(c.metadata.configs.is_empty());
    assert!(c.storage.objects.is_empty());
}

#[test]
fn missing_payload_is_not_found_class() {
    // a metadata row whose payload is gone from the blob store: the read
    // fails as not-found, like a missing row
    let mut c = Container::new();
    EnvironmentScyllaRepository::create(&mut c.metadata, 1, &new_env("prod")).unwrap();
    ConfigScyllaRepository::create(&mut c.metadata, 2, 1, &new_cfg("db-url", "x")).unwrap();
    let error = ConfigServiceImpl::get(&c, 1, 2).err().unwrap();
    assert_eq!(error.code, 104);
    assert_eq!(error.message.as_str(), "Not found");
    assert_eq!(error.description.as_str(), "Storage error");

    // the blob adapter itself reports the same class
    let direct = ConfigS3Storage::get(&c.storage, 1, 2).err().unwrap();
    assert_eq!(direct.code, 104);
    assert_eq!(direct.message.as_str(), "Not found");
}

#[test]
fn coordinator_delete_consistency() {
    let mut c = Container::new();
    let env = EnvironmentServiceImpl::create(&mut c, new_env("prod")).unwrap();
    let created = ConfigServiceImpl::create(&mut c, env.id, new_cfg("a", "x")).unwrap();

    // deleting something that is not there fails with not-found
    let missing = ConfigServiceImpl::delete(&mut c, env.id, created.id + 1).err().unwrap();
    assert_eq!(missing.code, 104);

    // deleting what is there succeeds, and the read then fails not-found
    ConfigServiceImpl::delete(&mut c, env.id, created.id).unwrap();
    let gone = ConfigServiceImpl::get(&c, env.id, created.id).err().unwrap();
    assert_eq!(gone.code, 104);
}

#[test]
fn cascade_delete_empties_the_environment() {
    let mut c = Container::new();
    let env = EnvironmentServiceImpl::create(&mut c, new_env("prod")).unwrap();
    let keep = EnvironmentServiceImpl::create(&mut c, new_env("dev")).unwrap();
    let mut created_ids: Vec<i64> = Vec::new();
    for _ in 0..4 {
        let cfg = ConfigServiceImpl::create(&mut c, env.id, new_cfg("c", "x")).unwrap();
        created_ids.push(cfg.id);
    }
    let kept = ConfigServiceImpl::create(&mut c, keep.id, new_cfg("k", "y")).unwrap();

    EnvironmentServiceImpl::delete(&mut c, env.id).unwrap();

    for id in created_ids {
        let gone = ConfigServiceImpl::get(&c, env.id, id).err().unwrap();
        assert_eq!(gone.code, 104);
    }
    // a listing under the deleted environment returns zero items
    let params = ConfigQueryParams { next_page: None, page_size: Some(5), query: None };
    let page = ConfigServiceImpl::list(&c, env.id, params).unwrap();
    assert_eq!(page.items.len(), 0);
    assert!(page.next_page.is_none());
    // the other environment is untouched
    let still = ConfigServiceImpl::get(&c, keep.id, kept.id).unwrap();
    assert_eq!(still.config.as_str(), "y");

    // deleting the environment again fails with not-found
    let again = EnvironmentServiceImpl::delete(&mut c, env.id).err().unwrap();
    assert_eq!(again.code, 104);
}

#[test]
fn environment_listing_pages_through_all() {
    let mut c = Container::new();
    let mut expected: Vec<i64> = Vec::new();
    for _ in 0..12 {
        expected.push(EnvironmentServiceImpl::create(&mut c, new_env("e")).unwrap().id);
    }
    let mut seen: Vec<i64> = Vec::new();
    let mut cursor: Option<String> = None;
    loop {
        let params = EnvironmentQueryParams { next_page: cursor.clone(), page_size: Some(5) };
        let page = EnvironmentServiceImpl::list(&c, params).unwrap();
        for item in &page.items {
            seen.push(item.id);
        }
        match page.next_page {
            Some(token) => cursor = Some(token),
            None => break,
        }
    }
    assert_eq!(seen, expected);
}

#[test]
fn config_listing_never_loads_payloads() {
    let mut c = Container::new();
    let env = EnvironmentServiceImpl::create(&mut c, new_env("prod")).unwrap();
    for _ in 0..6 {
        ConfigServiceImpl::create(&mut c, env.id, new_cfg("c", "payload")).unwrap();
    }
    let params = ConfigQueryParams { next_page: None, page_size: Some(5), query: None };
    let page = ConfigServiceImpl::list(&c, env.id, params).unwrap();
    assert_eq!(page.items.len(), 5);
    assert!(page.next_page.is_some());
    for item in &page.items {
        assert_eq!(item.config.as_str(), "");
    }
}
