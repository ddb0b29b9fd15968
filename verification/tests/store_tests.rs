use config::blob::BlobStore;
use config::models::{CreateConfig, CreateEnvironment, ScyllaConfig, ScyllaEnvironment};
use config::paging::ConfigQueryParams;
use config::repositories::{ConfigScyllaRepository, EnvironmentScyllaRepository};
use config::store::MetadataStore;

fn env(name: &str) -> CreateEnvironment {
    CreateEnvironment { name: name.to_string() }
}

fn cfg(name: &str, payload: &str) -> CreateConfig {
    CreateConfig { name: name.to_string(), config: payload.to_string() }
}

#[test]
fn environment_count_sees_inserted_row() {
    let mut db = MetadataStore::new();
    assert_eq!(db.env_count(7).into_inner(), 0);
    EnvironmentScyllaRepository::create(&mut db, 7, &env("prod")).unwrap();
    assert_eq!(db.env_count(7).into_inner(), 1);
    assert_eq!(db.env_count(8).into_inner(), 0);
}

#[test]
fn config_create_requires_existing_environment() {
    let mut db = MetadataStore::new();
    let refused = ConfigScyllaRepository::create(&mut db, 2, 1, &cfg("db-url", "x"));
    let error = refused.err().unwrap();
    assert_eq!(error.code, 104);
    assert_eq!(error.message.as_str(), "Cannot create config");
    assert_eq!(error.description.as_str(), "Environment not exists");
    // the insert was never issued
    assert_eq!(db.config_count_key(1, 2).into_inner(), 0);
}

#[test]
fn config_create_inserts_under_existing_environment() {
    let mut db = MetadataStore::new();
    EnvironmentScyllaRepository::create(&mut db, 1, &env("prod")).unwrap();
    let created = ConfigScyllaRepository::create(&mut db, 2, 1, &cfg("db-url", "x")).unwrap();
    assert_eq!(created.id, 2);
    assert_eq!(created.name.as_str(), "db-url");
    assert_eq!(created.environment_id, 1);
    // metadata rows carry no payload
    assert_eq!(created.config.as_str(), "");
    assert_eq!(db.config_count_key(1, 2).into_inner(), 1);
}

#[test]
fn config_get_returns_metadata_row() {
    let mut db = MetadataStore::new();
    EnvironmentScyllaRepository::create(&mut db, 1, &env("prod")).unwrap();
    ConfigScyllaRepository::create(&mut db, 2, 1, &cfg("db-url", "x")).unwrap();
    let got = ConfigScyllaRepository::get(&db, 1, 2).unwrap();
    assert_eq!(got.id, 2);
    assert_eq!(got.name.as_str(), "db-url");
    let missing = ConfigScyllaRepository::get(&db, 1, 3).err().unwrap();
    assert_eq!(missing.code, 104);
}

#[test]
fn config_delete_checks_existence() {
    let mut db = MetadataStore::new();
    EnvironmentScyllaRepository::create(&mut db, 1, &env("prod")).unwrap();
    ConfigScyllaRepository::create(&mut db, 2, 1, &cfg("db-url", "x")).unwrap();
    let missing = ConfigScyllaRepository::delete(&mut db, 1, 3).err().unwrap();
    assert_eq!(missing.code, 104);
    ConfigScyllaRepository::delete(&mut db, 1, 2).unwrap();
    assert_eq!(db.config_count_key(1, 2).into_inner(), 0);
    let again = ConfigScyllaRepository::delete(&mut db, 1, 2).err().unwrap();
    assert_eq!(again.code, 104);
}

#[test]
fn environment_delete_cascades_config_rows() {
    let mut db = MetadataStore::new();
    EnvironmentScyllaRepository::create(&mut db, 1, &env("prod")).unwrap();
    EnvironmentScyllaRepository::create(&mut db, 2, &env("dev")).unwrap();
    ConfigScyllaRepository::create(&mut db, 3, 1, &cfg("a", "x")).unwrap();
    ConfigScyllaRepository::create(&mut db, 4, 2, &cfg("b", "y")).unwrap();
    ConfigScyllaRepository::create(&mut db, 5, 1, &cfg("c", "z")).unwrap();

    EnvironmentScyllaRepository::delete(&mut db, 1).unwrap();
    assert_eq!(db.env_count(1).into_inner(), 0);
    assert_eq!(db.config_count_key(1, 3).into_inner(), 0);
    assert_eq!(db.config_count_key(1, 5).into_inner(), 0);
    // the other environment's rows survive
    assert_eq!(db.env_count(2).into_inner(), 1);
    assert_eq!(db.config_count_key(2, 4).into_inner(), 1);
}

#[test]
fn environment_delete_of_missing_id_fails_not_found() {
    let mut db = MetadataStore::new();
    let error = EnvironmentScyllaRepository::delete(&mut db, 42).err().unwrap();
    assert_eq!(error.code, 104);
    assert_eq!(error.message.as_str(), "Not found");
}

#[test]
fn pagination_yields_every_config_once_in_order() {
    let mut db = MetadataStore::new();
    EnvironmentScyllaRepository::create(&mut db, 1, &env("prod")).unwrap();
    let mut id = 2;
    while id <= 13 {
        ConfigScyllaRepository::create(&mut db, id, 1, &cfg("c", "x")).unwrap();
        id += 1;
    }

    let mut seen: Vec<i64> = Vec::new();
    let mut cursor: Option<String> = None;
    let mut pages = 0;
    loop {
        let params = ConfigQueryParams { next_page: cursor.clone(), page_size: Some(5), query: None };
        let page = ConfigScyllaRepository::list(&db, 1, params).unwrap();
        assert_eq!(page.code, 0);
        for item in &page.items {
            seen.push(item.id);
        }
        pages += 1;
        match page.next_page {
            Some(token) => cursor = Some(token),
            None => break,
        }
    }
    // 12 configs at page size 5: pages of 5, 5 and 2
    assert_eq!(pages, 3);
    assert_eq!(seen, (2i64..=13).collect::<Vec<i64>>());
}

#[test]
fn pagination_cursor_resumes_after_last_item() {
    let mut db = MetadataStore::new();
    EnvironmentScyllaRepository::create(&mut db, 1, &env("prod")).unwrap();
    let mut id = 2;
    while id <= 13 {
        ConfigScyllaRepository::create(&mut db, id, 1, &cfg("c", "x")).unwrap();
        id += 1;
    }
    let first = ConfigScyllaRepository::list(
        &db,
        1,
        ConfigQueryParams { next_page: None, page_size: Some(5), query: None },
    ).unwrap();
    let last_of_first = first.items.last().unwrap().id;
    assert_eq!(last_of_first, 6);
    let token = first.next_page.clone().unwrap();
    // the cursor is the base64-url encoding of the last item's identifier
    assert_eq!(config::cursor::cursor_decode(token.as_str()), Some(6));
    let second = ConfigScyllaRepository::list(
        &db,
        1,
        ConfigQueryParams { next_page: Some(token), page_size: Some(5), query: None },
    ).unwrap();
    // no duplicate, no gap
    assert_eq!(second.items.first().unwrap().id, 7);
}

#[test]
fn cursor_of_zero_means_start() {
    let mut db = MetadataStore::new();
    EnvironmentScyllaRepository::create(&mut db, 1, &env("prod")).unwrap();
    let mut id = 2;
    while id <= 8 {
        ConfigScyllaRepository::create(&mut db, id, 1, &cfg("c", "x")).unwrap();
        id += 1;
    }
    let from_none = ConfigScyllaRepository::list(
        &db,
        1,
        ConfigQueryParams { next_page: None, page_size: Some(5), query: None },
    ).unwrap();
    // "MA" is the encoded cursor for identifier 0
    let from_zero = ConfigScyllaRepository::list(
        &db,
        1,
        ConfigQueryParams { next_page: Some("MA".to_string()), page_size: Some(5), query: None },
    ).unwrap();
    let ids_a: Vec<i64> = from_none.items.iter().map(|c| c.id).collect();
    let ids_b: Vec<i64> = from_zero.items.iter().map(|c| c.id).collect();
    assert_eq!(ids_a, ids_b);
}

#[test]
fn one_page_when_page_size_covers_everything() {
    let mut db = MetadataStore::new();
    EnvironmentScyllaRepository::create(&mut db, 1, &env("prod")).unwrap();
    let mut id = 2;
    while id <= 13 {
        ConfigScyllaRepository::create(&mut db, id, 1, &cfg("c", "x")).unwrap();
        id += 1;
    }
    let page = ConfigScyllaRepository::list(
        &db,
        1,
        ConfigQueryParams { next_page: None, page_size: Some(50), query: None },
    ).unwrap();
    assert_eq!(page.items.len(), 12);
    assert!(page.next_page.is_none());
}

#[test]
fn list_refuses_malformed_cursor() {
    let mut db = MetadataStore::new();
    EnvironmentScyllaRepository::create(&mut db, 1, &env("prod")).unwrap();
    let error = ConfigScyllaRepository::list(
        &db,
        1,
        ConfigQueryParams { next_page: Some("!!!".to_string()), page_size: Some(5), query: None },
    ).err().unwrap();
    assert_eq!(error.code, 1);
    assert_eq!(error.message.as_str(), "Invalid next_page token");
    assert_eq!(error.description.as_str(), "base64 parsing error");
}

#[test]
fn list_applies_default_page_size() {
    let mut db = MetadataStore::new();
    EnvironmentScyllaRepository::create(&mut db, 1, &env("prod")).unwrap();
    let mut id = 2;
    while id <= 12 {
        // 11 configs, one over the default page size of 10
        ConfigScyllaRepository::create(&mut db, id, 1, &cfg("c", "x")).unwrap();
        id += 1;
    }
    let page = ConfigScyllaRepository::list(
        &db,
        1,
        ConfigQueryParams { next_page: None, page_size: None, query: None },
    ).unwrap();
    assert_eq!(page.items.len(), 10);
    assert!(page.next_page.is_some());
}

#[test]
fn row_projections_drop_what_they_must() {
    let row = ScyllaConfig { id: 2, name: "db-url".to_string(), environment_id: 1, created_at: 5 };
    let as_config = row.into_config();
    assert_eq!(as_config.id, 2);
    assert_eq!(as_config.config.as_str(), "");
    let erow = ScyllaEnvironment { id: 1, name: "prod".to_string(), created_at: 5 };
    let as_env = erow.into_environment();
    assert_eq!(as_env.name.as_str(), "prod");
}

#[test]
fn blob_store_put_get_delete() {
    let mut blobs = BlobStore::new();
    assert_eq!(blobs.get(1, 2), None);
    blobs.put(1, 2, "payload");
    assert_eq!(blobs.get(1, 2).unwrap().as_str(), "payload");
    // a second put replaces the payload under the same key
    blobs.put(1, 2, "fresh");
    assert_eq!(blobs.get(1, 2).unwrap().as_str(), "fresh");
    blobs.delete(1, 2);
    assert_eq!(blobs.get(1, 2), None);
    // deleting a missing key is allowed
    blobs.delete(1, 2);
}

#[test]
fn blob_store_prefix_delete_spares_other_environments() {
    let mut blobs = BlobStore::new();
    blobs.put(1, 2, "a");
    blobs.put(1, 3, "b");
    blobs.put(9, 4, "c");
    blobs.delete_env(1);
    assert_eq!(blobs.get(1, 2), None);
    assert_eq!(blobs.get(1, 3), None);
    assert_eq!(blobs.get(9, 4).unwrap().as_str(), "c");
}
