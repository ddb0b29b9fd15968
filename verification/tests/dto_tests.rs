use config::dto::{
    ConfigDTO, CreateConfigDTO, CreateEnvironmentDTO, EnvironmentDTO, ListConfigDTO,
    ListEnvironmentDTO,
};
use config::models::{Config, Environment};
use config::paging::{ConfigQueryParams, EnvironmentQueryParams, ResultPaging};

fn sample_config() -> Config {
    Config {
        id: 2001,
        name: "db-url".to_string(),
        config: "postgres://...".to_string(),
        environment_id: 1001,
        created_at: 42,
    }
}

fn sample_environment() -> Environment {
    Environment { id: 1001, name: "prod".to_string(), created_at: 42 }
}

#[test]
fn config_dto_carries_everything() {
    let dto = ConfigDTO::from(sample_config());
    assert_eq!(dto.id, 2001);
    assert_eq!(dto.name.as_str(), "db-url");
    assert_eq!(dto.config.as_str(), "postgres://...");
    assert_eq!(dto.environment_id, 1001);
    assert_eq!(dto.created_at, 42);
}

#[test]
fn list_config_dto_drops_payload_and_parent() {
    let dto = ListConfigDTO::from(sample_config());
    assert_eq!(dto.id, 2001);
    assert_eq!(dto.name.as_str(), "db-url");
    assert_eq!(dto.created_at, 42);
}

#[test]
fn environment_dtos_carry_fields() {
    let dto = EnvironmentDTO::from(sample_environment());
    assert_eq!(dto.id, 1001);
    assert_eq!(dto.name.as_str(), "prod");
    let list_dto = ListEnvironmentDTO::from(sample_environment());
    assert_eq!(list_dto.created_at, 42);
}

#[test]
fn create_dtos_unwrap_validated_fields() {
    let body = CreateConfigDTO {
        name: Some("db-url".to_string()),
        config: Some("x".to_string()),
    };
    let create = body.into_create();
    assert_eq!(create.name.as_str(), "db-url");
    assert_eq!(create.config.as_str(), "x");

    let env_body = CreateEnvironmentDTO { name: Some("prod".to_string()) };
    assert_eq!(env_body.into_create().name.as_str(), "prod");
}

#[test]
fn page_projection_keeps_code_and_cursor() {
    let page = ResultPaging {
        code: 0,
        items: vec![sample_config()],
        next_page: Some("MTAwMQ".to_string()),
    };
    let listed: ResultPaging<ListConfigDTO> = page.into_list();
    assert_eq!(listed.code, 0);
    assert_eq!(listed.next_page.as_deref(), Some("MTAwMQ"));
    assert_eq!(listed.items.len(), 1);
    assert_eq!(listed.items[0].name.as_str(), "db-url");

    let env_page = ResultPaging { code: 0, items: vec![sample_environment()], next_page: None };
    let env_listed: ResultPaging<ListEnvironmentDTO> = env_page.into_list();
    assert!(env_listed.next_page.is_none());
    assert_eq!(env_listed.items[0].id, 1001);
}

#[test]
fn query_params_apply_defaults() {
    let params = ConfigQueryParams { next_page: None, page_size: None, query: None };
    assert_eq!(params.page_size(), 10);
    assert_eq!(params.next_page().as_str(), "");
    let params2 = ConfigQueryParams {
        next_page: Some("MA".to_string()),
        page_size: Some(25),
        query: None,
    };
    assert_eq!(params2.page_size(), 25);
    assert_eq!(params2.next_page().as_str(), "MA");

    let env_params = EnvironmentQueryParams { next_page: None, page_size: Some(50) };
    assert_eq!(env_params.page_size(), 50);
    assert_eq!(env_params.next_page().as_str(), "");
}
