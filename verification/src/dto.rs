//! Transport-facing shapes of the entities and the conversions into and out
//! of the domain models.

use vstd::prelude::*;

verus! {

use crate::ID;
use crate::models::{Config, CreateConfig, CreateEnvironment, Environment};
use crate::paging::ResultPaging;

/// A config as returned to a caller, payload included.
#[derive(Debug)]
pub struct ConfigDTO {
    pub id: ID,
    pub name: String,
    pub config: String,
    pub environment_id: ID,
    pub created_at: i64,
}

/// A create-config request body. Both fields are required; the transport
/// layer validates them before converting.
pub struct CreateConfigDTO {
    pub name: Option<String>,
    pub config: Option<String>,
}

/// A config as it appears in a list response: metadata only, no payload.
#[derive(Debug)]
pub struct ListConfigDTO {
    pub id: ID,
    pub name: String,
    pub created_at: i64,
}

/// An environment as returned to a caller.
#[derive(Debug)]
pub struct EnvironmentDTO {
    pub id: ID,
    pub name: String,
    pub created_at: i64,
}

/// A create-environment request body. The name is required; the transport
/// layer validates it before converting.
pub struct CreateEnvironmentDTO {
    pub name: Option<String>,
}

/// An environment as it appears in a list response.
#[derive(Debug)]
pub struct ListEnvironmentDTO {
    pub id: ID,
    pub name: String,
    pub created_at: i64,
}

impl From<Config> for ConfigDTO {
    fn from(config: Config) -> (r: ConfigDTO) {
        ConfigDTO {
            id: config.id,
            name: config.name,
            config: config.config,
            environment_id: config.environment_id,
            created_at: config.created_at,
        }
    }
}

impl vstd::std_specs::convert::FromSpecImpl<Config> for ConfigDTO {
    open spec fn obeys_from_spec() -> bool {
        true
    }

    open spec fn from_spec(t: Config) -> ConfigDTO {
        ConfigDTO {
            id: t.id,
            name: t.name,
            config: t.config,
            environment_id: t.environment_id,
            created_at: t.created_at,
        }
    }
}

impl From<Config> for ListConfigDTO {
    fn from(config: Config) -> (r: ListConfigDTO) {
        ListConfigDTO { id: config.id, name: config.name, created_at: config.created_at }
    }
}

impl vstd::std_specs::convert::FromSpecImpl<Config> for ListConfigDTO {
    open spec fn obeys_from_spec() -> bool {
        true
    }

    open spec fn from_spec(t: Config) -> ListConfigDTO {
        ListConfigDTO { id: t.id, name: t.name, created_at: t.created_at }
    }
}

impl From<Environment> for EnvironmentDTO {
    fn from(env: Environment) -> (r: EnvironmentDTO) {
        EnvironmentDTO { id: env.id, name: env.name, created_at: env.created_at }
    }
}

impl vstd::std_specs::convert::FromSpecImpl<Environment> for EnvironmentDTO {
    open spec fn obeys_from_spec() -> bool {
        true
    }

    open spec fn from_spec(t: Environment) -> EnvironmentDTO {
        EnvironmentDTO { id: t.id, name: t.name, created_at: t.created_at }
    }
}

impl From<Environment> for ListEnvironmentDTO {
    fn from(env: Environment) -> (r: ListEnvironmentDTO) {
        ListEnvironmentDTO { id: env.id, name: env.name, created_at: env.created_at }
    }
}

impl vstd::std_specs::convert::FromSpecImpl<Environment> for ListEnvironmentDTO {
    open spec fn obeys_from_spec() -> bool {
        true
    }

    open spec fn from_spec(t: Environment) -> ListEnvironmentDTO {
        ListEnvironmentDTO { id: t.id, name: t.name, created_at: t.created_at }
    }
}

impl CreateConfigDTO {
    /// The domain shape of a validated request body. A body that failed
    /// validation never reaches this conversion.
    pub fn into_create(self) -> (r: CreateConfig)
        requires
            self.name is Some,
            self.config is Some,
        ensures
            r.name == self.name.unwrap(),
            r.config == self.config.unwrap(),
    {
        CreateConfig { name: self.name.unwrap(), config: self.config.unwrap() }
    }
}

impl CreateEnvironmentDTO {
    /// The domain shape of a validated request body.
    pub fn into_create(self) -> (r: CreateEnvironment)
        requires
            self.name is Some,
        ensures
            r.name == self.name.unwrap(),
    {
        CreateEnvironment { name: self.name.unwrap() }
    }
}

/// Field-for-field relation between a config and its list projection.
pub open spec fn is_list_config_dto(c: Config, d: ListConfigDTO) -> bool {
    d.id == c.id && d.name@ == c.name@ && d.created_at == c.created_at
}

/// Field-for-field relation between an environment and its list projection.
pub open spec fn is_list_environment_dto(e: Environment, d: ListEnvironmentDTO) -> bool {
    d.id == e.id && d.name@ == e.name@ && d.created_at == e.created_at
}

impl ResultPaging<Config> {
    /// The metadata-only projection of a config page, as a list response is
    /// serialized: same code and cursor, each item reduced to its listing
    /// shape.
    pub fn into_list(self) -> (r: ResultPaging<ListConfigDTO>)
        ensures
            r.code == self.code,
            r.next_page == self.next_page,
            r.items@.len() == self.items@.len(),
            forall|i: int|
                0 <= i < self.items@.len() ==> is_list_config_dto(
                    self.items@[i],
                    #[trigger] r.items@[i],
                ),
    {
        let mut items: Vec<ListConfigDTO> = Vec::new();
        let n = self.items.len();
        let mut i: usize = 0;
        while i < n
            invariant
                0 <= i <= n,
                n == self.items@.len(),
                items@.len() == i,
                forall|j: int|
                    0 <= j < i ==> is_list_config_dto(self.items@[j], #[trigger] items@[j]),
            decreases n - i,
        {
            let c = &self.items[i];
            items.push(ListConfigDTO { id: c.id, name: c.name.clone(), created_at: c.created_at });
            i = i + 1;
        }
        ResultPaging { code: self.code, items, next_page: self.next_page }
    }
}

impl ResultPaging<Environment> {
    /// The projection of an environment page into its listing shape.
    pub fn into_list(self) -> (r: ResultPaging<ListEnvironmentDTO>)
        ensures
            r.code == self.code,
            r.next_page == self.next_page,
            r.items@.len() == self.items@.len(),
            forall|i: int|
                0 <= i < self.items@.len() ==> is_list_environment_dto(
                    self.items@[i],
                    #[trigger] r.items@[i],
                ),
    {
        let mut items: Vec<ListEnvironmentDTO> = Vec::new();
        let n = self.items.len();
        let mut i: usize = 0;
        while i < n
            invariant
                0 <= i <= n,
                n == self.items@.len(),
                items@.len() == i,
                forall|j: int|
                    0 <= j < i ==> is_list_environment_dto(self.items@[j], #[trigger] items@[j]),
            decreases n - i,
        {
            let e = &self.items[i];
            items.push(
                ListEnvironmentDTO { id: e.id, name: e.name.clone(), created_at: e.created_at },
            );
            i = i + 1;
        }
        ResultPaging { code: self.code, items, next_page: self.next_page }
    }
}

} // verus!
