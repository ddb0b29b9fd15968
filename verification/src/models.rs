//! Domain entities and the row shapes the metadata store holds for them.

use vstd::prelude::*;

verus! {

use crate::ID;

/// The ghost shape of a config: what contracts say about one.
pub ghost struct ConfigV {
    pub id: ID,
    pub name: Seq<char>,
    pub config: Seq<char>,
    pub environment_id: ID,
    pub created_at: i64,
}

/// The ghost shape of an environment.
pub ghost struct EnvironmentV {
    pub id: ID,
    pub name: Seq<char>,
    pub created_at: i64,
}

/// The ghost shape of a configs-table row.
pub ghost struct ConfigRow {
    pub id: ID,
    pub name: Seq<char>,
    pub environment_id: ID,
    pub created_at: i64,
}

/// The ghost shape of an environments-table row.
pub ghost struct EnvRow {
    pub id: ID,
    pub name: Seq<char>,
    pub created_at: i64,
}

/// The metadata-only projection a configs-table row stands for: a config
/// with an empty payload.
pub open spec fn config_of_row(r: ConfigRow) -> ConfigV {
    ConfigV {
        id: r.id,
        name: r.name,
        config: Seq::<char>::empty(),
        environment_id: r.environment_id,
        created_at: r.created_at,
    }
}

/// The environment an environments-table row stands for.
pub open spec fn environment_of_row(e: EnvRow) -> EnvironmentV {
    EnvironmentV { id: e.id, name: e.name, created_at: e.created_at }
}

/// A config: identity, name, opaque payload, owning environment and creation
/// time. The payload lives in the blob store, not in the metadata store.
#[derive(Clone)]
pub struct Config {
    pub id: ID,
    pub name: String,
    pub config: String,
    pub environment_id: ID,
    pub created_at: i64,
}

impl View for Config {
    type V = ConfigV;

    open spec fn view(&self) -> ConfigV {
        ConfigV {
            id: self.id,
            name: self.name@,
            config: self.config@,
            environment_id: self.environment_id,
            created_at: self.created_at,
        }
    }
}

/// The caller-supplied part of a config: its name and payload.
#[derive(Clone)]
pub struct CreateConfig {
    pub name: String,
    pub config: String,
}

/// An environment: identity, name and creation time. Environments own
/// configs and no payload of their own.
#[derive(Clone)]
pub struct Environment {
    pub id: ID,
    pub name: String,
    pub created_at: i64,
}

impl View for Environment {
    type V = EnvironmentV;

    open spec fn view(&self) -> EnvironmentV {
        EnvironmentV { id: self.id, name: self.name@, created_at: self.created_at }
    }
}

/// The caller-supplied part of an environment: its name.
#[derive(Clone)]
pub struct CreateEnvironment {
    pub name: String,
}

/// A row of the configs table: the metadata of one config, keyed by owning
/// environment and identifier. The payload is not here.
#[derive(Clone, Debug, PartialEq)]
pub struct ScyllaConfig {
    pub id: ID,
    pub name: String,
    pub environment_id: ID,
    pub created_at: i64,
}

impl View for ScyllaConfig {
    type V = ConfigRow;

    open spec fn view(&self) -> ConfigRow {
        ConfigRow {
            id: self.id,
            name: self.name@,
            environment_id: self.environment_id,
            created_at: self.created_at,
        }
    }
}

impl ScyllaConfig {
    /// The metadata-only projection of the row: a `Config` with an empty
    /// payload, as list results and metadata reads return it.
    pub fn into_config(self) -> (r: Config)
        ensures
            r@ == config_of_row(self@),
    {
        Config {
            id: self.id,
            name: self.name,
            config: String::new(),
            environment_id: self.environment_id,
            created_at: self.created_at,
        }
    }
}

/// A row of the environments table, keyed by identifier.
#[derive(Clone, Debug, PartialEq)]
pub struct ScyllaEnvironment {
    pub id: ID,
    pub name: String,
    pub created_at: i64,
}

impl View for ScyllaEnvironment {
    type V = EnvRow;

    open spec fn view(&self) -> EnvRow {
        EnvRow { id: self.id, name: self.name@, created_at: self.created_at }
    }
}

impl ScyllaEnvironment {
    pub fn into_environment(self) -> (r: Environment)
        ensures
            r@ == environment_of_row(self@),
    {
        Environment { id: self.id, name: self.name, created_at: self.created_at }
    }
}

/// The single row a count query returns.
#[derive(Clone, Debug, PartialEq)]
pub struct ScyllaCount(i64);

impl ScyllaCount {
    pub closed spec fn view(&self) -> int {
        self.0 as int
    }

    pub(crate) fn new(count: i64) -> (r: ScyllaCount)
        ensures
            r@ == count,
    {
        ScyllaCount(count)
    }

    pub fn into_inner(self) -> (r: i64)
        ensures
            r == self@,
    {
        self.0
    }
}

} // verus!
