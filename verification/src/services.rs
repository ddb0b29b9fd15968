//! The entity coordinators: each operation composes the identifier
//! generator, the metadata repository and the blob-store adapter into one
//! atomic-looking call. The two store writes of one operation are issued as
//! a pair and the call settles once both have; a failed create is followed
//! by a best-effort compensating delete of whatever the other side wrote,
//! while a failed delete is never compensated — the documented asymmetry.

use vstd::prelude::*;

verus! {

use crate::ID;
use crate::blob::{
    blob_exists, blob_key_rows, blob_outside_env, blob_without_key, BlobRow, ConfigS3Storage,
    EnvironmentS3Storage,
};
use crate::container::Container;
use crate::errors::CommonError;
use crate::models::{Config, ConfigRow, CreateConfig, CreateEnvironment, EnvRow, Environment};
use crate::paging::{ConfigQueryParams, EnvironmentQueryParams, ResultPaging};
use crate::repositories::{
    config_list_ok, environment_list_ok, list_cursor, ConfigScyllaRepository,
    EnvironmentScyllaRepository,
};
use crate::seqs::lemma_filter_all_true;
use crate::store::{
    config_exists, config_key_rows, config_outside_env, config_without_key, env_exists,
    env_id_rows, env_without_id,
};

/// The config coordinator.
pub struct ConfigServiceImpl {}

impl ConfigServiceImpl {
    /// Creates a config: allocates an identifier, then writes the payload
    /// to the blob store and the metadata row — with its referential check
    /// — to the metadata store. When the metadata side refuses because the
    /// environment does not exist, the already-written payload is deleted
    /// again (best-effort compensation) and the call fails with not-found,
    /// leaving both stores as they were: no row and no blob of a refused
    /// create survives the call.
    pub fn create(c: &mut Container, environment_id: ID, config: CreateConfig) -> (r: Result<
        Config,
        CommonError,
    >)
        requires
            old(c).wf(),
            old(c).identifier@ < i64::MAX,
            old(c).metadata.configs@.len() < i64::MAX,
        ensures
            final(c).wf(),
            final(c).metadata.envs() == old(c).metadata.envs(),
            old(c).identifier@ < final(c).identifier@,
            match r {
                Ok(cfg) => {
                    &&& env_exists(old(c).metadata.envs(), environment_id)
                    &&& cfg.id > old(c).identifier@
                    &&& final(c).identifier@ == cfg.id
                    &&& config_key_rows(old(c).metadata.cfgs(), environment_id, cfg.id).len() == 0
                    &&& cfg.environment_id == environment_id
                    &&& cfg.name@ == config.name@
                    &&& cfg.config@ == config.config@
                    &&& final(c).metadata.cfgs() == old(c).metadata.cfgs().push(
                        ConfigRow {
                            id: cfg.id,
                            name: config.name@,
                            environment_id: environment_id,
                            created_at: cfg.created_at,
                        },
                    )
                    &&& final(c).storage.blobs() == old(c).storage.blobs().push(
                        BlobRow {
                            environment_id: environment_id,
                            config_id: cfg.id,
                            data: config.config@,
                        },
                    )
                    &&& config_key_rows(final(c).metadata.cfgs(), environment_id, cfg.id) == seq![
                        ConfigRow {
                            id: cfg.id,
                            name: config.name@,
                            environment_id: environment_id,
                            created_at: cfg.created_at,
                        },
                    ]
                    &&& blob_key_rows(final(c).storage.blobs(), environment_id, cfg.id) == seq![
                        BlobRow {
                            environment_id: environment_id,
                            config_id: cfg.id,
                            data: config.config@,
                        },
                    ]
                },
                Err(e) => {
                    &&& !env_exists(old(c).metadata.envs(), environment_id)
                    &&& e.code == 104
                    &&& e.message@ == "Cannot create config"@
                    &&& e.description@ == "Environment not exists"@
                    &&& final(c).metadata.cfgs() == old(c).metadata.cfgs()
                    &&& final(c).storage.blobs() == old(c).storage.blobs()
                },
            },
    {
        let id = c.identifier.generate();
        proof {
            assert forall|i: int|
                0 <= i < c.storage.blobs().len() implies blob_without_key(environment_id, id)(
                #[trigger] c.storage.blobs()[i],
            ) by {
                assert(c.storage.blobs()[i].config_id <= old(c).identifier@);
            }
            lemma_filter_all_true(c.storage.blobs(), blob_without_key(environment_id, id));
        }
        let storage_result = ConfigS3Storage::create(
            &mut c.storage,
            environment_id,
            id,
            config.config.as_str(),
        );
        let repo_result = ConfigScyllaRepository::create(&mut c.metadata, id, environment_id, &config);
        proof {
            assert forall|i: int|
                0 <= i < old(c).metadata.cfgs().len() implies !crate::store::config_with_key(
                environment_id,
                id,
            )(#[trigger] old(c).metadata.cfgs()[i]) by {
                assert(old(c).metadata.cfgs()[i].id <= old(c).identifier@);
            }
            old(c).metadata.cfgs().lemma_all_neg_filter_empty(
                crate::store::config_with_key(environment_id, id),
            );
        }
        match repo_result {
            Ok(created) => {
                let _ = storage_result;
                proof {
                    old(c).metadata.cfgs().lemma_filter_push(
                        ConfigRow {
                            id: id,
                            name: config.name@,
                            environment_id: environment_id,
                            created_at: created.created_at,
                        },
                        crate::store::config_with_key(environment_id, id),
                    );
                    assert forall|i: int|
                        0 <= i < old(c).storage.blobs().len() implies !crate::blob::blob_with_key(
                        environment_id,
                        id,
                    )(#[trigger] old(c).storage.blobs()[i]) by {
                        assert(old(c).storage.blobs()[i].config_id <= old(c).identifier@);
                    }
                    old(c).storage.blobs().lemma_all_neg_filter_empty(
                        crate::blob::blob_with_key(environment_id, id),
                    );
                    old(c).storage.blobs().lemma_filter_push(
                        BlobRow {
                            environment_id: environment_id,
                            config_id: id,
                            data: config.config@,
                        },
                        crate::blob::blob_with_key(environment_id, id),
                    );
                }
                Ok(
                    Config {
                        id,
                        name: config.name,
                        config: config.config,
                        environment_id,
                        created_at: created.created_at,
                    },
                )
            },
            Err(error) => {
                // best-effort compensation: undo the blob write; the row
                // write was refused, so its delete finds nothing, and
                // neither outcome is surfaced.
                let ghost mid = c.storage.blobs();
                let _ = ConfigS3Storage::delete(&mut c.storage, environment_id, id);
                let _ = ConfigScyllaRepository::delete(&mut c.metadata, environment_id, id);
                proof {
                    let wk = blob_without_key(environment_id, id);
                    old(c).storage.blobs().lemma_filter_push(
                        BlobRow { environment_id: environment_id, config_id: id, data: config.config@ },
                        wk,
                    );
                    crate::seqs::lemma_filter_subsumed(old(c).storage.blobs(), wk, wk);
                }
                Err(CommonError::from(error))
            },
        }
    }

    /// Lists one page of an environment's configs: the coordinator
    /// delegates entirely to the repository's keyset pagination; payloads
    /// are never loaded for listings.
    pub fn list(c: &Container, environment_id: ID, params: ConfigQueryParams) -> (r: Result<
        ResultPaging<Config>,
        CommonError,
    >)
        requires
            c.wf(),
            params.page_size is Some ==> 5 <= params.page_size.unwrap() <= 50,
        ensures
            match r {
                Ok(page) => config_list_ok(c.metadata.cfgs(), environment_id, params, page),
                Err(e) => list_cursor(params.next_page) is None && e.code == 1 && e.message@
                    == "Invalid next_page token"@ && e.description@ == "base64 parsing error"@,
            },
    {
        match ConfigScyllaRepository::list(&c.metadata, environment_id, params) {
            Ok(page) => Ok(page),
            Err(error) => Err(CommonError::from(error)),
        }
    }

    /// Reads a config: the metadata row and the blob payload, assembled
    /// into one entity. A missing row and a missing payload both fail with
    /// not-found. No partial result is returned.
    pub fn get(c: &Container, environment_id: ID, config_id: ID) -> (r: Result<Config, CommonError>)
        requires
            c.wf(),
        ensures
            match r {
                Ok(cfg) => {
                    let row = config_key_rows(c.metadata.cfgs(), environment_id, config_id)[0];
                    let data = blob_key_rows(c.storage.blobs(), environment_id, config_id)[0].data;
                    &&& config_exists(c.metadata.cfgs(), environment_id, config_id)
                    &&& blob_exists(c.storage.blobs(), environment_id, config_id)
                    &&& cfg.id == row.id
                    &&& cfg.name@ == row.name
                    &&& cfg.config@ == data
                    &&& cfg.environment_id == row.environment_id
                    &&& cfg.created_at == row.created_at
                },
                Err(e) => {
                    &&& e.code == 104
                    &&& ((config_key_rows(c.metadata.cfgs(), environment_id, config_id).len() == 0
                        && e.message@ == "No rows found"@ && e.description@
                        == "Config not exists"@) || (config_exists(
                        c.metadata.cfgs(),
                        environment_id,
                        config_id,
                    ) && blob_key_rows(c.storage.blobs(), environment_id, config_id).len() == 0
                        && e.message@ == "Not found"@ && e.description@ == "Storage error"@))
                },
            },
    {
        let row = match ConfigScyllaRepository::get(&c.metadata, environment_id, config_id) {
            Ok(row) => row,
            Err(error) => {
                return Err(CommonError::from(error));
            },
        };
        match ConfigS3Storage::get(&c.storage, environment_id, config_id) {
            Ok(payload) => Ok(
                Config {
                    id: row.id,
                    name: row.name,
                    config: payload,
                    environment_id: row.environment_id,
                    created_at: row.created_at,
                },
            ),
            Err(error) => Err(CommonError::from(error)),
        }
    }

    /// Deletes a config from both stores; both sides must succeed. The
    /// metadata side's count-based existence check decides: deleting a
    /// config that is not there fails with not-found. No compensation is
    /// attempted on delete.
    pub fn delete(c: &mut Container, environment_id: ID, config_id: ID) -> (r: Result<
        (),
        CommonError,
    >)
        requires
            old(c).wf(),
        ensures
            final(c).wf(),
            final(c).identifier@ == old(c).identifier@,
            final(c).metadata.envs() == old(c).metadata.envs(),
            final(c).storage.blobs() == old(c).storage.blobs().filter(
                blob_without_key(environment_id, config_id),
            ),
            match r {
                Ok(u) => config_exists(old(c).metadata.cfgs(), environment_id, config_id)
                    && final(c).metadata.cfgs() == old(c).metadata.cfgs().filter(
                    config_without_key(environment_id, config_id),
                ),
                Err(e) => !config_exists(old(c).metadata.cfgs(), environment_id, config_id)
                    && final(c).metadata.cfgs() == old(c).metadata.cfgs() && e.code == 104
                    && e.message@ == "Not found"@ && e.description@ == "Config not exists"@,
            },
    {
        let storage_result = ConfigS3Storage::delete(&mut c.storage, environment_id, config_id);
        let repo_result = ConfigScyllaRepository::delete(&mut c.metadata, environment_id, config_id);
        proof {
            crate::seqs::lemma_filter_elements(
                old(c).storage.blobs(),
                blob_without_key(environment_id, config_id),
                |b: BlobRow| b.config_id <= old(c).identifier@,
            );
            crate::seqs::lemma_filter_elements(
                old(c).metadata.cfgs(),
                config_without_key(environment_id, config_id),
                |r: ConfigRow| r.id <= old(c).identifier@,
            );
        }
        match repo_result {
            Ok(u) => {
                let _ = storage_result;
                Ok(())
            },
            Err(error) => Err(CommonError::from(error)),
        }
    }
}

/// The environment coordinator.
pub struct EnvironmentServiceImpl {}

impl EnvironmentServiceImpl {
    /// Creates an environment: allocates an identifier and writes the
    /// metadata row. Environments own no payload, so no blob write and no
    /// referential check take part.
    pub fn create(c: &mut Container, env: CreateEnvironment) -> (r: Result<
        Environment,
        CommonError,
    >)
        requires
            old(c).wf(),
            old(c).identifier@ < i64::MAX,
            old(c).metadata.environments@.len() < i64::MAX,
        ensures
            final(c).wf(),
            final(c).metadata.cfgs() == old(c).metadata.cfgs(),
            final(c).storage.blobs() == old(c).storage.blobs(),
            old(c).identifier@ < final(c).identifier@,
            match r {
                Ok(e) => e.id > old(c).identifier@ && final(c).identifier@ == e.id && e.name@
                    == env.name@ && final(c).metadata.envs() == old(c).metadata.envs().push(
                    EnvRow { id: e.id, name: env.name@, created_at: e.created_at },
                ) && env_id_rows(final(c).metadata.envs(), e.id) == seq![
                    EnvRow { id: e.id, name: env.name@, created_at: e.created_at },
                ],
                Err(e) => false,
            },
    {
        let id = c.identifier.generate();
        match EnvironmentScyllaRepository::create(&mut c.metadata, id, &env) {
            Ok(created) => {
                proof {
                    assert forall|i: int|
                        0 <= i < old(c).metadata.envs().len() implies !crate::store::env_with_id(
                        id,
                    )(#[trigger] old(c).metadata.envs()[i]) by {
                        assert(old(c).metadata.envs()[i].id <= old(c).identifier@);
                    }
                    old(c).metadata.envs().lemma_all_neg_filter_empty(
                        crate::store::env_with_id(id),
                    );
                    old(c).metadata.envs().lemma_filter_push(
                        EnvRow { id: id, name: env.name@, created_at: created.created_at },
                        crate::store::env_with_id(id),
                    );
                }
                Ok(created)
            },
            Err(error) => Err(CommonError::from(error)),
        }
    }

    /// Lists one page of environments, delegated to the repository's
    /// keyset pagination.
    pub fn list(c: &Container, params: EnvironmentQueryParams) -> (r: Result<
        ResultPaging<Environment>,
        CommonError,
    >)
        requires
            c.wf(),
            params.page_size is Some ==> 5 <= params.page_size.unwrap() <= 50,
        ensures
            match r {
                Ok(page) => environment_list_ok(c.metadata.envs(), params, page),
                Err(e) => list_cursor(params.next_page) is None && e.code == 1 && e.message@
                    == "Invalid next_page token"@ && e.description@ == "base64 parsing error"@,
            },
    {
        match EnvironmentScyllaRepository::list(&c.metadata, params) {
            Ok(page) => Ok(page),
            Err(error) => Err(CommonError::from(error)),
        }
    }

    /// Deletes an environment: every payload under its blob prefix, every
    /// config row scoped to it, and its own row, all as one logical
    /// operation; both stores must succeed. The pre-delete count decides:
    /// deleting an environment that is not there fails with not-found.
    pub fn delete(c: &mut Container, environment_id: ID) -> (r: Result<(), CommonError>)
        requires
            old(c).wf(),
        ensures
            final(c).wf(),
            final(c).identifier@ == old(c).identifier@,
            final(c).metadata.envs() == old(c).metadata.envs().filter(
                env_without_id(environment_id),
            ),
            final(c).metadata.cfgs() == old(c).metadata.cfgs().filter(
                config_outside_env(environment_id),
            ),
            final(c).storage.blobs() == old(c).storage.blobs().filter(
                blob_outside_env(environment_id),
            ),
            r is Ok <==> env_exists(old(c).metadata.envs(), environment_id),
            match r {
                Ok(u) => true,
                Err(e) => e.code == 104 && e.message@ == "Not found"@ && e.description@
                    == "Environment not exists"@,
            },
    {
        let storage_result = EnvironmentS3Storage::delete(&mut c.storage, environment_id);
        let repo_result = EnvironmentScyllaRepository::delete(&mut c.metadata, environment_id);
        proof {
            crate::seqs::lemma_filter_elements(
                old(c).storage.blobs(),
                blob_outside_env(environment_id),
                |b: BlobRow| b.config_id <= old(c).identifier@,
            );
            crate::seqs::lemma_filter_elements(
                old(c).metadata.cfgs(),
                config_outside_env(environment_id),
                |r: ConfigRow| r.id <= old(c).identifier@,
            );
            crate::seqs::lemma_filter_elements(
                old(c).metadata.envs(),
                env_without_id(environment_id),
                |e: EnvRow| e.id <= old(c).identifier@,
            );
        }
        match repo_result {
            Ok(u) => {
                let _ = storage_result;
                Ok(())
            },
            Err(error) => Err(CommonError::from(error)),
        }
    }
}

} // verus!
