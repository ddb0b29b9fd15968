//! The metadata repositories: create with the emulated foreign-key check,
//! keyset-paginated listing, keyed reads, and count-checked deletes, each a
//! set of queries against the shared metadata store.

use vstd::prelude::*;

verus! {

use crate::ID;
use crate::cursor::{cursor_decode, cursor_encode, cursor_of, cursor_val};
use crate::errors::{DecodeError, RepositoryError, ScyllaRepositoryError};
use crate::ids::now_millis;
use crate::models::{
    config_of_row, ConfigRow, ConfigV, Config, CreateConfig, CreateEnvironment, EnvRow,
    Environment, EnvironmentV, ScyllaConfig, ScyllaEnvironment, environment_of_row,
};
use crate::paging::{page_size_spec, ConfigQueryParams, EnvironmentQueryParams, ResultPaging};
use crate::store::{
    config_env_rows, config_exists, config_key_rows, config_page_rows, config_views,
    config_without_key, config_outside_env, env_exists, env_id_rows, env_page_rows, env_views,
    env_without_id, take_at_most, MetadataStore,
};

/// The cursor a listing starts from: 0 (the beginning) when the request
/// carries none, the decoded identifier when it carries a well-formed one,
/// nothing when it carries a malformed one.
pub open spec fn list_cursor(next_page: Option<String>) -> Option<int> {
    match next_page {
        Some(s) => cursor_val(s@),
        None => Some(0int),
    }
}

/// The entity views of a page of configs.
pub open spec fn config_entity_views(items: Seq<Config>) -> Seq<ConfigV> {
    items.map_values(|c: Config| c@)
}

/// The entity views of a page of environments.
pub open spec fn environment_entity_views(items: Seq<Environment>) -> Seq<EnvironmentV> {
    items.map_values(|e: Environment| e@)
}

/// The metadata-only entities a row selection projects to.
pub open spec fn rows_as_configs(rows: Seq<ConfigRow>) -> Seq<ConfigV> {
    rows.map_values(|r: ConfigRow| config_of_row(r))
}

/// The entities an environment row selection projects to.
pub open spec fn rows_as_environments(rows: Seq<EnvRow>) -> Seq<EnvironmentV> {
    rows.map_values(|e: EnvRow| environment_of_row(e))
}

/// What a well-formed config listing returns: the page is the first
/// `page_size` rows beyond the cursor; a next-page cursor is present iff
/// more rows lie beyond the cursor than the page holds, and it encodes the
/// identifier of the page's last row.
pub open spec fn config_list_ok(
    rows: Seq<ConfigRow>,
    environment_id: ID,
    params: ConfigQueryParams,
    page: ResultPaging<Config>,
) -> bool {
    let cur = list_cursor(params.next_page).unwrap() as ID;
    let n = page_size_spec(params.page_size);
    let f = config_page_rows(rows, environment_id, cur);
    &&& list_cursor(params.next_page) is Some
    &&& page.code == 0
    &&& config_entity_views(page.items@) == rows_as_configs(take_at_most(f, n))
    &&& (page.next_page is Some <==> f.len() > n)
    &&& (page.next_page is Some ==> page.next_page.unwrap()@ == cursor_of(f[n - 1].id as int)
        && cursor_val(page.next_page.unwrap()@) == Some(f[n - 1].id as int))
}

/// What a well-formed environment listing returns.
pub open spec fn environment_list_ok(
    rows: Seq<EnvRow>,
    params: EnvironmentQueryParams,
    page: ResultPaging<Environment>,
) -> bool {
    let cur = list_cursor(params.next_page).unwrap() as ID;
    let n = page_size_spec(params.page_size);
    let f = env_page_rows(rows, cur);
    &&& list_cursor(params.next_page) is Some
    &&& page.code == 0
    &&& environment_entity_views(page.items@) == rows_as_environments(take_at_most(f, n))
    &&& (page.next_page is Some <==> f.len() > n)
    &&& (page.next_page is Some ==> page.next_page.unwrap()@ == cursor_of(f[n - 1].id as int)
        && cursor_val(page.next_page.unwrap()@) == Some(f[n - 1].id as int))
}

/// The repository over the configs table.
pub struct ConfigScyllaRepository {}

impl ConfigScyllaRepository {
    /// Creates a config row, after the referential-integrity check: a count
    /// query against the environments table must find the owning
    /// environment exactly once, else the insert is never issued and the
    /// call fails with not-found. Identifiers are generator-assigned, so
    /// the row's identifier lies above every stored one.
    pub fn create(
        db: &mut MetadataStore,
        id: ID,
        environment_id: ID,
        new_config: &CreateConfig,
    ) -> (r: Result<Config, RepositoryError>)
        requires
            old(db).wf(),
            1 <= id,
            forall|i: int|
                0 <= i < old(db).cfgs().len() ==> (#[trigger] old(db).cfgs()[i]).id < id,
            old(db).configs@.len() < i64::MAX,
        ensures
            final(db).wf(),
            final(db).envs() == old(db).envs(),
            match r {
                Ok(c) => env_exists(old(db).envs(), environment_id) && c.id == id && c.name@
                    == new_config.name@ && c.config@ == Seq::<char>::empty() && c.environment_id
                    == environment_id && final(db).cfgs() == old(db).cfgs().push(
                    ConfigRow {
                        id: id,
                        name: new_config.name@,
                        environment_id: environment_id,
                        created_at: c.created_at,
                    },
                ),
                Err(e) => !env_exists(old(db).envs(), environment_id)
                    && final(db).cfgs() == old(db).cfgs() && e.code == 104 && e.message@
                    == "Cannot create config"@ && e.description@ == "Environment not exists"@,
            },
    {
        let count = db.env_count(environment_id);
        if count.into_inner() != 1 {
            return Err(
                ScyllaRepositoryError::new(
                    "Cannot create config",
                    "Environment not exists",
                    104,
                ).into_inner(),
            );
        }
        let created_at = now_millis();
        db.config_insert(
            ScyllaConfig {
                id,
                name: new_config.name.clone(),
                environment_id,
                created_at,
            },
        );
        Ok(
            Config {
                id,
                name: new_config.name.clone(),
                config: String::new(),
                environment_id,
                created_at,
            },
        )
    }

    /// Lists one page of an environment's configs by keyset pagination: the
    /// range query and the count query both start strictly after the
    /// cursor; the count decides whether a next-page cursor is returned. A
    /// malformed cursor is refused with a decode error before any query.
    /// List items carry metadata only — payloads are never loaded here.
    pub fn list(db: &MetadataStore, environment_id: ID, params: ConfigQueryParams) -> (r: Result<
        ResultPaging<Config>,
        RepositoryError,
    >)
        requires
            db.wf(),
            params.page_size is Some ==> 5 <= params.page_size.unwrap() <= 50,
        ensures
            match r {
                Ok(page) => config_list_ok(db.cfgs(), environment_id, params, page),
                Err(e) => list_cursor(params.next_page) is None && e.code == 1 && e.message@
                    == "Invalid next_page token"@ && e.description@ == "base64 parsing error"@,
            },
    {
        let mut curr_page: i64 = 0;
        if params.next_page.is_some() {
            let token = params.next_page();
            match cursor_decode(token.as_str()) {
                Some(v) => {
                    curr_page = v;
                },
                None => {
                    return Err(DecodeError::new("Invalid next_page token").into_inner());
                },
            }
        }
        let page_size = params.page_size();
        let rows = db.config_select_after(environment_id, curr_page, page_size);
        let count = db.config_count_after(environment_id, curr_page).into_inner();

        let mut configs: Vec<Config> = Vec::new();
        let mut i: usize = 0;
        while i < rows.len()
            invariant
                0 <= i <= rows@.len(),
                configs@.len() == i,
                forall|j: int|
                    0 <= j < i ==> (#[trigger] configs@[j])@ == config_of_row(
                        config_views(rows@)[j],
                    ),
            decreases rows@.len() - i,
        {
            let c = &rows[i];
            configs.push(
                Config {
                    id: c.id,
                    name: c.name.clone(),
                    config: String::new(),
                    environment_id: c.environment_id,
                    created_at: c.created_at,
                },
            );
            proof {
                assert(configs@[i as int]@ == config_of_row(config_views(rows@)[i as int]));
            }
            i = i + 1;
        }
        proof {
            assert(config_entity_views(configs@) =~= rows_as_configs(config_views(rows@)));
        }

        let next_page = if configs.len() > 0 && count > configs.len() as i64 {
            proof {
                let fseq = config_page_rows(db.cfgs(), environment_id, curr_page);
                assert(config_views(rows@).len() == configs@.len());
                assert(fseq.len() > page_size);
                assert(config_views(rows@) == fseq.take(page_size as int));
                db.cfgs().lemma_filter_pred(
                    crate::store::config_after(environment_id, curr_page),
                    page_size as int - 1,
                );
                assert(config_views(rows@)[rows@.len() - 1] == fseq[page_size as int - 1]);
                assert(rows@[rows@.len() - 1]@.id > curr_page);
            }
            Some(cursor_encode(rows[rows.len() - 1].id))
        } else {
            None
        };

        Ok(ResultPaging { code: 0, items: configs, next_page })
    }

    /// Reads one config's metadata row; a missing row fails with not-found.
    pub fn get(db: &MetadataStore, environment_id: ID, config_id: ID) -> (r: Result<
        Config,
        RepositoryError,
    >)
        requires
            db.wf(),
        ensures
            match r {
                Ok(c) => config_exists(db.cfgs(), environment_id, config_id) && c@ == config_of_row(
                    config_key_rows(db.cfgs(), environment_id, config_id)[0],
                ),
                Err(e) => config_key_rows(db.cfgs(), environment_id, config_id).len() == 0
                    && e.code == 104 && e.message@ == "No rows found"@ && e.description@
                    == "Config not exists"@,
            },
    {
        match db.config_get(environment_id, config_id) {
            Some(row) => Ok(row.into_config()),
            None => Err(
                ScyllaRepositoryError::new("No rows found", "Config not exists", 104).into_inner(),
            ),
        }
    }

    /// Deletes one config row, success decided by the count-based existence
    /// check: the store cannot report how many rows a delete touched, so a
    /// count of the scoped key decides, and a key that was not there fails
    /// with not-found having deleted nothing.
    pub fn delete(db: &mut MetadataStore, environment_id: ID, config_id: ID) -> (r: Result<
        (),
        RepositoryError,
    >)
        requires
            old(db).wf(),
        ensures
            final(db).wf(),
            final(db).envs() == old(db).envs(),
            match r {
                Ok(u) => config_exists(old(db).cfgs(), environment_id, config_id)
                    && final(db).cfgs() == old(db).cfgs().filter(
                    config_without_key(environment_id, config_id),
                ),
                Err(e) => !config_exists(old(db).cfgs(), environment_id, config_id)
                    && final(db).cfgs() == old(db).cfgs() && e.code == 104 && e.message@
                    == "Not found"@ && e.description@ == "Config not exists"@,
            },
    {
        let count = db.config_count_key(environment_id, config_id).into_inner();
        if count != 1 {
            return Err(
                ScyllaRepositoryError::new("Not found", "Config not exists", 104).into_inner(),
            );
        }
        db.config_delete(environment_id, config_id);
        Ok(())
    }
}

/// The repository over the environments table.
pub struct EnvironmentScyllaRepository {}

impl EnvironmentScyllaRepository {
    /// Creates an environment row. Environments have no parent, so no
    /// referential check applies.
    pub fn create(db: &mut MetadataStore, id: ID, new_env: &CreateEnvironment) -> (r: Result<
        Environment,
        RepositoryError,
    >)
        requires
            old(db).wf(),
            1 <= id,
            forall|i: int|
                0 <= i < old(db).envs().len() ==> (#[trigger] old(db).envs()[i]).id < id,
            old(db).environments@.len() < i64::MAX,
        ensures
            final(db).wf(),
            final(db).cfgs() == old(db).cfgs(),
            match r {
                Ok(e) => e.id == id && e.name@ == new_env.name@
                    && final(db).envs() == old(db).envs().push(
                    EnvRow { id: id, name: new_env.name@, created_at: e.created_at },
                ),
                Err(e) => false,
            },
    {
        let created_at = now_millis();
        db.env_insert(ScyllaEnvironment { id, name: new_env.name.clone(), created_at });
        Ok(Environment { id, name: new_env.name.clone(), created_at })
    }

    /// Lists one page of environments by keyset pagination, unscoped.
    pub fn list(db: &MetadataStore, params: EnvironmentQueryParams) -> (r: Result<
        ResultPaging<Environment>,
        RepositoryError,
    >)
        requires
            db.wf(),
            params.page_size is Some ==> 5 <= params.page_size.unwrap() <= 50,
        ensures
            match r {
                Ok(page) => environment_list_ok(db.envs(), params, page),
                Err(e) => list_cursor(params.next_page) is None && e.code == 1 && e.message@
                    == "Invalid next_page token"@ && e.description@ == "base64 parsing error"@,
            },
    {
        let mut curr_page: i64 = 0;
        if params.next_page.is_some() {
            let token = params.next_page();
            match cursor_decode(token.as_str()) {
                Some(v) => {
                    curr_page = v;
                },
                None => {
                    return Err(DecodeError::new("Invalid next_page token").into_inner());
                },
            }
        }
        let page_size = params.page_size();
        let rows = db.env_select_after(curr_page, page_size);
        let count = db.env_count_after(curr_page).into_inner();

        let mut envs: Vec<Environment> = Vec::new();
        let mut i: usize = 0;
        while i < rows.len()
            invariant
                0 <= i <= rows@.len(),
                envs@.len() == i,
                forall|j: int|
                    0 <= j < i ==> (#[trigger] envs@[j])@ == environment_of_row(
                        env_views(rows@)[j],
                    ),
            decreases rows@.len() - i,
        {
            let e = &rows[i];
            envs.push(Environment { id: e.id, name: e.name.clone(), created_at: e.created_at });
            proof {
                assert(envs@[i as int]@ == environment_of_row(env_views(rows@)[i as int]));
            }
            i = i + 1;
        }
        proof {
            assert(environment_entity_views(envs@) =~= rows_as_environments(env_views(rows@)));
        }

        let next_page = if envs.len() > 0 && count > envs.len() as i64 {
            proof {
                let fseq = env_page_rows(db.envs(), curr_page);
                assert(env_views(rows@).len() == envs@.len());
                assert(fseq.len() > page_size);
                assert(env_views(rows@) == fseq.take(page_size as int));
                db.envs().lemma_filter_pred(
                    crate::store::env_after(curr_page),
                    page_size as int - 1,
                );
                assert(env_views(rows@)[rows@.len() - 1] == fseq[page_size as int - 1]);
                assert(rows@[rows@.len() - 1]@.id > curr_page);
            }
            Some(cursor_encode(rows[rows.len() - 1].id))
        } else {
            None
        };

        Ok(ResultPaging { code: 0, items: envs, next_page })
    }

    /// Deletes an environment row together with every config row scoped to
    /// it — the store has no cascade of its own, so the scoped delete is
    /// issued as part of the same logical operation. The pre-delete count
    /// of the environment's identifier decides success: deleting what was
    /// not there fails with not-found.
    pub fn delete(db: &mut MetadataStore, environment_id: ID) -> (r: Result<(), RepositoryError>)
        requires
            old(db).wf(),
        ensures
            final(db).wf(),
            final(db).envs() == old(db).envs().filter(env_without_id(environment_id)),
            final(db).cfgs() == old(db).cfgs().filter(config_outside_env(environment_id)),
            r is Ok <==> env_exists(old(db).envs(), environment_id),
            match r {
                Ok(u) => true,
                Err(e) => e.code == 104 && e.message@ == "Not found"@ && e.description@
                    == "Environment not exists"@,
            },
    {
        let count = db.env_count(environment_id).into_inner();
        db.env_delete(environment_id);
        db.config_delete_env(environment_id);
        if count != 1 {
            return Err(
                ScyllaRepositoryError::new("Not found", "Environment not exists", 104).into_inner(),
            );
        }
        Ok(())
    }
}

} // verus!
