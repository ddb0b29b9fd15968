//! The metadata store: the environments table and the configs table, each a
//! sequence of rows sorted strictly by identifier, and the key, count and
//! keyset range queries the repositories issue against them.

use vstd::prelude::*;

verus! {

use crate::ID;
use crate::models::{ConfigRow, EnvRow, ScyllaConfig, ScyllaCount, ScyllaEnvironment};
use crate::seqs::{
    lemma_filter_all_true, lemma_filter_boundary, lemma_filter_congruent, lemma_filter_elements,
    lemma_filter_except_one, lemma_filter_only_one, lemma_filter_sorted, lemma_filter_subsumed,
    lemma_remove_sorted, sorted_by,
};

/// The key an environments-table query sorts and pages by.
pub open spec fn env_id_key() -> spec_fn(EnvRow) -> int {
    |e: EnvRow| e.id as int
}

/// The key a configs-table query sorts and pages by.
pub open spec fn config_id_key() -> spec_fn(ConfigRow) -> int {
    |r: ConfigRow| r.id as int
}

/// Environment rows past a pagination cursor.
pub open spec fn env_after(cur: ID) -> spec_fn(EnvRow) -> bool {
    |e: EnvRow| e.id > cur
}

/// The environment row with one identifier.
pub open spec fn env_with_id(id: ID) -> spec_fn(EnvRow) -> bool {
    |e: EnvRow| e.id == id
}

/// Every environment row but one identifier.
pub open spec fn env_without_id(id: ID) -> spec_fn(EnvRow) -> bool {
    |e: EnvRow| e.id != id
}

/// Config rows of one environment past a pagination cursor.
pub open spec fn config_after(env: ID, cur: ID) -> spec_fn(ConfigRow) -> bool {
    |r: ConfigRow| r.environment_id == env && r.id > cur
}

/// The config row with one scoped key.
pub open spec fn config_with_key(env: ID, id: ID) -> spec_fn(ConfigRow) -> bool {
    |r: ConfigRow| r.environment_id == env && r.id == id
}

/// Every config row but one scoped key.
pub open spec fn config_without_key(env: ID, id: ID) -> spec_fn(ConfigRow) -> bool {
    |r: ConfigRow| !(r.environment_id == env && r.id == id)
}

/// The config rows one environment owns.
pub open spec fn config_in_env(env: ID) -> spec_fn(ConfigRow) -> bool {
    |r: ConfigRow| r.environment_id == env
}

/// The config rows every other environment owns.
pub open spec fn config_outside_env(env: ID) -> spec_fn(ConfigRow) -> bool {
    |r: ConfigRow| r.environment_id != env
}

/// What an environments range query selects beyond a cursor.
pub open spec fn env_page_rows(rows: Seq<EnvRow>, cur: ID) -> Seq<EnvRow> {
    rows.filter(env_after(cur))
}

/// What an environments count query counts for one identifier.
pub open spec fn env_id_rows(rows: Seq<EnvRow>, id: ID) -> Seq<EnvRow> {
    rows.filter(env_with_id(id))
}

/// The existence check behind the emulated foreign key: exactly one
/// environment row carries the identifier.
pub open spec fn env_exists(rows: Seq<EnvRow>, id: ID) -> bool {
    env_id_rows(rows, id).len() == 1
}

/// What a configs range query selects beyond a cursor, scoped to a parent.
pub open spec fn config_page_rows(rows: Seq<ConfigRow>, env: ID, cur: ID) -> Seq<ConfigRow> {
    rows.filter(config_after(env, cur))
}

/// What a configs key query selects.
pub open spec fn config_key_rows(rows: Seq<ConfigRow>, env: ID, id: ID) -> Seq<ConfigRow> {
    rows.filter(config_with_key(env, id))
}

/// A config with the scoped key is present.
pub open spec fn config_exists(rows: Seq<ConfigRow>, env: ID, id: ID) -> bool {
    config_key_rows(rows, env, id).len() == 1
}

/// All config rows one environment owns, in identifier order.
pub open spec fn config_env_rows(rows: Seq<ConfigRow>, env: ID) -> Seq<ConfigRow> {
    rows.filter(config_in_env(env))
}

/// A range query's limit: the whole selection when it fits, its first
/// `n` rows otherwise.
pub open spec fn take_at_most<T>(s: Seq<T>, n: usize) -> Seq<T> {
    if s.len() <= n {
        s
    } else {
        s.take(n as int)
    }
}

/// The ghost views of a vector of config rows.
pub open spec fn config_views(s: Seq<ScyllaConfig>) -> Seq<ConfigRow> {
    s.map_values(|c: ScyllaConfig| c@)
}

/// The ghost views of a vector of environment rows.
pub open spec fn env_views(s: Seq<ScyllaEnvironment>) -> Seq<EnvRow> {
    s.map_values(|e: ScyllaEnvironment| e@)
}

/// The structured metadata store: one environments table and one configs
/// table. Rows are kept sorted strictly by identifier — identifiers are
/// generator-assigned and never reused — which is what keyset pagination
/// sorts by.
pub struct MetadataStore {
    pub environments: Vec<ScyllaEnvironment>,
    pub configs: Vec<ScyllaConfig>,
}

impl MetadataStore {
    /// The environments table.
    pub open spec fn envs(&self) -> Seq<EnvRow> {
        env_views(self.environments@)
    }

    /// The configs table.
    pub open spec fn cfgs(&self) -> Seq<ConfigRow> {
        config_views(self.configs@)
    }

    /// Both tables sorted strictly ascending by identifier, every
    /// identifier at least 1 (0 is the cursor that means "start"), and both
    /// small enough for a count to fit the count row's 64 bits.
    pub open spec fn wf(&self) -> bool {
        &&& sorted_by(self.envs(), env_id_key())
        &&& sorted_by(self.cfgs(), config_id_key())
        &&& forall|i: int| 0 <= i < self.envs().len() ==> (#[trigger] self.envs()[i]).id >= 1
        &&& forall|i: int| 0 <= i < self.cfgs().len() ==> (#[trigger] self.cfgs()[i]).id >= 1
        &&& self.environments@.len() <= i64::MAX
        &&& self.configs@.len() <= i64::MAX
    }

    /// Creates the store with both tables empty.
    pub fn new() -> (r: MetadataStore)
        ensures
            r.wf(),
            r.envs() == Seq::<EnvRow>::empty(),
            r.cfgs() == Seq::<ConfigRow>::empty(),
    {
        MetadataStore { environments: Vec::new(), configs: Vec::new() }
    }

    /// Inserts an environment row. Identifiers are generator-assigned in
    /// ascending order, so a new row's identifier lies above every stored
    /// one and the row goes at the end of the table.
    pub fn env_insert(&mut self, row: ScyllaEnvironment)
        requires
            old(self).wf(),
            1 <= row.id,
            forall|i: int|
                0 <= i < old(self).envs().len() ==> (#[trigger] old(self).envs()[i]).id < row.id,
            old(self).environments@.len() < i64::MAX,
        ensures
            final(self).wf(),
            final(self).envs() == old(self).envs().push(row@),
            final(self).cfgs() == old(self).cfgs(),
    {
        self.environments.push(row);
        proof {
            assert(self.envs() =~= old(self).envs().push(row@));
            assert forall|i: int, j: int| 0 <= i < j < self.envs().len() implies env_id_key()(
                self.envs()[i],
            ) < env_id_key()(self.envs()[j]) by {
                assert(self.envs()[i] == old(self).envs()[i]);
                if j < self.envs().len() - 1 {
                    assert(self.envs()[j] == old(self).envs()[j]);
                }
            }
            assert forall|i: int| 0 <= i < self.envs().len() implies (
            #[trigger] self.envs()[i]).id >= 1 by {
                if i < self.envs().len() - 1 {
                    assert(self.envs()[i] == old(self).envs()[i]);
                }
            }
        }
    }

    /// Inserts a config row, at the end of the table for the same reason.
    pub fn config_insert(&mut self, row: ScyllaConfig)
        requires
            old(self).wf(),
            1 <= row.id,
            forall|i: int|
                0 <= i < old(self).cfgs().len() ==> (#[trigger] old(self).cfgs()[i]).id < row.id,
            old(self).configs@.len() < i64::MAX,
        ensures
            final(self).wf(),
            final(self).cfgs() == old(self).cfgs().push(row@),
            final(self).envs() == old(self).envs(),
    {
        self.configs.push(row);
        proof {
            assert(self.cfgs() =~= old(self).cfgs().push(row@));
            assert forall|i: int, j: int| 0 <= i < j < self.cfgs().len() implies config_id_key()(
                self.cfgs()[i],
            ) < config_id_key()(self.cfgs()[j]) by {
                assert(self.cfgs()[i] == old(self).cfgs()[i]);
                if j < self.cfgs().len() - 1 {
                    assert(self.cfgs()[j] == old(self).cfgs()[j]);
                }
            }
            assert forall|i: int| 0 <= i < self.cfgs().len() implies (
            #[trigger] self.cfgs()[i]).id >= 1 by {
                if i < self.cfgs().len() - 1 {
                    assert(self.cfgs()[i] == old(self).cfgs()[i]);
                }
            }
        }
    }

    /// The count query behind the foreign-key check and the delete
    /// re-check: how many environment rows carry the identifier.
    pub fn env_count(&self, id: ID) -> (r: ScyllaCount)
        requires
            self.wf(),
        ensures
            r@ == env_id_rows(self.envs(), id).len(),
    {
        let ghost rows = self.envs();
        let mut cnt: i64 = 0;
        let mut i: usize = 0;
        while i < self.environments.len()
            invariant
                rows == self.envs(),
                self.environments@.len() == rows.len(),
                rows.len() <= i64::MAX,
                0 <= i <= rows.len(),
                cnt == env_id_rows(rows.take(i as int), id).len(),
                0 <= cnt <= i,
            decreases rows.len() - i,
        {
            proof {
                assert(rows.take(i + 1) =~= rows.take(i as int).push(rows[i as int]));
                rows.take(i as int).lemma_filter_push(rows[i as int], env_with_id(id));
            }
            if self.environments[i].id == id {
                cnt = cnt + 1;
            }
            i = i + 1;
        }
        proof {
            assert(rows.take(i as int) =~= rows);
        }
        ScyllaCount::new(cnt)
    }

    /// The count query a config delete verifies against: how many config
    /// rows carry the scoped key.
    pub fn config_count_key(&self, env: ID, id: ID) -> (r: ScyllaCount)
        requires
            self.wf(),
        ensures
            r@ == config_key_rows(self.cfgs(), env, id).len(),
    {
        let ghost rows = self.cfgs();
        let mut cnt: i64 = 0;
        let mut i: usize = 0;
        while i < self.configs.len()
            invariant
                rows == self.cfgs(),
                self.configs@.len() == rows.len(),
                rows.len() <= i64::MAX,
                0 <= i <= rows.len(),
                cnt == config_key_rows(rows.take(i as int), env, id).len(),
                0 <= cnt <= i,
            decreases rows.len() - i,
        {
            proof {
                assert(rows.take(i + 1) =~= rows.take(i as int).push(rows[i as int]));
                rows.take(i as int).lemma_filter_push(rows[i as int], config_with_key(env, id));
            }
            if self.configs[i].environment_id == env && self.configs[i].id == id {
                cnt = cnt + 1;
            }
            i = i + 1;
        }
        proof {
            assert(rows.take(i as int) =~= rows);
        }
        ScyllaCount::new(cnt)
    }

    /// The count query a listing pairs with its range query: how many
    /// environment rows lie beyond the cursor.
    pub fn env_count_after(&self, cur: ID) -> (r: ScyllaCount)
        requires
            self.wf(),
        ensures
            r@ == env_page_rows(self.envs(), cur).len(),
    {
        let ghost rows = self.envs();
        let mut cnt: i64 = 0;
        let mut i: usize = 0;
        while i < self.environments.len()
            invariant
                rows == self.envs(),
                self.environments@.len() == rows.len(),
                rows.len() <= i64::MAX,
                0 <= i <= rows.len(),
                cnt == env_page_rows(rows.take(i as int), cur).len(),
                0 <= cnt <= i,
            decreases rows.len() - i,
        {
            proof {
                assert(rows.take(i + 1) =~= rows.take(i as int).push(rows[i as int]));
                rows.take(i as int).lemma_filter_push(rows[i as int], env_after(cur));
            }
            if self.environments[i].id > cur {
                cnt = cnt + 1;
            }
            i = i + 1;
        }
        proof {
            assert(rows.take(i as int) =~= rows);
        }
        ScyllaCount::new(cnt)
    }

    /// How many config rows of one environment lie beyond the cursor.
    pub fn config_count_after(&self, env: ID, cur: ID) -> (r: ScyllaCount)
        requires
            self.wf(),
        ensures
            r@ == config_page_rows(self.cfgs(), env, cur).len(),
    {
        let ghost rows = self.cfgs();
        let mut cnt: i64 = 0;
        let mut i: usize = 0;
        while i < self.configs.len()
            invariant
                rows == self.cfgs(),
                self.configs@.len() == rows.len(),
                rows.len() <= i64::MAX,
                0 <= i <= rows.len(),
                cnt == config_page_rows(rows.take(i as int), env, cur).len(),
                0 <= cnt <= i,
            decreases rows.len() - i,
        {
            proof {
                assert(rows.take(i + 1) =~= rows.take(i as int).push(rows[i as int]));
                rows.take(i as int).lemma_filter_push(rows[i as int], config_after(env, cur));
            }
            if self.configs[i].environment_id == env && self.configs[i].id > cur {
                cnt = cnt + 1;
            }
            i = i + 1;
        }
        proof {
            assert(rows.take(i as int) =~= rows);
        }
        ScyllaCount::new(cnt)
    }

    /// The keyset range query over environments: rows with identifier
    /// strictly greater than the cursor, ascending, at most `limit` rows.
    pub fn env_select_after(&self, cur: ID, limit: usize) -> (r: Vec<ScyllaEnvironment>)
        requires
            self.wf(),
        ensures
            env_views(r@) == take_at_most(env_page_rows(self.envs(), cur), limit),
    {
        let ghost rows = self.envs();
        let mut out: Vec<ScyllaEnvironment> = Vec::new();
        let mut i: usize = 0;
        while i < self.environments.len()
            invariant
                rows == self.envs(),
                self.environments@.len() == rows.len(),
                0 <= i <= rows.len(),
                out@.len() <= limit,
                env_views(out@) == take_at_most(env_page_rows(rows.take(i as int), cur), limit),
            decreases rows.len() - i,
        {
            let ghost page = env_page_rows(rows.take(i as int), cur);
            proof {
                assert(rows.take(i + 1) =~= rows.take(i as int).push(rows[i as int]));
                rows.take(i as int).lemma_filter_push(rows[i as int], env_after(cur));
            }
            let e = &self.environments[i];
            if e.id > cur && out.len() < limit {
                proof {
                    assert(page.len() == env_views(out@).len());
                }
                out.push(
                    ScyllaEnvironment { id: e.id, name: e.name.clone(), created_at: e.created_at },
                );
                proof {
                    assert(env_views(out@) =~= take_at_most(
                        env_page_rows(rows.take(i + 1), cur),
                        limit,
                    ));
                }
            } else {
                proof {
                    if e.id > cur {
                        assert(page.len() >= limit);
                        assert(take_at_most(page.push(rows[i as int]), limit) =~= take_at_most(
                            page,
                            limit,
                        ));
                    }
                }
            }
            i = i + 1;
        }
        proof {
            assert(rows.take(i as int) =~= rows);
        }
        out
    }

    /// The keyset range query over one environment's configs.
    pub fn config_select_after(&self, env: ID, cur: ID, limit: usize) -> (r: Vec<ScyllaConfig>)
        requires
            self.wf(),
        ensures
            config_views(r@) == take_at_most(config_page_rows(self.cfgs(), env, cur), limit),
    {
        let ghost rows = self.cfgs();
        let mut out: Vec<ScyllaConfig> = Vec::new();
        let mut i: usize = 0;
        while i < self.configs.len()
            invariant
                rows == self.cfgs(),
                self.configs@.len() == rows.len(),
                0 <= i <= rows.len(),
                out@.len() <= limit,
                config_views(out@) == take_at_most(config_page_rows(rows.take(i as int), env, cur), limit),
            decreases rows.len() - i,
        {
            let ghost page = config_page_rows(rows.take(i as int), env, cur);
            proof {
                assert(rows.take(i + 1) =~= rows.take(i as int).push(rows[i as int]));
                rows.take(i as int).lemma_filter_push(rows[i as int], config_after(env, cur));
            }
            let c = &self.configs[i];
            if c.environment_id == env && c.id > cur && out.len() < limit {
                proof {
                    assert(page.len() == config_views(out@).len());
                }
                out.push(
                    ScyllaConfig {
                        id: c.id,
                        name: c.name.clone(),
                        environment_id: c.environment_id,
                        created_at: c.created_at,
                    },
                );
                proof {
                    assert(config_views(out@) =~= take_at_most(
                        config_page_rows(rows.take(i + 1), env, cur),
                        limit,
                    ));
                }
            } else {
                proof {
                    if c.environment_id == env && c.id > cur {
                        assert(page.len() >= limit);
                        assert(take_at_most(page.push(rows[i as int]), limit) =~= take_at_most(
                            page,
                            limit,
                        ));
                    }
                }
            }
            i = i + 1;
        }
        proof {
            assert(rows.take(i as int) =~= rows);
        }
        out
    }

    /// The key query behind a metadata read: the one config row with the
    /// scoped key, when it is present.
    pub fn config_get(&self, env: ID, id: ID) -> (r: Option<ScyllaConfig>)
        requires
            self.wf(),
        ensures
            match r {
                Some(row) => config_key_rows(self.cfgs(), env, id) == seq![row@],
                None => config_key_rows(self.cfgs(), env, id).len() == 0,
            },
    {
        let ghost rows = self.cfgs();
        let mut i: usize = 0;
        while i < self.configs.len()
            invariant
                rows == self.cfgs(),
                self.configs@.len() == rows.len(),
                self.wf(),
                0 <= i <= rows.len(),
                forall|j: int| 0 <= j < i ==> !config_with_key(env, id)(#[trigger] rows[j]),
            decreases rows.len() - i,
        {
            let c = &self.configs[i];
            if c.environment_id == env && c.id == id {
                proof {
                    assert forall|j: int|
                        0 <= j < rows.len() && j != i implies !config_with_key(env, id)(
                        #[trigger] rows[j],
                    ) by {
                        if j > i {
                            assert(config_id_key()(rows[i as int]) < config_id_key()(rows[j]));
                        }
                    }
                    lemma_filter_only_one(rows, config_with_key(env, id), i as int);
                }
                let row = ScyllaConfig {
                    id: c.id,
                    name: c.name.clone(),
                    environment_id: c.environment_id,
                    created_at: c.created_at,
                };
                return Some(row);
            }
            i = i + 1;
        }
        proof {
            rows.lemma_all_neg_filter_empty(config_with_key(env, id));
        }
        None
    }

    /// Deletes the environment row with the identifier; a row that is not
    /// there is left alone, as the store's delete is idempotent.
    pub fn env_delete(&mut self, id: ID)
        requires
            old(self).wf(),
        ensures
            final(self).wf(),
            final(self).envs() == old(self).envs().filter(env_without_id(id)),
            final(self).cfgs() == old(self).cfgs(),
    {
        let ghost rows = self.envs();
        let mut i: usize = 0;
        while i < self.environments.len()
            invariant
                self == old(self),
                rows == self.envs(),
                self.environments@.len() == rows.len(),
                self.wf(),
                0 <= i <= rows.len(),
                forall|j: int| 0 <= j < i ==> env_without_id(id)(#[trigger] rows[j]),
            decreases rows.len() - i,
        {
            if self.environments[i].id == id {
                proof {
                    assert forall|j: int|
                        0 <= j < rows.len() && j != i implies env_without_id(id)(
                        #[trigger] rows[j],
                    ) by {
                        if j > i {
                            assert(env_id_key()(rows[i as int]) < env_id_key()(rows[j]));
                        }
                    }
                    lemma_filter_except_one(rows, env_without_id(id), i as int);
                    lemma_remove_sorted(rows, env_id_key(), i as int);
                }
                self.environments.remove(i);
                proof {
                    assert(self.envs() =~= rows.remove(i as int));
                    assert forall|j: int|
                        0 <= j < self.envs().len() implies (#[trigger] self.envs()[j]).id >= 1 by {
                        if j < i {
                            assert(self.envs()[j] == rows[j]);
                        } else {
                            assert(self.envs()[j] == rows[j + 1]);
                        }
                    }
                }
                return ;
            }
            i = i + 1;
        }
        proof {
            lemma_filter_all_true(rows, env_without_id(id));
        }
    }

    /// Deletes the config row with the scoped key, idempotently.
    pub fn config_delete(&mut self, env: ID, id: ID)
        requires
            old(self).wf(),
        ensures
            final(self).wf(),
            final(self).cfgs() == old(self).cfgs().filter(config_without_key(env, id)),
            final(self).envs() == old(self).envs(),
    {
        let ghost rows = self.cfgs();
        let mut i: usize = 0;
        while i < self.configs.len()
            invariant
                self == old(self),
                rows == self.cfgs(),
                self.configs@.len() == rows.len(),
                self.wf(),
                0 <= i <= rows.len(),
                forall|j: int| 0 <= j < i ==> config_without_key(env, id)(#[trigger] rows[j]),
            decreases rows.len() - i,
        {
            if self.configs[i].environment_id == env && self.configs[i].id == id {
                proof {
                    assert forall|j: int|
                        0 <= j < rows.len() && j != i implies config_without_key(env, id)(
                        #[trigger] rows[j],
                    ) by {
                        if j > i {
                            assert(config_id_key()(rows[i as int]) < config_id_key()(rows[j]));
                        }
                    }
                    lemma_filter_except_one(rows, config_without_key(env, id), i as int);
                    lemma_remove_sorted(rows, config_id_key(), i as int);
                }
                self.configs.remove(i);
                proof {
                    assert(self.cfgs() =~= rows.remove(i as int));
                    assert forall|j: int|
                        0 <= j < self.cfgs().len() implies (#[trigger] self.cfgs()[j]).id >= 1 by {
                        if j < i {
                            assert(self.cfgs()[j] == rows[j]);
                        } else {
                            assert(self.cfgs()[j] == rows[j + 1]);
                        }
                    }
                }
                return ;
            }
            i = i + 1;
        }
        proof {
            lemma_filter_all_true(rows, config_without_key(env, id));
        }
    }

    /// Deletes every config row one environment owns: the scoped delete an
    /// environment delete issues, since the store cascades nothing itself.
    #[verifier::rlimit(60)]
    pub fn config_delete_env(&mut self, env: ID)
        requires
            old(self).wf(),
        ensures
            final(self).wf(),
            final(self).cfgs() == old(self).cfgs().filter(config_outside_env(env)),
            final(self).envs() == old(self).envs(),
    {
        let ghost rows = self.cfgs();
        let ghost pred = config_outside_env(env);
        let ghost mut k: int = 0;
        let mut i: usize = 0;
        #[verifier::loop_isolation(false)]
        while i < self.configs.len()
            invariant
                0 <= k <= rows.len(),
                i == rows.take(k).filter(pred).len(),
                self.cfgs() =~= rows.take(k).filter(pred) + rows.skip(k),
                self.envs() == old(self).envs(),
                self.configs@.len() == self.cfgs().len(),
                i <= self.cfgs().len(),
                self.cfgs().len() == rows.take(k).filter(pred).len() + rows.len() - k,
            decreases rows.len() - k,
        {
            proof {
                assert(rows.take(k + 1) =~= rows.take(k).push(rows[k]));
                rows.take(k).lemma_filter_push(rows[k], pred);
                assert(self.cfgs()[i as int] == rows[k]);
            }
            if self.configs[i].environment_id == env {
                let ghost pre = self.cfgs();
                self.configs.remove(i);
                proof {
                    assert(self.cfgs() =~= pre.remove(i as int));
                    assert(self.cfgs() =~= rows.take(k + 1).filter(pred) + rows.skip(k + 1));
                }
            } else {
                i = i + 1;
                proof {
                    assert(self.cfgs() =~= rows.take(k + 1).filter(pred) + rows.skip(k + 1));
                }
            }
            proof {
                k = k + 1;
            }
        }
        proof {
            assert(rows.take(k) =~= rows);
            assert(rows.skip(k) =~= Seq::<ConfigRow>::empty());
            assert(self.cfgs() =~= rows.filter(pred));
            lemma_filter_sorted(rows, pred, config_id_key());
            lemma_filter_elements(rows, pred, |r: ConfigRow| r.id >= 1);
        }
    }
}

/// Resuming a listing after the last row of a full page selects exactly the
/// rows beyond that page: no duplicate, no gap.
pub proof fn lemma_config_page_step(rows: Seq<ConfigRow>, env: ID, cur: ID, n: int)
    requires
        sorted_by(rows, config_id_key()),
        1 <= n < config_page_rows(rows, env, cur).len(),
    ensures
        cur < config_page_rows(rows, env, cur)[n - 1].id,
        config_page_rows(rows, env, config_page_rows(rows, env, cur)[n - 1].id)
            == config_page_rows(rows, env, cur).skip(n),
{
    let f = config_page_rows(rows, env, cur);
    let pred = config_after(env, cur);
    assert forall|i: int| 0 <= i < f.len() implies pred(#[trigger] f[i]) by {
        rows.lemma_filter_pred(pred, i);
    }
    let v = f[n - 1].id;
    let pred2 = config_after(env, v);
    lemma_filter_subsumed(rows, pred, pred2);
    lemma_filter_sorted(rows, pred, config_id_key());
    assert forall|i: int| 0 <= i < n implies !pred2(#[trigger] f[i]) by {
        if i < n - 1 {
            assert(config_id_key()(f[i]) < config_id_key()(f[n - 1]));
        }
    }
    assert forall|i: int| n <= i < f.len() implies pred2(#[trigger] f[i]) by {
        assert(config_id_key()(f[n - 1]) < config_id_key()(f[i]));
    }
    lemma_filter_boundary(f, pred2, n);
}

/// The same, for the environments table.
pub proof fn lemma_env_page_step(rows: Seq<EnvRow>, cur: ID, n: int)
    requires
        sorted_by(rows, env_id_key()),
        1 <= n < env_page_rows(rows, cur).len(),
    ensures
        cur < env_page_rows(rows, cur)[n - 1].id,
        env_page_rows(rows, env_page_rows(rows, cur)[n - 1].id) == env_page_rows(rows, cur).skip(
            n,
        ),
{
    let f = env_page_rows(rows, cur);
    let pred = env_after(cur);
    assert forall|i: int| 0 <= i < f.len() implies pred(#[trigger] f[i]) by {
        rows.lemma_filter_pred(pred, i);
    }
    let v = f[n - 1].id;
    let pred2 = env_after(v);
    lemma_filter_subsumed(rows, pred, pred2);
    lemma_filter_sorted(rows, pred, env_id_key());
    assert forall|i: int| 0 <= i < n implies !pred2(#[trigger] f[i]) by {
        if i < n - 1 {
            assert(env_id_key()(f[i]) < env_id_key()(f[n - 1]));
        }
    }
    assert forall|i: int| n <= i < f.len() implies pred2(#[trigger] f[i]) by {
        assert(env_id_key()(f[n - 1]) < env_id_key()(f[i]));
    }
    lemma_filter_boundary(f, pred2, n);
}

/// The config rows that repeated listing yields: a page of `n` rows, then
/// the pages after it, each call resuming from the last identifier of the
/// page before, as long as a next-page cursor would be returned — that is,
/// as long as more rows lie beyond the cursor than one page holds. The
/// guard also carries what makes the recursion well founded; over a sorted
/// table it is exactly "the page was full and rows remain".
pub open spec fn config_paginate_rows(rows: Seq<ConfigRow>, env: ID, cur: ID, n: int) -> Seq<
    ConfigRow,
>
    decreases config_page_rows(rows, env, cur).len(),
{
    let f = config_page_rows(rows, env, cur);
    if 1 <= n < f.len() && sorted_by(rows, config_id_key()) && config_page_rows(
        rows,
        env,
        f[n - 1].id,
    ).len() < f.len() {
        f.take(n) + config_paginate_rows(rows, env, f[n - 1].id, n)
    } else {
        f
    }
}

/// The environment rows that repeated listing yields.
pub open spec fn env_paginate_rows(rows: Seq<EnvRow>, cur: ID, n: int) -> Seq<EnvRow>
    decreases env_page_rows(rows, cur).len(),
{
    let f = env_page_rows(rows, cur);
    if 1 <= n < f.len() && sorted_by(rows, env_id_key()) && env_page_rows(rows, f[n - 1].id).len()
        < f.len() {
        f.take(n) + env_paginate_rows(rows, f[n - 1].id, n)
    } else {
        f
    }
}

/// Repeated listing loses nothing and repeats nothing: page after page it
/// yields exactly the rows beyond the first cursor.
pub proof fn lemma_config_pagination_complete(rows: Seq<ConfigRow>, env: ID, cur: ID, n: int)
    requires
        sorted_by(rows, config_id_key()),
        1 <= n,
    ensures
        config_paginate_rows(rows, env, cur, n) == config_page_rows(rows, env, cur),
    decreases config_page_rows(rows, env, cur).len(),
{
    let f = config_page_rows(rows, env, cur);
    if n < f.len() {
        lemma_config_page_step(rows, env, cur, n);
        lemma_config_pagination_complete(rows, env, f[n - 1].id, n);
        assert(f.take(n) + f.skip(n) =~= f);
    }
}

/// The same, for the environments table.
pub proof fn lemma_env_pagination_complete(rows: Seq<EnvRow>, cur: ID, n: int)
    requires
        sorted_by(rows, env_id_key()),
        1 <= n,
    ensures
        env_paginate_rows(rows, cur, n) == env_page_rows(rows, cur),
    decreases env_page_rows(rows, cur).len(),
{
    let f = env_page_rows(rows, cur);
    if n < f.len() {
        lemma_env_page_step(rows, cur, n);
        lemma_env_pagination_complete(rows, f[n - 1].id, n);
        assert(f.take(n) + f.skip(n) =~= f);
    }
}

/// Listing from the beginning (cursor 0) selects every config row of the
/// environment, since stored identifiers are at least 1.
pub proof fn lemma_config_page_from_start(rows: Seq<ConfigRow>, env: ID)
    requires
        forall|i: int| 0 <= i < rows.len() ==> (#[trigger] rows[i]).id >= 1,
    ensures
        config_page_rows(rows, env, 0) == config_env_rows(rows, env),
{
    lemma_filter_congruent(rows, config_after(env, 0), config_in_env(env));
}

/// Pagination completeness: for any page size of at least 1, repeatedly
/// listing one environment's configs — each call resuming from the cursor
/// of the call before, from the beginning until no cursor comes back —
/// yields exactly the environment's rows, each exactly once, in ascending
/// identifier order, whatever the page size.
pub proof fn lemma_config_pagination_yields_all(rows: Seq<ConfigRow>, env: ID, n: int)
    requires
        sorted_by(rows, config_id_key()),
        forall|i: int| 0 <= i < rows.len() ==> (#[trigger] rows[i]).id >= 1,
        1 <= n,
    ensures
        config_paginate_rows(rows, env, 0, n) == config_env_rows(rows, env),
        sorted_by(config_env_rows(rows, env), config_id_key()),
        forall|i: int, j: int|
            0 <= i < j < config_env_rows(rows, env).len() ==> (#[trigger] config_env_rows(
                rows,
                env,
            )[i]).id != (#[trigger] config_env_rows(rows, env)[j]).id,
{
    lemma_config_pagination_complete(rows, env, 0, n);
    lemma_config_page_from_start(rows, env);
    lemma_filter_sorted(rows, config_in_env(env), config_id_key());
}

/// The same completeness, for listing the environments themselves: from the
/// beginning, repeated listing yields the whole table.
pub proof fn lemma_env_pagination_yields_all(rows: Seq<EnvRow>, n: int)
    requires
        sorted_by(rows, env_id_key()),
        forall|i: int| 0 <= i < rows.len() ==> (#[trigger] rows[i]).id >= 1,
        1 <= n,
    ensures
        env_paginate_rows(rows, 0, n) == rows,
{
    lemma_env_pagination_complete(rows, 0, n);
    lemma_filter_all_true(rows, env_after(0));
}

/// Delete consistency: after a config's row is deleted, a key query for it
/// finds nothing, so a subsequent read of the same identifier fails with
/// not-found.
pub proof fn lemma_delete_removes_key(rows: Seq<ConfigRow>, env: ID, id: ID)
    ensures
        config_key_rows(rows.filter(config_without_key(env, id)), env, id).len() == 0,
{
    let out = rows.filter(config_without_key(env, id));
    assert forall|i: int|
        0 <= i < out.len() implies !config_with_key(env, id)(#[trigger] out[i]) by {
        rows.lemma_filter_pred(config_without_key(env, id), i);
    }
    out.lemma_all_neg_filter_empty(config_with_key(env, id));
}

/// The same, for an environment's own row: after its delete, the existence
/// count for its identifier is zero.
pub proof fn lemma_env_delete_removes_id(rows: Seq<EnvRow>, id: ID)
    ensures
        env_id_rows(rows.filter(env_without_id(id)), id).len() == 0,
{
    let out = rows.filter(env_without_id(id));
    assert forall|i: int| 0 <= i < out.len() implies !env_with_id(id)(#[trigger] out[i]) by {
        rows.lemma_filter_pred(env_without_id(id), i);
    }
    out.lemma_all_neg_filter_empty(env_with_id(id));
}

/// After the cascade of an environment delete nothing is left to list under
/// it: a page query at any cursor comes back empty.
pub proof fn lemma_cascade_leaves_nothing(rows: Seq<ConfigRow>, env: ID, cur: ID)
    ensures
        config_page_rows(rows.filter(config_outside_env(env)), env, cur).len() == 0,
        config_key_rows(rows.filter(config_outside_env(env)), env, cur).len() == 0,
{
    let out = rows.filter(config_outside_env(env));
    assert forall|i: int| 0 <= i < out.len() implies !config_after(env, cur)(#[trigger] out[i]) by {
        rows.lemma_filter_pred(config_outside_env(env), i);
    }
    assert forall|i: int|
        0 <= i < out.len() implies !config_with_key(env, cur)(#[trigger] out[i]) by {
        rows.lemma_filter_pred(config_outside_env(env), i);
    }
    out.lemma_all_neg_filter_empty(config_after(env, cur));
    out.lemma_all_neg_filter_empty(config_with_key(env, cur));
}

} // verus!
