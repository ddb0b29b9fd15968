//! The blob store: config payloads addressed by the pair of owning
//! environment and config identifier — the model of the object store whose
//! keys are laid out as `{environment_id}/{config_id}`, the only addressing
//! scheme. An environment's identifier is the prefix that groups its
//! payloads; a prefix delete removes every object under it.

use vstd::prelude::*;

verus! {

use crate::ID;
use crate::errors::{S3StorageError, StorageError};
use crate::seqs::{
    distinct_keys, lemma_filter_all_true, lemma_filter_distinct_keys, lemma_filter_except_one,
    lemma_filter_only_one,
};

/// The ghost shape of one stored object.
pub ghost struct BlobRow {
    pub environment_id: ID,
    pub config_id: ID,
    pub data: Seq<char>,
}

/// One stored object: a config payload under its scoped key.
pub struct BlobObject {
    pub environment_id: ID,
    pub config_id: ID,
    pub data: String,
}

impl View for BlobObject {
    type V = BlobRow;

    open spec fn view(&self) -> BlobRow {
        BlobRow {
            environment_id: self.environment_id,
            config_id: self.config_id,
            data: self.data@,
        }
    }
}

/// The key an object is addressed by.
pub open spec fn blob_key() -> spec_fn(BlobRow) -> (int, int) {
    |b: BlobRow| (b.environment_id as int, b.config_id as int)
}

/// The object under one scoped key.
pub open spec fn blob_with_key(env: ID, id: ID) -> spec_fn(BlobRow) -> bool {
    |b: BlobRow| b.environment_id == env && b.config_id == id
}

/// Every object but one scoped key.
pub open spec fn blob_without_key(env: ID, id: ID) -> spec_fn(BlobRow) -> bool {
    |b: BlobRow| !(b.environment_id == env && b.config_id == id)
}

/// The objects outside one environment's key prefix.
pub open spec fn blob_outside_env(env: ID) -> spec_fn(BlobRow) -> bool {
    |b: BlobRow| b.environment_id != env
}

/// The ghost views of a vector of objects.
pub open spec fn blob_views(s: Seq<BlobObject>) -> Seq<BlobRow> {
    s.map_values(|b: BlobObject| b@)
}

/// What a key lookup selects.
pub open spec fn blob_key_rows(rows: Seq<BlobRow>, env: ID, id: ID) -> Seq<BlobRow> {
    rows.filter(blob_with_key(env, id))
}

/// An object under the scoped key is present.
pub open spec fn blob_exists(rows: Seq<BlobRow>, env: ID, id: ID) -> bool {
    blob_key_rows(rows, env, id).len() == 1
}

/// The object store holding config payloads, each under its scoped key, no
/// key twice.
pub struct BlobStore {
    pub objects: Vec<BlobObject>,
}

impl BlobStore {
    pub open spec fn blobs(&self) -> Seq<BlobRow> {
        blob_views(self.objects@)
    }

    pub open spec fn wf(&self) -> bool {
        distinct_keys(self.blobs(), blob_key())
    }

    /// Creates the store empty.
    pub fn new() -> (r: BlobStore)
        ensures
            r.wf(),
            r.blobs() == Seq::<BlobRow>::empty(),
    {
        BlobStore { objects: Vec::new() }
    }

    /// Writes a payload under the scoped key, replacing whatever the key
    /// held before.
    pub fn put(&mut self, env: ID, id: ID, data: &str)
        requires
            old(self).wf(),
        ensures
            final(self).wf(),
            final(self).blobs() == old(self).blobs().filter(blob_without_key(env, id)).push(
                BlobRow { environment_id: env, config_id: id, data: data@ },
            ),
    {
        let ghost rows = self.blobs();
        let row = BlobObject { environment_id: env, config_id: id, data: data.to_owned() };
        let mut i: usize = 0;
        while i < self.objects.len()
            invariant
                self == old(self),
                rows == self.blobs(),
                self.objects@.len() == rows.len(),
                self.wf(),
                row@ == (BlobRow { environment_id: env, config_id: id, data: data@ }),
                0 <= i <= rows.len(),
                forall|j: int| 0 <= j < i ==> blob_without_key(env, id)(#[trigger] rows[j]),
            decreases rows.len() - i,
        {
            if self.objects[i].environment_id == env && self.objects[i].config_id == id {
                proof {
                    assert forall|j: int|
                        0 <= j < rows.len() && j != i implies blob_without_key(env, id)(
                        #[trigger] rows[j],
                    ) by {
                        assert(blob_key()(rows[j]) != blob_key()(rows[i as int]));
                    }
                    lemma_filter_except_one(rows, blob_without_key(env, id), i as int);
                    lemma_filter_distinct_keys(rows, blob_without_key(env, id), blob_key());
                }
                self.objects.remove(i);
                self.objects.push(row);
                proof {
                    assert(self.blobs() =~= rows.remove(i as int).push(row@));
                    lemma_put_wf(rows, env, id, row@);
                }
                return ;
            }
            i = i + 1;
        }
        proof {
            lemma_filter_all_true(rows, blob_without_key(env, id));
            lemma_filter_distinct_keys(rows, blob_without_key(env, id), blob_key());
        }
        self.objects.push(row);
        proof {
            assert(self.blobs() =~= rows.push(row@));
            lemma_put_wf(rows, env, id, row@);
        }
    }

    /// Reads the payload under the scoped key.
    pub fn get(&self, env: ID, id: ID) -> (r: Option<String>)
        requires
            self.wf(),
        ensures
            match r {
                Some(s) => blob_exists(self.blobs(), env, id) && s@ == blob_key_rows(
                    self.blobs(),
                    env,
                    id,
                )[0].data,
                None => blob_key_rows(self.blobs(), env, id).len() == 0,
            },
    {
        let ghost rows = self.blobs();
        let mut i: usize = 0;
        while i < self.objects.len()
            invariant
                rows == self.blobs(),
                self.objects@.len() == rows.len(),
                self.wf(),
                0 <= i <= rows.len(),
                forall|j: int| 0 <= j < i ==> !blob_with_key(env, id)(#[trigger] rows[j]),
            decreases rows.len() - i,
        {
            if self.objects[i].environment_id == env && self.objects[i].config_id == id {
                proof {
                    assert forall|j: int|
                        0 <= j < rows.len() && j != i implies !blob_with_key(env, id)(
                        #[trigger] rows[j],
                    ) by {
                        assert(blob_key()(rows[j]) != blob_key()(rows[i as int]));
                    }
                    lemma_filter_only_one(rows, blob_with_key(env, id), i as int);
                }
                return Some(self.objects[i].data.clone());
            }
            i = i + 1;
        }
        proof {
            rows.lemma_all_neg_filter_empty(blob_with_key(env, id));
        }
        None
    }

    /// Deletes the object under the scoped key; a key that holds nothing
    /// deletes to nothing, as the object store's delete does.
    pub fn delete(&mut self, env: ID, id: ID)
        requires
            old(self).wf(),
        ensures
            final(self).wf(),
            final(self).blobs() == old(self).blobs().filter(blob_without_key(env, id)),
    {
        let ghost rows = self.blobs();
        let mut i: usize = 0;
        while i < self.objects.len()
            invariant
                self == old(self),
                rows == self.blobs(),
                self.objects@.len() == rows.len(),
                self.wf(),
                0 <= i <= rows.len(),
                forall|j: int| 0 <= j < i ==> blob_without_key(env, id)(#[trigger] rows[j]),
            decreases rows.len() - i,
        {
            if self.objects[i].environment_id == env && self.objects[i].config_id == id {
                proof {
                    assert forall|j: int|
                        0 <= j < rows.len() && j != i implies blob_without_key(env, id)(
                        #[trigger] rows[j],
                    ) by {
                        assert(blob_key()(rows[j]) != blob_key()(rows[i as int]));
                    }
                    lemma_filter_except_one(rows, blob_without_key(env, id), i as int);
                    lemma_filter_distinct_keys(rows, blob_without_key(env, id), blob_key());
                }
                self.objects.remove(i);
                proof {
                    assert(self.blobs() =~= rows.remove(i as int));
                }
                return ;
            }
            i = i + 1;
        }
        proof {
            lemma_filter_all_true(rows, blob_without_key(env, id));
        }
    }

    /// Deletes every object under the environment's key prefix, one object
    /// at a time, as the adapter does with the prefix listing — the store
    /// has no bulk delete.
    #[verifier::rlimit(60)]
    pub fn delete_env(&mut self, env: ID)
        requires
            old(self).wf(),
        ensures
            final(self).wf(),
            final(self).blobs() == old(self).blobs().filter(blob_outside_env(env)),
    {
        let ghost rows = self.blobs();
        let ghost pred = blob_outside_env(env);
        let ghost mut k: int = 0;
        let mut i: usize = 0;
        #[verifier::loop_isolation(false)]
        while i < self.objects.len()
            invariant
                0 <= k <= rows.len(),
                i == rows.take(k).filter(pred).len(),
                self.blobs() =~= rows.take(k).filter(pred) + rows.skip(k),
                self.objects@.len() == self.blobs().len(),
                i <= self.blobs().len(),
                self.blobs().len() == rows.take(k).filter(pred).len() + rows.len() - k,
            decreases rows.len() - k,
        {
            proof {
                assert(rows.take(k + 1) =~= rows.take(k).push(rows[k]));
                rows.take(k).lemma_filter_push(rows[k], pred);
                assert(self.blobs()[i as int] == rows[k]);
            }
            if self.objects[i].environment_id == env {
                let ghost pre = self.blobs();
                self.objects.remove(i);
                proof {
                    assert(self.blobs() =~= pre.remove(i as int));
                    assert(self.blobs() =~= rows.take(k + 1).filter(pred) + rows.skip(k + 1));
                }
            } else {
                i = i + 1;
                proof {
                    assert(self.blobs() =~= rows.take(k + 1).filter(pred) + rows.skip(k + 1));
                }
            }
            proof {
                k = k + 1;
            }
        }
        proof {
            assert(rows.take(k) =~= rows);
            assert(rows.skip(k) =~= Seq::<BlobRow>::empty());
            assert(self.blobs() =~= rows.filter(pred));
            lemma_filter_distinct_keys(rows, pred, blob_key());
        }
    }
}

/// After a put, keys are still pairwise distinct: the filter removed
/// whatever held the written key, and kept keys unlike it.
proof fn lemma_put_wf(rows: Seq<BlobRow>, env: ID, id: ID, row: BlobRow)
    requires
        distinct_keys(rows, blob_key()),
        row.environment_id == env,
        row.config_id == id,
    ensures
        distinct_keys(rows.filter(blob_without_key(env, id)).push(row), blob_key()),
{
    let pred = blob_without_key(env, id);
    let f = rows.filter(pred);
    lemma_filter_distinct_keys(rows, pred, blob_key());
    assert forall|i: int, j: int|
        0 <= i < j < f.push(row).len() implies blob_key()(f.push(row)[i]) != blob_key()(
        f.push(row)[j],
    ) by {
        if j < f.len() {
            assert(f.push(row)[i] == f[i]);
            assert(f.push(row)[j] == f[j]);
        } else {
            assert(f.push(row)[i] == f[i]);
            rows.lemma_filter_pred(pred, i);
        }
    }
}

/// The blob-store adapter for config payloads: one object per config under
/// its environment's key prefix.
pub struct ConfigS3Storage {}

impl ConfigS3Storage {
    /// Writes a config's payload. Against the store model the write always
    /// succeeds; a connectivity failure is the adapter's to report.
    pub fn create(storage: &mut BlobStore, environment_id: ID, config_id: ID, config: &str) -> (r:
        Result<(), StorageError>)
        requires
            old(storage).wf(),
        ensures
            final(storage).wf(),
            r is Ok,
            final(storage).blobs() == old(storage).blobs().filter(
                blob_without_key(environment_id, config_id),
            ).push(
                BlobRow { environment_id: environment_id, config_id: config_id, data: config@ },
            ),
    {
        storage.put(environment_id, config_id, config);
        Ok(())
    }

    /// Reads a config's payload; a missing key is a `NotFound`-class
    /// failure, like a missing metadata row.
    pub fn get(storage: &BlobStore, environment_id: ID, config_id: ID) -> (r: Result<
        String,
        StorageError,
    >)
        requires
            storage.wf(),
        ensures
            match r {
                Ok(s) => blob_exists(storage.blobs(), environment_id, config_id) && s@
                    == blob_key_rows(storage.blobs(), environment_id, config_id)[0].data,
                Err(e) => blob_key_rows(storage.blobs(), environment_id, config_id).len() == 0
                    && e.code == 104 && e.message@ == "Not found"@ && e.description@
                    == "Storage error"@,
            },
    {
        match storage.get(environment_id, config_id) {
            Some(s) => Ok(s),
            None => Err(S3StorageError::new("Not found", "Storage error", 104).into_inner()),
        }
    }

    /// Deletes a config's payload, idempotently.
    pub fn delete(storage: &mut BlobStore, environment_id: ID, config_id: ID) -> (r: Result<
        (),
        StorageError,
    >)
        requires
            old(storage).wf(),
        ensures
            final(storage).wf(),
            r is Ok,
            final(storage).blobs() == old(storage).blobs().filter(
                blob_without_key(environment_id, config_id),
            ),
    {
        storage.delete(environment_id, config_id);
        Ok(())
    }
}

/// The blob-store adapter for environments: an environment owns no payload
/// of its own, only the prefix its configs' payloads live under.
pub struct EnvironmentS3Storage {}

impl EnvironmentS3Storage {
    /// Deletes every payload under the environment's prefix: the blob half
    /// of a cascade delete.
    pub fn delete(storage: &mut BlobStore, environment_id: ID) -> (r: Result<(), StorageError>)
        requires
            old(storage).wf(),
        ensures
            final(storage).wf(),
            r is Ok,
            final(storage).blobs() == old(storage).blobs().filter(blob_outside_env(environment_id)),
    {
        storage.delete_env(environment_id);
        Ok(())
    }
}

} // verus!
