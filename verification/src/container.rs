//! The assembled coordination core: the identifier generator and the two
//! stores every operation acts on. The container owns no entity state of
//! its own — all of it lives in the stores.

use vstd::prelude::*;

verus! {

use crate::blob::{BlobRow, BlobStore};
use crate::ids::Generator;
use crate::models::{ConfigRow, EnvRow};
use crate::store::MetadataStore;

/// The generator and the two stores, wired together for the coordinators.
pub struct Container {
    pub identifier: Generator,
    pub metadata: MetadataStore,
    pub storage: BlobStore,
}

impl Container {
    /// Both stores well formed, and every identifier they hold was issued:
    /// none lies above the generator's last issued value, so a freshly
    /// issued identifier collides with nothing in either store.
    pub open spec fn wf(&self) -> bool {
        &&& self.identifier.wf()
        &&& self.metadata.wf()
        &&& self.storage.wf()
        &&& forall|i: int|
            0 <= i < self.metadata.envs().len() ==> (#[trigger] self.metadata.envs()[i]).id
                <= self.identifier@
        &&& forall|i: int|
            0 <= i < self.metadata.cfgs().len() ==> (#[trigger] self.metadata.cfgs()[i]).id
                <= self.identifier@
        &&& forall|i: int|
            0 <= i < self.storage.blobs().len() ==> (#[trigger] self.storage.blobs()[i]).config_id
                <= self.identifier@
    }

    /// Builds the core: a fresh generator and two empty stores.
    pub fn new() -> (r: Container)
        ensures
            r.wf(),
            r.identifier@ == 0,
            r.metadata.envs() == Seq::<EnvRow>::empty(),
            r.metadata.cfgs() == Seq::<ConfigRow>::empty(),
            r.storage.blobs() == Seq::<BlobRow>::empty(),
    {
        Container {
            identifier: Generator::new(),
            metadata: MetadataStore::new(),
            storage: BlobStore::new(),
        }
    }
}

} // verus!
