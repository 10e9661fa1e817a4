use vstd::prelude::*;

use crate::errors::{FlowError, WorkflowError};
use crate::store::InMemoryFlowRepository;

verus! {

/// A store of serialized engine states, addressed by key.
pub trait SnapshotStore {
    /// Stores `state` and returns its key.
    fn save(&self, state: &[u8]) -> Result<String, FlowError>;

    /// The bytes stored under `key`.
    fn load(&self, key: &str) -> Result<Vec<u8>, FlowError>;
}

/// A store of artifacts (opaque blobs), addressed by key.
pub trait ArtifactStore {
    /// Stores `blob` and returns its key.
    fn put(&self, blob: &[u8]) -> Result<String, FlowError>;

    /// The blob stored under `key`.
    fn get(&self, key: &str) -> Result<Vec<u8>, FlowError>;

    /// A key of a private copy of the blob at `src_key`.
    fn copy_if_needed(&self, src_key: &str) -> Result<String, FlowError>;
}

/// The in-memory store keeps no blobs: snapshot states travel inline in the
/// snapshot's state pointer, so saving hands out a fixed key and loading
/// yields nothing.
impl SnapshotStore for InMemoryFlowRepository {
    fn save(&self, state: &[u8]) -> (r: Result<String, FlowError>)
        ensures
            r matches Ok(k) && k@ == "inmem"@,
    {
        Ok("inmem".to_owned())
    }

    fn load(&self, key: &str) -> (r: Result<Vec<u8>, FlowError>)
        ensures
            r matches Ok(v) && v@.len() == 0,
    {
        Ok(Vec::new())
    }
}

/// Artifacts are not kept in memory either; a copy shares its source's key.
impl ArtifactStore for InMemoryFlowRepository {
    fn put(&self, blob: &[u8]) -> (r: Result<String, FlowError>)
        ensures
            r matches Ok(k) && k@ == "inmem-artifact"@,
    {
        Ok("inmem-artifact".to_owned())
    }

    fn get(&self, key: &str) -> (r: Result<Vec<u8>, FlowError>)
        ensures
            r matches Ok(v) && v@.len() == 0,
    {
        Ok(Vec::new())
    }

    fn copy_if_needed(&self, src_key: &str) -> (r: Result<String, FlowError>)
        ensures
            r matches Ok(k) && k@ == src_key@,
    {
        Ok(src_key.to_owned())
    }
}

/// Where a step's output is persisted.
#[derive(Debug, Clone, Copy, PartialEq, Eq, Structural)]
pub enum PersistenceMode {
    /// Inside the step record's payload and metadata.
    Embedded,
    /// In the domain tables, which needs the domain store.
    SeparateTables,
}

/// Decides how a step's output is persisted.
pub struct RepoAdapter;

impl RepoAdapter {
    /// Nothing to do for embedded outputs (the step record carries them);
    /// outputs for separate tables must be persisted by the engine, which
    /// holds the domain store.
    pub fn persist_step_output(flow_id: u128, cursor: i64, mode: PersistenceMode, output: &str) -> (r: Result<(), WorkflowError>)
        ensures
            mode == PersistenceMode::Embedded ==> r is Ok,
            mode == PersistenceMode::SeparateTables ==> r matches Err(WorkflowError::Other(_)),
    {
        match mode {
            PersistenceMode::Embedded => Ok(()),
            PersistenceMode::SeparateTables => Err(
                WorkflowError::Other(
                    "SeparateTables persistence must be handled by the flow engine with access to the domain store".to_owned(),
                ),
            ),
        }
    }
}

} // verus!
