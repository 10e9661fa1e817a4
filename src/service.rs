use vstd::prelude::*;

use crate::domain::{FlowData, FlowMeta, PersistResult, WorkItem};
use crate::errors::FlowError;
use crate::store::{
    branch_outcome, flow_at, has_flow, others_same, persist_outcome, prune_outcome, records_after, removed,
    InMemoryFlowRepository,
};

verus! {

/// Flow operations for request handlers and workers, over one store.
pub struct FlowService {
    repo: InMemoryFlowRepository,
}

impl View for FlowService {
    type V = Seq<crate::store::FlowEntry>;

    closed spec fn view(&self) -> Seq<crate::store::FlowEntry> {
        self.repo@
    }
}

impl FlowService {
    pub open spec fn wf(&self) -> bool {
        crate::store::store_wf(self@)
    }

    /// A service over `repo`.
    pub fn new(repo: InMemoryFlowRepository) -> (r: Self)
        requires
            repo.wf(),
        ensures
            r.wf(),
            r@ == repo@,
    {
        FlowService { repo }
    }

    /// The store behind the service.
    pub fn repo(&self) -> (r: &InMemoryFlowRepository)
        requires
            self.wf(),
        ensures
            r@ == self@,
            r.wf(),
    {
        &self.repo
    }

    /// Starts a root flow (see `InMemoryFlowRepository::create_flow`).
    pub fn start_flow(&mut self, name: Option<String>, status: Option<String>, metadata: String) -> (r: Result<u128, FlowError>)
        requires
            old(self).wf(),
        ensures
            final(self).wf(),
            match r {
                Ok(id) => {
                    let m = flow_at(final(self)@, id).meta;
                    &&& !has_flow(old(self)@, id) && has_flow(final(self)@, id)
                    &&& m == (FlowMeta {
                        id,
                        name,
                        status,
                        created_by: None,
                        created_at: m.created_at,
                        current_cursor: 0,
                        current_version: 0,
                        parent_flow_id: None,
                        parent_cursor: None,
                        metadata,
                    })
                    &&& flow_at(final(self)@, id).records@.len() == 0
                    &&& others_same(old(self)@, final(self)@, id)
                },
                Err(_) => final(self)@ == old(self)@,
            },
    {
        self.repo.create_flow(name, status, metadata)
    }

    /// Forks a flow (see `InMemoryFlowRepository::create_branch`).
    pub fn create_branch(
        &mut self,
        parent_flow_id: u128,
        name: Option<String>,
        status: Option<String>,
        parent_cursor: i64,
        metadata: String,
    ) -> (r: Result<u128, FlowError>)
        requires
            old(self).wf(),
            parent_cursor < i64::MAX,
        ensures
            final(self).wf(),
            match r {
                Ok(id) => !has_flow(old(self)@, id) && branch_outcome(
                    old(self)@,
                    final(self)@,
                    id,
                    flow_at(final(self)@, id).meta.created_at,
                    parent_flow_id,
                    name,
                    status,
                    parent_cursor,
                    metadata,
                ),
                Err(_) => final(self)@ == old(self)@,
            },
    {
        self.repo.create_branch(parent_flow_id, name, status, parent_cursor, metadata)
    }

    /// Work for worker `worker_id`; the in-memory store has none.
    pub fn claim_work(&self, worker_id: &str) -> (r: Result<Option<WorkItem>, FlowError>)
        ensures
            r matches Ok(None),
    {
        self.repo.claim_work(worker_id)
    }

    /// Appends a record (see `InMemoryFlowRepository::persist_data`).
    pub fn persist_flow_data(&mut self, data: FlowData, expected_version: i64) -> (r: Result<PersistResult, FlowError>)
        requires
            old(self).wf(),
        ensures
            final(self).wf(),
            persist_outcome(old(self)@, final(self)@, data, expected_version, r),
    {
        self.repo.persist_data(&data, expected_version)
    }

    /// Deletes a flow, orphaning its children.
    pub fn delete_branch(&mut self, flow_id: u128) -> (r: Result<(), FlowError>)
        requires
            old(self).wf(),
        ensures
            final(self).wf(),
            !has_flow(old(self)@, flow_id) ==> (r matches Err(FlowError::NotFound(_)) && final(self)@ == old(self)@),
            has_flow(old(self)@, flow_id) ==> r is Ok && removed(old(self)@, final(self)@, set![flow_id]),
    {
        self.repo.delete_branch(flow_id)
    }

    /// Prunes a flow from `from_cursor`, deleting the children forked there
    /// or later.
    pub fn delete_from_step(&mut self, flow_id: u128, from_cursor: i64) -> (r: Result<(), FlowError>)
        requires
            old(self).wf(),
        ensures
            final(self).wf(),
            !has_flow(old(self)@, flow_id) ==> (r matches Err(FlowError::NotFound(_)) && final(self)@ == old(self)@),
            has_flow(old(self)@, flow_id) ==> r is Ok && prune_outcome(old(self)@, final(self)@, flow_id, from_cursor),
    {
        self.repo.delete_from_step(flow_id, from_cursor)
    }

    /// The records of a flow after `from_cursor`, in cursor order.
    pub fn read_data(&self, flow_id: u128, from_cursor: i64) -> (r: Result<Vec<FlowData>, FlowError>)
        requires
            self.wf(),
        ensures
            has_flow(self@, flow_id) ==> (r matches Ok(v) && v@ == records_after(flow_at(self@, flow_id).records@, from_cursor)),
            !has_flow(self@, flow_id) ==> (r matches Ok(v) && v@.len() == 0),
    {
        self.repo.read_data(flow_id, from_cursor)
    }
}

} // verus!
