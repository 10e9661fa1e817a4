use vstd::prelude::*;

verus! {

/// Key of the system record that `create_branch` appends to a new branch.
pub open spec fn branch_marker_key() -> Seq<char> {
    "BranchCreated"@
}

/// One entry of a flow's append-only log.
///
/// Identifiers are the 128-bit values of UUIDs; timestamps are milliseconds
/// since the Unix epoch; `payload` and `metadata` are JSON texts.
#[derive(Debug, Clone)]
pub struct FlowData {
    pub id: u128,
    pub flow_id: u128,
    pub cursor: i64,
    pub key: String,
    pub payload: String,
    pub metadata: String,
    pub command_id: Option<u128>,
    pub created_at: i64,
}

/// An opaque state blob saved for a flow at a cursor.
#[derive(Debug, Clone)]
pub struct SnapshotMeta {
    pub id: u128,
    pub flow_id: u128,
    pub cursor: i64,
    pub state_ptr: String,
    pub metadata: String,
    pub created_at: i64,
}

/// The aggregate root of a flow.
#[derive(Debug, Clone)]
pub struct FlowMeta {
    pub id: u128,
    pub name: Option<String>,
    pub status: Option<String>,
    pub created_by: Option<String>,
    pub created_at: i64,
    /// Cursor of the last persisted step.
    pub current_cursor: i64,
    /// Optimistic-lock generation, one more per successful append.
    pub current_version: i64,
    pub parent_flow_id: Option<u128>,
    pub parent_cursor: Option<i64>,
    pub metadata: String,
}

/// Outcome of an append under an expected version.
#[derive(Debug, Clone, Copy, PartialEq, Eq, Structural)]
pub enum PersistResult {
    Persisted { new_version: i64 },
    Conflict,
}

/// A unit of work a worker may claim.
#[derive(Debug, Clone)]
pub struct WorkItem {
    pub flow_id: u128,
    pub last_cursor: i64,
    pub snapshot_ptr: Option<String>,
}

/// The content of a record that branching preserves.
pub open spec fn record_content(d: FlowData) -> (i64, Seq<char>, Seq<char>, Seq<char>) {
    (d.cursor, d.payload@, d.metadata@, d.key@)
}

/// `c` is a copy of `d` moved to flow `f` (its own id aside).
pub open spec fn is_clone_of(d: FlowData, c: FlowData, f: u128) -> bool {
    &&& c.flow_id == f
    &&& c.cursor == d.cursor
    &&& c.key == d.key
    &&& c.payload == d.payload
    &&& c.metadata == d.metadata
    &&& c.command_id == d.command_id
    &&& c.created_at == d.created_at
}

/// `c` is a copy of snapshot `s` moved to flow `f` (its own id aside).
pub open spec fn is_snapshot_clone_of(s: SnapshotMeta, c: SnapshotMeta, f: u128) -> bool {
    &&& c.flow_id == f
    &&& c.cursor == s.cursor
    &&& c.state_ptr == s.state_ptr
    &&& c.metadata == s.metadata
    &&& c.created_at == s.created_at
}

pub open spec fn is_branch_marker(d: FlowData) -> bool {
    d.key@ == branch_marker_key()
}

pub fn copy_text(s: &Option<String>) -> (r: Option<String>)
    ensures
        r == *s,
{
    match s {
        Some(t) => Some(t.clone()),
        None => None,
    }
}

impl FlowData {
    pub fn copy(&self) -> (r: FlowData)
        ensures
            r == *self,
    {
        FlowData {
            id: self.id,
            flow_id: self.flow_id,
            cursor: self.cursor,
            key: self.key.clone(),
            payload: self.payload.clone(),
            metadata: self.metadata.clone(),
            command_id: self.command_id,
            created_at: self.created_at,
        }
    }
}

impl SnapshotMeta {
    pub fn copy(&self) -> (r: SnapshotMeta)
        ensures
            r == *self,
    {
        SnapshotMeta {
            id: self.id,
            flow_id: self.flow_id,
            cursor: self.cursor,
            state_ptr: self.state_ptr.clone(),
            metadata: self.metadata.clone(),
            created_at: self.created_at,
        }
    }
}

impl FlowMeta {
    pub fn copy(&self) -> (r: FlowMeta)
        ensures
            r == *self,
    {
        FlowMeta {
            id: self.id,
            name: copy_text(&self.name),
            status: copy_text(&self.status),
            created_by: copy_text(&self.created_by),
            created_at: self.created_at,
            current_cursor: self.current_cursor,
            current_version: self.current_version,
            parent_flow_id: self.parent_flow_id,
            parent_cursor: self.parent_cursor,
            metadata: self.metadata.clone(),
        }
    }
}

} // verus!
