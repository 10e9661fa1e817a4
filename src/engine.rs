use vstd::prelude::*;

use crate::domain::{FlowData, PersistResult};
use crate::errors::{FlowError, WorkflowError};
use crate::outside::{
    base64_decoded_text, base64_text, decimal_of, decimal_text, decode_base64, encode_base64, fresh_id,
    is_json_null, json_null, json_str_field, json_u64_field, json_with_field, now_millis,
    read_str_field, read_u64_field, with_field,
};
use crate::store::{
    flow_at, has_command, has_flow, is_latest_snapshot, kv_map, latest_snapshot_index, lemma_latest_unique, next_version,
    records_after, records_of, save_outcome, branch_id_refused, is_branch_meta, is_branch_records,
    is_branch_snapshots, snapshots_of, branch_ids_fit, save_with_id_outcome, snapshot_id_used,
    InMemoryFlowRepository,
};
use crate::text::{join_text, eq_ascii_case, eq_ignore_ascii_case};

verus! {

/// The lifecycle of a flow, read from `flow_metadata.status`.
#[derive(Debug, Clone, Copy, PartialEq, Eq, Structural)]
pub enum FlowStatus {
    NotStarted,
    Running,
    Completed,
    Failed,
    Unknown,
}

/// What a step handler produced: JSON texts for the record's payload and
/// metadata.
#[derive(Debug, Clone)]
pub struct StepInfo {
    pub payload: String,
    pub metadata: String,
}

/// What a step handler sees of its flow.
pub struct StepContext {
    pub flow_id: u128,
}

impl StepContext {
    pub fn new(flow_id: u128) -> (r: Self)
        ensures
            r.flow_id == flow_id,
    {
        StepContext { flow_id }
    }

    /// Appends the output of step `step_name` as a record at the flow's next
    /// cursor, under `expected_version` (the flow's version when negative).
    pub fn save_typed_result(
        &self,
        repo: &mut InMemoryFlowRepository,
        step_name: &str,
        info: StepInfo,
        expected_version: i64,
        command_id: Option<u128>,
    ) -> (r: Result<PersistResult, WorkflowError>)
        requires
            old(repo).wf(),
        ensures
            final(repo).wf(),
            step_append_outcome(old(repo)@, final(repo)@, self.flow_id, step_name@, info, expected_version, command_id, r),
            has_flow(old(repo)@, self.flow_id) && appends_step(old(repo)@, self.flow_id, expected_version, command_id)
                ==> flow_at(final(repo)@, self.flow_id).kv@ == flow_at(old(repo)@, self.flow_id).kv@,
    {
        let (cursor, version) = match repo.get_flow_meta(self.flow_id) {
            Ok(meta) => {
                if meta.current_cursor == i64::MAX {
                    return Err(WorkflowError::Validation("cursor out of range".to_owned()));
                }
                (meta.current_cursor + 1, if expected_version < 0 { meta.current_version } else { expected_version })
            },
            Err(_) => (0, expected_version),
        };
        let data = FlowData {
            id: fresh_id(),
            flow_id: self.flow_id,
            cursor,
            key: step_key(step_name),
            payload: info.payload,
            metadata: info.metadata,
            command_id,
            created_at: now_millis(),
        };
        match repo.persist_data(&data, version) {
            Ok(x) => Ok(x),
            Err(e) => Err(WorkflowError::Flow(e)),
        }
    }
}

/// A step handler: user code that turns a JSON input into a step's output.
/// The engine validates the step before it calls `execute`.
pub trait WorkflowStep {
    /// The handler's stable name, as listed in an engine's step table.
    fn name(&self) -> String;

    /// Runs the step for the flow of `ctx` on the JSON text `input`.
    fn execute(&self, ctx: &StepContext, input: &str) -> Result<StepInfo, WorkflowError>;
}

/// An engine bound to one flow, with a closed table of step names (index
/// `i` names the handler at position `i`) and the in-memory step state.
pub struct FlowEngine {
    pub id: u128,
    pub step_names: Vec<String>,
    pub current_step: u32,
    pub status: String,
    pub metadata: String,
}

/// A record with command id `command_id` would replay one of `recs`.
pub open spec fn replays(recs: Seq<FlowData>, command_id: Option<u128>) -> bool {
    command_id matches Some(c) && has_command(recs, c)
}

/// The version a step record is appended under: `expected_version`, or the
/// flow's version when it is negative.
pub open spec fn step_version(e: crate::store::FlowEntry, expected_version: i64) -> i64 {
    if expected_version < 0 {
        e.meta.current_version
    } else {
        expected_version
    }
}

/// Appending a step record to flow `id` inserts it: the version matches, the
/// cursor has room, and the command id is new.
pub open spec fn appends_step(s: Seq<crate::store::FlowEntry>, id: u128, expected_version: i64, command_id: Option<u128>) -> bool {
    let e = flow_at(s, id);
    &&& e.meta.current_cursor < i64::MAX
    &&& step_version(e, expected_version) == e.meta.current_version
    &&& !replays(e.records@, command_id)
}

/// What appending the output `info` of step `name` to flow `id` at its next
/// cursor does to store `old`, giving `new` and result `r` (the side table
/// aside).
pub open spec fn step_append_outcome(
    old: Seq<crate::store::FlowEntry>,
    new: Seq<crate::store::FlowEntry>,
    id: u128,
    name: Seq<char>,
    info: StepInfo,
    expected_version: i64,
    command_id: Option<u128>,
    r: Result<PersistResult, WorkflowError>,
) -> bool {
    if !has_flow(old, id) {
        r matches Err(WorkflowError::Flow(FlowError::NotFound(_))) && new == old
    } else {
        let e = flow_at(old, id);
        let v = step_version(e, expected_version);
        let n = flow_at(new, id);
        if e.meta.current_cursor == i64::MAX {
            r matches Err(WorkflowError::Validation(_)) && new == old
        } else if v != e.meta.current_version {
            r == Ok::<PersistResult, WorkflowError>(PersistResult::Conflict) && new == old
        } else if replays(e.records@, command_id) {
            r == Ok::<PersistResult, WorkflowError>(PersistResult::Persisted { new_version: v })
        } else {
            let d = n.records@.last();
            &&& r == Ok::<PersistResult, WorkflowError>(PersistResult::Persisted { new_version: next_version(v) })
            &&& has_flow(new, id)
            &&& n.records@ == e.records@.push(d)
            &&& d.flow_id == id && d.cursor == e.meta.current_cursor + 1
            &&& d.key@ == step_key_of(name)
            &&& d.payload == info.payload && d.metadata == info.metadata
            &&& d.command_id == command_id
            &&& n.meta.current_cursor == d.cursor
            &&& n.meta.current_version == next_version(v)
        }
    }
}

/// The state text held by the latest snapshot of flow `id`: its pointer,
/// base64 decoded; `None` without snapshots or when it does not decode.
pub open spec fn rehydrated_state(s: Seq<crate::store::FlowEntry>, id: u128) -> Option<Seq<char>> {
    let snaps = flow_at(s, id).snapshots@;
    if has_flow(s, id) && snaps.len() > 0 {
        base64_decoded_text(snaps[latest_snapshot_index(snaps)].state_ptr@)
    } else {
        None
    }
}

/// `r` holds the text `v` holds.
pub open spec fn text_option_is(r: Option<String>, v: Option<Seq<char>>) -> bool {
    match r {
        Some(t) => v == Some(t@),
        None => v is None,
    }
}

/// The record key of the output of step `name`.
pub open spec fn step_key_of(name: Seq<char>) -> Seq<char> {
    "step_state:"@ + name
}

/// The payload of the last record whose key is the key of step `name`, up to
/// ASCII case.
pub open spec fn last_step_payload(recs: Seq<FlowData>, name: Seq<char>) -> Option<Seq<char>>
    decreases recs.len(),
{
    if recs.len() == 0 {
        None
    } else if eq_ascii_case(recs.last().key@, step_key_of(name)) {
        Some(recs.last().payload@)
    } else {
        last_step_payload(recs.drop_last(), name)
    }
}

/// Step `name` may run now: it has no output yet, it is in the table, and
/// every step before its first position has an output.
pub open spec fn ready_to_run(names: Seq<Seq<char>>, recs: Seq<FlowData>, name: Seq<char>) -> bool {
    &&& last_step_payload(recs, name) is None
    &&& exists|i: int|
        0 <= i < names.len() && #[trigger] names[i] == name && (forall|j: int| 0 <= j < i ==> names[j] != name)
            && (forall|j: int| 0 <= j < i ==> (#[trigger] last_step_payload(recs, names[j])) is Some)
}

/// The text stored under a key of a flow's side table, `null` when unset.
pub open spec fn meta_text(s: Seq<crate::store::FlowEntry>, id: u128, key: Seq<char>) -> Seq<char> {
    let m = kv_map(flow_at(s, id).kv@);
    if m.contains_key(key) {
        m[key]
    } else {
        "null"@
    }
}

/// The step index stored in `flow_metadata.current_step`, 0 when absent.
pub open spec fn stored_step(s: Seq<crate::store::FlowEntry>, id: u128) -> u32 {
    if has_flow(s, id) {
        match json_u64_field(meta_text(s, id, "flow_metadata"@), "current_step"@) {
            Some(v) => v as u32,
            None => 0,
        }
    } else {
        0
    }
}

/// `(c as u32) + 1`, saturating.
pub open spec fn step_after(c: i64) -> u32 {
    if (c as u32) < u32::MAX {
        ((c as u32) + 1) as u32
    } else {
        u32::MAX
    }
}

pub open spec fn max_cursor(recs: Seq<FlowData>) -> i64
    decreases recs.len(),
{
    if recs.len() <= 1 {
        recs[0].cursor
    } else {
        let m = max_cursor(recs.drop_last());
        if recs.last().cursor > m {
            recs.last().cursor
        } else {
            m
        }
    }
}

/// The step to run next as the records say: after the greatest cursor above
/// -1, else after the flow's cursor, else 0.
pub open spec fn step_from_data(s: Seq<crate::store::FlowEntry>, id: u128) -> u32 {
    let rs = records_after(records_of(s, id), -1i64);
    if rs.len() > 0 {
        step_after(max_cursor(rs))
    } else if has_flow(s, id) {
        step_after(flow_at(s, id).meta.current_cursor)
    } else {
        0
    }
}

/// The JSON text `{"current_step":n}`.
pub open spec fn current_step_json(n: u32) -> Seq<char> {
    "{\"current_step\":"@ + decimal_of(n as nat) + "}"@
}

pub open spec fn status_of(s: Seq<char>) -> FlowStatus {
    if s == "not_started"@ {
        FlowStatus::NotStarted
    } else if s == "running"@ {
        FlowStatus::Running
    } else if s == "completed"@ {
        FlowStatus::Completed
    } else if s == "failed"@ {
        FlowStatus::Failed
    } else {
        FlowStatus::Unknown
    }
}

/// The status a status text names.
pub fn status_from_text(s: &str) -> (r: FlowStatus)
    ensures
        r == status_of(s@),
{
    let t = s.to_owned();
    if t == "not_started".to_owned() {
        FlowStatus::NotStarted
    } else if t == "running".to_owned() {
        FlowStatus::Running
    } else if t == "completed".to_owned() {
        FlowStatus::Completed
    } else if t == "failed".to_owned() {
        FlowStatus::Failed
    } else {
        FlowStatus::Unknown
    }
}

/// The key under which the output of step `name` is recorded.
pub fn step_key(name: &str) -> (r: String)
    ensures
        r@ == step_key_of(name@),
{
    join_text("step_state:", name)
}

/// The payload of the last record of `recs` keyed for step `name`.
pub fn find_last_step_payload(recs: &Vec<FlowData>, name: &str) -> (r: Option<String>)
    ensures
        match r {
            Some(p) => last_step_payload(recs@, name@) == Some(p@),
            None => last_step_payload(recs@, name@) is None,
        },
{
    let key = step_key(name);
    let mut j: usize = recs.len();
    assert(recs@.take(j as int) == recs@);
    while j > 0
        invariant
            j <= recs@.len(),
            key@ == step_key_of(name@),
            last_step_payload(recs@, name@) == last_step_payload(recs@.take(j as int), name@),
        decreases j,
    {
        proof {
            assert(recs@.take(j as int).drop_last() == recs@.take(j - 1));
            assert(recs@.take(j as int).last() == recs@[j - 1]);
        }
        if eq_ignore_ascii_case(recs[j - 1].key.as_str(), key.as_str()) {
            return Some(recs[j - 1].payload.clone());
        }
        j = j - 1;
    }
    None
}

/// The greatest cursor of a non-empty list of records.
fn greatest_cursor(recs: &Vec<FlowData>) -> (r: i64)
    requires
        recs@.len() > 0,
    ensures
        r == max_cursor(recs@),
{
    let mut m = recs[0].cursor;
    let mut j: usize = 1;
    while j < recs.len()
        invariant
            1 <= j <= recs@.len(),
            m == max_cursor(recs@.take(j as int)),
        decreases recs@.len() - j,
    {
        proof {
            assert(recs@.take(j + 1).drop_last() == recs@.take(j as int));
            assert(recs@.take(1)[0] == recs@[0]);
        }
        if recs[j].cursor > m {
            m = recs[j].cursor;
        }
        j = j + 1;
    }
    assert(recs@.take(j as int) == recs@);
    m
}

/// Every flow stays, with the same metadata, records and snapshots.
pub open spec fn flows_kept(old: Seq<crate::store::FlowEntry>, new: Seq<crate::store::FlowEntry>) -> bool {
    forall|g: u128|
        (#[trigger] has_flow(new, g) <==> has_flow(old, g)) && (has_flow(old, g) ==> flow_at(new, g).meta
            == flow_at(old, g).meta && flow_at(new, g).records@ == flow_at(old, g).records@ && flow_at(new, g).snapshots@
            == flow_at(old, g).snapshots@)
}

/// `e` is an engine on a branch of `parent`'s flow at `k`, made from store
/// `old` into `new`: the branch is as `create_branch_with_id` makes it (its
/// side table aside), `e` has the parent's step table, and `e` was
/// rehydrated from the branch: its step is what the branch's records say and
/// `snap` is its latest snapshot's state.
pub open spec fn branched_engine(
    old: Seq<crate::store::FlowEntry>,
    new: Seq<crate::store::FlowEntry>,
    parent: &FlowEngine,
    created_at: i64,
    k: i64,
    metadata: String,
    e: FlowEngine,
    snap: Option<String>,
) -> bool {
    let n = flow_at(new, e.id);
    &&& has_flow(new, e.id)
    &&& !has_flow(old, e.id)
    &&& is_branch_meta(old, n.meta, e.id, created_at, parent.id, None, None, k, metadata)
    &&& is_branch_records(records_of(old, parent.id), n.records@, e.id, parent.id, k)
    &&& is_branch_snapshots(snapshots_of(old, parent.id), n.snapshots@, e.id, k)
    &&& e.step_names@ == parent.step_names@
    &&& e.current_step == step_from_data(new, e.id)
    &&& text_option_is(snap, rehydrated_state(new, e.id))
}

/// The step an engine resumes at: `flow_metadata.current_step` when the
/// metadata is set and holds it, else what the records say.
pub open spec fn rehydrated_step(meta: Seq<char>, from_data: u32) -> u32 {
    if !json_null(meta) && json_u64_field(meta, "current_step"@) is Some {
        json_u64_field(meta, "current_step"@)->0 as u32
    } else {
        from_data
    }
}

impl FlowEngine {
    pub open spec fn names(&self) -> Seq<Seq<char>> {
        self.step_names@.map_values(|s: String| s@)
    }

    /// An engine for flow `id` with the given step table, at step 0.
    pub fn new(id: u128, step_names: Vec<String>) -> (r: Self)
        ensures
            r.id == id,
            r.step_names == step_names,
            r.current_step == 0,
            r.status@ == "not_started"@,
            r.metadata@ == "{}"@,
    {
        FlowEngine { id, step_names, current_step: 0, status: "not_started".to_owned(), metadata: "{}".to_owned() }
    }

    /// The name of the step at position `idx`.
    pub fn step_name_by_index(&self, idx: u32) -> (r: Result<String, WorkflowError>)
        ensures
            (idx as int) < self.step_names@.len() ==> r == Ok::<String, WorkflowError>(self.step_names@[idx as int]),
            (idx as int) >= self.step_names@.len() ==> r matches Err(WorkflowError::Validation(_)),
    {
        if (idx as usize) < self.step_names.len() {
            Ok(self.step_names[idx as usize].clone())
        } else {
            Err(WorkflowError::Validation("no step at this index".to_owned()))
        }
    }

    /// The name of the step the engine is at.
    pub fn current_step_name(&self) -> (r: Result<String, WorkflowError>)
        ensures
            (self.current_step as int) < self.step_names@.len() ==> r == Ok::<String, WorkflowError>(
                self.step_names@[self.current_step as int],
            ),
            (self.current_step as int) >= self.step_names@.len() ==> r matches Err(WorkflowError::Validation(_)),
    {
        self.step_name_by_index(self.current_step)
    }

    /// The cursor of the next record (one past the flow's cursor) and the
    /// version to append under (`expected_version`, or the flow's version
    /// when it is negative); `(0, expected_version)` for an unknown flow.
    pub fn calculate_cursor_and_version(&self, repo: &InMemoryFlowRepository, expected_version: i64) -> (r: Result<(i64, i64), WorkflowError>)
        requires
            repo.wf(),
        ensures
            !has_flow(repo@, self.id) ==> r == Ok::<(i64, i64), WorkflowError>((0, expected_version)),
            has_flow(repo@, self.id) ==> {
                let m = flow_at(repo@, self.id).meta;
                let v = if expected_version < 0 { m.current_version } else { expected_version };
                &&& m.current_cursor < i64::MAX ==> r == Ok::<(i64, i64), WorkflowError>(((m.current_cursor + 1) as i64, v))
                &&& m.current_cursor == i64::MAX ==> r matches Err(WorkflowError::Validation(_))
            },
    {
        match repo.get_flow_meta(self.id) {
            Ok(meta) => {
                let v = if expected_version < 0 { meta.current_version } else { expected_version };
                if meta.current_cursor == i64::MAX {
                    Err(WorkflowError::Validation("cursor out of range".to_owned()))
                } else {
                    Ok((meta.current_cursor + 1, v))
                }
            },
            Err(_) => Ok((0, expected_version)),
        }
    }

    /// The step index kept in the flow's `flow_metadata`.
    pub fn stored_current_step(&self, repo: &InMemoryFlowRepository) -> (r: u32)
        requires
            repo.wf(),
        ensures
            r == stored_step(repo@, self.id),
    {
        match repo.get_meta(self.id, "flow_metadata") {
            Ok(meta) => match read_u64_field(meta.as_str(), "current_step") {
                Some(v) => v as u32,
                None => 0,
            },
            Err(_) => 0,
        }
    }

    /// The status kept in the flow's `flow_metadata`.
    pub fn status(&self, repo: &InMemoryFlowRepository) -> (r: FlowStatus)
        requires
            repo.wf(),
        ensures
            has_flow(repo@, self.id) ==> r == match json_str_field(meta_text(repo@, self.id, "flow_metadata"@), "status"@) {
                Some(s) => status_of(s),
                None => FlowStatus::Unknown,
            },
            !has_flow(repo@, self.id) ==> r == FlowStatus::Unknown,
    {
        match repo.get_meta(self.id, "flow_metadata") {
            Ok(meta) => match read_str_field(meta.as_str(), "status") {
                Some(s) => status_from_text(s.as_str()),
                None => FlowStatus::Unknown,
            },
            Err(_) => FlowStatus::Unknown,
        }
    }

    /// The payload of the most recent record of step `step_name`.
    pub fn get_last_step_payload(&self, repo: &InMemoryFlowRepository, step_name: &str) -> (r: Result<Option<String>, WorkflowError>)
        requires
            repo.wf(),
        ensures
            r matches Ok(p) && match p {
                Some(x) => last_step_payload(records_after(records_of(repo@, self.id), 0), step_name@) == Some(x@),
                None => last_step_payload(records_after(records_of(repo@, self.id), 0), step_name@) is None,
            },
    {
        match repo.read_data(self.id, 0) {
            Ok(recs) => Ok(find_last_step_payload(&recs, step_name)),
            Err(e) => Err(WorkflowError::Flow(e)),
        }
    }

    /// Checks that step `step_name` may run: not run before, known, and every
    /// step before it has run.
    pub fn validate_step_execution(&self, repo: &InMemoryFlowRepository, step_name: &str) -> (r: Result<(), WorkflowError>)
        requires
            repo.wf(),
        ensures
            r is Ok <==> ready_to_run(self.names(), records_after(records_of(repo@, self.id), 0), step_name@),
            r matches Err(e) ==> e is Validation,
    {
        let recs = match repo.read_data(self.id, 0) {
            Ok(v) => v,
            Err(e) => {
                return Err(WorkflowError::Flow(e));
            },
        };
        let ghost rs = recs@;
        let ghost names = self.names();
        proof {
            if !has_flow(repo@, self.id) {
                reveal(Seq::filter);
                assert(records_after(records_of(repo@, self.id), 0) =~= Seq::<FlowData>::empty());
            }
            assert(rs == records_after(records_of(repo@, self.id), 0));
        }
        if find_last_step_payload(&recs, step_name).is_some() {
            return Err(WorkflowError::Validation("step already executed for this flow".to_owned()));
        }
        let target = step_name.to_owned();
        let mut i: usize = 0;
        while i < self.step_names.len()
            invariant
                i <= self.step_names@.len(),
                names == self.names(),
                target@ == step_name@,
                rs == recs@,
                rs == records_after(records_of(repo@, self.id), 0),
                last_step_payload(rs, step_name@) is None,
                forall|j: int| 0 <= j < i ==> names[j] != step_name@,
                forall|j: int| 0 <= j < i ==> (#[trigger] last_step_payload(rs, names[j])) is Some,
            decreases self.step_names@.len() - i,
        {
            if self.step_names[i] == target {
                proof {
                    assert(names[i as int] == step_name@);
                }
                return Ok(());
            }
            if find_last_step_payload(&recs, self.step_names[i].as_str()).is_none() {
                proof {
                    assert(names[i as int] == self.step_names@[i as int]@);
                    assert forall|k: int|
                        0 <= k < names.len() && #[trigger] names[k] == step_name@ && (forall|j: int|
                            0 <= j < k ==> names[j] != step_name@) implies !(forall|j: int|
                        0 <= j < k ==> (#[trigger] last_step_payload(rs, names[j])) is Some) by {
                        assert(k > i);
                        assert(last_step_payload(rs, names[i as int]) is None);
                    }
                }
                return Err(WorkflowError::Validation("missing output of a previous step".to_owned()));
            }
            i = i + 1;
        }
        proof {
            assert forall|k: int| 0 <= k < names.len() implies #[trigger] names[k] != step_name@ by {}
        }
        Err(WorkflowError::Validation("step not found".to_owned()))
    }

    /// Persists the output of step `step_name` as a record at the flow's next
    /// cursor; on success records `flow_metadata.current_step = cursor + 1`
    /// and, best-effort, a snapshot of `state_json`.
    pub fn persist_step_result(
        &self,
        repo: &mut InMemoryFlowRepository,
        step_name: &str,
        info: StepInfo,
        expected_version: i64,
        command_id: Option<u128>,
        state_json: &str,
    ) -> (r: Result<PersistResult, WorkflowError>)
        requires
            old(repo).wf(),
            state_json@.len() <= usize::MAX / 8,
        ensures
            final(repo).wf(),
            !has_flow(old(repo)@, self.id) ==> (r matches Err(WorkflowError::Flow(FlowError::NotFound(_)))
                && final(repo)@ == old(repo)@),
            step_append_outcome(old(repo)@, final(repo)@, self.id, step_name@, info, expected_version, command_id, r),
            has_flow(old(repo)@, self.id) && flow_at(old(repo)@, self.id).meta.current_cursor < i64::MAX && (r matches Ok(
                PersistResult::Persisted { .. },
            )) ==> {
                let n = flow_at(final(repo)@, self.id);
                &&& kv_map(n.kv@).contains_key("flow_metadata"@)
                &&& kv_map(n.kv@)["flow_metadata"@] == current_step_json(
                    step_after((flow_at(old(repo)@, self.id).meta.current_cursor + 1) as i64),
                )
            },
    {
        let (cursor, version) = self.calculate_cursor_and_version(repo, expected_version)?;
        let data = FlowData {
            id: fresh_id(),
            flow_id: self.id,
            cursor,
            key: step_key(step_name),
            payload: info.payload,
            metadata: info.metadata,
            command_id,
            created_at: now_millis(),
        };
        let ghost s0 = repo@;
        let result = match repo.persist_data(&data, version) {
            Ok(x) => x,
            Err(e) => {
                return Err(WorkflowError::Flow(e));
            },
        };
        if let PersistResult::Persisted { new_version: _ } = result {
            let ghost s1 = repo@;
            self.update_engine_state_after_persist(repo, cursor, state_json);
            proof {
                if flow_at(s1, self.id).records@.len() > flow_at(s0, self.id).records@.len() {
                    assert(flow_at(s1, self.id).records@.last() == data);
                }
            }
        }
        Ok(result)
    }

    /// After a record at `cursor` is appended: records that the next step is
    /// `cursor + 1` in `flow_metadata`, then saves a snapshot of `state_json`
    /// if it can.
    pub fn update_engine_state_after_persist(&self, repo: &mut InMemoryFlowRepository, cursor: i64, state_json: &str)
        requires
            old(repo).wf(),
            state_json@.len() <= usize::MAX / 8,
        ensures
            final(repo).wf(),
            has_flow(old(repo)@, self.id) ==> {
                let n = flow_at(final(repo)@, self.id);
                let e = flow_at(old(repo)@, self.id);
                &&& has_flow(final(repo)@, self.id)
                &&& n.records@ == e.records@
                &&& n.meta == e.meta
                &&& kv_map(n.kv@) == kv_map(e.kv@).insert("flow_metadata"@, current_step_json(step_after(cursor)))
            },
    {
        let next = if (cursor as u32) < u32::MAX { (cursor as u32) + 1 } else { u32::MAX };
        let text = join_text(join_text("{\"current_step\":", decimal_text(next as u64).as_str()).as_str(), "}");
        let _ = repo.set_meta(self.id, "flow_metadata", text);
        if let Ok(true) = repo.branch_exists(self.id) {
            self.snapshot_best_effort(repo, state_json);
        }
    }

    /// Saves a snapshot and ignores a failure (the append it follows stands).
    fn snapshot_best_effort(&self, repo: &mut InMemoryFlowRepository, state_json: &str)
        requires
            old(repo).wf(),
            state_json@.len() <= usize::MAX / 8,
            has_flow(old(repo)@, self.id),
        ensures
            final(repo).wf(),
            has_flow(final(repo)@, self.id),
            flow_at(final(repo)@, self.id).records@ == flow_at(old(repo)@, self.id).records@,
            flow_at(final(repo)@, self.id).meta == flow_at(old(repo)@, self.id).meta,
            flow_at(final(repo)@, self.id).kv@ == flow_at(old(repo)@, self.id).kv@,
    {
        let _ = self.save_snapshot(repo, state_json);
    }

    /// Saves `state_json`, base64-encoded, as snapshot `id` of the flow,
    /// taken at its stored current step and created at `created_at`, with
    /// the flow's `flow_metadata` as metadata.
    pub fn save_snapshot_with_id(
        &self,
        repo: &mut InMemoryFlowRepository,
        id: u128,
        created_at: i64,
        state_json: &str,
    ) -> (r: Result<u128, WorkflowError>)
        requires
            old(repo).wf(),
            state_json@.len() <= usize::MAX / 8,
        ensures
            final(repo).wf(),
            !has_flow(old(repo)@, self.id) ==> (r matches Err(WorkflowError::Flow(FlowError::NotFound(_)))
                && final(repo)@ == old(repo)@),
            has_flow(old(repo)@, self.id) && snapshot_id_used(old(repo)@, id) ==> (r matches Err(
                WorkflowError::Flow(FlowError::Storage(_)),
            ) && final(repo)@ == old(repo)@),
            has_flow(old(repo)@, self.id) && !snapshot_id_used(old(repo)@, id) ==> {
                let sn = flow_at(final(repo)@, self.id).snapshots@.last();
                &&& r == Ok::<u128, WorkflowError>(id)
                &&& save_with_id_outcome(
                    old(repo)@,
                    final(repo)@,
                    self.id,
                    id,
                    created_at,
                    stored_step(old(repo)@, self.id) as i64,
                    base64_text(state_json@),
                    sn.metadata,
                    Ok::<u128, FlowError>(id),
                )
                &&& sn.metadata@ == meta_text(old(repo)@, self.id, "flow_metadata"@)
            },
    {
        let ptr = encode_base64(state_json);
        let step = self.stored_current_step(repo);
        let meta = match repo.get_meta(self.id, "flow_metadata") {
            Ok(m) => m,
            Err(e) => {
                return Err(WorkflowError::Flow(e));
            },
        };
        match repo.save_snapshot_with_id(self.id, id, created_at, step as i64, ptr.as_str(), meta) {
            Ok(id) => Ok(id),
            Err(e) => Err(WorkflowError::Flow(e)),
        }
    }

    /// Saves `state_json` as a snapshot under a fresh random id and the
    /// current time (see `save_snapshot_with_id`).
    pub fn save_snapshot(&self, repo: &mut InMemoryFlowRepository, state_json: &str) -> (r: Result<u128, WorkflowError>)
        requires
            old(repo).wf(),
            state_json@.len() <= usize::MAX / 8,
        ensures
            final(repo).wf(),
            match r {
                Ok(id) => {
                    let sn = flow_at(final(repo)@, self.id).snapshots@.last();
                    &&& save_outcome(
                        old(repo)@,
                        final(repo)@,
                        self.id,
                        stored_step(old(repo)@, self.id) as i64,
                        base64_text(state_json@),
                        sn.metadata,
                        Ok::<u128, FlowError>(id),
                    )
                    &&& sn.metadata@ == meta_text(old(repo)@, self.id, "flow_metadata"@)
                },
                Err(_) => final(repo)@ == old(repo)@,
            },
            !has_flow(old(repo)@, self.id) ==> r is Err,
            has_flow(old(repo)@, self.id) ==> {
                &&& has_flow(final(repo)@, self.id)
                &&& flow_at(final(repo)@, self.id).records@ == flow_at(old(repo)@, self.id).records@
                &&& flow_at(final(repo)@, self.id).meta == flow_at(old(repo)@, self.id).meta
                &&& flow_at(final(repo)@, self.id).kv@ == flow_at(old(repo)@, self.id).kv@
            },
    {
        let id = fresh_id();
        let created_at = now_millis();
        self.save_snapshot_with_id(repo, id, created_at, state_json)
    }

    /// The state text of the flow's latest snapshot: its pointer, base64
    /// decoded; `None` when the flow has no snapshot or the pointer does not
    /// decode.
    pub fn rehydrate_from_snapshot(&self, repo: &InMemoryFlowRepository) -> (r: Option<String>)
        requires
            repo.wf(),
        ensures
            text_option_is(r, rehydrated_state(repo@, self.id)),
    {
        let latest = match repo.load_latest_snapshot(self.id) {
            Ok(Some(m)) => m,
            _ => {
                return None;
            },
        };
        proof {
            let snaps = flow_at(repo@, self.id).snapshots@;
            let i = choose|i: int| is_latest_snapshot(snaps, i) && latest == snaps[i];
            lemma_latest_unique(snaps, i);
        }
        decode_base64(latest.state_ptr.as_str())
    }

    /// The step to run next according to the records (see `step_from_data`).
    pub fn determine_current_step_from_data(&self, repo: &InMemoryFlowRepository) -> (r: u32)
        requires
            repo.wf(),
        ensures
            r == step_from_data(repo@, self.id),
    {
        let recs = match repo.read_data(self.id, -1) {
            Ok(v) => v,
            Err(_) => Vec::new(),
        };
        if recs.len() > 0 {
            let m = greatest_cursor(&recs);
            if (m as u32) < u32::MAX {
                (m as u32) + 1
            } else {
                u32::MAX
            }
        } else {
            match repo.get_flow_meta(self.id) {
                Ok(meta) => {
                    if (meta.current_cursor as u32) < u32::MAX {
                        (meta.current_cursor as u32) + 1
                    } else {
                        u32::MAX
                    }
                },
                Err(_) => 0,
            }
        }
    }

    /// Sets field `field` of the flow's `flow_metadata` to the JSON `value`.
    pub fn update_metadata_field(&self, repo: &mut InMemoryFlowRepository, field: &str, value: &str) -> (r: Result<(), WorkflowError>)
        requires
            old(repo).wf(),
        ensures
            final(repo).wf(),
            !has_flow(old(repo)@, self.id) ==> (r is Err && final(repo)@ == old(repo)@),
            has_flow(old(repo)@, self.id) ==> {
                let e = flow_at(old(repo)@, self.id);
                let n = flow_at(final(repo)@, self.id);
                &&& r is Ok
                &&& has_flow(final(repo)@, self.id)
                &&& kv_map(n.kv@) == kv_map(e.kv@).insert(
                    "flow_metadata"@,
                    json_with_field(meta_text(old(repo)@, self.id, "flow_metadata"@), field@, value@),
                )
                &&& n.meta == e.meta && n.records@ == e.records@ && n.snapshots@ == e.snapshots@
            },
            flows_kept(old(repo)@, final(repo)@),
    {
        let meta = match repo.get_meta(self.id, "flow_metadata") {
            Ok(m) => m,
            Err(e) => {
                return Err(WorkflowError::Flow(e));
            },
        };
        let updated = with_field(meta.as_str(), field, value);
        match repo.set_meta(self.id, "flow_metadata", updated) {
            Ok(()) => Ok(()),
            Err(e) => Err(WorkflowError::Flow(e)),
        }
    }

    /// Moves the stored current step one forward.
    pub fn advance_step(&self, repo: &mut InMemoryFlowRepository) -> (r: Result<(), WorkflowError>)
        requires
            old(repo).wf(),
        ensures
            final(repo).wf(),
            !has_flow(old(repo)@, self.id) ==> (r is Err && final(repo)@ == old(repo)@),
            has_flow(old(repo)@, self.id) && stored_step(old(repo)@, self.id) == u32::MAX ==> (r matches Err(
                WorkflowError::Validation(_),
            ) && final(repo)@ == old(repo)@),
            has_flow(old(repo)@, self.id) && stored_step(old(repo)@, self.id) < u32::MAX ==> {
                let e = flow_at(old(repo)@, self.id);
                let n = flow_at(final(repo)@, self.id);
                &&& r is Ok
                &&& kv_map(n.kv@) == kv_map(e.kv@).insert(
                    "flow_metadata"@,
                    json_with_field(
                        meta_text(old(repo)@, self.id, "flow_metadata"@),
                        "current_step"@,
                        decimal_of((stored_step(old(repo)@, self.id) + 1) as nat),
                    ),
                )
            },
    {
        if let Ok(true) = repo.branch_exists(self.id) {
        } else {
            return Err(WorkflowError::Flow(FlowError::NotFound("flow".to_owned())));
        }
        let n = self.stored_current_step(repo);
        if n == u32::MAX {
            return Err(WorkflowError::Validation("step index out of range".to_owned()));
        }
        let v = decimal_text((n + 1) as u64);
        self.update_metadata_field(repo, "current_step", v.as_str())
    }

    /// Copies `current_step` and `status` of the JSON object `meta` into the
    /// engine's state, where present, and keeps `meta` itself.
    pub fn apply_flow_metadata(&mut self, meta: String)
        ensures
            final(self).current_step == match json_u64_field(meta@, "current_step"@) {
                Some(v) => v as u32,
                None => old(self).current_step,
            },
            final(self).status@ == match json_str_field(meta@, "status"@) {
                Some(s) => s,
                None => old(self).status@,
            },
            final(self).metadata == meta,
            final(self).id == old(self).id,
            final(self).step_names == old(self).step_names,
    {
        if let Some(v) = read_u64_field(meta.as_str(), "current_step") {
            self.current_step = v as u32;
        }
        if let Some(s) = read_str_field(meta.as_str(), "status") {
            self.status = s;
        }
        self.metadata = meta;
    }

    /// Brings the in-memory step state in line with the flow: from a set
    /// `flow_metadata`, its `current_step` and `status`; otherwise from the
    /// records, also writing the step back to `flow_metadata`.
    pub fn synchronize_step_state(&mut self, repo: &mut InMemoryFlowRepository) -> (r: Result<(), WorkflowError>)
        requires
            old(repo).wf(),
        ensures
            final(repo).wf(),
            has_flow(old(repo)@, old(self).id) ==> final(self).current_step == rehydrated_step(
                meta_text(old(repo)@, old(self).id, "flow_metadata"@),
                step_from_data(old(repo)@, old(self).id),
            ),
            final(self).id == old(self).id,
            final(self).step_names == old(self).step_names,
            flows_kept(old(repo)@, final(repo)@),
            !has_flow(old(repo)@, old(self).id) ==> r is Err,
            has_flow(old(repo)@, old(self).id) ==> r is Ok,
            has_flow(old(repo)@, old(self).id) && meta_text(old(repo)@, old(self).id, "flow_metadata"@) == "null"@
                ==> final(self).current_step == step_from_data(old(repo)@, old(self).id),
    {
        let meta = match repo.get_meta(self.id, "flow_metadata") {
            Ok(m) => m,
            Err(e) => {
                return Err(WorkflowError::Flow(e));
            },
        };
        if !is_json_null(meta.as_str()) {
            let has_step = read_u64_field(meta.as_str(), "current_step").is_some();
            self.apply_flow_metadata(meta);
            if has_step {
                return Ok(());
            }
        }
        let step = self.determine_current_step_from_data(repo);
        self.current_step = step;
        let v = decimal_text(step as u64);
        self.update_metadata_field(repo, "current_step", v.as_str())
    }

    /// Rebuilds the engine from storage: returns the state text of the latest
    /// snapshot (for the concrete engine to apply), then synchronizes the
    /// step state.
    pub fn rehydrate_from_storage(&mut self, repo: &mut InMemoryFlowRepository) -> (r: Result<Option<String>, WorkflowError>)
        requires
            old(repo).wf(),
        ensures
            final(repo).wf(),
            has_flow(old(repo)@, old(self).id) ==> final(self).current_step == rehydrated_step(
                meta_text(old(repo)@, old(self).id, "flow_metadata"@),
                step_from_data(old(repo)@, old(self).id),
            ),
            final(self).id == old(self).id,
            final(self).step_names == old(self).step_names,
            flows_kept(old(repo)@, final(repo)@),
            !has_flow(old(repo)@, old(self).id) ==> r is Err,
            has_flow(old(repo)@, old(self).id) && meta_text(old(repo)@, old(self).id, "flow_metadata"@) == "null"@
                ==> final(self).current_step == step_from_data(old(repo)@, old(self).id),
            has_flow(old(repo)@, old(self).id) ==> (r matches Ok(x) && text_option_is(
                x,
                rehydrated_state(old(repo)@, old(self).id),
            )),
    {
        let snap = self.rehydrate_from_snapshot(repo);
        self.synchronize_step_state(repo)?;
        Ok(snap)
    }

    /// Forks the engine's flow at `parent_cursor` into flow `new_id`
    /// (created at `created_at`) and returns an engine on the branch (same
    /// step table), rehydrated, with its snapshot state text.
    pub fn new_branch_with_id(
        &self,
        repo: &mut InMemoryFlowRepository,
        new_id: u128,
        created_at: i64,
        record_ids: &Vec<u128>,
        snapshot_ids: &Vec<u128>,
        parent_cursor: i64,
        metadata: String,
    ) -> (r: Result<(FlowEngine, Option<String>), WorkflowError>)
        requires
            old(repo).wf(),
            parent_cursor < i64::MAX,
        ensures
            final(repo).wf(),
            r is Err ==> final(repo)@ == old(repo)@,
            r is Err <==> branch_id_refused(old(repo)@, new_id, self.id) || parent_cursor < 0 || !branch_ids_fit(
                old(repo)@,
                self.id,
                parent_cursor,
                record_ids@,
                snapshot_ids@,
            ),
            r matches Ok((e, snap)) ==> e.id == new_id && branched_engine(
                old(repo)@,
                final(repo)@,
                self,
                created_at,
                parent_cursor,
                metadata,
                e,
                snap,
            ),
    {
        let id = match repo.create_branch_with_id(new_id, created_at, record_ids, snapshot_ids, self.id, None, None, parent_cursor, metadata) {
            Ok(id) => id,
            Err(e) => {
                return Err(WorkflowError::Flow(e));
            },
        };
        let ghost s1 = repo@;
        let r = self.rehydrated_branch(repo, id);
        proof {
            assert(has_flow(repo@, id));
            assert(records_of(repo@, id) == records_of(s1, id));
        }
        r
    }

    /// Forks the engine's flow at `parent_cursor` under a fresh random id (see
    /// `new_branch_with_id`).
    pub fn new_branch(&self, repo: &mut InMemoryFlowRepository, parent_cursor: i64, metadata: String) -> (r: Result<(FlowEngine, Option<String>), WorkflowError>)
        requires
            old(repo).wf(),
            parent_cursor < i64::MAX,
        ensures
            final(repo).wf(),
            r is Err ==> final(repo)@ == old(repo)@,
            parent_cursor < 0 ==> r is Err,
            r matches Ok((e, snap)) ==> e.id != self.id && branched_engine(
                old(repo)@,
                final(repo)@,
                self,
                flow_at(final(repo)@, e.id).meta.created_at,
                parent_cursor,
                metadata,
                e,
                snap,
            ),
    {
        let id = match repo.create_branch(self.id, None, None, parent_cursor, metadata) {
            Ok(id) => id,
            Err(e) => {
                return Err(WorkflowError::Flow(e));
            },
        };
        let ghost s1 = repo@;
        let r = self.rehydrated_branch(repo, id);
        proof {
            assert(has_flow(repo@, id));
            assert(records_of(repo@, id) == records_of(s1, id));
        }
        r
    }

    /// An engine on the branch `id` just created, rehydrated.
    fn rehydrated_branch(&self, repo: &mut InMemoryFlowRepository, id: u128) -> (r: Result<(FlowEngine, Option<String>), WorkflowError>)
        requires
            old(repo).wf(),
            has_flow(old(repo)@, id),
            flow_at(old(repo)@, id).kv@.len() == 0,
        ensures
            final(repo).wf(),
            r matches Ok((e, snap)) && e.id == id && e.step_names@ == self.step_names@ && flows_kept(old(repo)@, final(repo)@)
                && e.current_step == step_from_data(old(repo)@, id) && text_option_is(snap, rehydrated_state(old(repo)@, id)),
    {
        let mut names: Vec<String> = Vec::new();
        let mut i: usize = 0;
        while i < self.step_names.len()
            invariant
                i <= self.step_names@.len(),
                names@ == self.step_names@.take(i as int),
            decreases self.step_names@.len() - i,
        {
            names.push(self.step_names[i].clone());
            i = i + 1;
            assert(self.step_names@.take(i as int) == self.step_names@.take(i - 1).push(self.step_names@[i - 1]));
        }
        assert(self.step_names@.take(i as int) == self.step_names@);
        let mut engine = FlowEngine::new(id, names);
        proof {
            assert(kv_map(flow_at(repo@, id).kv@) =~= Map::<Seq<char>, Seq<char>>::empty());
            assert(meta_text(repo@, id, "flow_metadata"@) == "null"@);
        }
        let r = engine.rehydrate_from_storage(repo);
        match r {
            Ok(snap) => Ok((engine, snap)),
            Err(e) => Err(e),
        }
    }

    /// Runs `handler` as the step at the engine's current position, after
    /// checking that this step has no output yet and every step before it
    /// has one.
    pub fn execute_current_step<H: WorkflowStep>(
        &self,
        repo: &InMemoryFlowRepository,
        handler: &H,
        input: &str,
    ) -> (r: Result<StepInfo, WorkflowError>)
        requires
            repo.wf(),
        ensures
            (self.current_step as int) >= self.step_names@.len() ==> r matches Err(WorkflowError::Validation(_)),
            (self.current_step as int) < self.step_names@.len() && !ready_to_run(
                self.names(),
                records_after(records_of(repo@, self.id), 0),
                self.step_names@[self.current_step as int]@,
            ) ==> r matches Err(WorkflowError::Validation(_)),
    {
        let name = self.current_step_name()?;
        self.validate_step_execution(repo, name.as_str())?;
        let ctx = StepContext::new(self.id);
        handler.execute(&ctx, input)
    }

    /// Runs `handler` as the step at position `idx` without checking the
    /// steps before it.
    pub fn execute_step_by_index_unchecked<H: WorkflowStep>(&self, idx: u32, handler: &H, input: &str) -> (r: Result<StepInfo, WorkflowError>)
        ensures
            (idx as int) >= self.step_names@.len() ==> r matches Err(WorkflowError::Validation(_)),
    {
        let _name = self.step_name_by_index(idx)?;
        let ctx = StepContext::new(self.id);
        handler.execute(&ctx, input)
    }

    /// Whether flow `flow_id` exists.
    pub fn branch_exists(&self, repo: &InMemoryFlowRepository, flow_id: u128) -> (r: Result<bool, WorkflowError>)
        requires
            repo.wf(),
        ensures
            r == Ok::<bool, WorkflowError>(has_flow(repo@, flow_id)),
    {
        match repo.branch_exists(flow_id) {
            Ok(b) => Ok(b),
            Err(e) => Err(WorkflowError::Flow(e)),
        }
    }
}

} // verus!
