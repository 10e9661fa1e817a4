use vstd::prelude::*;

use crate::domain::{
    branch_marker_key, copy_text, is_branch_marker, is_clone_of, is_snapshot_clone_of,
    record_content, FlowData, FlowMeta, PersistResult, SnapshotMeta, WorkItem,
};
use crate::errors::FlowError;
use crate::outside::{fresh_id, now_millis, uuid_text, uuid_text_of};
use crate::text::{join_text, is_empty_json_object, is_empty_object_text};

verus! {

/// One key of a flow's side table; `value` is a JSON text.
#[derive(Debug, Clone)]
pub struct MetaEntry {
    pub key: String,
    pub value: String,
}

/// Everything a flow owns: its metadata, its records, its snapshots and its
/// side table.
#[derive(Debug, Clone)]
pub struct FlowEntry {
    pub meta: FlowMeta,
    pub records: Vec<FlowData>,
    pub snapshots: Vec<SnapshotMeta>,
    pub kv: Vec<MetaEntry>,
}

/// The reference record store, held in memory.
pub struct InMemoryFlowRepository {
    flows: Vec<FlowEntry>,
}

impl View for InMemoryFlowRepository {
    type V = Seq<FlowEntry>;

    closed spec fn view(&self) -> Seq<FlowEntry> {
        self.flows@
    }
}

pub open spec fn has_flow(s: Seq<FlowEntry>, id: u128) -> bool {
    exists|i: int| 0 <= i < s.len() && #[trigger] s[i].meta.id == id
}

/// The entry of flow `id` (meaningful when `has_flow(s, id)`).
pub open spec fn flow_at(s: Seq<FlowEntry>, id: u128) -> FlowEntry {
    s[choose|i: int| 0 <= i < s.len() && #[trigger] s[i].meta.id == id]
}

pub open spec fn ids_unique(s: Seq<FlowEntry>) -> bool {
    forall|i: int, j: int|
        0 <= i < s.len() && 0 <= j < s.len() && i != j ==> s[i].meta.id != s[j].meta.id
}

/// Cursors ascend strictly, except that the branch marker may share its
/// cursor with the record appended right after it.
pub open spec fn records_ordered(r: Seq<FlowData>) -> bool {
    forall|i: int, j: int|
        0 <= i < j < r.len() ==> r[i].cursor < r[j].cursor || (r[i].cursor == r[j].cursor
            && is_branch_marker(r[i]))
}

/// No two records carry the same command id.
pub open spec fn commands_unique(r: Seq<FlowData>) -> bool {
    forall|i: int, j: int| 0 <= i < j < r.len() && r[i].command_id is Some ==> r[i].command_id != r[j].command_id
}

pub open spec fn kv_keys_unique(kv: Seq<MetaEntry>) -> bool {
    forall|i: int, j: int| 0 <= i < kv.len() && 0 <= j < kv.len() && i != j ==> kv[i].key@ != kv[j].key@
}

pub open spec fn entry_wf(e: FlowEntry) -> bool {
    &&& records_ordered(e.records@)
    &&& commands_unique(e.records@)
    &&& forall|i: int|
        0 <= i < e.records@.len() ==> {
            let d = #[trigger] e.records@[i];
            &&& d.flow_id == e.meta.id
            &&& d.cursor >= 1
            &&& d.cursor <= e.meta.current_cursor + 1
            &&& d.cursor == e.meta.current_cursor + 1 ==> is_branch_marker(d)
        }
    &&& forall|i: int| 0 <= i < e.snapshots@.len() ==> (#[trigger] e.snapshots@[i]).flow_id == e.meta.id
    &&& kv_keys_unique(e.kv@)
    &&& e.meta.current_version >= 0
    &&& e.meta.current_cursor >= 0
    &&& (e.meta.parent_flow_id is Some <==> e.meta.parent_cursor is Some)
    &&& e.meta.parent_flow_id != Some(e.meta.id)
}

/// Some flow of `s` names `id` as its parent.
pub open spec fn named_as_parent(s: Seq<FlowEntry>, id: u128) -> bool {
    exists|i: int| 0 <= i < s.len() && #[trigger] s[i].meta.parent_flow_id == Some(id)
}

/// `create_branch_with_id` refuses `new_id` for a branch of `parent`: it is
/// the parent, a flow already has it, or a flow names it as its parent.
pub open spec fn branch_id_refused(s: Seq<FlowEntry>, new_id: u128, parent: u128) -> bool {
    new_id == parent || has_flow(s, new_id) || named_as_parent(s, new_id)
}

/// No two snapshots of the store share an id.
pub open spec fn snapshot_ids_unique(s: Seq<FlowEntry>) -> bool {
    forall|a: int, b: int, x: int, y: int|
        0 <= a < s.len() && 0 <= b < s.len() && 0 <= x < s[a].snapshots@.len() && 0 <= y < s[b].snapshots@.len() && (a
            != b || x != y) ==> #[trigger] s[a].snapshots@[x].id != #[trigger] s[b].snapshots@[y].id
}

pub open spec fn store_wf(s: Seq<FlowEntry>) -> bool {
    &&& ids_unique(s)
    &&& forall|i: int| 0 <= i < s.len() ==> entry_wf(#[trigger] s[i])
    &&& snapshot_ids_unique(s)
}

/// The first `n` of `ids` are distinct and no snapshot of `s` has one of
/// them.
pub open spec fn fresh_snapshot_ids(s: Seq<FlowEntry>, ids: Seq<u128>, n: int) -> bool {
    &&& n <= ids.len()
    &&& forall|a: int, b: int| 0 <= a < b < n ==> ids[a] != ids[b]
    &&& forall|a: int| 0 <= a < n ==> !snapshot_id_used(s, #[trigger] ids[a])
}

/// Some record of the store has id `id`.
pub open spec fn record_id_used(s: Seq<FlowEntry>, id: u128) -> bool {
    exists|i: int, j: int| 0 <= i < s.len() && 0 <= j < s[i].records@.len() && #[trigger] s[i].records@[j].id == id
}

/// The first `n` of `ids` are distinct and no record of `s` has one of them.
pub open spec fn fresh_record_ids(s: Seq<FlowEntry>, ids: Seq<u128>, n: int) -> bool {
    &&& n <= ids.len()
    &&& forall|a: int, b: int| 0 <= a < b < n ==> ids[a] != ids[b]
    &&& forall|a: int| 0 <= a < n ==> !record_id_used(s, #[trigger] ids[a])
}

/// How many records a branch of `parent` at `k` holds: the copies and the
/// marker.
pub open spec fn branch_record_count(s: Seq<FlowEntry>, parent: u128, k: i64) -> int {
    records_upto(records_of(s, parent), k).len() + 1int
}

/// The ids offered for a branch of `parent` at `k` are enough and new.
pub open spec fn branch_ids_fit(s: Seq<FlowEntry>, parent: u128, k: i64, record_ids: Seq<u128>, snapshot_ids: Seq<u128>) -> bool {
    &&& fresh_record_ids(s, record_ids, branch_record_count(s, parent, k))
    &&& fresh_snapshot_ids(s, snapshot_ids, branch_snapshot_count(s, parent, k))
}

/// How many snapshots a branch of `parent` at `k` copies.
pub open spec fn branch_snapshot_count(s: Seq<FlowEntry>, parent: u128, k: i64) -> int {
    snapshots_upto(snapshots_of(s, parent), k).len() as int
}

/// Adding an entry whose snapshot ids are distinct and new keeps snapshot
/// ids unique.
proof fn lemma_push_fresh_snapshots(s: Seq<FlowEntry>, e: FlowEntry)
    requires
        snapshot_ids_unique(s),
        forall|x: int, y: int| 0 <= x < y < e.snapshots@.len() ==> e.snapshots@[x].id != e.snapshots@[y].id,
        forall|x: int| 0 <= x < e.snapshots@.len() ==> !snapshot_id_used(s, (#[trigger] e.snapshots@[x]).id),
    ensures
        snapshot_ids_unique(s.push(e)),
{
    let t = s.push(e);
    let n = s.len() as int;
    assert forall|a: int, b: int, x: int, y: int|
        0 <= a < t.len() && 0 <= b < t.len() && 0 <= x < t[a].snapshots@.len() && 0 <= y < t[b].snapshots@.len() && (a
            != b || x != y) implies #[trigger] t[a].snapshots@[x].id != #[trigger] t[b].snapshots@[y].id by {
        if a < n && b < n {
            assert(t[a] == s[a] && t[b] == s[b]);
        } else if a == n && b == n {
            if x > y {
                assert(e.snapshots@[y].id != e.snapshots@[x].id);
            }
        } else if a < n {
            assert(t[a] == s[a]);
            assert(!snapshot_id_used(s, e.snapshots@[y].id));
            assert(s[a].snapshots@[x].id == t[a].snapshots@[x].id);
        } else {
            assert(t[b] == s[b]);
            assert(!snapshot_id_used(s, e.snapshots@[x].id));
            assert(s[b].snapshots@[y].id == t[b].snapshots@[y].id);
        }
    }
}

/// Replacing an entry by one with the same snapshots keeps snapshot ids
/// unique.
proof fn lemma_update_same_snapshots(s: Seq<FlowEntry>, i: int, e: FlowEntry)
    requires
        snapshot_ids_unique(s),
        0 <= i < s.len(),
        e.snapshots@ == s[i].snapshots@,
    ensures
        snapshot_ids_unique(s.update(i, e)),
{
    let t = s.update(i, e);
    assert forall|a: int| 0 <= a < t.len() implies (#[trigger] t[a]).snapshots@ == s[a].snapshots@ by {}
}

/// Every flow but `id` is present before exactly when it is present after,
/// with the same entry.
pub open spec fn others_same(old: Seq<FlowEntry>, new: Seq<FlowEntry>, id: u128) -> bool {
    forall|g: u128|
        g != id ==> (#[trigger] has_flow(new, g) <==> has_flow(old, g)) && (has_flow(old, g)
            ==> flow_at(new, g) == flow_at(old, g))
}

/// The records of a flow whose cursor is above `from`, in stored order.
pub open spec fn records_after(r: Seq<FlowData>, from: i64) -> Seq<FlowData> {
    r.filter(|d: FlowData| d.cursor > from)
}

/// The records of a flow whose cursor is at most `k`, in stored order.
pub open spec fn records_upto(r: Seq<FlowData>, k: i64) -> Seq<FlowData> {
    r.filter(|d: FlowData| d.cursor <= k)
}

/// The records of a flow whose cursor is below `k`, in stored order.
pub open spec fn records_before(r: Seq<FlowData>, k: i64) -> Seq<FlowData> {
    r.filter(|d: FlowData| d.cursor < k)
}

/// The number of visible steps: records at or below the current cursor.
pub open spec fn visible_steps(e: FlowEntry) -> int {
    records_upto(e.records@, e.meta.current_cursor).len() as int
}

pub open spec fn has_command(r: Seq<FlowData>, c: u128) -> bool {
    exists|i: int| 0 <= i < r.len() && #[trigger] r[i].command_id == Some(c)
}

/// The version after one successful append (saturating).
pub open spec fn next_version(v: i64) -> i64 {
    if v < i64::MAX {
        (v + 1) as i64
    } else {
        v
    }
}

/// `n` is `e` after appending `d`: the record added, the version advanced,
/// the cursor moved to `d.cursor`, nothing else changed.
pub open spec fn appended(e: FlowEntry, n: FlowEntry, d: FlowData) -> bool {
    &&& n.records@ == e.records@.push(d)
    &&& n.meta == FlowMeta {
        current_version: next_version(e.meta.current_version),
        current_cursor: d.cursor,
        ..e.meta
    }
    &&& n.snapshots@ == e.snapshots@
    &&& n.kv@ == e.kv@
}

/// The snapshot at index `i` is the latest: no other has a greater cursor,
/// and none saved after it has the same cursor. A flow keeps its snapshots
/// in creation order (a save appends, a branch copies in the parent's
/// order), so "saved after" is "created after"; `created_at` itself is not
/// compared, as two saves may read the same clock value.
pub open spec fn is_latest_snapshot(s: Seq<SnapshotMeta>, i: int) -> bool {
    &&& 0 <= i < s.len()
    &&& forall|j: int|
        0 <= j < s.len() ==> (#[trigger] s[j]).cursor < s[i].cursor || (s[j].cursor == s[i].cursor && j
            <= i)
}

/// The index of the latest snapshot of `s` (meaningful when `s` is not
/// empty).
pub open spec fn latest_snapshot_index(s: Seq<SnapshotMeta>) -> int {
    choose|i: int| is_latest_snapshot(s, i)
}

/// Only one index is the latest.
pub proof fn lemma_latest_unique(s: Seq<SnapshotMeta>, i: int)
    requires
        is_latest_snapshot(s, i),
    ensures
        latest_snapshot_index(s) == i,
{
    let j = latest_snapshot_index(s);
    assert(is_latest_snapshot(s, j));
    assert(s[j].cursor < s[i].cursor || (s[j].cursor == s[i].cursor && j <= i));
    assert(s[i].cursor < s[j].cursor || (s[i].cursor == s[j].cursor && i <= j));
}

pub open spec fn kv_has(kv: Seq<MetaEntry>, k: Seq<char>) -> bool {
    exists|i: int| 0 <= i < kv.len() && #[trigger] kv[i].key@ == k
}

/// The side table of a flow as a map from key to JSON text.
pub open spec fn kv_map(kv: Seq<MetaEntry>) -> Map<Seq<char>, Seq<char>> {
    Map::new(
        |k: Seq<char>| kv_has(kv, k),
        |k: Seq<char>| kv[choose|i: int| 0 <= i < kv.len() && #[trigger] kv[i].key@ == k].value@,
    )
}

proof fn lemma_kv_at(kv: Seq<MetaEntry>, i: int)
    requires
        kv_keys_unique(kv),
        0 <= i < kv.len(),
    ensures
        kv_map(kv).contains_key(kv[i].key@),
        kv_map(kv)[kv[i].key@] == kv[i].value@,
{
    let k = kv[i].key@;
    assert(kv[i].key@ == k);
    let j = choose|j: int| 0 <= j < kv.len() && #[trigger] kv[j].key@ == k;
    assert(j == i);
}

/// The snapshots of a flow whose cursor is at most `k`, in stored order.
pub open spec fn snapshots_upto(s: Seq<SnapshotMeta>, k: i64) -> Seq<SnapshotMeta> {
    s.filter(|x: SnapshotMeta| x.cursor <= k)
}

/// The payload of the marker record of a branch of `parent`.
pub open spec fn marker_payload(parent: u128) -> Seq<char> {
    "{\"parent\":\""@ + uuid_text_of(parent) + "\"}"@
}

/// The records of a flow, or none for an unknown flow.
pub open spec fn records_of(s: Seq<FlowEntry>, id: u128) -> Seq<FlowData> {
    if has_flow(s, id) {
        flow_at(s, id).records@
    } else {
        Seq::empty()
    }
}

/// The snapshots of a flow, or none for an unknown flow.
pub open spec fn snapshots_of(s: Seq<FlowEntry>, id: u128) -> Seq<SnapshotMeta> {
    if has_flow(s, id) {
        flow_at(s, id).snapshots@
    } else {
        Seq::empty()
    }
}

/// `m` is the metadata of a branch `new_id` of `parent` at cursor `k`, made in
/// store `s`: a copy of the parent's metadata with the overrides applied, or,
/// for an unknown parent, a fresh one with default name and status.
pub open spec fn is_branch_meta(
    s: Seq<FlowEntry>,
    m: FlowMeta,
    new_id: u128,
    created_at: i64,
    parent: u128,
    name: Option<String>,
    status: Option<String>,
    k: i64,
    metadata: String,
) -> bool {
    &&& m.id == new_id
    &&& m.current_cursor == k
    &&& m.current_version == 0
    &&& m.parent_flow_id == Some(parent)
    &&& m.parent_cursor == Some(k)
    &&& if has_flow(s, parent) {
        let pm = flow_at(s, parent).meta;
        &&& m.name == (if name is Some { name } else { pm.name })
        &&& m.status == (if status is Some { status } else { pm.status })
        &&& m.created_by == pm.created_by
        &&& m.created_at == pm.created_at
        &&& m.metadata == (if is_empty_object_text(metadata@) { pm.metadata } else { metadata })
    } else {
        &&& (if name is Some { m.name == name } else { m.name matches Some(x) && x@ == "branch-of-"@ + uuid_text_of(parent) })
        &&& (if status is Some { m.status == status } else { m.status matches Some(x) && x@ == "queued"@ })
        &&& m.created_by is None
        &&& m.created_at == created_at
        &&& m.metadata == metadata
    }
}

/// `r` holds the parent's records up to `k`, copied into flow `new_id`,
/// followed by the branch marker at `k + 1`.
pub open spec fn is_branch_records(parent_records: Seq<FlowData>, r: Seq<FlowData>, new_id: u128, parent: u128, k: i64) -> bool {
    let up = records_upto(parent_records, k);
    &&& r.len() == up.len() + 1
    &&& forall|i: int| 0 <= i < up.len() ==> is_clone_of(up[i], #[trigger] r[i], new_id)
    &&& r.last().flow_id == new_id
    &&& r.last().cursor == k + 1
    &&& r.last().key@ == branch_marker_key()
    &&& r.last().payload@ == marker_payload(parent)
    &&& r.last().metadata@ == "{}"@
    &&& r.last().command_id is None
}

/// `r` holds the parent's snapshots up to `k`, copied into flow `new_id`.
pub open spec fn is_branch_snapshots(parent_snapshots: Seq<SnapshotMeta>, r: Seq<SnapshotMeta>, new_id: u128, k: i64) -> bool {
    let up = snapshots_upto(parent_snapshots, k);
    &&& r.len() == up.len()
    &&& forall|i: int| 0 <= i < up.len() ==> is_snapshot_clone_of(up[i], #[trigger] r[i], new_id)
}

/// `e` with its parent link cleared.
pub open spec fn orphaned(e: FlowEntry) -> FlowEntry {
    FlowEntry { meta: FlowMeta { parent_flow_id: None, parent_cursor: None, ..e.meta }, ..e }
}

/// `e` after the flows in `dead` are removed: orphaned if its parent is one.
pub open spec fn after_removal(e: FlowEntry, dead: Set<u128>) -> FlowEntry {
    if e.meta.parent_flow_id matches Some(p) && dead.contains(p) {
        orphaned(e)
    } else {
        e
    }
}

/// `new` is `old` without the flows in `dead`, their children orphaned.
pub open spec fn removed(old: Seq<FlowEntry>, new: Seq<FlowEntry>, dead: Set<u128>) -> bool {
    forall|g: u128|
        (#[trigger] has_flow(new, g) <==> has_flow(old, g) && !dead.contains(g)) && (has_flow(new, g)
            ==> flow_at(new, g) == after_removal(flow_at(old, g), dead))
}

/// `g` is a child of `f` forked at or after cursor `from`.
pub open spec fn is_pruned_child(s: Seq<FlowEntry>, f: u128, from: i64, g: u128) -> bool {
    &&& has_flow(s, g)
    &&& flow_at(s, g).meta.parent_flow_id == Some(f)
    &&& flow_at(s, g).meta.parent_cursor matches Some(pc) && pc >= from
}

pub open spec fn pruned_children(s: Seq<FlowEntry>, f: u128, from: i64) -> Set<u128> {
    Set::new(|g: u128| is_pruned_child(s, f, from, g))
}

spec fn seen(s: Seq<FlowEntry>, i: int, g: u128) -> bool {
    exists|j: int| 0 <= j < i && #[trigger] s[j].meta.id == g
}

/// Filtering keeps command ids distinct.
pub proof fn lemma_filter_commands(s: Seq<FlowData>, p: spec_fn(FlowData) -> bool)
    requires
        commands_unique(s),
    ensures
        commands_unique(s.filter(p)),
    decreases s.len(),
{
    reveal(Seq::filter);
    if s.len() > 0 {
        let t = s.drop_last();
        assert(commands_unique(t)) by {
            assert forall|i: int, j: int| 0 <= i < j < t.len() && t[i].command_id is Some implies t[i].command_id
                != t[j].command_id by {
                assert(t[i] == s[i] && t[j] == s[j]);
            }
        }
        lemma_filter_commands(t, p);
        let ft = t.filter(p);
        if p(s.last()) {
            let fs = ft.push(s.last());
            assert(s.filter(p) == fs);
            assert forall|i: int, j: int| 0 <= i < j < fs.len() && fs[i].command_id is Some implies fs[i].command_id
                != fs[j].command_id by {
                if j == fs.len() - 1 {
                    assert(ft.contains(ft[i]));
                    t.lemma_filter_contains_rev(p, ft[i]);
                    let x = choose|x: int| 0 <= x < t.len() && t[x] == ft[i];
                    assert(s[x] == t[x]);
                    assert(s[s.len() - 1] == s.last());
                } else {
                    assert(fs[i] == ft[i] && fs[j] == ft[j]);
                }
            }
        } else {
            assert(s.filter(p) == ft);
        }
    }
}

/// Filtering keeps records ordered.
pub proof fn lemma_filter_ordered(s: Seq<FlowData>, p: spec_fn(FlowData) -> bool)
    requires
        records_ordered(s),
    ensures
        records_ordered(s.filter(p)),
    decreases s.len(),
{
    reveal(Seq::filter);
    if s.len() > 0 {
        let t = s.drop_last();
        assert(records_ordered(t)) by {
            assert forall|i: int, j: int| 0 <= i < j < t.len() implies t[i].cursor < t[j].cursor || (t[i].cursor
                == t[j].cursor && is_branch_marker(t[i])) by {
                assert(t[i] == s[i] && t[j] == s[j]);
            }
        }
        lemma_filter_ordered(t, p);
        let ft = t.filter(p);
        if p(s.last()) {
            let fs = ft.push(s.last());
            assert(s.filter(p) == fs);
            assert forall|i: int, j: int| 0 <= i < j < fs.len() implies fs[i].cursor < fs[j].cursor || (fs[i].cursor
                == fs[j].cursor && is_branch_marker(fs[i])) by {
                if j == fs.len() - 1 {
                    assert(ft.contains(ft[i]));
                    t.lemma_filter_contains_rev(p, ft[i]);
                    let x = choose|x: int| 0 <= x < t.len() && t[x] == ft[i];
                    assert(s[x] == t[x]);
                    assert(s[s.len() - 1] == s.last());
                } else {
                    assert(fs[i] == ft[i] && fs[j] == ft[j]);
                }
            }
        } else {
            assert(s.filter(p) == ft);
        }
    }
}

/// What `persist_data(data, expected_version)` does to store `old`, giving
/// `new` and result `r`.
pub open spec fn persist_outcome(
    old: Seq<FlowEntry>,
    new: Seq<FlowEntry>,
    data: FlowData,
    expected_version: i64,
    r: Result<PersistResult, FlowError>,
) -> bool {
    if !has_flow(old, data.flow_id) {
        r matches Err(FlowError::NotFound(_)) && new == old
    } else {
        let e = flow_at(old, data.flow_id);
        if e.meta.current_version != expected_version {
            r == Ok::<PersistResult, FlowError>(PersistResult::Conflict) && new == old
        } else if data.command_id matches Some(c) && has_command(e.records@, c) {
            r == Ok::<PersistResult, FlowError>(PersistResult::Persisted { new_version: e.meta.current_version })
                && new == old
        } else if data.cursor <= e.meta.current_cursor {
            r matches Err(FlowError::Conflict(_)) && new == old
        } else {
            &&& r == Ok::<PersistResult, FlowError>(
                PersistResult::Persisted { new_version: next_version(e.meta.current_version) },
            )
            &&& has_flow(new, data.flow_id)
            &&& appended(e, flow_at(new, data.flow_id), data)
            &&& others_same(old, new, data.flow_id)
        }
    }
}

/// Some snapshot of the store has id `id`.
pub open spec fn snapshot_id_used(s: Seq<FlowEntry>, id: u128) -> bool {
    exists|i: int, j: int| 0 <= i < s.len() && 0 <= j < s[i].snapshots@.len() && #[trigger] s[i].snapshots@[j].id == id
}

/// What `save_snapshot(flow_id, cursor, state_ptr, metadata)` does to store
/// `old`, giving `new` and result `r`: the snapshot goes last among the
/// flow's snapshots, under an id no snapshot had.
pub open spec fn save_outcome(
    old: Seq<FlowEntry>,
    new: Seq<FlowEntry>,
    flow_id: u128,
    cursor: i64,
    state_ptr: Seq<char>,
    metadata: String,
    r: Result<u128, FlowError>,
) -> bool {
    if !has_flow(old, flow_id) {
        r matches Err(FlowError::NotFound(_)) && new == old
    } else {
        match r {
            Err(e) => e is Storage && new == old,
            Ok(id) => {
                let e = flow_at(old, flow_id);
                let n = flow_at(new, flow_id);
                let sn = n.snapshots@.last();
                &&& !snapshot_id_used(old, id)
                &&& has_flow(new, flow_id)
                &&& n.snapshots@ == e.snapshots@.push(sn)
                &&& sn.id == id && sn.flow_id == flow_id && sn.cursor == cursor && sn.state_ptr@ == state_ptr
                &&& sn.metadata == metadata
                &&& n.meta == e.meta && n.records@ == e.records@ && n.kv@ == e.kv@
                &&& others_same(old, new, flow_id)
            },
        }
    }
}

/// What `save_snapshot_with_id(flow_id, id, created_at, cursor, state_ptr,
/// metadata)` does to store `old`, giving `new` and result `r`.
pub open spec fn save_with_id_outcome(
    old: Seq<FlowEntry>,
    new: Seq<FlowEntry>,
    flow_id: u128,
    id: u128,
    created_at: i64,
    cursor: i64,
    state_ptr: Seq<char>,
    metadata: String,
    r: Result<u128, FlowError>,
) -> bool {
    if !has_flow(old, flow_id) {
        r matches Err(FlowError::NotFound(_)) && new == old
    } else if snapshot_id_used(old, id) {
        r matches Err(FlowError::Storage(_)) && new == old
    } else {
        &&& r == Ok::<u128, FlowError>(id)
        &&& save_outcome(old, new, flow_id, cursor, state_ptr, metadata, r)
        &&& flow_at(new, flow_id).snapshots@.last().created_at == created_at
    }
}

/// What `delete_from_step(flow_id, from)` does to store `old`, giving `new`.
pub open spec fn prune_outcome(old: Seq<FlowEntry>, new: Seq<FlowEntry>, flow_id: u128, from: i64) -> bool {
    let dead = pruned_children(old, flow_id, from);
    let e = flow_at(old, flow_id);
    let n = flow_at(new, flow_id);
    &&& has_flow(new, flow_id)
    &&& n.records@ == records_before(e.records@, from)
    &&& n.meta == after_removal(e, dead).meta
    &&& n.snapshots@ == e.snapshots@
    &&& n.kv@ == e.kv@
    &&& forall|g: u128| g != flow_id ==> (#[trigger] has_flow(new, g) <==> has_flow(old, g) && !dead.contains(g))
    &&& forall|g: u128| g != flow_id && #[trigger] has_flow(new, g) ==> flow_at(new, g) == after_removal(
        flow_at(old, g),
        dead,
    )
}

/// What `create_branch_with_id(new_id, created_at, parent, name, status, k,
/// metadata)` leaves in store `new` for the new flow, made from store `old`.
pub open spec fn branch_outcome(
    old: Seq<FlowEntry>,
    new: Seq<FlowEntry>,
    new_id: u128,
    created_at: i64,
    parent: u128,
    name: Option<String>,
    status: Option<String>,
    k: i64,
    metadata: String,
) -> bool {
    let n = flow_at(new, new_id);
    &&& has_flow(new, new_id)
    &&& is_branch_meta(old, n.meta, new_id, created_at, parent, name, status, k, metadata)
    &&& is_branch_records(records_of(old, parent), n.records@, new_id, parent, k)
    &&& records_upto(n.records@, k).map_values(|d: FlowData| record_content(d)) == records_upto(
        records_of(old, parent),
        k,
    ).map_values(|d: FlowData| record_content(d))
    &&& is_branch_snapshots(snapshots_of(old, parent), n.snapshots@, new_id, k)
    &&& n.kv@.len() == 0
    &&& others_same(old, new, new_id)
}

pub proof fn lemma_flow_at(s: Seq<FlowEntry>, i: int)
    requires
        ids_unique(s),
        0 <= i < s.len(),
    ensures
        has_flow(s, s[i].meta.id),
        flow_at(s, s[i].meta.id) == s[i],
{
    let id = s[i].meta.id;
    assert(s[i].meta.id == id);
    let j = choose|j: int| 0 <= j < s.len() && #[trigger] s[j].meta.id == id;
    assert(j == i);
}

proof fn lemma_update(s: Seq<FlowEntry>, i: int, e: FlowEntry)
    requires
        ids_unique(s),
        0 <= i < s.len(),
        e.meta.id == s[i].meta.id,
    ensures
        ids_unique(s.update(i, e)),
        has_flow(s.update(i, e), e.meta.id),
        flow_at(s.update(i, e), e.meta.id) == e,
        others_same(s, s.update(i, e), e.meta.id),
{
    let t = s.update(i, e);
    lemma_flow_at(t, i);
    assert forall|g: u128| g != e.meta.id implies (#[trigger] has_flow(t, g) <==> has_flow(s, g))
        && (has_flow(s, g) ==> flow_at(t, g) == flow_at(s, g)) by {
        if has_flow(s, g) {
            let j = choose|j: int| 0 <= j < s.len() && #[trigger] s[j].meta.id == g;
            lemma_flow_at(s, j);
            lemma_flow_at(t, j);
        }
        if has_flow(t, g) {
            let j = choose|j: int| 0 <= j < t.len() && #[trigger] t[j].meta.id == g;
            assert(s[j].meta.id == g);
        }
    }
}

proof fn lemma_push(s: Seq<FlowEntry>, e: FlowEntry)
    requires
        ids_unique(s),
        !has_flow(s, e.meta.id),
    ensures
        ids_unique(s.push(e)),
        has_flow(s.push(e), e.meta.id),
        flow_at(s.push(e), e.meta.id) == e,
        others_same(s, s.push(e), e.meta.id),
{
    let t = s.push(e);
    assert forall|i: int, j: int|
        0 <= i < t.len() && 0 <= j < t.len() && i != j implies t[i].meta.id != t[j].meta.id by {
        if i == s.len() {
            assert(s[j].meta.id == t[j].meta.id);
        } else if j == s.len() {
            assert(s[i].meta.id == t[i].meta.id);
        }
    }
    lemma_flow_at(t, s.len() as int);
    assert forall|g: u128| g != e.meta.id implies (#[trigger] has_flow(t, g) <==> has_flow(s, g))
        && (has_flow(s, g) ==> flow_at(t, g) == flow_at(s, g)) by {
        if has_flow(s, g) {
            let j = choose|j: int| 0 <= j < s.len() && #[trigger] s[j].meta.id == g;
            lemma_flow_at(s, j);
            lemma_flow_at(t, j);
        }
        if has_flow(t, g) {
            let j = choose|j: int| 0 <= j < t.len() && #[trigger] t[j].meta.id == g;
            assert(s[j].meta.id == g);
        }
    }
    assert(others_same(s, t, e.meta.id));
}

impl InMemoryFlowRepository {
    pub open spec fn wf(&self) -> bool {
        store_wf(self@)
    }

    /// An empty store.
    pub fn new() -> (r: Self)
        ensures
            r.wf(),
            r@.len() == 0,
    {
        InMemoryFlowRepository { flows: Vec::new() }
    }

    /// How many snapshots of flow `flow_id` have a cursor at most `k` (0 for
    /// an unknown flow).
    pub fn count_snapshots_upto(&self, flow_id: u128, k: i64) -> (r: usize)
        requires
            self.wf(),
        ensures
            r == branch_snapshot_count(self@, flow_id, k),
    {
        let i = match self.index_of(flow_id) {
            Some(i) => i,
            None => {
                proof {
                    reveal(Seq::filter);
                }
                return 0;
            },
        };
        let ss = &self.flows[i].snapshots;
        let mut cnt: usize = 0;
        let mut j: usize = 0;
        while j < ss.len()
            invariant
                j <= ss@.len(),
                cnt <= j,
                cnt == snapshots_upto(ss@.take(j as int), k).len(),
            decreases ss@.len() - j,
        {
            proof {
                assert(ss@.take(j + 1) == ss@.take(j as int).push(ss@[j as int]));
                ss@.take(j as int).lemma_filter_push(ss@[j as int], |x: SnapshotMeta| x.cursor <= k);
            }
            if ss[j].cursor <= k {
                cnt = cnt + 1;
            }
            j = j + 1;
        }
        assert(ss@.take(j as int) == ss@);
        cnt
    }

    /// How many records of flow `flow_id` have a cursor at most `k` (0 for
    /// an unknown flow).
    pub fn count_records_upto(&self, flow_id: u128, k: i64) -> (r: usize)
        requires
            self.wf(),
        ensures
            r == records_upto(records_of(self@, flow_id), k).len(),
    {
        let i = match self.index_of(flow_id) {
            Some(i) => i,
            None => {
                proof {
                    reveal(Seq::filter);
                }
                return 0;
            },
        };
        let rs = &self.flows[i].records;
        let mut cnt: usize = 0;
        let mut j: usize = 0;
        while j < rs.len()
            invariant
                j <= rs@.len(),
                cnt <= j,
                cnt == records_upto(rs@.take(j as int), k).len(),
            decreases rs@.len() - j,
        {
            proof {
                assert(rs@.take(j + 1) == rs@.take(j as int).push(rs@[j as int]));
                rs@.take(j as int).lemma_filter_push(rs@[j as int], |d: FlowData| d.cursor <= k);
            }
            if rs[j].cursor <= k {
                cnt = cnt + 1;
            }
            j = j + 1;
        }
        assert(rs@.take(j as int) == rs@);
        cnt
    }

    /// Whether some record of the store has id `id`.
    fn record_id_in_use(&self, id: u128) -> (r: bool)
        ensures
            r == record_id_used(self@, id),
    {
        let mut i: usize = 0;
        while i < self.flows.len()
            invariant
                i <= self.flows@.len(),
                forall|a: int, b: int|
                    0 <= a < i && 0 <= b < self.flows@[a].records@.len() ==> (#[trigger] self.flows@[a].records@[b]).id != id,
            decreases self.flows@.len() - i,
        {
            let rs = &self.flows[i].records;
            let mut j: usize = 0;
            while j < rs.len()
                invariant
                    i < self.flows@.len(),
                    rs@ == self.flows@[i as int].records@,
                    j <= rs@.len(),
                    forall|b: int| 0 <= b < j ==> (#[trigger] rs@[b]).id != id,
                decreases rs@.len() - j,
            {
                if rs[j].id == id {
                    assert(self@[i as int].records@[j as int].id == id);
                    return true;
                }
                j = j + 1;
            }
            i = i + 1;
        }
        false
    }

    /// Whether the first `n` of `ids` are distinct and new to the store's
    /// records.
    fn record_ids_fresh(&self, ids: &Vec<u128>, n: usize) -> (r: bool)
        ensures
            r == fresh_record_ids(self@, ids@, n as int),
    {
        if n > ids.len() {
            return false;
        }
        let mut a: usize = 0;
        while a < n
            invariant
                n <= ids@.len(),
                a <= n,
                forall|x: int, y: int| 0 <= x < y < a ==> ids@[x] != ids@[y],
                forall|x: int| 0 <= x < a ==> !record_id_used(self@, #[trigger] ids@[x]),
            decreases n - a,
        {
            if self.record_id_in_use(ids[a]) {
                return false;
            }
            let mut b: usize = 0;
            while b < a
                invariant
                    a < n,
                    n <= ids@.len(),
                    b <= a,
                    forall|y: int| 0 <= y < b ==> ids@[y] != ids@[a as int],
                decreases a - b,
            {
                if ids[b] == ids[a] {
                    return false;
                }
                b = b + 1;
            }
            a = a + 1;
        }
        true
    }

    /// Whether the first `n` of `ids` are distinct and new to the store.
    fn snapshot_ids_fresh(&self, ids: &Vec<u128>, n: usize) -> (r: bool)
        requires
            self.wf(),
        ensures
            r == fresh_snapshot_ids(self@, ids@, n as int),
    {
        if n > ids.len() {
            return false;
        }
        let mut a: usize = 0;
        while a < n
            invariant
                n <= ids@.len(),
                a <= n,
                self.wf(),
                forall|x: int, y: int| 0 <= x < y < a ==> ids@[x] != ids@[y],
                forall|x: int| 0 <= x < a ==> !snapshot_id_used(self@, #[trigger] ids@[x]),
            decreases n - a,
        {
            if self.load_snapshot(ids[a]).is_ok() {
                return false;
            }
            let mut b: usize = 0;
            while b < a
                invariant
                    a < n,
                    n <= ids@.len(),
                    b <= a,
                    forall|y: int| 0 <= y < b ==> ids@[y] != ids@[a as int],
                decreases a - b,
            {
                if ids[b] == ids[a] {
                    return false;
                }
                b = b + 1;
            }
            a = a + 1;
        }
        true
    }

    fn names_as_parent(&self, id: u128) -> (r: bool)
        ensures
            r == named_as_parent(self@, id),
    {
        let mut i: usize = 0;
        while i < self.flows.len()
            invariant
                i <= self.flows@.len(),
                forall|j: int| 0 <= j < i ==> (#[trigger] self.flows@[j]).meta.parent_flow_id != Some(id),
            decreases self.flows@.len() - i,
        {
            if self.flows[i].meta.parent_flow_id == Some(id) {
                assert(self@[i as int].meta.parent_flow_id == Some(id));
                return true;
            }
            i = i + 1;
        }
        false
    }

    fn index_of(&self, id: u128) -> (r: Option<usize>)
        requires
            self.wf(),
        ensures
            match r {
                Some(i) => i < self@.len() && self@[i as int].meta.id == id && has_flow(self@, id)
                    && flow_at(self@, id) == self@[i as int],
                None => !has_flow(self@, id),
            },
    {
        let mut i: usize = 0;
        while i < self.flows.len()
            invariant
                self.wf(),
                i <= self.flows@.len(),
                forall|j: int| 0 <= j < i ==> (#[trigger] self.flows@[j]).meta.id != id,
            decreases self.flows@.len() - i,
        {
            if self.flows[i].meta.id == id {
                proof {
                    lemma_flow_at(self@, i as int);
                }
                return Some(i);
            }
            i = i + 1;
        }
        None
    }

    /// Registers a root flow under the given id, created at `created_at`.
    pub fn create_flow_with_id(
        &mut self,
        id: u128,
        created_at: i64,
        name: Option<String>,
        status: Option<String>,
        metadata: String,
    ) -> (r: Result<u128, FlowError>)
        requires
            old(self).wf(),
        ensures
            final(self).wf(),
            has_flow(old(self)@, id) ==> r is Err && final(self)@ == old(self)@,
            !has_flow(old(self)@, id) ==> {
                &&& r == Ok::<u128, FlowError>(id)
                &&& has_flow(final(self)@, id)
                &&& flow_at(final(self)@, id).meta == (FlowMeta {
                    id,
                    name,
                    status,
                    created_by: None,
                    created_at,
                    current_cursor: 0,
                    current_version: 0,
                    parent_flow_id: None,
                    parent_cursor: None,
                    metadata,
                })
                &&& flow_at(final(self)@, id).records@.len() == 0
                &&& flow_at(final(self)@, id).snapshots@.len() == 0
                &&& flow_at(final(self)@, id).kv@.len() == 0
                &&& others_same(old(self)@, final(self)@, id)
            },
    {
        if self.index_of(id).is_some() {
            return Err(FlowError::Storage("flow id already in use".to_owned()));
        }
        let meta = FlowMeta {
            id,
            name,
            status,
            created_by: None,
            created_at,
            current_cursor: 0,
            current_version: 0,
            parent_flow_id: None,
            parent_cursor: None,
            metadata,
        };
        let entry = FlowEntry { meta, records: Vec::new(), snapshots: Vec::new(), kv: Vec::new() };
        proof {
            lemma_push(self@, entry);
        }
        self.flows.push(entry);
        Ok(id)
    }

    /// Creates a root flow with cursor 0 and version 0 under a fresh random id.
    pub fn create_flow(&mut self, name: Option<String>, status: Option<String>, metadata: String) -> (r: Result<u128, FlowError>)
        requires
            old(self).wf(),
        ensures
            final(self).wf(),
            match r {
                Ok(id) => {
                    &&& !has_flow(old(self)@, id)
                    &&& has_flow(final(self)@, id)
                    &&& flow_at(final(self)@, id).meta.name == name
                    &&& flow_at(final(self)@, id).meta.id == id
                    &&& flow_at(final(self)@, id).meta.status == status
                    &&& flow_at(final(self)@, id).meta.created_by is None
                    &&& flow_at(final(self)@, id).meta.metadata == metadata
                    &&& flow_at(final(self)@, id).meta.current_cursor == 0
                    &&& flow_at(final(self)@, id).meta.current_version == 0
                    &&& flow_at(final(self)@, id).meta.parent_flow_id is None
                    &&& flow_at(final(self)@, id).meta.parent_cursor is None
                    &&& flow_at(final(self)@, id).records@.len() == 0
                    &&& flow_at(final(self)@, id).snapshots@.len() == 0
                    &&& flow_at(final(self)@, id).kv@.len() == 0
                    &&& others_same(old(self)@, final(self)@, id)
                },
                Err(_) => final(self)@ == old(self)@,
            },
    {
        let id = fresh_id();
        let created_at = now_millis();
        self.create_flow_with_id(id, created_at, name, status, metadata)
    }

    /// The metadata of a flow.
    pub fn get_flow_meta(&self, flow_id: u128) -> (r: Result<FlowMeta, FlowError>)
        requires
            self.wf(),
        ensures
            has_flow(self@, flow_id) ==> r == Ok::<FlowMeta, FlowError>(flow_at(self@, flow_id).meta),
            !has_flow(self@, flow_id) ==> r matches Err(FlowError::NotFound(_)),
    {
        match self.index_of(flow_id) {
            Some(i) => Ok(self.flows[i].meta.copy()),
            None => Err(FlowError::NotFound("flow".to_owned())),
        }
    }

    /// Whether a flow with this id exists.
    pub fn branch_exists(&self, flow_id: u128) -> (r: Result<bool, FlowError>)
        requires
            self.wf(),
        ensures
            r == Ok::<bool, FlowError>(has_flow(self@, flow_id)),
    {
        Ok(self.index_of(flow_id).is_some())
    }

    /// The ids of all flows, in creation order.
    pub fn list_flow_ids(&self) -> (r: Result<Vec<u128>, FlowError>)
        requires
            self.wf(),
        ensures
            r matches Ok(ids) && ids@ == self@.map_values(|e: FlowEntry| e.meta.id),
    {
        let mut out: Vec<u128> = Vec::new();
        let mut i: usize = 0;
        while i < self.flows.len()
            invariant
                i <= self.flows@.len(),
                out@ == self.flows@.take(i as int).map_values(|e: FlowEntry| e.meta.id),
            decreases self.flows@.len() - i,
        {
            out.push(self.flows[i].meta.id);
            i = i + 1;
            assert(self.flows@.take(i as int) == self.flows@.take(i - 1).push(self.flows@[i - 1]));
        }
        assert(self.flows@.take(i as int) == self.flows@);
        Ok(out)
    }

    /// Appends a record under optimistic concurrency control.
    ///
    /// A version mismatch is a `Conflict` value; a replayed command id is a
    /// no-op that reports the current version; a cursor that does not exceed
    /// the current cursor is a `Conflict` error.
    pub fn persist_data(&mut self, data: &FlowData, expected_version: i64) -> (r: Result<PersistResult, FlowError>)
        requires
            old(self).wf(),
        ensures
            final(self).wf(),
            persist_outcome(old(self)@, final(self)@, *data, expected_version, r),
    {
        let i = match self.index_of(data.flow_id) {
            Some(i) => i,
            None => {
                return Err(FlowError::NotFound("flow".to_owned()));
            },
        };
        let version = self.flows[i].meta.current_version;
        if version != expected_version {
            return Ok(PersistResult::Conflict);
        }
        if let Some(c) = data.command_id {
            let mut j: usize = 0;
            let n = self.flows[i].records.len();
            while j < n
                invariant
                    self@ == old(self)@,
                    self.wf(),
                    i < self.flows@.len(),
                    self.flows@[i as int].meta.current_version == expected_version,
                    version == expected_version,
                    data.command_id == Some(c),
                    flow_at(self@, data.flow_id) == self.flows@[i as int],
                    has_flow(self@, data.flow_id),
                    n == self.flows@[i as int].records@.len(),
                    j <= n,
                    forall|k: int| 0 <= k < j ==> (#[trigger] self.flows@[i as int].records@[k]).command_id != Some(c),
                decreases n - j,
            {
                if self.flows[i].records[j].command_id == Some(c) {
                    assert(has_command(self.flows@[i as int].records@, c));
                    return Ok(PersistResult::Persisted { new_version: version });
                }
                j = j + 1;
            }
        }
        assert(data.command_id matches Some(c) ==> !has_command(self.flows@[i as int].records@, c));
        if data.cursor <= self.flows[i].meta.current_cursor {
            return Err(FlowError::Conflict("cursor not greater than the current cursor".to_owned()));
        }
        let ghost old_flows = self.flows@;
        let mut e = self.flows.remove(i);
        e.records.push(data.copy());
        e.meta.current_version = if version < i64::MAX { version + 1 } else { version };
        e.meta.current_cursor = data.cursor;
        let new_version = e.meta.current_version;
        proof {
            let o = old_flows[i as int];
            assert forall|a: int, b: int| 0 <= a < b < e.records@.len() implies e.records@[a].cursor
                < e.records@[b].cursor || (e.records@[a].cursor == e.records@[b].cursor && is_branch_marker(e.records@[a])) by {
                if b == o.records@.len() {
                    assert(o.records@[a] == e.records@[a]);
                } else {
                    assert(o.records@[a] == e.records@[a]);
                    assert(o.records@[b] == e.records@[b]);
                }
            }
            assert forall|a: int| 0 <= a < e.records@.len() implies {
                let d = #[trigger] e.records@[a];
                &&& d.flow_id == e.meta.id
                &&& d.cursor >= 1
                &&& d.cursor <= e.meta.current_cursor + 1
                &&& d.cursor == e.meta.current_cursor + 1 ==> is_branch_marker(d)
            } by {
                if a < o.records@.len() {
                    assert(o.records@[a] == e.records@[a]);
                }
            }
            assert forall|a: int, b: int| 0 <= a < b < e.records@.len() && e.records@[a].command_id is Some implies
                e.records@[a].command_id != e.records@[b].command_id by {
                assert(o.records@[a] == e.records@[a]);
                if b < o.records@.len() {
                    assert(o.records@[b] == e.records@[b]);
                } else {
                    if e.records@[a].command_id == data.command_id {
                        assert(has_command(o.records@, data.command_id->0));
                    }
                }
            }
            lemma_update(old_flows, i as int, e);
        }
        self.flows.insert(i, e);
        proof {
            assert(self.flows@ =~= old_flows.update(i as int, e));
        }
        Ok(PersistResult::Persisted { new_version })
    }

    /// The records of a flow with cursor above `from_cursor`, in cursor order;
    /// empty for an unknown flow.
    pub fn read_data(&self, flow_id: u128, from_cursor: i64) -> (r: Result<Vec<FlowData>, FlowError>)
        requires
            self.wf(),
        ensures
            has_flow(self@, flow_id) ==> (r matches Ok(v) && v@ == records_after(
                flow_at(self@, flow_id).records@,
                from_cursor,
            )),
            !has_flow(self@, flow_id) ==> (r matches Ok(v) && v@.len() == 0),
    {
        let mut out: Vec<FlowData> = Vec::new();
        let i = match self.index_of(flow_id) {
            Some(i) => i,
            None => {
                return Ok(out);
            },
        };
        let recs = &self.flows[i].records;
        let mut j: usize = 0;
        while j < recs.len()
            invariant
                j <= recs@.len(),
                out@ == recs@.take(j as int).filter(|d: FlowData| d.cursor > from_cursor),
            decreases recs@.len() - j,
        {
            proof {
                assert(recs@.take(j + 1) == recs@.take(j as int).push(recs@[j as int]));
                recs@.take(j as int).lemma_filter_push(recs@[j as int], |d: FlowData| d.cursor > from_cursor);
            }
            if recs[j].cursor > from_cursor {
                out.push(recs[j].copy());
            }
            j = j + 1;
        }
        assert(recs@.take(j as int) == recs@);
        Ok(out)
    }

    /// The number of records at or below the flow's current cursor, or -1
    /// for an unknown flow.
    pub fn count_steps(&self, flow_id: u128) -> (r: Result<i64, FlowError>)
        requires
            self.wf(),
        ensures
            !has_flow(self@, flow_id) ==> r == Ok::<i64, FlowError>(-1i64),
            has_flow(self@, flow_id) && visible_steps(flow_at(self@, flow_id)) <= i64::MAX ==> r
                == Ok::<i64, FlowError>(visible_steps(flow_at(self@, flow_id)) as i64),
            has_flow(self@, flow_id) && visible_steps(flow_at(self@, flow_id)) > i64::MAX ==> r
                matches Err(FlowError::Storage(_)),
    {
        let i = match self.index_of(flow_id) {
            Some(i) => i,
            None => {
                return Ok(-1);
            },
        };
        let current = self.flows[i].meta.current_cursor;
        let recs = &self.flows[i].records;
        let mut cnt: usize = 0;
        let mut j: usize = 0;
        while j < recs.len()
            invariant
                j <= recs@.len(),
                cnt <= j,
                cnt == records_upto(recs@.take(j as int), current).len(),
            decreases recs@.len() - j,
        {
            proof {
                assert(recs@.take(j + 1) == recs@.take(j as int).push(recs@[j as int]));
                recs@.take(j as int).lemma_filter_push(recs@[j as int], |d: FlowData| d.cursor <= current);
            }
            if recs[j].cursor <= current {
                cnt = cnt + 1;
            }
            j = j + 1;
        }
        assert(recs@.take(j as int) == recs@);
        assert(cnt == visible_steps(flow_at(self@, flow_id)));
        if (cnt as u64) <= (i64::MAX as u64) {
            Ok(cnt as i64)
        } else {
            Err(FlowError::Storage("step count out of range".to_owned()))
        }
    }

    /// Whether the flow's version equals `expected_version`.
    pub fn lock_for_update(&self, flow_id: u128, expected_version: i64) -> (r: Result<bool, FlowError>)
        requires
            self.wf(),
        ensures
            has_flow(self@, flow_id) ==> r == Ok::<bool, FlowError>(
                flow_at(self@, flow_id).meta.current_version == expected_version,
            ),
            !has_flow(self@, flow_id) ==> r matches Err(FlowError::NotFound(_)),
    {
        match self.index_of(flow_id) {
            Some(i) => Ok(self.flows[i].meta.current_version == expected_version),
            None => Err(FlowError::NotFound("flow".to_owned())),
        }
    }

    /// The in-memory store keeps no work queue: nothing is ever claimable.
    pub fn claim_work(&self, worker_id: &str) -> (r: Result<Option<WorkItem>, FlowError>)
        ensures
            r matches Ok(None),
    {
        Ok(None)
    }

    /// The status of a flow; `None` for an unknown flow or an unset status.
    pub fn get_flow_status(&self, flow_id: u128) -> (r: Result<Option<String>, FlowError>)
        requires
            self.wf(),
        ensures
            has_flow(self@, flow_id) ==> r == Ok::<Option<String>, FlowError>(flow_at(self@, flow_id).meta.status),
            !has_flow(self@, flow_id) ==> r == Ok::<Option<String>, FlowError>(None),
    {
        match self.index_of(flow_id) {
            Some(i) => Ok(copy_text(&self.flows[i].meta.status)),
            None => Ok(None),
        }
    }

    /// Replaces the status of a flow and returns its updated metadata.
    pub fn set_flow_status(&mut self, flow_id: u128, new_status: Option<String>) -> (r: Result<FlowMeta, FlowError>)
        requires
            old(self).wf(),
        ensures
            final(self).wf(),
            !has_flow(old(self)@, flow_id) ==> (r matches Err(FlowError::NotFound(_)) && final(self)@ == old(self)@),
            has_flow(old(self)@, flow_id) ==> {
                let e = flow_at(old(self)@, flow_id);
                let m = FlowMeta { status: new_status, ..e.meta };
                &&& r == Ok::<FlowMeta, FlowError>(m)
                &&& has_flow(final(self)@, flow_id)
                &&& flow_at(final(self)@, flow_id) == FlowEntry { meta: m, ..e }
                &&& others_same(old(self)@, final(self)@, flow_id)
            },
    {
        let i = match self.index_of(flow_id) {
            Some(i) => i,
            None => {
                return Err(FlowError::NotFound("flow".to_owned()));
            },
        };
        let ghost old_flows = self.flows@;
        let mut e = self.flows.remove(i);
        e.meta.status = new_status;
        let m = e.meta.copy();
        proof {
            let o = old_flows[i as int];
            assert(e == FlowEntry { meta: FlowMeta { status: e.meta.status, ..o.meta }, ..o });
            lemma_update(old_flows, i as int, e);
        }
        self.flows.insert(i, e);
        proof {
            assert(self.flows@ =~= old_flows.update(i as int, e));
        }
        Ok(m)
    }

    /// Records a snapshot of flow `flow_id` taken at `cursor`, under id `id`
    /// and creation time `created_at`; refused when a snapshot already has
    /// that id.
    pub fn save_snapshot_with_id(
        &mut self,
        flow_id: u128,
        id: u128,
        created_at: i64,
        cursor: i64,
        state_ptr: &str,
        metadata: String,
    ) -> (r: Result<u128, FlowError>)
        requires
            old(self).wf(),
        ensures
            final(self).wf(),
            save_with_id_outcome(old(self)@, final(self)@, flow_id, id, created_at, cursor, state_ptr@, metadata, r),
    {
        let i = match self.index_of(flow_id) {
            Some(i) => i,
            None => {
                return Err(FlowError::NotFound("flow".to_owned()));
            },
        };
        if self.load_snapshot(id).is_ok() {
            return Err(FlowError::Storage("snapshot id already in use".to_owned()));
        }
        let sn = SnapshotMeta { id, flow_id, cursor, state_ptr: state_ptr.to_owned(), metadata, created_at };
        let ghost old_flows = self.flows@;
        let mut e = self.flows.remove(i);
        e.snapshots.push(sn);
        proof {
            let o = old_flows[i as int];
            assert forall|a: int| 0 <= a < e.snapshots@.len() implies (#[trigger] e.snapshots@[a]).flow_id == e.meta.id by {
                if a < o.snapshots@.len() {
                    assert(o.snapshots@[a] == e.snapshots@[a]);
                }
            }
            lemma_update(old_flows, i as int, e);
        }
        self.flows.insert(i, e);
        proof {
            assert(self.flows@ =~= old_flows.update(i as int, e));
        }
        Ok(id)
    }

    /// Records a snapshot of flow `flow_id` taken at `cursor`, under a fresh
    /// random id and the current time (see `save_snapshot_with_id`).
    pub fn save_snapshot(&mut self, flow_id: u128, cursor: i64, state_ptr: &str, metadata: String) -> (r: Result<u128, FlowError>)
        requires
            old(self).wf(),
        ensures
            final(self).wf(),
            save_outcome(old(self)@, final(self)@, flow_id, cursor, state_ptr@, metadata, r),
    {
        let id = fresh_id();
        let created_at = now_millis();
        self.save_snapshot_with_id(flow_id, id, created_at, cursor, state_ptr, metadata)
    }

    /// The snapshot of a flow with the greatest cursor, the most recently
    /// saved among equal cursors; `None` when there is none.
    pub fn load_latest_snapshot(&self, flow_id: u128) -> (r: Result<Option<SnapshotMeta>, FlowError>)
        requires
            self.wf(),
        ensures
            match r {
                Ok(None) => !has_flow(self@, flow_id) || flow_at(self@, flow_id).snapshots@.len() == 0,
                Ok(Some(m)) => has_flow(self@, flow_id) && exists|i: int|
                    is_latest_snapshot(flow_at(self@, flow_id).snapshots@, i) && m
                        == flow_at(self@, flow_id).snapshots@[i],
                Err(_) => false,
            },
    {
        let i = match self.index_of(flow_id) {
            Some(i) => i,
            None => {
                return Ok(None);
            },
        };
        let snaps = &self.flows[i].snapshots;
        if snaps.len() == 0 {
            return Ok(None);
        }
        let mut best: usize = 0;
        let mut j: usize = 1;
        while j < snaps.len()
            invariant
                1 <= j <= snaps@.len(),
                best < j,
                forall|k: int|
                    0 <= k < j ==> (#[trigger] snaps@[k]).cursor < snaps@[best as int].cursor || (
                    snaps@[k].cursor == snaps@[best as int].cursor && k <= best),
            decreases snaps@.len() - j,
        {
            if snaps[j].cursor >= snaps[best].cursor {
                best = j;
            }
            j = j + 1;
        }
        assert(is_latest_snapshot(snaps@, best as int));
        Ok(Some(snaps[best].copy()))
    }

    /// A snapshot by id: its state pointer text and its metadata.
    pub fn load_snapshot(&self, snapshot_id: u128) -> (r: Result<(String, SnapshotMeta), FlowError>)
        requires
            self.wf(),
        ensures
            match r {
                Ok((state, m)) => {
                    &&& m.id == snapshot_id
                    &&& state@ == m.state_ptr@
                    &&& exists|i: int, j: int|
                        0 <= i < self@.len() && 0 <= j < self@[i].snapshots@.len() && #[trigger] self@[i].snapshots@[j]
                            == m
                },
                Err(e) => {
                    &&& e is NotFound
                    &&& forall|i: int, j: int|
                        0 <= i < self@.len() && 0 <= j < self@[i].snapshots@.len() ==> (#[trigger] self@[i].snapshots@[j]).id
                            != snapshot_id
                },
            },
    {
        let mut i: usize = 0;
        while i < self.flows.len()
            invariant
                i <= self.flows@.len(),
                forall|a: int, b: int|
                    0 <= a < i && 0 <= b < self.flows@[a].snapshots@.len() ==> (#[trigger] self.flows@[a].snapshots@[b]).id
                        != snapshot_id,
            decreases self.flows@.len() - i,
        {
            let snaps = &self.flows[i].snapshots;
            let mut j: usize = 0;
            while j < snaps.len()
                invariant
                    i < self.flows@.len(),
                    snaps@ == self.flows@[i as int].snapshots@,
                    j <= snaps@.len(),
                    forall|a: int, b: int|
                        0 <= a < i && 0 <= b < self.flows@[a].snapshots@.len() ==> (#[trigger] self.flows@[a].snapshots@[b]).id
                            != snapshot_id,
                    forall|b: int| 0 <= b < j ==> (#[trigger] snaps@[b]).id != snapshot_id,
                decreases snaps@.len() - j,
            {
                if snaps[j].id == snapshot_id {
                    let m = snaps[j].copy();
                    let state = m.state_ptr.clone();
                    assert(self@[i as int].snapshots@[j as int] == m);
                    return Ok((state, m));
                }
                j = j + 1;
            }
            i = i + 1;
        }
        Err(FlowError::NotFound("snapshot".to_owned()))
    }

    fn kv_index(kv: &Vec<MetaEntry>, key: &str) -> (r: Option<usize>)
        requires
            kv_keys_unique(kv@),
        ensures
            match r {
                Some(i) => i < kv@.len() && kv@[i as int].key@ == key@ && kv_map(kv@).contains_key(key@)
                    && kv_map(kv@)[key@] == kv@[i as int].value@,
                None => !kv_has(kv@, key@),
            },
    {
        let k = key.to_owned();
        let mut i: usize = 0;
        while i < kv.len()
            invariant
                kv_keys_unique(kv@),
                k@ == key@,
                i <= kv@.len(),
                forall|j: int| 0 <= j < i ==> (#[trigger] kv@[j]).key@ != key@,
            decreases kv@.len() - i,
        {
            if kv[i].key == k {
                proof {
                    lemma_kv_at(kv@, i as int);
                }
                return Some(i);
            }
            i = i + 1;
        }
        None
    }

    /// The JSON text stored under `key` for a flow, or `null` when unset.
    pub fn get_meta(&self, flow_id: u128, key: &str) -> (r: Result<String, FlowError>)
        requires
            self.wf(),
        ensures
            !has_flow(self@, flow_id) ==> r matches Err(FlowError::NotFound(_)),
            has_flow(self@, flow_id) ==> {
                let m = kv_map(flow_at(self@, flow_id).kv@);
                r matches Ok(v) && v@ == (if m.contains_key(key@) {
                    m[key@]
                } else {
                    "null"@
                })
            },
    {
        let i = match self.index_of(flow_id) {
            Some(i) => i,
            None => {
                return Err(FlowError::NotFound("flow".to_owned()));
            },
        };
        match Self::kv_index(&self.flows[i].kv, key) {
            Some(j) => Ok(self.flows[i].kv[j].value.clone()),
            None => {
                proof {
                    reveal_strlit("null");
                }
                Ok("null".to_owned())
            },
        }
    }

    /// Stores the JSON text `value` under `key` for a flow (last write wins).
    pub fn set_meta(&mut self, flow_id: u128, key: &str, value: String) -> (r: Result<(), FlowError>)
        requires
            old(self).wf(),
        ensures
            final(self).wf(),
            !has_flow(old(self)@, flow_id) ==> (r matches Err(FlowError::NotFound(_)) && final(self)@ == old(self)@),
            has_flow(old(self)@, flow_id) ==> {
                let e = flow_at(old(self)@, flow_id);
                let n = flow_at(final(self)@, flow_id);
                &&& r is Ok
                &&& has_flow(final(self)@, flow_id)
                &&& kv_map(n.kv@) == kv_map(e.kv@).insert(key@, value@)
                &&& n.meta == e.meta && n.records@ == e.records@ && n.snapshots@ == e.snapshots@
                &&& others_same(old(self)@, final(self)@, flow_id)
            },
    {
        let i = match self.index_of(flow_id) {
            Some(i) => i,
            None => {
                return Err(FlowError::NotFound("flow".to_owned()));
            },
        };
        let ghost old_flows = self.flows@;
        let mut e = self.flows.remove(i);
        let ghost okv = e.kv@;
        let entry = MetaEntry { key: key.to_owned(), value };
        match Self::kv_index(&e.kv, key) {
            Some(j) => {
                e.kv.set(j, entry);
                proof {
                    assert forall|a: int, b: int|
                        0 <= a < e.kv@.len() && 0 <= b < e.kv@.len() && a != b implies e.kv@[a].key@
                        != e.kv@[b].key@ by {
                        if a != j && b != j {
                            assert(okv[a] == e.kv@[a] && okv[b] == e.kv@[b]);
                        } else if a == j {
                            assert(okv[b] == e.kv@[b]);
                        } else {
                            assert(okv[a] == e.kv@[a]);
                        }
                    }
                    assert forall|k: Seq<char>| #[trigger] kv_map(e.kv@).contains_key(k) == kv_map(okv).insert(key@, value@).contains_key(k)
                        && (kv_map(e.kv@).contains_key(k) ==> kv_map(e.kv@)[k] == kv_map(okv).insert(key@, value@)[k]) by {
                        if kv_has(e.kv@, k) {
                            let a = choose|a: int| 0 <= a < e.kv@.len() && #[trigger] e.kv@[a].key@ == k;
                            lemma_kv_at(e.kv@, a);
                            if a != j {
                                assert(okv[a] == e.kv@[a]);
                                lemma_kv_at(okv, a);
                            }
                        }
                        if kv_has(okv, k) {
                            let a = choose|a: int| 0 <= a < okv.len() && #[trigger] okv[a].key@ == k;
                            if a != j {
                                assert(okv[a] == e.kv@[a]);
                            } else {
                                assert(e.kv@[a].key@ == key@);
                            }
                        }
                        if k == key@ {
                            lemma_kv_at(e.kv@, j as int);
                        }
                    }
                    assert(kv_map(e.kv@) =~= kv_map(okv).insert(key@, value@));
                }
            },
            None => {
                e.kv.push(entry);
                proof {
                    assert forall|a: int, b: int|
                        0 <= a < e.kv@.len() && 0 <= b < e.kv@.len() && a != b implies e.kv@[a].key@
                        != e.kv@[b].key@ by {
                        if a < okv.len() && b < okv.len() {
                            assert(okv[a] == e.kv@[a] && okv[b] == e.kv@[b]);
                        } else if a < okv.len() {
                            assert(okv[a] == e.kv@[a]);
                            assert(okv[a].key@ == e.kv@[a].key@);
                        } else {
                            assert(okv[b] == e.kv@[b]);
                            assert(okv[b].key@ == e.kv@[b].key@);
                        }
                    }
                    let last = okv.len() as int;
                    assert forall|k: Seq<char>| #[trigger] kv_map(e.kv@).contains_key(k) == kv_map(okv).insert(key@, value@).contains_key(k)
                        && (kv_map(e.kv@).contains_key(k) ==> kv_map(e.kv@)[k] == kv_map(okv).insert(key@, value@)[k]) by {
                        if kv_has(e.kv@, k) {
                            let a = choose|a: int| 0 <= a < e.kv@.len() && #[trigger] e.kv@[a].key@ == k;
                            lemma_kv_at(e.kv@, a);
                            if a != last {
                                assert(okv[a] == e.kv@[a]);
                                lemma_kv_at(okv, a);
                            }
                        }
                        if kv_has(okv, k) {
                            let a = choose|a: int| 0 <= a < okv.len() && #[trigger] okv[a].key@ == k;
                            assert(okv[a] == e.kv@[a]);
                        }
                        if k == key@ {
                            lemma_kv_at(e.kv@, last);
                        }
                    }
                    assert(kv_map(e.kv@) =~= kv_map(okv).insert(key@, value@));
                }
            },
        }
        proof {
            let o = old_flows[i as int];
            assert(e.meta == o.meta);
            lemma_update(old_flows, i as int, e);
        }
        self.flows.insert(i, e);
        proof {
            assert(self.flows@ =~= old_flows.update(i as int, e));
        }
        Ok(())
    }

    /// Removes `key` from a flow's side table.
    pub fn del_meta(&mut self, flow_id: u128, key: &str) -> (r: Result<(), FlowError>)
        requires
            old(self).wf(),
        ensures
            final(self).wf(),
            !has_flow(old(self)@, flow_id) ==> (r matches Err(FlowError::NotFound(_)) && final(self)@ == old(self)@),
            has_flow(old(self)@, flow_id) ==> {
                let e = flow_at(old(self)@, flow_id);
                let n = flow_at(final(self)@, flow_id);
                &&& r is Ok
                &&& has_flow(final(self)@, flow_id)
                &&& kv_map(n.kv@) == kv_map(e.kv@).remove(key@)
                &&& n.meta == e.meta && n.records@ == e.records@ && n.snapshots@ == e.snapshots@
                &&& others_same(old(self)@, final(self)@, flow_id)
            },
    {
        let i = match self.index_of(flow_id) {
            Some(i) => i,
            None => {
                return Err(FlowError::NotFound("flow".to_owned()));
            },
        };
        let ghost old_flows = self.flows@;
        let mut e = self.flows.remove(i);
        let ghost okv = e.kv@;
        match Self::kv_index(&e.kv, key) {
            Some(j) => {
                e.kv.remove(j);
                proof {
                    assert forall|a: int| 0 <= a < e.kv@.len() implies #[trigger] e.kv@[a] == okv[if a < j { a } else { a + 1 }] by {}
                    assert forall|a: int, b: int|
                        0 <= a < e.kv@.len() && 0 <= b < e.kv@.len() && a != b implies e.kv@[a].key@
                        != e.kv@[b].key@ by {
                        let a2 = if a < j { a } else { a + 1 };
                        let b2 = if b < j { b } else { b + 1 };
                        assert(e.kv@[a] == okv[a2] && e.kv@[b] == okv[b2]);
                    }
                    assert forall|k: Seq<char>| #[trigger] kv_map(e.kv@).contains_key(k) == kv_map(okv).remove(key@).contains_key(k)
                        && (kv_map(e.kv@).contains_key(k) ==> kv_map(e.kv@)[k] == kv_map(okv).remove(key@)[k]) by {
                        if kv_has(e.kv@, k) {
                            let a = choose|a: int| 0 <= a < e.kv@.len() && #[trigger] e.kv@[a].key@ == k;
                            let a2 = if a < j { a } else { a + 1 };
                            assert(e.kv@[a] == okv[a2]);
                            lemma_kv_at(e.kv@, a);
                            lemma_kv_at(okv, a2);
                        }
                        if kv_has(okv, k) && k != key@ {
                            let a = choose|a: int| 0 <= a < okv.len() && #[trigger] okv[a].key@ == k;
                            assert(a != j);
                            let a2 = if a < j { a } else { a - 1 };
                            assert(e.kv@[a2] == okv[a]);
                        }
                    }
                    assert(kv_map(e.kv@) =~= kv_map(okv).remove(key@));
                }
            },
            None => {
                proof {
                    assert(kv_map(e.kv@) =~= kv_map(okv).remove(key@));
                }
            },
        }
        proof {
            lemma_update(old_flows, i as int, e);
        }
        self.flows.insert(i, e);
        proof {
            assert(self.flows@ =~= old_flows.update(i as int, e));
        }
        Ok(())
    }

    /// Forks flow `parent_flow_id` at `parent_cursor` into a new flow `new_id`.
    ///
    /// The branch copies the parent's records and snapshots up to the cursor
    /// (under new ids), starts at version 0 with its cursor at
    /// `parent_cursor`, and ends with a `BranchCreated` marker at
    /// `parent_cursor + 1`, which the cursor does not cover. An unknown parent
    /// gives an empty branch with default name and status.
    pub fn create_branch_with_id(
        &mut self,
        new_id: u128,
        created_at: i64,
        record_ids: &Vec<u128>,
        snapshot_ids: &Vec<u128>,
        parent_flow_id: u128,
        name: Option<String>,
        status: Option<String>,
        parent_cursor: i64,
        metadata: String,
    ) -> (r: Result<u128, FlowError>)
        requires
            old(self).wf(),
            parent_cursor < i64::MAX,
        ensures
            final(self).wf(),
            branch_id_refused(old(self)@, new_id, parent_flow_id) ==> (r matches Err(FlowError::Storage(_))
                && final(self)@ == old(self)@),
            !branch_id_refused(old(self)@, new_id, parent_flow_id) && parent_cursor < 0 ==> (r matches Err(
                FlowError::Conflict(_),
            ) && final(self)@ == old(self)@),
            !branch_id_refused(old(self)@, new_id, parent_flow_id) && parent_cursor >= 0 && !branch_ids_fit(
                old(self)@,
                parent_flow_id,
                parent_cursor,
                record_ids@,
                snapshot_ids@,
            ) ==> (r matches Err(FlowError::Storage(_)) && final(self)@ == old(self)@),
            !branch_id_refused(old(self)@, new_id, parent_flow_id) && parent_cursor >= 0 && branch_ids_fit(
                old(self)@,
                parent_flow_id,
                parent_cursor,
                record_ids@,
                snapshot_ids@,
            ) ==> {
                &&& r == Ok::<u128, FlowError>(new_id)
                &&& branch_outcome(old(self)@, final(self)@, new_id, created_at, parent_flow_id, name, status, parent_cursor, metadata)
                &&& forall|i: int| 0 <= i < flow_at(final(self)@, new_id).snapshots@.len() ==>
                    (#[trigger] flow_at(final(self)@, new_id).snapshots@[i]).id == snapshot_ids@[i]
                &&& forall|i: int| 0 <= i < flow_at(final(self)@, new_id).records@.len() ==>
                    (#[trigger] flow_at(final(self)@, new_id).records@[i]).id == record_ids@[i]
            },
    {
        if new_id == parent_flow_id || self.index_of(new_id).is_some() || self.names_as_parent(new_id) {
            return Err(FlowError::Storage("flow id already in use".to_owned()));
        }
        if parent_cursor < 0 {
            return Err(FlowError::Conflict("negative branch cursor".to_owned()));
        }
        let needed = self.count_snapshots_upto(parent_flow_id, parent_cursor);
        let copies = self.count_records_upto(parent_flow_id, parent_cursor);
        if !self.snapshot_ids_fresh(snapshot_ids, needed) || copies >= record_ids.len() || !self.record_ids_fresh(
            record_ids,
            copies + 1,
        ) {
            return Err(FlowError::Storage("record or snapshot id already in use".to_owned()));
        }
        let k = parent_cursor;
        let pidx = self.index_of(parent_flow_id);
        let meta = match pidx {
            Some(p) => {
                let pm = &self.flows[p].meta;
                let empty = is_empty_json_object(metadata.as_str());
                FlowMeta {
                    id: new_id,
                    name: match name {
                        Some(x) => Some(x),
                        None => copy_text(&pm.name),
                    },
                    status: match status {
                        Some(x) => Some(x),
                        None => copy_text(&pm.status),
                    },
                    created_by: copy_text(&pm.created_by),
                    created_at: pm.created_at,
                    current_cursor: k,
                    current_version: 0,
                    parent_flow_id: Some(parent_flow_id),
                    parent_cursor: Some(k),
                    metadata: if empty {
                        pm.metadata.clone()
                    } else {
                        metadata
                    },
                }
            },
            None => {
                let u = uuid_text(parent_flow_id);
                FlowMeta {
                    id: new_id,
                    name: match name {
                        Some(x) => Some(x),
                        None => Some(join_text("branch-of-", u.as_str())),
                    },
                    status: match status {
                        Some(x) => Some(x),
                        None => Some("queued".to_owned()),
                    },
                    created_by: None,
                    created_at,
                    current_cursor: k,
                    current_version: 0,
                    parent_flow_id: Some(parent_flow_id),
                    parent_cursor: Some(k),
                    metadata,
                }
            },
        };
        let mut records: Vec<FlowData> = Vec::new();
        let mut snapshots: Vec<SnapshotMeta> = Vec::new();
        let ghost prs: Seq<FlowData> = Seq::empty();
        let ghost pss: Seq<SnapshotMeta> = Seq::empty();
        if let Some(p) = pidx {
            let src = &self.flows[p].records;
            proof {
                prs = src@;
                assert(entry_wf(self.flows@[p as int]));
            }
            let ghost mut last_j: int = 0;
            let mut j: usize = 0;
            while j < src.len()
                invariant
                    prs == src@,
                    records_ordered(prs),
                    j <= src@.len(),
                    records@.len() == records_upto(prs.take(j as int), k).len(),
                    forall|a: int|
                        0 <= a < records@.len() ==> is_clone_of(records_upto(prs.take(j as int), k)[a], #[trigger] records@[a], new_id),
                    forall|a: int| 0 <= a < records@.len() ==> (#[trigger] records@[a]).cursor <= k,
                    forall|a: int| 0 <= a < records@.len() ==> (#[trigger] records@[a]).cursor >= 1,
                    forall|a: int| 0 <= a < prs.len() ==> (#[trigger] prs[a]).cursor >= 1,
                    records_upto(records@, k) == records@,
                    records_ordered(records@),
                    commands_unique(prs),
                    records@.len() > 0 ==> 0 <= last_j < j && records@.last().cursor == prs[last_j].cursor
                        && records@.last().key == prs[last_j].key,
                    forall|a: int| 0 <= a < records@.len() ==> (#[trigger] records@[a]).id == record_ids@[a],
                    copies == records_upto(prs, k).len(),
                    copies + 1 <= record_ids@.len(),
                decreases src@.len() - j,
            {
                let d = &src[j];
                proof {
                    assert(prs.take(j + 1) == prs.take(j as int).push(prs[j as int]));
                    prs.take(j as int).lemma_filter_push(prs[j as int], |d: FlowData| d.cursor <= k);
                    prs.lemma_filter_take_len(|d: FlowData| d.cursor <= k, j + 1);
                }
                if d.cursor <= k {
                    let c = FlowData {
                        id: record_ids[records.len()],
                        flow_id: new_id,
                        cursor: d.cursor,
                        key: d.key.clone(),
                        payload: d.payload.clone(),
                        metadata: d.metadata.clone(),
                        command_id: d.command_id,
                        created_at: d.created_at,
                    };
                    proof {
                        records@.lemma_filter_push(c, |d: FlowData| d.cursor <= k);
                        let old_r = records@;
                        let nr = old_r.push(c);
                        assert forall|a: int, b: int| 0 <= a < b < nr.len() implies nr[a].cursor < nr[b].cursor || (
                            nr[a].cursor == nr[b].cursor && is_branch_marker(nr[a])) by {
                            if b == old_r.len() {
                                let l = old_r.len() - 1;
                                assert(prs[last_j].cursor < prs[j as int].cursor || (prs[last_j].cursor
                                    == prs[j as int].cursor && is_branch_marker(prs[last_j])));
                                if a < l {
                                    assert(old_r[a].cursor < old_r[l].cursor || (old_r[a].cursor == old_r[l].cursor
                                        && is_branch_marker(old_r[a])));
                                }
                            }
                        }
                        last_j = j as int;
                    }
                    records.push(c);
                }
                j = j + 1;
            }
            proof {
                assert(prs.take(j as int) == prs);
                lemma_filter_commands(prs, |d: FlowData| d.cursor <= k);
                let up = records_upto(prs, k);
                assert forall|a: int, b: int| 0 <= a < b < records@.len() && records@[a].command_id is Some implies
                    records@[a].command_id != records@[b].command_id by {
                    assert(is_clone_of(up[a], records@[a], new_id));
                    assert(is_clone_of(up[b], records@[b], new_id));
                }
            }
            let ssrc = &self.flows[p].snapshots;
            proof {
                pss = ssrc@;
            }
            let mut j: usize = 0;
            while j < ssrc.len()
                invariant
                    pss == ssrc@,
                    j <= ssrc@.len(),
                    snapshots@.len() == snapshots_upto(pss.take(j as int), k).len(),
                    forall|a: int|
                        0 <= a < snapshots@.len() ==> is_snapshot_clone_of(snapshots_upto(pss.take(j as int), k)[a], #[trigger] snapshots@[a], new_id),
                    forall|a: int| 0 <= a < snapshots@.len() ==> (#[trigger] snapshots@[a]).id == snapshot_ids@[a],
                    needed == snapshots_upto(pss, k).len(),
                    needed <= snapshot_ids@.len(),
                decreases ssrc@.len() - j,
            {
                let x = &ssrc[j];
                proof {
                    assert(pss.take(j + 1) == pss.take(j as int).push(pss[j as int]));
                    pss.take(j as int).lemma_filter_push(pss[j as int], |x: SnapshotMeta| x.cursor <= k);
                    pss.lemma_filter_take_len(|x: SnapshotMeta| x.cursor <= k, j + 1);
                }
                if x.cursor <= k {
                    let c = SnapshotMeta {
                        id: snapshot_ids[snapshots.len()],
                        flow_id: new_id,
                        cursor: x.cursor,
                        state_ptr: x.state_ptr.clone(),
                        metadata: x.metadata.clone(),
                        created_at: x.created_at,
                    };
                    snapshots.push(c);
                }
                j = j + 1;
            }
            proof {
                assert(pss.take(j as int) == pss);
            }
        }
        let u = uuid_text(parent_flow_id);
        let payload = join_text(join_text("{\"parent\":\"", u.as_str()).as_str(), "\"}");
        proof {
            if pidx is None {
                reveal(Seq::filter);
            }
        }
        let marker = FlowData {
            id: record_ids[records.len()],
            flow_id: new_id,
            cursor: k + 1,
            key: "BranchCreated".to_owned(),
            payload,
            metadata: "{}".to_owned(),
            command_id: None,
            created_at: now_millis(),
        };
        proof {
            assert(records_of(old(self)@, parent_flow_id) == prs);
            assert(snapshots_of(old(self)@, parent_flow_id) == pss);
            records@.lemma_filter_push(marker, |d: FlowData| d.cursor <= k);
            let up = records_upto(prs, k);
            assert(records@.map_values(|d: FlowData| record_content(d)) =~= up.map_values(|d: FlowData| record_content(d)));
        }
        records.push(marker);
        let entry = FlowEntry { meta, records, snapshots, kv: Vec::new() };
        proof {
            assert(entry.records@.last() == marker);
            assert(records_upto(entry.records@, k) == entry.records@.drop_last());
            let rs = entry.records@;
            assert forall|a: int, b: int| 0 <= a < b < rs.len() implies rs[a].cursor < rs[b].cursor || (
                rs[a].cursor == rs[b].cursor && is_branch_marker(rs[a])) by {
                if b < rs.len() - 1 {
                    assert(rs[a] == rs.drop_last()[a] && rs[b] == rs.drop_last()[b]);
                } else {
                    assert(rs[a] == rs.drop_last()[a]);
                }
            }
            assert forall|a: int, b: int| 0 <= a < b < rs.len() && rs[a].command_id is Some implies rs[a].command_id
                != rs[b].command_id by {
                assert(rs[a] == rs.drop_last()[a]);
                if b < rs.len() - 1 {
                    assert(rs[b] == rs.drop_last()[b]);
                }
            }
            assert forall|a: int| 0 <= a < rs.len() implies {
                let d = #[trigger] rs[a];
                &&& d.flow_id == entry.meta.id
                &&& d.cursor >= 1
                &&& d.cursor <= entry.meta.current_cursor + 1
                &&& d.cursor == entry.meta.current_cursor + 1 ==> is_branch_marker(d)
            } by {
                if a < rs.len() - 1 {
                    assert(rs[a] == rs.drop_last()[a]);
                } else {
                    reveal_strlit("BranchCreated");
                }
            }
            lemma_push(self@, entry);
            assert forall|x: int, y: int| 0 <= x < y < entry.snapshots@.len() implies entry.snapshots@[x].id
                != entry.snapshots@[y].id by {
                assert(entry.snapshots@[x].id == snapshot_ids@[x]);
                assert(entry.snapshots@[y].id == snapshot_ids@[y]);
            }
            assert forall|x: int| 0 <= x < entry.snapshots@.len() implies !snapshot_id_used(
                old(self)@,
                (#[trigger] entry.snapshots@[x]).id,
            ) by {
                assert(entry.snapshots@[x].id == snapshot_ids@[x]);
            }
            lemma_push_fresh_snapshots(self@, entry);
        }
        self.flows.push(entry);
        Ok(new_id)
    }

    /// Forks flow `parent_flow_id` at `parent_cursor` under a fresh random id
    /// (see `create_branch_with_id`).
    pub fn create_branch(
        &mut self,
        parent_flow_id: u128,
        name: Option<String>,
        status: Option<String>,
        parent_cursor: i64,
        metadata: String,
    ) -> (r: Result<u128, FlowError>)
        requires
            old(self).wf(),
            parent_cursor < i64::MAX,
        ensures
            final(self).wf(),
            match r {
                Ok(id) => {
                    &&& id != parent_flow_id
                    &&& !has_flow(old(self)@, id)
                    &&& branch_outcome(old(self)@, final(self)@, id, flow_at(final(self)@, id).meta.created_at,
                        parent_flow_id, name, status, parent_cursor, metadata)
                    &&& forall|i: int| 0 <= i < flow_at(final(self)@, id).snapshots@.len() ==> !snapshot_id_used(
                        old(self)@,
                        (#[trigger] flow_at(final(self)@, id).snapshots@[i]).id,
                    )
                    &&& forall|i: int| 0 <= i < flow_at(final(self)@, id).records@.len() ==> !record_id_used(
                        old(self)@,
                        (#[trigger] flow_at(final(self)@, id).records@[i]).id,
                    )
                },
                Err(_) => final(self)@ == old(self)@,
            },
            parent_cursor < 0 ==> r is Err,
    {
        let id = fresh_id();
        let created_at = now_millis();
        let needed = self.count_snapshots_upto(parent_flow_id, parent_cursor);
        let mut ids: Vec<u128> = Vec::new();
        let mut i: usize = 0;
        while i < needed
            invariant
                i <= needed,
                ids@.len() == i,
            decreases needed - i,
        {
            ids.push(fresh_id());
            i = i + 1;
        }
        let copies = self.count_records_upto(parent_flow_id, parent_cursor);
        if copies == usize::MAX {
            return Err(FlowError::Storage("too many records to copy".to_owned()));
        }
        let mut rids: Vec<u128> = Vec::new();
        let mut i: usize = 0;
        while i < copies + 1
            invariant
                copies < usize::MAX,
                i <= copies + 1,
                rids@.len() == i,
            decreases copies + 1 - i,
        {
            rids.push(fresh_id());
            i = i + 1;
        }
        self.create_branch_with_id(id, created_at, &rids, &ids, parent_flow_id, name, status, parent_cursor, metadata)
    }

    fn contains_id(v: &Vec<u128>, x: u128) -> (r: bool)
        ensures
            r == v@.contains(x),
    {
        let mut i: usize = 0;
        while i < v.len()
            invariant
                i <= v@.len(),
                forall|j: int| 0 <= j < i ==> v@[j] != x,
            decreases v@.len() - i,
        {
            if v[i] == x {
                assert(v@[i as int] == x);
                return true;
            }
            i = i + 1;
        }
        false
    }

    /// Removes the flows in `dead` and orphans their children.
    fn remove_flows(&mut self, dead: &Vec<u128>)
        requires
            old(self).wf(),
        ensures
            final(self).wf(),
            removed(old(self)@, final(self)@, dead@.to_set()),
    {
        let ghost ds = dead@.to_set();
        let mut rest: Vec<FlowEntry> = Vec::new();
        std::mem::swap(&mut self.flows, &mut rest);
        let ghost orig = rest@;
        let mut out: Vec<FlowEntry> = Vec::new();
        let ghost mut i: int = 0;
        while rest.len() > 0
            invariant
                store_wf(orig),
                ds == dead@.to_set(),
                0 <= i <= orig.len(),
                rest@ == orig.subrange(i, orig.len() as int),
                store_wf(out@),
                forall|g: u128| #[trigger] has_flow(out@, g) <==> seen(orig, i, g) && !ds.contains(g),
                forall|g: u128| #[trigger] has_flow(out@, g) ==> flow_at(out@, g) == after_removal(flow_at(orig, g), ds),
            decreases rest@.len(),
        {
            let e = rest.remove(0);
            proof {
                assert(e == orig[i]);
                lemma_flow_at(orig, i);
            }
            let id = e.meta.id;
            if !Self::contains_id(dead, id) {
                let e2 = match e.meta.parent_flow_id {
                    Some(p) => {
                        if Self::contains_id(dead, p) {
                            let mut e3 = e;
                            e3.meta.parent_flow_id = None;
                            e3.meta.parent_cursor = None;
                            e3
                        } else {
                            e
                        }
                    },
                    None => e,
                };
                proof {
                    assert(e2 == after_removal(orig[i], ds));
                    assert(!has_flow(out@, id)) by {
                        if has_flow(out@, id) {
                            let j = choose|j: int| 0 <= j < i && #[trigger] orig[j].meta.id == id;
                            assert(orig[j].meta.id == orig[i].meta.id);
                        }
                    }
                    lemma_push(out@, e2);
                    let no = out@.push(e2);
                    assert forall|c: int| 0 <= c < out@.len() implies exists|j: int|
                        0 <= j < i && (#[trigger] out@[c]).snapshots@ == orig[j].snapshots@ by {
                        let g = out@[c].meta.id;
                        lemma_flow_at(out@, c);
                        assert(seen(orig, i, g));
                        let j = choose|j: int| 0 <= j < i && #[trigger] orig[j].meta.id == g;
                        lemma_flow_at(orig, j);
                    }
                    assert forall|a: int, b: int, x: int, y: int|
                        0 <= a < no.len() && 0 <= b < no.len() && 0 <= x < no[a].snapshots@.len() && 0 <= y
                            < no[b].snapshots@.len() && (a != b || x != y) implies #[trigger] no[a].snapshots@[x].id
                        != #[trigger] no[b].snapshots@[y].id by {
                        let n0 = out@.len() as int;
                        if a < n0 && b < n0 {
                            assert(no[a] == out@[a] && no[b] == out@[b]);
                        } else if a == n0 && b == n0 {
                            assert(no[a].snapshots@ == orig[i].snapshots@);
                        } else if a < n0 {
                            let j = choose|j: int| 0 <= j < i && (#[trigger] out@[a]).snapshots@ == orig[j].snapshots@;
                            assert(no[a].snapshots@ == orig[j].snapshots@);
                            assert(no[b].snapshots@ == orig[i].snapshots@);
                            assert(orig[j].snapshots@[x].id != orig[i as int].snapshots@[y].id);
                        } else {
                            let j = choose|j: int| 0 <= j < i && (#[trigger] out@[b]).snapshots@ == orig[j].snapshots@;
                            assert(no[b].snapshots@ == orig[j].snapshots@);
                            assert(no[a].snapshots@ == orig[i].snapshots@);
                            assert(orig[i as int].snapshots@[x].id != orig[j].snapshots@[y].id);
                        }
                    }
                    assert forall|a: int| 0 <= a < no.len() implies entry_wf(#[trigger] no[a]) by {
                        if a < out@.len() {
                            assert(no[a] == out@[a]);
                        }
                    }
                    assert forall|g: u128| #[trigger] has_flow(no, g) <==> seen(orig, i + 1, g) && !ds.contains(g) by {
                        if seen(orig, i + 1, g) && g != id {
                            let j = choose|j: int| 0 <= j < i + 1 && #[trigger] orig[j].meta.id == g;
                            assert(j < i);
                            assert(seen(orig, i, g));
                        }
                        if seen(orig, i, g) {
                            let j = choose|j: int| 0 <= j < i && #[trigger] orig[j].meta.id == g;
                            assert(seen(orig, i + 1, g));
                        }
                        if g == id {
                            assert(orig[i].meta.id == g);
                        }
                    }
                }
                out.push(e2);
            } else {
                proof {
                    assert forall|g: u128| #[trigger] has_flow(out@, g) <==> seen(orig, i + 1, g) && !ds.contains(g) by {
                        if seen(orig, i + 1, g) && g != id {
                            let j = choose|j: int| 0 <= j < i + 1 && #[trigger] orig[j].meta.id == g;
                            assert(j < i);
                            assert(seen(orig, i, g));
                        }
                        if seen(orig, i, g) {
                            let j = choose|j: int| 0 <= j < i && #[trigger] orig[j].meta.id == g;
                            assert(seen(orig, i + 1, g));
                        }
                    }
                }
            }
            proof {
                i = i + 1;
            }
        }
        proof {
            assert forall|g: u128| #[trigger] seen(orig, orig.len() as int, g) <==> has_flow(orig, g) by {
                if has_flow(orig, g) {
                    let j = choose|j: int| 0 <= j < orig.len() && #[trigger] orig[j].meta.id == g;
                }
            }
        }
        self.flows = out;
    }

    /// Deletes a flow with its records, snapshots and side table; its children
    /// survive as root flows.
    pub fn delete_branch(&mut self, flow_id: u128) -> (r: Result<(), FlowError>)
        requires
            old(self).wf(),
        ensures
            final(self).wf(),
            !has_flow(old(self)@, flow_id) ==> (r matches Err(FlowError::NotFound(_)) && final(self)@ == old(self)@),
            has_flow(old(self)@, flow_id) ==> r is Ok && removed(old(self)@, final(self)@, set![flow_id]),
    {
        if self.index_of(flow_id).is_none() {
            return Err(FlowError::NotFound("flow".to_owned()));
        }
        let dead = vec![flow_id];
        self.remove_flows(&dead);
        assert(dead@.to_set() =~= set![flow_id]);
        Ok(())
    }

    /// Deletes the records of a flow at or after `from_cursor`, and deletes
    /// every child forked at or after it. The flow's cursor and version stay.
    pub fn delete_from_step(&mut self, flow_id: u128, from_cursor: i64) -> (r: Result<(), FlowError>)
        requires
            old(self).wf(),
        ensures
            final(self).wf(),
            !has_flow(old(self)@, flow_id) ==> (r matches Err(FlowError::NotFound(_)) && final(self)@ == old(self)@),
            has_flow(old(self)@, flow_id) ==> r is Ok && prune_outcome(old(self)@, final(self)@, flow_id, from_cursor),
    {
        let i = match self.index_of(flow_id) {
            Some(i) => i,
            None => {
                return Err(FlowError::NotFound("flow".to_owned()));
            },
        };
        let ghost s0 = self.flows@;
        let mut e = self.flows.remove(i);
        let mut kept: Vec<FlowData> = Vec::new();
        let mut old_records: Vec<FlowData> = Vec::new();
        std::mem::swap(&mut e.records, &mut old_records);
        let ghost rs = old_records@;
        let mut j: usize = 0;
        while j < old_records.len()
            invariant
                rs == old_records@,
                j <= rs.len(),
                kept@ == records_before(rs.take(j as int), from_cursor),
            decreases rs.len() - j,
        {
            proof {
                assert(rs.take(j + 1) == rs.take(j as int).push(rs[j as int]));
                rs.take(j as int).lemma_filter_push(rs[j as int], |d: FlowData| d.cursor < from_cursor);
            }
            if old_records[j].cursor < from_cursor {
                kept.push(old_records[j].copy());
            }
            j = j + 1;
        }
        proof {
            assert(rs.take(j as int) == rs);
        }
        e.records = kept;
        proof {
            let o = s0[i as int];
            let ks = e.records@;
            assert(entry_wf(o));
            assert(rs == o.records@);
            assert forall|a: int| 0 <= a < ks.len() implies #[trigger] o.records@.contains(ks[a]) by {
                assert(ks.contains(ks[a]));
                rs.lemma_filter_contains_rev(|d: FlowData| d.cursor < from_cursor, ks[a]);
            }
            lemma_filter_ordered(rs, |d: FlowData| d.cursor < from_cursor);
            lemma_filter_commands(rs, |d: FlowData| d.cursor < from_cursor);
            assert forall|a: int| 0 <= a < ks.len() implies {
                let d = #[trigger] ks[a];
                &&& d.flow_id == e.meta.id
                &&& d.cursor >= 1
                &&& d.cursor <= e.meta.current_cursor + 1
                &&& d.cursor == e.meta.current_cursor + 1 ==> is_branch_marker(d)
            } by {
                assert(o.records@.contains(ks[a]));
            }
            lemma_update(s0, i as int, e);
        }
        self.flows.insert(i, e);
        proof {
            assert(self.flows@ =~= s0.update(i as int, e));
        }
        let ghost s1 = self.flows@;
        let mut dead: Vec<u128> = Vec::new();
        let mut k: usize = 0;
        while k < self.flows.len()
            invariant
                self.wf(),
                self@ == s1,
                k <= s1.len(),
                forall|g: u128| #[trigger] dead@.contains(g) <==> (exists|a: int| 0 <= a < k && #[trigger] s1[a].meta.id == g
                    && is_pruned_child(s1, flow_id, from_cursor, g)),
            decreases s1.len() - k,
        {
            let m = &self.flows[k].meta;
            proof {
                lemma_flow_at(s1, k as int);
            }
            let hit = match (m.parent_flow_id, m.parent_cursor) {
                (Some(p), Some(pc)) => p == flow_id && pc >= from_cursor,
                _ => false,
            };
            let ghost before = dead@;
            if hit {
                dead.push(m.id);
            }
            proof {
                assert forall|g: u128| #[trigger] dead@.contains(g) <==> (exists|a: int| 0 <= a < k + 1 && #[trigger] s1[a].meta.id == g
                    && is_pruned_child(s1, flow_id, from_cursor, g)) by {
                    if dead@.contains(g) && g != s1[k as int].meta.id {
                        assert(before.contains(g)) by {
                            if hit {
                                let x = choose|x: int| 0 <= x < dead@.len() && dead@[x] == g;
                                assert(x < before.len());
                                assert(before[x] == g);
                            }
                        }
                    }
                    if before.contains(g) {
                        let x = choose|x: int| 0 <= x < before.len() && before[x] == g;
                        assert(dead@[x] == g);
                    }
                    if g == s1[k as int].meta.id && hit {
                        assert(dead@[dead@.len() - 1] == g);
                    }
                }
            }
            k = k + 1;
        }
        proof {
            let pc = pruned_children(old(self)@, flow_id, from_cursor);
            assert forall|g: u128| #[trigger] dead@.to_set().contains(g) == pc.contains(g) by {
                if has_flow(s1, g) {
                    let a = choose|a: int| 0 <= a < s1.len() && #[trigger] s1[a].meta.id == g;
                    lemma_flow_at(s1, a);
                }
                if g != flow_id && has_flow(s0, g) {
                    assert(flow_at(s1, g) == flow_at(s0, g));
                }
                if g == flow_id {
                    assert(flow_at(s1, g).meta == flow_at(s0, g).meta);
                }
            }
            assert(dead@.to_set() =~= pc);
        }
        self.remove_flows(&dead);
        proof {
            let pc = pruned_children(s0, flow_id, from_cursor);
            assert(dead@.to_set() == pc);
            lemma_flow_at(s0, i as int);
            assert(entry_wf(s0[i as int]));
            assert(!pc.contains(flow_id));
            assert forall|g: u128| g != flow_id implies (#[trigger] has_flow(self@, g) <==> has_flow(s0, g)
                && !pc.contains(g)) by {
                assert(has_flow(s1, g) == has_flow(s0, g));
            }
            assert forall|g: u128| g != flow_id && #[trigger] has_flow(self@, g) implies flow_at(self@, g)
                == after_removal(flow_at(s0, g), pc) by {
                assert(flow_at(s1, g) == flow_at(s0, g));
            }
            assert(has_flow(self@, flow_id));
        }
        Ok(())
    }
}

} // verus!
