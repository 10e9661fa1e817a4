use vstd::prelude::*;

use crate::domain::{is_branch_marker, is_clone_of, record_content, FlowData, PersistResult, SnapshotMeta};
use crate::errors::FlowError;
use crate::outside::base64_decoded_text;
use crate::store::{
    branch_outcome, commands_unique, is_latest_snapshot, lemma_flow_at, save_outcome,
    snapshot_id_used, entry_wf, flow_at, has_command, has_flow, is_pruned_child,
    lemma_filter_commands, lemma_filter_ordered, persist_outcome, prune_outcome, records_after,
    records_before, records_of, records_ordered, records_upto, removed, store_wf, FlowEntry,
};

verus! {

proof fn lemma_entry_wf(s: Seq<FlowEntry>, id: u128)
    requires
        store_wf(s),
        has_flow(s, id),
    ensures
        entry_wf(flow_at(s, id)),
        flow_at(s, id).meta.id == id,
{
    let i = choose|i: int| 0 <= i < s.len() && #[trigger] s[i].meta.id == id;
    assert(entry_wf(s[i]));
}

proof fn lemma_filter_all(s: Seq<FlowData>, p: spec_fn(FlowData) -> bool)
    requires
        forall|i: int| 0 <= i < s.len() ==> p(#[trigger] s[i]),
    ensures
        s.filter(p) == s,
    decreases s.len(),
{
    reveal(Seq::filter);
    if s.len() > 0 {
        let t = s.drop_last();
        assert forall|i: int| 0 <= i < t.len() implies p(#[trigger] t[i]) by {
            assert(t[i] == s[i]);
        }
        lemma_filter_all(t, p);
        assert(p(s[s.len() - 1]));
        assert(t.push(s.last()) == s);
    }
}

/// An append that inserts its record (its command id, if any, is new)
/// reports the expected version plus one, moves the flow's cursor to the
/// record's, and that cursor exceeds the flow's previous one.
pub proof fn append_advances_version_and_cursor(
    old: Seq<FlowEntry>,
    new: Seq<FlowEntry>,
    data: FlowData,
    expected_version: i64,
    r: Result<PersistResult, FlowError>,
)
    requires
        persist_outcome(old, new, data, expected_version, r),
        r matches Ok(PersistResult::Persisted { .. }),
        !(data.command_id matches Some(c) && has_command(records_of(old, data.flow_id), c)),
        expected_version < i64::MAX,
    ensures
        r == Ok::<PersistResult, FlowError>(PersistResult::Persisted { new_version: (expected_version + 1) as i64 }),
        flow_at(new, data.flow_id).meta.current_cursor == data.cursor,
        data.cursor > flow_at(old, data.flow_id).meta.current_cursor,
{
}

/// Reading a flow gives its records in ascending cursor order; two records
/// share a cursor only where the earlier one is a branch marker (a branch's
/// first append may take the marker's cursor).
pub proof fn read_data_is_ordered(s: Seq<FlowEntry>, flow_id: u128, from: i64)
    requires
        store_wf(s),
    ensures
        records_ordered(records_after(records_of(s, flow_id), from)),
{
    if has_flow(s, flow_id) {
        lemma_entry_wf(s, flow_id);
    }
    lemma_filter_ordered(records_of(s, flow_id), |d: FlowData| d.cursor > from);
}

/// No flow holds two records with the same command id.
pub proof fn command_ids_are_unique(s: Seq<FlowEntry>, flow_id: u128)
    requires
        store_wf(s),
    ensures
        commands_unique(records_of(s, flow_id)),
{
    if has_flow(s, flow_id) {
        lemma_entry_wf(s, flow_id);
    }
}

/// Appending a record whose command id the flow already holds, under the
/// current version, inserts nothing and reports the current version.
pub proof fn command_replay_is_a_no_op(
    old: Seq<FlowEntry>,
    new: Seq<FlowEntry>,
    data: FlowData,
    expected_version: i64,
    r: Result<PersistResult, FlowError>,
)
    requires
        persist_outcome(old, new, data, expected_version, r),
        has_flow(old, data.flow_id),
        flow_at(old, data.flow_id).meta.current_version == expected_version,
        data.command_id matches Some(c) && has_command(records_of(old, data.flow_id), c),
    ensures
        new == old,
        r == Ok::<PersistResult, FlowError>(PersistResult::Persisted { new_version: expected_version }),
{
}

/// Sending the same record with a command id twice, the first time with
/// success, leaves the store as the first call left it, whatever version the
/// second call expects.
pub proof fn repeated_command_is_idempotent(
    s0: Seq<FlowEntry>,
    s1: Seq<FlowEntry>,
    s2: Seq<FlowEntry>,
    data: FlowData,
    v1: i64,
    r1: Result<PersistResult, FlowError>,
    v2: i64,
    r2: Result<PersistResult, FlowError>,
)
    requires
        persist_outcome(s0, s1, data, v1, r1),
        persist_outcome(s1, s2, data, v2, r2),
        data.command_id is Some,
        r1 matches Ok(PersistResult::Persisted { .. }),
    ensures
        s2 == s1,
{
    let f = data.flow_id;
    let c = data.command_id->0;
    assert(has_flow(s0, f));
    let e = flow_at(s0, f);
    if !has_command(e.records@, c) {
        let n = flow_at(s1, f);
        assert(n.records@ == e.records@.push(data));
        assert(n.records@[e.records@.len() as int].command_id == Some(c));
        assert(has_command(n.records@, c));
    } else {
        assert(s1 == s0);
    }
    assert(has_flow(s1, f));
    assert(has_command(flow_at(s1, f).records@, c));
}

/// A branch at cursor `k` holds, at or below `k`, exactly the cursors,
/// payloads, metadata and keys of the parent's records at or below `k`; one
/// record sits at `k + 1`, the marker; its cursor is `k` and its version 0.
pub proof fn branch_copies_prefix(
    old: Seq<FlowEntry>,
    new: Seq<FlowEntry>,
    b: u128,
    created_at: i64,
    parent: u128,
    name: Option<String>,
    status: Option<String>,
    k: i64,
    metadata: String,
)
    requires
        k < i64::MAX,
        branch_outcome(old, new, b, created_at, parent, name, status, k, metadata),
    ensures
        records_upto(flow_at(new, b).records@, k).map_values(|d: FlowData| record_content(d)).to_multiset()
            == records_upto(records_of(old, parent), k).map_values(|d: FlowData| record_content(d)).to_multiset(),
        flow_at(new, b).records@.filter(|d: FlowData| d.cursor == k + 1).len() == 1,
        is_branch_marker(flow_at(new, b).records@.filter(|d: FlowData| d.cursor == k + 1)[0]),
        flow_at(new, b).meta.current_cursor == k,
        flow_at(new, b).meta.current_version == 0,
        has_flow(new, b),
        flow_at(new, b).meta.parent_flow_id == Some(parent),
        flow_at(new, b).meta.parent_cursor == Some(k),
{
    let rs = flow_at(new, b).records@;
    let up = records_upto(records_of(old, parent), k);
    let clones = rs.drop_last();
    let at = |d: FlowData| d.cursor == k + 1;
    up.filter_lemma(|d: FlowData| d.cursor <= k);
    assert forall|i: int| 0 <= i < clones.len() implies !at(#[trigger] clones[i]) by {
        assert(clones[i] == rs[i]);
        assert(is_clone_of(up[i], rs[i], b));
    }
    clones.lemma_all_neg_filter_empty(at);
    assert(clones.push(rs.last()) == rs);
    clones.lemma_filter_push(rs.last(), at);
    assert(rs.filter(at) == seq![rs.last()]);
}

/// Deleting a flow keeps each of its children, as a root flow.
pub proof fn delete_branch_orphans_children(old: Seq<FlowEntry>, new: Seq<FlowEntry>, p: u128, c: u128)
    requires
        store_wf(old),
        removed(old, new, set![p]),
        has_flow(old, c),
        flow_at(old, c).meta.parent_flow_id == Some(p),
    ensures
        has_flow(new, c),
        flow_at(new, c).meta.parent_flow_id is None,
        flow_at(new, c).meta.parent_cursor is None,
{
    lemma_entry_wf(old, c);
    assert(has_flow(new, c));
}

/// Branching at a cursor beyond the parent's current cursor copies every
/// record of the parent, then adds the marker at `k + 1`.
pub proof fn branch_beyond_cursor_copies_all(
    old: Seq<FlowEntry>,
    new: Seq<FlowEntry>,
    b: u128,
    created_at: i64,
    parent: u128,
    name: Option<String>,
    status: Option<String>,
    k: i64,
    metadata: String,
)
    requires
        store_wf(old),
        has_flow(old, parent),
        k > flow_at(old, parent).meta.current_cursor,
        branch_outcome(old, new, b, created_at, parent, name, status, k, metadata),
    ensures
        flow_at(new, b).records@.len() == flow_at(old, parent).records@.len() + 1,
        forall|i: int|
            0 <= i < flow_at(old, parent).records@.len() ==> is_clone_of(
                #[trigger] flow_at(old, parent).records@[i],
                flow_at(new, b).records@[i],
                b,
            ),
        flow_at(new, b).records@.last().cursor == k + 1,
        is_branch_marker(flow_at(new, b).records@.last()),
{
    lemma_entry_wf(old, parent);
    let pr = flow_at(old, parent).records@;
    lemma_filter_all(pr, |d: FlowData| d.cursor <= k);
}

/// Pruning a flow from cursor `from` leaves it only records below `from`,
/// and removes every child forked at or after `from`.
pub proof fn prune_removes_suffix_and_late_children(old: Seq<FlowEntry>, new: Seq<FlowEntry>, f: u128, from: i64)
    requires
        store_wf(old),
        has_flow(old, f),
        prune_outcome(old, new, f, from),
    ensures
        has_flow(new, f),
        forall|i: int| 0 <= i < flow_at(new, f).records@.len() ==> (#[trigger] flow_at(new, f).records@[i]).cursor < from,
        forall|g: u128| is_pruned_child(old, f, from, g) ==> !#[trigger] has_flow(new, g),
{
    lemma_entry_wf(old, f);
    flow_at(old, f).records@.filter_lemma(|d: FlowData| d.cursor < from);
    assert forall|g: u128| is_pruned_child(old, f, from, g) implies !#[trigger] has_flow(new, g) by {
        if g == f {
            assert(flow_at(old, f).meta.parent_flow_id != Some(f));
        }
    }
}

/// A state saved through a snapshot comes back unchanged: encode it (the
/// pointer decodes to the state), save it as the newest snapshot of its flow,
/// take the latest snapshot, load it by id, and decode the text it holds.
pub proof fn snapshot_round_trip(
    s0: Seq<FlowEntry>,
    s1: Seq<FlowEntry>,
    f: u128,
    cursor: i64,
    state: Seq<char>,
    ptr: Seq<char>,
    metadata: String,
    sid: u128,
    latest: int,
    loaded: SnapshotMeta,
    text: Seq<char>,
)
    requires
        store_wf(s0),
        store_wf(s1),
        base64_decoded_text(ptr) == Some(state),
        has_flow(s0, f),
        forall|j: int|
            0 <= j < flow_at(s0, f).snapshots@.len() ==> (#[trigger] flow_at(s0, f).snapshots@[j]).cursor <= cursor,
        save_outcome(s0, s1, f, cursor, ptr, metadata, Ok::<u128, FlowError>(sid)),
        is_latest_snapshot(flow_at(s1, f).snapshots@, latest),
        loaded.id == flow_at(s1, f).snapshots@[latest].id,
        exists|a: int, b: int| 0 <= a < s1.len() && 0 <= b < s1[a].snapshots@.len() && #[trigger] s1[a].snapshots@[b] == loaded,
        text == loaded.state_ptr@,
    ensures
        base64_decoded_text(text) == Some(state),
{
    let old_snaps = flow_at(s0, f).snapshots@;
    let snaps = flow_at(s1, f).snapshots@;
    let last = old_snaps.len() as int;
    assert(snaps[last].cursor == cursor);
    if latest < last {
        assert(snaps[latest] == old_snaps[latest]);
        assert(snaps[last].cursor < snaps[latest].cursor || (snaps[last].cursor == snaps[latest].cursor && last
            <= latest));
    }
    assert(latest == last);
    assert(loaded.id == sid);
    let (a, b) = choose|a: int, b: int| 0 <= a < s1.len() && 0 <= b < s1[a].snapshots@.len() && #[trigger] s1[a].snapshots@[b] == loaded;
    let g = s1[a].meta.id;
    lemma_flow_at(s1, a);
    if g != f {
        assert(has_flow(s0, g));
        let a0 = choose|a0: int| 0 <= a0 < s0.len() && #[trigger] s0[a0].meta.id == g;
        lemma_flow_at(s0, a0);
        assert(s0[a0].snapshots@[b].id == sid);
        assert(snapshot_id_used(s0, sid));
    } else {
        if b < last {
            assert(snaps[b] == old_snaps[b]);
            let a0 = choose|a0: int| 0 <= a0 < s0.len() && #[trigger] s0[a0].meta.id == f;
            lemma_flow_at(s0, a0);
            assert(s0[a0].snapshots@[b].id == sid);
            assert(snapshot_id_used(s0, sid));
        }
    }
}

/// Pruning a flow from cursor 0 leaves it no record (every record has a
/// cursor of at least 1) and removes every child forked at 0 or later.
pub proof fn prune_from_zero_erases_all(old: Seq<FlowEntry>, new: Seq<FlowEntry>, f: u128)
    requires
        store_wf(old),
        has_flow(old, f),
        prune_outcome(old, new, f, 0),
    ensures
        flow_at(new, f).records@.len() == 0,
        forall|g: u128| is_pruned_child(old, f, 0, g) ==> !#[trigger] has_flow(new, g),
{
    prune_removes_suffix_and_late_children(old, new, f, 0);
    lemma_entry_wf(old, f);
    let rs = flow_at(old, f).records@;
    rs.lemma_all_neg_filter_empty(|d: FlowData| d.cursor < 0);
    assert(records_before(rs, 0) == rs.filter(|d: FlowData| d.cursor < 0));
}

/// Snapshot ids name one snapshot: the snapshot that loading by id finds is
/// the one saved under that id.
pub proof fn snapshot_id_names_one_snapshot(s: Seq<FlowEntry>, f: u128, i: int, loaded: SnapshotMeta)
    requires
        store_wf(s),
        has_flow(s, f),
        0 <= i < flow_at(s, f).snapshots@.len(),
        loaded.id == flow_at(s, f).snapshots@[i].id,
        exists|a: int, b: int| 0 <= a < s.len() && 0 <= b < s[a].snapshots@.len() && #[trigger] s[a].snapshots@[b] == loaded,
    ensures
        loaded == flow_at(s, f).snapshots@[i],
{
    let (a, b) = choose|a: int, b: int| 0 <= a < s.len() && 0 <= b < s[a].snapshots@.len() && #[trigger] s[a].snapshots@[b] == loaded;
    let c = choose|c: int| 0 <= c < s.len() && #[trigger] s[c].meta.id == f;
    lemma_flow_at(s, c);
    assert(s[c].snapshots@[i].id == s[a].snapshots@[b].id);
}

/// Every record has a cursor of at least 1, so the records above cursor -1
/// that the current step is computed from are all of a flow's records.
pub proof fn step_from_data_reads_all_records(s: Seq<FlowEntry>, flow_id: u128)
    requires
        store_wf(s),
    ensures
        records_after(records_of(s, flow_id), -1i64) == records_of(s, flow_id),
{
    if has_flow(s, flow_id) {
        lemma_entry_wf(s, flow_id);
    }
    lemma_filter_all(records_of(s, flow_id), |d: FlowData| d.cursor > -1i64);
}

} // verus!
