use vstd::prelude::*;

use crate::domain::WorkItem;

verus! {

/// A first-in first-out queue of work items.
pub struct InMemoryWorkerPool {
    queue: Vec<WorkItem>,
}

impl View for InMemoryWorkerPool {
    type V = Seq<WorkItem>;

    closed spec fn view(&self) -> Seq<WorkItem> {
        self.queue@
    }
}

impl InMemoryWorkerPool {
    /// An empty pool.
    pub fn new() -> (r: Self)
        ensures
            r@.len() == 0,
    {
        InMemoryWorkerPool { queue: Vec::new() }
    }

    /// Queues `item` last.
    pub fn enqueue(&mut self, item: WorkItem)
        ensures
            final(self)@ == old(self)@.push(item),
    {
        self.queue.push(item);
    }

    /// Takes the first queued item, if any.
    pub fn claim(&mut self) -> (r: Option<WorkItem>)
        ensures
            old(self)@.len() == 0 ==> r is None && final(self)@ == old(self)@,
            old(self)@.len() > 0 ==> r == Some(old(self)@[0]) && final(self)@ == old(self)@.subrange(1, old(self)@.len() as int),
    {
        if self.queue.len() == 0 {
            None
        } else {
            let item = self.queue.remove(0);
            assert(self.queue@ =~= old(self)@.subrange(1, old(self)@.len() as int));
            Some(item)
        }
    }
}

/// One opening or closing of a step's barrier.
pub struct GateEvent {
    pub flow_id: u128,
    pub step_id: String,
    pub open: bool,
}

/// Barriers that hold steps of flows until opened; the latest event for a
/// `(flow, step)` pair decides, and a step never touched is closed.
pub struct GateService {
    events: Vec<GateEvent>,
}

/// Whether the latest event of `events` for `(flow_id, step_id)` opened it.
pub open spec fn gate_open(events: Seq<GateEvent>, flow_id: u128, step_id: Seq<char>) -> bool
    decreases events.len(),
{
    if events.len() == 0 {
        false
    } else if events.last().flow_id == flow_id && events.last().step_id@ == step_id {
        events.last().open
    } else {
        gate_open(events.drop_last(), flow_id, step_id)
    }
}

impl View for GateService {
    type V = Seq<GateEvent>;

    closed spec fn view(&self) -> Seq<GateEvent> {
        self.events@
    }
}

impl GateService {
    /// No step is open.
    pub fn new() -> (r: Self)
        ensures
            forall|f: u128, s: Seq<char>| !gate_open(r@, f, s),
    {
        GateService { events: Vec::new() }
    }

    fn record(&mut self, flow_id: u128, step_id: &str, open: bool)
        ensures
            forall|f: u128, s: Seq<char>|
                #[trigger] gate_open(final(self)@, f, s) == if f == flow_id && s == step_id@ {
                    open
                } else {
                    gate_open(old(self)@, f, s)
                },
    {
        self.events.push(GateEvent { flow_id, step_id: step_id.to_owned(), open });
        assert forall|f: u128, s: Seq<char>|
            #[trigger] gate_open(self@, f, s) == if f == flow_id && s == step_id@ {
                open
            } else {
                gate_open(old(self)@, f, s)
            } by {
            assert(self@.drop_last() == old(self)@);
        }
    }

    /// Opens step `step_id` of flow `flow_id`; `reason` is
    /// informative only.
    pub fn open_gate(&mut self, flow_id: u128, step_id: &str, reason: &str)
        ensures
            forall|f: u128, s: Seq<char>|
                #[trigger] gate_open(final(self)@, f, s) == if f == flow_id && s == step_id@ {
                    true
                } else {
                    gate_open(old(self)@, f, s)
                },
    {
        self.record(flow_id, step_id, true);
    }

    /// Closes step `step_id` of flow `flow_id`; `input` (a JSON
    /// text) is not kept.
    pub fn close_gate(&mut self, flow_id: u128, step_id: &str, input: &str)
        ensures
            forall|f: u128, s: Seq<char>|
                #[trigger] gate_open(final(self)@, f, s) == if f == flow_id && s == step_id@ {
                    false
                } else {
                    gate_open(old(self)@, f, s)
                },
    {
        self.record(flow_id, step_id, false);
    }

    /// Whether step `step_id` of flow `flow_id` is open.
    pub fn is_open(&self, flow_id: u128, step_id: &str) -> (r: bool)
        ensures
            r == gate_open(self@, flow_id, step_id@),
    {
        let key = step_id.to_owned();
        let mut j: usize = self.events.len();
        assert(self.events@.take(j as int) == self.events@);
        while j > 0
            invariant
                j <= self.events@.len(),
                key@ == step_id@,
                gate_open(self.events@, flow_id, step_id@) == gate_open(self.events@.take(j as int), flow_id, step_id@),
            decreases j,
        {
            proof {
                assert(self.events@.take(j as int).drop_last() == self.events@.take(j - 1));
                assert(self.events@.take(j as int).last() == self.events@[j - 1]);
            }
            if self.events[j - 1].flow_id == flow_id && self.events[j - 1].step_id == key {
                return self.events[j - 1].open;
            }
            j = j - 1;
        }
        false
    }
}

} // verus!
