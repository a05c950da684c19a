use crate::batch::{is_batch_plan, plan_batches, BatchCaps, BatchSpan};
use crate::error::SyncError;
use crate::record::Timestamp;
use vstd::prelude::*;

verus! {

/// Where one source stands in its sync cycle.
#[derive(Clone, Copy, Debug, PartialEq, Eq, Structural)]
pub enum CyclePhase {
    /// Waiting for the next tick.
    Idle,
    /// Waiting for the rows newer than the watermark.
    Fetching,
    /// Sending the planned batches, one at a time, in order.
    Sending,
    /// Waiting for the advanced watermark to be persisted.
    Committing,
}

/// One fetched row, as the cycle sees it: its ordering value and its framed
/// size in the bulk request.
#[derive(Clone, Copy, Debug, PartialEq, Eq, Structural)]
pub struct FetchedRow {
    pub ordering: Timestamp,
    pub line_size: usize,
}

/// What happened since the last step.
#[derive(Clone, Debug, PartialEq, Eq)]
pub enum CycleEvent {
    /// The poll interval elapsed.
    Tick,
    /// The fetch succeeded with these rows, in the order the source gave them.
    Fetched { rows: Vec<FetchedRow> },
    /// The fetch failed.
    FetchFailed,
    /// The sink accepted the batch that was last asked for.
    BatchSent,
    /// The batch that was last asked for could not be delivered.
    BatchFailed { error: SyncError },
    /// The watermark asked for was persisted.
    Committed,
    /// The watermark asked for could not be persisted.
    CommitFailed,
}

/// What the driver of the cycle is to do next.
#[derive(Clone, Debug, PartialEq, Eq)]
pub enum CycleAction {
    /// Fetch the rows strictly newer than `since`, in ascending order.
    Fetch { since: Timestamp },
    /// Send the fetched rows `span.start..span.end` as one bulk request.
    Send { span: BatchSpan },
    /// Persist `watermark` as the source's new watermark.
    Commit { watermark: Timestamp },
    /// The cycle ended normally.
    Finish,
    /// The cycle ended without advancing the watermark, for this reason.
    Fail(SyncError),
    /// The event does not belong to the current phase; nothing changed.
    Wait,
}

/// The sync state of one source.
pub struct SourceSync {
    /// The caps that every batch of this source respects.
    pub caps: BatchCaps,
    /// The ordering value of the last row known to be delivered and persisted.
    pub watermark: Timestamp,
    pub phase: CyclePhase,
    /// The batches of the cycle in progress.
    pub plan: Vec<BatchSpan>,
    /// Index in `plan` of the batch to ask for after the one in flight.
    pub next_batch: usize,
    /// The ordering value of the last fetched row of the cycle in progress.
    pub pending: Timestamp,
}

/// The fetched rows are all strictly newer than the watermark and ascend.
pub open spec fn rows_in_order(watermark: Timestamp, rows: Seq<FetchedRow>) -> bool {
    &&& forall|i: int| 0 <= i < rows.len() ==> (#[trigger] rows[i]).ordering.nanos > watermark.nanos
    &&& forall|i: int| 0 <= i < rows.len() - 1 ==> (#[trigger] rows[i]).ordering.nanos <= rows[i + 1].ordering.nanos
}

/// The framed sizes of the fetched rows.
pub open spec fn row_sizes(rows: Seq<FetchedRow>) -> Seq<usize> {
    rows.map_values(|r: FetchedRow| r.line_size)
}

impl SourceSync {
    /// The caps allow a batch; a cycle past its fetch holds rows newer than
    /// the watermark; the next batch to ask for is within the plan.
    pub open spec fn wf(self) -> bool {
        &&& self.caps.max_docs > 0
        &&& (self.phase == CyclePhase::Sending || self.phase == CyclePhase::Committing) ==> self.pending.nanos > self.watermark.nanos
        &&& self.phase == CyclePhase::Sending ==> self.next_batch <= self.plan@.len()
    }
}

/// One step of the cycle: from the state before, on `event`, to the state
/// after and the action to perform. The watermark moves only when the
/// persisted commit of a fully delivered cycle is confirmed.
pub open spec fn step_relation(pre: SourceSync, event: CycleEvent, post: SourceSync, action: CycleAction) -> bool {
    &&& post.caps == pre.caps
    &&& match (pre.phase, event) {
        (CyclePhase::Idle, CycleEvent::Tick) => {
            &&& post.phase == CyclePhase::Fetching
            &&& post.watermark == pre.watermark
            &&& action == CycleAction::Fetch { since: pre.watermark }
        },
        (CyclePhase::Fetching, CycleEvent::FetchFailed) => {
            &&& post.phase == CyclePhase::Idle
            &&& post.watermark == pre.watermark
            &&& action == CycleAction::Fail(SyncError::SourceUnavailable)
        },
        (CyclePhase::Fetching, CycleEvent::Fetched { rows }) => {
            &&& post.watermark == pre.watermark
            &&& if rows@.len() == 0 {
                post.phase == CyclePhase::Idle && action == CycleAction::Finish
            } else if !rows_in_order(pre.watermark, rows@) {
                post.phase == CyclePhase::Idle && action == CycleAction::Fail(SyncError::SourceOutOfOrder)
            } else {
                &&& post.phase == CyclePhase::Sending
                &&& is_batch_plan(row_sizes(rows@), pre.caps, post.plan@)
                &&& post.plan@.len() > 0
                &&& post.next_batch == 1
                &&& post.pending == rows@.last().ordering
                &&& action == CycleAction::Send { span: post.plan@[0] }
            }
        },
        (CyclePhase::Sending, CycleEvent::BatchSent) => {
            &&& post.watermark == pre.watermark
            &&& post.pending == pre.pending
            &&& if pre.next_batch < pre.plan@.len() {
                &&& post.phase == CyclePhase::Sending
                &&& post.plan@ == pre.plan@
                &&& post.next_batch == pre.next_batch + 1
                &&& action == CycleAction::Send { span: pre.plan@[pre.next_batch as int] }
            } else {
                post.phase == CyclePhase::Committing && action == CycleAction::Commit { watermark: pre.pending }
            }
        },
        (CyclePhase::Sending, CycleEvent::BatchFailed { error }) => {
            &&& post.phase == CyclePhase::Idle
            &&& post.watermark == pre.watermark
            &&& action == CycleAction::Fail(error)
        },
        (CyclePhase::Committing, CycleEvent::Committed) => {
            &&& post.phase == CyclePhase::Idle
            &&& post.watermark == pre.pending
            &&& action == CycleAction::Finish
        },
        (CyclePhase::Committing, CycleEvent::CommitFailed) => {
            &&& post.phase == CyclePhase::Idle
            &&& post.watermark == pre.watermark
            &&& action == CycleAction::Fail(SyncError::PersistenceError)
        },
        _ => post == pre && action == CycleAction::Wait,
    }
}

/// `states` is a run of the cycle: each state follows from the one before
/// by one step on the event and action of the same index.
pub open spec fn is_run(states: Seq<SourceSync>, events: Seq<CycleEvent>, actions: Seq<CycleAction>) -> bool {
    &&& states.len() == events.len() + 1
    &&& actions.len() == events.len()
    &&& forall|i: int| 0 <= i < events.len() ==> step_relation(#[trigger] states[i], events[i], states[i + 1], actions[i])
}

/// One step keeps the state well formed and never lowers the watermark; a
/// step that leaves the cycle in progress keeps the watermark as it was.
proof fn lemma_step_watermark(pre: SourceSync, event: CycleEvent, post: SourceSync, action: CycleAction)
    requires
        pre.wf(),
        step_relation(pre, event, post, action),
    ensures
        post.wf(),
        pre.watermark.nanos <= post.watermark.nanos,
        post.phase != CyclePhase::Idle ==> post.watermark == pre.watermark,
{
    if pre.phase == CyclePhase::Fetching {
        if let CycleEvent::Fetched { rows } = event {
            if rows@.len() > 0 && rows_in_order(pre.watermark, rows@) {
                assert(rows@[rows@.len() - 1].ordering.nanos > pre.watermark.nanos);
            }
        }
    }
}

proof fn lemma_run_wf(states: Seq<SourceSync>, events: Seq<CycleEvent>, actions: Seq<CycleAction>, j: int)
    requires
        is_run(states, events, actions),
        states[0].wf(),
        0 <= j < states.len(),
    ensures
        states[j].wf(),
        states[0].watermark.nanos <= states[j].watermark.nanos,
    decreases j,
{
    if j > 0 {
        lemma_run_wf(states, events, actions, j - 1);
        assert(step_relation(states[j - 1], events[j - 1], states[j], actions[j - 1]));
        lemma_step_watermark(states[j - 1], events[j - 1], states[j], actions[j - 1]);
    }
}

/// The watermark of a source never decreases along a run of its cycle.
pub proof fn lemma_watermark_never_decreases(
    states: Seq<SourceSync>,
    events: Seq<CycleEvent>,
    actions: Seq<CycleAction>,
)
    requires
        is_run(states, events, actions),
        states[0].wf(),
    ensures
        forall|i: int, j: int|
            0 <= i <= j < states.len() ==> (#[trigger] states[i]).watermark.nanos <= (#[trigger] states[j]).watermark.nanos,
{
    assert forall|i: int, j: int| 0 <= i <= j < states.len() implies (#[trigger] states[i]).watermark.nanos
        <= (#[trigger] states[j]).watermark.nanos by {
        lemma_run_wf(states, events, actions, i);
        let tail_states = states.subrange(i, states.len() as int);
        let tail_events = events.subrange(i, events.len() as int);
        let tail_actions = actions.subrange(i, actions.len() as int);
        assert forall|k: int| 0 <= k < tail_events.len() implies step_relation(
            #[trigger] tail_states[k],
            tail_events[k],
            tail_states[k + 1],
            tail_actions[k],
        ) by {
            assert(step_relation(states[i + k], events[i + k], states[i + k + 1], actions[i + k]));
        }
        lemma_run_wf(tail_states, tail_events, tail_actions, j - i);
    }
}

/// A cycle, from rest back to rest, in which the send of a batch fails ends
/// with the watermark it began with: nothing of the cycle is committed.
pub proof fn lemma_failed_send_keeps_watermark(
    states: Seq<SourceSync>,
    events: Seq<CycleEvent>,
    actions: Seq<CycleAction>,
    k: int,
)
    requires
        is_run(states, events, actions),
        states[0].wf(),
        states[0].phase == CyclePhase::Idle,
        states.last().phase == CyclePhase::Idle,
        forall|i: int| 0 < i < states.len() - 1 ==> (#[trigger] states[i]).phase != CyclePhase::Idle,
        0 <= k < events.len(),
        states[k].phase == CyclePhase::Sending,
        events[k] is BatchFailed,
    ensures
        states.last().watermark == states[0].watermark,
{
    assert(step_relation(states[k], events[k], states[k + 1], actions[k]));
    assert(states[k + 1].phase == CyclePhase::Idle);
    assert(k + 1 == states.len() - 1);
    assert forall|j: int| 0 <= j <= k implies (#[trigger] states[j]).watermark == states[0].watermark by {
        lemma_kept_before_failure(states, events, actions, k, j);
    }
}

proof fn lemma_kept_before_failure(
    states: Seq<SourceSync>,
    events: Seq<CycleEvent>,
    actions: Seq<CycleAction>,
    k: int,
    j: int,
)
    requires
        is_run(states, events, actions),
        states[0].wf(),
        forall|i: int| 0 < i < states.len() - 1 ==> (#[trigger] states[i]).phase != CyclePhase::Idle,
        0 <= j <= k < events.len(),
    ensures
        states[j].watermark == states[0].watermark,
    decreases j,
{
    if j > 0 {
        lemma_kept_before_failure(states, events, actions, k, j - 1);
        lemma_run_wf(states, events, actions, j - 1);
        assert(step_relation(states[j - 1], events[j - 1], states[j], actions[j - 1]));
        lemma_step_watermark(states[j - 1], events[j - 1], states[j], actions[j - 1]);
    }
}

fn rows_ascend_after(watermark: Timestamp, rows: &Vec<FetchedRow>) -> (r: bool)
    ensures
        r == rows_in_order(watermark, rows@),
{
    let mut i: usize = 0;
    while i < rows.len()
        invariant
            i <= rows@.len(),
            forall|j: int| 0 <= j < i ==> (#[trigger] rows@[j]).ordering.nanos > watermark.nanos,
            forall|j: int| 0 <= j < i && j + 1 < rows@.len() ==> (#[trigger] rows@[j]).ordering.nanos <= rows@[j + 1].ordering.nanos,
        decreases rows@.len() - i,
    {
        if rows[i].ordering.nanos <= watermark.nanos {
            return false;
        }
        if i + 1 < rows.len() && rows[i].ordering.nanos > rows[i + 1].ordering.nanos {
            return false;
        }
        i = i + 1;
    }
    true
}

fn sizes_of(rows: &Vec<FetchedRow>) -> (r: Vec<usize>)
    ensures
        r@ == row_sizes(rows@),
{
    let mut r: Vec<usize> = Vec::new();
    let mut i: usize = 0;
    while i < rows.len()
        invariant
            i <= rows@.len(),
            r@ == row_sizes(rows@.subrange(0, i as int)),
        decreases rows@.len() - i,
    {
        r.push(rows[i].line_size);
        i = i + 1;
        assert(r@ =~= row_sizes(rows@.subrange(0, i as int)));
    }
    assert(rows@.subrange(0, i as int) =~= rows@);
    r
}

impl SourceSync {
    /// A source at rest, with the given caps and watermark.
    pub fn new(caps: BatchCaps, watermark: Timestamp) -> (r: SourceSync)
        requires
            caps.max_docs > 0,
        ensures
            r.wf(),
            r.caps == caps,
            r.watermark == watermark,
            r.phase == CyclePhase::Idle,
    {
        SourceSync { caps, watermark, phase: CyclePhase::Idle, plan: Vec::new(), next_batch: 0, pending: watermark }
    }

    /// Advances the cycle by one event and returns what to do next.
    pub fn step(&mut self, event: CycleEvent) -> (action: CycleAction)
        requires
            old(self).wf(),
        ensures
            final(self).wf(),
            step_relation(*old(self), event, *final(self), action),
    {
        match (self.phase, event) {
            (CyclePhase::Idle, CycleEvent::Tick) => {
                self.phase = CyclePhase::Fetching;
                CycleAction::Fetch { since: self.watermark }
            },
            (CyclePhase::Fetching, CycleEvent::FetchFailed) => {
                self.phase = CyclePhase::Idle;
                CycleAction::Fail(SyncError::SourceUnavailable)
            },
            (CyclePhase::Fetching, CycleEvent::Fetched { rows }) => {
                if rows.len() == 0 {
                    self.phase = CyclePhase::Idle;
                    CycleAction::Finish
                } else if !rows_ascend_after(self.watermark, &rows) {
                    self.phase = CyclePhase::Idle;
                    CycleAction::Fail(SyncError::SourceOutOfOrder)
                } else {
                    let sizes = sizes_of(&rows);
                    let plan = plan_batches(&sizes, &self.caps);
                    proof {
                        if plan@.len() == 0 {
                            assert(sizes@.len() == 0);
                        }
                        assert(rows@[rows@.len() - 1].ordering.nanos > self.watermark.nanos);
                    }
                    let first = plan[0];
                    self.pending = rows[rows.len() - 1].ordering;
                    self.plan = plan;
                    self.next_batch = 1;
                    self.phase = CyclePhase::Sending;
                    CycleAction::Send { span: first }
                }
            },
            (CyclePhase::Sending, CycleEvent::BatchSent) => {
                if self.next_batch < self.plan.len() {
                    let span = self.plan[self.next_batch];
                    self.next_batch = self.next_batch + 1;
                    CycleAction::Send { span }
                } else {
                    self.phase = CyclePhase::Committing;
                    CycleAction::Commit { watermark: self.pending }
                }
            },
            (CyclePhase::Sending, CycleEvent::BatchFailed { error }) => {
                self.phase = CyclePhase::Idle;
                CycleAction::Fail(error)
            },
            (CyclePhase::Committing, CycleEvent::Committed) => {
                self.phase = CyclePhase::Idle;
                self.watermark = self.pending;
                CycleAction::Finish
            },
            (CyclePhase::Committing, CycleEvent::CommitFailed) => {
                self.phase = CyclePhase::Idle;
                CycleAction::Fail(SyncError::PersistenceError)
            },
            _ => CycleAction::Wait,
        }
    }
}

} // verus!
