//! The sync worker's decisions: how a push phase walks a batch, oldest entry
//! first, stopping at the first one that cannot be forwarded; what a pull
//! applies; and in what order the worker's loop takes up its duties.

use crate::forward::{plan_for, plan_forward, ForwardPlan, PlanView};
use crate::rows::{RowInsert, RowView};
use crate::services::db_service::DbService;
use crate::sync_queue::{
    item_views, lemma_ack_head, QueueItem, QueueItemView, QueueView, SyncQueue,
};
use vstd::prelude::*;

verus! {

/// Where a push phase stands.
#[derive(Clone, Copy, Debug, PartialEq, Eq, Structural)]
pub enum PhaseStatus {
    /// The entry under the cursor has not been looked at.
    Ready,
    /// The row of the entry under the cursor is with the remote store.
    Awaiting,
    /// The entry under the cursor could not be forwarded; the phase is over.
    Blocked,
    /// Every entry of the batch was forwarded; the phase is over.
    Finished,
}

/// What the worker does next in a push phase.
#[derive(Debug, PartialEq, Eq)]
pub enum Step {
    /// Send `row` to the remote store for the entry `id`, then settle.
    Forward { id: i64, row: RowInsert },
    /// The phase is over for this tick.
    Idle,
}

/// Mathematical value of a [`Step`].
pub enum StepView {
    Forward { id: int, row: RowView },
    Idle,
}

impl View for Step {
    type V = StepView;

    open spec fn view(&self) -> StepView {
        match *self {
            Step::Forward { id, row } => StepView::Forward { id: id as int, row: row@ },
            Step::Idle => StepView::Idle,
        }
    }
}

/// The first position at or after `from` whose entry is not acknowledged on
/// sight; the length of the batch where there is none.
pub open spec fn next_stop(batch: Seq<QueueItemView>, from: nat) -> nat
    decreases batch.len() - from,
{
    if from >= batch.len() {
        batch.len()
    } else if plan_for(batch[from as int]) is Acknowledge {
        next_stop(batch, from + 1)
    } else {
        from
    }
}

/// A stop lies between its start and the end of the batch, and is the end
/// or an entry that is not acknowledged on sight.
pub proof fn lemma_next_stop(batch: Seq<QueueItemView>, from: nat)
    requires
        from <= batch.len(),
    ensures
        from <= next_stop(batch, from) <= batch.len(),
        next_stop(batch, from) < batch.len() ==> !(plan_for(
            batch[next_stop(batch, from) as int],
        ) is Acknowledge),
        forall|i: int| from <= i < next_stop(batch, from) ==> plan_for(#[trigger] batch[i]) is Acknowledge,
    decreases batch.len() - from,
{
    if from < batch.len() && plan_for(batch[from as int]) is Acknowledge {
        lemma_next_stop(batch, from + 1);
    }
}

/// The queue after the entries of `batch` from `from` up to `to` were
/// acknowledged, one after the other.
pub open spec fn acked_run(queue: QueueView, batch: Seq<QueueItemView>, from: nat, to: nat) -> QueueView
    decreases to - from,
{
    if from >= to {
        queue
    } else {
        acked_run(queue.ack(batch[from as int].id), batch, from + 1, to)
    }
}

/// Mathematical value of a [`PushPhase`]: the batch it walks, how many of its
/// entries are resolved, and where it stands.
pub struct PhaseView {
    pub batch: Seq<QueueItemView>,
    pub cursor: nat,
    pub status: PhaseStatus,
}

impl PhaseView {
    /// The cursor is within the batch and agrees with the status.
    pub open spec fn well_formed(self) -> bool {
        &&& self.cursor <= self.batch.len()
        &&& self.status == PhaseStatus::Awaiting ==> self.cursor < self.batch.len() && plan_for(
            self.batch[self.cursor as int],
        ) is Insert
        &&& self.status == PhaseStatus::Blocked ==> self.cursor < self.batch.len()
        &&& self.status == PhaseStatus::Finished ==> self.cursor == self.batch.len()
    }

    /// The phase that starts on `queue` with batches of `limit`.
    pub open spec fn begin(queue: QueueView, limit: nat) -> PhaseView {
        PhaseView { batch: queue.batch(limit), cursor: 0, status: PhaseStatus::Ready }
    }

    /// Whether the phase is over for this tick.
    pub open spec fn over(self) -> bool {
        self.status == PhaseStatus::Blocked || self.status == PhaseStatus::Finished
    }

    /// One advance: the entries from the cursor on that need no word to the
    /// remote store are acknowledged, up to the first that does or that is
    /// rejected. The first kind is handed out, the second blocks the phase.
    pub open spec fn advance(self, queue: QueueView) -> (PhaseView, QueueView, StepView) {
        if self.over() {
            (self, queue, StepView::Idle)
        } else {
            let stop = next_stop(self.batch, self.cursor);
            let rest = acked_run(queue, self.batch, self.cursor, stop);
            if stop >= self.batch.len() {
                (
                    PhaseView { batch: self.batch, cursor: stop, status: PhaseStatus::Finished },
                    rest,
                    StepView::Idle,
                )
            } else {
                match plan_for(self.batch[stop as int]) {
                    PlanView::Insert(row) => (
                        PhaseView { batch: self.batch, cursor: stop, status: PhaseStatus::Awaiting },
                        rest,
                        StepView::Forward { id: self.batch[stop as int].id, row },
                    ),
                    _ => (
                        PhaseView { batch: self.batch, cursor: stop, status: PhaseStatus::Blocked },
                        rest,
                        StepView::Idle,
                    ),
                }
            }
        }
    }

    /// One settlement: a delivered row acknowledges its entry and frees the
    /// cursor for the next; a refused one blocks the phase and touches
    /// nothing. Outside `Awaiting` there is nothing to settle.
    pub open spec fn settle(self, queue: QueueView, delivered: bool) -> (PhaseView, QueueView) {
        if self.status == PhaseStatus::Awaiting {
            if delivered {
                (
                    PhaseView {
                        batch: self.batch,
                        cursor: self.cursor + 1,
                        status: PhaseStatus::Ready,
                    },
                    queue.ack(self.batch[self.cursor as int].id),
                )
            } else {
                (
                    PhaseView { batch: self.batch, cursor: self.cursor, status: PhaseStatus::Blocked },
                    queue,
                )
            }
        } else {
            (self, queue)
        }
    }
}

/// One push phase of the sync worker over one batch.
pub struct PushPhase {
    batch: Vec<QueueItem>,
    cursor: usize,
    status: PhaseStatus,
}

impl View for PushPhase {
    type V = PhaseView;

    closed spec fn view(&self) -> PhaseView {
        PhaseView {
            batch: item_views(self.batch@),
            cursor: self.cursor as nat,
            status: self.status,
        }
    }
}

impl PushPhase {
    /// Starts a push phase on the `limit` oldest entries of `queue`.
    pub fn begin(queue: &SyncQueue, limit: usize) -> (phase: PushPhase)
        ensures
            phase@ == PhaseView::begin(queue@, limit as nat),
            phase@.well_formed(),
    {
        let batch = queue.peek_batch(limit);
        PushPhase { batch, cursor: 0, status: PhaseStatus::Ready }
    }

    /// Where the phase stands.
    pub fn status(&self) -> (status: PhaseStatus)
        ensures
            status == self@.status,
    {
        self.status
    }

    /// Number of entries of the batch that are resolved.
    pub fn resolved(&self) -> (count: usize)
        ensures
            count == self@.cursor,
    {
        self.cursor
    }

    /// The ids of the entries that this phase has acknowledged, oldest first.
    pub fn resolved_ids(&self) -> (ids: Vec<i64>)
        requires
            self@.well_formed(),
        ensures
            ids@.len() == self@.cursor,
            forall|i: int| 0 <= i < ids@.len() ==> ids@[i] == self@.batch[i].id,
    {
        let mut ids: Vec<i64> = Vec::new();
        let mut i: usize = 0;
        while i < self.cursor
            invariant
                i <= self.cursor <= self.batch@.len(),
                ids@.len() == i,
                forall|k: int| 0 <= k < i ==> ids@[k] == self.batch@[k].id,
            decreases self.cursor - i,
        {
            ids.push(self.batch[i].id);
            i += 1;
        }
        ids
    }

    /// The id of the entry that blocks the queue, where the phase is blocked.
    pub fn blocked_on(&self) -> (id: Option<i64>)
        requires
            self@.well_formed(),
        ensures
            id == (if self@.status == PhaseStatus::Blocked {
                Some(self@.batch[self@.cursor as int].id as i64)
            } else {
                None
            }),
    {
        match self.status {
            PhaseStatus::Blocked => Some(self.batch[self.cursor].id),
            _ => None,
        }
    }

    /// Walks on from the cursor: acknowledges what needs no word to the remote
    /// store and stops at the first entry that does, or that is rejected, or
    /// at the end of the batch.
    pub fn advance(&mut self, queue: &mut SyncQueue) -> (step: Step)
        requires
            old(self)@.well_formed(),
            old(queue)@.well_formed(),
        ensures
            (final(self)@, final(queue)@, step@) == old(self)@.advance(old(queue)@),
            final(self)@.well_formed(),
            final(queue)@.well_formed(),
            step matches Step::Forward { row, .. } ==> row@.fills_statement(),
    {
        match self.status {
            PhaseStatus::Blocked => {
                return Step::Idle;
            },
            PhaseStatus::Finished => {
                return Step::Idle;
            },
            _ => {},
        }
        let ghost stop = next_stop(old(self)@.batch, old(self)@.cursor);
        let ghost target = acked_run(old(queue)@, old(self)@.batch, old(self)@.cursor, stop);
        while self.cursor < self.batch.len()
            invariant
                self.batch == old(self).batch,
                self.cursor <= self.batch@.len(),
                self.status == old(self).status,
                !old(self)@.over(),
                queue@.well_formed(),
                stop == next_stop(old(self)@.batch, old(self)@.cursor),
                target == acked_run(old(queue)@, old(self)@.batch, old(self)@.cursor, stop),
                stop == next_stop(self@.batch, self@.cursor),
                target == acked_run(queue@, self@.batch, self@.cursor, stop),
            decreases self.batch@.len() - self.cursor,
        {
            let plan = plan_forward(&self.batch[self.cursor]);
            proof {
                assert(self@.batch[self.cursor as int] == self.batch@[self.cursor as int]@);
                lemma_next_stop(self@.batch, self@.cursor);
                if plan is Acknowledge {
                    assert(stop == next_stop(self@.batch, (self.cursor + 1) as nat));
                    lemma_next_stop(self@.batch, (self.cursor + 1) as nat);
                }
            }
            match plan {
                ForwardPlan::Acknowledge => {
                    queue.ack(self.batch[self.cursor].id);
                    self.cursor = self.cursor + 1;
                },
                ForwardPlan::Insert(row) => {
                    self.status = PhaseStatus::Awaiting;
                    return Step::Forward { id: self.batch[self.cursor].id, row };
                },
                ForwardPlan::Reject(_) => {
                    self.status = PhaseStatus::Blocked;
                    return Step::Idle;
                },
            }
        }
        self.status = PhaseStatus::Finished;
        Step::Idle
    }

    /// Takes the remote store's answer for the row that `advance` handed out.
    pub fn settle(&mut self, queue: &mut SyncQueue, delivered: bool)
        requires
            old(self)@.well_formed(),
            old(queue)@.well_formed(),
        ensures
            (final(self)@, final(queue)@) == old(self)@.settle(old(queue)@, delivered),
            final(self)@.well_formed(),
            final(queue)@.well_formed(),
    {
        match self.status {
            PhaseStatus::Awaiting => {
                let total = self.batch.len();
                assert(self.cursor < total);
                if delivered {
                    queue.ack(self.batch[self.cursor].id);
                    self.cursor = self.cursor + 1;
                    self.status = PhaseStatus::Ready;
                } else {
                    self.status = PhaseStatus::Blocked;
                }
            },
            _ => {},
        }
    }
}

/// Whether an entry is forwarded in a tick in which the remote store takes
/// the rows of exactly the entries that `remote` holds of: an entry that
/// needs no row always is, a rejected one never.
pub open spec fn forwards(item: QueueItemView, remote: spec_fn(int) -> bool) -> bool {
    match plan_for(item) {
        PlanView::Acknowledge => true,
        PlanView::Insert(_) => remote(item.id),
        PlanView::Reject(_) => false,
    }
}

impl PhaseView {
    /// The phase and the queue at the end of the worker's loop: advance,
    /// send what is handed out, settle with the remote store's answer, until
    /// an advance hands out nothing.
    pub open spec fn drive(self, queue: QueueView, remote: spec_fn(int) -> bool) -> (
        PhaseView,
        QueueView,
    )
        decreases self.batch.len() - self.cursor,
    {
        if !self.well_formed() {
            (self, queue)
        } else {
            let (phase, rest, step) = self.advance(queue);
            match step {
                StepView::Idle => (phase, rest),
                StepView::Forward { id, .. } => {
                    let (after, left) = phase.settle(rest, remote(id));
                    if remote(id) {
                        proof {
                            lemma_next_stop(self.batch, self.cursor);
                        }
                        after.drive(left, remote)
                    } else {
                        (after, left)
                    }
                },
            }
        }
    }
}

/// The queue after one tick of the worker with batches of `limit`.
pub open spec fn tick(queue: QueueView, limit: nat, remote: spec_fn(int) -> bool) -> QueueView {
    PhaseView::begin(queue, limit).drive(queue, remote).1
}

/// The queue after `count` ticks in a row.
pub open spec fn ticks(
    queue: QueueView,
    limit: nat,
    remote: spec_fn(int) -> bool,
    count: nat,
) -> QueueView
    decreases count,
{
    if count == 0 {
        queue
    } else {
        ticks(tick(queue, limit, remote), limit, remote, (count - 1) as nat)
    }
}

/// Acknowledging a run of entries that stand at the head of the queue takes
/// exactly that run off the head.
proof fn lemma_acked_run_takes_head(
    base: QueueView,
    queue: QueueView,
    batch: Seq<QueueItemView>,
    from: nat,
    to: nat,
)
    requires
        base.well_formed(),
        queue.well_formed(),
        from <= to <= batch.len() <= base.items.len(),
        batch == base.items.take(batch.len() as int),
        queue.items == base.items.skip(from as int),
        queue.last_id == base.last_id,
    ensures
        acked_run(queue, batch, from, to).items == base.items.skip(to as int),
        acked_run(queue, batch, from, to).last_id == base.last_id,
        acked_run(queue, batch, from, to).well_formed(),
    decreases to - from,
{
    if from < to {
        assert(queue.items[0] == batch[from as int]);
        lemma_ack_head(queue);
        let next = queue.ack(batch[from as int].id);
        assert(next.items =~= base.items.skip(from as int + 1));
        lemma_acked_run_takes_head(base, next, batch, from + 1, to);
    }
}

/// How a phase ends, from any point of a batch on: it is over; what it
/// resolved is a run of entries that were forwarded; the queue has lost that
/// run from its head and nothing else; and where the phase is blocked, the
/// entry under the cursor was not forwarded.
proof fn lemma_drive(
    base: QueueView,
    phase: PhaseView,
    queue: QueueView,
    remote: spec_fn(int) -> bool,
)
    requires
        base.well_formed(),
        queue.well_formed(),
        phase.well_formed(),
        phase.status == PhaseStatus::Ready,
        phase.batch.len() <= base.items.len(),
        phase.batch == base.items.take(phase.batch.len() as int),
        queue.items == base.items.skip(phase.cursor as int),
        queue.last_id == base.last_id,
    ensures
        ({
            let (end, left) = phase.drive(queue, remote);
            &&& end.batch == phase.batch
            &&& end.well_formed()
            &&& end.over()
            &&& phase.cursor <= end.cursor
            &&& left.items == base.items.skip(end.cursor as int)
            &&& left.last_id == base.last_id
            &&& left.well_formed()
            &&& forall|i: int| phase.cursor <= i < end.cursor ==> forwards(#[trigger] phase.batch[i], remote)
            &&& end.status == PhaseStatus::Blocked ==> !forwards(phase.batch[end.cursor as int], remote)
        }),
    decreases phase.batch.len() - phase.cursor,
{
    let stop = next_stop(phase.batch, phase.cursor);
    lemma_next_stop(phase.batch, phase.cursor);
    lemma_acked_run_takes_head(base, queue, phase.batch, phase.cursor, stop);
    let (at_stop, rest, step) = phase.advance(queue);
    match step {
        StepView::Idle => {},
        StepView::Forward { id, .. } => {
            if remote(id) {
                let (after, left) = at_stop.settle(rest, true);
                assert(rest.items[0] == phase.batch[stop as int]);
                lemma_ack_head(rest);
                assert(left.items =~= base.items.skip(stop as int + 1));
                lemma_drive(base, after, left, remote);
                let (end, last) = after.drive(left, remote);
                assert forall|i: int| phase.cursor <= i < end.cursor implies forwards(
                    #[trigger] phase.batch[i],
                    remote,
                ) by {
                    if i < stop {
                        assert(plan_for(phase.batch[i]) is Acknowledge);
                    } else if i == stop {
                    } else {
                        assert(forwards(after.batch[i], remote));
                    }
                }
            }
        },
    }
}

/// Head-of-line blocking. A tick takes a run of forwarded entries off the
/// head of the queue, no longer than the batch, and nothing else: the first
/// entry of the batch that is not forwarded stays at the head, and every
/// entry behind it stays behind it, in order, whether it could have been
/// forwarded or not.
pub proof fn lemma_tick_blocks_at_first_failure(
    queue: QueueView,
    limit: nat,
    remote: spec_fn(int) -> bool,
) -> (resolved: nat)
    requires
        queue.well_formed(),
    ensures
        resolved <= queue.batch(limit).len(),
        tick(queue, limit, remote).items == queue.items.skip(resolved as int),
        tick(queue, limit, remote).last_id == queue.last_id,
        tick(queue, limit, remote).well_formed(),
        forall|i: int| 0 <= i < resolved ==> forwards(#[trigger] queue.items[i], remote),
        resolved < queue.batch(limit).len() ==> !forwards(queue.items[resolved as int], remote),
{
    let phase = PhaseView::begin(queue, limit);
    assert(queue.items.take(queue.items.len() as int) == queue.items);
    assert(queue.items.skip(0) == queue.items);
    lemma_drive(queue, phase, queue, remote);
    let (end, left) = phase.drive(queue, remote);
    assert forall|i: int| 0 <= i < end.cursor implies forwards(
        #[trigger] queue.items[i],
        remote,
    ) by {
        assert(phase.batch[i] == queue.items[i]);
    }
    end.cursor
}

/// A tick on a queue whose every entry is forwarded takes a whole batch.
pub proof fn lemma_tick_takes_batch(queue: QueueView, limit: nat, remote: spec_fn(int) -> bool)
    requires
        queue.well_formed(),
        forall|i: int| 0 <= i < queue.items.len() ==> forwards(#[trigger] queue.items[i], remote),
    ensures
        tick(queue, limit, remote).items == queue.items.skip(queue.batch(limit).len() as int),
        tick(queue, limit, remote).well_formed(),
{
    let resolved = lemma_tick_blocks_at_first_failure(queue, limit, remote);
}

/// At-least-once forwarding. While the remote store takes every row and no
/// payload is rejected, each tick shortens the queue by a batch, so a queue
/// of `n` entries is empty after any number of ticks that, times the batch
/// limit, reaches `n`.
pub proof fn lemma_queue_drains(
    queue: QueueView,
    limit: nat,
    remote: spec_fn(int) -> bool,
    count: nat,
)
    requires
        queue.well_formed(),
        forall|i: int| 0 <= i < queue.items.len() ==> forwards(#[trigger] queue.items[i], remote),
        count * limit >= queue.items.len(),
    ensures
        ticks(queue, limit, remote, count).items.len() == 0,
        ticks(queue, limit, remote, count).last_id == queue.last_id,
    decreases count,
{
    if count == 0 {
        assert(count * limit == 0);
    } else {
        lemma_tick_takes_batch(queue, limit, remote);
        let resolved = lemma_tick_blocks_at_first_failure(queue, limit, remote);
        let next = tick(queue, limit, remote);
        let taken = queue.batch(limit).len();
        assert forall|i: int| 0 <= i < next.items.len() implies forwards(
            #[trigger] next.items[i],
            remote,
        ) by {
            assert(next.items[i] == queue.items[i + taken]);
        }
        assert((count - 1) * limit >= next.items.len()) by (nonlinear_arith)
            requires
                count >= 1,
                count * limit >= queue.items.len(),
                next.items.len() == queue.items.len() - taken,
                taken == limit || taken == queue.items.len(),
        ;
        lemma_queue_drains(next, limit, remote, (count - 1) as nat);
    }
}

/// One duty of the worker's loop.
#[derive(Clone, Copy, Debug, PartialEq, Eq, Structural)]
pub enum Duty {
    /// Drain a batch of the queue into the remote store.
    Push,
    /// Bring what changed in the remote store since the last pull.
    Pull,
    /// Wait before the next iteration.
    Sleep { seconds: u64 },
}

/// Where the worker stands within an iteration of its loop.
#[derive(Clone, Copy, Debug, PartialEq, Eq, Structural)]
pub enum Stage {
    /// At the start of an iteration.
    Waking,
    /// The push phase is done.
    Pushed,
    /// The pull phase is done.
    Pulled,
}

impl Stage {
    /// The duty that follows this stage, and the stage after it. An iteration
    /// pushes, pulls and sleeps; without a remote store it leaves the push out.
    pub open spec fn duty(self, remote_available: bool, interval_secs: u64) -> (Duty, Stage) {
        match self {
            Stage::Waking => if remote_available {
                (Duty::Push, Stage::Pushed)
            } else {
                (Duty::Pull, Stage::Pulled)
            },
            Stage::Pushed => (Duty::Pull, Stage::Pulled),
            Stage::Pulled => (Duty::Sleep { seconds: interval_secs }, Stage::Waking),
        }
    }
}

/// The worker's perpetual loop, as the sequence of its duties.
pub struct WorkerLoop {
    pub stage: Stage,
    pub interval_secs: u64,
}

impl WorkerLoop {
    /// The next duty of the loop. There always is one: the loop never ends.
    pub fn next_duty(&mut self, remote_available: bool) -> (duty: Duty)
        ensures
            (duty, final(self).stage) == old(self).stage.duty(
                remote_available,
                old(self).interval_secs,
            ),
            final(self).interval_secs == old(self).interval_secs,
    {
        match self.stage {
            Stage::Waking => if remote_available {
                self.stage = Stage::Pushed;
                Duty::Push
            } else {
                self.stage = Stage::Pulled;
                Duty::Pull
            },
            Stage::Pushed => {
                self.stage = Stage::Pulled;
                Duty::Pull
            },
            Stage::Pulled => {
                self.stage = Stage::Waking;
                Duty::Sleep { seconds: self.interval_secs }
            },
        }
    }
}

/// The settings of the sync worker.
pub struct SyncService {
    /// How many entries a push phase takes on at most.
    pub batch_limit: usize,
    /// How long the worker sleeps between two iterations.
    pub interval_secs: u64,
}

impl SyncService {
    /// A worker that takes ten entries per tick and sleeps ten seconds.
    pub fn new() -> (service: SyncService)
        ensures
            service.batch_limit == 10,
            service.interval_secs == 10,
    {
        SyncService { batch_limit: 10, interval_secs: 10 }
    }

    /// The worker's loop, at the start of its first iteration.
    pub fn start_sync_worker(&self) -> (worker: WorkerLoop)
        ensures
            worker.stage == Stage::Waking,
            worker.interval_secs == self.interval_secs,
    {
        WorkerLoop { stage: Stage::Waking, interval_secs: self.interval_secs }
    }

    /// Starts a push phase on the oldest entries of the local store's queue.
    pub fn process_queue(&self, db: &DbService) -> (phase: PushPhase)
        ensures
            phase@ == PhaseView::begin(db.queue@, self.batch_limit as nat),
            phase@.well_formed(),
    {
        PushPhase::begin(&db.queue, self.batch_limit)
    }
}

/// Every iteration of the loop ends in a sleep of the configured length and
/// brings the worker back to the start of the next: after two duties without
/// a remote store, after three with one.
pub proof fn lemma_iteration_ends_in_sleep(remote_available: bool, interval_secs: u64)
    ensures
        ({
            let (first, after_first) = Stage::Waking.duty(remote_available, interval_secs);
            let (second, after_second) = after_first.duty(remote_available, interval_secs);
            let (third, after_third) = after_second.duty(remote_available, interval_secs);
            if remote_available {
                &&& first == Duty::Push
                &&& second == Duty::Pull
                &&& third == (Duty::Sleep { seconds: interval_secs })
                &&& after_third == Stage::Waking
            } else {
                &&& first == Duty::Pull
                &&& second == (Duty::Sleep { seconds: interval_secs })
                &&& after_second == Stage::Waking
            }
        }),
{
}

/// The outcome of a pull: which of the reported changes to apply, and the
/// watermark to keep for the next pull.
#[derive(Debug, PartialEq, Eq)]
pub struct Pull {
    /// For each reported change, in order, whether it is newer than the
    /// watermark was and so has to be applied.
    pub fresh: Vec<bool>,
    pub watermark: i64,
}

/// The latest of `watermark` and the times in `changed_at`.
pub open spec fn latest(watermark: i64, changed_at: Seq<i64>) -> i64
    decreases changed_at.len(),
{
    if changed_at.len() == 0 {
        watermark
    } else {
        let before = latest(watermark, changed_at.drop_last());
        if changed_at.last() > before {
            changed_at.last()
        } else {
            before
        }
    }
}

/// The latest time is none before the watermark and none before any change.
pub proof fn lemma_latest_bounds(watermark: i64, changed_at: Seq<i64>)
    ensures
        watermark <= latest(watermark, changed_at),
        forall|i: int| 0 <= i < changed_at.len() ==> changed_at[i] <= latest(watermark, changed_at),
    decreases changed_at.len(),
{
    if changed_at.len() > 0 {
        lemma_latest_bounds(watermark, changed_at.drop_last());
        assert forall|i: int| 0 <= i < changed_at.len() implies changed_at[i] <= latest(
            watermark,
            changed_at,
        ) by {
            if i < changed_at.len() - 1 {
                assert(changed_at.drop_last()[i] == changed_at[i]);
            }
        }
    }
}

/// Pulling is idempotent: once a report was pulled, pulling the same report
/// again finds nothing to apply and leaves the watermark where it is.
pub proof fn lemma_pull_is_idempotent(watermark: i64, changed_at: Seq<i64>)
    ensures
        forall|i: int| 0 <= i < changed_at.len() ==> !(changed_at[i] > latest(watermark, changed_at)),
        latest(latest(watermark, changed_at), changed_at) == latest(watermark, changed_at),
{
    lemma_latest_bounds(watermark, changed_at);
    lemma_latest_of_old_changes(latest(watermark, changed_at), changed_at);
}

/// Changes that are not newer than the watermark leave it where it is.
proof fn lemma_latest_of_old_changes(watermark: i64, changed_at: Seq<i64>)
    requires
        forall|i: int| 0 <= i < changed_at.len() ==> changed_at[i] <= watermark,
    ensures
        latest(watermark, changed_at) == watermark,
    decreases changed_at.len(),
{
    if changed_at.len() > 0 {
        assert forall|i: int| 0 <= i < changed_at.drop_last().len() implies changed_at.drop_last()[i]
            <= watermark by {
            assert(changed_at.drop_last()[i] == changed_at[i]);
        }
        lemma_latest_of_old_changes(watermark, changed_at.drop_last());
    }
}

impl SyncService {
    /// Decides a pull over the changes that the remote store reported, each
    /// by the time at which it was made: a change is applied exactly when
    /// it is newer than `watermark`, and the new watermark is the latest time
    /// seen.
    pub fn sync_down(&self, watermark: i64, changed_at: &Vec<i64>) -> (pull: Pull)
        ensures
            pull.fresh@.len() == changed_at@.len(),
            forall|i: int| 0 <= i < changed_at@.len() ==> pull.fresh@[i] == (changed_at@[i] > watermark),
            pull.watermark == latest(watermark, changed_at@),
    {
        let mut fresh: Vec<bool> = Vec::new();
        let mut seen = watermark;
        let mut i: usize = 0;
        while i < changed_at.len()
            invariant
                i <= changed_at@.len(),
                fresh@.len() == i,
                forall|k: int| 0 <= k < i ==> fresh@[k] == (changed_at@[k] > watermark),
                seen == latest(watermark, changed_at@.take(i as int)),
            decreases changed_at@.len() - i,
        {
            let at = changed_at[i];
            fresh.push(at > watermark);
            proof {
                assert(changed_at@.take(i + 1).drop_last() =~= changed_at@.take(i as int));
            }
            if at > seen {
                seen = at;
            }
            i += 1;
        }
        assert(changed_at@.take(i as int) =~= changed_at@);
        Pull { fresh, watermark: seen }
    }
}

} // verus!
