//! The pending-mutation queue: an append-only log of `(table, operation, payload)`
//! entries, read oldest first and shortened only by acknowledgement.

use crate::text::str_eq;
use vstd::prelude::*;

verus! {

/// Kind of change that a queue entry carries.
#[derive(Clone, Copy, Debug, PartialEq, Eq, Structural)]
pub enum Operation {
    Insert,
    Update,
    Delete,
}

impl Operation {
    /// The word under which the store keeps this operation.
    pub open spec fn code_of(self) -> Seq<char> {
        match self {
            Operation::Insert => "INSERT"@,
            Operation::Update => "UPDATE"@,
            Operation::Delete => "DELETE"@,
        }
    }

    /// The operation that `code` stands for, if any.
    pub open spec fn coded(code: Seq<char>) -> Option<Operation> {
        if code == "INSERT"@ {
            Some(Operation::Insert)
        } else if code == "UPDATE"@ {
            Some(Operation::Update)
        } else if code == "DELETE"@ {
            Some(Operation::Delete)
        } else {
            None
        }
    }

    /// The word under which the store keeps this operation.
    pub fn code(self) -> (code: &'static str)
        ensures
            code@ == self.code_of(),
    {
        match self {
            Operation::Insert => "INSERT",
            Operation::Update => "UPDATE",
            Operation::Delete => "DELETE",
        }
    }

    /// The operation that `code` stands for; `None` for any other word.
    pub fn from_code(code: &str) -> (operation: Option<Operation>)
        ensures
            operation == Operation::coded(code@),
    {
        if str_eq(code, "INSERT") {
            Some(Operation::Insert)
        } else if str_eq(code, "UPDATE") {
            Some(Operation::Update)
        } else if str_eq(code, "DELETE") {
            Some(Operation::Delete)
        } else {
            None
        }
    }
}

/// Every operation is read back from its own word.
pub proof fn lemma_operation_codes_round_trip(operation: Operation)
    ensures
        Operation::coded(operation.code_of()) == Some(operation),
{
    reveal_strlit("INSERT");
    reveal_strlit("UPDATE");
    reveal_strlit("DELETE");
    assert("INSERT"@[0] == 'I');
    assert("UPDATE"@[0] == 'U');
    assert("DELETE"@[0] == 'D');
}

/// One pending mutation.
#[derive(Debug, PartialEq, Eq)]
pub struct QueueItem {
    pub id: i64,
    pub table_name: String,
    pub operation: Operation,
    pub payload: String,
    pub enqueued_at: i64,
}

/// Mathematical value of a [`QueueItem`].
pub struct QueueItemView {
    pub id: int,
    pub table_name: Seq<char>,
    pub operation: Operation,
    pub payload: Seq<char>,
    pub enqueued_at: int,
}

impl View for QueueItem {
    type V = QueueItemView;

    open spec fn view(&self) -> QueueItemView {
        QueueItemView {
            id: self.id as int,
            table_name: self.table_name@,
            operation: self.operation,
            payload: self.payload@,
            enqueued_at: self.enqueued_at as int,
        }
    }
}

impl QueueItem {
    /// An independent copy of this entry.
    pub fn duplicate(&self) -> (copy: QueueItem)
        ensures
            copy@ == self@,
    {
        QueueItem {
            id: self.id,
            table_name: self.table_name.clone(),
            operation: self.operation,
            payload: self.payload.clone(),
            enqueued_at: self.enqueued_at,
        }
    }
}

/// The values of a run of entries, in the same order.
pub open spec fn item_views(items: Seq<QueueItem>) -> Seq<QueueItemView> {
    Seq::new(items.len(), |i: int| items[i]@)
}

/// Ids grow strictly from the front of `items` to its back.
pub open spec fn ascending(items: Seq<QueueItemView>) -> bool {
    forall|i: int, j: int| 0 <= i < j < items.len() ==> items[i].id < items[j].id
}

/// Some entry of `items` carries `id`.
pub open spec fn pending(items: Seq<QueueItemView>, id: int) -> bool {
    exists|i: int| 0 <= i < items.len() && items[i].id == id
}

/// A position at which `items` carries `id`, where there is one.
pub open spec fn position_of(items: Seq<QueueItemView>, id: int) -> int {
    choose|i: int| 0 <= i < items.len() && items[i].id == id
}

/// `items` with the entry that carries `id` taken out; `items` itself where none does.
pub open spec fn without(items: Seq<QueueItemView>, id: int) -> Seq<QueueItemView> {
    if pending(items, id) {
        items.remove(position_of(items, id))
    } else {
        items
    }
}

/// Mathematical value of a [`SyncQueue`]: the unresolved entries, oldest first,
/// and the highest id handed out so far.
pub struct QueueView {
    pub items: Seq<QueueItemView>,
    pub last_id: int,
}

impl QueueView {
    /// Ids are positive, never above `last_id`, and strictly ascending.
    pub open spec fn well_formed(self) -> bool {
        &&& 0 <= self.last_id
        &&& ascending(self.items)
        &&& forall|i: int| 0 <= i < self.items.len() ==> 1 <= #[trigger] self.items[i].id <= self.last_id
    }

    /// The queue after one more entry was appended under the next id.
    pub open spec fn enqueue(
        self,
        table_name: Seq<char>,
        operation: Operation,
        payload: Seq<char>,
        enqueued_at: int,
    ) -> QueueView {
        QueueView {
            items: self.items.push(
                QueueItemView {
                    id: self.last_id + 1,
                    table_name,
                    operation,
                    payload,
                    enqueued_at,
                },
            ),
            last_id: self.last_id + 1,
        }
    }

    /// The `limit` oldest unresolved entries, or all of them where there are fewer.
    pub open spec fn batch(self, limit: nat) -> Seq<QueueItemView> {
        if limit <= self.items.len() {
            self.items.take(limit as int)
        } else {
            self.items
        }
    }

    /// The queue after `id` was acknowledged.
    pub open spec fn ack(self, id: int) -> QueueView {
        QueueView { items: without(self.items, id), last_id: self.last_id }
    }
}

/// Why an entry could not be appended.
#[derive(Clone, Copy, Debug, PartialEq, Eq, Structural)]
pub enum QueueError {
    /// Every id has been handed out.
    Exhausted,
}

/// In ascending order of id, the position of an id is unique.
pub proof fn lemma_position_unique(items: Seq<QueueItemView>, i: int)
    requires
        ascending(items),
        0 <= i < items.len(),
    ensures
        pending(items, items[i].id),
        position_of(items, items[i].id) == i,
{
    let p = position_of(items, items[i].id);
    if p < i {
        assert(items[p].id < items[i].id);
    } else if i < p {
        assert(items[i].id < items[p].id);
    }
}

/// Taking an entry out keeps the rest in ascending order and within the same bounds.
pub proof fn lemma_ack_preserves(q: QueueView, id: int)
    requires
        q.well_formed(),
    ensures
        q.ack(id).well_formed(),
        !pending(q.ack(id).items, id),
{
    let r = q.ack(id).items;
    if pending(q.items, id) {
        let p = position_of(q.items, id);
        assert forall|i: int, j: int| 0 <= i < j < r.len() implies r[i].id < r[j].id by {
            let a = if i < p { i } else { i + 1 };
            let b = if j < p { j } else { j + 1 };
            assert(r[i] == q.items[a]);
            assert(r[j] == q.items[b]);
        }
        assert forall|i: int| 0 <= i < r.len() implies 1 <= #[trigger] r[i].id <= q.last_id by {
            let a = if i < p { i } else { i + 1 };
            assert(r[i] == q.items[a]);
        }
        if pending(r, id) {
            let k = position_of(r, id);
            let a = if k < p { k } else { k + 1 };
            assert(r[k] == q.items[a]);
            if a < p {
                assert(q.items[a].id < q.items[p].id);
            } else {
                assert(q.items[p].id < q.items[a].id);
            }
        }
    }
}

/// Acknowledging the oldest entry leaves all the others, in their order.
pub proof fn lemma_ack_head(q: QueueView)
    requires
        q.well_formed(),
        q.items.len() > 0,
    ensures
        q.ack(q.items[0].id).items == q.items.skip(1),
        q.ack(q.items[0].id).last_id == q.last_id,
        q.ack(q.items[0].id).well_formed(),
{
    lemma_position_unique(q.items, 0);
    lemma_ack_preserves(q, q.items[0].id);
    assert(q.items.remove(0) =~= q.items.skip(1));
}

/// Appending under the next id keeps the queue well formed.
pub proof fn lemma_enqueue_preserves(
    q: QueueView,
    table_name: Seq<char>,
    operation: Operation,
    payload: Seq<char>,
    enqueued_at: int,
)
    requires
        q.well_formed(),
    ensures
        q.enqueue(table_name, operation, payload, enqueued_at).well_formed(),
{
    let r = q.enqueue(table_name, operation, payload, enqueued_at);
    assert forall|i: int, j: int| 0 <= i < j < r.items.len() implies r.items[i].id
        < r.items[j].id by {
        if j < q.items.len() {
            assert(r.items[i] == q.items[i]);
            assert(r.items[j] == q.items[j]);
        } else {
            assert(r.items[i] == q.items[i]);
            assert(1 <= q.items[i].id <= q.last_id);
        }
    }
    assert forall|i: int| 0 <= i < r.items.len() implies 1 <= #[trigger] r.items[i].id
        <= r.last_id by {
        if i < q.items.len() {
            assert(r.items[i] == q.items[i]);
            assert(1 <= q.items[i].id <= q.last_id);
        }
    }
}

/// One step in the life of a queue.
pub enum QueueOp {
    Enqueue { table_name: Seq<char>, operation: Operation, payload: Seq<char>, enqueued_at: int },
    Ack { id: int },
}

impl QueueView {
    /// The queue that holds nothing and has handed out no id.
    pub open spec fn empty() -> QueueView {
        QueueView { items: Seq::empty(), last_id: 0 }
    }

    /// The queue after one step.
    pub open spec fn apply(self, op: QueueOp) -> QueueView {
        match op {
            QueueOp::Enqueue { table_name, operation, payload, enqueued_at } => self.enqueue(
                table_name,
                operation,
                payload,
                enqueued_at,
            ),
            QueueOp::Ack { id } => self.ack(id),
        }
    }

    /// The queue after the steps of `ops`, first to last.
    pub open spec fn run(self, ops: Seq<QueueOp>) -> QueueView
        decreases ops.len(),
    {
        if ops.len() == 0 {
            self
        } else {
            self.run(ops.drop_last()).apply(ops.last())
        }
    }
}

/// A batch is a prefix of the unresolved entries, and so in ascending order of id.
pub proof fn lemma_batch_is_ordered_prefix(q: QueueView, limit: nat)
    requires
        q.well_formed(),
    ensures
        q.batch(limit).len() <= limit,
        q.batch(limit).len() <= q.items.len(),
        q.batch(limit) == q.items.take(q.batch(limit).len() as int),
        ascending(q.batch(limit)),
{
    assert(q.items.take(q.items.len() as int) == q.items);
}

/// Acknowledging twice is acknowledging once, and acknowledging an id that is
/// not pending leaves the queue as it was.
pub proof fn lemma_ack_is_idempotent(q: QueueView, id: int)
    requires
        q.well_formed(),
    ensures
        q.ack(id).ack(id) == q.ack(id),
        !pending(q.items, id) ==> q.ack(id) == q,
{
    lemma_ack_preserves(q, id);
}

/// Whatever is enqueued and acknowledged, in whatever order, the queue stays
/// well formed and never hands an id out twice.
pub proof fn lemma_run_preserves(q: QueueView, ops: Seq<QueueOp>)
    requires
        q.well_formed(),
    ensures
        q.run(ops).well_formed(),
        q.last_id <= q.run(ops).last_id,
    decreases ops.len(),
{
    if ops.len() > 0 {
        let before = q.run(ops.drop_last());
        lemma_run_preserves(q, ops.drop_last());
        match ops.last() {
            QueueOp::Enqueue { table_name, operation, payload, enqueued_at } => {
                lemma_enqueue_preserves(before, table_name, operation, payload, enqueued_at);
            },
            QueueOp::Ack { id } => {
                lemma_ack_preserves(before, id);
            },
        }
    }
}

/// After any sequence of enqueues and acknowledgements on a fresh queue, a
/// batch comes out in strictly ascending order of id.
pub proof fn lemma_batches_stay_ordered(ops: Seq<QueueOp>, limit: nat)
    ensures
        ascending(QueueView::empty().run(ops).batch(limit)),
{
    lemma_run_preserves(QueueView::empty(), ops);
    lemma_batch_is_ordered_prefix(QueueView::empty().run(ops), limit);
}

/// An id that was handed out and is no longer pending never comes back:
/// nothing that follows puts it in the queue, so no batch returns it.
pub proof fn lemma_acked_id_never_returns(q: QueueView, id: int, ops: Seq<QueueOp>, limit: nat)
    requires
        q.well_formed(),
        id <= q.last_id,
        !pending(q.items, id),
    ensures
        !pending(q.run(ops).items, id),
        !pending(q.run(ops).batch(limit), id),
    decreases ops.len(),
{
    let after = q.run(ops);
    if ops.len() > 0 {
        let before = q.run(ops.drop_last());
        lemma_acked_id_never_returns(q, id, ops.drop_last(), limit);
        lemma_run_preserves(q, ops.drop_last());
        if pending(after.items, id) {
            let k = position_of(after.items, id);
            match ops.last() {
                QueueOp::Enqueue { table_name, operation, payload, enqueued_at } => {
                    if k < before.items.len() {
                        assert(after.items[k] == before.items[k]);
                    }
                },
                QueueOp::Ack { id: other } => {
                    if pending(before.items, other) {
                        let p = position_of(before.items, other);
                        let a = if k < p { k } else { k + 1 };
                        assert(after.items[k] == before.items[a]);
                    }
                },
            }
        }
    }
    if pending(after.batch(limit), id) {
        let k = position_of(after.batch(limit), id);
        assert(after.batch(limit)[k] == after.items[k]);
    }
}

/// The durable queue of pending mutations, oldest first.
pub struct SyncQueue {
    items: Vec<QueueItem>,
    last_id: i64,
}

impl View for SyncQueue {
    type V = QueueView;

    closed spec fn view(&self) -> QueueView {
        QueueView { items: item_views(self.items@), last_id: self.last_id as int }
    }
}

impl SyncQueue {
    /// An empty queue that has handed out no id yet.
    pub fn new() -> (queue: SyncQueue)
        ensures
            queue@ == QueueView::empty(),
            queue@.well_formed(),
    {
        let queue = SyncQueue { items: Vec::new(), last_id: 0 };
        assert(queue@.items =~= QueueView::empty().items);
        queue
    }

    /// The queue that holds `items` and has handed out ids up to `last_id`, as
    /// read back from where it was stored. There is none where the ids are
    /// not positive, not above one another from front to back, or above
    /// `last_id`.
    pub fn restore(items: Vec<QueueItem>, last_id: i64) -> (queue: Option<SyncQueue>)
        ensures
            match queue {
                Some(q) => q@ == (QueueView { items: item_views(items@), last_id: last_id as int })
                    && q@.well_formed(),
                None => !(QueueView { items: item_views(items@), last_id: last_id as int }).well_formed(),
            },
    {
        let ghost view = QueueView { items: item_views(items@), last_id: last_id as int };
        if last_id < 0 {
            return None;
        }
        let mut previous: i64 = 0;
        let mut i: usize = 0;
        while i < items.len()
            invariant
                i <= items@.len(),
                0 <= last_id,
                previous == (if i == 0 {
                    0
                } else {
                    items@[i - 1].id
                }),
                view == (QueueView { items: item_views(items@), last_id: last_id as int }),
                forall|k: int| 0 <= k < i ==> 1 <= (#[trigger] items@[k]).id <= last_id,
                forall|j: int, k: int| 0 <= j < k < i ==> items@[j].id < items@[k].id,
            decreases items@.len() - i,
        {
            let id = items[i].id;
            if id <= previous || id > last_id {
                proof {
                    if view.well_formed() {
                        assert(1 <= view.items[i as int].id <= view.last_id);
                        if i > 0 {
                            assert(view.items[i - 1].id < view.items[i as int].id);
                        }
                    }
                }
                return None;
            }
            previous = id;
            i += 1;
        }
        let queue = SyncQueue { items, last_id };
        assert(queue@.well_formed());
        Some(queue)
    }

    /// Number of unresolved entries.
    pub fn len(&self) -> (n: usize)
        ensures
            n == self@.items.len(),
    {
        self.items.len()
    }

    /// Whether nothing is pending.
    pub fn is_empty(&self) -> (empty: bool)
        ensures
            empty == (self@.items.len() == 0),
    {
        self.items.len() == 0
    }

    /// A copy of the newest unresolved entry, if there is any.
    pub fn newest(&self) -> (item: Option<QueueItem>)
        ensures
            match item {
                Some(entry) => self@.items.len() > 0 && entry@ == self@.items.last(),
                None => self@.items.len() == 0,
            },
    {
        let count = self.items.len();
        if count == 0 {
            None
        } else {
            Some(self.items[count - 1].duplicate())
        }
    }

    /// The highest id handed out so far, `0` before the first.
    pub fn last_id(&self) -> (id: i64)
        ensures
            id == self@.last_id,
    {
        self.last_id
    }

    /// Appends an entry under the next id and returns that id. Fails, changing
    /// nothing, exactly when the last id of the id space has been handed out.
    pub fn enqueue(
        &mut self,
        table_name: &str,
        operation: Operation,
        payload: &str,
        enqueued_at: i64,
    ) -> (result: Result<i64, QueueError>)
        requires
            old(self)@.well_formed(),
        ensures
            old(self)@.last_id < i64::MAX ==> result == Ok::<i64, QueueError>(
                (old(self)@.last_id + 1) as i64,
            ) && final(self)@ == old(self)@.enqueue(
                table_name@,
                operation,
                payload@,
                enqueued_at as int,
            ),
            old(self)@.last_id >= i64::MAX ==> result == Err::<i64, QueueError>(
                QueueError::Exhausted,
            ) && final(self)@ == old(self)@,
            final(self)@.well_formed(),
    {
        if self.last_id == i64::MAX {
            return Err(QueueError::Exhausted);
        }
        let id: i64 = self.last_id + 1;
        let item = QueueItem {
            id,
            table_name: table_name.to_owned(),
            operation,
            payload: payload.to_owned(),
            enqueued_at,
        };
        proof {
            lemma_enqueue_preserves(
                old(self)@,
                table_name@,
                operation,
                payload@,
                enqueued_at as int,
            );
            assert(item_views(self.items@.push(item)) =~= old(self)@.enqueue(
                table_name@,
                operation,
                payload@,
                enqueued_at as int,
            ).items);
        }
        self.items.push(item);
        self.last_id = id;
        Ok(id)
    }

    /// Copies of the `limit` oldest unresolved entries, oldest first.
    pub fn peek_batch(&self, limit: usize) -> (batch: Vec<QueueItem>)
        ensures
            item_views(batch@) == self@.batch(limit as nat),
    {
        let count: usize = if limit <= self.items.len() {
            limit
        } else {
            self.items.len()
        };
        let mut batch: Vec<QueueItem> = Vec::new();
        let mut i: usize = 0;
        while i < count
            invariant
                i <= count <= self.items@.len(),
                batch@.len() == i,
                forall|k: int| 0 <= k < i ==> batch@[k]@ == self.items@[k]@,
            decreases count - i,
        {
            batch.push(self.items[i].duplicate());
            i += 1;
        }
        assert(item_views(batch@) =~= self@.batch(limit as nat));
        batch
    }

    /// Takes the entry with this id out of the queue for good and tells whether
    /// there was one. Acknowledging an id that is not pending changes nothing.
    pub fn ack(&mut self, id: i64) -> (removed: bool)
        requires
            old(self)@.well_formed(),
        ensures
            final(self)@ == old(self)@.ack(id as int),
            removed == pending(old(self)@.items, id as int),
            final(self)@.well_formed(),
    {
        proof {
            lemma_ack_preserves(old(self)@, id as int);
        }
        let mut i: usize = 0;
        while i < self.items.len()
            invariant
                i <= self.items@.len(),
                *self == *old(self),
                self@.well_formed(),
                self@.ack(id as int).well_formed(),
                forall|k: int| 0 <= k < i ==> self.items@[k].id != id,
            decreases self.items@.len() - i,
        {
            if self.items[i].id == id {
                proof {
                    assert(self@.items[i as int].id == id as int);
                    lemma_position_unique(self@.items, i as int);
                    assert(item_views(self.items@.remove(i as int)) =~= self@.items.remove(
                        i as int,
                    ));
                }
                self.items.remove(i);
                return true;
            }
            i += 1;
        }
        proof {
            if pending(self@.items, id as int) {
                let p = position_of(self@.items, id as int);
                assert(self@.items[p] == self.items@[p]@);
            }
        }
        false
    }
}

} // verus!
