//! The local write path: every mutation of a row is followed by a queue entry
//! that makes it known to the sync worker.

use crate::rows::StoreTable;
use crate::sync_queue::{Operation, QueueView, SyncQueue};
use crate::text::{decimal, decimal_of, join3};
use vstd::prelude::*;
use vstd::string::*;

verus! {

/// What a caller is told when the queue has handed out its last id.
pub open spec fn exhausted_message() -> Seq<char> {
    "sync queue exhausted"@
}

/// The payload that stands for the deletion of row `id`: `{"id":N}`.
pub open spec fn tombstone_of(id: int) -> Seq<char> {
    "{\"id\":"@ + decimal_of(id) + "}"@
}

/// The payload that stands for the deletion of row `id`.
pub fn tombstone(id: i64) -> (payload: String)
    ensures
        payload@ == tombstone_of(id as int),
{
    let digits = decimal(id);
    join3("{\"id\":", digits.as_str(), "}")
}

/// Whether `after` and `outcome` are what appending an entry to `before`
/// gives: the entry under the next id and success, or, where the ids are
/// exhausted, the queue as it was and the message that says so.
pub open spec fn appended(
    before: QueueView,
    after: QueueView,
    outcome: Result<(), String>,
    table_name: Seq<char>,
    operation: Operation,
    payload: Seq<char>,
    now: int,
) -> bool {
    if before.last_id < i64::MAX {
        &&& after == before.enqueue(table_name, operation, payload, now)
        &&& outcome is Ok
    } else {
        &&& after == before
        &&& outcome matches Err(message)
        &&& message@ == exhausted_message()
    }
}

/// Whether `after` and `outcome` are what the write path gives for a row
/// mutation that went as `written` says, with the payload that `data` holds.
/// A failed row write is the failure of the whole and queues nothing. So is a
/// payload that could not be made, though the row is written by then. After
/// both, the entry is appended; where that fails, the row is written, the
/// mutation is not queued, and the caller is told.
pub open spec fn recorded(
    before: QueueView,
    after: QueueView,
    outcome: Result<i64, String>,
    table_name: Seq<char>,
    operation: Operation,
    written: Result<i64, String>,
    data: Result<String, String>,
    now: int,
) -> bool {
    match written {
        Err(reason) => {
            &&& after == before
            &&& outcome matches Err(message)
            &&& message@ == reason@
        },
        Ok(id) => match data {
            Err(reason) => {
                &&& after == before
                &&& outcome matches Err(message)
                &&& message@ == reason@
            },
            Ok(payload) => if before.last_id < i64::MAX {
                &&& after == before.enqueue(table_name, operation, payload@, now)
                &&& outcome == Ok::<i64, String>(id)
            } else {
                &&& after == before
                &&& outcome matches Err(message)
                &&& message@ == exhausted_message()
            },
        },
    }
}

/// The local store as the core sees it: the queue of pending mutations, and
/// whether a remote store was configured at startup.
pub struct DbService {
    pub queue: SyncQueue,
    pub remote_configured: bool,
}

impl DbService {
    /// The queue is well formed.
    pub open spec fn well_formed(&self) -> bool {
        self.queue@.well_formed()
    }

    /// A local store with nothing pending.
    pub fn new(remote_configured: bool) -> (db: DbService)
        ensures
            db.well_formed(),
            db.queue@ == QueueView::empty(),
            db.remote_configured == remote_configured,
    {
        DbService { queue: SyncQueue::new(), remote_configured }
    }

    /// Appends a queue entry for a mutation of `table`.
    pub fn save_locally(&mut self, table: &str, data: &str, operation: Operation, now: i64) -> (outcome:
        Result<(), String>)
        requires
            old(self).well_formed(),
        ensures
            final(self).well_formed(),
            final(self).remote_configured == old(self).remote_configured,
            appended(
                old(self).queue@,
                final(self).queue@,
                outcome,
                table@,
                operation,
                data@,
                now as int,
            ),
    {
        match self.queue.enqueue(table, operation, data, now) {
            Ok(_) => Ok(()),
            Err(_) => Err(String::from_str("sync queue exhausted")),
        }
    }

    fn record(
        &mut self,
        table: StoreTable,
        written: Result<i64, String>,
        data: Result<String, String>,
        now: i64,
    ) -> (outcome: Result<i64, String>)
        requires
            old(self).well_formed(),
        ensures
            final(self).well_formed(),
            final(self).remote_configured == old(self).remote_configured,
            recorded(
                old(self).queue@,
                final(self).queue@,
                outcome,
                table.name_of(),
                Operation::Insert,
                written,
                data,
                now as int,
            ),
    {
        match written {
            Err(reason) => Err(reason),
            Ok(id) => match data {
                Err(reason) => Err(reason),
                Ok(payload) => match self.save_locally(
                    table.name(),
                    payload.as_str(),
                    Operation::Insert,
                    now,
                ) {
                    Ok(_) => Ok(id),
                    Err(message) => Err(message),
                },
            },
        }
    }

    /// Follows the write of a staff row with its queue entry and returns the
    /// id of the row.
    pub fn create_staff_local(
        &mut self,
        written: Result<i64, String>,
        data: Result<String, String>,
        now: i64,
    ) -> (outcome: Result<i64, String>)
        requires
            old(self).well_formed(),
        ensures
            final(self).well_formed(),
            final(self).remote_configured == old(self).remote_configured,
            recorded(
                old(self).queue@,
                final(self).queue@,
                outcome,
                "staff"@,
                Operation::Insert,
                written,
                data,
                now as int,
            ),
    {
        self.record(StoreTable::Staff, written, data, now)
    }

    /// Follows the write of an order row with its queue entry and returns the
    /// id of the row.
    pub fn create_order_local(
        &mut self,
        written: Result<i64, String>,
        data: Result<String, String>,
        now: i64,
    ) -> (outcome: Result<i64, String>)
        requires
            old(self).well_formed(),
        ensures
            final(self).well_formed(),
            final(self).remote_configured == old(self).remote_configured,
            recorded(
                old(self).queue@,
                final(self).queue@,
                outcome,
                "orders"@,
                Operation::Insert,
                written,
                data,
                now as int,
            ),
    {
        self.record(StoreTable::Orders, written, data, now)
    }

    /// Follows the write of a guest row with its queue entry and returns the
    /// id of the row.
    pub fn create_guest_local(
        &mut self,
        written: Result<i64, String>,
        data: Result<String, String>,
        now: i64,
    ) -> (outcome: Result<i64, String>)
        requires
            old(self).well_formed(),
        ensures
            final(self).well_formed(),
            final(self).remote_configured == old(self).remote_configured,
            recorded(
                old(self).queue@,
                final(self).queue@,
                outcome,
                "guests"@,
                Operation::Insert,
                written,
                data,
                now as int,
            ),
    {
        self.record(StoreTable::Guests, written, data, now)
    }

    /// Follows the write of a menu row with its queue entry and returns the
    /// id of the row.
    pub fn create_food_item_local(
        &mut self,
        written: Result<i64, String>,
        data: Result<String, String>,
        now: i64,
    ) -> (outcome: Result<i64, String>)
        requires
            old(self).well_formed(),
        ensures
            final(self).well_formed(),
            final(self).remote_configured == old(self).remote_configured,
            recorded(
                old(self).queue@,
                final(self).queue@,
                outcome,
                "food_items"@,
                Operation::Insert,
                written,
                data,
                now as int,
            ),
    {
        self.record(StoreTable::FoodItems, written, data, now)
    }

    /// Follows the write of the row of a table of the house with its queue
    /// entry and returns the id of the row.
    pub fn create_table_local(
        &mut self,
        written: Result<i64, String>,
        data: Result<String, String>,
        now: i64,
    ) -> (outcome: Result<i64, String>)
        requires
            old(self).well_formed(),
        ensures
            final(self).well_formed(),
            final(self).remote_configured == old(self).remote_configured,
            recorded(
                old(self).queue@,
                final(self).queue@,
                outcome,
                "tables"@,
                Operation::Insert,
                written,
                data,
                now as int,
            ),
    {
        self.record(StoreTable::Tables, written, data, now)
    }

    /// Follows the write of an order line with its queue entry and returns
    /// the id of the row.
    pub fn create_order_item_local(
        &mut self,
        written: Result<i64, String>,
        data: Result<String, String>,
        now: i64,
    ) -> (outcome: Result<i64, String>)
        requires
            old(self).well_formed(),
        ensures
            final(self).well_formed(),
            final(self).remote_configured == old(self).remote_configured,
            recorded(
                old(self).queue@,
                final(self).queue@,
                outcome,
                "order_items"@,
                Operation::Insert,
                written,
                data,
                now as int,
            ),
    {
        self.record(StoreTable::OrderItems, written, data, now)
    }

    /// Follows the deletion of row `id` of `table` with its tombstone in the
    /// queue. A deletion that failed is the failure of the whole and queues
    /// nothing.
    pub fn delete_local(&mut self, table: &str, id: i64, deleted: Result<(), String>, now: i64) -> (outcome:
        Result<(), String>)
        requires
            old(self).well_formed(),
        ensures
            final(self).well_formed(),
            final(self).remote_configured == old(self).remote_configured,
            match deleted {
                Err(reason) => {
                    &&& final(self).queue@ == old(self).queue@
                    &&& outcome matches Err(message)
                    &&& message@ == reason@
                },
                Ok(_) => appended(
                    old(self).queue@,
                    final(self).queue@,
                    outcome,
                    table@,
                    Operation::Delete,
                    tombstone_of(id as int),
                    now as int,
                ),
            },
    {
        match deleted {
            Err(reason) => Err(reason),
            Ok(_) => {
                let payload = tombstone(id);
                self.save_locally(table, payload.as_str(), Operation::Delete, now)
            },
        }
    }
}

} // verus!
