use pos_sync::models::amount::Amount;
use pos_sync::rows::{BindValue, RowInsert, StoreTable};
use pos_sync::services::db_service::DbService;
use pos_sync::forward::{
    decode_order, decode_staff, plan_document, plan_forward, ForwardError, ForwardPlan,
};
use pos_sync::services::sync_service::{
    Duty, PhaseStatus, Pull, PushPhase, Stage, Step, SyncService,
};
use pos_sync::sync_queue::{Operation, QueueItem, SyncQueue};

const GUEST: &str =
    "{\"business_id\":1,\"name\":\"Asha\",\"phone\":\"98\",\"verify_id\":2,\"status_id\":3}";

const STAFF: &str = "{\"business_id\":1,\"role_id\":2,\"shift_id\":3,\"status_id\":4,\"name\":\"Mina\",\"phone\":\"9800\",\"password\":\"pw\"}";

const ORDER: &str = "{\"business_id\":1,\"order_number\":\"A-17\",\"table_id\":99,\"guest_id\":2,\"order_type_id\":3,\"status_id\":4,\"subtotal\":100.0,\"tax\":13,\"discount\":0.5,\"total_amount\":112.5,\"notes\":\"no onions\",\"served_by\":7}";

fn entry(id: i64, table: &str, operation: Operation, payload: &str) -> QueueItem {
    QueueItem {
        id,
        table_name: table.to_string(),
        operation,
        payload: payload.to_string(),
        enqueued_at: 0,
    }
}

fn integer(value: i64) -> BindValue {
    BindValue::Integer(Some(value))
}

fn text(value: &str) -> BindValue {
    BindValue::Text(Some(value.to_string()))
}

fn number(value: f64) -> BindValue {
    BindValue::Number(Some(Amount { bits: value.to_bits() }))
}

fn guest_row() -> RowInsert {
    RowInsert {
        table: StoreTable::Guests,
        values: vec![integer(1), text("Asha"), text("98"), integer(2), integer(3)],
    }
}

fn ids(queue: &SyncQueue) -> Vec<i64> {
    queue.peek_batch(usize::MAX).iter().map(|item| item.id).collect()
}

/// Runs one tick against a remote store that takes the rows of the entries
/// in `accepted`, and returns the ids whose rows were sent, in order.
fn tick(queue: &mut SyncQueue, limit: usize, accepted: &[i64]) -> (Vec<i64>, PushPhase) {
    let mut phase = PushPhase::begin(queue, limit);
    let mut sent = Vec::new();
    loop {
        match phase.advance(queue) {
            Step::Forward { id, .. } => {
                sent.push(id);
                phase.settle(queue, accepted.contains(&id));
            }
            Step::Idle => break,
        }
    }
    (sent, phase)
}

#[test]
fn guest_insert_is_planned_from_the_payload() {
    let plan = plan_forward(&entry(1, "guests", Operation::Insert, GUEST));
    assert_eq!(plan, ForwardPlan::Insert(guest_row()));
}

#[test]
fn guest_members_that_are_missing_bind_null() {
    let plan = plan_forward(&entry(1, "guests", Operation::Insert, "{\"name\":\"Asha\"}"));
    assert_eq!(
        plan,
        ForwardPlan::Insert(RowInsert {
            table: StoreTable::Guests,
            values: vec![
                BindValue::Integer(None),
                text("Asha"),
                BindValue::Text(None),
                BindValue::Integer(None),
                BindValue::Integer(None),
            ],
        })
    );
}

#[test]
fn guest_members_of_another_kind_bind_null() {
    let payload =
        "{\"business_id\":\"1\",\"name\":7,\"phone\":null,\"verify_id\":2.5,\"status_id\":true}";
    let plan = plan_forward(&entry(1, "guests", Operation::Insert, payload));
    assert_eq!(
        plan,
        ForwardPlan::Insert(RowInsert {
            table: StoreTable::Guests,
            values: vec![
                BindValue::Integer(None),
                BindValue::Text(None),
                BindValue::Text(None),
                BindValue::Integer(None),
                BindValue::Integer(None),
            ],
        })
    );
}

#[test]
fn a_document_that_is_no_object_binds_nulls() {
    let plan = plan_forward(&entry(1, "guests", Operation::Insert, "[1,2,3]"));
    assert_eq!(
        plan,
        ForwardPlan::Insert(RowInsert {
            table: StoreTable::Guests,
            values: vec![
                BindValue::Integer(None),
                BindValue::Text(None),
                BindValue::Text(None),
                BindValue::Integer(None),
                BindValue::Integer(None),
            ],
        })
    );
}

#[test]
fn malformed_payload_is_rejected_whatever_the_operation() {
    for operation in [Operation::Insert, Operation::Update, Operation::Delete] {
        for table in ["staff", "orders", "guests", "food_items", "tables", "order_items"] {
            let plan = plan_forward(&entry(1, table, operation, "{not json"));
            assert_eq!(plan, ForwardPlan::Reject(ForwardError::Malformed));
        }
    }
    let plan = plan_forward(&entry(1, "guests", Operation::Insert, ""));
    assert_eq!(plan, ForwardPlan::Reject(ForwardError::Malformed));
}

#[test]
fn unknown_table_is_acknowledged_unread() {
    let plan = plan_forward(&entry(1, "events", Operation::Insert, "{not json"));
    assert_eq!(plan, ForwardPlan::Acknowledge);
    let plan = plan_forward(&entry(1, "loyalty_cards", Operation::Delete, "{}"));
    assert_eq!(plan, ForwardPlan::Acknowledge);
}

#[test]
fn updates_and_deletions_are_acknowledged() {
    let plan = plan_forward(&entry(1, "guests", Operation::Update, GUEST));
    assert_eq!(plan, ForwardPlan::Acknowledge);
    let plan = plan_forward(&entry(1, "guests", Operation::Delete, "{\"id\":4}"));
    assert_eq!(plan, ForwardPlan::Acknowledge);
    let plan = plan_forward(&entry(1, "staff", Operation::Update, STAFF));
    assert_eq!(plan, ForwardPlan::Acknowledge);
}

#[test]
fn staff_insert_needs_the_whole_record() {
    let plan = plan_forward(&entry(1, "staff", Operation::Insert, STAFF));
    assert_eq!(
        plan,
        ForwardPlan::Insert(RowInsert {
            table: StoreTable::Staff,
            values: vec![integer(1), integer(2), integer(3), integer(4), text("Mina"), text("9800"), text("pw")],
        })
    );
    let without_phone = "{\"business_id\":1,\"role_id\":2,\"shift_id\":3,\"status_id\":4,\"name\":\"Mina\",\"password\":\"pw\"}";
    let plan = plan_forward(&entry(1, "staff", Operation::Insert, without_phone));
    assert_eq!(plan, ForwardPlan::Reject(ForwardError::Incomplete));
    let plan = plan_forward(&entry(1, "staff", Operation::Update, without_phone));
    assert_eq!(plan, ForwardPlan::Reject(ForwardError::Incomplete));
    let plan = plan_forward(&entry(1, "staff", Operation::Delete, "{\"id\":4}"));
    assert_eq!(plan, ForwardPlan::Reject(ForwardError::Incomplete));
}

#[test]
fn staff_integers_must_fit_32_bits() {
    let too_big = "{\"business_id\":2147483648,\"role_id\":2,\"shift_id\":3,\"status_id\":4,\"name\":\"Mina\",\"phone\":\"9800\",\"password\":\"pw\"}";
    let doc: serde_json::Value = serde_json::from_str(too_big).unwrap();
    assert_eq!(decode_staff(&doc), None);
    let largest = "{\"business_id\":2147483647,\"role_id\":-2147483648,\"shift_id\":3,\"status_id\":4,\"name\":\"Mina\",\"phone\":\"9800\",\"password\":\"pw\"}";
    let doc: serde_json::Value = serde_json::from_str(largest).unwrap();
    let staff = decode_staff(&doc).unwrap();
    assert_eq!(staff.business_id, i32::MAX);
    assert_eq!(staff.role_id, i32::MIN);
    assert_eq!(staff.name, "Mina");
    assert_eq!(staff.phone, "9800");
    assert_eq!(staff.password, "pw");
}

#[test]
fn order_insert_is_planned_from_the_payload() {
    let plan = plan_forward(&entry(1, "orders", Operation::Insert, ORDER));
    assert_eq!(
        plan,
        ForwardPlan::Insert(RowInsert {
            table: StoreTable::Orders,
            values: vec![
                integer(1),
                text("A-17"),
                integer(2),
                integer(3),
                integer(4),
                number(100.0),
                number(13.0),
                number(0.5),
                number(112.5),
                text("no onions"),
                integer(7),
            ],
        })
    );
}

#[test]
fn order_needs_its_table_though_no_row_carries_it() {
    let doc: serde_json::Value = serde_json::from_str(ORDER).unwrap();
    let order = decode_order(&doc).unwrap();
    assert_eq!(order.table_id, 99);
    assert_eq!(order.order_number, "A-17");
    assert_eq!(order.tax, Amount { bits: 13.0f64.to_bits() });
    let without_table = ORDER.replace("\"table_id\":99,", "");
    let doc: serde_json::Value = serde_json::from_str(&without_table).unwrap();
    assert_eq!(decode_order(&doc), None);
    let plan = plan_forward(&entry(1, "orders", Operation::Insert, &without_table));
    assert_eq!(plan, ForwardPlan::Reject(ForwardError::Incomplete));
}

#[test]
fn food_item_insert_is_planned_from_the_payload() {
    let payload = "{\"business_id\":1,\"category_id\":2,\"name\":\"Momo\",\"description\":null,\"price\":3.25,\"preparation_time\":15,\"spice_level_id\":null,\"is_available\":true,\"image_url\":\"momo.png\"}";
    let plan = plan_forward(&entry(1, "food_items", Operation::Insert, payload));
    assert_eq!(
        plan,
        ForwardPlan::Insert(RowInsert {
            table: StoreTable::FoodItems,
            values: vec![
                integer(1),
                integer(2),
                text("Momo"),
                BindValue::Text(None),
                number(3.25),
                integer(15),
                BindValue::Integer(None),
                BindValue::Flag(Some(true)),
                text("momo.png"),
            ],
        })
    );
}

#[test]
fn table_insert_is_planned_from_the_payload() {
    let payload = "{\"business_id\":1,\"table_number\":\"T4\",\"capacity\":6,\"location\":\"roof\",\"status_id\":2,\"reserved_by\":null,\"qr_code\":\"qr\"}";
    let plan = plan_forward(&entry(1, "tables", Operation::Insert, payload));
    assert_eq!(
        plan,
        ForwardPlan::Insert(RowInsert {
            table: StoreTable::Tables,
            values: vec![
                integer(1),
                text("T4"),
                integer(6),
                text("roof"),
                integer(2),
                BindValue::Integer(None),
                text("qr"),
            ],
        })
    );
}

#[test]
fn order_item_insert_is_planned_from_the_payload() {
    let payload = "{\"order_id\":10,\"food_item_id\":20,\"quantity\":3,\"unit_price\":2.5,\"total_price\":7.5,\"status_id\":1,\"special_instructions\":\"hot\"}";
    let plan = plan_forward(&entry(1, "order_items", Operation::Insert, payload));
    assert_eq!(
        plan,
        ForwardPlan::Insert(RowInsert {
            table: StoreTable::OrderItems,
            values: vec![integer(10), integer(20), integer(3), number(2.5), number(7.5), integer(1), text("hot")],
        })
    );
}

#[test]
fn plan_document_agrees_with_plan_forward() {
    let doc: serde_json::Value = serde_json::from_str(GUEST).unwrap();
    assert_eq!(
        plan_document(StoreTable::Guests, Operation::Insert, &doc),
        ForwardPlan::Insert(guest_row())
    );
    assert_eq!(
        plan_document(StoreTable::Guests, Operation::Update, &doc),
        ForwardPlan::Acknowledge
    );
    assert_eq!(
        plan_document(StoreTable::Staff, Operation::Insert, &doc),
        ForwardPlan::Reject(ForwardError::Incomplete)
    );
}

#[test]
fn push_phase_forwards_in_ascending_order() {
    let mut queue = SyncQueue::new();
    for _ in 0..4 {
        queue.enqueue("guests", Operation::Insert, GUEST, 0).unwrap();
    }
    let (sent, phase) = tick(&mut queue, 10, &[1, 2, 3, 4]);
    assert_eq!(sent, vec![1, 2, 3, 4]);
    assert_eq!(phase.status(), PhaseStatus::Finished);
    assert_eq!(phase.resolved(), 4);
    assert_eq!(phase.blocked_on(), None);
    assert!(queue.is_empty());
}

#[test]
fn push_phase_hands_out_the_row() {
    let mut queue = SyncQueue::new();
    queue.enqueue("guests", Operation::Insert, GUEST, 0).unwrap();
    let mut phase = PushPhase::begin(&queue, 10);
    assert_eq!(phase.status(), PhaseStatus::Ready);
    let step = phase.advance(&mut queue);
    assert_eq!(step, Step::Forward { id: 1, row: guest_row() });
    assert_eq!(phase.status(), PhaseStatus::Awaiting);
    assert_eq!(queue.len(), 1);
    let again = phase.advance(&mut queue);
    assert_eq!(again, Step::Forward { id: 1, row: guest_row() });
    phase.settle(&mut queue, true);
    assert_eq!(phase.status(), PhaseStatus::Ready);
    assert!(queue.is_empty());
    assert_eq!(phase.advance(&mut queue), Step::Idle);
    assert_eq!(phase.status(), PhaseStatus::Finished);
}

#[test]
fn push_phase_takes_no_more_than_a_batch() {
    let mut queue = SyncQueue::new();
    for _ in 0..25 {
        queue.enqueue("guests", Operation::Insert, GUEST, 0).unwrap();
    }
    let all: Vec<i64> = (1..=25).collect();
    let (sent, _) = tick(&mut queue, 10, &all);
    assert_eq!(sent, (1..=10).collect::<Vec<i64>>());
    assert_eq!(ids(&queue), (11..=25).collect::<Vec<i64>>());
    let (sent, _) = tick(&mut queue, 10, &all);
    assert_eq!(sent, (11..=20).collect::<Vec<i64>>());
    let (sent, _) = tick(&mut queue, 10, &all);
    assert_eq!(sent, (21..=25).collect::<Vec<i64>>());
    assert!(queue.is_empty());
    let (sent, phase) = tick(&mut queue, 10, &all);
    assert_eq!(sent, Vec::<i64>::new());
    assert_eq!(phase.status(), PhaseStatus::Finished);
}

#[test]
fn failure_blocks_everything_behind_it() {
    let mut queue = SyncQueue::new();
    for _ in 0..6 {
        queue.enqueue("guests", Operation::Insert, GUEST, 0).unwrap();
    }
    let (sent, phase) = tick(&mut queue, 10, &[1, 2, 4, 5, 6]);
    assert_eq!(sent, vec![1, 2, 3]);
    assert_eq!(phase.status(), PhaseStatus::Blocked);
    assert_eq!(phase.blocked_on(), Some(3));
    assert_eq!(phase.resolved(), 2);
    assert_eq!(ids(&queue), vec![3, 4, 5, 6]);
}

#[test]
fn resolved_ids_list_what_was_acknowledged() {
    let mut queue = SyncQueue::new();
    queue.enqueue("events", Operation::Insert, "x", 0).unwrap();
    queue.enqueue("guests", Operation::Insert, GUEST, 0).unwrap();
    queue.enqueue("guests", Operation::Insert, GUEST, 0).unwrap();
    let mut phase = PushPhase::begin(&queue, 10);
    assert_eq!(phase.resolved_ids(), Vec::<i64>::new());
    phase.advance(&mut queue);
    assert_eq!(phase.resolved_ids(), vec![1]);
    phase.settle(&mut queue, true);
    assert_eq!(phase.resolved_ids(), vec![1, 2]);
    phase.advance(&mut queue);
    phase.settle(&mut queue, false);
    assert_eq!(phase.resolved_ids(), vec![1, 2]);
    assert_eq!(phase.blocked_on(), Some(3));
}

#[test]
fn blocked_phase_stays_blocked() {
    let mut queue = SyncQueue::new();
    queue.enqueue("guests", Operation::Insert, GUEST, 0).unwrap();
    queue.enqueue("guests", Operation::Insert, GUEST, 0).unwrap();
    let mut phase = PushPhase::begin(&queue, 10);
    assert!(matches!(phase.advance(&mut queue), Step::Forward { id: 1, .. }));
    phase.settle(&mut queue, false);
    assert_eq!(phase.status(), PhaseStatus::Blocked);
    assert_eq!(phase.advance(&mut queue), Step::Idle);
    phase.settle(&mut queue, true);
    assert_eq!(phase.status(), PhaseStatus::Blocked);
    assert_eq!(phase.advance(&mut queue), Step::Idle);
    assert_eq!(ids(&queue), vec![1, 2]);
}

#[test]
fn settle_without_a_row_in_flight_does_nothing() {
    let mut queue = SyncQueue::new();
    queue.enqueue("guests", Operation::Insert, GUEST, 0).unwrap();
    let mut phase = PushPhase::begin(&queue, 10);
    phase.settle(&mut queue, true);
    assert_eq!(phase.status(), PhaseStatus::Ready);
    assert_eq!(phase.resolved(), 0);
    assert_eq!(ids(&queue), vec![1]);
    phase.settle(&mut queue, false);
    assert_eq!(phase.status(), PhaseStatus::Ready);
}

#[test]
fn failed_item_is_retried_before_the_one_behind_it() {
    let queued = vec![
        entry(5, "guests", Operation::Insert, GUEST),
        entry(6, "tables", Operation::Insert, "{\"table_number\":\"T4\"}"),
    ];
    let mut queue = SyncQueue::restore(queued, 6).unwrap();
    let (sent, phase) = tick(&mut queue, 10, &[6]);
    assert_eq!(sent, vec![5]);
    assert_eq!(phase.blocked_on(), Some(5));
    assert_eq!(ids(&queue), vec![5, 6]);
    let (sent, phase) = tick(&mut queue, 10, &[6]);
    assert_eq!(sent, vec![5]);
    assert_eq!(phase.blocked_on(), Some(5));
    assert_eq!(ids(&queue), vec![5, 6]);
    let (sent, phase) = tick(&mut queue, 10, &[5, 6]);
    assert_eq!(sent, vec![5, 6]);
    assert_eq!(phase.status(), PhaseStatus::Finished);
    assert!(queue.is_empty());
}

#[test]
fn malformed_payload_blocks_the_queue() {
    let mut queue = SyncQueue::new();
    queue.enqueue("guests", Operation::Insert, GUEST, 0).unwrap();
    queue.enqueue("guests", Operation::Insert, "{broken", 0).unwrap();
    queue.enqueue("guests", Operation::Insert, GUEST, 0).unwrap();
    for _ in 0..3 {
        let (sent, phase) = tick(&mut queue, 10, &[1, 2, 3]);
        assert_eq!(phase.status(), PhaseStatus::Blocked);
        assert_eq!(phase.blocked_on(), Some(2));
        assert_eq!(ids(&queue), vec![2, 3]);
        assert!(!sent.contains(&2));
        assert!(!sent.contains(&3));
    }
    assert!(queue.ack(2));
    let (sent, phase) = tick(&mut queue, 10, &[1, 2, 3]);
    assert_eq!(sent, vec![3]);
    assert_eq!(phase.status(), PhaseStatus::Finished);
    assert!(queue.is_empty());
}

#[test]
fn entries_that_need_no_row_are_acknowledged_on_the_way() {
    let mut queue = SyncQueue::new();
    queue.enqueue("events", Operation::Insert, "anything", 0).unwrap();
    queue.enqueue("guests", Operation::Update, GUEST, 0).unwrap();
    queue.enqueue("guests", Operation::Insert, GUEST, 0).unwrap();
    queue.enqueue("guests", Operation::Delete, "{\"id\":1}", 0).unwrap();
    let mut phase = PushPhase::begin(&queue, 10);
    let step = phase.advance(&mut queue);
    assert_eq!(step, Step::Forward { id: 3, row: guest_row() });
    assert_eq!(phase.resolved(), 2);
    assert_eq!(ids(&queue), vec![3, 4]);
    phase.settle(&mut queue, true);
    assert_eq!(phase.advance(&mut queue), Step::Idle);
    assert_eq!(phase.status(), PhaseStatus::Finished);
    assert!(queue.is_empty());
}

#[test]
fn entries_queued_during_a_phase_wait_for_the_next() {
    let mut queue = SyncQueue::new();
    queue.enqueue("guests", Operation::Insert, GUEST, 0).unwrap();
    let mut phase = PushPhase::begin(&queue, 10);
    assert!(matches!(phase.advance(&mut queue), Step::Forward { id: 1, .. }));
    queue.enqueue("guests", Operation::Insert, GUEST, 0).unwrap();
    phase.settle(&mut queue, true);
    assert_eq!(phase.advance(&mut queue), Step::Idle);
    assert_eq!(ids(&queue), vec![2]);
}

#[test]
fn a_reachable_remote_store_drains_the_queue() {
    let mut queue = SyncQueue::new();
    for _ in 0..37 {
        queue.enqueue("guests", Operation::Insert, GUEST, 0).unwrap();
    }
    let all: Vec<i64> = (1..=37).collect();
    let mut ticks = 0;
    while !queue.is_empty() {
        tick(&mut queue, 10, &all);
        ticks += 1;
        assert!(ticks <= 4);
    }
    assert_eq!(ticks, 4);
}

#[test]
fn worker_defaults() {
    let service = SyncService::new();
    assert_eq!(service.batch_limit, 10);
    assert_eq!(service.interval_secs, 10);
}

#[test]
fn process_queue_starts_on_the_oldest_batch() {
    let service = SyncService::new();
    let mut db = DbService::new(true);
    for _ in 0..12 {
        db.save_locally("guests", GUEST, Operation::Insert, 0).unwrap();
    }
    let mut phase = service.process_queue(&db);
    let mut sent = Vec::new();
    loop {
        match phase.advance(&mut db.queue) {
            Step::Forward { id, .. } => {
                sent.push(id);
                phase.settle(&mut db.queue, true);
            }
            Step::Idle => break,
        }
    }
    assert_eq!(sent, (1..=10).collect::<Vec<i64>>());
    assert_eq!(ids(&db.queue), vec![11, 12]);
}

#[test]
fn worker_pushes_pulls_and_sleeps() {
    let service = SyncService::new();
    let mut worker = service.start_sync_worker();
    assert_eq!(worker.stage, Stage::Waking);
    for _ in 0..3 {
        assert_eq!(worker.next_duty(true), Duty::Push);
        assert_eq!(worker.next_duty(true), Duty::Pull);
        assert_eq!(worker.next_duty(true), Duty::Sleep { seconds: 10 });
    }
    assert_eq!(worker.stage, Stage::Waking);
}

#[test]
fn worker_without_remote_store_never_pushes() {
    let service = SyncService { batch_limit: 10, interval_secs: 3 };
    let mut worker = service.start_sync_worker();
    for _ in 0..50 {
        assert_eq!(worker.next_duty(false), Duty::Pull);
        assert_eq!(worker.next_duty(false), Duty::Sleep { seconds: 3 });
    }
}

#[test]
fn worker_finishes_an_iteration_when_the_remote_store_goes_away() {
    let service = SyncService::new();
    let mut worker = service.start_sync_worker();
    assert_eq!(worker.next_duty(true), Duty::Push);
    assert_eq!(worker.next_duty(false), Duty::Pull);
    assert_eq!(worker.next_duty(false), Duty::Sleep { seconds: 10 });
    assert_eq!(worker.next_duty(false), Duty::Pull);
}

#[test]
fn sync_down_applies_what_is_newer_than_the_watermark() {
    let service = SyncService::new();
    let pull = service.sync_down(100, &vec![90, 100, 101, 250, 120]);
    assert_eq!(pull, Pull { fresh: vec![false, false, true, true, true], watermark: 250 });
}

#[test]
fn sync_down_is_idempotent() {
    let service = SyncService::new();
    let report = vec![5, 9, 7, 9];
    let first = service.sync_down(0, &report);
    assert_eq!(first, Pull { fresh: vec![true, true, true, true], watermark: 9 });
    let second = service.sync_down(first.watermark, &report);
    assert_eq!(second, Pull { fresh: vec![false, false, false, false], watermark: 9 });
}

#[test]
fn sync_down_of_nothing_keeps_the_watermark() {
    let service = SyncService::new();
    assert_eq!(service.sync_down(-4, &Vec::new()), Pull { fresh: Vec::new(), watermark: -4 });
    assert_eq!(service.sync_down(10, &vec![3]), Pull { fresh: vec![false], watermark: 10 });
}
