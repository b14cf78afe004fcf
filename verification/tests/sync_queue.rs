use pos_sync::sync_queue::{Operation, QueueError, QueueItem, SyncQueue};

fn entry(id: i64, table: &str, operation: Operation, payload: &str, at: i64) -> QueueItem {
    QueueItem {
        id,
        table_name: table.to_string(),
        operation,
        payload: payload.to_string(),
        enqueued_at: at,
    }
}

#[test]
fn new_queue_is_empty() {
    let queue = SyncQueue::new();
    assert!(queue.is_empty());
    assert_eq!(queue.len(), 0);
    assert_eq!(queue.last_id(), 0);
    assert_eq!(queue.peek_batch(10), Vec::<QueueItem>::new());
}

#[test]
fn enqueue_hands_out_ascending_ids_from_one() {
    let mut queue = SyncQueue::new();
    assert_eq!(queue.enqueue("guests", Operation::Insert, "{\"name\":\"Asha\"}", 100), Ok(1));
    assert_eq!(queue.enqueue("tables", Operation::Update, "{\"id\":4}", 101), Ok(2));
    assert_eq!(queue.enqueue("orders", Operation::Delete, "{\"id\":9}", 102), Ok(3));
    assert_eq!(queue.len(), 3);
    assert_eq!(queue.last_id(), 3);
    assert_eq!(
        queue.peek_batch(10),
        vec![
            entry(1, "guests", Operation::Insert, "{\"name\":\"Asha\"}", 100),
            entry(2, "tables", Operation::Update, "{\"id\":4}", 101),
            entry(3, "orders", Operation::Delete, "{\"id\":9}", 102),
        ]
    );
}

#[test]
fn peek_batch_returns_the_oldest_in_order() {
    let mut queue = SyncQueue::new();
    for n in 0..25 {
        queue.enqueue("guests", Operation::Insert, "{}", n).unwrap();
    }
    let batch = queue.peek_batch(10);
    let ids: Vec<i64> = batch.iter().map(|item| item.id).collect();
    assert_eq!(ids, vec![1, 2, 3, 4, 5, 6, 7, 8, 9, 10]);
    assert_eq!(queue.len(), 25);
    assert_eq!(queue.peek_batch(0), Vec::<QueueItem>::new());
    assert_eq!(queue.peek_batch(100).len(), 25);
}

#[test]
fn peek_batch_never_returns_an_acked_id() {
    let mut queue = SyncQueue::new();
    for n in 0..6 {
        queue.enqueue("guests", Operation::Insert, "{}", n).unwrap();
    }
    assert!(queue.ack(2));
    assert!(queue.ack(1));
    assert!(queue.ack(5));
    queue.enqueue("guests", Operation::Insert, "{}", 6).unwrap();
    let ids: Vec<i64> = queue.peek_batch(10).iter().map(|item| item.id).collect();
    assert_eq!(ids, vec![3, 4, 6, 7]);
}

#[test]
fn ack_of_a_missing_id_changes_nothing() {
    let mut queue = SyncQueue::new();
    queue.enqueue("guests", Operation::Insert, "a", 1).unwrap();
    queue.enqueue("guests", Operation::Insert, "b", 2).unwrap();
    let before = queue.peek_batch(10);
    assert!(!queue.ack(7));
    assert!(!queue.ack(0));
    assert!(!queue.ack(-3));
    assert_eq!(queue.peek_batch(10), before);
    assert_eq!(queue.last_id(), 2);
}

#[test]
fn ack_twice_is_ack_once() {
    let mut queue = SyncQueue::new();
    queue.enqueue("guests", Operation::Insert, "a", 1).unwrap();
    queue.enqueue("guests", Operation::Insert, "b", 2).unwrap();
    assert!(queue.ack(1));
    let after_first = queue.peek_batch(10);
    assert!(!queue.ack(1));
    assert_eq!(queue.peek_batch(10), after_first);
    assert_eq!(after_first, vec![entry(2, "guests", Operation::Insert, "b", 2)]);
}

#[test]
fn ids_are_not_reused_after_ack() {
    let mut queue = SyncQueue::new();
    assert_eq!(queue.enqueue("guests", Operation::Insert, "a", 1), Ok(1));
    assert!(queue.ack(1));
    assert!(queue.is_empty());
    assert_eq!(queue.enqueue("guests", Operation::Insert, "b", 2), Ok(2));
}

#[test]
fn enqueue_fails_when_ids_are_exhausted() {
    let mut queue = SyncQueue::restore(Vec::new(), i64::MAX).unwrap();
    assert_eq!(
        queue.enqueue("guests", Operation::Insert, "{}", 1),
        Err(QueueError::Exhausted)
    );
    assert!(queue.is_empty());
    assert_eq!(queue.last_id(), i64::MAX);
}

#[test]
fn enqueue_hands_out_the_last_id() {
    let mut queue = SyncQueue::restore(Vec::new(), i64::MAX - 1).unwrap();
    assert_eq!(queue.enqueue("guests", Operation::Insert, "{}", 1), Ok(i64::MAX));
    assert_eq!(
        queue.enqueue("guests", Operation::Insert, "{}", 1),
        Err(QueueError::Exhausted)
    );
    assert_eq!(queue.len(), 1);
}

#[test]
fn restore_takes_ascending_ids() {
    let items = || {
        vec![
            entry(3, "guests", Operation::Insert, "a", 1),
            entry(8, "tables", Operation::Delete, "b", 2),
        ]
    };
    let queue = SyncQueue::restore(items(), 9).unwrap();
    assert_eq!(queue.peek_batch(10), items());
    assert_eq!(queue.last_id(), 9);
}

#[test]
fn restore_refuses_what_no_queue_holds() {
    let a = entry(3, "guests", Operation::Insert, "a", 1);
    let b = entry(8, "tables", Operation::Delete, "b", 2);
    assert!(SyncQueue::restore(vec![b.duplicate(), a.duplicate()], 9).is_none());
    assert!(SyncQueue::restore(vec![a.duplicate(), a.duplicate()], 9).is_none());
    assert!(SyncQueue::restore(vec![a.duplicate(), b.duplicate()], 7).is_none());
    assert!(SyncQueue::restore(vec![entry(0, "guests", Operation::Insert, "a", 1)], 9).is_none());
    assert!(SyncQueue::restore(Vec::new(), -1).is_none());
    assert!(SyncQueue::restore(vec![a, b], 8).is_some());
}

#[test]
fn duplicate_is_equal() {
    let a = entry(3, "guests", Operation::Insert, "a", 1);
    assert_eq!(a.duplicate(), a);
}

#[test]
fn operations_have_their_codes() {
    assert_eq!(Operation::Insert.code(), "INSERT");
    assert_eq!(Operation::Update.code(), "UPDATE");
    assert_eq!(Operation::Delete.code(), "DELETE");
    for operation in [Operation::Insert, Operation::Update, Operation::Delete] {
        assert_eq!(Operation::from_code(operation.code()), Some(operation));
    }
    assert_eq!(Operation::from_code("insert"), None);
    assert_eq!(Operation::from_code(""), None);
    assert_eq!(Operation::from_code("order-created"), None);
}

#[test]
fn newest_is_the_last_enqueued() {
    let mut queue = SyncQueue::new();
    assert_eq!(queue.newest(), None);
    queue.enqueue("guests", Operation::Insert, "a", 1).unwrap();
    queue.enqueue("tables", Operation::Delete, "b", 2).unwrap();
    assert_eq!(queue.newest(), Some(entry(2, "tables", Operation::Delete, "b", 2)));
    assert!(queue.ack(2));
    assert_eq!(queue.newest(), Some(entry(1, "guests", Operation::Insert, "a", 1)));
}
