use pos_sync::services::websocket_service::{
    mutation_kind, ConnectionEvent, ConnectionState, Inbound, Relay, WebSocketService,
};
use pos_sync::sync_queue::{Operation, SyncQueue};

fn drain(hub: &mut WebSocketService, address: &str) -> Vec<String> {
    let mut frames = Vec::new();
    while let Some(frame) = hub.next_outbound(address) {
        frames.push(frame);
    }
    frames
}

fn message(event: &str, text: &str, frame: &str) -> Inbound {
    Inbound::Message {
        event: event.to_string(),
        text: text.to_string(),
        frame: frame.to_string(),
    }
}

#[test]
fn connection_walks_through_its_states() {
    let state = ConnectionState::Connecting;
    let state = state.step(ConnectionEvent::Accepted);
    assert_eq!(state, ConnectionState::Open);
    let state = state.step(ConnectionEvent::Failed);
    assert_eq!(state, ConnectionState::Closing);
    let state = state.step(ConnectionEvent::Deregistered);
    assert_eq!(state, ConnectionState::Closed);
}

#[test]
fn closed_is_final() {
    for event in [
        ConnectionEvent::Accepted,
        ConnectionEvent::Failed,
        ConnectionEvent::Deregistered,
    ] {
        assert_eq!(ConnectionState::Closed.step(event), ConnectionState::Closed);
    }
}

#[test]
fn events_out_of_turn_are_ignored() {
    assert_eq!(
        ConnectionState::Connecting.step(ConnectionEvent::Deregistered),
        ConnectionState::Connecting
    );
    assert_eq!(
        ConnectionState::Connecting.step(ConnectionEvent::Failed),
        ConnectionState::Closing
    );
    assert_eq!(ConnectionState::Open.step(ConnectionEvent::Accepted), ConnectionState::Open);
    assert_eq!(
        ConnectionState::Open.step(ConnectionEvent::Deregistered),
        ConnectionState::Open
    );
    assert_eq!(
        ConnectionState::Closing.step(ConnectionEvent::Accepted),
        ConnectionState::Closing
    );
    assert_eq!(ConnectionState::Closing.step(ConnectionEvent::Failed), ConnectionState::Closing);
}

#[test]
fn only_open_carries_traffic() {
    assert!(!ConnectionState::Connecting.carries_traffic());
    assert!(ConnectionState::Open.carries_traffic());
    assert!(!ConnectionState::Closing.carries_traffic());
    assert!(!ConnectionState::Closed.carries_traffic());
}

#[test]
fn mutation_kind_reads_the_tag() {
    assert_eq!(mutation_kind("order-created"), Some(Operation::Insert));
    assert_eq!(mutation_kind("guest-updated"), Some(Operation::Update));
    assert_eq!(mutation_kind("table-deleted"), Some(Operation::Delete));
    assert_eq!(mutation_kind("create"), Some(Operation::Insert));
    assert_eq!(mutation_kind("ping"), None);
    assert_eq!(mutation_kind(""), None);
    assert_eq!(mutation_kind("creat"), None);
    assert_eq!(mutation_kind("Created"), None);
    assert_eq!(mutation_kind("délete-update"), Some(Operation::Update));
}

#[test]
fn mutation_kind_prefers_creation_then_update() {
    assert_eq!(mutation_kind("delete-update-create"), Some(Operation::Insert));
    assert_eq!(mutation_kind("delete-update"), Some(Operation::Update));
}

#[test]
fn new_hub_has_no_peer() {
    let mut hub = WebSocketService::new();
    assert_eq!(hub.peer_count(), 0);
    assert!(!hub.is_registered("10.0.0.1:4000"));
    assert_eq!(hub.state_of("10.0.0.1:4000"), ConnectionState::Closed);
    assert_eq!(hub.next_outbound("10.0.0.1:4000"), None);
    hub.broadcast("frame");
    assert_eq!(hub.peer_count(), 0);
}

#[test]
fn register_and_deregister() {
    let mut hub = WebSocketService::new();
    hub.register("10.0.0.1:4000");
    hub.register("10.0.0.2:4000");
    assert_eq!(hub.peer_count(), 2);
    assert!(hub.is_registered("10.0.0.1:4000"));
    assert_eq!(hub.state_of("10.0.0.1:4000"), ConnectionState::Open);
    assert!(hub.deregister("10.0.0.1:4000"));
    assert!(!hub.deregister("10.0.0.1:4000"));
    assert_eq!(hub.peer_count(), 1);
    assert!(!hub.is_registered("10.0.0.1:4000"));
    assert!(hub.is_registered("10.0.0.2:4000"));
}

#[test]
fn registering_again_starts_afresh() {
    let mut hub = WebSocketService::new();
    hub.register("a");
    hub.broadcast("one");
    hub.fail("a");
    hub.register("a");
    assert_eq!(hub.peer_count(), 1);
    assert_eq!(hub.state_of("a"), ConnectionState::Open);
    assert_eq!(hub.next_outbound("a"), None);
}

#[test]
fn broadcast_reaches_every_open_peer_once() {
    let mut hub = WebSocketService::new();
    for address in ["a", "b", "c", "d"] {
        hub.register(address);
    }
    hub.broadcast("{\"event\":\"ping\",\"payload\":null}");
    for address in ["a", "b", "c", "d"] {
        assert_eq!(
            drain(&mut hub, address),
            vec!["{\"event\":\"ping\",\"payload\":null}".to_string()]
        );
    }
}

#[test]
fn broadcast_keeps_the_order_per_peer() {
    let mut hub = WebSocketService::new();
    hub.register("a");
    hub.broadcast("one");
    hub.register("b");
    hub.broadcast("two");
    hub.broadcast("three");
    assert_eq!(drain(&mut hub, "a"), vec!["one", "two", "three"]);
    assert_eq!(drain(&mut hub, "b"), vec!["two", "three"]);
    assert_eq!(hub.next_outbound("a"), None);
}

#[test]
fn a_closing_peer_loses_only_its_own_copy() {
    let mut hub = WebSocketService::new();
    hub.register("a");
    hub.register("b");
    hub.register("c");
    hub.broadcast("one");
    hub.fail("b");
    assert_eq!(hub.state_of("b"), ConnectionState::Closing);
    hub.broadcast("two");
    assert_eq!(drain(&mut hub, "a"), vec!["one", "two"]);
    assert_eq!(drain(&mut hub, "c"), vec!["one", "two"]);
    assert_eq!(hub.next_outbound("b"), None);
    assert!(hub.deregister("b"));
    assert_eq!(hub.state_of("b"), ConnectionState::Closed);
    assert_eq!(hub.peer_count(), 2);
}

#[test]
fn fail_of_an_unknown_peer_changes_nothing() {
    let mut hub = WebSocketService::new();
    hub.register("a");
    hub.fail("z");
    assert_eq!(hub.peer_count(), 1);
    assert_eq!(hub.state_of("a"), ConnectionState::Open);
    assert_eq!(hub.state_of("z"), ConnectionState::Closed);
}

#[test]
fn peer_message_is_rebroadcast_to_all_and_queued() {
    let mut hub = WebSocketService::new();
    let mut queue = SyncQueue::new();
    hub.register("A");
    hub.register("B");
    let text = "{\"event\":\"order-created\",\"payload\":{\"order_number\":\"A-17\"}}";
    let frame = "{\"event\":\"order-created\",\"payload\":{\"order_number\":\"A-17\"}}";
    let relay = hub.receive(&mut queue, "A", &message("order-created", text, frame), 1700);
    assert_eq!(relay, Relay { relayed: true, queued: Some(1) });
    assert_eq!(drain(&mut hub, "A"), vec![frame]);
    assert_eq!(drain(&mut hub, "B"), vec![frame]);
    let batch = queue.peek_batch(10);
    assert_eq!(batch.len(), 1);
    assert_eq!(batch[0].id, 1);
    assert_eq!(batch[0].table_name, "events");
    assert_eq!(batch[0].operation, Operation::Insert);
    assert_eq!(batch[0].payload, text);
    assert_eq!(batch[0].enqueued_at, 1700);
}

#[test]
fn message_that_denotes_no_mutation_is_relayed_but_not_queued() {
    let mut hub = WebSocketService::new();
    let mut queue = SyncQueue::new();
    hub.register("A");
    hub.register("B");
    let relay = hub.receive(&mut queue, "A", &message("kitchen-bell", "raw", "frame"), 5);
    assert_eq!(relay, Relay { relayed: true, queued: None });
    assert!(queue.is_empty());
    assert_eq!(drain(&mut hub, "A"), vec!["frame"]);
    assert_eq!(drain(&mut hub, "B"), vec!["frame"]);
}

#[test]
fn undecodable_frame_is_dropped() {
    let mut hub = WebSocketService::new();
    let mut queue = SyncQueue::new();
    hub.register("A");
    hub.register("B");
    let relay = hub.receive(&mut queue, "A", &Inbound::Undecodable, 5);
    assert_eq!(relay, Relay { relayed: false, queued: None });
    assert!(queue.is_empty());
    assert_eq!(hub.next_outbound("A"), None);
    assert_eq!(hub.next_outbound("B"), None);
    assert_eq!(hub.state_of("A"), ConnectionState::Open);
}

#[test]
fn receive_failure_closes_only_that_connection() {
    let mut hub = WebSocketService::new();
    let mut queue = SyncQueue::new();
    hub.register("A");
    hub.register("B");
    let relay = hub.receive(&mut queue, "A", &Inbound::Failed, 5);
    assert_eq!(relay, Relay { relayed: false, queued: None });
    assert_eq!(hub.state_of("A"), ConnectionState::Closing);
    assert_eq!(hub.state_of("B"), ConnectionState::Open);
    assert!(queue.is_empty());
}

#[test]
fn message_from_a_peer_that_is_not_open_is_dropped() {
    let mut hub = WebSocketService::new();
    let mut queue = SyncQueue::new();
    hub.register("A");
    hub.register("B");
    hub.fail("A");
    let from_closing = hub.receive(&mut queue, "A", &message("order-created", "t", "f"), 5);
    let from_stranger = hub.receive(&mut queue, "Z", &message("order-created", "t", "f"), 5);
    assert_eq!(from_closing, Relay { relayed: false, queued: None });
    assert_eq!(from_stranger, Relay { relayed: false, queued: None });
    assert!(queue.is_empty());
    assert_eq!(hub.next_outbound("B"), None);
}

#[test]
fn message_is_relayed_even_when_the_queue_is_exhausted() {
    let mut hub = WebSocketService::new();
    let mut queue = SyncQueue::restore(Vec::new(), i64::MAX).unwrap();
    hub.register("A");
    let relay = hub.receive(&mut queue, "A", &message("order-created", "t", "f"), 5);
    assert_eq!(relay, Relay { relayed: true, queued: None });
    assert_eq!(drain(&mut hub, "A"), vec!["f"]);
    assert!(queue.is_empty());
}
