//! The broadcast hub: the registry of connected terminals, the outbound queue
//! of each, and the fan-out that puts one copy of a frame in every open one.

use crate::sync_queue::{Operation, QueueView, SyncQueue};
use crate::text::{contains, str_contains, str_eq};
use vstd::prelude::*;

verus! {

/// Where a terminal connection stands in its life.
#[derive(Clone, Copy, Debug, PartialEq, Eq, Structural)]
pub enum ConnectionState {
    Connecting,
    Open,
    Closing,
    Closed,
}

/// What can happen to a terminal connection.
#[derive(Clone, Copy, Debug, PartialEq, Eq, Structural)]
pub enum ConnectionEvent {
    /// The transport finished its handshake.
    Accepted,
    /// Reading or writing failed, or the far side closed.
    Failed,
    /// The hub dropped the peer from its registry.
    Deregistered,
}

impl ConnectionState {
    /// The state that follows `self` on `event`. A failure always leads to
    /// `Closing`, `Closing` leads only to `Closed`, and `Closed` is final.
    pub open spec fn next(self, event: ConnectionEvent) -> ConnectionState {
        match (self, event) {
            (ConnectionState::Connecting, ConnectionEvent::Accepted) => ConnectionState::Open,
            (ConnectionState::Connecting, ConnectionEvent::Failed) => ConnectionState::Closing,
            (ConnectionState::Open, ConnectionEvent::Failed) => ConnectionState::Closing,
            (ConnectionState::Closing, ConnectionEvent::Deregistered) => ConnectionState::Closed,
            _ => self,
        }
    }

    /// Moves to the state that follows on `event`.
    pub fn step(self, event: ConnectionEvent) -> (after: ConnectionState)
        ensures
            after == self.next(event),
    {
        match self {
            ConnectionState::Connecting => match event {
                ConnectionEvent::Accepted => ConnectionState::Open,
                ConnectionEvent::Failed => ConnectionState::Closing,
                ConnectionEvent::Deregistered => ConnectionState::Connecting,
            },
            ConnectionState::Open => match event {
                ConnectionEvent::Failed => ConnectionState::Closing,
                _ => ConnectionState::Open,
            },
            ConnectionState::Closing => match event {
                ConnectionEvent::Deregistered => ConnectionState::Closed,
                _ => ConnectionState::Closing,
            },
            ConnectionState::Closed => ConnectionState::Closed,
        }
    }

    /// Whether messages are accepted and sent in this state: only in `Open`.
    pub fn carries_traffic(self) -> (open: bool)
        ensures
            open == (self == ConnectionState::Open),
    {
        match self {
            ConnectionState::Open => true,
            _ => false,
        }
    }
}

/// The life of a connection runs one way: a failure leads to `Closing` from
/// wherever messages might still flow, only an acceptance opens a connection
/// and only from `Connecting`, and nothing leads out of `Closed`.
pub proof fn lemma_connection_life(state: ConnectionState, event: ConnectionEvent)
    ensures
        ConnectionState::Closed.next(event) == ConnectionState::Closed,
        state != ConnectionState::Closed ==> state.next(ConnectionEvent::Failed)
            == ConnectionState::Closing,
        state.next(event) == ConnectionState::Open ==> state == ConnectionState::Open || (state
            == ConnectionState::Connecting && event == ConnectionEvent::Accepted),
        state.next(event) == ConnectionState::Closed ==> state == ConnectionState::Closed || (state
            == ConnectionState::Closing && event == ConnectionEvent::Deregistered),
        state.next(event) == ConnectionState::Connecting ==> state == ConnectionState::Connecting,
{
}

/// What the hub keeps of one registered peer.
pub struct SessionView {
    pub state: ConnectionState,
    /// Frames accepted for this peer and not yet handed to its writer, oldest first.
    pub outbound: Seq<Seq<char>>,
}

impl SessionView {
    /// A session as registration leaves it: open, with nothing to send.
    pub open spec fn fresh() -> SessionView {
        SessionView { state: ConnectionState::Open, outbound: Seq::empty() }
    }

    /// The session after a broadcast of `frame`: one copy more at the back
    /// of the outbound queue where the session is open, nothing otherwise.
    pub open spec fn deliver(self, frame: Seq<char>) -> SessionView {
        if self.state == ConnectionState::Open {
            SessionView { state: self.state, outbound: self.outbound.push(frame) }
        } else {
            self
        }
    }

    /// The session after its connection failed.
    pub open spec fn fail(self) -> SessionView {
        SessionView { state: self.state.next(ConnectionEvent::Failed), outbound: self.outbound }
    }
}

/// The registry after a broadcast of `frame`: every session has taken its
/// delivery, and no peer has come or gone.
pub open spec fn fan_out(
    peers: Map<Seq<char>, SessionView>,
    frame: Seq<char>,
) -> Map<Seq<char>, SessionView> {
    peers.map_values(|session: SessionView| session.deliver(frame))
}

/// The table under which events received from peers are queued.
pub open spec fn events_table() -> Seq<char> {
    "events"@
}

/// The kind of mutation that an event tag denotes: creation before update
/// before deletion where a tag names several, none where it names none.
pub open spec fn mutation_kind_of(event: Seq<char>) -> Option<Operation> {
    if contains(event, "create"@) {
        Some(Operation::Insert)
    } else if contains(event, "update"@) {
        Some(Operation::Update)
    } else if contains(event, "delete"@) {
        Some(Operation::Delete)
    } else {
        None
    }
}

/// The kind of mutation that an event tag denotes, if any.
pub fn mutation_kind(event: &str) -> (kind: Option<Operation>)
    ensures
        kind == mutation_kind_of(event@),
{
    if str_contains(event, "create") {
        Some(Operation::Insert)
    } else if str_contains(event, "update") {
        Some(Operation::Update)
    } else if str_contains(event, "delete") {
        Some(Operation::Delete)
    } else {
        None
    }
}

/// What the reader of a connection hands to the hub.
#[derive(Debug, PartialEq, Eq)]
pub enum Inbound {
    /// A text frame that decoded as a message: its event tag, the text as it
    /// came, and the frame to send on.
    Message { event: String, text: String, frame: String },
    /// A frame that carries no message: not text, or text that does not decode.
    Undecodable,
    /// Reading failed, or the far side closed.
    Failed,
}

/// What the hub did with an inbound frame.
#[derive(Clone, Copy, Debug, PartialEq, Eq, Structural)]
pub struct Relay {
    /// The frame was a message from an open peer and went out to every open peer.
    pub relayed: bool,
    /// The id under which the message was queued, where it was.
    pub queued: Option<i64>,
}

/// The queue after the hub took a message with this event tag and text. A
/// message that denotes no mutation leaves it as it was, and so does one
/// that finds the queue exhausted.
pub open spec fn queue_after_message(
    queue: QueueView,
    event: Seq<char>,
    text: Seq<char>,
    now: int,
) -> QueueView {
    match mutation_kind_of(event) {
        Some(operation) if queue.last_id < i64::MAX => queue.enqueue(
            events_table(),
            operation,
            text,
            now,
        ),
        _ => queue,
    }
}

/// The views of a run of texts, in the same order.
pub open spec fn texts(frames: Seq<String>) -> Seq<Seq<char>> {
    Seq::new(frames.len(), |i: int| frames[i]@)
}

struct PeerSession {
    address: String,
    state: ConnectionState,
    outbound: Vec<String>,
}

impl PeerSession {
    spec fn session(self) -> SessionView {
        SessionView { state: self.state, outbound: texts(self.outbound@) }
    }
}

/// No two of `peers` share an address.
spec fn distinct(peers: Seq<PeerSession>) -> bool {
    forall|i: int, j: int| 0 <= i < j < peers.len() ==> peers[i].address@ != peers[j].address@
}

/// Every one of `peers` is open or closing.
spec fn live(peers: Seq<PeerSession>) -> bool {
    forall|i: int|
        0 <= i < peers.len() ==> (#[trigger] peers[i]).state == ConnectionState::Open
            || peers[i].state == ConnectionState::Closing
}

/// Some peer of `peers` has this address.
spec fn registered(peers: Seq<PeerSession>, address: Seq<char>) -> bool {
    exists|i: int| 0 <= i < peers.len() && peers[i].address@ == address
}

/// A position in `peers` with this address, where there is one.
spec fn slot_of(peers: Seq<PeerSession>, address: Seq<char>) -> int {
    choose|i: int| 0 <= i < peers.len() && peers[i].address@ == address
}

/// The registry that `peers` stands for.
spec fn registry(peers: Seq<PeerSession>) -> Map<Seq<char>, SessionView> {
    Map::new(
        |address: Seq<char>| registered(peers, address),
        |address: Seq<char>| peers[slot_of(peers, address)].session(),
    )
}

proof fn lemma_slot(peers: Seq<PeerSession>, i: int)
    requires
        distinct(peers),
        0 <= i < peers.len(),
    ensures
        registered(peers, peers[i].address@),
        slot_of(peers, peers[i].address@) == i,
        registry(peers)[peers[i].address@] == peers[i].session(),
{
    let p = slot_of(peers, peers[i].address@);
    if p < i {
        assert(peers[p].address@ != peers[i].address@);
    } else if i < p {
        assert(peers[i].address@ != peers[p].address@);
    }
}

/// The hub: every registered terminal with its state and its outbound queue.
pub struct WebSocketService {
    peers: Vec<PeerSession>,
}

impl View for WebSocketService {
    type V = Map<Seq<char>, SessionView>;

    closed spec fn view(&self) -> Map<Seq<char>, SessionView> {
        registry(self.peers@)
    }
}

impl WebSocketService {
    /// Each address is registered once.
    pub closed spec fn well_formed(&self) -> bool {
        &&& distinct(self.peers@)
        &&& live(self.peers@)
    }

    /// A registered peer is open or closing: a connection enters the registry
    /// when it opens and leaves it before it is closed.
    pub proof fn lemma_registered_is_open_or_closing(&self, address: Seq<char>)
        requires
            self.well_formed(),
            self@.dom().contains(address),
        ensures
            self@[address].state == ConnectionState::Open || self@[address].state
                == ConnectionState::Closing,
    {
        let i = slot_of(self.peers@, address);
        lemma_slot(self.peers@, i);
    }

    /// A hub with no peer.
    pub fn new() -> (hub: WebSocketService)
        ensures
            hub.well_formed(),
            hub@ == Map::<Seq<char>, SessionView>::empty(),
    {
        let hub = WebSocketService { peers: Vec::new() };
        assert(hub@ =~= Map::<Seq<char>, SessionView>::empty());
        hub
    }

    fn find(&self, address: &str) -> (slot: Option<usize>)
        requires
            self.well_formed(),
        ensures
            match slot {
                Some(i) => i < self.peers@.len() && self.peers@[i as int].address@ == address@
                    && slot_of(self.peers@, address@) == i,
                None => !registered(self.peers@, address@),
            },
            slot is Some == self@.dom().contains(address@),
    {
        let mut i: usize = 0;
        while i < self.peers.len()
            invariant
                i <= self.peers@.len(),
                self.well_formed(),
                forall|k: int| 0 <= k < i ==> self.peers@[k].address@ != address@,
            decreases self.peers@.len() - i,
        {
            if str_eq(self.peers[i].address.as_str(), address) {
                proof {
                    lemma_slot(self.peers@, i as int);
                }
                return Some(i);
            }
            i += 1;
        }
        None
    }

    /// Number of registered peers.
    pub fn peer_count(&self) -> (n: usize)
        requires
            self.well_formed(),
        ensures
            n == self@.dom().len(),
            self@.dom().finite(),
    {
        proof {
            lemma_registry_size(self.peers@);
        }
        self.peers.len()
    }

    /// Whether a peer is registered under `address`.
    pub fn is_registered(&self, address: &str) -> (known: bool)
        requires
            self.well_formed(),
        ensures
            known == self@.dom().contains(address@),
    {
        self.find(address).is_some()
    }

    /// The state of the connection of `address`; `Closed` where the hub knows
    /// no such peer.
    pub fn state_of(&self, address: &str) -> (state: ConnectionState)
        requires
            self.well_formed(),
        ensures
            state == (if self@.dom().contains(address@) {
                self@[address@].state
            } else {
                ConnectionState::Closed
            }),
    {
        match self.find(address) {
            Some(i) => {
                proof {
                    lemma_slot(self.peers@, i as int);
                }
                self.peers[i].state
            },
            None => ConnectionState::Closed,
        }
    }

    /// Registers the peer of `address` with a fresh, empty outbound queue. A
    /// peer already known under that address is replaced by the fresh one.
    pub fn register(&mut self, address: &str)
        requires
            old(self).well_formed(),
        ensures
            final(self).well_formed(),
            final(self)@ == old(self)@.insert(address@, SessionView::fresh()),
    {
        match self.find(address) {
            Some(i) => {
                let session = &mut self.peers[i];
                session.state = ConnectionState::Open;
                session.outbound = Vec::new();
                proof {
                    lemma_replaced(old(self).peers@, self.peers@, i as int);
                    assert(texts(self.peers@[i as int].outbound@) =~= Seq::<Seq<char>>::empty());
                }
            },
            None => {
                let session = PeerSession {
                    address: address.to_owned(),
                    state: ConnectionState::Open,
                    outbound: Vec::new(),
                };
                proof {
                    assert(texts(session.outbound@) =~= Seq::<Seq<char>>::empty());
                    lemma_pushed(self.peers@, session);
                }
                self.peers.push(session);
            },
        }
    }

    /// Drops the peer of `address` from the registry, with whatever was still
    /// queued for it, and tells whether there was one.
    pub fn deregister(&mut self, address: &str) -> (known: bool)
        requires
            old(self).well_formed(),
        ensures
            final(self).well_formed(),
            final(self)@ == old(self)@.remove(address@),
            known == old(self)@.dom().contains(address@),
    {
        match self.find(address) {
            Some(i) => {
                proof {
                    lemma_removed(self.peers@, i as int);
                }
                self.peers.remove(i);
                true
            },
            None => {
                assert(self@ =~= self@.remove(address@));
                false
            },
        }
    }

    /// Records that reading from or writing to the peer of `address` failed:
    /// its connection is `Closing` from now on and gets no further frame.
    /// Nothing changes where the hub knows no such peer.
    pub fn fail(&mut self, address: &str)
        requires
            old(self).well_formed(),
        ensures
            final(self).well_formed(),
            final(self)@ == (if old(self)@.dom().contains(address@) {
                old(self)@.insert(address@, old(self)@[address@].fail())
            } else {
                old(self)@
            }),
    {
        match self.find(address) {
            Some(i) => {
                proof {
                    lemma_slot(self.peers@, i as int);
                }
                let session = &mut self.peers[i];
                session.state = session.state.step(ConnectionEvent::Failed);
                proof {
                    lemma_replaced(old(self).peers@, self.peers@, i as int);
                }
            },
            None => {},
        }
    }

    /// Puts one copy of `frame` at the back of the outbound queue of every
    /// open peer. A peer whose connection is closing is passed over.
    pub fn broadcast(&mut self, frame: &str)
        requires
            old(self).well_formed(),
        ensures
            final(self).well_formed(),
            final(self)@ == fan_out(old(self)@, frame@),
    {
        let mut i: usize = 0;
        while i < self.peers.len()
            invariant
                i <= self.peers@.len(),
                self.peers@.len() == old(self).peers@.len(),
                forall|k: int|
                    0 <= k < self.peers@.len() ==> (#[trigger] self.peers@[k]).address@ == old(
                        self,
                    ).peers@[k].address@,
                forall|k: int|
                    0 <= k < i ==> (#[trigger] self.peers@[k]).session() == old(
                        self,
                    ).peers@[k].session().deliver(frame@),
                forall|k: int|
                    i <= k < self.peers@.len() ==> (#[trigger] self.peers@[k]).session() == old(
                        self,
                    ).peers@[k].session(),
            decreases self.peers@.len() - i,
        {
            let ghost before = self.peers@;
            let session = &mut self.peers[i];
            if session.state.carries_traffic() {
                session.outbound.push(frame.to_owned());
            }
            proof {
                let after = self.peers@;
                assert(after.len() == before.len());
                assert forall|k: int| 0 <= k < after.len() && k != i implies after[k]
                    == before[k] by {}
                assert(texts(before[i as int].outbound@.push(after[i as int].outbound@.last()))
                    =~= texts(before[i as int].outbound@).push(
                    after[i as int].outbound@.last()@,
                ));
            }
            i += 1;
        }
        proof {
            lemma_same_addresses(old(self).peers@, self.peers@);
            assert forall|address: Seq<char>| #[trigger]
                old(self)@.dom().contains(address) implies self@[address] == old(
                self,
            )@[address].deliver(frame@) by {
                let k = slot_of(old(self).peers@, address);
                lemma_slot(old(self).peers@, k);
                lemma_slot(self.peers@, k);
            }
            assert(self@ =~= fan_out(old(self)@, frame@));
        }
    }

    /// Takes what the reader of the connection of `address` produced. A
    /// message from an open peer is queued under the events table where its
    /// tag denotes a mutation, and then goes out to every open peer, its
    /// sender included. A failure moves the connection to `Closing`. Anything
    /// else, and anything from a peer that is not open, is dropped.
    pub fn receive(
        &mut self,
        queue: &mut SyncQueue,
        address: &str,
        inbound: &Inbound,
        now: i64,
    ) -> (relay: Relay)
        requires
            old(self).well_formed(),
            old(queue)@.well_formed(),
        ensures
            final(self).well_formed(),
            final(queue)@.well_formed(),
            match *inbound {
                Inbound::Message { event, text, frame } if old(self)@.dom().contains(address@)
                    && old(self)@[address@].state == ConnectionState::Open => {
                    &&& final(self)@ == fan_out(old(self)@, frame@)
                    &&& final(queue)@ == queue_after_message(
                        old(queue)@,
                        event@,
                        text@,
                        now as int,
                    )
                    &&& relay.relayed
                    &&& relay.queued == (if final(queue)@ == old(queue)@ {
                        None
                    } else {
                        Some(final(queue)@.last_id as i64)
                    })
                },
                Inbound::Failed => {
                    &&& final(self)@ == (if old(self)@.dom().contains(address@) {
                        old(self)@.insert(address@, old(self)@[address@].fail())
                    } else {
                        old(self)@
                    })
                    &&& final(queue)@ == old(queue)@
                    &&& relay == Relay { relayed: false, queued: None }
                },
                _ => {
                    &&& final(self)@ == old(self)@
                    &&& final(queue)@ == old(queue)@
                    &&& relay == Relay { relayed: false, queued: None }
                },
            },
    {
        match inbound {
            Inbound::Message { event, text, frame } => {
                if !self.state_of(address).carries_traffic() {
                    return Relay { relayed: false, queued: None };
                }
                let queued = match mutation_kind(event.as_str()) {
                    Some(operation) => match queue.enqueue("events", operation, text.as_str(), now) {
                        Ok(id) => Some(id),
                        Err(_) => None,
                    },
                    None => None,
                };
                self.broadcast(frame.as_str());
                Relay { relayed: true, queued }
            },
            Inbound::Undecodable => Relay { relayed: false, queued: None },
            Inbound::Failed => {
                self.fail(address);
                Relay { relayed: false, queued: None }
            },
        }
    }

    /// Hands out the oldest frame queued for the peer of `address`, for its
    /// writer to put on the wire. There is none to hand out where the peer is
    /// unknown, its connection is not open, or its queue is empty.
    pub fn next_outbound(&mut self, address: &str) -> (frame: Option<String>)
        requires
            old(self).well_formed(),
        ensures
            final(self).well_formed(),
            match frame {
                Some(text) => {
                    &&& old(self)@.dom().contains(address@)
                    &&& old(self)@[address@].state == ConnectionState::Open
                    &&& old(self)@[address@].outbound.len() > 0
                    &&& text@ == old(self)@[address@].outbound[0]
                    &&& final(self)@ == old(self)@.insert(
                        address@,
                        SessionView {
                            state: ConnectionState::Open,
                            outbound: old(self)@[address@].outbound.drop_first(),
                        },
                    )
                },
                None => {
                    &&& final(self)@ == old(self)@
                    &&& !(old(self)@.dom().contains(address@) && old(self)@[address@].state
                        == ConnectionState::Open && old(self)@[address@].outbound.len() > 0)
                },
            },
    {
        match self.find(address) {
            Some(i) => {
                proof {
                    lemma_slot(self.peers@, i as int);
                }
                if self.peers[i].state.carries_traffic() && self.peers[i].outbound.len() > 0 {
                    let session = &mut self.peers[i];
                    let text = session.outbound.remove(0);
                    proof {
                        lemma_replaced(old(self).peers@, self.peers@, i as int);
                        assert(texts(self.peers@[i as int].outbound@) =~= texts(
                            old(self).peers@[i as int].outbound@,
                        ).drop_first());
                    }
                    Some(text)
                } else {
                    None
                }
            },
            None => None,
        }
    }
}

/// Replacing the session at one slot, under the same address, replaces the
/// entry of that address and no other.
proof fn lemma_replaced(before: Seq<PeerSession>, after: Seq<PeerSession>, i: int)
    requires
        distinct(before),
        0 <= i < before.len(),
        after.len() == before.len(),
        after[i].address@ == before[i].address@,
        forall|k: int| 0 <= k < before.len() && k != i ==> after[k] == before[k],
    ensures
        distinct(after),
        registry(after) == registry(before).insert(before[i].address@, after[i].session()),
{
    lemma_same_addresses(before, after);
    assert forall|a: Seq<char>| registry(after).dom().contains(a) implies #[trigger] registry(
        after,
    )[a] == registry(before).insert(before[i].address@, after[i].session())[a] by {
        let k = slot_of(after, a);
        lemma_slot(after, k);
        lemma_slot(before, k);
    }
    lemma_slot(before, i);
    assert(registry(after) =~= registry(before).insert(before[i].address@, after[i].session()));
}

/// Peers that keep their addresses, slot by slot, keep the set of addresses.
proof fn lemma_same_addresses(before: Seq<PeerSession>, after: Seq<PeerSession>)
    requires
        distinct(before),
        after.len() == before.len(),
        forall|k: int| 0 <= k < before.len() ==> (#[trigger] after[k]).address@ == before[k].address@,
    ensures
        distinct(after),
        registry(after).dom() == registry(before).dom(),
        forall|a: Seq<char>| registered(before, a) ==> slot_of(after, a) == slot_of(before, a),
{
    assert forall|i: int, j: int| 0 <= i < j < after.len() implies after[i].address@
        != after[j].address@ by {
        assert(after[i].address@ == before[i].address@);
        assert(after[j].address@ == before[j].address@);
    }
    assert forall|a: Seq<char>| registered(before, a) implies registered(after, a) && slot_of(
        after,
        a,
    ) == slot_of(before, a) by {
        let k = slot_of(before, a);
        assert(after[k].address@ == a);
        lemma_slot(after, k);
    }
    assert forall|a: Seq<char>| registered(after, a) implies registered(before, a) by {
        let k = slot_of(after, a);
        assert(after[k].address@ == before[k].address@);
    }
    assert(registry(after).dom() =~= registry(before).dom());
}

/// Adding a peer under an unknown address adds its entry and no other.
proof fn lemma_pushed(before: Seq<PeerSession>, session: PeerSession)
    requires
        distinct(before),
        !registered(before, session.address@),
    ensures
        distinct(before.push(session)),
        registry(before.push(session)) == registry(before).insert(
            session.address@,
            session.session(),
        ),
{
    let after = before.push(session);
    assert forall|i: int, j: int| 0 <= i < j < after.len() implies after[i].address@
        != after[j].address@ by {
        assert(after[i] == before[i]);
        if j < before.len() {
            assert(after[j] == before[j]);
        }
    }
    assert forall|a: Seq<char>| registry(after).dom().contains(a) implies registry(
        before,
    ).insert(session.address@, session.session()).dom().contains(a) && #[trigger] registry(
        after,
    )[a] == registry(before).insert(session.address@, session.session())[a] by {
        let k = slot_of(after, a);
        lemma_slot(after, k);
        if k < before.len() {
            assert(after[k] == before[k]);
            lemma_slot(before, k);
        }
    }
    assert forall|a: Seq<char>|
        registry(before).insert(session.address@, session.session()).dom().contains(
            a,
        ) implies registry(after).dom().contains(a) by {
        if a == session.address@ {
            assert(after[before.len() as int].address@ == a);
        } else {
            let k = slot_of(before, a);
            assert(after[k] == before[k]);
        }
    }
    assert(registry(after) =~= registry(before).insert(session.address@, session.session()));
}

/// Taking the peer at one slot out takes its entry out and no other.
proof fn lemma_removed(before: Seq<PeerSession>, i: int)
    requires
        distinct(before),
        0 <= i < before.len(),
    ensures
        distinct(before.remove(i)),
        registry(before.remove(i)) == registry(before).remove(before[i].address@),
{
    let after = before.remove(i);
    assert forall|j: int, k: int| 0 <= j < k < after.len() implies after[j].address@
        != after[k].address@ by {
        let a = if j < i { j } else { j + 1 };
        let b = if k < i { k } else { k + 1 };
        assert(after[j] == before[a]);
        assert(after[k] == before[b]);
    }
    assert forall|a: Seq<char>| registry(after).dom().contains(a) implies registry(
        before,
    ).remove(before[i].address@).dom().contains(a) && #[trigger] registry(after)[a]
        == registry(before).remove(before[i].address@)[a] by {
        let k = slot_of(after, a);
        lemma_slot(after, k);
        let b = if k < i { k } else { k + 1 };
        assert(after[k] == before[b]);
        lemma_slot(before, b);
        if b < i {
            assert(before[b].address@ != before[i].address@);
        } else {
            assert(before[i].address@ != before[b].address@);
        }
    }
    assert forall|a: Seq<char>| registry(before).remove(before[i].address@).dom().contains(
        a,
    ) implies registry(after).dom().contains(a) by {
        let b = slot_of(before, a);
        let k = if b < i { b } else { b - 1 };
        assert(after[k] == before[b]);
    }
    assert(registry(after) =~= registry(before).remove(before[i].address@));
}

/// A registry of distinct peers has as many addresses as peers.
proof fn lemma_registry_size(peers: Seq<PeerSession>)
    requires
        distinct(peers),
    ensures
        registry(peers).dom().finite(),
        registry(peers).dom().len() == peers.len(),
    decreases peers.len(),
{
    if peers.len() == 0 {
        assert(registry(peers).dom() =~= Set::<Seq<char>>::empty());
    } else {
        let rest = peers.drop_last();
        let last = peers.last();
        assert(distinct(rest)) by {
            assert forall|i: int, j: int| 0 <= i < j < rest.len() implies rest[i].address@
                != rest[j].address@ by {
                assert(rest[i] == peers[i]);
                assert(rest[j] == peers[j]);
            }
        }
        lemma_registry_size(rest);
        assert(!registry(rest).dom().contains(last.address@)) by {
            if registered(rest, last.address@) {
                let k = slot_of(rest, last.address@);
                assert(rest[k] == peers[k]);
                assert(peers[k].address@ != peers[peers.len() - 1].address@);
            }
        }
        assert(registry(peers).dom() =~= registry(rest).dom().insert(last.address@)) by {
            assert forall|a: Seq<char>| registry(peers).dom().contains(a) implies registry(
                rest,
            ).dom().insert(last.address@).contains(a) by {
                let k = slot_of(peers, a);
                if k < rest.len() {
                    assert(rest[k] == peers[k]);
                }
            }
            assert forall|a: Seq<char>| registry(rest).dom().insert(last.address@).contains(
                a,
            ) implies registry(peers).dom().contains(a) by {
                if a == last.address@ {
                    assert(peers[peers.len() - 1].address@ == a);
                } else {
                    let k = slot_of(rest, a);
                    assert(rest[k] == peers[k]);
                }
            }
        }
    }
}

/// Fan-out is complete: a broadcast leaves the set of peers as it was, gives
/// every open peer exactly one copy of the frame, behind all that was queued
/// for it before, and gives every other peer nothing.
pub proof fn lemma_fan_out_is_complete(
    peers: Map<Seq<char>, SessionView>,
    frame: Seq<char>,
    address: Seq<char>,
)
    requires
        peers.dom().contains(address),
    ensures
        fan_out(peers, frame).dom() == peers.dom(),
        fan_out(peers, frame)[address].state == peers[address].state,
        peers[address].state == ConnectionState::Open ==> fan_out(peers, frame)[address].outbound
            == peers[address].outbound.push(frame),
        peers[address].state != ConnectionState::Open ==> fan_out(peers, frame)[address]
            == peers[address],
{
}

} // verus!
