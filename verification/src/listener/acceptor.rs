//! Which connections a listener takes, and what becomes of them.

use crate::config::types::ListenerConfig;
use crate::listener::connection::{Connection, ConnectionId, ConnectionState, ConnectionView};
use crate::net::SocketAddr;
use crate::time::Duration;
use vstd::prelude::*;

verus! {

/// How far a connection has come.
#[derive(Debug, Clone, Copy, PartialEq, Eq, Structural)]
pub enum SlotPhase {
    /// Its socket is being configured.
    Configuring,
    /// The TLS handshake is going on.
    Handshaking,
    /// It has a session.
    Active,
}

/// A connection that counts against the limit of its listener.
#[derive(Debug, Clone, Copy, PartialEq, Eq, Structural)]
pub struct Slot {
    pub id: u64,
    pub peer: SocketAddr,
    pub phase: SlotPhase,
}

/// How a TLS handshake ended.
#[derive(Debug, Clone, Copy, PartialEq, Eq, Structural)]
pub enum Handshake {
    Completed,
    Failed,
    TimedOut,
}

/// Something that happens at a listener.
#[derive(Debug, Clone, Copy, PartialEq, Eq, Structural)]
pub enum AcceptEvent {
    /// A client connected.
    Arrived(SocketAddr),
    /// The socket of a connection was configured, or could not be.
    SocketConfigured { id: u64, ok: bool },
    /// The handshake of a connection ended.
    HandshakeEnded { id: u64, outcome: Handshake },
    /// The session of a connection ended.
    Closed { id: u64 },
}

/// What is to be done.
#[derive(Debug, Clone, Copy, PartialEq, Eq, Structural)]
pub enum AcceptAction {
    /// Turn the client away: the limit is reached.
    Reject,
    /// Configure the socket of a connection.
    ConfigureSocket { id: u64 },
    /// Do the TLS handshake, within some seconds.
    DoHandshake { id: u64, within_secs: u64 },
    /// Open a session on a connection.
    OpenSession { id: u64 },
    /// Let a connection go.
    Drop { id: u64 },
    /// Nothing.
    Nothing,
}

/// Seconds within which a TLS handshake must end.
pub const HANDSHAKE_SECS: u64 = 10;

/// Accepts connections.
#[derive(Debug)]
pub struct Listener {
    name: String,
    address: SocketAddr,
    tls: bool,
    max_connections: usize,
    next_connection_id: u64,
    slots: Vec<Slot>,
    idle_timeout: Duration,
    request_timeout: Duration,
}

/// State of a listener.
#[verifier::ext_equal]
pub struct ListenerView {
    pub name: Seq<char>,
    pub address: SocketAddr,
    /// Whether connections use TLS.
    pub tls: bool,
    /// How many connections there may be.
    pub max: nat,
    /// Number of the next connection.
    pub next_id: u64,
    /// The connections.
    pub slots: Seq<Slot>,
    /// In nanoseconds.
    pub idle_timeout: nat,
    /// In nanoseconds.
    pub request_timeout: nat,
}

impl View for Listener {
    type V = ListenerView;

    closed spec fn view(&self) -> ListenerView {
        ListenerView {
            name: self.name@,
            address: self.address,
            tls: self.tls,
            max: self.max_connections as nat,
            next_id: self.next_connection_id,
            slots: self.slots@,
            idle_timeout: self.idle_timeout@,
            request_timeout: self.request_timeout@,
        }
    }
}

/// Position of a connection in some phase.
pub open spec fn slot_of(slots: Seq<Slot>, id: u64, phase: SlotPhase) -> Option<int>
    decreases slots.len(),
{
    if slots.len() == 0 {
        None
    } else if slots.last().id == id && slots.last().phase == phase {
        Some(slots.len() - 1)
    } else {
        slot_of(slots.drop_last(), id, phase)
    }
}

/// The connections with one in another phase.
pub open spec fn slot_moved(slots: Seq<Slot>, i: int, phase: SlotPhase) -> Seq<Slot> {
    slots.update(i, Slot { phase, ..slots[i] })
}

/// The listener after an event, and what is to be done. An event of a
/// connection that is not in the right phase changes nothing.
pub open spec fn accept_step(l: ListenerView, event: AcceptEvent) -> (ListenerView, AcceptAction) {
    match event {
        AcceptEvent::Arrived(peer) => if l.slots.len() >= l.max {
            (l, AcceptAction::Reject)
        } else {
            (
                ListenerView {
                    next_id: if l.next_id == u64::MAX {
                        0
                    } else {
                        (l.next_id + 1) as u64
                    },
                    slots: l.slots.push(
                        Slot { id: l.next_id, peer, phase: SlotPhase::Configuring },
                    ),
                    ..l
                },
                AcceptAction::ConfigureSocket { id: l.next_id },
            )
        },
        AcceptEvent::SocketConfigured { id, ok } => match slot_of(
            l.slots,
            id,
            SlotPhase::Configuring,
        ) {
            None => (l, AcceptAction::Nothing),
            Some(i) => if !ok {
                (ListenerView { slots: l.slots.remove(i), ..l }, AcceptAction::Drop { id })
            } else if l.tls {
                (
                    ListenerView { slots: slot_moved(l.slots, i, SlotPhase::Handshaking), ..l },
                    AcceptAction::DoHandshake { id, within_secs: HANDSHAKE_SECS },
                )
            } else {
                (
                    ListenerView { slots: slot_moved(l.slots, i, SlotPhase::Active), ..l },
                    AcceptAction::OpenSession { id },
                )
            },
        },
        AcceptEvent::HandshakeEnded { id, outcome } => match slot_of(
            l.slots,
            id,
            SlotPhase::Handshaking,
        ) {
            None => (l, AcceptAction::Nothing),
            Some(i) => if outcome == Handshake::Completed {
                (
                    ListenerView { slots: slot_moved(l.slots, i, SlotPhase::Active), ..l },
                    AcceptAction::OpenSession { id },
                )
            } else {
                (ListenerView { slots: l.slots.remove(i), ..l }, AcceptAction::Drop { id })
            },
        },
        AcceptEvent::Closed { id } => match slot_of(l.slots, id, SlotPhase::Active) {
            None => (l, AcceptAction::Nothing),
            Some(i) => (ListenerView { slots: l.slots.remove(i), ..l }, AcceptAction::Drop { id }),
        },
    }
}

/// The numbers of the connections that have a session.
pub open spec fn active_ids(slots: Seq<Slot>) -> Seq<u64>
    decreases slots.len(),
{
    if slots.len() == 0 {
        seq![]
    } else {
        let front = active_ids(slots.drop_last());
        if slots.last().phase == SlotPhase::Active {
            front.push(slots.last().id)
        } else {
            front
        }
    }
}

/// A listener as its configuration says, without connections.
pub open spec fn new_listener(config: ListenerConfig) -> ListenerView {
    ListenerView {
        name: config.name@,
        address: config.address,
        tls: config.tls is Some,
        max: config.limits.max_connections as nat,
        next_id: 1,
        slots: seq![],
        idle_timeout: config.limits.idle_timeout@,
        request_timeout: config.limits.request_timeout@,
    }
}

impl Listener {
    /// A listener by its configuration.
    pub fn new(config: &ListenerConfig) -> (l: Self)
        ensures
            l@ == new_listener(*config),
    {
        let l = Listener {
            name: config.name.clone(),
            address: config.address,
            tls: config.tls.is_some(),
            max_connections: config.limits.max_connections,
            next_connection_id: 1,
            slots: Vec::new(),
            idle_timeout: config.limits.idle_timeout,
            request_timeout: config.limits.request_timeout,
        };
        assert(l@.slots =~= Seq::<Slot>::empty());
        l
    }

    /// Name.
    pub fn name(&self) -> (s: &str)
        ensures
            s@ == self@.name,
    {
        self.name.as_str()
    }

    /// Address.
    pub fn address(&self) -> (a: SocketAddr)
        ensures
            a == self@.address,
    {
        self.address
    }

    /// Whether connections use TLS.
    pub fn uses_tls(&self) -> (b: bool)
        ensures
            b == self@.tls,
    {
        self.tls
    }

    /// Number of connections that have a session.
    pub fn active_connections(&self) -> (n: usize)
        ensures
            n == active_ids(self@.slots).len(),
    {
        self.drain_connections().len()
    }

    fn find(&self, id: u64, phase: SlotPhase) -> (p: Option<usize>)
        ensures
            match p {
                Some(i) => i < self@.slots.len() && slot_of(self@.slots, id, phase) == Some(
                    i as int,
                ),
                None => slot_of(self@.slots, id, phase) is None,
            },
    {
        let ghost all = self.slots@;
        let mut i: usize = self.slots.len();
        assert(all.take(i as int) == all);
        while i > 0
            invariant
                i <= all.len(),
                all == self.slots@,
                slot_of(all, id, phase) == slot_of(all.take(i as int), id, phase),
            decreases i,
        {
            assert(all.take(i as int).drop_last() == all.take(i - 1));
            assert(all.take(i as int).last() == all[i - 1]);
            if self.slots[i - 1].id == id && self.slots[i - 1].phase == phase {
                return Some(i - 1);
            }
            i -= 1;
        }
        None
    }

    fn advance(&mut self, i: usize, phase: SlotPhase)
        requires
            i < old(self)@.slots.len(),
        ensures
            final(self)@ == (ListenerView {
                slots: slot_moved(old(self)@.slots, i as int, phase),
                ..old(self)@
            }),
    {
        let slot = self.slots[i];
        self.slots.set(i, Slot { phase, ..slot });
    }

    /// Takes note of an event, and says what is to be done.
    pub fn handle_accept(&mut self, event: AcceptEvent) -> (action: AcceptAction)
        ensures
            (final(self)@, action) == accept_step(old(self)@, event),
    {
        match event {
            AcceptEvent::Arrived(peer) => {
                if self.slots.len() >= self.max_connections {
                    return AcceptAction::Reject;
                }
                let id: u64 = self.next_connection_id;
                self.next_connection_id = id.wrapping_add(1);
                self.slots.push(Slot { id, peer, phase: SlotPhase::Configuring });
                AcceptAction::ConfigureSocket { id }
            },
            AcceptEvent::SocketConfigured { id, ok } => match self.find(
                id,
                SlotPhase::Configuring,
            ) {
                None => AcceptAction::Nothing,
                Some(i) => {
                    if !ok {
                        let _ = self.slots.remove(i);
                        AcceptAction::Drop { id }
                    } else if self.tls {
                        self.advance(i, SlotPhase::Handshaking);
                        AcceptAction::DoHandshake { id, within_secs: HANDSHAKE_SECS }
                    } else {
                        self.advance(i, SlotPhase::Active);
                        AcceptAction::OpenSession { id }
                    }
                },
            },
            AcceptEvent::HandshakeEnded { id, outcome } => match self.find(
                id,
                SlotPhase::Handshaking,
            ) {
                None => AcceptAction::Nothing,
                Some(i) => {
                    if outcome == Handshake::Completed {
                        self.advance(i, SlotPhase::Active);
                        AcceptAction::OpenSession { id }
                    } else {
                        let _ = self.slots.remove(i);
                        AcceptAction::Drop { id }
                    }
                },
            },
            AcceptEvent::Closed { id } => match self.find(id, SlotPhase::Active) {
                None => AcceptAction::Nothing,
                Some(i) => {
                    let _ = self.slots.remove(i);
                    AcceptAction::Drop { id }
                },
            },
        }
    }

    /// The connection with a number, as it is when its session opens.
    pub fn connection(&self, id: u64) -> (c: Option<Connection>)
        ensures
            match slot_of(self@.slots, id, SlotPhase::Active) {
                None => c is None,
                Some(i) => c matches Some(conn) && conn@ == (ConnectionView {
                    id: ConnectionId(id),
                    listener: self@.name,
                    peer_addr: self@.slots[i].peer,
                    state: ConnectionState::Open,
                    system_id: None,
                    sequence: 1,
                    idle_timeout: self@.idle_timeout,
                    request_timeout: self@.request_timeout,
                    last_activity: conn@.last_activity,
                    closing: false,
                }),
            },
    {
        match self.find(id, SlotPhase::Active) {
            None => None,
            Some(i) => Some(
                Connection::new(
                    ConnectionId(id),
                    self.name.clone(),
                    self.slots[i].peer,
                    self.idle_timeout,
                    self.request_timeout,
                ),
            ),
        }
    }

    /// The numbers of the connections that are to be closed when the listener
    /// ends.
    pub fn drain_connections(&self) -> (ids: Vec<u64>)
        ensures
            ids@ == active_ids(self@.slots),
    {
        let ghost all = self.slots@;
        let mut ids: Vec<u64> = Vec::new();
        let mut i: usize = 0;
        while i < self.slots.len()
            invariant
                i <= self.slots.len(),
                all == self.slots@,
                ids@ == active_ids(all.take(i as int)),
            decreases self.slots.len() - i,
        {
            assert(all.take(i + 1).drop_last() == all.take(i as int));
            assert(all.take(i + 1).last() == all[i as int]);
            if self.slots[i].phase == SlotPhase::Active {
                ids.push(self.slots[i].id);
            }
            i += 1;
        }
        assert(all.take(i as int) == all);
        ids
    }
}

/// All listeners.
#[derive(Debug)]
pub struct Listeners {
    /// The listeners.
    pub listeners: Vec<Listener>,
}

impl Listeners {
    /// The listeners of some configurations.
    pub fn new(configs: &Vec<ListenerConfig>) -> (l: Self)
        ensures
            l.listeners@.len() == configs@.len(),
            forall|i: int|
                0 <= i < configs@.len() ==> (#[trigger] l.listeners@[i])@ == new_listener(
                    configs@[i],
                ),
    {
        let mut listeners: Vec<Listener> = Vec::new();
        let mut i: usize = 0;
        while i < configs.len()
            invariant
                i <= configs.len(),
                listeners@.len() == i,
                forall|j: int|
                    0 <= j < i ==> (#[trigger] listeners@[j])@ == new_listener(configs@[j]),
            decreases configs.len() - i,
        {
            listeners.push(Listener::new(&configs[i]));
            i += 1;
        }
        Listeners { listeners }
    }

    /// Number of listeners.
    pub fn len(&self) -> (n: usize)
        ensures
            n == self.listeners@.len(),
    {
        self.listeners.len()
    }

    /// Whether there is no listener.
    pub fn is_empty(&self) -> (b: bool)
        ensures
            b == (self.listeners@.len() == 0),
    {
        self.listeners.len() == 0
    }
}

proof fn slot_in_range(slots: Seq<Slot>, id: u64, phase: SlotPhase)
    ensures
        slot_of(slots, id, phase) matches Some(i) ==> 0 <= i < slots.len() && slots[i].id == id
            && slots[i].phase == phase,
    decreases slots.len(),
{
    if slots.len() > 0 {
        slot_in_range(slots.drop_last(), id, phase);
    }
}

/// A listener never has more connections than its limit allows, however they
/// come and go.
pub proof fn connections_stay_limited(l: ListenerView, event: AcceptEvent)
    requires
        l.slots.len() <= l.max,
    ensures
        accept_step(l, event).0.slots.len() <= l.max,
        accept_step(l, event).0.max == l.max,
{
    match event {
        AcceptEvent::Arrived(_) => {},
        AcceptEvent::SocketConfigured { id, .. } => {
            slot_in_range(l.slots, id, SlotPhase::Configuring);
        },
        AcceptEvent::HandshakeEnded { id, .. } => {
            slot_in_range(l.slots, id, SlotPhase::Handshaking);
        },
        AcceptEvent::Closed { id } => {
            slot_in_range(l.slots, id, SlotPhase::Active);
        },
    }
}

/// The connections have numbers of their own, all below the next one.
pub open spec fn numbers_differ(l: ListenerView) -> bool {
    &&& forall|i: int| 0 <= i < l.slots.len() ==> (#[trigger] l.slots[i]).id < l.next_id
    &&& forall|i: int, j: int|
        0 <= i < j < l.slots.len() ==> (#[trigger] l.slots[i]).id != (#[trigger] l.slots[j]).id
}

/// The connections of a listener have numbers of their own, as long as numbers
/// are left.
pub proof fn numbers_stay_different(l: ListenerView, event: AcceptEvent)
    requires
        numbers_differ(l),
        l.next_id < u64::MAX,
    ensures
        numbers_differ(accept_step(l, event).0),
{
    match event {
        AcceptEvent::Arrived(_) => {},
        AcceptEvent::SocketConfigured { id, .. } => {
            slot_in_range(l.slots, id, SlotPhase::Configuring);
        },
        AcceptEvent::HandshakeEnded { id, .. } => {
            slot_in_range(l.slots, id, SlotPhase::Handshaking);
        },
        AcceptEvent::Closed { id } => {
            slot_in_range(l.slots, id, SlotPhase::Active);
        },
    }
}

/// On a listener with TLS no session opens before the handshake is completed.
pub proof fn sessions_need_a_handshake(l: ListenerView, event: AcceptEvent)
    requires
        l.tls,
        accept_step(l, event).1 is OpenSession,
    ensures
        event matches AcceptEvent::HandshakeEnded { id, outcome } && outcome
            == Handshake::Completed,
{
}

/// A client that comes when the limit is reached is turned away, and one that
/// comes after a connection has ended is not.
pub proof fn places_come_free(l: ListenerView, id: u64, peer: SocketAddr)
    requires
        l.slots.len() == l.max,
        slot_of(l.slots, id, SlotPhase::Active) is Some,
    ensures
        accept_step(l, AcceptEvent::Arrived(peer)).1 is Reject,
        accept_step(
            accept_step(l, AcceptEvent::Closed { id }).0,
            AcceptEvent::Arrived(peer),
        ).1 is ConfigureSocket,
{
    slot_in_range(l.slots, id, SlotPhase::Active);
}

} // verus!
