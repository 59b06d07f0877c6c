//! Events that the components of the server send each other.

use crate::config::types::Config;
use crate::net::SocketAddr;
use crate::pdu::SubmitSm;
use crate::text::{decimal, number};
use crate::time::Clock;
use std::sync::Arc;
use vstd::prelude::*;

verus! {

/// Hands out numbers, one after the other.
#[derive(Debug)]
pub struct IdSource {
    next: u64,
}

/// The number that follows another: after the greatest one comes zero.
pub open spec fn number_after(n: u64) -> u64 {
    if n == u64::MAX {
        0
    } else {
        (n + 1) as u64
    }
}

impl IdSource {
    /// The number that comes next.
    pub closed spec fn upcoming(&self) -> u64 {
        self.next
    }

    /// A source that begins with one.
    pub fn new() -> (s: Self)
        ensures
            s.upcoming() == 1,
    {
        IdSource { next: 1 }
    }

    /// A source that begins with some number.
    pub fn starting_at(first: u64) -> (s: Self)
        ensures
            s.upcoming() == first,
    {
        IdSource { next: first }
    }

    /// Takes the next number. After the greatest one comes zero.
    pub fn take(&mut self) -> (n: u64)
        ensures
            n == old(self).upcoming(),
            final(self).upcoming() == number_after(old(self).upcoming()),
    {
        let n: u64 = self.next;
        self.next = n.wrapping_add(1);
        n
    }
}

/// Identifies a stored message.
#[derive(Debug, Clone, Copy, PartialEq, Eq, Structural, Hash)]
pub struct MessageId(pub u64);

/// Identifies a session.
#[derive(Debug, Clone, Copy, PartialEq, Eq, Structural, Hash)]
pub struct SessionId(u64);

impl SessionId {
    /// The number of the session.
    pub closed spec fn value(&self) -> u64 {
        self.0
    }

    /// A new session, with the next number of a source.
    pub fn new(ids: &mut IdSource) -> (id: Self)
        ensures
            id.value() == old(ids).upcoming(),
            final(ids).upcoming() == number_after(old(ids).upcoming()),
    {
        SessionId(ids.take())
    }

    /// The number of the session.
    pub fn as_u64(&self) -> (n: u64)
        ensures
            n == self.value(),
    {
        self.0
    }

    /// The name of the session.
    pub fn to_string(&self) -> (s: String)
        ensures
            s@ == "session_"@ + decimal(self.value() as nat),
    {
        let mut s = "session_".to_owned();
        let n = number(self.0);
        s.append(n.as_str());
        s
    }
}

/// Two session IDs are the same exactly when they hold the same number.
pub proof fn session_ids_are_equal_by_value(a: SessionId, b: SessionId)
    ensures
        a == b <==> a.value() == b.value(),
{
}

/// The number that a source hands out after it has handed out some others.
pub open spec fn number_taken(first: u64, before: nat) -> u64
    decreases before,
{
    if before == 0 {
        first
    } else {
        number_after(number_taken(first, (before - 1) as nat))
    }
}

proof fn number_taken_value(first: u64, before: nat)
    requires
        before <= u64::MAX,
    ensures
        number_taken(first, before) == if first + before <= u64::MAX {
            first + before
        } else {
            first + before - u64::MAX - 1
        },
    decreases before,
{
    if before > 0 {
        number_taken_value(first, (before - 1) as nat);
    }
}

/// A source hands out each number only once, until all numbers have had their
/// turn.
pub proof fn numbers_taken_differ(first: u64, i: nat, j: nat)
    requires
        i < j <= u64::MAX,
    ensures
        number_taken(first, i) != number_taken(first, j),
{
    number_taken_value(first, i);
    number_taken_value(first, j);
}

/// The sessions that get their numbers from one source are told apart, until
/// all numbers have had their turn.
pub proof fn sessions_are_told_apart(first: u64, i: nat, j: nat, a: SessionId, b: SessionId)
    requires
        i < j <= u64::MAX,
        a.value() == number_taken(first, i),
        b.value() == number_taken(first, j),
    ensures
        a != b,
{
    numbers_taken_differ(first, i, j);
}

/// A new source counts up from one, so none of its sessions has the number
/// zero, until all other numbers have had their turn.
pub proof fn new_sources_count_from_one(before: nat)
    requires
        before < u64::MAX,
    ensures
        number_taken(1, before) == before + 1,
        number_taken(1, before) >= 1,
{
    number_taken_value(1, before);
}

/// A change in the message store.
#[derive(Debug)]
pub enum StorageEvent {
    /// A message was stored.
    MessageStored { id: MessageId },
    /// The state of a message changed.
    StateChanged { id: MessageId, old_state: String, new_state: String },
    /// A message was deleted.
    MessageDeleted { id: MessageId },
    /// Old messages were removed.
    MaintenanceCompleted { expired: u64, pruned: u64 },
}

/// A submitted message on its way.
#[derive(Debug)]
pub struct MessageEnvelope {
    /// The message.
    pub message_id: MessageId,
    /// The session that submitted it.
    pub session_id: SessionId,
    /// Sequence number of the request.
    pub sequence_number: u32,
    /// The client.
    pub system_id: String,
    /// The request.
    pub submit_sm: SubmitSm,
    /// A clock that was started when the message came in.
    pub received_at: Clock,
}

impl MessageEnvelope {
    /// A message that comes in now.
    pub fn new(
        message_id: MessageId,
        session_id: SessionId,
        sequence_number: u32,
        system_id: String,
        submit_sm: SubmitSm,
    ) -> (e: Self)
        ensures
            e.message_id == message_id,
            e.session_id == session_id,
            e.sequence_number == sequence_number,
            e.system_id == system_id,
            e.submit_sm == submit_sm,
    {
        MessageEnvelope {
            message_id,
            session_id,
            sequence_number,
            system_id,
            submit_sm,
            received_at: Clock::new(),
        }
    }
}

/// A response on its way back to a session.
#[derive(Debug)]
pub struct ResponseEnvelope {
    /// The session.
    pub session_id: SessionId,
    /// Sequence number of the request.
    pub sequence_number: u32,
    /// Message ID, local or upstream.
    pub message_id: String,
    /// Command status; zero is success.
    pub command_status: u32,
}

impl ResponseEnvelope {
    /// A success.
    pub fn success(session_id: SessionId, sequence_number: u32, message_id: String) -> (e: Self)
        ensures
            e == (ResponseEnvelope { session_id, sequence_number, message_id, command_status: 0 }),
    {
        ResponseEnvelope { session_id, sequence_number, message_id, command_status: 0 }
    }

    /// An error.
    pub fn error(
        session_id: SessionId,
        sequence_number: u32,
        message_id: String,
        status: u32,
    ) -> (e: Self)
        ensures
            e == (ResponseEnvelope {
                session_id,
                sequence_number,
                message_id,
                command_status: status,
            }),
    {
        ResponseEnvelope { session_id, sequence_number, message_id, command_status: status }
    }

    /// The same response once more.
    pub fn copy(&self) -> (e: Self)
        ensures
            e == *self,
    {
        ResponseEnvelope {
            session_id: self.session_id,
            sequence_number: self.sequence_number,
            message_id: self.message_id.clone(),
            command_status: self.command_status,
        }
    }
}

/// An event.
#[derive(Debug)]
pub enum Event {
    /// The configuration was reloaded.
    ConfigReloaded(Arc<Config>),
    /// The server is starting.
    Starting,
    /// The server accepts connections.
    Ready,
    /// The shutdown began.
    ShutdownStarted,
    /// Connections are draining.
    DrainStarted,
    /// The shutdown is over.
    ShutdownComplete,
    /// A listener started.
    ListenerStarted { name: String, address: String },
    /// A listener stopped.
    ListenerStopped { name: String },
    /// The health of a cluster changed.
    ClusterHealthChanged { name: String, healthy_endpoints: usize, total_endpoints: usize },
    /// An endpoint became healthy.
    EndpointUp { cluster: String, endpoint: String },
    /// An endpoint became unhealthy.
    EndpointDown { cluster: String, endpoint: String, reason: String },
    /// A circuit breaker opened.
    CircuitBreakerOpened { cluster: String, endpoint: String },
    /// A circuit breaker closed.
    CircuitBreakerClosed { cluster: String, endpoint: String },
    /// A session can receive responses.
    SessionRegistered { session_id: SessionId, listener: String, peer: SocketAddr },
    /// A session is gone.
    SessionUnregistered { session_id: SessionId },
    /// A connection was opened.
    ConnectionOpened { listener: String, peer: String },
    /// A connection was closed.
    ConnectionClosed { listener: String, peer: String },
    /// A session was bound.
    SessionBound {
        session_id: SessionId,
        listener: String,
        system_id: String,
        bind_type: String,
    },
    /// A session was unbound.
    SessionUnbound { session_id: SessionId, listener: String, system_id: String },
    /// A session failed to authenticate.
    SessionAuthFailed { listener: String, system_id: String, reason: String },
    /// A client submitted a message.
    MessageSubmitRequest(MessageEnvelope),
    /// A message passed the filters.
    MessageAccepted { envelope: MessageEnvelope },
    /// A filter rejected a message.
    MessageRejected { envelope: MessageEnvelope, reason: String, status: u32 },
    /// A message was routed to a cluster.
    MessageRouted {
        envelope: MessageEnvelope,
        route_name: String,
        cluster_name: String,
        fallback_clusters: Vec<String>,
    },
    /// A message is being forwarded.
    MessageForwarding { message_id: MessageId, cluster: String, endpoint: String, attempt: u32 },
    /// A message was delivered upstream.
    MessageDelivered {
        message_id: MessageId,
        session_id: SessionId,
        sequence_number: u32,
        smsc_message_id: String,
        latency_us: u64,
    },
    /// A message could not be delivered.
    MessageFailed {
        message_id: MessageId,
        session_id: SessionId,
        sequence_number: u32,
        error_code: Option<u32>,
        reason: String,
        permanent: bool,
    },
    /// A message will be tried again.
    MessageRetryScheduled { message_id: MessageId, attempt: u32, delay_ms: u64, reason: String },
    /// It is time to try a message again.
    MessageRetryReady { message_id: MessageId },
    /// A response is ready for a client.
    ResponseReady(ResponseEnvelope),
    /// A message was received from a client.
    MessageReceived { id: MessageId, system_id: String, destination: String },
    /// A message was submitted upstream.
    MessageSubmitted { id: MessageId, cluster: String, endpoint: String, attempt: u32 },
    /// A message is being tried again.
    MessageRetrying { id: MessageId, attempt: u32, delay_ms: u64 },
    /// A delivery receipt came from upstream.
    DeliveryReceiptReceived {
        smsc_message_id: String,
        status: String,
        cluster: String,
        endpoint: String,
    },
    /// A delivery receipt is ready for a client.
    DeliveryReceiptReady {
        session_id: SessionId,
        message_id: MessageId,
        status: String,
        error_code: Option<u32>,
    },
    /// The message store changed.
    Storage(StorageEvent),
    /// Throughput, in messages per second, given by the bits of a 64-bit float.
    ThroughputSnapshot {
        messages_per_second_bits: u64,
        active_connections: u64,
        pending_messages: u64,
    },
}

/// Categories of events.
#[derive(Debug, Clone, Copy, PartialEq, Eq, Structural, Hash)]
pub enum EventCategory {
    Lifecycle,
    Listener,
    Cluster,
    Session,
    Message,
    Storage,
    Metrics,
}

/// The category of an event.
pub open spec fn category_of(e: Event) -> EventCategory {
    match e {
        Event::Starting
        | Event::Ready
        | Event::ShutdownStarted
        | Event::DrainStarted
        | Event::ShutdownComplete
        | Event::ConfigReloaded(_) => EventCategory::Lifecycle,
        Event::ListenerStarted { .. } | Event::ListenerStopped { .. } => EventCategory::Listener,
        Event::ClusterHealthChanged { .. }
        | Event::EndpointUp { .. }
        | Event::EndpointDown { .. }
        | Event::CircuitBreakerOpened { .. }
        | Event::CircuitBreakerClosed { .. } => EventCategory::Cluster,
        Event::SessionRegistered { .. }
        | Event::SessionUnregistered { .. }
        | Event::ConnectionOpened { .. }
        | Event::ConnectionClosed { .. }
        | Event::SessionBound { .. }
        | Event::SessionUnbound { .. }
        | Event::SessionAuthFailed { .. } => EventCategory::Session,
        Event::Storage(_) => EventCategory::Storage,
        Event::ThroughputSnapshot { .. } => EventCategory::Metrics,
        _ => EventCategory::Message,
    }
}

impl Event {
    /// The category of the event.
    pub fn category(&self) -> (c: EventCategory)
        ensures
            c == category_of(*self),
    {
        match self {
            Event::Starting
            | Event::Ready
            | Event::ShutdownStarted
            | Event::DrainStarted
            | Event::ShutdownComplete
            | Event::ConfigReloaded(_) => EventCategory::Lifecycle,
            Event::ListenerStarted { .. } | Event::ListenerStopped { .. } => {
                EventCategory::Listener
            },
            Event::ClusterHealthChanged { .. }
            | Event::EndpointUp { .. }
            | Event::EndpointDown { .. }
            | Event::CircuitBreakerOpened { .. }
            | Event::CircuitBreakerClosed { .. } => EventCategory::Cluster,
            Event::SessionRegistered { .. }
            | Event::SessionUnregistered { .. }
            | Event::ConnectionOpened { .. }
            | Event::ConnectionClosed { .. }
            | Event::SessionBound { .. }
            | Event::SessionUnbound { .. }
            | Event::SessionAuthFailed { .. } => EventCategory::Session,
            Event::Storage(_) => EventCategory::Storage,
            Event::ThroughputSnapshot { .. } => EventCategory::Metrics,
            _ => EventCategory::Message,
        }
    }

    /// Whether the event must not be dropped.
    pub fn is_critical(&self) -> (b: bool)
        ensures
            b == (self is ShutdownStarted || self is ConfigReloaded || self is EndpointDown
                || self is CircuitBreakerOpened || self is MessageSubmitRequest
                || self is ResponseReady),
    {
        match self {
            Event::ShutdownStarted => true,
            Event::ConfigReloaded(_) => true,
            Event::EndpointDown { .. } => true,
            Event::CircuitBreakerOpened { .. } => true,
            Event::MessageSubmitRequest(_) => true,
            Event::ResponseReady(_) => true,
            _ => false,
        }
    }
}

/// The place of a category among the counters.
pub open spec fn category_index(c: EventCategory) -> int {
    match c {
        EventCategory::Lifecycle => 0,
        EventCategory::Listener => 1,
        EventCategory::Cluster => 2,
        EventCategory::Session => 3,
        EventCategory::Message => 4,
        EventCategory::Storage => 5,
        EventCategory::Metrics => 6,
    }
}

impl EventCategory {
    /// The place of the category among the counters.
    pub fn index(&self) -> (i: usize)
        ensures
            i == category_index(*self),
            i < 7,
    {
        match self {
            EventCategory::Lifecycle => 0,
            EventCategory::Listener => 1,
            EventCategory::Cluster => 2,
            EventCategory::Session => 3,
            EventCategory::Message => 4,
            EventCategory::Storage => 5,
            EventCategory::Metrics => 6,
        }
    }
}

/// A subscription to some categories wants an event; one to none wants all.
pub open spec fn wants(categories: Seq<EventCategory>, e: Event) -> bool {
    categories.len() == 0 || categories.contains(category_of(e))
}

/// Whether a subscription to some categories wants an event.
pub fn is_wanted(categories: &Vec<EventCategory>, event: &Event) -> (b: bool)
    ensures
        b == wants(categories@, *event),
{
    let category = event.category();
    let mut i: usize = 0;
    while i < categories.len()
        invariant
            i <= categories.len(),
            category == category_of(*event),
            forall|j: int| 0 <= j < i ==> categories@[j] != category,
        decreases categories.len() - i,
    {
        if categories[i] == category {
            assert(categories@[i as int] == category);
            return true;
        }
        i += 1;
    }
    categories.len() == 0
}

/// Counts of published events. Each counter starts again at zero after the
/// greatest number.
#[derive(Debug)]
pub struct EventStats {
    /// Events published.
    pub published: u64,
    /// Events that nobody received.
    pub dropped: u64,
    /// Events by category, in the order of the categories.
    pub by_category: [u64; 7],
}

/// A counter after one more event.
pub open spec fn one_more(n: u64) -> u64 {
    if n == u64::MAX {
        0
    } else {
        (n + 1) as u64
    }
}

impl Default for EventStats {
    fn default() -> (s: Self)
        ensures
            s.published == 0,
            s.dropped == 0,
            forall|i: int| 0 <= i < 7 ==> s.by_category@[i] == 0,
    {
        EventStats { published: 0, dropped: 0, by_category: [0, 0, 0, 0, 0, 0, 0] }
    }
}

impl EventStats {
    /// Counts a published event that somebody received, or nobody did.
    pub fn record(&mut self, event: &Event, received: bool)
        ensures
            final(self).published == one_more(old(self).published),
            final(self).dropped == if received {
                old(self).dropped
            } else {
                one_more(old(self).dropped)
            },
            final(self).by_category@ == old(self).by_category@.update(
                category_index(category_of(*event)),
                one_more(old(self).by_category@[category_index(category_of(*event))]),
            ),
    {
        self.published = self.published.wrapping_add(1);
        let i: usize = event.category().index();
        let n: u64 = self.by_category[i].wrapping_add(1);
        self.by_category[i] = n;
        if !received {
            self.dropped = self.dropped.wrapping_add(1);
        }
    }
}

/// The positions of the handlers that want an event, given the categories of
/// each handler.
pub open spec fn takers(handlers: Seq<Vec<EventCategory>>, event: Event) -> Seq<usize>
    decreases handlers.len(),
{
    if handlers.len() == 0 {
        seq![]
    } else {
        let front = takers(handlers.drop_last(), event);
        if wants(handlers.last()@, event) {
            front.push((handlers.len() - 1) as usize)
        } else {
            front
        }
    }
}

/// The positions of the handlers that an event goes to, in order, given the
/// categories of each handler.
pub fn recipients(handlers: &Vec<Vec<EventCategory>>, event: &Event) -> (positions: Vec<usize>)
    ensures
        positions@ == takers(handlers@, *event),
{
    let mut positions: Vec<usize> = Vec::new();
    let mut i: usize = 0;
    while i < handlers.len()
        invariant
            i <= handlers.len(),
            positions@ == takers(handlers@.take(i as int), *event),
        decreases handlers.len() - i,
    {
        assert(handlers@.take(i + 1).drop_last() == handlers@.take(i as int));
        if is_wanted(&handlers[i], event) {
            positions.push(i);
        }
        i += 1;
    }
    assert(handlers@.take(i as int) == handlers@);
    positions
}

/// A subscription to the events of some categories; to all events if it names
/// none.
#[derive(Debug)]
pub struct FilteredSubscription {
    /// The categories.
    pub categories: Vec<EventCategory>,
}

impl FilteredSubscription {
    /// The position of the first event that the subscription receives, of some
    /// that wait.
    pub fn try_recv(&self, waiting: &Vec<Event>) -> (position: Option<usize>)
        ensures
            match position {
                Some(i) => {
                    &&& i < waiting@.len()
                    &&& wants(self.categories@, waiting@[i as int])
                    &&& forall|j: int|
                        0 <= j < i ==> !wants(self.categories@, #[trigger] waiting@[j])
                },
                None => forall|j: int|
                    0 <= j < waiting@.len() ==> !wants(self.categories@, #[trigger] waiting@[j]),
            },
    {
        let mut i: usize = 0;
        while i < waiting.len()
            invariant
                i <= waiting.len(),
                forall|j: int| 0 <= j < i ==> !wants(self.categories@, #[trigger] waiting@[j]),
            decreases waiting.len() - i,
        {
            if is_wanted(&self.categories, &waiting[i]) {
                return Some(i);
            }
            i += 1;
        }
        None
    }
}

/// A handler or a subscription without categories receives every event.
pub proof fn no_categories_means_all(event: Event)
    ensures
        wants(Seq::<EventCategory>::empty(), event),
{
}

} // verus!
