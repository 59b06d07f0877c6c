//! Connections of clients.

use crate::net::SocketAddr;
use crate::text::{decimal, number, opt_text};
use crate::time::{elapsed_nanos, Clock, Duration, Instant};
use vstd::prelude::*;

verus! {

/// Identifies a connection.
#[derive(Debug, Clone, Copy, PartialEq, Eq, Structural, Hash)]
pub struct ConnectionId(pub u64);

impl ConnectionId {
    /// The number of the connection.
    pub fn to_string(&self) -> (s: String)
        ensures
            s@ == decimal(self.0 as nat),
    {
        number(self.0)
    }
}

/// State of a connection.
#[derive(Debug, Clone, Copy, PartialEq, Eq, Structural)]
pub enum ConnectionState {
    /// Waits for a bind.
    Open,
    /// Bound as transmitter.
    BoundTx,
    /// Bound as receiver.
    BoundRx,
    /// Bound as transceiver.
    BoundTrx,
    /// Unbind in progress.
    Unbinding,
    /// Closed.
    Closed,
}

/// A bound state.
pub open spec fn bound(s: ConnectionState) -> bool {
    s == ConnectionState::BoundTx || s == ConnectionState::BoundRx || s
        == ConnectionState::BoundTrx
}

/// A state in which the client may send messages.
pub open spec fn sends(s: ConnectionState) -> bool {
    s == ConnectionState::BoundTx || s == ConnectionState::BoundTrx
}

/// A state in which the client may receive messages.
pub open spec fn receives(s: ConnectionState) -> bool {
    s == ConnectionState::BoundRx || s == ConnectionState::BoundTrx
}

impl ConnectionState {
    /// Whether the client may receive messages.
    pub fn can_receive(&self) -> (b: bool)
        ensures
            b == receives(*self),
    {
        match self {
            ConnectionState::BoundRx | ConnectionState::BoundTrx => true,
            _ => false,
        }
    }

    /// Whether the client may send messages.
    pub fn can_send(&self) -> (b: bool)
        ensures
            b == sends(*self),
    {
        match self {
            ConnectionState::BoundTx | ConnectionState::BoundTrx => true,
            _ => false,
        }
    }

    /// The name of the state.
    pub fn to_string(&self) -> (s: String)
        ensures
            s@ == match self {
                ConnectionState::Open => "OPEN"@,
                ConnectionState::BoundTx => "BOUND_TX"@,
                ConnectionState::BoundRx => "BOUND_RX"@,
                ConnectionState::BoundTrx => "BOUND_TRX"@,
                ConnectionState::Unbinding => "UNBINDING"@,
                ConnectionState::Closed => "CLOSED"@,
            },
    {
        match self {
            ConnectionState::Open => "OPEN".to_owned(),
            ConnectionState::BoundTx => "BOUND_TX".to_owned(),
            ConnectionState::BoundRx => "BOUND_RX".to_owned(),
            ConnectionState::BoundTrx => "BOUND_TRX".to_owned(),
            ConnectionState::Unbinding => "UNBINDING".to_owned(),
            ConnectionState::Closed => "CLOSED".to_owned(),
        }
    }
}

/// A client can send or receive exactly when it is bound.
pub proof fn bound_clients_send_or_receive(s: ConnectionState)
    ensures
        bound(s) <==> sends(s) || receives(s),
{
}

/// A connection of a client.
#[derive(Debug)]
pub struct Connection {
    id: ConnectionId,
    listener: String,
    peer_addr: SocketAddr,
    state: ConnectionState,
    system_id: Option<String>,
    sequence: u32,
    idle_timeout: Duration,
    request_timeout: Duration,
    clock: Clock,
    last_activity: Instant,
    closing: bool,
}

/// What is known of a connection.
#[verifier::ext_equal]
pub struct ConnectionView {
    pub id: ConnectionId,
    pub listener: Seq<char>,
    pub peer_addr: SocketAddr,
    pub state: ConnectionState,
    pub system_id: Option<Seq<char>>,
    /// The sequence number that comes next.
    pub sequence: u32,
    /// In nanoseconds.
    pub idle_timeout: nat,
    /// In nanoseconds.
    pub request_timeout: nat,
    pub last_activity: Instant,
    pub closing: bool,
}

impl View for Connection {
    type V = ConnectionView;

    closed spec fn view(&self) -> ConnectionView {
        ConnectionView {
            id: self.id,
            listener: self.listener@,
            peer_addr: self.peer_addr,
            state: self.state,
            system_id: opt_text(self.system_id),
            sequence: self.sequence,
            idle_timeout: self.idle_timeout@,
            request_timeout: self.request_timeout@,
            last_activity: self.last_activity,
            closing: self.closing,
        }
    }
}

/// A sequence number after another; after the greatest one comes zero.
pub open spec fn next_number(n: u32) -> u32 {
    if n == u32::MAX {
        0
    } else {
        (n + 1) as u32
    }
}

impl Connection {
    /// A connection that was just opened.
    pub fn new(
        id: ConnectionId,
        listener: String,
        peer_addr: SocketAddr,
        idle_timeout: Duration,
        request_timeout: Duration,
    ) -> (c: Self)
        ensures
            c@ == (ConnectionView {
                id,
                listener: listener@,
                peer_addr,
                state: ConnectionState::Open,
                system_id: None,
                sequence: 1,
                idle_timeout: idle_timeout@,
                request_timeout: request_timeout@,
                last_activity: c@.last_activity,
                closing: false,
            }),
    {
        let clock = Clock::new();
        let last_activity = clock.now();
        Connection {
            id,
            listener,
            peer_addr,
            state: ConnectionState::Open,
            system_id: None,
            sequence: 1,
            idle_timeout,
            request_timeout,
            clock,
            last_activity,
            closing: false,
        }
    }

    /// The connection ID.
    pub fn id(&self) -> (id: ConnectionId)
        ensures
            id == self@.id,
    {
        self.id
    }

    /// The listener that accepted the connection.
    pub fn listener(&self) -> (l: &str)
        ensures
            l@ == self@.listener,
    {
        self.listener.as_str()
    }

    /// The address of the client.
    pub fn peer_addr(&self) -> (a: SocketAddr)
        ensures
            a == self@.peer_addr,
    {
        self.peer_addr
    }

    /// The state.
    pub fn state(&self) -> (s: ConnectionState)
        ensures
            s == self@.state,
    {
        self.state
    }

    /// Sets the state.
    pub fn set_state(&mut self, state: ConnectionState)
        ensures
            final(self)@ == (ConnectionView { state, ..old(self)@ }),
    {
        self.state = state;
    }

    /// The client, once it is bound.
    pub fn system_id(&self) -> (id: Option<String>)
        ensures
            opt_text(id) == self@.system_id,
    {
        crate::text::copy_opt(&self.system_id)
    }

    /// Sets the client.
    pub fn set_system_id(&mut self, system_id: String)
        ensures
            final(self)@ == (ConnectionView { system_id: Some(system_id@), ..old(self)@ }),
    {
        self.system_id = Some(system_id);
    }

    /// Takes the next sequence number.
    pub fn next_sequence(&mut self) -> (n: u32)
        ensures
            n == old(self)@.sequence,
            final(self)@ == (ConnectionView {
                sequence: next_number(old(self)@.sequence),
                ..old(self)@
            }),
    {
        let n: u32 = self.sequence;
        self.sequence = n.wrapping_add(1);
        n
    }

    /// Whether the client is bound.
    pub fn is_bound(&self) -> (b: bool)
        ensures
            b == bound(self@.state),
    {
        match self.state {
            ConnectionState::BoundTx | ConnectionState::BoundRx | ConnectionState::BoundTrx => {
                true
            },
            _ => false,
        }
    }

    /// Whether the connection is to be closed.
    pub fn is_closing(&self) -> (b: bool)
        ensures
            b == self@.closing,
    {
        self.closing
    }

    /// Notes activity at a moment.
    pub fn touch_at(&mut self, now: Instant)
        ensures
            final(self)@ == (ConnectionView { last_activity: now, ..old(self)@ }),
    {
        self.last_activity = now;
    }

    /// Notes activity now.
    pub fn touch(&mut self)
        ensures
            final(self)@ == (ConnectionView {
                last_activity: final(self)@.last_activity,
                ..old(self)@
            }),
    {
        let now = self.clock.now();
        self.touch_at(now);
    }

    /// The time from the last activity to a moment.
    pub fn idle_time_at(&self, now: &Instant) -> (d: Duration)
        ensures
            d@ == elapsed_nanos(self@.last_activity, *now),
    {
        now.duration_since(&self.last_activity)
    }

    /// The time since the last activity.
    pub fn idle_time(&self) -> (d: Duration)
        ensures
            exists|now: Instant| d@ == #[trigger] elapsed_nanos(self@.last_activity, now),
    {
        let now = self.clock.now();
        self.idle_time_at(&now)
    }

    /// Whether the connection has been idle for too long at a moment.
    pub fn is_idle_at(&self, now: &Instant) -> (b: bool)
        ensures
            b == (elapsed_nanos(self@.last_activity, *now) > self@.idle_timeout),
    {
        let idle = self.idle_time_at(now);
        !self.idle_timeout.at_least(&idle)
    }

    /// Whether the connection has been idle for too long.
    pub fn is_idle(&self) -> (b: bool)
        ensures
            exists|now: Instant|
                b == (#[trigger] elapsed_nanos(self@.last_activity, now) > self@.idle_timeout),
    {
        let now = self.clock.now();
        self.is_idle_at(&now)
    }

    /// The idle timeout.
    pub fn idle_timeout(&self) -> (d: Duration)
        ensures
            d@ == self@.idle_timeout,
    {
        self.idle_timeout
    }

    /// The request timeout.
    pub fn request_timeout(&self) -> (d: Duration)
        ensures
            d@ == self@.request_timeout,
    {
        self.request_timeout
    }

    /// The time since the connection was opened. How long that is rests on the
    /// machine's clock.
    pub fn uptime(&self) -> (d: Duration)
        ensures
            exists|now: Instant| #[trigger] crate::time::is_reading(now, d),
    {
        self.clock.running()
    }

    /// The present reading of the connection's clock.
    pub fn now(&self) -> Instant {
        self.clock.now()
    }

    /// Starts to close the connection.
    pub fn initiate_close(&mut self)
        ensures
            final(self)@ == (ConnectionView {
                closing: true,
                state: ConnectionState::Closed,
                ..old(self)@
            }),
    {
        self.closing = true;
        self.state = ConnectionState::Closed;
    }
}

} // verus!
