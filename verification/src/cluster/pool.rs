//! Connection pools: who may connect, what is reused, what is waited for.

use crate::config::types::PoolConfig;
use crate::time::{Clock, Duration, Instant};
use std::collections::VecDeque;
use vstd::prelude::*;

verus! {

/// Something that a pool has to decide on.
#[derive(Debug, Clone, Copy, PartialEq, Eq, Structural)]
pub enum PoolEvent {
    /// A connection is asked for, or a permit may have come free.
    Asked,
    /// No permit came free in time, or none ever will.
    NoPermit,
    /// A new connection is there, under a number of its own.
    Connected(u64),
    /// A new connection could not be made.
    ConnectFailed,
}

/// What is to be done next.
#[derive(Debug, Clone, Copy, PartialEq, Eq, Structural)]
pub enum PoolAction {
    /// Wait for a permit, no longer than the acquire timeout.
    WaitForPermit,
    /// Make a new connection.
    Connect,
    /// Hand out a connection.
    HandOut(u64),
    /// There is no connection.
    GiveUp,
}

/// Something that happens while a pool is warmed.
#[derive(Debug, Clone, Copy, PartialEq, Eq, Structural)]
pub enum WarmEvent {
    /// Warming starts.
    Start,
    /// A new connection is there.
    Connected(u64),
    /// A new connection could not be made.
    ConnectFailed,
}

/// State of a pool.
#[verifier::ext_equal]
pub struct PoolView {
    /// Cluster name.
    pub cluster: Seq<char>,
    /// Address of the endpoint.
    pub address: Seq<char>,
    /// System ID to bind with.
    pub system_id: Seq<char>,
    /// Password to bind with.
    pub password: Seq<char>,
    /// Minimum number of connections.
    pub min: nat,
    /// Maximum number of connections.
    pub max: nat,
    /// Time to wait for a permit.
    pub acquire_timeout: nat,
    /// Permits that are free.
    pub available: nat,
    /// New connections that are being made under a permit.
    pub connecting: nat,
    /// Idle connections, oldest first.
    pub idle: Seq<u64>,
    /// Connections in use.
    pub in_use: nat,
    /// Connections made so far.
    pub created: nat,
    /// Connections that warming has yet to make.
    pub warming: nat,
}

/// Every permit is free, in use, or held by a connection that is being made.
pub open spec fn permits_add_up(p: PoolView) -> bool {
    p.available + p.connecting + p.in_use == p.max
}

/// One more, with zero after the greatest number.
pub open spec fn wrap_up(n: nat) -> nat {
    if n == usize::MAX as nat {
        0
    } else {
        n + 1
    }
}

/// The pool after an event, and what is to be done next.
pub open spec fn pool_step(p: PoolView, event: PoolEvent) -> (PoolView, PoolAction) {
    match event {
        PoolEvent::Asked => if p.available == 0 {
            (p, PoolAction::WaitForPermit)
        } else if p.idle.len() > 0 {
            (
                PoolView {
                    available: (p.available - 1) as nat,
                    idle: p.idle.drop_first(),
                    in_use: p.in_use + 1,
                    ..p
                },
                PoolAction::HandOut(p.idle[0]),
            )
        } else {
            (
                PoolView {
                    available: (p.available - 1) as nat,
                    connecting: p.connecting + 1,
                    ..p
                },
                PoolAction::Connect,
            )
        },
        PoolEvent::NoPermit => (p, PoolAction::GiveUp),
        PoolEvent::Connected(client) => if p.connecting == 0 {
            (p, PoolAction::GiveUp)
        } else {
            (
                PoolView {
                    connecting: (p.connecting - 1) as nat,
                    in_use: p.in_use + 1,
                    created: wrap_up(p.created),
                    ..p
                },
                PoolAction::HandOut(client),
            )
        },
        PoolEvent::ConnectFailed => if p.connecting == 0 {
            (p, PoolAction::GiveUp)
        } else {
            (
                PoolView {
                    connecting: (p.connecting - 1) as nat,
                    available: p.available + 1,
                    ..p
                },
                PoolAction::GiveUp,
            )
        },
    }
}

/// The pool after an event of warming, and whether to make one more
/// connection.
pub open spec fn warm_step(p: PoolView, event: WarmEvent) -> (PoolView, bool) {
    match event {
        WarmEvent::Start => (PoolView { warming: p.min, ..p }, p.min > 0),
        WarmEvent::Connected(client) => if p.warming == 0 {
            (p, false)
        } else {
            (
                PoolView {
                    idle: p.idle.push(client),
                    created: wrap_up(p.created),
                    warming: (p.warming - 1) as nat,
                    ..p
                },
                p.warming > 1,
            )
        },
        WarmEvent::ConnectFailed => (PoolView { warming: 0, ..p }, false),
    }
}

/// The pool after a connection was given back.
pub open spec fn released(p: PoolView) -> PoolView {
    if p.in_use == 0 {
        p
    } else {
        PoolView { in_use: (p.in_use - 1) as nat, available: p.available + 1, ..p }
    }
}

/// A connection that was handed out.
#[derive(Debug)]
pub struct PooledConnection {
    client: u64,
    acquired_at: Instant,
}

impl PooledConnection {
    /// The number of the connection.
    pub closed spec fn number(&self) -> u64 {
        self.client
    }

    /// When it was handed out.
    pub closed spec fn acquired_at(&self) -> Instant {
        self.acquired_at
    }

    /// A connection, handed out at a moment.
    pub fn new(client: u64, now: &Instant) -> (c: Self)
        ensures
            c.number() == client,
            c.acquired_at() == *now,
    {
        PooledConnection { client, acquired_at: *now }
    }

    /// The number of the connection.
    pub fn client(&self) -> (n: u64)
        ensures
            n == self.number(),
    {
        self.client
    }

    /// Time since it was handed out, at a moment.
    pub fn held_duration_at(&self, now: &Instant) -> (d: Duration)
        ensures
            d@ == crate::time::elapsed_nanos(self.acquired_at(), *now),
    {
        now.duration_since(&self.acquired_at)
    }

    /// Time since it was handed out.
    pub fn held_duration(&self, clock: &Clock) -> (d: Duration)
        ensures
            exists|now: Instant|
                d@ == #[trigger] crate::time::elapsed_nanos(self.acquired_at(), now),
    {
        let now = clock.now();
        self.held_duration_at(&now)
    }
}

/// A connection pool of an endpoint.
#[derive(Debug)]
pub struct ConnectionPool {
    cluster: String,
    address: String,
    system_id: String,
    password: String,
    min_connections: usize,
    max_connections: usize,
    acquire_timeout: Duration,
    available: usize,
    connecting: usize,
    idle: VecDeque<u64>,
    in_use: usize,
    created: usize,
    warming: usize,
}

impl View for ConnectionPool {
    type V = PoolView;

    closed spec fn view(&self) -> PoolView {
        PoolView {
            cluster: self.cluster@,
            address: self.address@,
            system_id: self.system_id@,
            password: self.password@,
            min: self.min_connections as nat,
            max: self.max_connections as nat,
            acquire_timeout: self.acquire_timeout@,
            available: self.available as nat,
            connecting: self.connecting as nat,
            idle: self.idle@,
            in_use: self.in_use as nat,
            created: self.created as nat,
            warming: self.warming as nat,
        }
    }
}

impl ConnectionPool {
    /// Whether the permits add up, which every pool keeps.
    pub open spec fn well_formed(&self) -> bool {
        permits_add_up(self@)
    }

    /// A pool without connections.
    pub fn new(
        cluster: &str,
        address: &str,
        system_id: &str,
        password: &str,
        config: &PoolConfig,
    ) -> (pool: Self)
        ensures
            pool.well_formed(),
            pool@ == new_pool(cluster@, address@, system_id@, password@, *config),
    {
        let pool = ConnectionPool {
            cluster: cluster.to_string(),
            address: address.to_string(),
            system_id: system_id.to_string(),
            password: password.to_string(),
            min_connections: config.min_connections,
            max_connections: config.max_connections,
            acquire_timeout: config.acquire_timeout,
            available: config.max_connections,
            connecting: 0,
            idle: VecDeque::new(),
            in_use: 0,
            created: 0,
            warming: 0,
        };
        assert(pool@ =~= new_pool(cluster@, address@, system_id@, password@, *config));
        pool
    }

    /// Takes note of an event while a connection is asked for, and says what
    /// is to be done next.
    pub fn get(&mut self, event: PoolEvent) -> (action: PoolAction)
        requires
            old(self).well_formed(),
        ensures
            final(self).well_formed(),
            (final(self)@, action) == pool_step(old(self)@, event),
    {
        match event {
            PoolEvent::Asked => {
                if self.available == 0 {
                    return PoolAction::WaitForPermit;
                }
                self.available = self.available - 1;
                match self.idle.pop_front() {
                    Some(client) => {
                        self.in_use = self.in_use + 1;
                        assert(self@.idle =~= old(self)@.idle.drop_first());
                        PoolAction::HandOut(client)
                    },
                    None => {
                        self.connecting = self.connecting + 1;
                        PoolAction::Connect
                    },
                }
            },
            PoolEvent::NoPermit => PoolAction::GiveUp,
            PoolEvent::Connected(client) => {
                if self.connecting == 0 {
                    return PoolAction::GiveUp;
                }
                self.connecting = self.connecting - 1;
                self.in_use = self.in_use + 1;
                self.created = self.created.wrapping_add(1);
                PoolAction::HandOut(client)
            },
            PoolEvent::ConnectFailed => {
                if self.connecting == 0 {
                    return PoolAction::GiveUp;
                }
                self.connecting = self.connecting - 1;
                self.available = self.available + 1;
                PoolAction::GiveUp
            },
        }
    }

    /// Takes a connection back. Its permit is free again.
    pub fn release(&mut self)
        requires
            old(self).well_formed(),
        ensures
            final(self).well_formed(),
            final(self)@ == released(old(self)@),
    {
        if self.in_use > 0 {
            self.in_use = self.in_use - 1;
            self.available = self.available + 1;
        }
    }

    /// Takes note of an event while the pool is warmed, and says whether to
    /// make one more connection.
    pub fn warm(&mut self, event: WarmEvent) -> (connect: bool)
        requires
            old(self).well_formed(),
        ensures
            final(self).well_formed(),
            (final(self)@, connect) == warm_step(old(self)@, event),
    {
        match event {
            WarmEvent::Start => {
                self.warming = self.min_connections;
                self.min_connections > 0
            },
            WarmEvent::Connected(client) => {
                if self.warming == 0 {
                    return false;
                }
                self.idle.push_back(client);
                self.created = self.created.wrapping_add(1);
                self.warming = self.warming - 1;
                self.warming > 0
            },
            WarmEvent::ConnectFailed => {
                self.warming = 0;
                false
            },
        }
    }

    /// Number of permits that are taken.
    pub fn size(&self) -> (n: usize)
        requires
            self.well_formed(),
        ensures
            n == self@.max - self@.available,
    {
        self.max_connections - self.available
    }

    /// Number of connections in use.
    pub fn in_use(&self) -> (n: usize)
        ensures
            n == self@.in_use,
    {
        self.in_use
    }

    /// Number of idle connections.
    pub fn idle_count(&self) -> (n: usize)
        ensures
            n == self@.idle.len(),
    {
        self.idle.len()
    }

    /// Number of connections made so far.
    pub fn total_created(&self) -> (n: usize)
        ensures
            n == self@.created,
    {
        self.created
    }

    /// How long to wait for a permit.
    pub fn acquire_timeout(&self) -> (d: Duration)
        ensures
            d@ == self@.acquire_timeout,
    {
        self.acquire_timeout
    }
}

/// A pool without connections.
pub open spec fn new_pool(
    cluster: Seq<char>,
    address: Seq<char>,
    system_id: Seq<char>,
    password: Seq<char>,
    config: PoolConfig,
) -> PoolView {
    PoolView {
        cluster,
        address,
        system_id,
        password,
        min: config.min_connections as nat,
        max: config.max_connections as nat,
        acquire_timeout: config.acquire_timeout@,
        available: config.max_connections as nat,
        connecting: 0,
        idle: seq![],
        in_use: 0,
        created: 0,
        warming: 0,
    }
}

/// No event lets a pool have more connections in use, or in the making for
/// use, than its maximum.
pub proof fn pool_stays_within_maximum(p: PoolView, event: PoolEvent)
    requires
        permits_add_up(p),
    ensures
        permits_add_up(pool_step(p, event).0),
        permits_add_up(released(p)),
        pool_step(p, event).0.in_use + pool_step(p, event).0.connecting <= p.max,
        pool_step(p, event).0.max == p.max,
{
}

/// A connection that could not be made gives its permit back, and so does one
/// that was made, used and released.
pub proof fn permits_come_back(p: PoolView, client: u64)
    requires
        permits_add_up(p),
        p.available > 0,
        p.idle.len() == 0,
    ensures
        ({
            let asked = pool_step(p, PoolEvent::Asked).0;
            let failed = pool_step(asked, PoolEvent::ConnectFailed).0;
            let used = released(pool_step(asked, PoolEvent::Connected(client)).0);
            &&& failed == p
            &&& used.available == p.available
            &&& used.in_use == p.in_use
            &&& used.connecting == p.connecting
        }),
{
    let asked = pool_step(p, PoolEvent::Asked).0;
    assert(pool_step(asked, PoolEvent::ConnectFailed).0 =~= p);
}

/// The pool after warming has made some connections.
pub open spec fn warmed(p: PoolView, clients: Seq<u64>) -> PoolView
    decreases clients.len(),
{
    if clients.len() == 0 {
        warm_step(p, WarmEvent::Start).0
    } else {
        warm_step(warmed(p, clients.drop_last()), WarmEvent::Connected(clients.last())).0
    }
}

/// Warming that is not interrupted makes the minimum number of connections,
/// and they wait in the order in which they were made.
pub proof fn warming_fills_the_pool(p: PoolView, clients: Seq<u64>)
    requires
        clients.len() <= p.min,
    ensures
        warmed(p, clients).idle == p.idle + clients,
        warmed(p, clients).warming == p.min - clients.len(),
        warmed(p, clients).min == p.min,
    decreases clients.len(),
{
    if clients.len() > 0 {
        warming_fills_the_pool(p, clients.drop_last());
        assert(p.idle + clients =~= (p.idle + clients.drop_last()).push(clients.last()));
    } else {
        assert(p.idle + clients =~= p.idle);
    }
}

} // verus!
