//! The way from normal operation to the end.

use crate::time::Duration;
use vstd::prelude::*;

verus! {

/// States of the shutdown.
#[derive(Debug, Clone, Copy, PartialEq, Eq, Structural)]
pub enum State {
    /// Normal operation.
    Running,
    /// No new connections; the open ones finish.
    Draining,
    /// Over.
    Terminated,
}

/// How far a state is on the way to the end.
pub open spec fn progress(s: State) -> nat {
    match s {
        State::Running => 0,
        State::Draining => 1,
        State::Terminated => 2,
    }
}

/// Coordinates the shutdown with the open connections.
#[derive(Debug)]
pub struct Shutdown {
    state: State,
    drain_timeout: Duration,
    active_connections: u64,
}

/// A number of connections after one more was opened. After the greatest
/// number comes zero.
pub open spec fn one_more(n: u64) -> u64 {
    if n == u64::MAX {
        0
    } else {
        (n + 1) as u64
    }
}

/// A number of connections after one was closed. Before zero comes the
/// greatest number.
pub open spec fn one_fewer(n: u64) -> u64 {
    if n == 0 {
        u64::MAX
    } else {
        (n - 1) as u64
    }
}

/// The state after a connection was closed: draining is over when it was the
/// last one.
pub open spec fn after_close(state: State, active: u64) -> State {
    if state == State::Draining && active == 1 {
        State::Terminated
    } else {
        state
    }
}

impl Shutdown {
    /// The present state.
    pub closed spec fn now(&self) -> State {
        self.state
    }

    /// The number of open connections.
    pub closed spec fn active(&self) -> u64 {
        self.active_connections
    }

    /// Time for connections to drain.
    pub closed spec fn timeout(&self) -> Duration {
        self.drain_timeout
    }

    /// A server that runs and has no connections.
    pub fn new(drain_timeout: Duration) -> (s: Self)
        ensures
            s.now() == State::Running,
            s.active() == 0,
            s.timeout() == drain_timeout,
    {
        Shutdown { state: State::Running, drain_timeout, active_connections: 0 }
    }

    /// The present state.
    pub fn state(&self) -> (s: State)
        ensures
            s == self.now(),
    {
        self.state
    }

    /// Time for connections to drain.
    pub fn drain_timeout(&self) -> (d: Duration)
        ensures
            d == self.timeout(),
    {
        self.drain_timeout
    }

    /// Stops accepting connections; does nothing unless the server runs.
    pub fn start_drain(&mut self)
        ensures
            (final(self).now(), final(self).active()) == shutdown_step(
                old(self).now(),
                old(self).active(),
                ShutdownStep::StartDrain,
            ),
            final(self).now() == if old(self).now() == State::Running {
                State::Draining
            } else {
                old(self).now()
            },
            final(self).active() == old(self).active(),
            final(self).timeout() == old(self).timeout(),
    {
        if self.state == State::Running {
            self.state = State::Draining;
        }
    }

    /// Ends the shutdown, whatever connections are still open.
    pub fn terminate(&mut self)
        ensures
            (final(self).now(), final(self).active()) == shutdown_step(
                old(self).now(),
                old(self).active(),
                ShutdownStep::Terminate,
            ),
            final(self).now() == State::Terminated,
            final(self).active() == old(self).active(),
            final(self).timeout() == old(self).timeout(),
    {
        self.state = State::Terminated;
    }

    /// Registers a new connection, unless the server no longer accepts any.
    pub fn connection_opened(&mut self) -> (accepted: bool)
        ensures
            (final(self).now(), final(self).active()) == shutdown_step(
                old(self).now(),
                old(self).active(),
                ShutdownStep::Opened,
            ),
            accepted == (old(self).now() == State::Running),
            final(self).now() == old(self).now(),
            final(self).timeout() == old(self).timeout(),
            final(self).active() == if accepted {
                one_more(old(self).active())
            } else {
                old(self).active()
            },
    {
        if self.state != State::Running {
            return false;
        }
        self.active_connections = self.active_connections.wrapping_add(1);
        true
    }

    /// Unregisters a connection. The last one to close while the server drains
    /// ends the shutdown.
    pub fn connection_closed(&mut self)
        ensures
            (final(self).now(), final(self).active()) == shutdown_step(
                old(self).now(),
                old(self).active(),
                ShutdownStep::Closed,
            ),
            final(self).active() == one_fewer(old(self).active()),
            final(self).now() == after_close(old(self).now(), old(self).active()),
            final(self).timeout() == old(self).timeout(),
    {
        let before: u64 = self.active_connections;
        self.active_connections = before.wrapping_sub(1);
        if self.state == State::Draining && before == 1 {
            self.terminate();
        }
    }

    /// The number of open connections.
    pub fn active_connections(&self) -> (n: u64)
        ensures
            n == self.active(),
    {
        self.active_connections
    }

    /// Whether new connections are accepted.
    pub fn is_accepting(&self) -> (b: bool)
        ensures
            b == (self.now() == State::Running),
    {
        self.state == State::Running
    }
}

/// Something that happens to a server on its way to the end.
pub enum ShutdownStep {
    StartDrain,
    Terminate,
    Opened,
    Closed,
}

/// The state and the number of connections after a step.
pub open spec fn shutdown_step(state: State, active: u64, step: ShutdownStep) -> (State, u64) {
    match step {
        ShutdownStep::StartDrain => (
            if state == State::Running {
                State::Draining
            } else {
                state
            },
            active,
        ),
        ShutdownStep::Terminate => (State::Terminated, active),
        ShutdownStep::Opened => (
            state,
            if state == State::Running {
                one_more(active)
            } else {
                active
            },
        ),
        ShutdownStep::Closed => (after_close(state, active), one_fewer(active)),
    }
}

/// The shutdown never goes back, and once it has begun the number of open
/// connections never grows.
pub proof fn shutdown_goes_one_way(state: State, active: u64, step: ShutdownStep)
    requires
        step is Closed ==> active > 0,
    ensures
        progress(shutdown_step(state, active, step).0) >= progress(state),
        state != State::Running ==> shutdown_step(state, active, step).1 <= active,
{
}

/// A draining server whose connections all close ends by itself: with the
/// last of them, and not before.
pub proof fn drain_ends_with_last_connection(active: u64)
    requires
        0 < active,
    ensures
        shutdown_step(State::Draining, active, ShutdownStep::Closed).0 == (if active == 1 {
            State::Terminated
        } else {
            State::Draining
        }),
{
}

} // verus!
