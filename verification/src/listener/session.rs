//! The protocol state machine of a session.
//!
//! The machine is fed with what happens on a connection, and answers with what
//! to send or publish. It never waits: a submitted message is published, and
//! its response comes back as an event of its own.

use super::connection::{bound, sends, Connection, ConnectionState, ConnectionView};
use crate::bootstrap::events::{MessageEnvelope, MessageId, ResponseEnvelope, SessionId};
use crate::config::types::BindType;
use crate::filter::auth::{
    bind_allowed, ip_allowed, opt_view, CredentialStore, Credentials, CredentialsView,
};
use crate::net::IpAddr;
use crate::pdu::{status_of, BindFields, Pdu, Status, SubmitSm};
use crate::time::{elapsed_nanos, Instant};
use vstd::prelude::*;

verus! {

/// State of a session at the level of the protocol.
#[derive(Debug, Clone, Copy, PartialEq, Eq, Structural)]
pub enum SessionState {
    Open,
    BoundTx,
    BoundRx,
    BoundTrx,
    Unbinding,
    Closed,
}

/// The session state that a connection state stands for.
pub open spec fn session_state(s: ConnectionState) -> SessionState {
    match s {
        ConnectionState::Open => SessionState::Open,
        ConnectionState::BoundTx => SessionState::BoundTx,
        ConnectionState::BoundRx => SessionState::BoundRx,
        ConnectionState::BoundTrx => SessionState::BoundTrx,
        ConnectionState::Unbinding => SessionState::Unbinding,
        ConnectionState::Closed => SessionState::Closed,
    }
}

impl From<ConnectionState> for SessionState {
    fn from(state: ConnectionState) -> (s: Self) {
        match state {
            ConnectionState::Open => SessionState::Open,
            ConnectionState::BoundTx => SessionState::BoundTx,
            ConnectionState::BoundRx => SessionState::BoundRx,
            ConnectionState::BoundTrx => SessionState::BoundTrx,
            ConnectionState::Unbinding => SessionState::Unbinding,
            ConnectionState::Closed => SessionState::Closed,
        }
    }
}

impl vstd::std_specs::convert::FromSpecImpl<ConnectionState> for SessionState {
    open spec fn obeys_from_spec() -> bool {
        true
    }

    open spec fn from_spec(state: ConnectionState) -> SessionState {
        session_state(state)
    }
}

/// Why a session ended.
#[derive(Debug)]
pub enum SessionError {
    Io(String),
    Smpp(String),
    Timeout,
    InvalidState(String),
    Protocol(String),
    Closed,
}

impl SessionError {
    /// The text of the error.
    pub fn to_string(&self) -> (text: String)
        ensures
            text@ == match self {
                SessionError::Io(e) => "I/O error: "@ + e@,
                SessionError::Smpp(e) => "SMPP error: "@ + e@,
                SessionError::Timeout => "Timeout waiting for response"@,
                SessionError::InvalidState(e) => "Invalid state for operation: "@ + e@,
                SessionError::Protocol(e) => "Protocol error: "@ + e@,
                SessionError::Closed => "Connection closed"@,
            },
    {
        let (head, tail): (&str, &str) = match self {
            SessionError::Io(e) => ("I/O error: ", e.as_str()),
            SessionError::Smpp(e) => ("SMPP error: ", e.as_str()),
            SessionError::InvalidState(e) => ("Invalid state for operation: ", e.as_str()),
            SessionError::Protocol(e) => ("Protocol error: ", e.as_str()),
            SessionError::Timeout => {
                return "Timeout waiting for response".to_string();
            },
            SessionError::Closed => {
                return "Connection closed".to_string();
            },
        };
        let mut text = head.to_string();
        text.append(tail);
        text
    }
}

/// Commands that the server sends.
#[derive(Debug, Clone, Copy, PartialEq, Eq, Structural)]
pub enum Command {
    BindTransmitterResp,
    BindReceiverResp,
    BindTransceiverResp,
    UnbindResp,
    EnquireLink,
    EnquireLinkResp,
    SubmitSmResp,
    GenericNack,
}

/// A unit that the server sends.
#[derive(Debug)]
pub struct Reply {
    /// Command.
    pub command: Command,
    /// Sequence number.
    pub sequence: u32,
    /// Status.
    pub status: Status,
    /// The system ID of a bind response, or the message ID of a submit
    /// response; empty for other commands.
    pub text: String,
}

/// What a unit says.
#[verifier::ext_equal]
pub struct ReplyView {
    pub command: Command,
    pub sequence: u32,
    pub status: Status,
    pub text: Seq<char>,
}

impl View for Reply {
    type V = ReplyView;

    open spec fn view(&self) -> ReplyView {
        ReplyView {
            command: self.command,
            sequence: self.sequence,
            status: self.status,
            text: self.text@,
        }
    }
}

/// A unit received from the client.
#[derive(Debug)]
pub struct Frame {
    /// Sequence number.
    pub sequence: u32,
    /// Whether it answers a request of the server.
    pub is_response: bool,
    /// The unit.
    pub pdu: Pdu,
}

/// A request of the server that waits for its response.
#[derive(Debug, Clone, Copy, PartialEq, Eq, Structural)]
pub struct PendingRequest {
    /// Sequence number.
    pub sequence: u32,
    /// Command.
    pub command: Command,
    /// When it was sent.
    pub sent_at: Instant,
}

/// Something that happens to a session.
#[derive(Debug)]
pub enum SessionEvent {
    /// A unit came from the client.
    Frame(Frame),
    /// What came from the client could not be decoded.
    DecodeError,
    /// The client closed the connection.
    PeerClosed,
    /// Nothing came from the client for the idle timeout.
    IdleTimeout,
    /// A response to a submitted message is ready.
    Response(ResponseEnvelope),
    /// A second has passed.
    Tick,
}

/// What is to be done for a session.
#[derive(Debug)]
pub enum SessionAction {
    /// Nothing.
    Nothing,
    /// Send a unit; the session ends when that fails.
    Send(Reply),
    /// Send a unit; the session goes on when that fails.
    TrySend(Reply),
    /// Publish a submitted message.
    Publish(MessageEnvelope),
    /// End the session.
    End,
}

/// The state that a bind leads to.
pub open spec fn bind_state(kind: BindType) -> ConnectionState {
    match kind {
        BindType::Transmitter => ConnectionState::BoundTx,
        BindType::Receiver => ConnectionState::BoundRx,
        BindType::Transceiver => ConnectionState::BoundTrx,
    }
}

/// The command that answers a bind.
pub open spec fn bind_command(kind: BindType) -> Command {
    match kind {
        BindType::Transmitter => Command::BindTransmitterResp,
        BindType::Receiver => Command::BindReceiverResp,
        BindType::Transceiver => Command::BindTransceiverResp,
    }
}

/// The status that answers a bind, given the credentials that the password
/// was right for.
pub open spec fn bind_status(
    creds: Option<CredentialsView>,
    kind: BindType,
    ip: IpAddr,
) -> Status {
    match creds {
        None => Status::InvalidPassword,
        Some(c) => if c.enabled && bind_allowed(c, kind) && ip_allowed(c, ip) {
            Status::Success
        } else {
            Status::BindFailed
        },
    }
}

/// The unit that answers a bind.
pub open spec fn bind_reply(kind: BindType, sequence: u32, status: Status) -> ReplyView {
    ReplyView {
        command: bind_command(kind),
        sequence,
        status,
        text: if status == Status::Success {
            "smppd"@
        } else {
            Seq::empty()
        },
    }
}

/// A connection after a bind was answered.
pub open spec fn after_bind(
    c: ConnectionView,
    kind: BindType,
    system_id: Seq<char>,
    status: Status,
) -> ConnectionView {
    if status == Status::Success {
        ConnectionView { state: bind_state(kind), system_id: Some(system_id), ..c }
    } else {
        c
    }
}

/// A negative acknowledgement.
pub open spec fn nack(sequence: u32, status: Status) -> ReplyView {
    ReplyView { command: Command::GenericNack, sequence, status, text: Seq::empty() }
}

/// A unit without a text.
pub open spec fn plain_reply(command: Command, sequence: u32) -> ReplyView {
    ReplyView { command, sequence, status: Status::Success, text: Seq::empty() }
}

/// Waiting requests without one of a sequence number.
pub open spec fn without(pending: Seq<PendingRequest>, sequence: u32) -> Seq<PendingRequest> {
    pending.filter(|p: PendingRequest| p.sequence != sequence)
}

/// Waiting requests that have not waited longer than a timeout.
pub open spec fn still_waiting(
    pending: Seq<PendingRequest>,
    now: Instant,
    timeout: nat,
) -> Seq<PendingRequest> {
    pending.filter(|p: PendingRequest| elapsed_nanos(p.sent_at, now) <= timeout)
}

/// The bind that a unit asks for.
pub open spec fn bind_of(pdu: Pdu) -> Option<(BindType, BindFields)> {
    match pdu {
        Pdu::BindTransmitter(b) => Some((BindType::Transmitter, b)),
        Pdu::BindReceiver(b) => Some((BindType::Receiver, b)),
        Pdu::BindTransceiver(b) => Some((BindType::Transceiver, b)),
        _ => None,
    }
}

/// A protocol session.
#[derive(Debug)]
pub struct SmppSession {
    session_id: SessionId,
    connection: Connection,
    pending: Vec<PendingRequest>,
    last_enquire_link: Option<Instant>,
}

/// What is known of a session.
#[verifier::ext_equal]
pub struct SessionView {
    pub session_id: SessionId,
    pub connection: ConnectionView,
    pub pending: Seq<PendingRequest>,
    pub last_enquire_link: Option<Instant>,
}

impl View for SmppSession {
    type V = SessionView;

    closed spec fn view(&self) -> SessionView {
        SessionView {
            session_id: self.session_id,
            connection: self.connection@,
            pending: self.pending@,
            last_enquire_link: self.last_enquire_link,
        }
    }
}

/// The text of an optional text, or none.
pub open spec fn or_empty(t: Option<Seq<char>>) -> Seq<char> {
    match t {
        Some(x) => x,
        None => Seq::empty(),
    }
}

/// A submitted message of a session is published.
pub open spec fn published(
    s: SessionView,
    sequence: u32,
    message_id: MessageId,
    sm: SubmitSm,
    e: MessageEnvelope,
) -> bool {
    &&& e.message_id == message_id
    &&& e.session_id == s.session_id
    &&& e.sequence_number == sequence
    &&& e.system_id@ == or_empty(s.connection.system_id)
    &&& e.submit_sm == sm
}

/// A request of the client leads from one session to another with an action,
/// given the credentials that the password of a bind is right for.
pub open spec fn pdu_handled(
    s: SessionView,
    after: SessionView,
    frame: Frame,
    creds: Option<CredentialsView>,
    message_id: MessageId,
    action: SessionAction,
) -> bool {
    let state = s.connection.state;
    if frame.is_response {
        &&& action is Nothing
        &&& after == SessionView { pending: without(s.pending, frame.sequence), ..s }
    } else {
        match bind_of(frame.pdu) {
            Some(b) => if state != ConnectionState::Open {
                &&& action matches SessionAction::Send(r) && r@ == nack(
                    frame.sequence,
                    Status::InvalidBindStatus,
                )
                &&& after == s
            } else {
                let status = bind_status(creds, b.0, s.connection.peer_addr.ip);
                &&& action matches SessionAction::Send(r) && r@ == bind_reply(
                    b.0,
                    frame.sequence,
                    status,
                )
                &&& after == SessionView {
                    connection: after_bind(s.connection, b.0, b.1.system_id@, status),
                    ..s
                }
            },
            None => match frame.pdu {
                Pdu::Unbind => if bound(state) {
                    &&& action matches SessionAction::Send(r) && r@ == plain_reply(
                        Command::UnbindResp,
                        frame.sequence,
                    )
                    &&& after == SessionView {
                        connection: ConnectionView {
                            state: ConnectionState::Unbinding,
                            ..s.connection
                        },
                        ..s
                    }
                } else {
                    &&& action matches SessionAction::Send(r) && r@ == nack(
                        frame.sequence,
                        Status::InvalidBindStatus,
                    )
                    &&& after == s
                },
                Pdu::EnquireLink => {
                    &&& action matches SessionAction::Send(r) && r@ == plain_reply(
                        Command::EnquireLinkResp,
                        frame.sequence,
                    )
                    &&& after == s
                },
                Pdu::SubmitSm(sm) => {
                    &&& after == s
                    &&& if sends(state) {
                        action matches SessionAction::Publish(e) && published(
                            s,
                            frame.sequence,
                            message_id,
                            sm,
                            e,
                        )
                    } else {
                        action matches SessionAction::Send(r) && r@ == nack(
                            frame.sequence,
                            Status::InvalidBindStatus,
                        )
                    }
                },
                Pdu::DeliverSmResp | Pdu::GenericNack => {
                    &&& action is Nothing
                    &&& after == s
                },
                _ => {
                    &&& action matches SessionAction::Send(r) && r@ == nack(
                        frame.sequence,
                        Status::InvalidCommandId,
                    )
                    &&& after == s
                },
            },
        }
    }
}

/// An event at a moment leads from one session to another with an action. A
/// session whose connection is to be closed ends with whatever comes next.
pub open spec fn session_stepped(
    s: SessionView,
    after: SessionView,
    event: SessionEvent,
    now: Instant,
    creds: Option<CredentialsView>,
    message_id: MessageId,
    action: SessionAction,
) -> bool {
    if s.connection.closing {
        action is End && after == ended(s)
    } else {
        match event {
            SessionEvent::Frame(frame) => pdu_handled(
                SessionView {
                    connection: ConnectionView { last_activity: now, ..s.connection },
                    ..s
                },
                after,
                frame,
                creds,
                message_id,
                action,
            ),
            SessionEvent::DecodeError | SessionEvent::PeerClosed => {
                action is End && after == ended(s)
            },
            SessionEvent::IdleTimeout => if bound(s.connection.state) {
                let sequence = s.connection.sequence;
                &&& action matches SessionAction::Send(r) && r@ == plain_reply(
                    Command::EnquireLink,
                    sequence,
                )
                &&& after == SessionView {
                    connection: ConnectionView {
                        sequence: super::connection::next_number(sequence),
                        ..s.connection
                    },
                    pending: without(s.pending, sequence).push(
                        PendingRequest { sequence, command: Command::EnquireLink, sent_at: now },
                    ),
                    last_enquire_link: Some(now),
                    ..s
                }
            } else {
                action is End && after == ended(s)
            },
            SessionEvent::Response(r) => {
                &&& action matches SessionAction::TrySend(x) && x@ == ReplyView {
                    command: Command::SubmitSmResp,
                    sequence: r.sequence_number,
                    status: status_of(r.command_status),
                    text: r.message_id@,
                }
                &&& after == s
            },
            SessionEvent::Tick => {
                &&& action is Nothing
                &&& after == SessionView {
                    pending: still_waiting(s.pending, now, s.connection.request_timeout),
                    ..s
                }
            },
        }
    }
}

/// The bind that an event asks for.
pub open spec fn asked_for(event: SessionEvent) -> Option<BindFields> {
    match event {
        SessionEvent::Frame(frame) => match bind_of(frame.pdu) {
            Some(b) => Some(b.1),
            None => None,
        },
        _ => None,
    }
}

/// A store gives credentials for a system ID and a password.
pub open spec fn validated<C: CredentialStore>(
    store: &C,
    system_id: Seq<char>,
    password: Seq<char>,
    creds: Option<Credentials>,
) -> bool {
    exists|id: &str, pw: &str|
        id@ == system_id && pw@ == password && #[trigger] call_ensures(
            C::validate,
            (store, id, pw),
            creds,
        )
}

/// A session that is over.
pub open spec fn ended(s: SessionView) -> SessionView {
    SessionView {
        connection: ConnectionView { state: ConnectionState::Closed, ..s.connection },
        ..s
    }
}

fn reply(command: Command, sequence: u32, status: Status) -> (r: Reply)
    ensures
        r@ == (ReplyView { command, sequence, status, text: Seq::empty() }),
{
    Reply { command, sequence, status, text: String::new() }
}

impl SmppSession {
    /// A session of a connection.
    pub fn new(session_id: SessionId, connection: Connection) -> (s: Self)
        ensures
            s@ == (SessionView {
                session_id,
                connection: connection@,
                pending: Seq::empty(),
                last_enquire_link: None,
            }),
    {
        SmppSession { session_id, connection, pending: Vec::new(), last_enquire_link: None }
    }

    /// The session ID.
    pub fn session_id(&self) -> (id: SessionId)
        ensures
            id == self@.session_id,
    {
        self.session_id
    }

    /// The connection.
    pub fn connection(&self) -> (c: &Connection)
        ensures
            c@ == self@.connection,
    {
        &self.connection
    }

    /// Answers a bind, given the credentials that the password is right for.
    pub fn handle_bind(
        &mut self,
        kind: BindType,
        sequence: u32,
        bind: &BindFields,
        creds: Option<Credentials>,
    ) -> (r: Reply)
        ensures
            ({
                let status = bind_status(opt_view(creds), kind, old(self)@.connection.peer_addr.ip);
                &&& r@ == bind_reply(kind, sequence, status)
                &&& final(self)@ == (SessionView {
                    connection: after_bind(
                        old(self)@.connection,
                        kind,
                        bind.system_id@,
                        status,
                    ),
                    ..old(self)@
                })
            }),
    {
        let command = match kind {
            BindType::Transmitter => Command::BindTransmitterResp,
            BindType::Receiver => Command::BindReceiverResp,
            BindType::Transceiver => Command::BindTransceiverResp,
        };
        let creds = match creds {
            Some(c) => c,
            None => return reply(command, sequence, Status::InvalidPassword),
        };
        if !creds.enabled {
            return reply(command, sequence, Status::BindFailed);
        }
        if !creds.is_bind_allowed(kind) {
            return reply(command, sequence, Status::BindFailed);
        }
        let peer_ip = self.connection.peer_addr().ip();
        if !creds.is_ip_allowed(&peer_ip) {
            return reply(command, sequence, Status::BindFailed);
        }
        self.connection.set_system_id(bind.system_id.clone());
        self.connection.set_state(
            match kind {
                BindType::Transmitter => ConnectionState::BoundTx,
                BindType::Receiver => ConnectionState::BoundRx,
                BindType::Transceiver => ConnectionState::BoundTrx,
            },
        );
        Reply { command, sequence, status: Status::Success, text: "smppd".to_owned() }
    }

    /// Answers a bind as transmitter.
    pub fn handle_bind_transmitter(
        &mut self,
        sequence: u32,
        bind: &BindFields,
        creds: Option<Credentials>,
    ) -> (r: Reply)
        ensures
            ({
                let status = bind_status(
                    opt_view(creds),
                    BindType::Transmitter,
                    old(self)@.connection.peer_addr.ip,
                );
                &&& r@ == bind_reply(BindType::Transmitter, sequence, status)
                &&& final(self)@ == (SessionView {
                    connection: after_bind(
                        old(self)@.connection,
                        BindType::Transmitter,
                        bind.system_id@,
                        status,
                    ),
                    ..old(self)@
                })
            }),
    {
        self.handle_bind(BindType::Transmitter, sequence, bind, creds)
    }

    /// Answers a bind as receiver.
    pub fn handle_bind_receiver(
        &mut self,
        sequence: u32,
        bind: &BindFields,
        creds: Option<Credentials>,
    ) -> (r: Reply)
        ensures
            ({
                let status = bind_status(
                    opt_view(creds),
                    BindType::Receiver,
                    old(self)@.connection.peer_addr.ip,
                );
                &&& r@ == bind_reply(BindType::Receiver, sequence, status)
                &&& final(self)@ == (SessionView {
                    connection: after_bind(
                        old(self)@.connection,
                        BindType::Receiver,
                        bind.system_id@,
                        status,
                    ),
                    ..old(self)@
                })
            }),
    {
        self.handle_bind(BindType::Receiver, sequence, bind, creds)
    }

    /// Answers a bind as transceiver.
    pub fn handle_bind_transceiver(
        &mut self,
        sequence: u32,
        bind: &BindFields,
        creds: Option<Credentials>,
    ) -> (r: Reply)
        ensures
            ({
                let status = bind_status(
                    opt_view(creds),
                    BindType::Transceiver,
                    old(self)@.connection.peer_addr.ip,
                );
                &&& r@ == bind_reply(BindType::Transceiver, sequence, status)
                &&& final(self)@ == (SessionView {
                    connection: after_bind(
                        old(self)@.connection,
                        BindType::Transceiver,
                        bind.system_id@,
                        status,
                    ),
                    ..old(self)@
                })
            }),
    {
        self.handle_bind(BindType::Transceiver, sequence, bind, creds)
    }

    fn forget(&mut self, sequence: u32)
        ensures
            final(self)@ == (SessionView {
                pending: without(old(self)@.pending, sequence),
                ..old(self)@
            }),
    {
        let mut kept: Vec<PendingRequest> = Vec::new();
        let mut i: usize = 0;
        let ghost keep = |p: PendingRequest| p.sequence != sequence;
        reveal(Seq::filter);
        while i < self.pending.len()
            invariant
                i <= self.pending.len(),
                *self == *old(self),
                keep == (|p: PendingRequest| p.sequence != sequence),
                kept@ == self.pending@.take(i as int).filter(keep),
            decreases self.pending.len() - i,
        {
            reveal(Seq::filter);
            assert(self.pending@.take(i + 1).drop_last() == self.pending@.take(i as int));
            if self.pending[i].sequence != sequence {
                kept.push(self.pending[i]);
            }
            i += 1;
        }
        assert(self.pending@.take(i as int) == self.pending@);
        self.pending = kept;
    }

    /// Forgets the waiting requests that have waited too long at a moment.
    pub fn check_pending_timeouts(&mut self, now: &Instant)
        ensures
            final(self)@ == (SessionView {
                pending: still_waiting(
                    old(self)@.pending,
                    *now,
                    old(self)@.connection.request_timeout,
                ),
                ..old(self)@
            }),
    {
        let timeout = self.connection.request_timeout();
        let mut kept: Vec<PendingRequest> = Vec::new();
        let mut i: usize = 0;
        let ghost keep = |p: PendingRequest| elapsed_nanos(p.sent_at, *now) <= timeout@;
        reveal(Seq::filter);
        while i < self.pending.len()
            invariant
                i <= self.pending.len(),
                *self == *old(self),
                keep == (|p: PendingRequest| elapsed_nanos(p.sent_at, *now) <= timeout@),
                kept@ == self.pending@.take(i as int).filter(keep),
            decreases self.pending.len() - i,
        {
            reveal(Seq::filter);
            assert(self.pending@.take(i + 1).drop_last() == self.pending@.take(i as int));
            let waited = now.duration_since(&self.pending[i].sent_at);
            if timeout.at_least(&waited) {
                kept.push(self.pending[i]);
            }
            i += 1;
        }
        assert(self.pending@.take(i as int) == self.pending@);
        self.pending = kept;
    }

    /// Handles a unit of the client, given the credentials that the password
    /// of a bind is right for and the ID for a submitted message.
    pub fn handle_pdu(
        &mut self,
        frame: Frame,
        creds: Option<Credentials>,
        message_id: MessageId,
    ) -> (action: SessionAction)
        ensures
            pdu_handled(
                old(self)@,
                final(self)@,
                frame,
                opt_view(creds),
                message_id,
                action,
            ),
    {
        let state = self.connection.state();
        let sequence = frame.sequence;
        if frame.is_response {
            self.forget(sequence);
            return SessionAction::Nothing;
        }
        match frame.pdu {
            Pdu::BindTransmitter(bind) => {
                if state != ConnectionState::Open {
                    return SessionAction::Send(
                        reply(Command::GenericNack, sequence, Status::InvalidBindStatus),
                    );
                }
                SessionAction::Send(self.handle_bind_transmitter(sequence, &bind, creds))
            },
            Pdu::BindReceiver(bind) => {
                if state != ConnectionState::Open {
                    return SessionAction::Send(
                        reply(Command::GenericNack, sequence, Status::InvalidBindStatus),
                    );
                }
                SessionAction::Send(self.handle_bind_receiver(sequence, &bind, creds))
            },
            Pdu::BindTransceiver(bind) => {
                if state != ConnectionState::Open {
                    return SessionAction::Send(
                        reply(Command::GenericNack, sequence, Status::InvalidBindStatus),
                    );
                }
                SessionAction::Send(self.handle_bind_transceiver(sequence, &bind, creds))
            },
            Pdu::Unbind => {
                if !self.connection.is_bound() {
                    return SessionAction::Send(
                        reply(Command::GenericNack, sequence, Status::InvalidBindStatus),
                    );
                }
                self.connection.set_state(ConnectionState::Unbinding);
                SessionAction::Send(reply(Command::UnbindResp, sequence, Status::Success))
            },
            Pdu::EnquireLink => SessionAction::Send(
                reply(Command::EnquireLinkResp, sequence, Status::Success),
            ),
            Pdu::SubmitSm(submit) => {
                if !state.can_send() {
                    return SessionAction::Send(
                        reply(Command::GenericNack, sequence, Status::InvalidBindStatus),
                    );
                }
                let system_id = match self.connection.system_id() {
                    Some(id) => id,
                    None => String::new(),
                };
                SessionAction::Publish(
                    MessageEnvelope::new(
                        message_id,
                        self.session_id,
                        sequence,
                        system_id,
                        submit,
                    ),
                )
            },
            Pdu::DeliverSmResp | Pdu::GenericNack => SessionAction::Nothing,
            _ => SessionAction::Send(
                reply(Command::GenericNack, sequence, Status::InvalidCommandId),
            ),
        }
    }

    /// Notes that the unit of the last action was sent, or that this failed.
    /// The answer says whether the session goes on.
    pub fn reply_sent(&mut self, ok: bool) -> (goes_on: bool)
        ensures
            goes_on == ok,
            final(self)@ == if !ok || old(self)@.connection.state == ConnectionState::Unbinding {
                ended(old(self)@)
            } else {
                old(self)@
            },
    {
        if !ok || self.connection.state() == ConnectionState::Unbinding {
            self.connection.set_state(ConnectionState::Closed);
        }
        ok
    }

    /// Handles an event at a moment, given the credentials that the password
    /// of a bind is right for and the ID for a submitted message.
    pub fn step(
        &mut self,
        event: SessionEvent,
        now: &Instant,
        creds: Option<Credentials>,
        message_id: MessageId,
    ) -> (action: SessionAction)
        ensures
            session_stepped(
                old(self)@,
                final(self)@,
                event,
                *now,
                opt_view(creds),
                message_id,
                action,
            ),
    {
        if self.connection.is_closing() {
            self.connection.set_state(ConnectionState::Closed);
            return SessionAction::End;
        }
        match event {
            SessionEvent::Frame(frame) => {
                self.connection.touch_at(*now);
                self.handle_pdu(frame, creds, message_id)
            },
            SessionEvent::DecodeError | SessionEvent::PeerClosed => {
                self.connection.set_state(ConnectionState::Closed);
                SessionAction::End
            },
            SessionEvent::IdleTimeout => {
                if !self.connection.is_bound() {
                    self.connection.set_state(ConnectionState::Closed);
                    return SessionAction::End;
                }
                let sequence: u32 = self.connection.next_sequence();
                self.forget(sequence);
                self.pending.push(
                    PendingRequest { sequence, command: Command::EnquireLink, sent_at: *now },
                );
                self.last_enquire_link = Some(*now);
                SessionAction::Send(reply(Command::EnquireLink, sequence, Status::Success))
            },
            SessionEvent::Response(response) => SessionAction::TrySend(
                Reply {
                    command: Command::SubmitSmResp,
                    sequence: response.sequence_number,
                    status: Status::from_u32(response.command_status),
                    text: response.message_id,
                },
            ),
            SessionEvent::Tick => {
                self.check_pending_timeouts(now);
                SessionAction::Nothing
            },
        }
    }

    /// Handles an event now, with the credentials of a store.
    pub fn step_with<C: CredentialStore>(
        &mut self,
        event: SessionEvent,
        store: &C,
        message_id: MessageId,
    ) -> (action: SessionAction)
        ensures
            exists|now: Instant, creds: Option<Credentials>|
                {
                    &&& #[trigger] session_stepped(
                        old(self)@,
                        final(self)@,
                        event,
                        now,
                        opt_view(creds),
                        message_id,
                        action,
                    )
                    &&& match asked_for(event) {
                        Some(b) => validated(store, b.system_id@, b.password@, creds),
                        None => creds is None,
                    }
                },
    {
        let now = self.connection.now();
        let creds = match &event {
            SessionEvent::Frame(frame) => match &frame.pdu {
                Pdu::BindTransmitter(b) | Pdu::BindReceiver(b) | Pdu::BindTransceiver(b) => {
                    let c = store.validate(b.system_id.as_str(), b.password.as_str());
                    assert(validated(store, b.system_id@, b.password@, c));
                    c
                },
                _ => None,
            },
            _ => None,
        };
        let ghost given = creds;
        let action = self.step(event, &now, creds, message_id);
        assert(session_stepped(
            old(self)@,
            self@,
            event,
            now,
            opt_view(given),
            message_id,
            action,
        ));
        action
    }
}

/// A client reaches a bound state only by a bind that was answered with
/// success, and only from the open state.
pub proof fn binding_needs_success(
    s: SessionView,
    after: SessionView,
    event: SessionEvent,
    now: Instant,
    creds: Option<CredentialsView>,
    message_id: MessageId,
    action: SessionAction,
)
    requires
        session_stepped(s, after, event, now, creds, message_id, action),
        !bound(s.connection.state),
        bound(after.connection.state),
    ensures
        s.connection.state == ConnectionState::Open,
        event matches SessionEvent::Frame(f) && !f.is_response && bind_of(f.pdu) is Some
            && bind_status(creds, (bind_of(f.pdu)->0).0, s.connection.peer_addr.ip)
            == Status::Success,
        creds matches Some(c) && c.enabled,
{
}

/// A message is published only for a client that is bound to send.
pub proof fn only_senders_publish(
    s: SessionView,
    after: SessionView,
    event: SessionEvent,
    now: Instant,
    creds: Option<CredentialsView>,
    message_id: MessageId,
    action: SessionAction,
)
    requires
        session_stepped(s, after, event, now, creds, message_id, action),
        action is Publish,
    ensures
        sends(s.connection.state),
{
}

/// Every request of a client is answered under its own sequence number,
/// unless it is a submitted message of a client that may send, whose response
/// comes later, or a unit that needs no answer.
pub proof fn requests_are_answered(
    s: SessionView,
    after: SessionView,
    frame: Frame,
    now: Instant,
    creds: Option<CredentialsView>,
    message_id: MessageId,
    action: SessionAction,
)
    requires
        session_stepped(
            s,
            after,
            SessionEvent::Frame(frame),
            now,
            creds,
            message_id,
            action,
        ),
        !s.connection.closing,
        !frame.is_response,
        !(frame.pdu is DeliverSmResp),
        !(frame.pdu is GenericNack),
        !(frame.pdu is SubmitSm && sends(s.connection.state)),
    ensures
        action matches SessionAction::Send(r) && r.sequence == frame.sequence,
{
}

/// A session that is over is never bound again.
pub proof fn closed_sessions_stay_unbound(
    s: SessionView,
    after: SessionView,
    event: SessionEvent,
    now: Instant,
    creds: Option<CredentialsView>,
    message_id: MessageId,
    action: SessionAction,
)
    requires
        session_stepped(s, after, event, now, creds, message_id, action),
        s.connection.state == ConnectionState::Closed || s.connection.state
            == ConnectionState::Unbinding,
    ensures
        !bound(after.connection.state),
{
}

} // verus!
