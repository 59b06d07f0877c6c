//! What a session does, told by what comes in and what goes out.

use super::acceptor::{
    accept_step, active_ids, new_listener, slot_of, AcceptAction, AcceptEvent, Handshake,
    ListenerView, Slot, SlotPhase,
};
use super::connection::{bound, receives, sends, ConnectionState};
use super::registry::{Delivery, SessionRegistry};
use super::session::{
    asked_for, ended, session_state, session_stepped, validated, Command, Frame, PendingRequest,
    Reply, SessionAction, SessionEvent, SessionView,
};
use crate::bootstrap::events::{MessageId, ResponseEnvelope, SessionId};
use crate::config::types::{BindType, ListenerConfig};
use crate::filter::auth::{Credentials, CredentialsView, InMemoryCredentialStore};
use crate::net::{net_contains, SocketAddr};
use crate::pdu::{status_number, BindFields, Pdu};
use crate::time::{elapsed_nanos, Instant};
use vstd::prelude::*;

verus! {

proof fn kept_by_filter(
    pending: Seq<PendingRequest>,
    keep: spec_fn(PendingRequest) -> bool,
    p: PendingRequest,
)
    ensures
        pending.filter(keep).contains(p) <==> pending.contains(p) && keep(p),
    decreases pending.len(),
{
    reveal(Seq::filter);
    if pending.len() > 0 {
        let front = pending.drop_last();
        kept_by_filter(front, keep, p);
        let rest = front.filter(keep);
        if pending.contains(p) {
            let i = choose|i: int| 0 <= i < pending.len() && pending[i] == p;
            if i < front.len() {
                assert(front[i] == p);
            }
        }
        if front.contains(p) {
            let i = choose|i: int| 0 <= i < front.len() && front[i] == p;
            assert(pending[i] == p);
        }
        if rest.contains(p) {
            let i = choose|i: int| 0 <= i < rest.len() && rest[i] == p;
            assert(rest.push(pending.last())[i] == p);
        }
        assert(rest.push(pending.last()).last() == pending.last());
    }
}

/// The answer to a submitted message carries what the response says: its
/// sequence number, its message ID and its status. Only a response without an
/// error is told as success.
pub proof fn responses_are_passed_on(
    s: SessionView,
    after: SessionView,
    r: ResponseEnvelope,
    now: Instant,
    creds: Option<CredentialsView>,
    message_id: MessageId,
    action: SessionAction,
)
    requires
        session_stepped(s, after, SessionEvent::Response(r), now, creds, message_id, action),
        !s.connection.closing,
    ensures
        action is TrySend,
        ({
            let x = action->TrySend_0;
            &&& x.command == Command::SubmitSmResp
            &&& x.sequence == r.sequence_number
            &&& x.text@ == r.message_id@
            &&& status_number(x.status) == r.command_status
            &&& x.status is Success <==> r.command_status == 0
        }),
        after == s,
{
}

/// What a client is told of its bind: success only where its credentials are
/// there and switched on, allow the kind of the bind and the address that it
/// comes from. A bind without credentials is answered as a wrong password.
pub proof fn binds_are_answered(
    s: SessionView,
    after: SessionView,
    frame: Frame,
    now: Instant,
    creds: Option<CredentialsView>,
    message_id: MessageId,
    action: SessionAction,
)
    requires
        session_stepped(s, after, SessionEvent::Frame(frame), now, creds, message_id, action),
        !s.connection.closing,
        !frame.is_response,
        frame.pdu is BindTransmitter || frame.pdu is BindReceiver || frame.pdu is BindTransceiver,
        s.connection.state is Open,
    ensures
        action is Send,
        ({
            let r = action->Send_0;
            let may_bind = creds is Some && creds->0.enabled && (
            creds->0.allowed_bind_types.len() == 0 || creds->0.allowed_bind_types.contains(
                if frame.pdu is BindTransmitter {
                    BindType::Transmitter
                } else if frame.pdu is BindReceiver {
                    BindType::Receiver
                } else {
                    BindType::Transceiver
                },
            )) && (creds->0.allowed_ips.len() == 0 || exists|i: int|
                0 <= i < creds->0.allowed_ips.len() && net_contains(
                    #[trigger] creds->0.allowed_ips[i],
                    s.connection.peer_addr.ip,
                ));
            &&& r.sequence == frame.sequence
            &&& r.status is Success <==> may_bind
            &&& creds is None ==> r.status is InvalidPassword
            &&& creds is Some && !may_bind ==> r.status is BindFailed
            &&& may_bind ==> r.text@ == "smppd"@
            &&& !may_bind ==> r.text@.len() == 0 && after.connection.state is Open
                && after.connection.system_id == s.connection.system_id
            &&& frame.pdu matches Pdu::BindTransmitter(b) ==> {
                &&& r.command is BindTransmitterResp
                &&& may_bind ==> after.connection.state is BoundTx && after.connection.system_id
                    == Some(b.system_id@)
            }
            &&& frame.pdu matches Pdu::BindReceiver(b) ==> {
                &&& r.command is BindReceiverResp
                &&& may_bind ==> after.connection.state is BoundRx && after.connection.system_id
                    == Some(b.system_id@)
            }
            &&& frame.pdu matches Pdu::BindTransceiver(b) ==> {
                &&& r.command is BindTransceiverResp
                &&& may_bind ==> after.connection.state is BoundTrx && after.connection.system_id
                    == Some(b.system_id@)
            }
        }),
        after.pending == s.pending,
        after.session_id == s.session_id,
        after.connection.sequence == s.connection.sequence,
        after.connection.peer_addr == s.connection.peer_addr,
        after.connection.last_activity == now,
{
}

/// A client that is bound cannot bind again: it is told that the command does
/// not fit, and stays as it was.
pub proof fn clients_bind_once(
    s: SessionView,
    after: SessionView,
    frame: Frame,
    now: Instant,
    creds: Option<CredentialsView>,
    message_id: MessageId,
    action: SessionAction,
)
    requires
        session_stepped(s, after, SessionEvent::Frame(frame), now, creds, message_id, action),
        !s.connection.closing,
        !frame.is_response,
        frame.pdu is BindTransmitter || frame.pdu is BindReceiver || frame.pdu is BindTransceiver,
        !(s.connection.state is Open),
    ensures
        action is Send,
        action->Send_0.command is GenericNack,
        action->Send_0.sequence == frame.sequence,
        action->Send_0.status is InvalidBindStatus,
        after.connection.state == s.connection.state,
        after.connection.system_id == s.connection.system_id,
{
}

/// A message of a client that is bound as transmitter or transceiver is
/// published as it came, under the number that was given to it, the session,
/// the sequence number and the name of the client. Other clients are told that
/// the command does not fit.
pub proof fn messages_are_published_as_they_came(
    s: SessionView,
    after: SessionView,
    frame: Frame,
    now: Instant,
    creds: Option<CredentialsView>,
    message_id: MessageId,
    action: SessionAction,
)
    requires
        session_stepped(s, after, SessionEvent::Frame(frame), now, creds, message_id, action),
        !s.connection.closing,
        !frame.is_response,
        frame.pdu is SubmitSm,
    ensures
        s.connection.state is BoundTx || s.connection.state is BoundTrx <==> action is Publish,
        action matches SessionAction::Publish(e) ==> {
            &&& e.message_id == message_id
            &&& e.session_id == s.session_id
            &&& e.sequence_number == frame.sequence
            &&& e.submit_sm == frame.pdu->SubmitSm_0
            &&& s.connection.system_id is Some ==> e.system_id@ == s.connection.system_id->0
            &&& s.connection.system_id is None ==> e.system_id@.len() == 0
        },
        !(action is Publish) ==> action is Send && action->Send_0.command is GenericNack
            && action->Send_0.sequence == frame.sequence
            && action->Send_0.status is InvalidBindStatus,
        after.connection.state == s.connection.state,
        after.pending == s.pending,
{
}

/// A client that unbinds is answered and leaves its binding; one that is not
/// bound is told that the command does not fit. An enquiry is answered in every
/// state, and what is not known is told to be so.
pub proof fn other_requests_are_answered(
    s: SessionView,
    after: SessionView,
    frame: Frame,
    now: Instant,
    creds: Option<CredentialsView>,
    message_id: MessageId,
    action: SessionAction,
)
    requires
        session_stepped(s, after, SessionEvent::Frame(frame), now, creds, message_id, action),
        !s.connection.closing,
        !frame.is_response,
    ensures
        frame.pdu is Unbind ==> action is Send && action->Send_0.sequence == frame.sequence,
        frame.pdu is Unbind && (s.connection.state is BoundTx || s.connection.state is BoundRx
            || s.connection.state is BoundTrx) ==> action->Send_0.command is UnbindResp
            && action->Send_0.status is Success && after.connection.state is Unbinding,
        frame.pdu is Unbind && !(s.connection.state is BoundTx || s.connection.state is BoundRx
            || s.connection.state is BoundTrx) ==> action->Send_0.command is GenericNack
            && action->Send_0.status is InvalidBindStatus && after.connection.state
            == s.connection.state,
        frame.pdu is EnquireLink ==> action is Send && action->Send_0.command is EnquireLinkResp
            && action->Send_0.sequence == frame.sequence && action->Send_0.status is Success
            && after.connection.state == s.connection.state,
        frame.pdu is DeliverSmResp || frame.pdu is GenericNack ==> action is Nothing
            && after.connection.state == s.connection.state,
        frame.pdu is Other ==> action is Send && action->Send_0.command is GenericNack
            && action->Send_0.sequence == frame.sequence && action->Send_0.status is InvalidCommandId
            && after.connection.state == s.connection.state,
        after.connection.last_activity == now,
{
}

/// A response of the client settles the requests with its sequence number, and
/// no others, and is not answered.
pub proof fn responses_settle_their_request(
    s: SessionView,
    after: SessionView,
    frame: Frame,
    now: Instant,
    creds: Option<CredentialsView>,
    message_id: MessageId,
    action: SessionAction,
    p: PendingRequest,
)
    requires
        session_stepped(s, after, SessionEvent::Frame(frame), now, creds, message_id, action),
        !s.connection.closing,
        frame.is_response,
    ensures
        action is Nothing,
        after.pending.contains(p) <==> s.pending.contains(p) && p.sequence != frame.sequence,
        after.connection.state == s.connection.state,
{
    let kept = |q: PendingRequest| q.sequence != frame.sequence;
    kept_by_filter(s.pending, kept, p);
}

/// When nothing came for a while, a bound client is asked whether it is there,
/// with the next sequence number, and the question is remembered; a client that
/// is not bound is left.
pub proof fn silent_clients_are_asked(
    s: SessionView,
    after: SessionView,
    now: Instant,
    creds: Option<CredentialsView>,
    message_id: MessageId,
    action: SessionAction,
)
    requires
        session_stepped(s, after, SessionEvent::IdleTimeout, now, creds, message_id, action),
        !s.connection.closing,
    ensures
        s.connection.state is BoundTx || s.connection.state is BoundRx
            || s.connection.state is BoundTrx ==> {
            &&& action is Send
            &&& action->Send_0.command is EnquireLink
            &&& action->Send_0.sequence == s.connection.sequence
            &&& action->Send_0.status is Success
            &&& after.pending.len() > 0
            &&& after.pending.last().sequence == s.connection.sequence
            &&& after.pending.last().sent_at == now
            &&& after.last_enquire_link == Some(now)
            &&& after.connection.state == s.connection.state
            &&& s.connection.sequence < u32::MAX ==> after.connection.sequence
                == s.connection.sequence + 1
            &&& s.connection.sequence == u32::MAX ==> after.connection.sequence == 0
        },
        !(s.connection.state is BoundTx || s.connection.state is BoundRx
            || s.connection.state is BoundTrx) ==> action is End
            && after.connection.state is Closed,
{
}

/// A session ends, and its connection is closed, when it is asked to, when the
/// client goes, and when what comes cannot be read.
pub proof fn sessions_end(
    s: SessionView,
    after: SessionView,
    event: SessionEvent,
    now: Instant,
    creds: Option<CredentialsView>,
    message_id: MessageId,
    action: SessionAction,
)
    requires
        session_stepped(s, after, event, now, creds, message_id, action),
        s.connection.closing || event is DecodeError || event is PeerClosed,
    ensures
        action is End,
        after.connection.state is Closed,
{
}

/// Questions that were asked longer ago than a client has for an answer are
/// given up, and no others.
pub proof fn old_questions_are_given_up(
    s: SessionView,
    after: SessionView,
    now: Instant,
    creds: Option<CredentialsView>,
    message_id: MessageId,
    action: SessionAction,
    p: PendingRequest,
)
    requires
        session_stepped(s, after, SessionEvent::Tick, now, creds, message_id, action),
        !s.connection.closing,
    ensures
        action is Nothing,
        after.pending.contains(p) <==> s.pending.contains(p) && elapsed_nanos(p.sent_at, now)
            <= s.connection.request_timeout,
        after.connection == s.connection,
{
    let kept = |q: PendingRequest| elapsed_nanos(q.sent_at, now) <= s.connection.request_timeout;
    kept_by_filter(s.pending, kept, p);
}

/// What a client may do in its state: as transmitter it sends, as receiver it
/// receives, as transceiver it does both, and else neither.
pub proof fn states_say_what_is_allowed(state: ConnectionState)
    ensures
        sends(state) <==> state is BoundTx || state is BoundTrx,
        receives(state) <==> state is BoundRx || state is BoundTrx,
        bound(state) <==> state is BoundTx || state is BoundRx || state is BoundTrx,
        session_state(state) is Open <==> state is Open,
        session_state(state) is BoundTx <==> state is BoundTx,
        session_state(state) is BoundRx <==> state is BoundRx,
        session_state(state) is BoundTrx <==> state is BoundTrx,
        session_state(state) is Unbinding <==> state is Unbinding,
        session_state(state) is Closed <==> state is Closed,
{
}

/// A session that has ended is closed, and else as it was.
pub proof fn closing_changes_only_the_state(s: SessionView)
    ensures
        ended(s).connection.state is Closed,
        ended(s).session_id == s.session_id,
        ended(s).pending == s.pending,
        ended(s).connection.system_id == s.connection.system_id,
{
}

/// A client that arrives gets a place with the next number while there is one
/// left, and is turned away when there is none.
pub proof fn arrivals_get_a_place(l: ListenerView, peer: SocketAddr)
    requires
        l.next_id < u64::MAX,
    ensures
        ({
            let (after, action) = accept_step(l, AcceptEvent::Arrived(peer));
            &&& action is Reject <==> l.slots.len() >= l.max
            &&& action is Reject ==> after == l
            &&& l.slots.len() < l.max ==> {
                &&& action == (AcceptAction::ConfigureSocket { id: l.next_id })
                &&& after.next_id == l.next_id + 1
                &&& after.slots.len() == l.slots.len() + 1
                &&& after.slots.last().id == l.next_id
                &&& after.slots.last().peer == peer
                &&& after.slots.last().phase is Configuring
                &&& after.slots.drop_last() == l.slots
            }
        }),
{
    let after = accept_step(l, AcceptEvent::Arrived(peer)).0;
    if l.slots.len() < l.max {
        assert(after.slots.drop_last() =~= l.slots);
    }
}

proof fn found_slot(slots: Seq<Slot>, id: u64, phase: SlotPhase)
    ensures
        slot_of(slots, id, phase) is Some <==> exists|i: int|
            0 <= i < slots.len() && (#[trigger] slots[i]).id == id && slots[i].phase == phase,
        slot_of(slots, id, phase) matches Some(i) ==> 0 <= i < slots.len() && slots[i].id == id
            && slots[i].phase == phase,
    decreases slots.len(),
{
    if slots.len() > 0 {
        let front = slots.drop_last();
        found_slot(front, id, phase);
        if slot_of(front, id, phase) is Some {
            let i = slot_of(front, id, phase)->0;
            assert(front[i] == slots[i]);
        }
        if exists|i: int|
            0 <= i < slots.len() && (#[trigger] slots[i]).id == id && slots[i].phase == phase {
            let i = choose|i: int|
                0 <= i < slots.len() && (#[trigger] slots[i]).id == id && slots[i].phase == phase;
            if i < front.len() {
                assert(front[i] == slots[i]);
            }
        }
        assert(slots.last() == slots[slots.len() - 1]);
    }
}

/// A connection whose socket was configured gets a session, after a handshake
/// of at most ten seconds where the listener uses TLS. One whose socket or
/// handshake failed is let go, and its place comes free. A session that ends
/// frees its place. What is told of a connection that does not wait for it
/// changes nothing.
pub proof fn connections_come_and_go(l: ListenerView, id: u64, ok: bool, outcome: Handshake)
    ensures
        ({
            let (after, action) = accept_step(l, AcceptEvent::SocketConfigured { id, ok });
            let waits = exists|i: int|
                0 <= i < l.slots.len() && (#[trigger] l.slots[i]).id == id
                    && l.slots[i].phase is Configuring;
            &&& !waits ==> action is Nothing && after == l
            &&& waits && !ok ==> action == (AcceptAction::Drop { id }) && after.slots.len()
                == l.slots.len() - 1
            &&& waits && ok && l.tls ==> action == (AcceptAction::DoHandshake {
                id,
                within_secs: 10,
            }) && after.slots.len() == l.slots.len() && exists|i: int|
                0 <= i < after.slots.len() && (#[trigger] after.slots[i]).id == id
                    && after.slots[i].phase is Handshaking
            &&& waits && ok && !l.tls ==> action == (AcceptAction::OpenSession { id })
                && after.slots.len() == l.slots.len() && exists|i: int|
                0 <= i < after.slots.len() && (#[trigger] after.slots[i]).id == id
                    && after.slots[i].phase is Active
        }),
        ({
            let (after, action) = accept_step(l, AcceptEvent::HandshakeEnded { id, outcome });
            let waits = exists|i: int|
                0 <= i < l.slots.len() && (#[trigger] l.slots[i]).id == id
                    && l.slots[i].phase is Handshaking;
            &&& !waits ==> action is Nothing && after == l
            &&& waits && outcome is Completed ==> action == (AcceptAction::OpenSession { id })
                && after.slots.len() == l.slots.len()
            &&& waits && !(outcome is Completed) ==> action == (AcceptAction::Drop { id })
                && after.slots.len() == l.slots.len() - 1
        }),
        ({
            let (after, action) = accept_step(l, AcceptEvent::Closed { id });
            let serves = exists|i: int|
                0 <= i < l.slots.len() && (#[trigger] l.slots[i]).id == id
                    && l.slots[i].phase is Active;
            &&& !serves ==> action is Nothing && after == l
            &&& serves ==> action == (AcceptAction::Drop { id }) && after.slots.len()
                == l.slots.len() - 1
        }),
{
    found_slot(l.slots, id, SlotPhase::Configuring);
    found_slot(l.slots, id, SlotPhase::Handshaking);
    found_slot(l.slots, id, SlotPhase::Active);
    if slot_of(l.slots, id, SlotPhase::Configuring) is Some && ok {
        let i = slot_of(l.slots, id, SlotPhase::Configuring)->0;
        let after = accept_step(l, AcceptEvent::SocketConfigured { id, ok }).0;
        assert(after.slots[i].id == id);
    }
}

/// A new listener is that of its configuration, and has no connections yet.
pub proof fn new_listeners_are_as_configured(config: ListenerConfig)
    ensures
        new_listener(config).name == config.name@,
        new_listener(config).address == config.address,
        new_listener(config).tls <==> config.tls is Some,
        new_listener(config).max == config.limits.max_connections,
        new_listener(config).slots.len() == 0,
        new_listener(config).next_id == 1,
        new_listener(config).idle_timeout == config.limits.idle_timeout@,
        new_listener(config).request_timeout == config.limits.request_timeout@,
{
}

/// The connections that a listener serves are those with a session.
pub proof fn served_connections_are_listed(slots: Seq<Slot>, id: u64)
    ensures
        active_ids(slots).contains(id) <==> exists|i: int|
            0 <= i < slots.len() && (#[trigger] slots[i]).id == id && slots[i].phase is Active,
        active_ids(slots).len() <= slots.len(),
    decreases slots.len(),
{
    if slots.len() > 0 {
        let front = slots.drop_last();
        served_connections_are_listed(front, id);
        let before = active_ids(front);
        let all = active_ids(slots);
        assert(slots.last() == slots[slots.len() - 1]);
        if before.contains(id) {
            let k = choose|k: int| 0 <= k < before.len() && before[k] == id;
            assert(all[k] == id);
            let i = choose|i: int|
                0 <= i < front.len() && (#[trigger] front[i]).id == id && front[i].phase is Active;
            assert(slots[i] == front[i]);
        }
        if all.contains(id) && !before.contains(id) {
            let k = choose|k: int| 0 <= k < all.len() && all[k] == id;
            if k < before.len() {
                assert(before[k] == id);
            }
        }
        if exists|i: int|
            0 <= i < slots.len() && (#[trigger] slots[i]).id == id && slots[i].phase is Active {
            let i = choose|i: int|
                0 <= i < slots.len() && (#[trigger] slots[i]).id == id && slots[i].phase is Active;
            if i < front.len() {
                assert(front[i] == slots[i]);
            } else {
                assert(all.last() == id);
                assert(all[all.len() - 1] == id);
            }
        }
    }
}

/// A client that binds is asked for by the system ID and the password that it
/// gives, whatever kind of bind it is; nothing else asks the store.
pub proof fn binds_ask_for_who_they_name(
    frame: Frame,
    store: &InMemoryCredentialStore,
    creds: Option<Credentials>,
)
    ensures
        bind_fields(frame.pdu) matches Some(b) ==> asked_for(SessionEvent::Frame(frame)) == Some(b)
            && (validated(store, b.system_id@, b.password@, creds) ==> (creds is Some
            <==> store.kept().contains_key(b.system_id@) && store.kept()[b.system_id@].password
            == b.password@)),
        bind_fields(frame.pdu) is None ==> asked_for(SessionEvent::Frame(frame)) is None,
        asked_for(SessionEvent::Tick) is None,
{
}

/// What a bind says of the client.
pub open spec fn bind_fields(pdu: Pdu) -> Option<BindFields> {
    if pdu is BindTransmitter {
        Some(pdu->BindTransmitter_0)
    } else if pdu is BindReceiver {
        Some(pdu->BindReceiver_0)
    } else if pdu is BindTransceiver {
        Some(pdu->BindTransceiver_0)
    } else {
        None
    }
}

/// An answer says what it holds.
pub proof fn answers_say_what_they_hold(r: Reply)
    ensures
        r@.command == r.command,
        r@.sequence == r.sequence,
        r@.status == r.status,
        r@.text == r.text@,
{
}

/// A session that is registered is known from then on, with its listener and
/// without a client, and no other session changes.
pub proof fn registered_sessions_are_known(
    registry: &mut SessionRegistry,
    id: SessionId,
    listener: String,
    other: SessionId,
)
    requires
        call_ensures(SessionRegistry::register, (registry, id, listener), ()),
    ensures
        final(registry).sessions().contains_key(id.value()),
        final(registry).sessions()[id.value()].listener == listener,
        final(registry).sessions()[id.value()].system_id is None,
        other.value() != id.value() ==> (final(registry).sessions().contains_key(other.value())
            <==> old(registry).sessions().contains_key(other.value())),
        other.value() != id.value() ==> final(registry).sessions()[other.value()]
            == old(registry).sessions()[other.value()],
{
}

/// The client of a session is noted only where the session is registered, and
/// nothing else of it changes.
pub proof fn clients_are_noted_of_known_sessions(
    registry: &mut SessionRegistry,
    id: SessionId,
    system_id: String,
    other: SessionId,
)
    requires
        call_ensures(SessionRegistry::set_system_id, (registry, id, system_id), ()),
    ensures
        final(registry).sessions().contains_key(other.value())
            <==> old(registry).sessions().contains_key(other.value()),
        old(registry).sessions().contains_key(id.value()) ==> {
            &&& final(registry).sessions()[id.value()].system_id == Some(system_id)
            &&& final(registry).sessions()[id.value()].listener
                == old(registry).sessions()[id.value()].listener
        },
        other.value() != id.value() ==> final(registry).sessions()[other.value()]
            == old(registry).sessions()[other.value()],
{
}

/// A session that is taken out is no longer known, and the others stay. It is
/// said whether it was there.
pub proof fn sessions_are_taken_out(
    registry: &mut SessionRegistry,
    id: SessionId,
    other: SessionId,
    removed: bool,
)
    requires
        call_ensures(SessionRegistry::unregister, (registry, id), removed),
    ensures
        removed <==> old(registry).sessions().contains_key(id.value()),
        !final(registry).sessions().contains_key(id.value()),
        other.value() != id.value() ==> (final(registry).sessions().contains_key(other.value())
            <==> old(registry).sessions().contains_key(other.value())),
{
}

/// A response reaches its session where that is known, and is sent where its
/// channel takes it.
pub proof fn responses_reach_known_sessions(
    registry: SessionRegistry,
    response: ResponseEnvelope,
    delivery: Delivery,
    known: bool,
    sent: bool,
    listed: bool,
)
    requires
        call_ensures(SessionRegistry::route, (&registry, &response), known),
        call_ensures(SessionRegistry::sent, (&registry, &response, delivery), sent),
        call_ensures(SessionRegistry::contains, (&registry, response.session_id), listed),
    ensures
        known <==> registry.sessions().contains_key(response.session_id.value()),
        listed <==> known,
        sent <==> known && delivery is Taken,
{
}

} // verus!
