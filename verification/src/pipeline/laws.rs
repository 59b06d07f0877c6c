//! What the stages of the pipeline publish, told by the message and by what
//! became of it.

use super::filter::filtered;
use super::forwarder::{
    after_attempt, attempt_output, forward_begun, retry_output, sent_view, AttemptError,
    StageOutput, StageView,
};
use super::response::ResponseProcessor;
use super::router::routed;
use crate::bootstrap::events::{Event, MessageEnvelope, ResponseEnvelope};
use crate::forwarder::processor::{Reach, SendOutcome};
use crate::forwarder::store::{RouteResult, StoreUpdate, StoreUpdateView};
use crate::text::decimal;
use vstd::prelude::*;

verus! {

/// A message with both addresses is accepted as it came. One without a
/// destination is refused with the status for that, one without a source with
/// the other, and the session that submitted it is answered under its sequence
/// number.
pub proof fn messages_are_filtered(
    envelope: MessageEnvelope,
    shown: Seq<char>,
    events: Seq<Event>,
)
    requires
        filtered(envelope, shown, events),
    ensures
        ({
            let no_destination = envelope.submit_sm.dest_addr@.len() == 0;
            let no_source = envelope.submit_sm.source_addr@.len() == 0;
            let status: u32 = if no_destination {
                11
            } else {
                10
            };
            &&& !no_destination && !no_source ==> events.len() == 1 && events[0]
                == (Event::MessageAccepted { envelope })
            &&& no_destination || no_source ==> {
                &&& events.len() == 2
                &&& events[0] is MessageRejected
                &&& events[0]->MessageRejected_envelope == envelope
                &&& events[0]->MessageRejected_status == status
                &&& no_destination ==> events[0]->MessageRejected_reason@ == "empty destination address"@
                &&& !no_destination ==> events[0]->MessageRejected_reason@ == "empty source address"@
                &&& events[1] is ResponseReady
                &&& events[1]->ResponseReady_0.session_id == envelope.session_id
                &&& events[1]->ResponseReady_0.sequence_number == envelope.sequence_number
                &&& events[1]->ResponseReady_0.message_id@ == shown
                &&& events[1]->ResponseReady_0.command_status == status
            }
        }),
{
}

/// A message with a route is passed on with it, and one without fails and is
/// answered so.
pub proof fn messages_are_routed(
    envelope: MessageEnvelope,
    route: Option<RouteResult>,
    shown: Seq<char>,
    update: Option<StoreUpdate>,
    events: Seq<Event>,
)
    requires
        routed(envelope, route, shown, update, events),
    ensures
        route is Some ==> {
            &&& update is None
            &&& events.len() == 1
            &&& events[0] is MessageRouted
            &&& events[0]->MessageRouted_envelope == envelope
            &&& events[0]->route_name == route->0.route_name
            &&& events[0]->cluster_name == route->0.cluster_name
            &&& events[0]->fallback_clusters == route->0.fallback
        },
        route is None ==> {
            &&& update is Some
            &&& update->0@ == (StoreUpdateView::Failed { code: 11, reason: "no route found"@ })
            &&& events.len() == 2
            &&& events[0] is MessageFailed
            &&& events[0]->MessageFailed_message_id == envelope.message_id
            &&& events[0]->MessageFailed_session_id == envelope.session_id
            &&& events[0]->MessageFailed_sequence_number == envelope.sequence_number
            &&& events[0]->MessageFailed_reason@ == "no route found"@
            &&& events[0]->MessageFailed_error_code == Some(11u32)
            &&& events[0]->permanent
            &&& events[1] is ResponseReady
            &&& events[1]->ResponseReady_0.session_id == envelope.session_id
            &&& events[1]->ResponseReady_0.sequence_number == envelope.sequence_number
            &&& events[1]->ResponseReady_0.message_id@ == shown
            &&& events[1]->ResponseReady_0.command_status == 11
        },
{
}

/// Sending succeeds exactly when the endpoint answered without an error; else
/// the error says what happened, with the status of the endpoint where it gave
/// one.
pub proof fn sending_succeeds_by_the_answer(sent: SendOutcome)
    ensures
        sent_view(sent) is Ok <==> sent is Response && sent->status == 0,
        sent_view(sent) is Ok ==> sent_view(sent)->Ok_0 == sent->message_id@,
        sent is Response && sent->status != 0 ==> sent_view(sent)->Err_0 == (
            Some(sent->status),
            "SMSC error: status="@ + decimal(sent->status as nat),
        ),
        sent is TimedOut ==> sent_view(sent)->Err_0 == (
            Some(88u32),
            "timeout waiting for response"@,
        ),
        sent is NoConnection ==> sent_view(sent)->Err_0 == (
            None::<u32>,
            "no healthy connection available"@,
        ),
        sent is Failed ==> sent_view(sent)->Err_0 == (
            None::<u32>,
            "I/O error: "@ + sent->Failed_0@,
        ),
        sent is Unexpected ==> sent_view(sent)->Err_0 == (
            None::<u32>,
            "unexpected response: "@ + sent->Unexpected_0@,
        ),
{
}

/// A cluster that is not there is told as such, a mock answers without sending,
/// and only real endpoints are sent to.
pub proof fn forwarding_begins(
    reach: Reach,
    cluster: Seq<char>,
    message_id: Seq<char>,
    outcome: Option<Result<String, AttemptError>>,
)
    requires
        forward_begun(reach, cluster, message_id, outcome),
    ensures
        outcome is None <==> reach is Endpoints,
        reach is NotFound ==> outcome->0 is Err && outcome->0->Err_0.message@
            == "cluster not found: "@ + cluster && outcome->0->Err_0.code is None,
        reach is Mock ==> outcome->0 is Ok && outcome->0->Ok_0@ == "MOCK-"@ + message_id,
{
}

/// A message that a cluster took is in flight there, and the client that
/// submitted it is answered with the ID of the cluster and without an error.
pub proof fn taken_messages_are_answered(
    s: StageView,
    id: Seq<char>,
    latency_us: nat,
    out: StageOutput,
)
    requires
        s.phase is Trying,
        attempt_output(s, Ok(id), latency_us, out),
    ensures
        after_attempt(s, Ok(id)).phase is Done,
        out.next is Nothing,
        out.update is Some,
        out.update->0@ == (StoreUpdateView::InFlight {
            smsc_message_id: id,
            cluster: s.clusters[s.tried as int],
            endpoint: "upstream"@,
        }),
        out.events@.len() == 2,
        out.events@[0] is MessageDelivered,
        out.events@[0]->MessageDelivered_message_id == s.message_id,
        out.events@[0]->MessageDelivered_session_id == s.session_id,
        out.events@[0]->MessageDelivered_sequence_number == s.sequence_number,
        out.events@[0]->MessageDelivered_smsc_message_id@ == id,
        latency_us <= u64::MAX ==> out.events@[0]->MessageDelivered_latency_us == latency_us,
        out.events@[1] is ResponseReady,
        out.events@[1]->ResponseReady_0.session_id == s.session_id,
        out.events@[1]->ResponseReady_0.sequence_number == s.sequence_number,
        out.events@[1]->ResponseReady_0.message_id@ == id,
        out.events@[1]->ResponseReady_0.command_status == 0,
{
}

/// A message that a cluster did not take goes to the next one, and after the
/// last one the store is asked.
pub proof fn refused_messages_go_on(
    s: StageView,
    code: Option<u32>,
    error: Seq<char>,
    latency_us: nat,
    out: StageOutput,
)
    requires
        s.phase is Trying,
        s.tried < s.clusters.len(),
        attempt_output(s, Err((code, error)), latency_us, out),
    ensures
        out.update is None,
        ({
            let after = after_attempt(s, Err((code, error)));
            &&& after.tried == s.tried + 1
            &&& after.clusters == s.clusters
            &&& after.last_error == Some(error)
            &&& after.last_error_code == code
            &&& s.tried + 1 < s.clusters.len() ==> {
                &&& after.phase is Trying
                &&& out.next is Try
                &&& out.next->Try_0@ == s.clusters[s.tried as int + 1]
                &&& out.events@.len() == 1
                &&& out.events@[0] is MessageForwarding
                &&& out.events@[0]->MessageForwarding_message_id == s.message_id
                &&& out.events@[0]->MessageForwarding_cluster@ == s.clusters[s.tried as int + 1]
            }
            &&& s.tried + 1 == s.clusters.len() ==> {
                &&& after.phase is AskingRetry
                &&& out.next is AskRetry
                &&& out.events@.len() == 0
            }
        }),
{
}

/// A message that no cluster took is answered without an error where it is
/// tried again after a second, and else as failed, with the last error and its
/// code, or with the code for throttling where the error had none.
pub proof fn lost_messages_are_answered(
    s: StageView,
    allowed: bool,
    error: Seq<char>,
    out: StageOutput,
)
    requires
        s.last_error == Some(error),
        retry_output(s, allowed, out),
    ensures
        out.next is Nothing,
        out.update is Some,
        out.events@.len() == 2,
        ({
            let code: u32 = if s.last_error_code is Some {
                s.last_error_code->0
            } else {
                88
            };
            &&& allowed ==> {
                &&& out.update->0@ == (StoreUpdateView::Retry {
                    delay: 1_000_000_000,
                    code,
                    reason: error,
                })
                &&& out.events@[0] is MessageRetryScheduled
                &&& out.events@[0]->MessageRetryScheduled_message_id == s.message_id
                &&& out.events@[0]->MessageRetryScheduled_attempt == 1
                &&& out.events@[0]->MessageRetryScheduled_delay_ms == 1000
                &&& out.events@[0]->MessageRetryScheduled_reason@ == error
            }
            &&& !allowed ==> {
                &&& out.update->0@ == (StoreUpdateView::Failed { code, reason: error })
                &&& out.events@[0] is MessageFailed
                &&& out.events@[0]->MessageFailed_error_code == Some(code)
                &&& out.events@[0]->MessageFailed_message_id == s.message_id
                &&& out.events@[0]->MessageFailed_session_id == s.session_id
                &&& out.events@[0]->MessageFailed_sequence_number == s.sequence_number
                &&& out.events@[0]->MessageFailed_reason@ == error
                &&& out.events@[0]->MessageFailed_permanent
            }
            &&& out.events@[1] is ResponseReady
            &&& out.events@[1]->ResponseReady_0.session_id == s.session_id
            &&& out.events@[1]->ResponseReady_0.sequence_number == s.sequence_number
            &&& out.events@[1]->ResponseReady_0.message_id@ == s.shown
            &&& allowed ==> out.events@[1]->ResponseReady_0.command_status == 0
            &&& !allowed ==> out.events@[1]->ResponseReady_0.command_status == code
        }),
{
}

/// Only an answer that is ready is passed on, as it is.
pub proof fn ready_answers_are_passed_on(
    task: ResponseProcessor,
    event: Event,
    response: Option<ResponseEnvelope>,
)
    requires
        call_ensures(ResponseProcessor::response_of, (&task, &event), response),
    ensures
        event matches Event::ResponseReady(r) ==> response == Some(r),
        !(event is ResponseReady) ==> response is None,
{
}

} // verus!
