//! What becomes of a message on its way upstream, told by what happens to it.

use super::decisions::{is_outcome, retry_settled_by, routed_context, settled_by};
use super::dlr::{
    dlr_processed, failure_status, final_status, receipt_of, status_of, status_text, DeliverSm,
    DeliveryReceipt, DeliveryStatus, DlrDecision, TextReceipt,
};
use super::processor::{
    attempt_begun, attempt_finished, error_text, forward_step, outcome_view, reach_of,
    ForwardAction, ForwardActionView, ForwardError, ForwardEvent, ForwardEventView, ForwardResult,
    ForwardingView, Reach, SendOutcome,
};
use super::retry::{
    rebuilt, retry_begun, retry_error_text, retry_finished, retry_step, RetryAction,
    RetryActionView, RetryError, RetryEvent, RetryEventView, RetryingView,
};
use super::store::{clusters_of, MessageState, StoreUpdate, StoreUpdateView, StoredMessage};
use crate::cluster::Cluster;
use crate::feedback::types::{empty_context, DecisionId, Outcome};
use crate::pdu::SubmitSm;
use crate::text::{decimal, opt_text, parsed_number, utf8_lossy};
use crate::time::{Duration, Instant};
use vstd::arithmetic::power2::pow2;
use vstd::prelude::*;

verus! {

/// The numbers of the message states stand for their status, no two for the
/// same one, and every other number stands for a state that is not known.
pub proof fn states_stand_for_their_status(v: u8)
    ensures
        status_of(v) is Enroute <==> v == 1,
        status_of(v) is Delivered <==> v == 2,
        status_of(v) is Expired <==> v == 3,
        status_of(v) is Deleted <==> v == 4,
        status_of(v) is Undeliverable <==> v == 5,
        status_of(v) is Accepted <==> v == 6,
        status_of(v) is Rejected <==> v == 8,
        status_of(v) is Skipped <==> v == 9,
        status_of(v) is Unknown <==> v == 0 || v == 7 || v > 9,
{
}

/// Two numbers that stand for the same known status are the same.
pub proof fn known_states_differ(v: u8, w: u8)
    requires
        status_of(v) == status_of(w),
        !(status_of(v) is Unknown),
    ensures
        v == w,
{
}

/// Every status has its own name of seven letters.
pub proof fn statuses_have_their_names(s: DeliveryStatus)
    ensures
        s is Enroute ==> status_text(s) == "ENROUTE"@,
        s is Delivered ==> status_text(s) == "DELIVRD"@,
        s is Expired ==> status_text(s) == "EXPIRED"@,
        s is Deleted ==> status_text(s) == "DELETED"@,
        s is Undeliverable ==> status_text(s) == "UNDELIV"@,
        s is Accepted ==> status_text(s) == "ACCEPTD"@,
        s is Rejected ==> status_text(s) == "REJECTD"@,
        s is Skipped ==> status_text(s) == "SKIPPED"@,
        s is Unknown ==> status_text(s) == "UNKNOWN"@,
        final_status(s) <==> !(s is Enroute || s is Accepted || s is Skipped || s is Unknown),
        failure_status(s) <==> s is Expired || s is Deleted || s is Undeliverable || s is Rejected,
{
}

/// A receipt is read from its text where it can be, and else from the
/// parameters of its own. What is not marked as a receipt is none.
pub proof fn receipts_are_read(deliver: DeliverSm, parsed: Option<TextReceipt>)
    ensures
        receipt_of(deliver, parsed) is Some <==> deliver.is_receipt && (parsed is Some
            || deliver.receipted_message_id is Some),
        receipt_of(deliver, parsed) is Some ==> {
            let r = receipt_of(deliver, parsed)->0;
            &&& r.source_addr == deliver.source_addr@
            &&& r.dest_addr == deliver.dest_addr@
            &&& r.raw == utf8_lossy(deliver.short_message@)
            &&& parsed matches Some(t) ==> {
                &&& r.smsc_message_id == t.message_id@
                &&& r.status == t.status
                &&& t.error_code is None ==> r.error_code is None
                &&& t.error_code is Some && parsed_number(t.error_code->0@, u32::MAX as nat) is Some
                    ==> r.error_code is Some && r.error_code->0 as nat == parsed_number(
                    t.error_code->0@,
                    u32::MAX as nat,
                )->0
                &&& t.error_code is Some && parsed_number(t.error_code->0@, u32::MAX as nat) is None
                    ==> r.error_code is None
                &&& r.submit_date is Some <==> t.submit_date is Some
                &&& t.submit_date is Some ==> r.submit_date->0 == t.submit_date->0@
                &&& r.done_date is Some <==> t.done_date is Some
                &&& t.done_date is Some ==> r.done_date->0 == t.done_date->0@
                &&& r.text is Some <==> t.text is Some
                &&& t.text is Some ==> r.text->0 == t.text->0@
            }
            &&& parsed is None ==> {
                &&& r.smsc_message_id == deliver.receipted_message_id->0@
                &&& r.status is Delivered <==> deliver.message_state == Some(2u8)
                &&& r.status is Expired <==> deliver.message_state == Some(3u8)
                &&& r.status is Deleted <==> deliver.message_state == Some(4u8)
                &&& r.status is Undeliverable <==> deliver.message_state == Some(5u8)
                &&& r.status is Rejected <==> deliver.message_state == Some(8u8)
                &&& deliver.message_state is None ==> r.status is Unknown
                &&& r.error_code is Some <==> deliver.network_error_code is Some
                &&& deliver.network_error_code is Some ==> r.error_code->0
                    == deliver.network_error_code->0
            }
        },
{
}

/// A receipt settles the message that has its upstream ID: one in flight before
/// one that waits for another try, and the first of several. A delivered
/// message is settled as delivered and without an error, a message with another
/// final status as failed and with the name of the status, and every other
/// receipt settles nothing. A receipt without a message is an orphan.
pub proof fn receipts_settle_their_message(
    receipt: Option<DeliveryReceipt>,
    in_flight: Seq<StoredMessage>,
    retrying: Seq<StoredMessage>,
    decision: DlrDecision,
    k: int,
)
    requires
        dlr_processed(receipt, in_flight, retrying, decision),
    ensures
        decision is NotReceipt <==> receipt is None,
        decision is Orphaned ==> receipt is Some && (forall|i: int|
            0 <= i < in_flight.len() ==> !((#[trigger] in_flight[i]).smsc_message_id is Some
                && in_flight[i].smsc_message_id->0@ == receipt->0.smsc_message_id@)) && (forall|
            i: int,
        |
            0 <= i < retrying.len() ==> !((#[trigger] retrying[i]).smsc_message_id is Some
                && retrying[i].smsc_message_id->0@ == receipt->0.smsc_message_id@)),
        receipt is Some && 0 <= k < in_flight.len() && in_flight[k].smsc_message_id is Some
            && in_flight[k].smsc_message_id->0@ == receipt->0.smsc_message_id@ && (forall|i: int|
            0 <= i < k ==> !((#[trigger] in_flight[i]).smsc_message_id is Some
                && in_flight[i].smsc_message_id->0@ == receipt->0.smsc_message_id@)) ==> {
            &&& decision is Correlated
            &&& decision->message_id == in_flight[k].id
            &&& decision->system_id@ == in_flight[k].system_id@
        },
        decision matches DlrDecision::Correlated { message_id, system_id, update } ==> {
            let r = receipt->0;
            &&& receipt is Some
            &&& r.status is Delivered ==> update is Some && update->0 is Receipt
                && update->0->state is Delivered && update->0->last_error is None
                && update->0->Receipt_status@ == "DELIVRD"@ && update->0->error_code == r.error_code
            &&& r.status is Expired || r.status is Deleted || r.status is Undeliverable
                || r.status is Rejected ==> update is Some && update->0 is Receipt
                && update->0->state is Failed && update->0->last_error is Some
                && update->0->last_error->0@ == "DLR: "@ + status_text(r.status)
                && update->0->Receipt_status@ == status_text(r.status) && update->0->error_code
                == r.error_code
            &&& r.status is Enroute || r.status is Accepted || r.status is Skipped
                || r.status is Unknown ==> update is None
        },
{
    if receipt is Some {
        let id = receipt->0@.smsc_message_id;
        super::dlr::receipts_find_their_message(in_flight, retrying, id);
        if decision is Orphaned {
            assert forall|i: int| 0 <= i < in_flight.len() implies !((
            #[trigger] in_flight[i]).smsc_message_id is Some && in_flight[i].smsc_message_id->0@
                == id) by {
                if in_flight[i].smsc_message_id is Some && in_flight[i].smsc_message_id->0@ == id {
                    assert(super::dlr::has_smsc_id(in_flight[i], id));
                }
            }
            assert forall|i: int| 0 <= i < retrying.len() implies !((
            #[trigger] retrying[i]).smsc_message_id is Some && retrying[i].smsc_message_id->0@
                == id) by {
                if retrying[i].smsc_message_id is Some && retrying[i].smsc_message_id->0@ == id {
                    assert(super::dlr::has_smsc_id(retrying[i], id));
                }
            }
        }
        if 0 <= k < in_flight.len() && in_flight[k].smsc_message_id is Some
            && in_flight[k].smsc_message_id->0@ == id && (forall|i: int|
            0 <= i < k ==> !((#[trigger] in_flight[i]).smsc_message_id is Some
                && in_flight[i].smsc_message_id->0@ == id)) {
            first_of_all(in_flight, id, k);
        }
    }
}

proof fn first_of_all(messages: Seq<StoredMessage>, id: Seq<char>, k: int)
    requires
        0 <= k < messages.len(),
        super::dlr::has_smsc_id(messages[k], id),
        forall|i: int| 0 <= i < k ==> !super::dlr::has_smsc_id(#[trigger] messages[i], id),
    ensures
        super::dlr::first_with_id(messages, id) == Some(k),
    decreases messages.len(),
{
    let front = messages.drop_last();
    if k < front.len() {
        assert forall|i: int| 0 <= i < k implies !super::dlr::has_smsc_id(
            #[trigger] front[i],
            id,
        ) by {
            assert(front[i] == messages[i]);
        }
        first_of_all(front, id, k);
    } else {
        none_with_id(front, id);
    }
}

proof fn none_with_id(messages: Seq<StoredMessage>, id: Seq<char>)
    requires
        forall|i: int|
            0 <= i < messages.len() ==> !super::dlr::has_smsc_id(#[trigger] messages[i], id),
    ensures
        super::dlr::first_with_id(messages, id) is None,
    decreases messages.len(),
{
    if messages.len() > 0 {
        let front = messages.drop_last();
        assert forall|i: int| 0 <= i < front.len() implies !super::dlr::has_smsc_id(
            #[trigger] front[i],
            id,
        ) by {
            assert(front[i] == messages[i]);
        }
        none_with_id(front, id);
        assert(messages.last() == messages[messages.len() - 1]);
    }
}

/// A cluster that is not there is told as such, a mock answers without sending,
/// and only real endpoints are sent to.
pub proof fn attempts_begin(
    reach: Reach,
    cluster: Seq<char>,
    message_id: Seq<char>,
    outcome: Option<Result<String, ForwardError>>,
    retried: Option<Result<String, RetryError>>,
)
    requires
        attempt_begun(reach, cluster, message_id, outcome),
        retry_begun(reach, cluster, message_id, retried),
    ensures
        outcome is None <==> reach is Endpoints,
        reach is NotFound ==> outcome->0 is Err && error_text(outcome->0->Err_0)
            == "cluster not found: "@ + cluster,
        reach is Mock ==> outcome->0 is Ok && outcome->0->Ok_0@ == "MOCK-"@ + message_id,
        retried is None <==> reach is Endpoints,
        reach is NotFound ==> retried->0 is Err && retry_error_text(retried->0->Err_0)
            == "cluster not found: "@ + cluster,
        reach is Mock ==> retried->0 is Ok && retried->0->Ok_0@ == "MOCK-RETRY-"@ + message_id,
{
}

/// A cluster is reached by its name: not at all where there is none of that
/// name, and else by its endpoints unless it is a mock.
pub proof fn clusters_are_reached_by_name(clusters: Map<Seq<char>, Cluster>, name: Seq<char>)
    ensures
        reach_of(clusters, name) is NotFound <==> !clusters.dom().contains(name),
        clusters.dom().contains(name) ==> (reach_of(clusters, name) is Mock
            <==> clusters[name]@.is_mock),
{
}

/// An attempt succeeds exactly when the endpoint answered without an error, and
/// then with the ID that the endpoint gave. Every answer is noted, and nothing
/// else is.
pub proof fn attempts_succeed_by_the_answer(
    sent: SendOutcome,
    update: Option<StoreUpdate>,
    outcome: Result<String, ForwardError>,
    retried: Result<String, RetryError>,
)
    requires
        attempt_finished(sent, (update, outcome)),
        retry_finished(sent, retried),
    ensures
        outcome is Ok <==> sent is Response && sent->status == 0,
        outcome is Ok ==> outcome->Ok_0@ == sent->message_id@,
        update is Some <==> sent is Response,
        sent is Response ==> update->0@ == (StoreUpdateView::Response {
            status: sent->status,
            message_id: sent->message_id@,
        }),
        sent is Response && sent->status != 0 ==> error_text(outcome->Err_0)
            == "SMSC error: status="@ + decimal(sent->status as nat) + ", message_id="@
            + sent->message_id@,
        sent is NoConnection ==> error_text(outcome->Err_0) == "no healthy connection available"@,
        sent is TimedOut ==> error_text(outcome->Err_0) == "timeout waiting for response"@,
        sent is Failed ==> error_text(outcome->Err_0) == "I/O error: "@ + sent->Failed_0@,
        sent is Unexpected ==> error_text(outcome->Err_0) == "unexpected response: "@
            + sent->Unexpected_0@,
        retried is Ok <==> sent is Response && sent->status == 0,
        retried is Ok ==> retried->Ok_0@ == sent->message_id@,
        sent is Response && sent->status != 0 ==> retried->Err_0 is SmscError
            && retried->Err_0->status == sent->status,
        sent is NoConnection ==> retried->Err_0 is NoConnection,
        sent is TimedOut ==> retried->Err_0 is Timeout,
        sent is Failed ==> retried->Err_0 is IoError && retried->Err_0->IoError_0@
            == sent->Failed_0@,
        sent is Unexpected ==> retried->Err_0 is UnexpectedResponse
            && retried->Err_0->UnexpectedResponse_0@ == sent->Unexpected_0@,
{
}

/// The clusters of a route are tried in its order: first its own, then those to
/// fall back to.
pub proof fn routes_name_their_clusters(cluster: Seq<char>, fallback: Seq<String>, i: int)
    requires
        0 <= i < fallback.len(),
    ensures
        clusters_of(cluster, fallback).len() == fallback.len() + 1,
        clusters_of(cluster, fallback)[0] == cluster,
        clusters_of(cluster, fallback)[i + 1] == fallback[i]@,
{
}

/// A message without a route fails, and the client is told so; one with a route
/// is sent to the first of its clusters.
pub proof fn messages_follow_their_route(f: ForwardingView, clusters: Seq<Seq<char>>)
    requires
        f.phase is Routing,
        clusters.len() > 0,
    ensures
        ({
            let (after, action) = forward_step(f, ForwardEventView::Routed(None));
            &&& after.phase is Done
            &&& action is Finish
            &&& action->result.command_status == 11
            &&& action->result.message_id == f.message_id
            &&& action->result.error == Some("no route found"@)
            &&& action->update == (StoreUpdateView::Failed { code: 11, reason: "no route found"@ })
        }),
        ({
            let (after, action) = forward_step(f, ForwardEventView::Routed(Some(clusters)));
            &&& after.phase is Trying
            &&& after.clusters == clusters
            &&& after.tried == 0
            &&& action == ForwardActionView::Try(clusters[0])
        }),
{
}

/// A message that a cluster took is in flight under the ID that the cluster
/// gave, and the client is told its own ID without an error. One that a cluster
/// did not take goes to the next cluster, and after the last one the store is
/// asked.
pub proof fn attempts_lead_on(f: ForwardingView, upstream_id: Seq<char>, error: Seq<char>)
    requires
        f.phase is Trying,
        f.tried < f.clusters.len(),
    ensures
        ({
            let (after, action) = forward_step(f, ForwardEventView::Attempted(Ok(upstream_id)));
            &&& after.phase is Done
            &&& action is Finish
            &&& action->update == (StoreUpdateView::InFlight {
                smsc_message_id: upstream_id,
                cluster: f.clusters[f.tried as int],
                endpoint: "upstream"@,
            })
            &&& action->result.command_status == 0
            &&& action->result.message_id == f.message_id
            &&& action->result.error is None
        }),
        ({
            let (after, action) = forward_step(f, ForwardEventView::Attempted(Err(error)));
            &&& after.tried == f.tried + 1
            &&& after.clusters == f.clusters
            &&& after.last_error == Some(error)
            &&& f.tried + 1 < f.clusters.len() ==> after.phase is Trying && action
                == ForwardActionView::Try(f.clusters[f.tried as int + 1])
            &&& f.tried + 1 == f.clusters.len() ==> after.phase is AskingRetry && action == (
            ForwardActionView::AskRetry { code: 88, reason: error })
        }),
{
}

/// A message that no cluster took waits a second for another try where the
/// store allows it, and else fails; either way with the last error.
pub proof fn the_store_decides_on_retries(f: ForwardingView, allowed: bool, error: Seq<char>)
    requires
        f.phase is AskingRetry,
        f.last_error == Some(error),
    ensures
        ({
            let (after, action) = forward_step(f, ForwardEventView::RetryAllowed(allowed));
            &&& after.phase is Done
            &&& action is Finish
            &&& allowed ==> action->update == (StoreUpdateView::Retry {
                delay: 1_000_000_000,
                code: 88,
                reason: error,
            })
            &&& !allowed ==> action->update == (StoreUpdateView::Failed { code: 88, reason: error })
            &&& action->result.message_id == f.message_id
            &&& action->result.command_status == 0
        }),
{
}

/// An event that does not fit how far a message has come changes nothing.
pub proof fn other_events_change_nothing(f: ForwardingView, event: ForwardEventView)
    requires
        !(f.phase is Routing && event is Routed),
        !(f.phase is Trying && event is Attempted),
        !(f.phase is AskingRetry && event is RetryAllowed),
    ensures
        forward_step(f, event) == (f, ForwardActionView::Ignore),
{
}

/// A message is tried again only while it waits for that, was sent fewer than
/// five times, and its time is not over.
pub proof fn messages_are_tried_again(
    r: RetryingView,
    state: MessageState,
    attempts: u32,
    expired: bool,
    base: nat,
    max: nat,
)
    requires
        r.phase is Checking,
    ensures
        ({
            let (after, action) = retry_step(
                r,
                RetryEventView::Current(Some((state, attempts, expired))),
                base,
                max,
            );
            &&& action is AskRoute <==> state is Retrying && attempts < 5 && !expired
            &&& action is AskRoute ==> after.phase is Routing && after.attempts == attempts
            &&& !(action is AskRoute) ==> after.phase is Done
            &&& !(state is Retrying) ==> action is Ignore
            &&& state is Retrying && attempts >= 5 ==> action == RetryActionView::Finish(
                StoreUpdateView::Failed { code: 88, reason: "max retries exceeded"@ },
            )
            &&& state is Retrying && attempts < 5 && expired ==> action == RetryActionView::Finish(
                StoreUpdateView::Expired,
            )
        }),
        retry_step(r, RetryEventView::Current(None), base, max).1 is Ignore,
        retry_step(r, RetryEventView::Current(None), base, max).0.phase is Done,
{
}

/// A try goes the way of the route as the first attempt did; when every cluster
/// failed, the message waits twice as long as after the try before, up to the
/// longest delay.
pub proof fn tries_lead_on(
    r: RetryingView,
    clusters: Seq<Seq<char>>,
    upstream_id: Seq<char>,
    base: nat,
    max: nat,
)
    requires
        clusters.len() > 0,
        r.tried < r.clusters.len(),
    ensures
        r.phase is Routing ==> ({
            let (after, action) = retry_step(r, RetryEventView::Routed(None), base, max);
            &&& after.phase is Done
            &&& action == RetryActionView::Finish(
                StoreUpdateView::Failed { code: 11, reason: "no route found"@ },
            )
        }),
        r.phase is Routing ==> ({
            let (after, action) = retry_step(r, RetryEventView::Routed(Some(clusters)), base, max);
            &&& after.phase is Trying
            &&& after.clusters == clusters
            &&& after.tried == 0
            &&& after.attempts == r.attempts
            &&& action == RetryActionView::Try(clusters[0])
        }),
        r.phase is Trying ==> ({
            let (after, action) = retry_step(
                r,
                RetryEventView::Attempted(Some(upstream_id)),
                base,
                max,
            );
            &&& after.phase is Done
            &&& action == RetryActionView::Finish(
                StoreUpdateView::InFlight {
                    smsc_message_id: upstream_id,
                    cluster: r.clusters[r.tried as int],
                    endpoint: "upstream"@,
                },
            )
        }),
        r.phase is Trying && r.tried + 1 < r.clusters.len() ==> ({
            let (after, action) = retry_step(r, RetryEventView::Attempted(None), base, max);
            &&& after.phase is Trying
            &&& after.tried == r.tried + 1
            &&& action == RetryActionView::Try(r.clusters[r.tried as int + 1])
        }),
        r.phase is Trying && r.tried + 1 == r.clusters.len() ==> ({
            let (after, action) = retry_step(r, RetryEventView::Attempted(None), base, max);
            let wait = base * pow2(r.attempts as nat);
            &&& after.phase is Done
            &&& action is Finish
            &&& action->Finish_0 is Retry
            &&& action->Finish_0->Retry_code == 88
            &&& wait <= max ==> action->Finish_0->delay == wait * 1_000_000
            &&& wait > max ==> action->Finish_0->delay == max * 1_000_000
        }),
{
}

/// A message is sent again as it was stored: the same addresses, the same bytes
/// and the same parameters.
pub proof fn messages_are_sent_again_as_they_were(msg: StoredMessage, submit: SubmitSm)
    requires
        rebuilt(msg, submit),
    ensures
        submit.source_addr@ == msg.source@,
        submit.dest_addr@ == msg.destination@,
        submit.short_message@ == msg.short_message@,
        submit.esm_class == msg.esm_class,
        submit.data_coding == msg.data_coding,
        submit.registered_delivery == msg.registered_delivery,
        submit.source_addr_ton == 0 && submit.source_addr_npi == 0,
        submit.dest_addr_ton == 0 && submit.dest_addr_npi == 0,
        submit.protocol_id == 0 && submit.priority_flag == 0,
        submit.schedule_delivery_time@.len() == 0 && submit.validity_period@.len() == 0,
        submit.replace_if_present_flag == 0 && submit.sm_default_msg_id == 0,
        msg.service_type is Some ==> submit.service_type@ == msg.service_type->0@,
        msg.service_type is None ==> submit.service_type@.len() == 0,
{
}

/// A decision turned out well exactly when the message got into flight, and
/// badly with the code and the reason for which it did not.
pub proof fn decisions_are_settled_by_the_message(
    o: Option<Outcome>,
    action: ForwardActionView,
    id: DecisionId,
    latency: Duration,
    now: Instant,
)
    requires
        is_outcome(o, settled_by(action), id, latency, now),
    ensures
        o is Some && o->0.success <==> action is Finish && action->update is InFlight,
        o is Some && !o->0.success <==> action is AskRetry,
        o is Some ==> o->0.decision_id == id && o->0.latency == latency && o->0.timestamp == now,
        action matches ForwardActionView::AskRetry { code, reason } ==> o->0.error_code == Some(
            code,
        ) && o->0.error_message is Some && o->0.error_message->0@ == reason,
{
}

/// The decision for another try turned out well exactly when the message got
/// into flight, and badly when it waits for one more try.
pub proof fn retries_are_settled_by_the_message(
    o: Option<Outcome>,
    action: RetryActionView,
    id: DecisionId,
    latency: Duration,
    now: Instant,
)
    requires
        is_outcome(o, retry_settled_by(action), id, latency, now),
    ensures
        o is Some && o->0.success <==> action is Finish && action->Finish_0 is InFlight,
        o is Some && !o->0.success <==> action is Finish && action->Finish_0 is Retry,
        o is Some ==> o->0.decision_id == id && o->0.latency == latency && o->0.timestamp == now,
{
}

/// A decision for a route is told by the destination, the source and the route,
/// each in its place, and by nothing else.
pub proof fn routes_are_decided_for_their_message(
    destination: Seq<char>,
    source: Seq<char>,
    route: Seq<char>,
)
    ensures
        ({
            let c = routed_context(destination, source, route);
            &&& c.destination == Some(destination)
            &&& c.source == Some(source)
            &&& c.route_name == Some(route)
            &&& c.sender_id is None
            &&& c.system_id is None
            &&& c.cluster_name is None
            &&& c.attempt is None
            &&& c.fallback_from is None
        }),
        empty_context().destination is None && empty_context().source is None
            && empty_context().route_name is None && empty_context().attempt is None
            && empty_context().fallback_from is None,
{
}

/// What came of an attempt is told as it was: the message's new ID, or what
/// went wrong.
pub proof fn outcomes_are_told(r: Result<String, ForwardError>)
    ensures
        outcome_view(r) is Ok <==> r is Ok,
        r matches Ok(id) ==> outcome_view(r) == Ok::<Seq<char>, Seq<char>>(id@),
{
}

/// A change of a stored message says what it holds.
pub proof fn updates_say_what_they_hold(u: StoreUpdate)
    ensures
        u is Expired <==> u@ is Expired,
        u matches StoreUpdate::Failed { code, reason } ==> u@ == (StoreUpdateView::Failed {
            code,
            reason: reason@,
        }),
        u matches StoreUpdate::InFlight { smsc_message_id, cluster, endpoint } ==> u@ == (
        StoreUpdateView::InFlight {
            smsc_message_id: smsc_message_id@,
            cluster: cluster@,
            endpoint: endpoint@,
        }),
        u matches StoreUpdate::Retry { delay, code, reason } ==> u@ == (StoreUpdateView::Retry {
            delay: delay@,
            code,
            reason: reason@,
        }),
        u matches StoreUpdate::Response { status, message_id } ==> u@ == (
        StoreUpdateView::Response { status, message_id: message_id@ }),
        u matches StoreUpdate::Receipt { status, error_code, state, last_error } ==> u@ == (
        StoreUpdateView::Receipt {
            status: status@,
            error_code,
            state,
            last_error: opt_text(last_error),
        }),
{
}

/// A receipt says what it holds.
pub proof fn receipts_say_what_they_hold(r: DeliveryReceipt)
    ensures
        r@.smsc_message_id == r.smsc_message_id@,
        r@.status == r.status,
        r@.error_code == r.error_code,
        r@.submit_date == opt_text(r.submit_date),
        r@.done_date == opt_text(r.done_date),
        r@.text == opt_text(r.text),
        r@.source_addr == r.source_addr@,
        r@.dest_addr == r.dest_addr@,
{
}

/// An answer says what it holds, and what is done next says what it is about.
pub proof fn actions_say_what_they_hold(
    r: ForwardResult,
    f: ForwardAction,
    t: RetryAction,
)
    ensures
        r@.message_id == r.message_id@ && r@.command_status == r.command_status && r@.error
            == opt_text(r.error),
        f matches ForwardAction::Try(cluster) ==> f@ == ForwardActionView::Try(cluster@),
        f matches ForwardAction::AskRetry { code, reason } ==> f@ == (ForwardActionView::AskRetry {
            code,
            reason: reason@,
        }),
        f matches ForwardAction::Finish { update, result } ==> f@ == (ForwardActionView::Finish {
            update: update@,
            result: result@,
        }),
        f is Ignore <==> f@ is Ignore,
        t matches RetryAction::Try(cluster) ==> t@ == RetryActionView::Try(cluster@),
        t matches RetryAction::Finish(update) ==> t@ == RetryActionView::Finish(update@),
        t is AskRoute <==> t@ is AskRoute,
        t is Ignore <==> t@ is Ignore,
{
}

/// What happened to a message says what it is about: the clusters of a route
/// in their order, and what came of an attempt.
pub proof fn events_say_what_they_hold(f: ForwardEvent, t: RetryEvent)
    ensures
        f matches ForwardEvent::Routed(None) ==> f@ == ForwardEventView::Routed(None),
        f matches ForwardEvent::Routed(Some(route)) ==> f@ == ForwardEventView::Routed(
            Some(clusters_of(route.cluster_name@, route.fallback@)),
        ),
        f matches ForwardEvent::Attempted(outcome) ==> f@ is Attempted && (outcome is Ok <==> f@
            ->Attempted_0 is Ok),
        f matches ForwardEvent::RetryAllowed(b) ==> f@ == ForwardEventView::RetryAllowed(b),
        t matches RetryEvent::Current(None) ==> t@ == RetryEventView::Current(None),
        t matches RetryEvent::Current(Some(m)) ==> t@ == RetryEventView::Current(
            Some((m.state, m.attempts, m.expired)),
        ),
        t matches RetryEvent::Routed(None) ==> t@ == RetryEventView::Routed(None),
        t matches RetryEvent::Routed(Some(route)) ==> t@ == RetryEventView::Routed(
            Some(clusters_of(route.cluster_name@, route.fallback@)),
        ),
        t matches RetryEvent::Attempted(Ok(id)) ==> t@ == RetryEventView::Attempted(Some(id@)),
        t matches RetryEvent::Attempted(Err(e)) ==> t@ == RetryEventView::Attempted(None),
{
}

} // verus!
