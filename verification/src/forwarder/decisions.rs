//! What the forwarder notes of its decisions.

use crate::bootstrap::events::IdSource;
use crate::collections::texts;
use crate::feedback::types::{
    next_of, ContextView, Decision, DecisionContext, DecisionId, DecisionType, Outcome,
};
use crate::filter::auth::copy_texts;
use crate::forwarder::processor::{
    forward_step, ForwardAction, ForwardActionView, ForwardEventView, ForwardPhase, ForwardingView,
};
use crate::forwarder::retry::{
    retry_step, RetryAction, RetryActionView, RetryEventView, RetryPhase, RetryingView,
};
use crate::forwarder::store::{RouteResult, StoreUpdate, StoreUpdateView};
use crate::text::opt_text;
use crate::time::{Duration, Instant};
use vstd::prelude::*;

verus! {

/// What is known of a message that was routed.
pub open spec fn routed_context(
    destination: Seq<char>,
    source: Seq<char>,
    route_name: Seq<char>,
) -> ContextView {
    ContextView {
        destination: Some(destination),
        source: Some(source),
        sender_id: None,
        system_id: None,
        route_name: Some(route_name),
        cluster_name: None,
        attempt: None,
        fallback_from: None,
    }
}

fn context_of(destination: &str, source: &str, route: &RouteResult) -> (c: DecisionContext)
    ensures
        c@ == routed_context(destination@, source@, route.route_name@),
{
    DecisionContext::new(destination).with_source(source).with_route(route.route_name.as_str())
}

/// The decision on where a message goes.
pub fn route_decision(
    ids: &mut IdSource,
    destination: &str,
    source: &str,
    route: &RouteResult,
    now: &Instant,
) -> (d: Decision)
    ensures
        d.id.value() == old(ids).upcoming(),
        next_of(*old(ids), *final(ids)),
        d.decision_type == DecisionType::Route,
        d.target@ == route.cluster_name@,
        texts(d.alternatives@) == texts(route.fallback@),
        d.context@ == routed_context(destination@, source@, route.route_name@),
        d.timestamp == *now,
{
    let context = context_of(destination, source, route);
    let alternatives = copy_texts(&route.fallback);
    Decision::route(ids, route.cluster_name.as_str(), alternatives, context, now)
}

/// The decision to try a message again, for the `attempt`-th time.
pub fn retry_decision(
    ids: &mut IdSource,
    destination: &str,
    source: &str,
    route: &RouteResult,
    attempt: u32,
    now: &Instant,
) -> (d: Decision)
    ensures
        d.id.value() == old(ids).upcoming(),
        next_of(*old(ids), *final(ids)),
        d.decision_type == DecisionType::Retry,
        d.target@ == route.cluster_name@,
        d.alternatives@.len() == 0,
        d.context@ == (ContextView {
            attempt: Some(attempt),
            ..routed_context(destination@, source@, route.route_name@)
        }),
        d.timestamp == *now,
{
    let context = context_of(destination, source, route);
    Decision::retry(ids, route.cluster_name.as_str(), attempt, context, now)
}

/// What came of a decision: whether it was a success, and the status and the
/// text of a failure.
pub open spec fn outcome_facts(o: Outcome) -> (bool, Option<u32>, Option<Seq<char>>) {
    (o.success, o.error_code, opt_text(o.error_message))
}

/// What an action says of the decision on a route.
pub open spec fn settled_by(action: ForwardActionView) -> Option<
    (bool, Option<u32>, Option<Seq<char>>),
> {
    match action {
        ForwardActionView::Finish { update: StoreUpdateView::InFlight { .. }, .. } => Some(
            (true, None, None),
        ),
        ForwardActionView::AskRetry { code, reason } => Some((false, Some(code), Some(reason))),
        _ => None,
    }
}

/// What an action says of the decision to try again.
pub open spec fn retry_settled_by(action: RetryActionView) -> Option<
    (bool, Option<u32>, Option<Seq<char>>),
> {
    match action {
        RetryActionView::Finish(StoreUpdateView::InFlight { .. }) => Some((true, None, None)),
        RetryActionView::Finish(StoreUpdateView::Retry { code, reason, .. }) => Some(
            (false, Some(code), Some(reason)),
        ),
        _ => None,
    }
}

/// An outcome, or none, is what an action says of a decision.
pub open spec fn is_outcome(
    o: Option<Outcome>,
    facts: Option<(bool, Option<u32>, Option<Seq<char>>)>,
    id: DecisionId,
    latency: Duration,
    now: Instant,
) -> bool {
    match o {
        None => facts is None,
        Some(x) => facts == Some(outcome_facts(x)) && x.decision_id == id && x.latency == latency
            && x.timestamp == now,
    }
}

/// What an action says of the decision on the route.
pub fn forward_outcome(
    id: DecisionId,
    action: &ForwardAction,
    latency: Duration,
    now: &Instant,
) -> (o: Option<Outcome>)
    ensures
        is_outcome(o, settled_by(action@), id, latency, *now),
{
    match action {
        ForwardAction::Finish { update: StoreUpdate::InFlight { .. }, .. } => Some(
            Outcome::success(id, latency, now),
        ),
        ForwardAction::AskRetry { code, reason } => Some(
            Outcome::failure(id, latency, Some(*code), Some(reason.clone()), now),
        ),
        _ => None,
    }
}

/// What an action says of the decision to try again.
pub fn retry_outcome(
    id: DecisionId,
    action: &RetryAction,
    latency: Duration,
    now: &Instant,
) -> (o: Option<Outcome>)
    ensures
        is_outcome(o, retry_settled_by(action@), id, latency, *now),
{
    match action {
        RetryAction::Finish(StoreUpdate::InFlight { .. }) => Some(
            Outcome::success(id, latency, now),
        ),
        RetryAction::Finish(StoreUpdate::Retry { code, reason, .. }) => Some(
            Outcome::failure(id, latency, Some(*code), Some(reason.clone()), now),
        ),
        _ => None,
    }
}

/// The decision on a route is settled exactly once: when the last cluster was
/// tried or one took the message.
pub proof fn routes_are_settled_once(f: ForwardingView, event: ForwardEventView)
    ensures
        ({
            let (after, action) = forward_step(f, event);
            settled_by(action) is Some <==> f.phase == ForwardPhase::Trying && after.phase
                != ForwardPhase::Trying
        }),
        forward_step(f, event).0.phase == ForwardPhase::Trying ==> f.phase
            == ForwardPhase::Trying || f.phase == ForwardPhase::Routing,
{
}

/// The decision to try again is settled exactly once: when the last cluster
/// was tried or one took the message.
pub proof fn retries_are_settled_once(
    r: RetryingView,
    event: RetryEventView,
    base: nat,
    max: nat,
)
    ensures
        ({
            let (after, action) = retry_step(r, event, base, max);
            retry_settled_by(action) is Some <==> r.phase == RetryPhase::Trying && after.phase
                != RetryPhase::Trying
        }),
        retry_step(r, event, base, max).0.phase == RetryPhase::Trying ==> r.phase
            == RetryPhase::Trying || r.phase == RetryPhase::Routing,
{
}

} // verus!
