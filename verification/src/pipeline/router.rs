//! The second stage: where messages go.

use crate::bootstrap::events::{Event, MessageEnvelope, ResponseEnvelope};
use crate::forwarder::processor::NO_ROUTE;
use crate::forwarder::store::{NewMessage, RouteResult, StoreUpdate, StoreUpdateView};
use crate::pipeline::filter::answers_error;
use vstd::prelude::*;

verus! {

/// An event that says that a message failed for good.
pub open spec fn says_failed(
    event: Event,
    envelope: MessageEnvelope,
    code: u32,
    why: Seq<char>,
) -> bool {
    &&& event matches Event::MessageFailed {
        message_id,
        session_id,
        sequence_number,
        error_code,
        reason,
        permanent,
    }
    &&& message_id == envelope.message_id
    &&& session_id == envelope.session_id
    &&& sequence_number == envelope.sequence_number
    &&& error_code == Some(code)
    &&& reason@ == why
    &&& permanent
}

/// The change and the events that an answer of the router leads to.
pub open spec fn routed(
    envelope: MessageEnvelope,
    route: Option<RouteResult>,
    shown: Seq<char>,
    update: Option<StoreUpdate>,
    events: Seq<Event>,
) -> bool {
    match route {
        Some(r) => {
            &&& update is None
            &&& events == seq![
                Event::MessageRouted {
                    envelope,
                    route_name: r.route_name,
                    cluster_name: r.cluster_name,
                    fallback_clusters: r.fallback,
                },
            ]
        },
        None => {
            &&& update matches Some(u)
            &&& u@ == (StoreUpdateView::Failed { code: NO_ROUTE, reason: "no route found"@ })
            &&& events.len() == 2
            &&& says_failed(events[0], envelope, NO_ROUTE, "no route found"@)
            &&& answers_error(events[1], envelope, shown, NO_ROUTE)
        },
    }
}

/// Decides where messages go.
#[derive(Debug, Clone, Copy, PartialEq, Eq, Structural)]
pub struct RouterProcessor;

impl RouterProcessor {
    /// A processor.
    pub fn new() -> (p: Self)
        ensures
            p == RouterProcessor,
    {
        RouterProcessor
    }

    /// What is stored of an accepted message.
    pub fn message_to_store(&self, envelope: &MessageEnvelope) -> (m: NewMessage)
        ensures
            m.source@ == envelope.submit_sm.source_addr@,
            m.destination@ == envelope.submit_sm.dest_addr@,
            m.short_message@ == envelope.submit_sm.short_message@,
            m.system_id@ == envelope.system_id@,
            m.sequence_number == envelope.sequence_number,
            m.data_coding == envelope.submit_sm.data_coding,
            m.esm_class == envelope.submit_sm.esm_class,
            m.registered_delivery == envelope.submit_sm.registered_delivery,
    {
        NewMessage::from_submit(
            &envelope.submit_sm,
            envelope.system_id.as_str(),
            envelope.sequence_number,
        )
    }

    /// The change to the stored message and the events that the router's
    /// answer leads to. The text of the message's ID is handed in.
    pub fn route_message(
        &self,
        envelope: MessageEnvelope,
        route: Option<RouteResult>,
        shown: String,
    ) -> (r: (Option<StoreUpdate>, Vec<Event>))
        ensures
            routed(envelope, route, shown@, r.0, r.1@),
    {
        let mut events: Vec<Event> = Vec::new();
        match route {
            Some(result) => {
                events.push(
                    Event::MessageRouted {
                        envelope,
                        route_name: result.route_name,
                        cluster_name: result.cluster_name,
                        fallback_clusters: result.fallback,
                    },
                );
                assert(events@ =~= seq![
                    Event::MessageRouted {
                        envelope,
                        route_name: result.route_name,
                        cluster_name: result.cluster_name,
                        fallback_clusters: result.fallback,
                    },
                ]);
                (None, events)
            },
            None => {
                events.push(
                    Event::MessageFailed {
                        message_id: envelope.message_id,
                        session_id: envelope.session_id,
                        sequence_number: envelope.sequence_number,
                        error_code: Some(NO_ROUTE),
                        reason: "no route found".to_string(),
                        permanent: true,
                    },
                );
                events.push(
                    Event::ResponseReady(
                        ResponseEnvelope::error(
                            envelope.session_id,
                            envelope.sequence_number,
                            shown,
                            NO_ROUTE,
                        ),
                    ),
                );
                (
                    Some(
                        StoreUpdate::Failed {
                            code: NO_ROUTE,
                            reason: "no route found".to_string(),
                        },
                    ),
                    events,
                )
            },
        }
    }
}

} // verus!
