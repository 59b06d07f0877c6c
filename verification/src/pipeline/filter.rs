//! The first stage: which messages are accepted.

use crate::bootstrap::events::{Event, MessageEnvelope, ResponseEnvelope};
use crate::text::is_blank;
use vstd::prelude::*;

verus! {

/// Status of a message with an invalid destination.
pub const INVALID_DESTINATION: u32 = 0x0000000B;

/// Status of a message with an invalid source.
pub const INVALID_SOURCE: u32 = 0x0000000A;

/// Why a message is rejected, and with which status.
pub open spec fn rejection(envelope: MessageEnvelope) -> Option<(Seq<char>, u32)> {
    if envelope.submit_sm.dest_addr@.len() == 0 {
        Some(("empty destination address"@, INVALID_DESTINATION))
    } else if envelope.submit_sm.source_addr@.len() == 0 {
        Some(("empty source address"@, INVALID_SOURCE))
    } else {
        None
    }
}

/// An event that answers the client of a message with an error.
pub open spec fn answers_error(
    event: Event,
    envelope: MessageEnvelope,
    shown: Seq<char>,
    status: u32,
) -> bool {
    &&& event matches Event::ResponseReady(response)
    &&& response.session_id == envelope.session_id
    &&& response.sequence_number == envelope.sequence_number
    &&& response.message_id@ == shown
    &&& response.command_status == status
}

/// The events that a message leads to.
pub open spec fn filtered(envelope: MessageEnvelope, shown: Seq<char>, events: Seq<Event>) -> bool {
    match rejection(envelope) {
        None => events == seq![Event::MessageAccepted { envelope }],
        Some((reason, status)) => {
            &&& events.len() == 2
            &&& events[0] matches Event::MessageRejected {
                envelope: rejected,
                reason: said,
                status: code,
            }
            &&& rejected == envelope
            &&& said@ == reason
            &&& code == status
            &&& answers_error(events[1], envelope, shown, status)
        },
    }
}

/// Decides which messages are accepted.
#[derive(Debug, Clone, Copy, PartialEq, Eq, Structural)]
pub struct FilterProcessor;

impl FilterProcessor {
    /// A processor.
    pub fn new() -> (p: Self)
        ensures
            p == FilterProcessor,
    {
        FilterProcessor
    }

    /// The events that a submitted message leads to. The text of its ID is
    /// handed in.
    pub fn process_message(&self, envelope: MessageEnvelope, shown: String) -> (events: Vec<Event>)
        ensures
            filtered(envelope, shown@, events@),
    {
        if is_blank(envelope.submit_sm.dest_addr.as_str()) {
            return self.reject_message(
                envelope,
                "empty destination address".to_string(),
                INVALID_DESTINATION,
                shown,
            );
        }
        if is_blank(envelope.submit_sm.source_addr.as_str()) {
            return self.reject_message(
                envelope,
                "empty source address".to_string(),
                INVALID_SOURCE,
                shown,
            );
        }
        let mut events: Vec<Event> = Vec::new();
        events.push(Event::MessageAccepted { envelope });
        assert(events@ =~= seq![Event::MessageAccepted { envelope }]);
        events
    }

    fn reject_message(
        &self,
        envelope: MessageEnvelope,
        reason: String,
        status: u32,
        shown: String,
    ) -> (events: Vec<Event>)
        ensures
            events@.len() == 2,
            events@[0] == (Event::MessageRejected { envelope, reason, status }),
            answers_error(events@[1], envelope, shown@, status),
    {
        let response = ResponseEnvelope::error(
            envelope.session_id,
            envelope.sequence_number,
            shown,
            status,
        );
        let mut events: Vec<Event> = Vec::new();
        events.push(Event::MessageRejected { envelope, reason, status });
        events.push(Event::ResponseReady(response));
        events
    }
}

/// A message with a source and a destination is accepted, and any other is
/// answered with an error.
pub proof fn messages_need_addresses(
    envelope: MessageEnvelope,
    shown: Seq<char>,
    events: Seq<Event>,
)
    requires
        filtered(envelope, shown, events),
    ensures
        envelope.submit_sm.source_addr@.len() > 0 && envelope.submit_sm.dest_addr@.len() > 0
            <==> events.len() == 1,
        events.len() == 1 ==> events[0] == (Event::MessageAccepted { envelope }),
        events.len() != 1 ==> exists|status: u32|
            status != 0 && #[trigger] answers_error(events[1], envelope, shown, status),
{
}

} // verus!
