//! The last stage: answers on their way to the sessions.

use crate::bootstrap::events::{Event, ResponseEnvelope};
use vstd::prelude::*;

verus! {

/// Picks the answers out of the events.
#[derive(Debug, Clone, Copy, PartialEq, Eq, Structural)]
pub struct ResponseProcessor;

impl ResponseProcessor {
    /// A processor.
    pub fn new() -> (p: Self)
        ensures
            p == ResponseProcessor,
    {
        ResponseProcessor
    }

    /// The answer that an event carries; every other event is ignored.
    pub fn response_of(&self, event: &Event) -> (response: Option<ResponseEnvelope>)
        ensures
            response == match event {
                Event::ResponseReady(r) => Some(*r),
                _ => None,
            },
    {
        match event {
            Event::ResponseReady(r) => Some(r.copy()),
            _ => None,
        }
    }
}

} // verus!
