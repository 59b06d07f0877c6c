//! Requests and responses of the filter chain.

use crate::collections::StringMap;
use crate::pdu::{Pdu, Status};
use crate::text::opt_text;
use crate::time::{Clock, Duration};
use vstd::prelude::*;

verus! {

/// What is known of a request besides its unit.
#[derive(Debug)]
pub struct RequestMeta {
    /// The clock that was started when the request came in.
    pub start_time: Option<Clock>,
    /// System ID of the client.
    pub system_id: Option<String>,
    /// Source address.
    pub source_addr: Option<String>,
    /// Custom attributes.
    pub attributes: StringMap<String>,
}

impl Default for RequestMeta {
    fn default() -> (m: Self)
        ensures
            m.start_time is None,
            m.system_id is None,
            m.source_addr is None,
            m.attributes@ == Map::<Seq<char>, String>::empty(),
    {
        RequestMeta {
            start_time: None,
            system_id: None,
            source_addr: None,
            attributes: StringMap::new(),
        }
    }
}

impl RequestMeta {
    /// Metadata of a request that comes in now.
    pub fn new() -> (m: Self)
        ensures
            m.start_time is Some,
            m.system_id is None,
            m.source_addr is None,
            m.attributes@ == Map::<Seq<char>, String>::empty(),
    {
        RequestMeta {
            start_time: Some(Clock::new()),
            system_id: None,
            source_addr: None,
            attributes: StringMap::new(),
        }
    }

    /// Sets the system ID.
    pub fn with_system_id(self, system_id: &str) -> (m: Self)
        ensures
            opt_text(m.system_id) == Some(system_id@),
            m.start_time == self.start_time,
            m.source_addr == self.source_addr,
            m.attributes == self.attributes,
    {
        RequestMeta { system_id: Some(system_id.to_owned()), ..self }
    }

    /// Sets the source address.
    pub fn with_source_addr(self, source_addr: &str) -> (m: Self)
        ensures
            opt_text(m.source_addr) == Some(source_addr@),
            m.start_time == self.start_time,
            m.system_id == self.system_id,
            m.attributes == self.attributes,
    {
        RequestMeta { source_addr: Some(source_addr.to_owned()), ..self }
    }

    /// Sets a custom attribute.
    pub fn set_attribute(&mut self, key: &str, value: &str)
        ensures
            final(self).start_time == old(self).start_time,
            final(self).system_id == old(self).system_id,
            final(self).source_addr == old(self).source_addr,
            final(self).attributes@.dom() == old(self).attributes@.dom().insert(key@),
            final(self).attributes@[key@]@ == value@,
            forall|k: Seq<char>|
                k != key@ && old(self).attributes@.dom().contains(k)
                    ==> #[trigger] final(self).attributes@[k] == old(self).attributes@[k],
    {
        self.attributes.insert(key.to_owned(), value.to_owned());
    }

    /// Gets a custom attribute.
    pub fn get_attribute(&self, key: &str) -> (value: Option<&str>)
        ensures
            match value {
                Some(v) => self.attributes@.dom().contains(key@) && v@ == self.attributes@[key@]@,
                None => !self.attributes@.dom().contains(key@),
            },
    {
        match self.attributes.get(key) {
            Some(v) => Some(v.as_str()),
            None => None,
        }
    }

    /// The time since the request came in. How long that is rests on the
    /// machine's clock.
    pub fn elapsed(&self) -> (d: Option<Duration>)
        ensures
            d is Some <==> self.start_time is Some,
    {
        match &self.start_time {
            Some(clock) => {
                let now = clock.now();
                Some(Duration::from_nanos(now.nanos))
            },
            None => None,
        }
    }
}

/// A request on its way through the filters.
#[derive(Debug)]
pub struct SmppRequest {
    /// The unit being processed.
    pub pdu: Pdu,
    /// Sequence number.
    pub sequence: u32,
    /// Request metadata.
    pub meta: RequestMeta,
}

impl SmppRequest {
    /// A request that comes in now.
    pub fn new(pdu: Pdu, sequence: u32) -> (r: Self)
        ensures
            r.pdu == pdu,
            r.sequence == sequence,
            r.meta.start_time is Some,
            r.meta.system_id is None,
            r.meta.source_addr is None,
            r.meta.attributes@ == Map::<Seq<char>, String>::empty(),
    {
        SmppRequest { pdu, sequence, meta: RequestMeta::new() }
    }

    /// A request with given metadata.
    pub fn with_meta(pdu: Pdu, sequence: u32, meta: RequestMeta) -> (r: Self)
        ensures
            r == (SmppRequest { pdu, sequence, meta }),
    {
        SmppRequest { pdu, sequence, meta }
    }

    /// The destination address of a submitted message.
    pub fn destination(&self) -> (a: Option<&str>)
        ensures
            match self.pdu {
                Pdu::SubmitSm(sm) => a matches Some(x) && x@ == sm.dest_addr@,
                _ => a is None,
            },
    {
        match &self.pdu {
            Pdu::SubmitSm(sm) => Some(sm.dest_addr.as_str()),
            _ => None,
        }
    }

    /// The source address of a submitted message.
    pub fn source(&self) -> (a: Option<&str>)
        ensures
            match self.pdu {
                Pdu::SubmitSm(sm) => a matches Some(x) && x@ == sm.source_addr@,
                _ => a is None,
            },
    {
        match &self.pdu {
            Pdu::SubmitSm(sm) => Some(sm.source_addr.as_str()),
            _ => None,
        }
    }

    /// The content of a submitted message.
    pub fn message(&self) -> (m: Option<&[u8]>)
        ensures
            match self.pdu {
                Pdu::SubmitSm(sm) => m matches Some(x) && x@ == sm.short_message@,
                _ => m is None,
            },
    {
        match &self.pdu {
            Pdu::SubmitSm(sm) => Some(sm.short_message.as_slice()),
            _ => None,
        }
    }
}

/// What a filter makes of a request.
#[derive(Debug)]
pub enum SmppResponse {
    /// Pass the request on.
    Continue(SmppRequest),
    /// Reject the request with a status.
    Reject { sequence: u32, status: Status, reason: Option<String> },
    /// Answer the request without passing it on.
    Success { sequence: u32, pdu: Pdu },
}

impl SmppResponse {
    /// Passes the request on.
    pub fn continue_with(request: SmppRequest) -> (r: Self)
        ensures
            r == SmppResponse::Continue(request),
    {
        SmppResponse::Continue(request)
    }

    /// Rejects the request.
    pub fn reject(sequence: u32, status: Status) -> (r: Self)
        ensures
            r == (SmppResponse::Reject { sequence, status, reason: None }),
    {
        SmppResponse::Reject { sequence, status, reason: None }
    }

    /// Rejects the request and says why.
    pub fn reject_with_reason(sequence: u32, status: Status, reason: &str) -> (r: Self)
        ensures
            r matches SmppResponse::Reject { sequence: q, status: s, reason: why } && q == sequence
                && s == status && opt_text(why) == Some(reason@),
    {
        SmppResponse::Reject { sequence, status, reason: Some(reason.to_owned()) }
    }

    /// Whether the request is passed on.
    pub fn is_continue(&self) -> (b: bool)
        ensures
            b == (self is Continue),
    {
        matches!(self, SmppResponse::Continue(_))
    }

    /// Whether the request is rejected.
    pub fn is_reject(&self) -> (b: bool)
        ensures
            b == (self is Reject),
    {
        matches!(self, SmppResponse::Reject { .. })
    }
}

} // verus!
