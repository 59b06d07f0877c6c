//! What the rule engine knows of a message, and what it answers.

use super::types::{LogLevel, RateKey};
use crate::collections::StringMap;
use crate::net::{ip_text, IpAddr};
use crate::text::opt_text;
use crate::time::{utc_now, Duration, UtcTime};
use vstd::prelude::*;
use vstd::utf8::encode_utf8;

verus! {

/// A message under evaluation.
#[derive(Debug)]
pub struct EvaluationContext {
    /// Source address.
    pub source: String,
    /// Destination address.
    pub destination: String,
    /// Sender ID.
    pub sender_id: Option<String>,
    /// System ID of the bound ESME.
    pub system_id: String,
    /// Message content.
    pub content: String,
    /// Content length in bytes.
    pub content_length: usize,
    /// ESM class.
    pub esm_class: u8,
    /// Protocol ID.
    pub protocol_id: u8,
    /// Data coding scheme.
    pub data_coding: u8,
    /// Client address.
    pub client_ip: Option<IpAddr>,
    /// Whether the connection uses TLS.
    pub tls_enabled: bool,
    /// Service type.
    pub service_type: Option<String>,
    /// Message priority.
    pub priority: i32,
    /// Custom metadata.
    pub metadata: StringMap<String>,
    /// When the message was received.
    pub timestamp: UtcTime,
}

/// The value that a rate limit counts a message under.
pub open spec fn rate_value(ctx: EvaluationContext, key: RateKey) -> Seq<char> {
    match key {
        RateKey::SystemId => ctx.system_id@,
        RateKey::Source => ctx.source@,
        RateKey::Destination => ctx.destination@,
        RateKey::ClientIp => match ctx.client_ip {
            Some(ip) => ip_text(ip),
            None => Seq::empty(),
        },
        RateKey::SenderId => match ctx.sender_id {
            Some(s) => s@,
            None => ctx.source@,
        },
    }
}

impl EvaluationContext {
    /// A message received at a moment, with everything else at its default.
    pub fn received_at(
        source: &str,
        destination: &str,
        system_id: &str,
        content: &str,
        at: UtcTime,
    ) -> (c: Self)
        ensures
            c.fresh(source@, destination@, system_id@, content@),
            c.timestamp == at,
    {
        EvaluationContext {
            source: source.to_owned(),
            destination: destination.to_owned(),
            sender_id: None,
            system_id: system_id.to_owned(),
            content: content.to_owned(),
            content_length: content.as_bytes().len(),
            esm_class: 0,
            protocol_id: 0,
            data_coding: 0,
            client_ip: None,
            tls_enabled: false,
            service_type: None,
            priority: 0,
            metadata: StringMap::new(),
            timestamp: at,
        }
    }

    /// A message of which only the addresses, the client and the content are
    /// known.
    pub open spec fn fresh(
        self,
        source: Seq<char>,
        destination: Seq<char>,
        system_id: Seq<char>,
        content: Seq<char>,
    ) -> bool {
        &&& self.source@ == source
        &&& self.destination@ == destination
        &&& self.sender_id is None
        &&& self.system_id@ == system_id
        &&& self.content@ == content
        &&& self.content_length == encode_utf8(content).len()
        &&& self.esm_class == 0
        &&& self.protocol_id == 0
        &&& self.data_coding == 0
        &&& self.client_ip is None
        &&& !self.tls_enabled
        &&& self.service_type is None
        &&& self.priority == 0
        &&& self.metadata@ == Map::<Seq<char>, String>::empty()
    }

    /// A message received now.
    pub fn new(source: &str, destination: &str, system_id: &str, content: &str) -> (c: Self)
        ensures
            c.fresh(source@, destination@, system_id@, content@),
    {
        let now = utc_now();
        EvaluationContext::received_at(source, destination, system_id, content, now)
    }

    /// Sets the sender ID.
    pub fn with_sender_id(self, sender_id: &str) -> (c: Self)
        ensures
            opt_text(c.sender_id) == Some(sender_id@),
            c == (EvaluationContext { sender_id: c.sender_id, ..self }),
    {
        EvaluationContext { sender_id: Some(sender_id.to_owned()), ..self }
    }

    /// Sets the ESM class.
    pub fn with_esm_class(self, esm_class: u8) -> (c: Self)
        ensures
            c == (EvaluationContext { esm_class, ..self }),
    {
        EvaluationContext { esm_class, ..self }
    }

    /// Sets the protocol ID.
    pub fn with_protocol_id(self, protocol_id: u8) -> (c: Self)
        ensures
            c == (EvaluationContext { protocol_id, ..self }),
    {
        EvaluationContext { protocol_id, ..self }
    }

    /// Sets the data coding.
    pub fn with_data_coding(self, data_coding: u8) -> (c: Self)
        ensures
            c == (EvaluationContext { data_coding, ..self }),
    {
        EvaluationContext { data_coding, ..self }
    }

    /// Sets the client address.
    pub fn with_client_ip(self, ip: IpAddr) -> (c: Self)
        ensures
            c == (EvaluationContext { client_ip: Some(ip), ..self }),
    {
        EvaluationContext { client_ip: Some(ip), ..self }
    }

    /// Sets whether the connection uses TLS.
    pub fn with_tls(self, enabled: bool) -> (c: Self)
        ensures
            c == (EvaluationContext { tls_enabled: enabled, ..self }),
    {
        EvaluationContext { tls_enabled: enabled, ..self }
    }

    /// Sets the service type.
    pub fn with_service_type(self, service_type: &str) -> (c: Self)
        ensures
            opt_text(c.service_type) == Some(service_type@),
            c == (EvaluationContext { service_type: c.service_type, ..self }),
    {
        EvaluationContext { service_type: Some(service_type.to_owned()), ..self }
    }

    /// Sets the priority.
    pub fn with_priority(self, priority: i32) -> (c: Self)
        ensures
            c == (EvaluationContext { priority, ..self }),
    {
        EvaluationContext { priority, ..self }
    }

    /// Adds metadata.
    pub fn with_metadata(self, key: &str, value: &str) -> (c: Self)
        ensures
            c == (EvaluationContext { metadata: c.metadata, ..self }),
            c.metadata@.dom() == self.metadata@.dom().insert(key@),
            c.metadata@[key@]@ == value@,
            forall|k: Seq<char>|
                k != key@ && self.metadata@.dom().contains(k) ==> #[trigger] c.metadata@[k]
                    == self.metadata@[k],
    {
        let mut c = self;
        c.metadata.insert(key.to_owned(), value.to_owned());
        c
    }

    /// The value that a rate limit counts the message under.
    pub fn get_rate_key(&self, key: &RateKey) -> (v: String)
        ensures
            v@ == rate_value(*self, *key),
    {
        match key {
            RateKey::SystemId => self.system_id.clone(),
            RateKey::Source => self.source.clone(),
            RateKey::Destination => self.destination.clone(),
            RateKey::ClientIp => match &self.client_ip {
                Some(ip) => ip.to_text(),
                None => String::new(),
            },
            RateKey::SenderId => match &self.sender_id {
                Some(s) => s.clone(),
                None => self.source.clone(),
            },
        }
    }
}

/// The answer of the rule engine.
#[derive(Debug)]
pub enum EvaluationResult {
    /// Accept the message.
    Accept,
    /// Drop it silently.
    Drop,
    /// Reject it with a status.
    Reject { status: u32, reason: Option<String> },
    /// Keep it for review.
    Quarantine,
    /// Modify it.
    Modify { source: Option<String>, destination: Option<String>, content: Option<String> },
    /// Go on with the next chain.
    Continue,
}

/// What an answer says.
#[verifier::ext_equal]
pub enum EvaluationResultView {
    Accept,
    Drop,
    Reject { status: u32, reason: Option<Seq<char>> },
    Quarantine,
    Modify {
        source: Option<Seq<char>>,
        destination: Option<Seq<char>>,
        content: Option<Seq<char>>,
    },
    Continue,
}

impl View for EvaluationResult {
    type V = EvaluationResultView;

    open spec fn view(&self) -> EvaluationResultView {
        match self {
            EvaluationResult::Accept => EvaluationResultView::Accept,
            EvaluationResult::Drop => EvaluationResultView::Drop,
            EvaluationResult::Reject { status, reason } => EvaluationResultView::Reject {
                status: *status,
                reason: opt_text(*reason),
            },
            EvaluationResult::Quarantine => EvaluationResultView::Quarantine,
            EvaluationResult::Modify { source, destination, content } => {
                EvaluationResultView::Modify {
                    source: opt_text(*source),
                    destination: opt_text(*destination),
                    content: opt_text(*content),
                }
            },
            EvaluationResult::Continue => EvaluationResultView::Continue,
        }
    }
}

/// What an action asks for beside its answer. The caller sees to it.
#[derive(Debug)]
pub enum Effect {
    /// Write a line to the log.
    Log { level: LogLevel, text: String },
    /// Change fields of the message.
    Modify { source: Option<String>, destination: Option<String>, content: Option<String> },
    /// Wait before the message is processed.
    Delay { duration: Duration },
    /// Set metadata of the message.
    Mark { key: String, value: String },
}

/// What an effect says.
#[verifier::ext_equal]
pub enum EffectView {
    Log { level: LogLevel, text: Seq<char> },
    Modify {
        source: Option<Seq<char>>,
        destination: Option<Seq<char>>,
        content: Option<Seq<char>>,
    },
    /// The time to wait in nanoseconds.
    Delay { duration: nat },
    Mark { key: Seq<char>, value: Seq<char> },
}

impl View for Effect {
    type V = EffectView;

    open spec fn view(&self) -> EffectView {
        match self {
            Effect::Log { level, text } => EffectView::Log { level: *level, text: text@ },
            Effect::Modify { source, destination, content } => EffectView::Modify {
                source: opt_text(*source),
                destination: opt_text(*destination),
                content: opt_text(*content),
            },
            Effect::Delay { duration } => EffectView::Delay { duration: duration@ },
            Effect::Mark { key, value } => EffectView::Mark { key: key@, value: value@ },
        }
    }
}

/// What effects say.
pub open spec fn effect_views(effects: Seq<Effect>) -> Seq<EffectView> {
    effects.map_values(|e: Effect| e@)
}

/// An answer that ends the evaluation.
pub open spec fn terminal(r: EvaluationResultView) -> bool {
    !(r is Continue) && !(r is Modify)
}

impl EvaluationResult {
    /// Whether the answer ends the evaluation.
    pub fn is_terminal(&self) -> (b: bool)
        ensures
            b == terminal(self@),
    {
        match self {
            EvaluationResult::Continue => false,
            EvaluationResult::Modify { .. } => false,
            _ => true,
        }
    }
}

} // verus!
