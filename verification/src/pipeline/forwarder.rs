//! The third stage: messages on their way upstream.

use crate::bootstrap::events::{Event, MessageId, ResponseEnvelope, SessionId};
use crate::collections::texts;
use crate::forwarder::processor::{Reach, SendOutcome, NOT_FORWARDED};
use crate::forwarder::store::{clusters_of, clusters_to_try, StoreUpdate, StoreUpdateView};
use crate::text::{decimal, number};
use crate::time::Duration;
use vstd::prelude::*;

verus! {

/// What went wrong in an attempt: a status, where there is one, and a text.
#[derive(Debug)]
pub struct AttemptError {
    pub code: Option<u32>,
    pub message: String,
}

/// The outcome of an attempt: a message ID, or a status and a text.
pub open spec fn attempt_view(r: Result<String, AttemptError>) -> Result<
    Seq<char>,
    (Option<u32>, Seq<char>),
> {
    match r {
        Ok(id) => Ok(id@),
        Err(e) => Err((e.code, e.message@)),
    }
}

/// What is known of an attempt before anything is sent.
pub open spec fn forward_begun(
    reach: Reach,
    cluster: Seq<char>,
    message_id: Seq<char>,
    outcome: Option<Result<String, AttemptError>>,
) -> bool {
    match reach {
        Reach::NotFound => outcome is Some && attempt_view(outcome->0) == Err::<
            Seq<char>,
            (Option<u32>, Seq<char>),
        >((None, "cluster not found: "@ + cluster)),
        Reach::Mock => outcome is Some && attempt_view(outcome->0) == Ok::<
            Seq<char>,
            (Option<u32>, Seq<char>),
        >("MOCK-"@ + message_id),
        Reach::Endpoints => outcome is None,
    }
}

/// Starts an attempt. Without endpoints it is over at once; a mock takes every
/// message.
pub fn begin_forward(reach: Reach, cluster: &str, message_id: &str) -> (outcome: Option<
    Result<String, AttemptError>,
>)
    ensures
        forward_begun(reach, cluster@, message_id@, outcome),
{
    match reach {
        Reach::NotFound => {
            let mut message = "cluster not found: ".to_string();
            message.append(cluster);
            Some(Err(AttemptError { code: None, message }))
        },
        Reach::Mock => {
            let mut id = "MOCK-".to_string();
            id.append(message_id);
            Some(Ok(id))
        },
        Reach::Endpoints => None,
    }
}

/// The outcome of an attempt at an endpoint.
pub open spec fn sent_view(sent: SendOutcome) -> Result<Seq<char>, (Option<u32>, Seq<char>)> {
    match sent {
        SendOutcome::NoConnection => Err((None, "no healthy connection available"@)),
        SendOutcome::TimedOut => Err((Some(NOT_FORWARDED), "timeout waiting for response"@)),
        SendOutcome::Failed(error) => Err((None, "I/O error: "@ + error@)),
        SendOutcome::Response { status, message_id } => if status == 0 {
            Ok(message_id@)
        } else {
            Err((Some(status), "SMSC error: status="@ + decimal(status as nat)))
        },
        SendOutcome::Unexpected(what) => Err((None, "unexpected response: "@ + what@)),
    }
}

/// Ends an attempt at an endpoint.
pub fn finish_forward(sent: SendOutcome) -> (outcome: Result<String, AttemptError>)
    ensures
        attempt_view(outcome) == sent_view(sent),
{
    match sent {
        SendOutcome::NoConnection => Err(
            AttemptError { code: None, message: "no healthy connection available".to_string() },
        ),
        SendOutcome::TimedOut => Err(
            AttemptError {
                code: Some(NOT_FORWARDED),
                message: "timeout waiting for response".to_string(),
            },
        ),
        SendOutcome::Failed(error) => {
            let mut message = "I/O error: ".to_string();
            message.append(error.as_str());
            Err(AttemptError { code: None, message })
        },
        SendOutcome::Response { status, message_id } => {
            if status == 0 {
                Ok(message_id)
            } else {
                let mut message = "SMSC error: status=".to_string();
                let digits = number(status as u64);
                message.append(digits.as_str());
                Err(AttemptError { code: Some(status), message })
            }
        },
        SendOutcome::Unexpected(what) => {
            let mut message = "unexpected response: ".to_string();
            message.append(what.as_str());
            Err(AttemptError { code: None, message })
        },
    }
}

/// How far a message has come.
#[derive(Debug, Clone, Copy, PartialEq, Eq, Structural)]
pub enum StagePhase {
    /// A cluster is being tried.
    Trying,
    /// Every cluster failed, and the store says whether to try again later.
    AskingRetry,
    /// The client was answered.
    Done,
}

/// What is to be done next.
#[derive(Debug)]
pub enum NextStep {
    /// Try a cluster.
    Try(String),
    /// Ask the store whether the message may be tried again.
    AskRetry,
    /// Nothing.
    Nothing,
}

/// A message on its way upstream.
#[derive(Debug)]
pub struct ForwarderProcessor {
    message_id: MessageId,
    session_id: SessionId,
    sequence_number: u32,
    shown: String,
    clusters: Vec<String>,
    tried: usize,
    last_error: Option<String>,
    last_error_code: Option<u32>,
    phase: StagePhase,
}

/// A message on its way upstream.
#[verifier::ext_equal]
pub struct StageView {
    /// The message.
    pub message_id: MessageId,
    /// The session that submitted it.
    pub session_id: SessionId,
    /// Sequence number of the request.
    pub sequence_number: u32,
    /// Text of the message's ID.
    pub shown: Seq<char>,
    /// Clusters to try.
    pub clusters: Seq<Seq<char>>,
    /// How many of them have failed.
    pub tried: nat,
    /// Why the last one failed.
    pub last_error: Option<Seq<char>>,
    /// Status of the last failure.
    pub last_error_code: Option<u32>,
    /// How far it has come.
    pub phase: StagePhase,
}

impl View for ForwarderProcessor {
    type V = StageView;

    closed spec fn view(&self) -> StageView {
        StageView {
            message_id: self.message_id,
            session_id: self.session_id,
            sequence_number: self.sequence_number,
            shown: self.shown@,
            clusters: texts(self.clusters@),
            tried: self.tried as nat,
            last_error: crate::text::opt_text(self.last_error),
            last_error_code: self.last_error_code,
            phase: self.phase,
        }
    }
}

/// What comes out of a step: a change to the stored message, events, and what
/// is to be done next.
#[derive(Debug)]
pub struct StageOutput {
    pub update: Option<StoreUpdate>,
    pub events: Vec<Event>,
    pub next: NextStep,
}

/// An event that says that a cluster is tried.
pub open spec fn says_forwarding(event: Event, s: StageView) -> bool {
    &&& event matches Event::MessageForwarding { message_id, cluster, endpoint, attempt }
    &&& message_id == s.message_id
    &&& cluster@ == s.clusters[s.tried as int]
    &&& endpoint@ == "pending"@
    &&& attempt as nat == (s.tried + 1) % 0x1_0000_0000
}

/// A step leads to the next cluster.
pub open spec fn tries_next(s: StageView, out: StageOutput) -> bool {
    &&& out.update is None
    &&& out.events@.len() == 1
    &&& says_forwarding(out.events@[0], s)
    &&& out.next matches NextStep::Try(cluster)
    &&& cluster@ == s.clusters[s.tried as int]
}

/// An answer to the client of a message.
pub open spec fn answers(event: Event, s: StageView, id: Seq<char>, status: u32) -> bool {
    &&& event matches Event::ResponseReady(response)
    &&& response.session_id == s.session_id
    &&& response.sequence_number == s.sequence_number
    &&& response.message_id@ == id
    &&& response.command_status == status
}

/// The message after an attempt.
pub open spec fn after_attempt(
    s: StageView,
    outcome: Result<Seq<char>, (Option<u32>, Seq<char>)>,
) -> StageView {
    match outcome {
        Ok(_) => StageView { phase: StagePhase::Done, ..s },
        Err((code, error)) => {
            let failed = StageView {
                tried: s.tried + 1,
                last_error: Some(error),
                last_error_code: code,
                ..s
            };
            if failed.tried < s.clusters.len() {
                failed
            } else {
                StageView { phase: StagePhase::AskingRetry, ..failed }
            }
        },
    }
}

/// What comes out of an attempt.
pub open spec fn attempt_output(
    s: StageView,
    outcome: Result<Seq<char>, (Option<u32>, Seq<char>)>,
    latency_us: nat,
    out: StageOutput,
) -> bool {
    match outcome {
        Ok(id) => {
            &&& out.update matches Some(update)
            &&& update@ == (StoreUpdateView::InFlight {
                smsc_message_id: id,
                cluster: s.clusters[s.tried as int],
                endpoint: "upstream"@,
            })
            &&& out.events@.len() == 2
            &&& out.events@[0] matches Event::MessageDelivered {
                message_id,
                session_id,
                sequence_number,
                smsc_message_id,
                latency_us: taken,
            }
            &&& message_id == s.message_id
            &&& session_id == s.session_id
            &&& sequence_number == s.sequence_number
            &&& smsc_message_id@ == id
            &&& taken as nat == latency_us % 0x1_0000_0000_0000_0000
            &&& answers(out.events@[1], s, id, 0)
            &&& out.next is Nothing
        },
        Err(_) => if s.tried + 1 < s.clusters.len() {
            tries_next(after_attempt(s, outcome), out)
        } else {
            out.update is None && out.events@.len() == 0 && out.next is AskRetry
        },
    }
}

/// The reason that is kept when every cluster failed.
pub open spec fn kept_reason(s: StageView) -> Seq<char> {
    match s.last_error {
        Some(e) => e,
        None => "all clusters failed"@,
    }
}

/// The status that is kept when every cluster failed.
pub open spec fn kept_code(s: StageView) -> u32 {
    match s.last_error_code {
        Some(code) => code,
        None => NOT_FORWARDED,
    }
}

/// What comes out of the store's answer.
pub open spec fn retry_output(s: StageView, allowed: bool, out: StageOutput) -> bool {
    &&& out.events@.len() == 2
    &&& out.next is Nothing
    &&& out.update matches Some(update)
    &&& if allowed {
        &&& update@ == (StoreUpdateView::Retry {
            delay: 1_000_000_000,
            code: kept_code(s),
            reason: kept_reason(s),
        })
        &&& out.events@[0] matches Event::MessageRetryScheduled {
            message_id,
            attempt,
            delay_ms,
            reason,
        }
        &&& message_id == s.message_id
        &&& attempt == 1
        &&& delay_ms == 1000
        &&& reason@ == kept_reason(s)
        &&& answers(out.events@[1], s, s.shown, 0)
    } else {
        &&& update@ == (StoreUpdateView::Failed { code: kept_code(s), reason: kept_reason(s) })
        &&& out.events@[0] matches Event::MessageFailed {
            message_id,
            session_id,
            sequence_number,
            error_code,
            reason,
            permanent,
        }
        &&& message_id == s.message_id
        &&& session_id == s.session_id
        &&& sequence_number == s.sequence_number
        &&& error_code == Some(kept_code(s))
        &&& reason@ == kept_reason(s)
        &&& permanent
        &&& answers(out.events@[1], s, s.shown, kept_code(s))
    }
}

impl ForwarderProcessor {
    #[verifier::type_invariant]
    spec fn next_exists(self) -> bool {
        self.phase == StagePhase::Trying ==> self.tried < self.clusters@.len()
    }

    fn forwarding(&self) -> (out: StageOutput)
        requires
            self@.phase == StagePhase::Trying,
        ensures
            tries_next(self@, out),
    {
        proof {
            use_type_invariant(self);
        }
        let attempt: u32 = ((self.tried as u64 % 0x1_0000_0000u64 + 1) % 0x1_0000_0000u64) as u32;
        assert(attempt as nat == (self.tried as nat + 1) % 0x1_0000_0000);
        let mut events: Vec<Event> = Vec::new();
        events.push(
            Event::MessageForwarding {
                message_id: self.message_id,
                cluster: self.clusters[self.tried].clone(),
                endpoint: "pending".to_string(),
                attempt,
            },
        );
        StageOutput {
            update: None,
            events,
            next: NextStep::Try(self.clusters[self.tried].clone()),
        }
    }

    /// A routed message, on its way to the first cluster. The text of its ID
    /// is handed in.
    pub fn new(
        message_id: MessageId,
        session_id: SessionId,
        sequence_number: u32,
        shown: String,
        cluster: &str,
        fallback: &Vec<String>,
    ) -> (r: (Self, StageOutput))
        ensures
            r.0@ == (StageView {
                message_id,
                session_id,
                sequence_number,
                shown: shown@,
                clusters: clusters_of(cluster@, fallback@),
                tried: 0,
                last_error: None,
                last_error_code: None,
                phase: StagePhase::Trying,
            }),
            tries_next(r.0@, r.1),
    {
        let p = ForwarderProcessor {
            message_id,
            session_id,
            sequence_number,
            shown,
            clusters: clusters_to_try(cluster, fallback),
            tried: 0,
            last_error: None,
            last_error_code: None,
            phase: StagePhase::Trying,
        };
        let out = p.forwarding();
        (p, out)
    }

    /// Takes note of the outcome of an attempt, and of the time since the
    /// message was routed.
    pub fn attempted(&mut self, outcome: Result<String, AttemptError>, latency: &Duration) -> (out:
        StageOutput)
        requires
            old(self)@.phase == StagePhase::Trying,
        ensures
            final(self)@ == after_attempt(old(self)@, attempt_view(outcome)),
            attempt_output(old(self)@, attempt_view(outcome), latency@ / 1000, out),
    {
        proof {
            use_type_invariant(&*self);
        }
        match outcome {
            Ok(smsc_message_id) => {
                self.phase = StagePhase::Done;
                let latency_us: u64 = (latency.as_micros() % 0x1_0000_0000_0000_0000u128) as u64;
                let mut events: Vec<Event> = Vec::new();
                events.push(
                    Event::MessageDelivered {
                        message_id: self.message_id,
                        session_id: self.session_id,
                        sequence_number: self.sequence_number,
                        smsc_message_id: smsc_message_id.clone(),
                        latency_us,
                    },
                );
                events.push(
                    Event::ResponseReady(
                        ResponseEnvelope::success(
                            self.session_id,
                            self.sequence_number,
                            smsc_message_id.clone(),
                        ),
                    ),
                );
                StageOutput {
                    update: Some(
                        StoreUpdate::InFlight {
                            smsc_message_id,
                            cluster: self.clusters[self.tried].clone(),
                            endpoint: "upstream".to_string(),
                        },
                    ),
                    events,
                    next: NextStep::Nothing,
                }
            },
            Err(error) => {
                let count: usize = self.clusters.len();
                self.last_error = Some(error.message);
                self.last_error_code = error.code;
                if self.tried + 1 < count {
                    self.tried = self.tried + 1;
                    self.forwarding()
                } else {
                    self.phase = StagePhase::AskingRetry;
                    self.tried = self.tried + 1;
                    StageOutput { update: None, events: Vec::new(), next: NextStep::AskRetry }
                }
            },
        }
    }

    /// Takes note of whether the message may be tried again.
    pub fn retry_allowed(&mut self, allowed: bool) -> (out: StageOutput)
        requires
            old(self)@.phase == StagePhase::AskingRetry,
        ensures
            final(self)@ == (StageView { phase: StagePhase::Done, ..old(self)@ }),
            retry_output(old(self)@, allowed, out),
    {
        let reason = match &self.last_error {
            Some(e) => e.clone(),
            None => "all clusters failed".to_string(),
        };
        let code: u32 = match self.last_error_code {
            Some(code) => code,
            None => NOT_FORWARDED,
        };
        self.phase = StagePhase::Done;
        let mut events: Vec<Event> = Vec::new();
        if allowed {
            events.push(
                Event::MessageRetryScheduled {
                    message_id: self.message_id,
                    attempt: 1,
                    delay_ms: 1000,
                    reason: reason.clone(),
                },
            );
            events.push(
                Event::ResponseReady(
                    ResponseEnvelope::success(
                        self.session_id,
                        self.sequence_number,
                        self.shown.clone(),
                    ),
                ),
            );
            StageOutput {
                update: Some(StoreUpdate::Retry { delay: Duration::from_secs(1), code, reason }),
                events,
                next: NextStep::Nothing,
            }
        } else {
            events.push(
                Event::MessageFailed {
                    message_id: self.message_id,
                    session_id: self.session_id,
                    sequence_number: self.sequence_number,
                    error_code: Some(code),
                    reason: reason.clone(),
                    permanent: true,
                },
            );
            events.push(
                Event::ResponseReady(
                    ResponseEnvelope::error(
                        self.session_id,
                        self.sequence_number,
                        self.shown.clone(),
                        code,
                    ),
                ),
            );
            StageOutput {
                update: Some(StoreUpdate::Failed { code, reason }),
                events,
                next: NextStep::Nothing,
            }
        }
    }

    /// How far the message has come.
    pub fn phase(&self) -> (p: StagePhase)
        ensures
            p == self@.phase,
    {
        self.phase
    }
}

/// A message after some failed attempts.
pub open spec fn stage_failed(s: StageView, errors: Seq<(Option<u32>, Seq<char>)>) -> StageView
    decreases errors.len(),
{
    if errors.len() == 0 {
        s
    } else {
        after_attempt(stage_failed(s, errors.drop_last()), Err(errors.last()))
    }
}

/// The clusters of a route are tried in their order, each once, and the last
/// error is kept.
pub proof fn stage_follows_the_route(s: StageView, errors: Seq<(Option<u32>, Seq<char>)>)
    requires
        s.phase == StagePhase::Trying,
        s.tried == 0,
        0 < errors.len() <= s.clusters.len(),
    ensures
        ({
            let after = stage_failed(s, errors);
            &&& after.tried == errors.len()
            &&& after.clusters == s.clusters
            &&& after.last_error == Some(errors.last().1)
            &&& after.last_error_code == errors.last().0
            &&& after.phase == (if errors.len() < s.clusters.len() {
                StagePhase::Trying
            } else {
                StagePhase::AskingRetry
            })
        }),
    decreases errors.len(),
{
    if errors.len() > 1 {
        stage_follows_the_route(s, errors.drop_last());
    } else {
        assert(stage_failed(s, errors.drop_last()) == s);
    }
}

/// A message that is to be tried again is answered with success, and one that
/// is given up with the status of its last failure.
pub proof fn clients_hear_of_lost_messages(s: StageView, allowed: bool, out: StageOutput)
    requires
        retry_output(s, allowed, out),
    ensures
        answers(
            out.events@[1],
            s,
            s.shown,
            if allowed {
                0
            } else {
                kept_code(s)
            },
        ),
{
}

} // verus!
