//! Forwarding of submitted messages.

use crate::cluster::{Cluster, Clusters};
use crate::collections::texts;
use crate::forwarder::store::{
    clusters_of, clusters_to_try, RouteResult, StoreUpdate, StoreUpdateView,
};
use crate::text::{decimal, number, opt_text};
use crate::time::Duration;
use vstd::prelude::*;

verus! {

/// Status of a message that no route leads on.
pub const NO_ROUTE: u32 = 0x0000000B;

/// Status of a message that no cluster took.
pub const NOT_FORWARDED: u32 = 0x00000058;

/// Answer to a request to forward a message.
#[derive(Debug)]
pub struct ForwardResult {
    /// Message ID, local or upstream.
    pub message_id: String,
    /// Command status; zero is success.
    pub command_status: u32,
    /// What went wrong.
    pub error: Option<String>,
}

/// Answer to a request to forward a message.
#[verifier::ext_equal]
pub struct ForwardResultView {
    pub message_id: Seq<char>,
    pub command_status: u32,
    pub error: Option<Seq<char>>,
}

impl View for ForwardResult {
    type V = ForwardResultView;

    open spec fn view(&self) -> ForwardResultView {
        ForwardResultView {
            message_id: self.message_id@,
            command_status: self.command_status,
            error: opt_text(self.error),
        }
    }
}

impl ForwardResult {
    /// A success.
    pub fn success(message_id: String) -> (r: Self)
        ensures
            r@ == (ForwardResultView { message_id: message_id@, command_status: 0, error: None }),
    {
        ForwardResult { message_id, command_status: 0, error: None }
    }

    /// An error.
    pub fn error(message_id: String, command_status: u32, error: String) -> (r: Self)
        ensures
            r@ == (ForwardResultView {
                message_id: message_id@,
                command_status,
                error: Some(error@),
            }),
    {
        ForwardResult { message_id, command_status, error: Some(error) }
    }
}

/// Why a message could not be forwarded.
#[derive(Debug)]
pub enum ForwardError {
    /// There is no cluster of that name.
    ClusterNotFound(String),
    /// No endpoint of the cluster takes connections.
    NoConnection,
    /// The answer did not come in time.
    Timeout,
    /// The connection failed.
    IoError(String),
    /// The endpoint answered with an error.
    SmscError { status: u32, message_id: String },
    /// The endpoint answered with something else.
    UnexpectedResponse(String),
}

/// The text of an error.
pub open spec fn error_text(e: ForwardError) -> Seq<char> {
    match e {
        ForwardError::ClusterNotFound(name) => "cluster not found: "@ + name@,
        ForwardError::NoConnection => "no healthy connection available"@,
        ForwardError::Timeout => "timeout waiting for response"@,
        ForwardError::IoError(error) => "I/O error: "@ + error@,
        ForwardError::SmscError { status, message_id } => "SMSC error: status="@ + decimal(
            status as nat,
        ) + ", message_id="@ + message_id@,
        ForwardError::UnexpectedResponse(what) => "unexpected response: "@ + what@,
    }
}

impl ForwardError {
    /// The text of the error.
    pub fn to_string(&self) -> (text: String)
        ensures
            text@ == error_text(*self),
    {
        match self {
            ForwardError::ClusterNotFound(name) => {
                let mut text = "cluster not found: ".to_string();
                text.append(name.as_str());
                text
            },
            ForwardError::NoConnection => "no healthy connection available".to_string(),
            ForwardError::Timeout => "timeout waiting for response".to_string(),
            ForwardError::IoError(error) => {
                let mut text = "I/O error: ".to_string();
                text.append(error.as_str());
                text
            },
            ForwardError::SmscError { status, message_id } => {
                let mut text = "SMSC error: status=".to_string();
                let digits = number(*status as u64);
                text.append(digits.as_str());
                text.append(", message_id=");
                text.append(message_id.as_str());
                text
            },
            ForwardError::UnexpectedResponse(what) => {
                let mut text = "unexpected response: ".to_string();
                text.append(what.as_str());
                text
            },
        }
    }
}

/// How a cluster of some name can be reached.
#[derive(Debug, Clone, Copy, PartialEq, Eq, Structural)]
pub enum Reach {
    /// Not at all: there is none.
    NotFound,
    /// It is a mock.
    Mock,
    /// By one of its endpoints.
    Endpoints,
}

/// How a cluster of some name can be reached.
pub open spec fn reach_of(clusters: Map<Seq<char>, Cluster>, name: Seq<char>) -> Reach {
    if !clusters.dom().contains(name) {
        Reach::NotFound
    } else if clusters[name]@.is_mock {
        Reach::Mock
    } else {
        Reach::Endpoints
    }
}

/// How a cluster of some name can be reached.
pub fn reach(clusters: &Clusters, name: &str) -> (r: Reach)
    requires
        clusters.well_formed(),
    ensures
        r == reach_of(clusters@, name@),
{
    match clusters.get(name) {
        None => Reach::NotFound,
        Some(cluster) => {
            if cluster.is_mock() {
                Reach::Mock
            } else {
                Reach::Endpoints
            }
        },
    }
}

/// What became of a message that was sent to an endpoint.
#[derive(Debug)]
pub enum SendOutcome {
    /// No endpoint takes connections.
    NoConnection,
    /// The answer did not come in time.
    TimedOut,
    /// The connection failed.
    Failed(String),
    /// The endpoint answered.
    Response { status: u32, message_id: String },
    /// The endpoint answered with something else.
    Unexpected(String),
}

/// The outcome of an attempt: a message ID or the text of an error.
pub open spec fn outcome_view(r: Result<String, ForwardError>) -> Result<Seq<char>, Seq<char>> {
    match r {
        Ok(id) => Ok(id@),
        Err(e) => Err(error_text(e)),
    }
}

/// What is known of an attempt before anything is sent.
pub open spec fn attempt_begun(
    reach: Reach,
    cluster: Seq<char>,
    message_id: Seq<char>,
    outcome: Option<Result<String, ForwardError>>,
) -> bool {
    match reach {
        Reach::NotFound => outcome matches Some(Err(ForwardError::ClusterNotFound(name)))
            && name@ == cluster,
        Reach::Mock => outcome matches Some(Ok(id)) && id@ == "MOCK-"@ + message_id,
        Reach::Endpoints => outcome is None,
    }
}

/// Starts an attempt. Without endpoints it is over at once; a mock takes every
/// message.
pub fn begin_attempt(reach: Reach, cluster: &str, message_id: &str) -> (outcome: Option<
    Result<String, ForwardError>,
>)
    ensures
        attempt_begun(reach, cluster@, message_id@, outcome),
{
    match reach {
        Reach::NotFound => Some(Err(ForwardError::ClusterNotFound(cluster.to_string()))),
        Reach::Mock => {
            let mut id = "MOCK-".to_string();
            id.append(message_id);
            Some(Ok(id))
        },
        Reach::Endpoints => None,
    }
}

/// What came of an attempt, by what came of sending.
pub open spec fn attempt_finished(
    sent: SendOutcome,
    r: (Option<StoreUpdate>, Result<String, ForwardError>),
) -> bool {
    match sent {
        SendOutcome::NoConnection => r.0 is None && r.1 matches Err(ForwardError::NoConnection),
        SendOutcome::TimedOut => r.0 is None && r.1 matches Err(ForwardError::Timeout),
        SendOutcome::Failed(error) => r.0 is None && (r.1 matches Err(
            ForwardError::IoError(text),
        ) && text@ == error@),
        SendOutcome::Response { status, message_id } => {
            &&& r.0 matches Some(update)
            &&& update@ == (StoreUpdateView::Response { status, message_id: message_id@ })
            &&& if status == 0 {
                r.1 matches Ok(id) && id@ == message_id@
            } else {
                r.1 matches Err(ForwardError::SmscError { status: code, message_id: id })
                    && code == status && id@ == message_id@
            }
        },
        SendOutcome::Unexpected(what) => r.0 is None && (r.1 matches Err(
            ForwardError::UnexpectedResponse(text),
        ) && text@ == what@),
    }
}

/// Ends an attempt: what is to be stored of the answer, and the outcome.
pub fn finish_attempt(sent: SendOutcome) -> (r: (
    Option<StoreUpdate>,
    Result<String, ForwardError>,
))
    ensures
        attempt_finished(sent, r),
{
    match sent {
        SendOutcome::NoConnection => (None, Err(ForwardError::NoConnection)),
        SendOutcome::TimedOut => (None, Err(ForwardError::Timeout)),
        SendOutcome::Failed(error) => (None, Err(ForwardError::IoError(error))),
        SendOutcome::Response { status, message_id } => {
            let update = StoreUpdate::Response { status, message_id: message_id.clone() };
            if status != 0 {
                (Some(update), Err(ForwardError::SmscError { status, message_id }))
            } else {
                (Some(update), Ok(message_id))
            }
        },
        SendOutcome::Unexpected(what) => (None, Err(ForwardError::UnexpectedResponse(what))),
    }
}

/// How far a message has come.
#[derive(Debug, Clone, Copy, PartialEq, Eq, Structural)]
pub enum ForwardPhase {
    /// It waits for its route.
    Routing,
    /// A cluster is being tried.
    Trying,
    /// Every cluster failed, and the store says whether to try again later.
    AskingRetry,
    /// The client was answered.
    Done,
}

/// Something that happens to a message on its way.
#[derive(Debug)]
pub enum ForwardEvent {
    /// The router answered.
    Routed(Option<RouteResult>),
    /// An attempt is over.
    Attempted(Result<String, ForwardError>),
    /// The store says whether the message may be tried again.
    RetryAllowed(bool),
}

/// What is to be done next.
#[derive(Debug)]
pub enum ForwardAction {
    /// Try a cluster.
    Try(String),
    /// Note the failure and ask the store whether the message may be tried
    /// again.
    AskRetry { code: u32, reason: String },
    /// Change the stored message and answer the client.
    Finish { update: StoreUpdate, result: ForwardResult },
    /// Nothing.
    Ignore,
}

/// Something that happens to a message on its way.
#[verifier::ext_equal]
pub enum ForwardEventView {
    Routed(Option<Seq<Seq<char>>>),
    Attempted(Result<Seq<char>, Seq<char>>),
    RetryAllowed(bool),
}

impl View for ForwardEvent {
    type V = ForwardEventView;

    open spec fn view(&self) -> ForwardEventView {
        match self {
            ForwardEvent::Routed(None) => ForwardEventView::Routed(None),
            ForwardEvent::Routed(Some(route)) => ForwardEventView::Routed(
                Some(clusters_of(route.cluster_name@, route.fallback@)),
            ),
            ForwardEvent::Attempted(outcome) => ForwardEventView::Attempted(outcome_view(*outcome)),
            ForwardEvent::RetryAllowed(b) => ForwardEventView::RetryAllowed(*b),
        }
    }
}

/// What is to be done next.
#[verifier::ext_equal]
pub enum ForwardActionView {
    Try(Seq<char>),
    AskRetry { code: u32, reason: Seq<char> },
    Finish { update: StoreUpdateView, result: ForwardResultView },
    Ignore,
}

impl View for ForwardAction {
    type V = ForwardActionView;

    open spec fn view(&self) -> ForwardActionView {
        match self {
            ForwardAction::Try(cluster) => ForwardActionView::Try(cluster@),
            ForwardAction::AskRetry { code, reason } => ForwardActionView::AskRetry {
                code: *code,
                reason: reason@,
            },
            ForwardAction::Finish { update, result } => ForwardActionView::Finish {
                update: update@,
                result: result@,
            },
            ForwardAction::Ignore => ForwardActionView::Ignore,
        }
    }
}

/// A message on its way.
#[derive(Debug)]
pub struct Forwarding {
    message_id: String,
    clusters: Vec<String>,
    tried: usize,
    last_error: Option<String>,
    phase: ForwardPhase,
}

/// A message on its way.
#[verifier::ext_equal]
pub struct ForwardingView {
    /// Text of the message's ID.
    pub message_id: Seq<char>,
    /// Clusters to try.
    pub clusters: Seq<Seq<char>>,
    /// How many of them have failed.
    pub tried: nat,
    /// Why the last one failed.
    pub last_error: Option<Seq<char>>,
    /// How far it has come.
    pub phase: ForwardPhase,
}

impl View for Forwarding {
    type V = ForwardingView;

    closed spec fn view(&self) -> ForwardingView {
        ForwardingView {
            message_id: self.message_id@,
            clusters: texts(self.clusters@),
            tried: self.tried as nat,
            last_error: opt_text(self.last_error),
            phase: self.phase,
        }
    }
}

/// The reason that is kept when every cluster failed.
pub open spec fn kept_reason(last_error: Option<Seq<char>>) -> Seq<char> {
    match last_error {
        Some(e) => e,
        None => "all clusters failed"@,
    }
}

/// Success, as the client is told.
pub open spec fn told_success(message_id: Seq<char>) -> ForwardResultView {
    ForwardResultView { message_id, command_status: 0, error: None }
}

/// The message after an event, and what is to be done next.
pub open spec fn forward_step(f: ForwardingView, event: ForwardEventView) -> (
    ForwardingView,
    ForwardActionView,
) {
    match (f.phase, event) {
        (ForwardPhase::Routing, ForwardEventView::Routed(None)) => (
            ForwardingView { phase: ForwardPhase::Done, ..f },
            ForwardActionView::Finish {
                update: StoreUpdateView::Failed { code: NO_ROUTE, reason: "no route found"@ },
                result: ForwardResultView {
                    message_id: f.message_id,
                    command_status: NO_ROUTE,
                    error: Some("no route found"@),
                },
            },
        ),
        (ForwardPhase::Routing, ForwardEventView::Routed(Some(clusters))) => (
            ForwardingView { clusters, tried: 0, phase: ForwardPhase::Trying, ..f },
            ForwardActionView::Try(clusters[0]),
        ),
        (ForwardPhase::Trying, ForwardEventView::Attempted(Ok(upstream_id))) => (
            ForwardingView { phase: ForwardPhase::Done, ..f },
            ForwardActionView::Finish {
                update: StoreUpdateView::InFlight {
                    smsc_message_id: upstream_id,
                    cluster: f.clusters[f.tried as int],
                    endpoint: "upstream"@,
                },
                result: told_success(f.message_id),
            },
        ),
        (ForwardPhase::Trying, ForwardEventView::Attempted(Err(error))) => {
            let failed = ForwardingView { tried: f.tried + 1, last_error: Some(error), ..f };
            if failed.tried < f.clusters.len() {
                (failed, ForwardActionView::Try(f.clusters[failed.tried as int]))
            } else {
                (
                    ForwardingView { phase: ForwardPhase::AskingRetry, ..failed },
                    ForwardActionView::AskRetry { code: NOT_FORWARDED, reason: error },
                )
            }
        },
        (ForwardPhase::AskingRetry, ForwardEventView::RetryAllowed(allowed)) => (
            ForwardingView { phase: ForwardPhase::Done, ..f },
            ForwardActionView::Finish {
                update: if allowed {
                    StoreUpdateView::Retry {
                        delay: 1_000_000_000,
                        code: NOT_FORWARDED,
                        reason: kept_reason(f.last_error),
                    }
                } else {
                    StoreUpdateView::Failed {
                        code: NOT_FORWARDED,
                        reason: kept_reason(f.last_error),
                    }
                },
                result: told_success(f.message_id),
            },
        ),
        _ => (f, ForwardActionView::Ignore),
    }
}

/// A message that waits for its route.
pub open spec fn new_forwarding(message_id: Seq<char>) -> ForwardingView {
    ForwardingView {
        message_id,
        clusters: seq![],
        tried: 0,
        last_error: None,
        phase: ForwardPhase::Routing,
    }
}

/// While clusters are tried, one of them is the next.
pub open spec fn forwarding_sound(f: ForwardingView) -> bool {
    f.phase == ForwardPhase::Trying ==> f.tried < f.clusters.len()
}

impl Forwarding {
    #[verifier::type_invariant]
    spec fn next_exists(self) -> bool {
        self.phase == ForwardPhase::Trying ==> self.tried < self.clusters@.len()
    }

    /// A stored message that waits for its route.
    pub fn new(message_id: String) -> (f: Self)
        ensures
            f@ == new_forwarding(message_id@),
    {
        let f = Forwarding {
            message_id,
            clusters: Vec::new(),
            tried: 0,
            last_error: None,
            phase: ForwardPhase::Routing,
        };
        assert(f@ =~= new_forwarding(message_id@));
        f
    }

    /// Text of the message's ID.
    pub fn message_id(&self) -> (s: &str)
        ensures
            s@ == self@.message_id,
    {
        self.message_id.as_str()
    }

    /// How far the message has come.
    pub fn phase(&self) -> (p: ForwardPhase)
        ensures
            p == self@.phase,
    {
        self.phase
    }

    /// Takes note of an event, and says what is to be done next.
    pub fn step(&mut self, event: ForwardEvent) -> (action: ForwardAction)
        ensures
            (final(self)@, action@) == forward_step(old(self)@, event@),
            forwarding_sound(final(self)@),
    {
        proof {
            use_type_invariant(&*self);
        }
        match (self.phase, event) {
            (ForwardPhase::Routing, ForwardEvent::Routed(None)) => {
                self.phase = ForwardPhase::Done;
                ForwardAction::Finish {
                    update: StoreUpdate::Failed {
                        code: NO_ROUTE,
                        reason: "no route found".to_string(),
                    },
                    result: ForwardResult::error(
                        self.message_id.clone(),
                        NO_ROUTE,
                        "no route found".to_string(),
                    ),
                }
            },
            (ForwardPhase::Routing, ForwardEvent::Routed(Some(route))) => {
                let clusters = clusters_to_try(route.cluster_name.as_str(), &route.fallback);
                let first = clusters[0].clone();
                assert(first@ == texts(clusters@)[0]);
                self.clusters = clusters;
                self.tried = 0;
                self.phase = ForwardPhase::Trying;
                ForwardAction::Try(first)
            },
            (ForwardPhase::Trying, ForwardEvent::Attempted(Ok(upstream_id))) => {
                let cluster = self.clusters[self.tried].clone();
                self.phase = ForwardPhase::Done;
                ForwardAction::Finish {
                    update: StoreUpdate::InFlight {
                        smsc_message_id: upstream_id,
                        cluster,
                        endpoint: "upstream".to_string(),
                    },
                    result: ForwardResult::success(self.message_id.clone()),
                }
            },
            (ForwardPhase::Trying, ForwardEvent::Attempted(Err(error))) => {
                let reason = error.to_string();
                let count: usize = self.clusters.len();
                self.last_error = Some(reason.clone());
                if self.tried + 1 < count {
                    self.tried = self.tried + 1;
                    ForwardAction::Try(self.clusters[self.tried].clone())
                } else {
                    self.phase = ForwardPhase::AskingRetry;
                    self.tried = self.tried + 1;
                    ForwardAction::AskRetry { code: NOT_FORWARDED, reason }
                }
            },
            (ForwardPhase::AskingRetry, ForwardEvent::RetryAllowed(allowed)) => {
                let reason = match &self.last_error {
                    Some(e) => e.clone(),
                    None => "all clusters failed".to_string(),
                };
                self.phase = ForwardPhase::Done;
                let update = if allowed {
                    StoreUpdate::Retry {
                        delay: Duration::from_secs(1),
                        code: NOT_FORWARDED,
                        reason,
                    }
                } else {
                    StoreUpdate::Failed { code: NOT_FORWARDED, reason }
                };
                ForwardAction::Finish {
                    update,
                    result: ForwardResult::success(self.message_id.clone()),
                }
            },
            _ => ForwardAction::Ignore,
        }
    }
}

/// A message after its first attempts have failed with some errors.
pub open spec fn attempts_failed(f: ForwardingView, errors: Seq<Seq<char>>) -> (
    ForwardingView,
    ForwardActionView,
)
    decreases errors.len(),
{
    if errors.len() == 0 {
        (f, ForwardActionView::Try(f.clusters[f.tried as int]))
    } else {
        forward_step(
            attempts_failed(f, errors.drop_last()).0,
            ForwardEventView::Attempted(Err(errors.last())),
        )
    }
}

/// The clusters of a route are tried one after the other in their order, each
/// once. When all have failed the last error is kept.
pub proof fn fallbacks_follow_in_order(
    message_id: Seq<char>,
    clusters: Seq<Seq<char>>,
    errors: Seq<Seq<char>>,
)
    requires
        0 < clusters.len(),
        errors.len() <= clusters.len(),
    ensures
        ({
            let routed = forward_step(
                new_forwarding(message_id),
                ForwardEventView::Routed(Some(clusters)),
            ).0;
            let (f, action) = attempts_failed(routed, errors);
            &&& f.clusters == clusters
            &&& f.tried == errors.len()
            &&& if errors.len() < clusters.len() {
                &&& f.phase == ForwardPhase::Trying
                &&& action == ForwardActionView::Try(clusters[errors.len() as int])
            } else {
                &&& f.phase == ForwardPhase::AskingRetry
                &&& f.last_error == Some(errors.last())
                &&& action == (ForwardActionView::AskRetry {
                    code: NOT_FORWARDED,
                    reason: errors.last(),
                })
            }
        }),
    decreases errors.len(),
{
    if errors.len() > 0 {
        fallbacks_follow_in_order(message_id, clusters, errors.drop_last());
    }
}

/// A client is answered exactly when its message is done, and after that
/// nothing more happens.
pub proof fn clients_are_answered_once(f: ForwardingView, event: ForwardEventView)
    ensures
        ({
            let (after, action) = forward_step(f, event);
            &&& action is Finish <==> f.phase != ForwardPhase::Done && after.phase
                == ForwardPhase::Done
            &&& f.phase == ForwardPhase::Done ==> after == f && action is Ignore
        }),
{
}

/// Except for a message without a route, the client is told success under the
/// local message ID.
pub proof fn clients_learn_the_local_id(f: ForwardingView, event: ForwardEventView)
    ensures
        forward_step(f, event).1 matches ForwardActionView::Finish { update, result } ==> {
            &&& result.message_id == f.message_id
            &&& result.command_status == (if event == ForwardEventView::Routed(None) {
                NO_ROUTE
            } else {
                0
            })
        },
{
}

} // verus!
