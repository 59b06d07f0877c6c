//! Further tries of messages that could not be forwarded.

use crate::collections::texts;
use crate::forwarder::processor::{Reach, SendOutcome, NOT_FORWARDED, NO_ROUTE};
use crate::forwarder::store::{
    clusters_of, clusters_to_try, MessageState, RouteResult, StoreUpdate, StoreUpdateView,
    StoredMessage,
};
use crate::pdu::{copy_bytes, SubmitSm};
use crate::text::{decimal, number};
use crate::time::Duration;
use vstd::arithmetic::power2::{lemma_pow2_adds, lemma_pow2_strictly_increases, pow2};
use vstd::prelude::*;

verus! {

/// How often a message is sent at most.
pub const MAX_RETRIES: u32 = 5;

/// Why a message could not be sent again.
#[derive(Debug)]
pub enum RetryError {
    /// There is no cluster of that name.
    ClusterNotFound(String),
    /// No endpoint of the cluster takes connections.
    NoConnection,
    /// The answer did not come in time.
    Timeout,
    /// The connection failed.
    IoError(String),
    /// The endpoint answered with an error.
    SmscError { status: u32 },
    /// The endpoint answered with something else.
    UnexpectedResponse(String),
}

/// The text of an error.
pub open spec fn retry_error_text(e: RetryError) -> Seq<char> {
    match e {
        RetryError::ClusterNotFound(name) => "cluster not found: "@ + name@,
        RetryError::NoConnection => "no healthy connection available"@,
        RetryError::Timeout => "timeout"@,
        RetryError::IoError(error) => "I/O error: "@ + error@,
        RetryError::SmscError { status } => "SMSC error: status="@ + decimal(status as nat),
        RetryError::UnexpectedResponse(what) => "unexpected response: "@ + what@,
    }
}

impl RetryError {
    /// The text of the error.
    pub fn to_string(&self) -> (text: String)
        ensures
            text@ == retry_error_text(*self),
    {
        match self {
            RetryError::ClusterNotFound(name) => {
                let mut text = "cluster not found: ".to_string();
                text.append(name.as_str());
                text
            },
            RetryError::NoConnection => "no healthy connection available".to_string(),
            RetryError::Timeout => "timeout".to_string(),
            RetryError::IoError(error) => {
                let mut text = "I/O error: ".to_string();
                text.append(error.as_str());
                text
            },
            RetryError::SmscError { status } => {
                let mut text = "SMSC error: status=".to_string();
                let digits = number(*status as u64);
                text.append(digits.as_str());
                text
            },
            RetryError::UnexpectedResponse(what) => {
                let mut text = "unexpected response: ".to_string();
                text.append(what.as_str());
                text
            },
        }
    }
}

/// What is known of a try before anything is sent.
pub open spec fn retry_begun(
    reach: Reach,
    cluster: Seq<char>,
    message_id: Seq<char>,
    outcome: Option<Result<String, RetryError>>,
) -> bool {
    match reach {
        Reach::NotFound => outcome matches Some(Err(RetryError::ClusterNotFound(name))) && name@
            == cluster,
        Reach::Mock => outcome matches Some(Ok(id)) && id@ == "MOCK-RETRY-"@ + message_id,
        Reach::Endpoints => outcome is None,
    }
}

/// Starts an attempt. Without endpoints it is over at once; a mock takes every
/// message.
pub fn begin_retry(reach: Reach, cluster: &str, message_id: &str) -> (outcome: Option<
    Result<String, RetryError>,
>)
    ensures
        retry_begun(reach, cluster@, message_id@, outcome),
{
    match reach {
        Reach::NotFound => Some(Err(RetryError::ClusterNotFound(cluster.to_string()))),
        Reach::Mock => {
            let mut id = "MOCK-RETRY-".to_string();
            id.append(message_id);
            Some(Ok(id))
        },
        Reach::Endpoints => None,
    }
}

/// What came of a try, by what came of sending.
pub open spec fn retry_finished(sent: SendOutcome, outcome: Result<String, RetryError>) -> bool {
    match sent {
        SendOutcome::NoConnection => outcome matches Err(RetryError::NoConnection),
        SendOutcome::TimedOut => outcome matches Err(RetryError::Timeout),
        SendOutcome::Failed(error) => outcome matches Err(RetryError::IoError(text)) && text@
            == error@,
        SendOutcome::Response { status, message_id } => if status == 0 {
            outcome matches Ok(id) && id@ == message_id@
        } else {
            outcome matches Err(RetryError::SmscError { status: code }) && code == status
        },
        SendOutcome::Unexpected(what) => outcome matches Err(
            RetryError::UnexpectedResponse(text),
        ) && text@ == what@,
    }
}

/// Ends an attempt.
pub fn finish_retry(sent: SendOutcome) -> (outcome: Result<String, RetryError>)
    ensures
        retry_finished(sent, outcome),
{
    match sent {
        SendOutcome::NoConnection => Err(RetryError::NoConnection),
        SendOutcome::TimedOut => Err(RetryError::Timeout),
        SendOutcome::Failed(error) => Err(RetryError::IoError(error)),
        SendOutcome::Response { status, message_id } => {
            if status != 0 {
                Err(RetryError::SmscError { status })
            } else {
                Ok(message_id)
            }
        },
        SendOutcome::Unexpected(what) => Err(RetryError::UnexpectedResponse(what)),
    }
}

/// The request that is made of a stored message.
pub open spec fn rebuilt(msg: StoredMessage, submit: SubmitSm) -> bool {
    &&& submit.service_type@ == match msg.service_type {
        Some(s) => s@,
        None => seq![],
    }
    &&& submit.source_addr_ton == 0
    &&& submit.source_addr_npi == 0
    &&& submit.source_addr@ == msg.source@
    &&& submit.dest_addr_ton == 0
    &&& submit.dest_addr_npi == 0
    &&& submit.dest_addr@ == msg.destination@
    &&& submit.esm_class == msg.esm_class
    &&& submit.protocol_id == 0
    &&& submit.priority_flag == 0
    &&& submit.schedule_delivery_time@ == Seq::<char>::empty()
    &&& submit.validity_period@ == Seq::<char>::empty()
    &&& submit.registered_delivery == msg.registered_delivery
    &&& submit.replace_if_present_flag == 0
    &&& submit.data_coding == msg.data_coding
    &&& submit.sm_default_msg_id == 0
    &&& submit.short_message@ == msg.short_message@
}

/// Makes a request of a stored message.
pub fn build_submit_sm(msg: &StoredMessage) -> (submit: SubmitSm)
    ensures
        rebuilt(*msg, submit),
{
    SubmitSm {
        service_type: match &msg.service_type {
            Some(s) => s.clone(),
            None => String::new(),
        },
        source_addr_ton: 0,
        source_addr_npi: 0,
        source_addr: msg.source.clone(),
        dest_addr_ton: 0,
        dest_addr_npi: 0,
        dest_addr: msg.destination.clone(),
        esm_class: msg.esm_class,
        protocol_id: 0,
        priority_flag: 0,
        schedule_delivery_time: String::new(),
        validity_period: String::new(),
        registered_delivery: msg.registered_delivery,
        replace_if_present_flag: 0,
        data_coding: msg.data_coding,
        sm_default_msg_id: 0,
        short_message: copy_bytes(&msg.short_message),
    }
}

/// Whole milliseconds of a duration, as far as they fit in 64 bits.
pub open spec fn millis_of(d: Duration) -> nat {
    (d@ / 1_000_000) % 0x1_0000_0000_0000_0000
}

fn millis(d: &Duration) -> (n: u64)
    ensures
        n == millis_of(*d),
{
    (d.as_millis() % 0x1_0000_0000_0000_0000u128) as u64
}

/// Decides on messages that wait for another try.
#[derive(Debug)]
pub struct RetryProcessor {
    retry_interval: Duration,
    base_delay: Duration,
    max_delay: Duration,
}

/// The delay in milliseconds after some attempts: twice as long after each,
/// but no longer than a maximum.
pub open spec fn backoff_millis(base: nat, max: nat, attempts: nat) -> nat {
    if base * pow2(attempts) <= max {
        base * pow2(attempts)
    } else {
        max
    }
}

impl RetryProcessor {
    /// Time between looks for messages.
    pub closed spec fn interval(&self) -> Duration {
        self.retry_interval
    }

    /// Delay before the first retry, in milliseconds.
    pub closed spec fn base(&self) -> nat {
        millis_of(self.base_delay)
    }

    /// Longest delay, in milliseconds.
    pub closed spec fn max(&self) -> nat {
        millis_of(self.max_delay)
    }

    /// The delay can be doubled after every attempt that another one may
    /// follow.
    pub open spec fn well_formed(&self) -> bool {
        self.base() * pow2((MAX_RETRIES - 1) as nat) <= u64::MAX
    }

    /// A processor.
    pub fn new(retry_interval: Duration, base_delay: Duration, max_delay: Duration) -> (p: Self)
        ensures
            p.interval() == retry_interval,
            p.base() == millis_of(base_delay),
            p.max() == millis_of(max_delay),
    {
        RetryProcessor { retry_interval, base_delay, max_delay }
    }

    /// Time between looks for messages.
    pub fn interval_between(&self) -> (d: Duration)
        ensures
            d == self.interval(),
    {
        self.retry_interval
    }

    /// The delay after some attempts.
    pub fn calculate_backoff(&self, attempts: u32) -> (d: Duration)
        requires
            self.base() * pow2(attempts as nat) <= u64::MAX,
        ensures
            d@ == backoff_millis(self.base(), self.max(), attempts as nat) * 1_000_000,
    {
        let base: u64 = millis(&self.base_delay);
        let mut delay: u64 = base;
        let mut i: u32 = 0;
        assert(base * pow2(0) == base) by {
            vstd::arithmetic::power2::lemma2_to64();
        }
        while i < attempts
            invariant
                i <= attempts,
                delay == base * pow2(i as nat),
                base * pow2(attempts as nat) <= u64::MAX,
            decreases attempts - i,
        {
            proof {
                doubled(base as nat, i as nat);
                grows_with_attempts(base as nat, (i + 1) as nat, attempts as nat);
            }
            delay = delay * 2;
            i += 1;
        }
        let max: u64 = millis(&self.max_delay);
        let capped: u64 = if delay < max {
            delay
        } else {
            max
        };
        Duration::from_millis(capped)
    }
}

proof fn doubled(base: nat, n: nat)
    ensures
        base * pow2((n + 1) as nat) == 2 * (base * pow2(n)),
{
    lemma_pow2_adds(n, 1);
    vstd::arithmetic::power2::lemma2_to64();
    assert(base * (pow2(n) * 2) == 2 * (base * pow2(n))) by (nonlinear_arith);
}

proof fn grows_with_attempts(base: nat, m: nat, n: nat)
    requires
        m <= n,
    ensures
        base * pow2(m) <= base * pow2(n),
{
    if m < n {
        lemma_pow2_strictly_increases(m, n);
    }
    assert(base * pow2(m) <= base * pow2(n)) by (nonlinear_arith)
        requires
            pow2(m) <= pow2(n),
    ;
}

/// The delay never exceeds the maximum, never shrinks from one attempt to the
/// next, and doubles as long as the maximum allows.
pub proof fn backoff_grows_to_the_maximum(base: nat, max: nat, attempts: nat)
    ensures
        backoff_millis(base, max, attempts) <= max,
        backoff_millis(base, max, attempts) <= backoff_millis(base, max, attempts + 1),
        base * pow2(attempts + 1) <= max ==> backoff_millis(base, max, attempts + 1) == 2
            * backoff_millis(base, max, attempts),
        base <= max ==> backoff_millis(base, max, 0) == base,
{
    doubled(base, attempts);
    grows_with_attempts(base, attempts, attempts + 1);
    vstd::arithmetic::power2::lemma2_to64();
    assert(base * 1 == base);
}

/// How far another try has come.
#[derive(Debug, Clone, Copy, PartialEq, Eq, Structural)]
pub enum RetryPhase {
    /// The stored message is looked at once more.
    Checking,
    /// It waits for its route.
    Routing,
    /// A cluster is being tried.
    Trying,
    /// It is over.
    Done,
}

/// Something that happens during another try.
#[derive(Debug)]
pub enum RetryEvent {
    /// The stored message as it is now.
    Current(Option<StoredMessage>),
    /// The router answered.
    Routed(Option<RouteResult>),
    /// An attempt is over.
    Attempted(Result<String, RetryError>),
}

/// What is to be done next.
#[derive(Debug)]
pub enum RetryAction {
    /// Ask the router.
    AskRoute,
    /// Try a cluster.
    Try(String),
    /// Change the stored message.
    Finish(StoreUpdate),
    /// Nothing.
    Ignore,
}

/// Something that happens during another try.
#[verifier::ext_equal]
pub enum RetryEventView {
    /// The stored message: its state, its attempts, and whether its time is
    /// over.
    Current(Option<(MessageState, u32, bool)>),
    Routed(Option<Seq<Seq<char>>>),
    Attempted(Option<Seq<char>>),
}

impl View for RetryEvent {
    type V = RetryEventView;

    open spec fn view(&self) -> RetryEventView {
        match self {
            RetryEvent::Current(None) => RetryEventView::Current(None),
            RetryEvent::Current(Some(m)) => RetryEventView::Current(
                Some((m.state, m.attempts, m.expired)),
            ),
            RetryEvent::Routed(None) => RetryEventView::Routed(None),
            RetryEvent::Routed(Some(route)) => RetryEventView::Routed(
                Some(clusters_of(route.cluster_name@, route.fallback@)),
            ),
            RetryEvent::Attempted(Ok(id)) => RetryEventView::Attempted(Some(id@)),
            RetryEvent::Attempted(Err(_)) => RetryEventView::Attempted(None),
        }
    }
}

/// What is to be done next.
#[verifier::ext_equal]
pub enum RetryActionView {
    AskRoute,
    Try(Seq<char>),
    Finish(StoreUpdateView),
    Ignore,
}

impl View for RetryAction {
    type V = RetryActionView;

    open spec fn view(&self) -> RetryActionView {
        match self {
            RetryAction::AskRoute => RetryActionView::AskRoute,
            RetryAction::Try(cluster) => RetryActionView::Try(cluster@),
            RetryAction::Finish(update) => RetryActionView::Finish(update@),
            RetryAction::Ignore => RetryActionView::Ignore,
        }
    }
}

/// Another try of a message.
#[derive(Debug)]
pub struct Retrying {
    attempts: u32,
    clusters: Vec<String>,
    tried: usize,
    phase: RetryPhase,
}

/// Another try of a message.
#[verifier::ext_equal]
pub struct RetryingView {
    /// How often the message was sent before.
    pub attempts: u32,
    /// Clusters to try.
    pub clusters: Seq<Seq<char>>,
    /// How many of them have failed.
    pub tried: nat,
    /// How far it has come.
    pub phase: RetryPhase,
}

impl View for Retrying {
    type V = RetryingView;

    closed spec fn view(&self) -> RetryingView {
        RetryingView {
            attempts: self.attempts,
            clusters: texts(self.clusters@),
            tried: self.tried as nat,
            phase: self.phase,
        }
    }
}

/// The try after an event, and what is to be done next.
pub open spec fn retry_step(r: RetryingView, event: RetryEventView, base: nat, max: nat) -> (
    RetryingView,
    RetryActionView,
) {
    let done = RetryingView { phase: RetryPhase::Done, ..r };
    match (r.phase, event) {
        (RetryPhase::Checking, RetryEventView::Current(None)) => (done, RetryActionView::Ignore),
        (RetryPhase::Checking, RetryEventView::Current(Some(m))) => if m.0
            != MessageState::Retrying {
            (done, RetryActionView::Ignore)
        } else if m.1 >= MAX_RETRIES {
            (
                done,
                RetryActionView::Finish(
                    StoreUpdateView::Failed {
                        code: NOT_FORWARDED,
                        reason: "max retries exceeded"@,
                    },
                ),
            )
        } else if m.2 {
            (done, RetryActionView::Finish(StoreUpdateView::Expired))
        } else {
            (
                RetryingView { attempts: m.1, phase: RetryPhase::Routing, ..r },
                RetryActionView::AskRoute,
            )
        },
        (RetryPhase::Routing, RetryEventView::Routed(None)) => (
            done,
            RetryActionView::Finish(
                StoreUpdateView::Failed { code: NO_ROUTE, reason: "no route found"@ },
            ),
        ),
        (RetryPhase::Routing, RetryEventView::Routed(Some(clusters))) => (
            RetryingView { clusters, tried: 0, phase: RetryPhase::Trying, ..r },
            RetryActionView::Try(clusters[0]),
        ),
        (RetryPhase::Trying, RetryEventView::Attempted(Some(upstream_id))) => (
            done,
            RetryActionView::Finish(
                StoreUpdateView::InFlight {
                    smsc_message_id: upstream_id,
                    cluster: r.clusters[r.tried as int],
                    endpoint: "upstream"@,
                },
            ),
        ),
        (RetryPhase::Trying, RetryEventView::Attempted(None)) => {
            let failed = RetryingView { tried: r.tried + 1, ..r };
            if failed.tried < r.clusters.len() {
                (failed, RetryActionView::Try(r.clusters[failed.tried as int]))
            } else {
                (
                    RetryingView { phase: RetryPhase::Done, ..failed },
                    RetryActionView::Finish(
                        StoreUpdateView::Retry {
                            delay: backoff_millis(base, max, r.attempts as nat) * 1_000_000,
                            code: NOT_FORWARDED,
                            reason: "all clusters failed"@,
                        },
                    ),
                )
            }
        },
        _ => (r, RetryActionView::Ignore),
    }
}

/// A try at its start.
pub open spec fn new_retrying() -> RetryingView {
    RetryingView { attempts: 0, clusters: seq![], tried: 0, phase: RetryPhase::Checking }
}

impl Retrying {
    #[verifier::type_invariant]
    spec fn next_exists(self) -> bool {
        &&& self.phase == RetryPhase::Trying ==> self.tried < self.clusters@.len()
        &&& self.attempts < MAX_RETRIES
    }

    /// A try at its start.
    pub fn new() -> (r: Self)
        ensures
            r@ == new_retrying(),
    {
        let r = Retrying { attempts: 0, clusters: Vec::new(), tried: 0, phase: RetryPhase::Checking };
        assert(r@ =~= new_retrying());
        r
    }

    /// Number of the coming attempt.
    pub fn attempt(&self) -> (n: u32)
        ensures
            n == self@.attempts + 1,
    {
        proof {
            use_type_invariant(self);
        }
        self.attempts + 1
    }

    /// Takes note of an event, and says what is to be done next.
    pub fn step(&mut self, event: RetryEvent, processor: &RetryProcessor) -> (action: RetryAction)
        requires
            processor.well_formed(),
        ensures
            (final(self)@, action@) == retry_step(
                old(self)@,
                event@,
                processor.base(),
                processor.max(),
            ),
            final(self)@.attempts < MAX_RETRIES,
    {
        proof {
            use_type_invariant(&*self);
        }
        match (self.phase, event) {
            (RetryPhase::Checking, RetryEvent::Current(None)) => {
                self.phase = RetryPhase::Done;
                RetryAction::Ignore
            },
            (RetryPhase::Checking, RetryEvent::Current(Some(current))) => {
                if current.state != MessageState::Retrying {
                    self.phase = RetryPhase::Done;
                    RetryAction::Ignore
                } else if current.attempts >= MAX_RETRIES {
                    self.phase = RetryPhase::Done;
                    RetryAction::Finish(
                        StoreUpdate::Failed {
                            code: NOT_FORWARDED,
                            reason: "max retries exceeded".to_string(),
                        },
                    )
                } else if current.expired {
                    self.phase = RetryPhase::Done;
                    RetryAction::Finish(StoreUpdate::Expired)
                } else {
                    self.attempts = current.attempts;
                    self.phase = RetryPhase::Routing;
                    RetryAction::AskRoute
                }
            },
            (RetryPhase::Routing, RetryEvent::Routed(None)) => {
                self.phase = RetryPhase::Done;
                RetryAction::Finish(
                    StoreUpdate::Failed { code: NO_ROUTE, reason: "no route found".to_string() },
                )
            },
            (RetryPhase::Routing, RetryEvent::Routed(Some(route))) => {
                let clusters = clusters_to_try(route.cluster_name.as_str(), &route.fallback);
                let first = clusters[0].clone();
                assert(first@ == texts(clusters@)[0]);
                self.clusters = clusters;
                self.tried = 0;
                self.phase = RetryPhase::Trying;
                RetryAction::Try(first)
            },
            (RetryPhase::Trying, RetryEvent::Attempted(Ok(upstream_id))) => {
                let cluster = self.clusters[self.tried].clone();
                self.phase = RetryPhase::Done;
                RetryAction::Finish(
                    StoreUpdate::InFlight {
                        smsc_message_id: upstream_id,
                        cluster,
                        endpoint: "upstream".to_string(),
                    },
                )
            },
            (RetryPhase::Trying, RetryEvent::Attempted(Err(_))) => {
                let count: usize = self.clusters.len();
                if self.tried + 1 < count {
                    self.tried = self.tried + 1;
                    RetryAction::Try(self.clusters[self.tried].clone())
                } else {
                    self.phase = RetryPhase::Done;
                    self.tried = self.tried + 1;
                    proof {
                        grows_with_attempts(
                            processor.base(),
                            self.attempts as nat,
                            (MAX_RETRIES - 1) as nat,
                        );
                    }
                    RetryAction::Finish(
                        StoreUpdate::Retry {
                            delay: processor.calculate_backoff(self.attempts),
                            code: NOT_FORWARDED,
                            reason: "all clusters failed".to_string(),
                        },
                    )
                }
            },
            _ => RetryAction::Ignore,
        }
    }
}

/// A message that was sent as often as allowed is given up, whatever else
/// holds of it.
pub proof fn retries_are_limited(attempts: u32, expired: bool, base: nat, max: nat)
    requires
        attempts >= MAX_RETRIES,
    ensures
        retry_step(
            new_retrying(),
            RetryEventView::Current(Some((MessageState::Retrying, attempts, expired))),
            base,
            max,
        ).1 == RetryActionView::Finish(
            StoreUpdateView::Failed { code: NOT_FORWARDED, reason: "max retries exceeded"@ },
        ),
{
}

/// A message whose state is no longer that of waiting is left alone.
pub proof fn others_are_left_alone(
    state: MessageState,
    attempts: u32,
    expired: bool,
    base: nat,
    max: nat,
)
    requires
        state != MessageState::Retrying,
    ensures
        ({
            let (r, action) = retry_step(
                new_retrying(),
                RetryEventView::Current(Some((state, attempts, expired))),
                base,
                max,
            );
            r.phase == RetryPhase::Done && action == RetryActionView::Ignore
        }),
{
}

/// A try ends with one change to the stored message, and after that nothing
/// more happens.
pub proof fn tries_end_once(r: RetryingView, event: RetryEventView, base: nat, max: nat)
    ensures
        ({
            let (after, action) = retry_step(r, event, base, max);
            &&& action is Finish ==> after.phase == RetryPhase::Done
            &&& r.phase == RetryPhase::Done ==> after == r && action == RetryActionView::Ignore
        }),
{
}

} // verus!
