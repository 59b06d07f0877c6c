//! A mock that answers in place of an upstream endpoint.

use crate::config::types::{MockConfig, MockResponse};
use crate::pdu::{status_of, Pdu, Status};
use crate::text::{hex_digits, push_hex};
use crate::time::Duration;
use vstd::prelude::*;

verus! {

/// What a mock keeps count of.
#[verifier::ext_equal]
pub struct MockView {
    /// What it answers.
    pub response: MockResponse,
    /// How long it takes.
    pub latency: nat,
    /// Number of the next message.
    pub next: u64,
    /// Requests.
    pub requests: u64,
    /// Successful answers.
    pub successes: u64,
    /// Errors.
    pub errors: u64,
}

/// What a mock answers: a message ID or a status.
#[verifier::ext_equal]
pub enum MockAnswer {
    /// Success, with a message ID.
    Success(Seq<char>),
    /// An error.
    Error(Status),
}

/// One more, with zero after the greatest number.
pub open spec fn wrap_up(n: u64) -> u64 {
    if n == u64::MAX {
        0
    } else {
        (n + 1) as u64
    }
}

/// The ID of a message with a number.
pub open spec fn mock_id(n: u64) -> Seq<char> {
    "MOCK"@ + hex_digits(n as nat, 16)
}

/// The mock after an answer, and the answer.
pub open spec fn mock_answered(m: MockView) -> (MockView, MockAnswer) {
    let fails = match m.response {
        MockResponse::Success => None,
        MockResponse::Error { code } => Some(status_of(code)),
        MockResponse::Random { error_percent } => if m.next % 100 < error_percent {
            Some(Status::SystemError)
        } else {
            None
        },
    };
    match fails {
        Some(status) => (
            MockView { errors: wrap_up(m.errors), ..m },
            MockAnswer::Error(status),
        ),
        None => (
            MockView { next: wrap_up(m.next), successes: wrap_up(m.successes), ..m },
            MockAnswer::Success(mock_id(m.next)),
        ),
    }
}

/// A mock of an upstream endpoint.
#[derive(Debug)]
pub struct MockSmsc {
    response: MockResponse,
    latency: Duration,
    message_counter: u64,
    request_count: u64,
    success_count: u64,
    error_count: u64,
}

impl View for MockSmsc {
    type V = MockView;

    closed spec fn view(&self) -> MockView {
        MockView {
            response: self.response,
            latency: self.latency@,
            next: self.message_counter,
            requests: self.request_count,
            successes: self.success_count,
            errors: self.error_count,
        }
    }
}

/// A mock that has answered nothing.
pub open spec fn new_mock(response: MockResponse, latency: nat) -> MockView {
    MockView { response, latency, next: 1, requests: 0, successes: 0, errors: 0 }
}

/// Result of a mock.
#[derive(Debug)]
pub enum MockResult {
    /// Success.
    Success { message_id: String, pdu: Pdu },
    /// An error.
    Error { status: Status },
}

impl MockResult {
    /// What was answered.
    pub open spec fn answer(&self) -> MockAnswer {
        match self {
            MockResult::Success { message_id, pdu } => MockAnswer::Success(message_id@),
            MockResult::Error { status } => MockAnswer::Error(*status),
        }
    }

    /// A success carries a response with the message ID.
    pub open spec fn well_formed(&self) -> bool {
        self matches MockResult::Success { message_id, pdu } ==> (pdu matches Pdu::SubmitSmResp(id)
            && id@ == message_id@)
    }

    /// Whether it is a success.
    pub fn is_success(&self) -> (b: bool)
        ensures
            b == (self.answer() is Success),
    {
        match self {
            MockResult::Success { .. } => true,
            MockResult::Error { .. } => false,
        }
    }

    /// The message ID of a success.
    pub fn message_id(&self) -> (id: Option<&str>)
        ensures
            match id {
                Some(id) => self.answer() == MockAnswer::Success(id@),
                None => self.answer() is Error,
            },
    {
        match self {
            MockResult::Success { message_id, .. } => Some(message_id.as_str()),
            MockResult::Error { .. } => None,
        }
    }

    /// The status.
    pub fn status(&self) -> (s: Status)
        ensures
            s == match self.answer() {
                MockAnswer::Success(_) => Status::Success,
                MockAnswer::Error(status) => status,
            },
    {
        match self {
            MockResult::Success { .. } => Status::Success,
            MockResult::Error { status } => *status,
        }
    }
}

impl MockSmsc {
    /// A mock by its configuration.
    pub fn new(config: &MockConfig) -> (m: Self)
        ensures
            m@ == new_mock(config.response, config.latency@),
    {
        MockSmsc {
            response: config.response,
            latency: config.latency,
            message_counter: 1,
            request_count: 0,
            success_count: 0,
            error_count: 0,
        }
    }

    /// A mock that always succeeds.
    pub fn success() -> (m: Self)
        ensures
            m@ == new_mock(MockResponse::Success, 0),
    {
        MockSmsc::new(
            &MockConfig { response: MockResponse::Success, latency: Duration::from_secs(0) },
        )
    }

    /// A mock that always answers with an error.
    pub fn error(code: u32) -> (m: Self)
        ensures
            m@ == new_mock(MockResponse::Error { code }, 0),
    {
        MockSmsc::new(
            &MockConfig { response: MockResponse::Error { code }, latency: Duration::from_secs(0) },
        )
    }

    /// A mock that fails for some of the messages, in whole percent.
    pub fn random(error_percent: u64) -> (m: Self)
        ensures
            m@ == new_mock(MockResponse::Random { error_percent }, 0),
    {
        MockSmsc::new(
            &MockConfig {
                response: MockResponse::Random { error_percent },
                latency: Duration::from_secs(0),
            },
        )
    }

    /// The mock with some latency.
    pub fn with_latency(self, latency: Duration) -> (m: Self)
        ensures
            m@ == (MockView { latency: latency@, ..self@ }),
    {
        MockSmsc { latency, ..self }
    }

    /// Counts a request, and says how long to wait before the answer.
    pub fn begin(&mut self) -> (wait: Duration)
        ensures
            final(self)@ == (MockView { requests: wrap_up(old(self)@.requests), ..old(self)@ }),
            wait@ == old(self)@.latency,
    {
        self.request_count = self.request_count.wrapping_add(1);
        self.latency
    }

    fn next_message_id(&mut self) -> (id: String)
        ensures
            id@ == mock_id(old(self)@.next),
            final(self)@ == (MockView { next: wrap_up(old(self)@.next), ..old(self)@ }),
    {
        let mut id = "MOCK".to_string();
        push_hex(&mut id, self.message_counter, 16);
        self.message_counter = self.message_counter.wrapping_add(1);
        id
    }

    /// Answers a request that was counted.
    pub fn answer(&mut self) -> (result: MockResult)
        ensures
            (final(self)@, result.answer()) == mock_answered(old(self)@),
            result.well_formed(),
    {
        let failure = match self.response {
            MockResponse::Success => None,
            MockResponse::Error { code } => Some(Status::from_u32(code)),
            MockResponse::Random { error_percent } => {
                if self.message_counter % 100 < error_percent {
                    Some(Status::SystemError)
                } else {
                    None
                }
            },
        };
        match failure {
            Some(status) => {
                self.error_count = self.error_count.wrapping_add(1);
                MockResult::Error { status }
            },
            None => {
                let message_id = self.next_message_id();
                self.success_count = self.success_count.wrapping_add(1);
                MockResult::Success {
                    message_id: message_id.clone(),
                    pdu: Pdu::SubmitSmResp(message_id),
                }
            },
        }
    }

    /// Counts a request and answers it.
    pub fn submit_sm(&mut self) -> (result: MockResult)
        ensures
            (final(self)@, result.answer()) == mock_answered(
                MockView { requests: wrap_up(old(self)@.requests), ..old(self)@ },
            ),
            result.well_formed(),
    {
        self.begin();
        self.answer()
    }

    /// Number of requests.
    pub fn request_count(&self) -> (n: u64)
        ensures
            n == self@.requests,
    {
        self.request_count
    }

    /// Number of successful answers.
    pub fn success_count(&self) -> (n: u64)
        ensures
            n == self@.successes,
    {
        self.success_count
    }

    /// Number of errors.
    pub fn error_count(&self) -> (n: u64)
        ensures
            n == self@.errors,
    {
        self.error_count
    }
}

/// Every answer counts as a success or as an error, and as one of them only.
pub proof fn answers_are_counted(m: MockView)
    requires
        m.successes < u64::MAX,
        m.errors < u64::MAX,
    ensures
        ({
            let (after, answer) = mock_answered(m);
            &&& after.successes + after.errors == m.successes + m.errors + 1
            &&& after.successes == m.successes + if answer is Success {
                1int
            } else {
                0
            }
        }),
{
}

proof fn hex_digits_differ(m: nat, n: nat, width: nat)
    requires
        hex_digits(m, width) == hex_digits(n, width),
        m < vstd::arithmetic::power::pow(16, width),
        n < vstd::arithmetic::power::pow(16, width),
    ensures
        m == n,
    decreases width,
{
    reveal(vstd::arithmetic::power::pow);
    if width > 0 {
        let a = hex_digits(m / 16, (width - 1) as nat);
        let b = hex_digits(n / 16, (width - 1) as nat);
        assert(a == a.push(crate::text::hex_char(m % 16)).drop_last());
        assert(b == b.push(crate::text::hex_char(n % 16)).drop_last());
        assert(a.push(crate::text::hex_char(m % 16)).last() == b.push(
            crate::text::hex_char(n % 16),
        ).last());
        hex_digits_differ(m / 16, n / 16, (width - 1) as nat);
    }
}

/// Messages with different numbers have different IDs.
pub proof fn message_ids_differ(m: u64, n: u64)
    requires
        m != n,
    ensures
        mock_id(m) != mock_id(n),
{
    if mock_id(m) == mock_id(n) {
        let a = hex_digits(m as nat, 16);
        let b = hex_digits(n as nat, 16);
        assert(a == mock_id(m).skip("MOCK"@.len() as int));
        assert(b == mock_id(n).skip("MOCK"@.len() as int));
        assert(vstd::arithmetic::power::pow(16, 16) == 0x1_0000_0000_0000_0000) by {
            reveal_with_fuel(vstd::arithmetic::power::pow, 17);
        }
        hex_digits_differ(m as nat, n as nat, 16);
    }
}

} // verus!
