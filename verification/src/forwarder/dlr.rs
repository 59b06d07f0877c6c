//! Delivery receipts.

use crate::bootstrap::events::MessageId;
use crate::forwarder::store::{MessageState, StoreUpdate, StoreUpdateView, StoredMessage};
use crate::text::{decode_lossy, opt_text, parse_number, parsed_number, same, utf8_lossy};
use vstd::prelude::*;

verus! {

/// What a receipt says of a message.
#[derive(Debug, Clone, Copy, PartialEq, Eq, Structural)]
pub enum DeliveryStatus {
    /// It is still being delivered.
    Enroute,
    /// It was delivered.
    Delivered,
    /// It was not delivered in time.
    Expired,
    /// It was deleted.
    Deleted,
    /// It cannot be delivered.
    Undeliverable,
    /// It was accepted.
    Accepted,
    /// It was rejected.
    Rejected,
    /// It was skipped.
    Skipped,
    /// Not known.
    Unknown,
}

/// A status after which no other comes.
pub open spec fn final_status(s: DeliveryStatus) -> bool {
    s is Delivered || s is Expired || s is Deleted || s is Undeliverable || s is Rejected
}

/// A status that says that a message was not delivered.
pub open spec fn failure_status(s: DeliveryStatus) -> bool {
    s is Expired || s is Deleted || s is Undeliverable || s is Rejected
}

/// The text of a status.
pub open spec fn status_text(s: DeliveryStatus) -> Seq<char> {
    match s {
        DeliveryStatus::Enroute => "ENROUTE"@,
        DeliveryStatus::Delivered => "DELIVRD"@,
        DeliveryStatus::Expired => "EXPIRED"@,
        DeliveryStatus::Deleted => "DELETED"@,
        DeliveryStatus::Undeliverable => "UNDELIV"@,
        DeliveryStatus::Accepted => "ACCEPTD"@,
        DeliveryStatus::Rejected => "REJECTD"@,
        DeliveryStatus::Skipped => "SKIPPED"@,
        DeliveryStatus::Unknown => "UNKNOWN"@,
    }
}

/// The status of a message state number.
pub open spec fn status_of(v: u8) -> DeliveryStatus {
    if v == 1 {
        DeliveryStatus::Enroute
    } else if v == 2 {
        DeliveryStatus::Delivered
    } else if v == 3 {
        DeliveryStatus::Expired
    } else if v == 4 {
        DeliveryStatus::Deleted
    } else if v == 5 {
        DeliveryStatus::Undeliverable
    } else if v == 6 {
        DeliveryStatus::Accepted
    } else if v == 8 {
        DeliveryStatus::Rejected
    } else if v == 9 {
        DeliveryStatus::Skipped
    } else {
        DeliveryStatus::Unknown
    }
}

impl DeliveryStatus {
    /// Whether no other status comes after this one.
    pub fn is_final(&self) -> (b: bool)
        ensures
            b == final_status(*self),
    {
        match self {
            DeliveryStatus::Delivered
            | DeliveryStatus::Expired
            | DeliveryStatus::Deleted
            | DeliveryStatus::Undeliverable
            | DeliveryStatus::Rejected => true,
            _ => false,
        }
    }

    /// Whether the message was delivered.
    pub fn is_success(&self) -> (b: bool)
        ensures
            b == (self is Delivered),
    {
        match self {
            DeliveryStatus::Delivered => true,
            _ => false,
        }
    }

    /// Whether the message was not delivered.
    pub fn is_failure(&self) -> (b: bool)
        ensures
            b == failure_status(*self),
    {
        match self {
            DeliveryStatus::Expired
            | DeliveryStatus::Deleted
            | DeliveryStatus::Undeliverable
            | DeliveryStatus::Rejected => true,
            _ => false,
        }
    }

    /// The text of the status.
    pub fn as_str(&self) -> (s: &'static str)
        ensures
            s@ == status_text(*self),
    {
        match self {
            DeliveryStatus::Enroute => "ENROUTE",
            DeliveryStatus::Delivered => "DELIVRD",
            DeliveryStatus::Expired => "EXPIRED",
            DeliveryStatus::Deleted => "DELETED",
            DeliveryStatus::Undeliverable => "UNDELIV",
            DeliveryStatus::Accepted => "ACCEPTD",
            DeliveryStatus::Rejected => "REJECTD",
            DeliveryStatus::Skipped => "SKIPPED",
            DeliveryStatus::Unknown => "UNKNOWN",
        }
    }
}

impl From<u8> for DeliveryStatus {
    fn from(v: u8) -> (s: Self) {
        if v == 1 {
            DeliveryStatus::Enroute
        } else if v == 2 {
            DeliveryStatus::Delivered
        } else if v == 3 {
            DeliveryStatus::Expired
        } else if v == 4 {
            DeliveryStatus::Deleted
        } else if v == 5 {
            DeliveryStatus::Undeliverable
        } else if v == 6 {
            DeliveryStatus::Accepted
        } else if v == 8 {
            DeliveryStatus::Rejected
        } else if v == 9 {
            DeliveryStatus::Skipped
        } else {
            DeliveryStatus::Unknown
        }
    }
}

impl vstd::std_specs::convert::FromSpecImpl<u8> for DeliveryStatus {
    open spec fn obeys_from_spec() -> bool {
        true
    }

    open spec fn from_spec(v: u8) -> DeliveryStatus {
        status_of(v)
    }
}

/// A final status is a success or a failure, and never both.
pub proof fn final_is_success_or_failure(s: DeliveryStatus)
    ensures
        final_status(s) <==> (s is Delivered || failure_status(s)),
        !(s is Delivered && failure_status(s)),
{
}

/// Tag of the parameter that names the message of a receipt.
pub const RECEIPTED_MESSAGE_ID: u16 = 0x001E;

/// Tag of the parameter with the state of that message.
pub const MESSAGE_STATE: u16 = 0x0427;

/// Tag of the parameter with the error of the network.
pub const NETWORK_ERROR_CODE: u16 = 0x0423;

/// How many stored messages of a state are searched for the one of a receipt.
pub const SEARCHED_MESSAGES: usize = 1000;

/// A message that an upstream endpoint delivers.
#[derive(Debug)]
pub struct DeliverSm {
    pub source_addr: String,
    pub dest_addr: String,
    /// Whether it is marked as a receipt.
    pub is_receipt: bool,
    pub short_message: Vec<u8>,
    /// The message that a receipt is for, as a parameter of its own.
    pub receipted_message_id: Option<String>,
    /// State of that message.
    pub message_state: Option<u8>,
    /// Error of the network.
    pub network_error_code: Option<u8>,
}

/// What the text of a receipt says.
#[derive(Debug)]
pub struct TextReceipt {
    pub message_id: String,
    pub status: DeliveryStatus,
    pub error_code: Option<String>,
    pub submit_date: Option<String>,
    pub done_date: Option<String>,
    pub text: Option<String>,
}

/// A delivery receipt.
#[derive(Debug)]
pub struct DeliveryReceipt {
    /// Message ID that the upstream endpoint gave.
    pub smsc_message_id: String,
    pub status: DeliveryStatus,
    pub error_code: Option<u32>,
    pub submit_date: Option<String>,
    pub done_date: Option<String>,
    pub text: Option<String>,
    /// The whole text.
    pub raw: String,
    pub source_addr: String,
    pub dest_addr: String,
}

/// A delivery receipt.
#[verifier::ext_equal]
pub struct ReceiptView {
    pub smsc_message_id: Seq<char>,
    pub status: DeliveryStatus,
    pub error_code: Option<u32>,
    pub submit_date: Option<Seq<char>>,
    pub done_date: Option<Seq<char>>,
    pub text: Option<Seq<char>>,
    pub raw: Seq<char>,
    pub source_addr: Seq<char>,
    pub dest_addr: Seq<char>,
}

impl View for DeliveryReceipt {
    type V = ReceiptView;

    open spec fn view(&self) -> ReceiptView {
        ReceiptView {
            smsc_message_id: self.smsc_message_id@,
            status: self.status,
            error_code: self.error_code,
            submit_date: opt_text(self.submit_date),
            done_date: opt_text(self.done_date),
            text: opt_text(self.text),
            raw: self.raw@,
            source_addr: self.source_addr@,
            dest_addr: self.dest_addr@,
        }
    }
}

/// An error code that is given as a text.
pub open spec fn text_code(code: Option<String>) -> Option<u32> {
    match code {
        Some(s) => match parsed_number(s@, u32::MAX as nat) {
            Some(n) => Some(n as u32),
            None => None,
        },
        None => None,
    }
}

/// The receipt that a delivered message is: by its text if that can be read,
/// else by its parameters, and none if it is not marked as one.
pub open spec fn receipt_of(deliver: DeliverSm, parsed: Option<TextReceipt>) -> Option<ReceiptView> {
    let raw = utf8_lossy(deliver.short_message@);
    if !deliver.is_receipt {
        None
    } else {
        match (parsed, deliver.receipted_message_id) {
            (Some(dlr), _) => Some(
                ReceiptView {
                    smsc_message_id: dlr.message_id@,
                    status: dlr.status,
                    error_code: text_code(dlr.error_code),
                    submit_date: opt_text(dlr.submit_date),
                    done_date: opt_text(dlr.done_date),
                    text: opt_text(dlr.text),
                    raw,
                    source_addr: deliver.source_addr@,
                    dest_addr: deliver.dest_addr@,
                },
            ),
            (None, Some(id)) => Some(
                ReceiptView {
                    smsc_message_id: id@,
                    status: status_of(
                        match deliver.message_state {
                            Some(v) => v,
                            None => 7,
                        },
                    ),
                    error_code: match deliver.network_error_code {
                        Some(e) => Some(e as u32),
                        None => None,
                    },
                    submit_date: None,
                    done_date: None,
                    text: None,
                    raw,
                    source_addr: deliver.source_addr@,
                    dest_addr: deliver.dest_addr@,
                },
            ),
            (None, None) => None,
        }
    }
}

/// The text of a delivered message.
pub fn receipt_text(deliver: &DeliverSm) -> (text: String)
    ensures
        text@ == utf8_lossy(deliver.short_message@),
{
    decode_lossy(&deliver.short_message)
}

/// The receipt that a delivered message is. What its text says as a receipt is
/// handed in.
pub fn parse_dlr(deliver: &DeliverSm, parsed: Option<TextReceipt>) -> (receipt: Option<
    DeliveryReceipt,
>)
    ensures
        match receipt {
            Some(r) => receipt_of(*deliver, parsed) == Some(r@),
            None => receipt_of(*deliver, parsed) is None,
        },
{
    if !deliver.is_receipt {
        return None;
    }
    let raw = receipt_text(deliver);
    match parsed {
        Some(dlr) => {
            let error_code = match &dlr.error_code {
                Some(s) => match parse_number(s.as_str(), u32::MAX as u64) {
                    Some(n) => Some(n as u32),
                    None => None,
                },
                None => None,
            };
            Some(
                DeliveryReceipt {
                    smsc_message_id: dlr.message_id,
                    status: dlr.status,
                    error_code,
                    submit_date: dlr.submit_date,
                    done_date: dlr.done_date,
                    text: dlr.text,
                    raw,
                    source_addr: deliver.source_addr.clone(),
                    dest_addr: deliver.dest_addr.clone(),
                },
            )
        },
        None => match &deliver.receipted_message_id {
            Some(id) => {
                let state: u8 = match deliver.message_state {
                    Some(v) => v,
                    None => 7,
                };
                let error_code = match deliver.network_error_code {
                    Some(e) => Some(e as u32),
                    None => None,
                };
                Some(
                    DeliveryReceipt {
                        smsc_message_id: id.clone(),
                        status: DeliveryStatus::from(state),
                        error_code,
                        submit_date: None,
                        done_date: None,
                        text: None,
                        raw,
                        source_addr: deliver.source_addr.clone(),
                        dest_addr: deliver.dest_addr.clone(),
                    },
                )
            },
            None => None,
        },
    }
}

/// A stored message has an upstream message ID.
pub open spec fn has_smsc_id(m: StoredMessage, id: Seq<char>) -> bool {
    m.smsc_message_id matches Some(s) && s@ == id
}

/// Position of the first message with an upstream message ID.
pub open spec fn first_with_id(messages: Seq<StoredMessage>, id: Seq<char>) -> Option<int>
    decreases messages.len(),
{
    if messages.len() == 0 {
        None
    } else {
        match first_with_id(messages.drop_last(), id) {
            Some(i) => Some(i),
            None => if has_smsc_id(messages.last(), id) {
                Some(messages.len() - 1)
            } else {
                None
            },
        }
    }
}

fn find_in(messages: &Vec<StoredMessage>, id: &str) -> (position: Option<usize>)
    ensures
        match position {
            Some(i) => first_with_id(messages@, id@) == Some(i as int) && i < messages@.len(),
            None => first_with_id(messages@, id@) is None,
        },
{
    let mut i: usize = 0;
    while i < messages.len()
        invariant
            i <= messages.len(),
            first_with_id(messages@.take(i as int), id@) is None,
        decreases messages.len() - i,
    {
        assert(messages@.take(i + 1).drop_last() == messages@.take(i as int));
        if let Some(s) = &messages[i].smsc_message_id {
            if same(s.as_str(), id) {
                proof {
                    found_stays_first(messages@, id@, i + 1);
                }
                return Some(i);
            }
        }
        i += 1;
    }
    assert(messages@.take(i as int) == messages@);
    None
}

proof fn found_stays_first(messages: Seq<StoredMessage>, id: Seq<char>, n: int)
    requires
        0 <= n <= messages.len(),
        first_with_id(messages.take(n), id) is Some,
    ensures
        first_with_id(messages, id) == first_with_id(messages.take(n), id),
    decreases messages.len(),
{
    if n < messages.len() {
        assert(messages.drop_last().take(n) == messages.take(n));
        found_stays_first(messages.drop_last(), id, n);
    } else {
        assert(messages.take(n) == messages);
    }
}

/// The stored message that a receipt is for: among those in flight first, then
/// among those that wait for another try.
pub open spec fn message_for(
    in_flight: Seq<StoredMessage>,
    retrying: Seq<StoredMessage>,
    id: Seq<char>,
) -> Option<StoredMessage> {
    match first_with_id(in_flight, id) {
        Some(i) => Some(in_flight[i]),
        None => match first_with_id(retrying, id) {
            Some(i) => Some(retrying[i]),
            None => None,
        },
    }
}

/// Finds the stored message that a receipt is for.
pub fn find_message_by_smsc_id<'a>(
    in_flight: &'a Vec<StoredMessage>,
    retrying: &'a Vec<StoredMessage>,
    smsc_id: &str,
) -> (message: Option<&'a StoredMessage>)
    ensures
        match message {
            Some(m) => message_for(in_flight@, retrying@, smsc_id@) == Some(*m),
            None => message_for(in_flight@, retrying@, smsc_id@) is None,
        },
{
    match find_in(in_flight, smsc_id) {
        Some(i) => Some(&in_flight[i]),
        None => match find_in(retrying, smsc_id) {
            Some(i) => Some(&retrying[i]),
            None => None,
        },
    }
}

/// The change that a receipt makes to its message; none while the message is
/// still on its way.
pub open spec fn receipt_update(status: DeliveryStatus, error_code: Option<u32>) -> Option<
    StoreUpdateView,
> {
    if !final_status(status) {
        None
    } else if status is Delivered {
        Some(
            StoreUpdateView::Receipt {
                status: status_text(status),
                error_code,
                state: MessageState::Delivered,
                last_error: None,
            },
        )
    } else {
        Some(
            StoreUpdateView::Receipt {
                status: status_text(status),
                error_code,
                state: MessageState::Failed,
                last_error: Some("DLR: "@ + status_text(status)),
            },
        )
    }
}

/// What is to be done about a delivered message.
#[derive(Debug)]
pub enum DlrDecision {
    /// It is no receipt.
    NotReceipt,
    /// It is a receipt for a message that is not known.
    Orphaned,
    /// It is a receipt for a stored message: change the message, and pass the
    /// receipt on to the client.
    Correlated { message_id: MessageId, system_id: String, update: Option<StoreUpdate> },
}

/// The optional change to a message.
pub open spec fn opt_update(update: Option<StoreUpdate>) -> Option<StoreUpdateView> {
    match update {
        Some(u) => Some(u@),
        None => None,
    }
}

/// What is done with a receipt, by the stored messages.
pub open spec fn dlr_processed(
    receipt: Option<DeliveryReceipt>,
    in_flight: Seq<StoredMessage>,
    retrying: Seq<StoredMessage>,
    decision: DlrDecision,
) -> bool {
    match receipt {
        None => decision is NotReceipt,
        Some(dlr) => match message_for(in_flight, retrying, dlr@.smsc_message_id) {
            None => decision is Orphaned,
            Some(m) => {
                &&& decision matches DlrDecision::Correlated { message_id, system_id, update }
                &&& message_id == m.id
                &&& system_id@ == m.system_id@
                &&& opt_update(update) == receipt_update(dlr@.status, dlr@.error_code)
            },
        },
    }
}

/// Decides what is to be done about a delivered message.
pub fn process_dlr(
    receipt: &Option<DeliveryReceipt>,
    in_flight: &Vec<StoredMessage>,
    retrying: &Vec<StoredMessage>,
) -> (decision: DlrDecision)
    ensures
        dlr_processed(*receipt, in_flight@, retrying@, decision),
{
    let dlr = match receipt {
        None => {
            return DlrDecision::NotReceipt;
        },
        Some(dlr) => dlr,
    };
    let message = match find_message_by_smsc_id(
        in_flight,
        retrying,
        dlr.smsc_message_id.as_str(),
    ) {
        None => {
            return DlrDecision::Orphaned;
        },
        Some(m) => m,
    };
    let status = dlr.status;
    let update = if status.is_success() {
        Some(
            StoreUpdate::Receipt {
                status: status.as_str().to_string(),
                error_code: dlr.error_code,
                state: MessageState::Delivered,
                last_error: None,
            },
        )
    } else if status.is_failure() {
        let mut error = "DLR: ".to_string();
        error.append(status.as_str());
        Some(
            StoreUpdate::Receipt {
                status: status.as_str().to_string(),
                error_code: dlr.error_code,
                state: MessageState::Failed,
                last_error: Some(error),
            },
        )
    } else {
        None
    };
    DlrDecision::Correlated {
        message_id: message.id,
        system_id: message.system_id.clone(),
        update,
    }
}

/// A receipt changes its message exactly if its status is final, and then to
/// delivered or to failed.
pub proof fn final_receipts_settle_the_message(status: DeliveryStatus, error_code: Option<u32>)
    ensures
        receipt_update(status, error_code) is Some <==> final_status(status),
        receipt_update(status, error_code) matches Some(
            StoreUpdateView::Receipt { state, .. },
        ) ==> state == (if status is Delivered {
            MessageState::Delivered
        } else {
            MessageState::Failed
        }),
{
}

/// The message that is found for a receipt has the receipt's message ID, and
/// where a message has it one is found.
pub proof fn receipts_find_their_message(
    in_flight: Seq<StoredMessage>,
    retrying: Seq<StoredMessage>,
    id: Seq<char>,
)
    ensures
        message_for(in_flight, retrying, id) matches Some(m) ==> has_smsc_id(m, id),
        (exists|i: int| 0 <= i < in_flight.len() && has_smsc_id(#[trigger] in_flight[i], id))
            ==> message_for(in_flight, retrying, id) is Some,
        (exists|i: int| 0 <= i < retrying.len() && has_smsc_id(#[trigger] retrying[i], id))
            ==> message_for(in_flight, retrying, id) is Some,
{
    first_is_right(in_flight, id);
    first_is_right(retrying, id);
}

proof fn first_is_right(messages: Seq<StoredMessage>, id: Seq<char>)
    ensures
        first_with_id(messages, id) matches Some(i) ==> 0 <= i < messages.len() && has_smsc_id(
            messages[i],
            id,
        ),
        first_with_id(messages, id) is None ==> forall|i: int|
            0 <= i < messages.len() ==> !has_smsc_id(#[trigger] messages[i], id),
    decreases messages.len(),
{
    if messages.len() > 0 {
        let front = messages.drop_last();
        first_is_right(front, id);
        if first_with_id(messages, id) is None {
            assert forall|i: int| 0 <= i < messages.len() implies !has_smsc_id(
                #[trigger] messages[i],
                id,
            ) by {
                if i < front.len() {
                    assert(front[i] == messages[i]);
                }
            }
        }
    }
}

} // verus!
