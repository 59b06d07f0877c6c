//! What the forwarder reads of stored messages and writes to them.

use crate::bootstrap::events::MessageId;
use crate::collections::texts;
use crate::pdu::{copy_bytes, SubmitSm};
use crate::text::opt_text;
use crate::time::Duration;
use vstd::prelude::*;

verus! {

/// State of a stored message.
#[derive(Debug, Clone, Copy, PartialEq, Eq, Structural)]
pub enum MessageState {
    /// It was not sent yet.
    Pending,
    /// It was sent upstream.
    InFlight,
    /// It waits for another try.
    Retrying,
    /// It was delivered.
    Delivered,
    /// It could not be delivered.
    Failed,
    /// It was not delivered in time.
    Expired,
}

/// A stored message.
#[derive(Debug)]
pub struct StoredMessage {
    pub id: MessageId,
    /// The client that submitted it.
    pub system_id: String,
    /// Message ID that an upstream endpoint gave.
    pub smsc_message_id: Option<String>,
    pub state: MessageState,
    /// How often it was sent.
    pub attempts: u32,
    /// Whether its time is over.
    pub expired: bool,
    pub source: String,
    pub destination: String,
    pub service_type: Option<String>,
    pub esm_class: u8,
    pub registered_delivery: u8,
    pub data_coding: u8,
    pub short_message: Vec<u8>,
}

/// A message that is to be stored.
#[derive(Debug)]
pub struct NewMessage {
    pub source: String,
    pub destination: String,
    pub short_message: Vec<u8>,
    /// The client that submitted it.
    pub system_id: String,
    pub sequence_number: u32,
    pub data_coding: u8,
    pub esm_class: u8,
    pub registered_delivery: u8,
}

impl NewMessage {
    /// What is stored of a request of a client.
    pub fn from_submit(submit: &SubmitSm, system_id: &str, sequence_number: u32) -> (m: Self)
        ensures
            m.source@ == submit.source_addr@,
            m.destination@ == submit.dest_addr@,
            m.short_message@ == submit.short_message@,
            m.system_id@ == system_id@,
            m.sequence_number == sequence_number,
            m.data_coding == submit.data_coding,
            m.esm_class == submit.esm_class,
            m.registered_delivery == submit.registered_delivery,
    {
        NewMessage {
            source: submit.source_addr.clone(),
            destination: submit.dest_addr.clone(),
            short_message: copy_bytes(&submit.short_message),
            system_id: system_id.to_string(),
            sequence_number,
            data_coding: submit.data_coding,
            esm_class: submit.esm_class,
            registered_delivery: submit.registered_delivery,
        }
    }
}

/// A change to a stored message.
#[derive(Debug)]
pub enum StoreUpdate {
    /// It failed.
    Failed { code: u32, reason: String },
    /// It was sent upstream.
    InFlight { smsc_message_id: String, cluster: String, endpoint: String },
    /// It waits for another try.
    Retry { delay: Duration, code: u32, reason: String },
    /// Its time is over.
    Expired,
    /// An upstream endpoint answered.
    Response { status: u32, message_id: String },
    /// A receipt came. With a final status the state changes, and a failure
    /// leaves its reason.
    Receipt {
        status: String,
        error_code: Option<u32>,
        state: MessageState,
        last_error: Option<String>,
    },
}

/// A change to a stored message.
#[verifier::ext_equal]
pub enum StoreUpdateView {
    Failed { code: u32, reason: Seq<char> },
    InFlight { smsc_message_id: Seq<char>, cluster: Seq<char>, endpoint: Seq<char> },
    Retry { delay: nat, code: u32, reason: Seq<char> },
    Expired,
    Response { status: u32, message_id: Seq<char> },
    Receipt {
        status: Seq<char>,
        error_code: Option<u32>,
        state: MessageState,
        last_error: Option<Seq<char>>,
    },
}

impl View for StoreUpdate {
    type V = StoreUpdateView;

    open spec fn view(&self) -> StoreUpdateView {
        match self {
            StoreUpdate::Failed { code, reason } => StoreUpdateView::Failed {
                code: *code,
                reason: reason@,
            },
            StoreUpdate::InFlight { smsc_message_id, cluster, endpoint } => {
                StoreUpdateView::InFlight {
                    smsc_message_id: smsc_message_id@,
                    cluster: cluster@,
                    endpoint: endpoint@,
                }
            },
            StoreUpdate::Retry { delay, code, reason } => StoreUpdateView::Retry {
                delay: delay@,
                code: *code,
                reason: reason@,
            },
            StoreUpdate::Expired => StoreUpdateView::Expired,
            StoreUpdate::Response { status, message_id } => StoreUpdateView::Response {
                status: *status,
                message_id: message_id@,
            },
            StoreUpdate::Receipt { status, error_code, state, last_error } => {
                StoreUpdateView::Receipt {
                    status: status@,
                    error_code: *error_code,
                    state: *state,
                    last_error: opt_text(*last_error),
                }
            },
        }
    }
}

/// Where the router sends a message.
#[derive(Debug)]
pub struct RouteResult {
    pub route_name: String,
    pub cluster_name: String,
    /// Clusters to try when the first one fails.
    pub fallback: Vec<String>,
}

/// The clusters that a route leads to, in the order in which they are tried.
pub open spec fn clusters_of(cluster: Seq<char>, fallback: Seq<String>) -> Seq<Seq<char>> {
    seq![cluster] + texts(fallback)
}

/// The clusters that a route leads to, in the order in which they are tried.
pub fn clusters_to_try(cluster: &str, fallback: &Vec<String>) -> (clusters: Vec<String>)
    ensures
        texts(clusters@) == clusters_of(cluster@, fallback@),
        clusters@.len() == fallback@.len() + 1,
{
    let mut clusters: Vec<String> = Vec::new();
    clusters.push(cluster.to_string());
    let mut i: usize = 0;
    while i < fallback.len()
        invariant
            i <= fallback.len(),
            clusters@.len() == i + 1,
            clusters@[0]@ == cluster@,
            forall|j: int| 0 <= j < i ==> (#[trigger] clusters@[j + 1])@ == fallback@[j]@,
        decreases fallback.len() - i,
    {
        clusters.push(fallback[i].clone());
        i += 1;
    }
    proof {
        let listed = texts(clusters@);
        let wanted = clusters_of(cluster@, fallback@);
        assert(listed.len() == wanted.len());
        assert forall|j: int| 0 <= j < listed.len() implies listed[j] == wanted[j] by {
            if j > 0 {
                assert(clusters@[(j - 1) + 1]@ == fallback@[j - 1]@);
            }
        }
        assert(listed =~= wanted);
    }
    clusters
}

} // verus!
