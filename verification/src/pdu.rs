//! The parts of SMPP protocol data units that the proxy reads and writes.

use vstd::prelude::*;

verus! {

/// A command status.
#[derive(Debug, Clone, Copy, PartialEq, Eq, Structural)]
pub enum Status {
    /// No error.
    Success,
    /// The message length is invalid.
    InvalidMessageLength,
    /// The command identifier is invalid.
    InvalidCommandId,
    /// The command does not fit the state of the binding.
    InvalidBindStatus,
    /// A system error.
    SystemError,
    /// The source address is invalid.
    InvalidSourceAddress,
    /// The destination address is invalid.
    InvalidDestAddress,
    /// The bind failed.
    BindFailed,
    /// The password is invalid.
    InvalidPassword,
    /// The message was refused because of a rate limit.
    Throttled,
    /// Any other status, by its number.
    Code(u32),
}

/// The status with a number of the protocol.
pub open spec fn status_of(number: u32) -> Status {
    if number == 0 {
        Status::Success
    } else if number == 0x01 {
        Status::InvalidMessageLength
    } else if number == 0x03 {
        Status::InvalidCommandId
    } else if number == 0x04 {
        Status::InvalidBindStatus
    } else if number == 0x08 {
        Status::SystemError
    } else if number == 0x0A {
        Status::InvalidSourceAddress
    } else if number == 0x0B {
        Status::InvalidDestAddress
    } else if number == 0x0D {
        Status::BindFailed
    } else if number == 0x0E {
        Status::InvalidPassword
    } else if number == 0x58 {
        Status::Throttled
    } else {
        Status::Code(number)
    }
}

/// The number of a status in the protocol.
pub open spec fn status_number(status: Status) -> u32 {
    match status {
        Status::Success => 0,
        Status::InvalidMessageLength => 0x01,
        Status::InvalidCommandId => 0x03,
        Status::InvalidBindStatus => 0x04,
        Status::SystemError => 0x08,
        Status::InvalidSourceAddress => 0x0A,
        Status::InvalidDestAddress => 0x0B,
        Status::BindFailed => 0x0D,
        Status::InvalidPassword => 0x0E,
        Status::Throttled => 0x58,
        Status::Code(number) => number,
    }
}

impl Status {
    /// The status with a number of the protocol.
    pub fn from_u32(number: u32) -> (status: Self)
        ensures
            status == status_of(number),
    {
        match number {
            0 => Status::Success,
            0x01 => Status::InvalidMessageLength,
            0x03 => Status::InvalidCommandId,
            0x04 => Status::InvalidBindStatus,
            0x08 => Status::SystemError,
            0x0A => Status::InvalidSourceAddress,
            0x0B => Status::InvalidDestAddress,
            0x0D => Status::BindFailed,
            0x0E => Status::InvalidPassword,
            0x58 => Status::Throttled,
            _ => Status::Code(number),
        }
    }
}

/// A status that was made from a number has that number.
pub proof fn statuses_keep_their_numbers(number: u32)
    ensures
        status_number(status_of(number)) == number,
{
}

/// Every status has its number in the protocol, and a number that stands for
/// none of them stays a number.
pub proof fn numbers_stand_for_their_status(number: u32)
    ensures
        status_of(number) is Success <==> number == 0,
        status_of(number) is InvalidMessageLength <==> number == 1,
        status_of(number) is InvalidCommandId <==> number == 3,
        status_of(number) is InvalidBindStatus <==> number == 4,
        status_of(number) is SystemError <==> number == 8,
        status_of(number) is InvalidSourceAddress <==> number == 10,
        status_of(number) is InvalidDestAddress <==> number == 11,
        status_of(number) is BindFailed <==> number == 13,
        status_of(number) is InvalidPassword <==> number == 14,
        status_of(number) is Throttled <==> number == 88,
        status_of(number) matches Status::Code(n) ==> n == number,
{
}

/// A submitted message.
#[derive(Debug)]
pub struct SubmitSm {
    pub service_type: String,
    pub source_addr_ton: u8,
    pub source_addr_npi: u8,
    pub source_addr: String,
    pub dest_addr_ton: u8,
    pub dest_addr_npi: u8,
    pub dest_addr: String,
    pub esm_class: u8,
    pub protocol_id: u8,
    pub priority_flag: u8,
    pub schedule_delivery_time: String,
    pub validity_period: String,
    pub registered_delivery: u8,
    pub replace_if_present_flag: u8,
    pub data_coding: u8,
    pub sm_default_msg_id: u8,
    pub short_message: Vec<u8>,
}

/// A copy of a byte string.
pub fn copy_bytes(bytes: &Vec<u8>) -> (copy: Vec<u8>)
    ensures
        copy@ == bytes@,
{
    let copy = bytes.clone();
    assert(copy@ =~= bytes@);
    copy
}

impl Clone for SubmitSm {
    fn clone(&self) -> (res: Self)
        ensures
            res.same(*self),
    {
        SubmitSm {
            service_type: self.service_type.clone(),
            source_addr_ton: self.source_addr_ton,
            source_addr_npi: self.source_addr_npi,
            source_addr: self.source_addr.clone(),
            dest_addr_ton: self.dest_addr_ton,
            dest_addr_npi: self.dest_addr_npi,
            dest_addr: self.dest_addr.clone(),
            esm_class: self.esm_class,
            protocol_id: self.protocol_id,
            priority_flag: self.priority_flag,
            schedule_delivery_time: self.schedule_delivery_time.clone(),
            validity_period: self.validity_period.clone(),
            registered_delivery: self.registered_delivery,
            replace_if_present_flag: self.replace_if_present_flag,
            data_coding: self.data_coding,
            sm_default_msg_id: self.sm_default_msg_id,
            short_message: copy_bytes(&self.short_message),
        }
    }
}

impl SubmitSm {
    /// Two messages with the same fields.
    pub open spec fn same(self, other: SubmitSm) -> bool {
        &&& self.service_type@ == other.service_type@
        &&& self.source_addr_ton == other.source_addr_ton
        &&& self.source_addr_npi == other.source_addr_npi
        &&& self.source_addr@ == other.source_addr@
        &&& self.dest_addr_ton == other.dest_addr_ton
        &&& self.dest_addr_npi == other.dest_addr_npi
        &&& self.dest_addr@ == other.dest_addr@
        &&& self.esm_class == other.esm_class
        &&& self.protocol_id == other.protocol_id
        &&& self.priority_flag == other.priority_flag
        &&& self.schedule_delivery_time@ == other.schedule_delivery_time@
        &&& self.validity_period@ == other.validity_period@
        &&& self.registered_delivery == other.registered_delivery
        &&& self.replace_if_present_flag == other.replace_if_present_flag
        &&& self.data_coding == other.data_coding
        &&& self.sm_default_msg_id == other.sm_default_msg_id
        &&& self.short_message@ == other.short_message@
    }
}

/// The fields of a bind request.
#[derive(Debug, Clone)]
pub struct BindFields {
    pub system_id: String,
    pub password: String,
}

/// A unit received from a peer.
#[derive(Debug, Clone)]
pub enum Pdu {
    BindTransmitter(BindFields),
    BindReceiver(BindFields),
    BindTransceiver(BindFields),
    BindTransmitterResp(String),
    BindReceiverResp(String),
    BindTransceiverResp(String),
    Unbind,
    UnbindResp,
    EnquireLink,
    EnquireLinkResp,
    SubmitSm(SubmitSm),
    SubmitSmResp(String),
    DeliverSmResp,
    GenericNack,
    /// Any other unit.
    Other,
}

/// A copy of a message is the message in all its parts.
pub proof fn copies_are_the_same(a: SubmitSm, b: SubmitSm)
    requires
        a.same(b),
    ensures
        a.service_type@ == b.service_type@,
        a.source_addr@ == b.source_addr@,
        a.dest_addr@ == b.dest_addr@,
        a.source_addr_ton == b.source_addr_ton && a.source_addr_npi == b.source_addr_npi,
        a.dest_addr_ton == b.dest_addr_ton && a.dest_addr_npi == b.dest_addr_npi,
        a.esm_class == b.esm_class && a.protocol_id == b.protocol_id,
        a.priority_flag == b.priority_flag && a.registered_delivery == b.registered_delivery,
        a.schedule_delivery_time@ == b.schedule_delivery_time@,
        a.validity_period@ == b.validity_period@,
        a.replace_if_present_flag == b.replace_if_present_flag,
        a.data_coding == b.data_coding && a.sm_default_msg_id == b.sm_default_msg_id,
        a.short_message@ == b.short_message@,
{
}

} // verus!
