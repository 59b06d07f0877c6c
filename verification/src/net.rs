//! Network addresses as plain numbers.

use vstd::prelude::*;

verus! {

/// An IP address, by its bits.
#[derive(Debug, Clone, Copy, PartialEq, Eq, Structural, Hash)]
pub enum IpAddr {
    V4(u32),
    V6(u128),
}

/// A network: an address and the number of its leading bits that count.
#[derive(Debug, Clone, Copy, PartialEq, Eq, Structural)]
pub struct IpNet {
    pub addr: IpAddr,
    pub prefix_len: u8,
}

/// Two 32-bit addresses agree on their first `prefix` bits.
pub open spec fn same_prefix_v4(a: u32, b: u32, prefix: u8) -> bool {
    if prefix == 0 {
        true
    } else if prefix >= 32 {
        a == b
    } else {
        a >> ((32 - prefix) as u32) == b >> ((32 - prefix) as u32)
    }
}

/// Two 128-bit addresses agree on their first `prefix` bits.
pub open spec fn same_prefix_v6(a: u128, b: u128, prefix: u8) -> bool {
    if prefix == 0 {
        true
    } else if prefix >= 128 {
        a == b
    } else {
        a >> ((128 - prefix) as u128) == b >> ((128 - prefix) as u128)
    }
}

/// An address lies in a network: the same family, and the same leading bits.
pub open spec fn net_contains(net: IpNet, ip: IpAddr) -> bool {
    match (net.addr, ip) {
        (IpAddr::V4(a), IpAddr::V4(b)) => same_prefix_v4(a, b, net.prefix_len),
        (IpAddr::V6(a), IpAddr::V6(b)) => same_prefix_v6(a, b, net.prefix_len),
        _ => false,
    }
}

/// What `std::net::IpAddr` makes of a text.
pub uninterp spec fn parsed_ip(text: Seq<char>) -> Option<IpAddr>;

/// What `ipnet::IpNet` makes of a text.
pub uninterp spec fn parsed_net(text: Seq<char>) -> Option<IpNet>;

/// The notation of an address, as `std::net::IpAddr` displays it.
pub uninterp spec fn ip_text(ip: IpAddr) -> Seq<char>;

/// The `FromStr` impl of `std::net::IpAddr` reads an address. The contract
/// names the result.
#[verifier::external_body]
pub(crate) fn parse_ip(text: &str) -> (ip: Option<IpAddr>)
    ensures
        ip == parsed_ip(text@),
{
    match ipnet::IpNet::new(text.parse().ok()?, 0).ok()? {
        ipnet::IpNet::V4(n) => Some(IpAddr::V4(u32::from(n.addr()))),
        ipnet::IpNet::V6(n) => Some(IpAddr::V6(u128::from(n.addr()))),
    }
}

/// The `FromStr` impl of `ipnet::IpNet` reads a network in CIDR notation. The
/// contract names the result.
#[verifier::external_body]
pub(crate) fn parse_net(text: &str) -> (net: Option<IpNet>)
    ensures
        net == parsed_net(text@),
{
    match text.parse::<ipnet::IpNet>().ok()? {
        ipnet::IpNet::V4(n) => Some(
            IpNet { addr: IpAddr::V4(u32::from(n.addr())), prefix_len: n.prefix_len() },
        ),
        ipnet::IpNet::V6(n) => Some(
            IpNet { addr: IpAddr::V6(u128::from(n.addr())), prefix_len: n.prefix_len() },
        ),
    }
}

/// The `Display` impl of `std::net::IpAddr` writes an address. The contract
/// names the text.
#[verifier::external_body]
pub(crate) fn display_ip(ip: IpAddr) -> (text: String)
    ensures
        text@ == ip_text(ip),
{
    match ip {
        IpAddr::V4(bits) => ipnet::Ipv4Net::new_assert(bits.into(), 32).addr().to_string(),
        IpAddr::V6(bits) => ipnet::Ipv6Net::new_assert(bits.into(), 128).addr().to_string(),
    }
}

impl IpNet {
    /// Whether an address lies in the network.
    pub fn contains(&self, ip: &IpAddr) -> (b: bool)
        ensures
            b == net_contains(*self, *ip),
    {
        match (self.addr, *ip) {
            (IpAddr::V4(a), IpAddr::V4(b)) => {
                if self.prefix_len == 0 {
                    true
                } else if self.prefix_len >= 32 {
                    a == b
                } else {
                    let host: u32 = (32 - self.prefix_len) as u32;
                    (a >> host) == (b >> host)
                }
            },
            (IpAddr::V6(a), IpAddr::V6(b)) => {
                if self.prefix_len == 0 {
                    true
                } else if self.prefix_len >= 128 {
                    a == b
                } else {
                    let host: u128 = (128 - self.prefix_len) as u128;
                    (a >> host) == (b >> host)
                }
            },
            _ => false,
        }
    }
}

impl IpAddr {
    /// Reads an address in its usual notation.
    pub fn parse(text: &str) -> (ip: Option<IpAddr>)
        ensures
            ip == parsed_ip(text@),
    {
        parse_ip(text)
    }

    /// The usual notation of the address.
    pub fn to_text(&self) -> (text: String)
        ensures
            text@ == ip_text(*self),
    {
        display_ip(*self)
    }
}

/// An address with a port.
#[derive(Debug, Clone, Copy, PartialEq, Eq, Structural)]
pub struct SocketAddr {
    pub ip: IpAddr,
    pub port: u16,
}

impl SocketAddr {
    /// The address.
    pub fn ip(&self) -> (ip: IpAddr)
        ensures
            ip == self.ip,
    {
        self.ip
    }

    /// The port.
    pub fn port(&self) -> (port: u16)
        ensures
            port == self.port,
    {
        self.port
    }
}

} // verus!
