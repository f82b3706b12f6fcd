//! IP addresses and networks, and the network predicates built on them.

use vstd::prelude::*;

use crate::util::text::{push_char, push_decimal, spec_decimal};

verus! {

/// An IP address: IPv4 as a 32-bit and IPv6 as a 128-bit big-endian number.
#[derive(Debug, Clone, Copy, PartialEq, Eq, Structural)]
pub enum IpAddress {
    V4(u32),
    V6(u128),
}

/// An IP network in CIDR form: an address and a prefix length. The address
/// keeps its host bits, as `ipnetwork::IpNetwork` does.
#[derive(Debug, Clone, Copy, PartialEq, Eq, Structural)]
pub struct IpNet {
    pub addr: IpAddress,
    pub prefix: u8,
}

/// A socket address: IP address and port, with the IPv6 flow information
/// and scope identifier (zero for IPv4).
#[derive(Debug, Clone, Copy, PartialEq, Eq, Structural)]
pub struct SocketAddress {
    pub ip: IpAddress,
    pub port: u16,
    pub flowinfo: u32,
    pub scope_id: u32,
}

/// The number of bits of an address family.
pub open spec fn addr_width(a: IpAddress) -> nat {
    match a {
        IpAddress::V4(_) => 32,
        IpAddress::V6(_) => 128,
    }
}

/// The numeric value of an address.
pub open spec fn addr_value(a: IpAddress) -> nat {
    match a {
        IpAddress::V4(x) => x as nat,
        IpAddress::V6(x) => x as nat,
    }
}

impl IpNet {
    /// A valid network: the prefix does not exceed the address width.
    pub open spec fn wf(&self) -> bool {
        self.prefix <= addr_width(self.addr)
    }
}

/// Whether `a` lies in `net`: same family, and the leading `prefix` bits of
/// both addresses agree.
pub open spec fn spec_contains(net: IpNet, a: IpAddress) -> bool {
    addr_width(net.addr) == addr_width(a) && addr_value(net.addr) / vstd::arithmetic::power2::pow2(
        (addr_width(a) - net.prefix) as nat,
    ) == addr_value(a) / vstd::arithmetic::power2::pow2((addr_width(a) - net.prefix) as nat)
}

/// The four octets of an IPv4 address, most significant first.
pub open spec fn v4_octet(x: u32, i: nat) -> nat {
    if i == 0 {
        x as nat / 0x100_0000
    } else if i == 1 {
        (x as nat / 0x1_0000) % 256
    } else if i == 2 {
        (x as nat / 256) % 256
    } else {
        x as nat % 256
    }
}

/// Dotted-decimal text of an IPv4 address.
pub open spec fn v4_dotted(x: u32) -> Seq<char> {
    spec_decimal(v4_octet(x, 0)) + seq!['.'] + spec_decimal(v4_octet(x, 1)) + seq!['.'] + spec_decimal(
        v4_octet(x, 2),
    ) + seq!['.'] + spec_decimal(v4_octet(x, 3))
}

/// What `ipnetwork::IpNetwork::from_str` parses `s` into: an IPv4 network
/// when the text parses as one, else an IPv6 network, else nothing.
pub uninterp spec fn ipnetwork_parse(s: Seq<char>) -> Option<IpNet>;

/// The text that the standard library's `Display` for IP addresses writes.
pub uninterp spec fn ip_addr_text(a: IpAddress) -> Seq<char>;

/// Parses with `ipnetwork::IpNetwork::from_str` and reads the address
/// and prefix out of the result. The contract claims that the result is what
/// that parser gives, and (from `Ipv4Network::new` / `Ipv6Network::new`) that
/// a parsed prefix never exceeds the address width.
#[verifier::external_body]
fn ipnetwork_from_str(s: &str) -> (r: Option<IpNet>)
    ensures
        r == ipnetwork_parse(s@),
        r matches Some(n) ==> n.wf(),
{
    match s.parse::<ipnetwork::IpNetwork>() {
        Ok(ipnetwork::IpNetwork::V4(n)) => Some(
            IpNet { addr: IpAddress::V4(u32::from(n.ip())), prefix: n.prefix() },
        ),
        Ok(ipnetwork::IpNetwork::V6(n)) => Some(
            IpNet { addr: IpAddress::V6(u128::from(n.ip())), prefix: n.prefix() },
        ),
        Err(_) => None,
    }
}

/// Writes an address with the standard library's `Display` for IP
/// addresses (reached through `ipnetwork::IpNetwork::ip`). The contract names
/// the text, and for IPv4 states it: the four octets in decimal joined by
/// dots, as the standard library documents.
#[verifier::external_body]
fn ip_addr_display(a: &IpAddress) -> (r: String)
    ensures
        r@ == ip_addr_text(*a),
        *a matches IpAddress::V4(x) ==> r@ == v4_dotted(x),
{
    let net = match a {
        IpAddress::V4(x) => ipnetwork::Ipv4Network::new((*x).into(), 32).map(ipnetwork::IpNetwork::V4),
        IpAddress::V6(x) => ipnetwork::Ipv6Network::new((*x).into(), 128).map(ipnetwork::IpNetwork::V6),
    };
    match net {
        Ok(net) => net.ip().to_string(),
        Err(_) => String::new(),
    }
}

/// Writes a network with `ipnetwork::IpNetwork`'s `Display`, which (in its
/// source) writes the address with the standard `Display`, a '/', and the
/// prefix in decimal.
#[verifier::external_body]
fn ipnetwork_display(n: &IpNet) -> (r: String)
    requires
        n.wf(),
    ensures
        r@ == ip_addr_text(n.addr) + seq!['/'] + spec_decimal(n.prefix as nat),
{
    let net = match n.addr {
        IpAddress::V4(x) => ipnetwork::Ipv4Network::new(x.into(), n.prefix).map(ipnetwork::IpNetwork::V4),
        IpAddress::V6(x) => ipnetwork::Ipv6Network::new(x.into(), n.prefix).map(ipnetwork::IpNetwork::V6),
    };
    match net {
        Ok(net) => net.to_string(),
        Err(_) => String::new(),
    }
}

/// Parse an IP network in CIDR notation (or a bare address) as
/// `ipnetwork::IpNetwork` does.
pub fn parse_ip_network(s: &str) -> (r: Option<IpNet>)
    ensures
        r == ipnetwork_parse(s@),
        r matches Some(n) ==> n.wf(),
{
    ipnetwork_from_str(s)
}

/// The text of an address, as the standard library writes it.
pub fn ip_addr_to_string(a: &IpAddress) -> (r: String)
    ensures
        r@ == ip_addr_text(*a),
        *a matches IpAddress::V4(x) ==> r@ == v4_dotted(x),
{
    ip_addr_display(a)
}

/// The text of a network: address, '/', prefix.
pub fn ip_network_to_string(n: &IpNet) -> (r: String)
    requires
        n.wf(),
    ensures
        r@ == ip_addr_text(n.addr) + seq!['/'] + spec_decimal(n.prefix as nat),
{
    ipnetwork_display(n)
}

/// Whether `a` lies in the network `net`.
pub fn network_contains(net: &IpNet, a: &IpAddress) -> (r: bool)
    requires
        net.wf(),
    ensures
        r == spec_contains(*net, *a),
{
    match net.addr {
        IpAddress::V4(n) => match a {
            IpAddress::V4(x) => {
                let x = *x;
                if net.prefix == 0 {
                    proof {
                        vstd::arithmetic::power2::lemma2_to64();
                        assert(n as nat / vstd::arithmetic::power2::pow2(32) == 0);
                        assert(x as nat / vstd::arithmetic::power2::pow2(32) == 0);
                    }
                    true
                } else {
                    let shift: u32 = 32 - net.prefix as u32;
                    proof {
                        vstd::bits::lemma_u32_shr_is_div(n, shift);
                        vstd::bits::lemma_u32_shr_is_div(x, shift);
                    }
                    (n >> shift) == (x >> shift)
                }
            },
            IpAddress::V6(_) => false,
        },
        IpAddress::V6(n) => match a {
            IpAddress::V6(x) => {
                let x = *x;
                if net.prefix == 0 {
                    proof {
                        lemma_u128_below_pow2_128(n);
                        lemma_u128_below_pow2_128(x);
                    }
                    true
                } else {
                    let shift: u128 = 128 - net.prefix as u128;
                    proof {
                        vstd::bits::lemma_u128_shr_is_div(n, shift);
                        vstd::bits::lemma_u128_shr_is_div(x, shift);
                    }
                    (n >> shift) == (x >> shift)
                }
            },
            IpAddress::V4(_) => false,
        },
    }
}

proof fn lemma_u128_below_pow2_128(x: u128)
    ensures
        x as nat / vstd::arithmetic::power2::pow2(128) == 0,
{
    vstd::arithmetic::power2::lemma_pow2_adds(64, 64);
    vstd::arithmetic::power2::lemma2_to64();
    assert(vstd::arithmetic::power2::pow2(64) == 0x1_0000_0000_0000_0000);
    assert(vstd::arithmetic::power2::pow2(128) == 0x1_0000_0000_0000_0000 * 0x1_0000_0000_0000_0000);
    assert(x < 0x1_0000_0000_0000_0000 * 0x1_0000_0000_0000_0000);
}

/// Private or local by the standard library's definitions: for IPv4 the
/// private ranges 10/8, 172.16/12, 192.168/16, loopback 127/8 and
/// link-local 169.254/16; for IPv6 only the loopback address ::1.
pub open spec fn spec_is_private(ip: IpAddress) -> bool {
    match ip {
        IpAddress::V4(x) => {
            let a = v4_octet(x, 0);
            let b = v4_octet(x, 1);
            ||| a == 10
            ||| (a == 172 && 16 <= b < 32)
            ||| (a == 192 && b == 168)
            ||| a == 127
            ||| (a == 169 && b == 254)
        },
        IpAddress::V6(x) => x == 1,
    }
}

/// Check if an IP address is private/RFC1918.
pub fn is_private(ip: &IpAddress) -> (r: bool)
    ensures
        r == spec_is_private(*ip),
{
    match ip {
        IpAddress::V4(x) => {
            let a = *x / 0x100_0000;
            let b = (*x / 0x1_0000) % 256;
            a == 10 || (a == 172 && 16 <= b && b < 32) || (a == 192 && b == 168) || a == 127 || (a
                == 169 && b == 254)
        },
        IpAddress::V6(x) => *x == 1,
    }
}

/// Append the decimal octets of an IPv4 address joined by dots.
pub fn push_v4_dotted(s: &mut String, x: u32)
    ensures
        final(s)@ == old(s)@ + v4_dotted(x),
{
    push_decimal(s, (x / 0x100_0000) as u64);
    push_char(s, '.');
    push_decimal(s, ((x / 0x1_0000) % 256) as u64);
    push_char(s, '.');
    push_decimal(s, ((x / 256) % 256) as u64);
    push_char(s, '.');
    push_decimal(s, (x % 256) as u64);
    proof {
        assert(final(s)@ =~= old(s)@ + v4_dotted(x));
    }
}

} // verus!
