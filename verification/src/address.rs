//! Network addresses as the host and the client list them.
use vstd::prelude::*;
use crate::text::{chars_of, push_decimal_chars, spec_decimal, string_of};

verus! {

/// An address of a network interface of this machine.
#[derive(Debug, Clone, Copy, PartialEq, Eq)]
pub enum IpAddress {
    /// An IPv4 address, by its four octets.
    V4([u8; 4]),
    /// An IPv6 address, by its eight 16-bit segments.
    V6([u16; 8]),
}

/// Whether an IPv4 address lies in the loopback block 127.0.0.0/8.
pub open spec fn spec_is_loopback_v4(o: [u8; 4]) -> bool {
    o@[0] == 127
}

/// An IPv4 address that is not a loopback address, with its octets.
pub open spec fn spec_external_v4(a: IpAddress) -> Option<[u8; 4]> {
    match a {
        IpAddress::V4(o) => if spec_is_loopback_v4(o) { None } else { Some(o) },
        IpAddress::V6(_) => None,
    }
}

/// The first three octets in dotted decimal, such as "192.168.1".
pub open spec fn spec_dotted3(o: [u8; 4]) -> Seq<char> {
    spec_decimal(o@[0] as nat) + seq!['.'] + spec_decimal(o@[1] as nat) + seq!['.']
        + spec_decimal(o@[2] as nat)
}

/// An IPv4 address in dotted decimal, such as "192.168.1.7".
pub open spec fn spec_dotted(o: [u8; 4]) -> Seq<char> {
    spec_dotted3(o) + seq!['.'] + spec_decimal(o@[3] as nat)
}

/// `host:port`, the port in decimal.
pub open spec fn spec_socket_address(host: Seq<char>, port: u16) -> Seq<char> {
    host + seq![':'] + spec_decimal(port as nat)
}

/// Whether an interface address is an IPv4 address outside the loopback block.
pub fn external_v4(a: &IpAddress) -> (r: Option<[u8; 4]>)
    ensures
        r == spec_external_v4(*a),
{
    match a {
        IpAddress::V4(o) => if o[0] == 127 { None } else { Some(*o) },
        IpAddress::V6(_) => None,
    }
}

/// Appends the first three octets in dotted decimal.
pub fn push_dotted3(v: &mut Vec<char>, o: &[u8; 4])
    ensures
        final(v)@ == old(v)@ + spec_dotted3(*o),
{
    push_decimal_chars(v, o[0] as u64);
    v.push('.');
    push_decimal_chars(v, o[1] as u64);
    v.push('.');
    push_decimal_chars(v, o[2] as u64);
    assert(final(v)@ =~= old(v)@ + spec_dotted3(*o));
}

/// Appends an IPv4 address in dotted decimal.
pub fn push_dotted(v: &mut Vec<char>, o: &[u8; 4])
    ensures
        final(v)@ == old(v)@ + spec_dotted(*o),
{
    push_dotted3(v, o);
    v.push('.');
    push_decimal_chars(v, o[3] as u64);
    assert(final(v)@ =~= old(v)@ + spec_dotted(*o));
}

/// `host:port`, as `format!("{}:{}", host, port)` gives it.
pub fn socket_address(host: &str, port: u16) -> (s: String)
    ensures
        s@ == spec_socket_address(host@, port),
{
    let mut v = chars_of(host);
    v.push(':');
    push_decimal_chars(&mut v, port as u64);
    string_of(v.as_slice())
}

} // verus!
