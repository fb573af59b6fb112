//! The network address model: an IPv4 address with a TCP port, the shape of
//! address that the lookup layer stores and the dial operation consumes.
//!
//! Addresses travel through the lookup layer as a small self-describing byte
//! encoding: a protocol tag for IPv4 followed by the four octets, then a
//! protocol tag for TCP followed by the port in big-endian order. The codec
//! here is total in one direction and exact in the other: `decode_addr`
//! accepts precisely the byte strings that `encode_addr` produces.

use vstd::prelude::*;

verus! {

/// Protocol tag that introduces the four IPv4 octets in an encoded address.
pub const IP4_TAG: u8 = 4;

/// Protocol tag that introduces the two TCP port bytes in an encoded address.
pub const TCP_TAG: u8 = 6;

/// An IPv4 network address together with a TCP port.
#[derive(Clone, Copy, Debug, PartialEq, Eq, Structural)]
pub struct NetAddress {
    pub o0: u8,
    pub o1: u8,
    pub o2: u8,
    pub o3: u8,
    pub port: u16,
}

/// An address that must never be published to the distributed lookup layer:
/// loopback (127.0.0.0/8), the RFC 1918 private ranges (10.0.0.0/8,
/// 172.16.0.0/12, 192.168.0.0/16), and the carrier-grade NAT block
/// 100.64.0.0/10.
pub open spec fn is_private_addr(a: NetAddress) -> bool {
    ||| a.o0 == 127
    ||| a.o0 == 10
    ||| (a.o0 == 172 && 16 <= a.o1 <= 31)
    ||| (a.o0 == 192 && a.o1 == 168)
    ||| (a.o0 == 100 && 64 <= a.o1 <= 127)
}

/// Decides whether an address lies in a range that is not publicly reachable,
/// and so must be kept out of the distributed lookup layer.
pub fn is_private_network(a: &NetAddress) -> (r: bool)
    ensures
        r == is_private_addr(*a),
{
    a.o0 == 127 || a.o0 == 10 || (a.o0 == 172 && 16 <= a.o1 && a.o1 <= 31) || (a.o0 == 192
        && a.o1 == 168) || (a.o0 == 100 && 64 <= a.o1 && a.o1 <= 127)
}

/// The byte encoding of an address: IPv4 tag, four octets, TCP tag, port in
/// big-endian order.
pub open spec fn spec_encode_addr(a: NetAddress) -> Seq<u8> {
    seq![
        IP4_TAG,
        a.o0,
        a.o1,
        a.o2,
        a.o3,
        TCP_TAG,
        (a.port / 256) as u8,
        (a.port % 256) as u8,
    ]
}

/// The addresses a byte string decodes to: exactly the images of
/// `spec_encode_addr` decode successfully.
pub open spec fn spec_decode_addr(s: Seq<u8>) -> Option<NetAddress> {
    if s.len() == 8 && s[0] == IP4_TAG && s[5] == TCP_TAG {
        Some(
            NetAddress {
                o0: s[1],
                o1: s[2],
                o2: s[3],
                o3: s[4],
                port: (s[6] as u16 * 256 + s[7] as u16) as u16,
            },
        )
    } else {
        None
    }
}

/// Encodes an address as the record value stored in the lookup layer.
pub fn encode_addr(a: &NetAddress) -> (v: Vec<u8>)
    ensures
        v@ == spec_encode_addr(*a),
{
    let mut v: Vec<u8> = Vec::new();
    v.push(IP4_TAG);
    v.push(a.o0);
    v.push(a.o1);
    v.push(a.o2);
    v.push(a.o3);
    v.push(TCP_TAG);
    v.push((a.port / 256) as u8);
    v.push((a.port % 256) as u8);
    proof {
        assert(v@ =~= spec_encode_addr(*a));
    }
    v
}

/// Decodes a record value back into an address; any byte string that is not
/// a well-formed IPv4/TCP encoding is rejected.
pub fn decode_addr(v: &Vec<u8>) -> (r: Option<NetAddress>)
    ensures
        r == spec_decode_addr(v@),
{
    if v.len() == 8 && v[0] == IP4_TAG && v[5] == TCP_TAG {
        let port: u16 = v[6] as u16 * 256 + v[7] as u16;
        Some(NetAddress { o0: v[1], o1: v[2], o2: v[3], o3: v[4], port })
    } else {
        None
    }
}

/// Decoding undoes encoding: every address comes back unchanged from its
/// record-value form.
pub proof fn lemma_addr_round_trip(a: NetAddress)
    ensures
        spec_decode_addr(spec_encode_addr(a)) == Some(a),
{
    let s = spec_encode_addr(a);
    assert(s.len() == 8);
    assert(s[6] == (a.port / 256) as u8);
    assert(s[7] == (a.port % 256) as u8);
    assert(a.port / 256 < 256) by {
        assert(a.port < 65536);
    }
    assert(s[6] as u16 * 256 + s[7] as u16 == a.port) by {
        assert(a.port / 256 * 256 + a.port % 256 == a.port) by (nonlinear_arith);
    }
}

} // verus!
