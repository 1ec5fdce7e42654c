use vstd::prelude::*;
use pnet::packet::Packet;

verus! {

/// The two multicast feed ports whose datagrams carry quote messages.
pub const FEED_PORT_A: u16 = 15515;
pub const FEED_PORT_B: u16 = 15516;

/// The destination-port field of a buffer read as a UDP header:
/// the big-endian 16-bit integer at bytes 2 and 3.
pub open spec fn udp_dest_port(d: Seq<u8>) -> int
    recommends
        d.len() >= 4,
{
    d[2] * 256 + d[3]
}

/// The data that follows the fixed 8-byte UDP header.
pub open spec fn udp_payload_bytes(d: Seq<u8>) -> Seq<u8> {
    d.skip(8)
}

/// Relies on `pnet::packet::udp::UdpPacket`: `new` accepts any buffer of at
/// least the 8-byte header size, `get_destination` reads the big-endian
/// 16-bit field at byte offset 2, and `payload` hands back everything after
/// the 8-byte header.
#[verifier::external_body]
fn udp_fields(data: &[u8]) -> (r: Option<(u16, Vec<u8>)>)
    ensures
        r is Some <==> data@.len() >= 8,
        r matches Some(f) ==> {
            &&& f.0 == udp_dest_port(data@)
            &&& f.1@ == udp_payload_bytes(data@)
        },
{
    let pkt = pnet::packet::udp::UdpPacket::new(data)?;
    Some((pkt.get_destination(), pkt.payload().to_vec()))
}

/// True of buffers that the transport filter accepts: long enough to carry
/// a UDP header, and addressed to one of the two feed ports.
pub open spec fn accepted_frame(d: Seq<u8>) -> bool {
    &&& d.len() >= 8
    &&& (udp_dest_port(d) == FEED_PORT_A || udp_dest_port(d) == FEED_PORT_B)
}

/// Transport filter: read the buffer as a UDP datagram and produce its
/// payload only when the destination port is one of the two feed ports.
/// Anything else — too short, or another port — is discarded.
pub fn parse_udp(data: &[u8]) -> (r: Option<Vec<u8>>)
    ensures
        r is Some <==> accepted_frame(data@),
        r matches Some(p) ==> p@ == udp_payload_bytes(data@),
{
    if let Some((dest_port, payload)) = udp_fields(data) {
        if dest_port == FEED_PORT_A || dest_port == FEED_PORT_B {
            return Some(payload);
        }
    }
    None
}

} // verus!
