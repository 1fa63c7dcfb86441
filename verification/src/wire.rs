//! The wire codec boundary: the two trusted wrappers around dhcproto.
//!
//! The codec is an outside collaborator; the core only manipulates the
//! structured forms. Decoding is a deterministic function of the bytes,
//! and is given a name that the wrapper's contract and the callers'
//! contracts share. Encoding is not: dhcproto keeps the option list in a
//! hash map and emits it in that map's iteration order, which can differ
//! between processes and map instances. The encoder's result is
//! therefore specified as a relation — the bytes are one serialisation
//! of the given reply — which holds of every outcome.

use vstd::prelude::*;
use crate::msg::{Request, ReplyMsg};
use dhcproto::v4::{Message, Opcode, Encoder};
use dhcproto::v4::DhcpOption::{
    AddressLeaseTime, DomainNameServer, MessageType, Router, ServerIdentifier, SubnetMask,
};
use dhcproto::{Decodable, Decoder, Encodable};

verus! {

/// The structured view dhcproto's v4 decoder gives to a byte string, if
/// any: a function of the bytes alone.
pub uninterp spec fn parsed_request(b: Seq<u8>) -> Option<Request>;

/// The relation dhcproto's v4 encoder establishes between its output and
/// a reply with these header fields and options: the bytes are one
/// serialisation of that reply (the options' order on the wire may
/// differ from one call to the next). The arguments after the bytes are,
/// in order: transaction identifier, hardware-address type, client
/// hardware address, the your/next-server/relay address fields, the
/// message type, the server identifier, and the optional lease duration,
/// subnet mask, router and DNS server.
pub uninterp spec fn wire_encodes(
    b: Seq<u8>,
    xid: u32,
    htype: u8,
    chaddr: Seq<u8>,
    yiaddr: u32,
    siaddr: u32,
    giaddr: u32,
    kind: u8,
    server_id: u32,
    extra: Option<(u32, u32, u32, u32)>,
) -> bool;

/// The bytes `b` are one serialisation of the reply `r`.
pub open spec fn encodes_reply(b: Seq<u8>, r: ReplyMsg) -> bool {
    wire_encodes(
        b,
        r.xid,
        r.htype,
        r.chaddr@,
        r.yiaddr,
        r.siaddr,
        r.giaddr,
        r.kind,
        r.server_id,
        r.extra,
    )
}

/// Relies on dhcproto's `v4::Message::decode` to parse one DHCPv4
/// datagram. The fields the core reads are copied out one for one, enum
/// fields as their RFC wire codes; a malformed datagram gives `None`,
/// among them one whose hardware-address length field oversteps the
/// 16-byte wire field. Release-profile behaviour is relied on: dhcproto's
/// option parser carries debug assertions and unchecked length
/// subtractions that a crafted datagram can trip in a debug build.
#[verifier::external_body]
pub(crate) fn decode_request(buf: &Vec<u8>) -> (r: Option<Request>)
    ensures
        r == parsed_request(buf@),
        r matches Some(q) ==> q.chaddr@.len() <= 16,
{
    let m = match Message::decode(&mut Decoder::new(buf.as_slice())) { Ok(m) => m, Err(_) => return None };
    if usize::from(m.hlen()) > 16 { return None; }
    Some(Request {
        op: m.opcode().into(),
        msg_type: m.opts().msg_type().map(u8::from),
        xid: m.xid(),
        htype: m.htype().into(),
        chaddr: m.chaddr().to_vec(),
        ciaddr: m.ciaddr().into(),
        giaddr: m.giaddr().into(),
    })
}

/// Relies on dhcproto's `v4::Message::encode` to serialise one reply,
/// built with `Message::new_with_id` (which takes a hardware address of
/// at most 16 bytes). The fields and options are copied in one for one,
/// the operation code is BOOTREPLY, and the flags field keeps its
/// default.
#[verifier::external_body]
pub(crate) fn encode_reply(
    xid: u32,
    htype: u8,
    chaddr: &Vec<u8>,
    yiaddr: u32,
    siaddr: u32,
    giaddr: u32,
    kind: u8,
    server_id: u32,
    extra: Option<(u32, u32, u32, u32)>,
) -> (out: Vec<u8>)
    requires
        chaddr@.len() <= 16,
    ensures
        wire_encodes(out@, xid, htype, chaddr@, yiaddr, siaddr, giaddr, kind, server_id, extra),
{
    let mut m =
        Message::new_with_id(xid, 0u32.into(), yiaddr.into(), siaddr.into(), giaddr.into(), chaddr);
    m.set_opcode(Opcode::BootReply).set_htype(htype.into());
    let o = m.opts_mut();
    o.insert(MessageType(kind.into()));
    o.insert(ServerIdentifier(server_id.into()));
    for (t, s, g, d) in extra {
        o.insert(AddressLeaseTime(t));
        o.insert(SubnetMask(s.into()));
        o.insert(Router(vec![g.into()]));
        o.insert(DomainNameServer(vec![d.into()]));
    }
    let mut out = Vec::new();
    m.encode(&mut Encoder::new(&mut out)).ok();
    out
}

} // verus!
