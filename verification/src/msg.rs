//! Structured message values and the reply builders.
//!
//! A `Request` is one decoded client message, reduced to the fields the
//! core reads; a `ReplyMsg` is a reply in structured form, handed to the
//! wire codec for serialisation. Replies echo the request's transaction
//! identifier, hardware-address type, hardware address and relay agent
//! address, carry the assigned address in "your address", and attach the
//! fixed option set; a NAK omits the offered-address and next-server
//! fields and carries only the message type and the server identifier,
//! still echoing the relay agent address.

use vstd::prelude::*;
use crate::config::Config;
use crate::lease::copy_bytes;

verus! {

/// Operation code of a client-to-server message (BOOTREQUEST).
pub const OP_BOOT_REQUEST: u8 = 1;

/// Operation code of a server-to-client message (BOOTREPLY).
pub const OP_BOOT_REPLY: u8 = 2;

/// Wire code of a DISCOVER message.
pub const MSG_DISCOVER: u8 = 1;

/// Wire code of an OFFER message.
pub const MSG_OFFER: u8 = 2;

/// Wire code of a REQUEST message.
pub const MSG_REQUEST: u8 = 3;

/// Wire code of an ACK message.
pub const MSG_ACK: u8 = 5;

/// Wire code of a NAK message.
pub const MSG_NAK: u8 = 6;

/// Wire code of a RELEASE message.
pub const MSG_RELEASE: u8 = 7;

/// Wire code of an INFORM message.
pub const MSG_INFORM: u8 = 8;

/// One decoded client message, reduced to the fields the core reads.
/// Enum-valued wire fields are carried as their RFC codes.
pub struct Request {
    /// Operation code; only `OP_BOOT_REQUEST` is served.
    pub op: u8,
    /// The message-type option's code, when the message carries one.
    pub msg_type: Option<u8>,
    /// Transaction identifier chosen by the client, echoed in replies.
    pub xid: u32,
    /// Hardware-address type field, echoed in replies.
    pub htype: u8,
    /// Client hardware address field: the client's identity.
    pub chaddr: Vec<u8>,
    /// The address the client claims to hold already.
    pub ciaddr: u32,
    /// Relay agent address, echoed unchanged in replies.
    pub giaddr: u32,
}

/// A reply message in structured form, ready for the wire codec. The
/// option list is carried as plain fields: the message type and the
/// server identifier are always attached; `extra` holds the lease
/// duration, subnet mask, router and DNS server of a full reply, and is
/// absent from a NAK.
pub struct ReplyMsg {
    /// Transaction identifier echoed from the request.
    pub xid: u32,
    /// Hardware-address type echoed from the request.
    pub htype: u8,
    /// Client hardware address echoed from the request.
    pub chaddr: Vec<u8>,
    /// "Your address": the offered or acknowledged address (0 in a NAK).
    pub yiaddr: u32,
    /// Next-server field: the server's own address (0 in a NAK).
    pub siaddr: u32,
    /// Relay agent address, echoed from the request in every reply.
    pub giaddr: u32,
    /// DHCP message type of the reply.
    pub kind: u8,
    /// The DHCP server identifier option.
    pub server_id: u32,
    /// Lease duration, subnet mask, default router and DNS server, in
    /// that order; `None` in a NAK, which carries no other options.
    pub extra: Option<(u32, u32, u32, u32)>,
}

/// The full reply shape for OFFER and ACK: header fields echoed from
/// `req`, the address `a` in "your address", the server as next server,
/// and the fixed option set in order.
pub open spec fn full_reply(r: ReplyMsg, req: Request, a: u32, t: u8, cfg: Config) -> bool {
    &&& r.xid == req.xid
    &&& r.htype == req.htype
    &&& r.chaddr@ == req.chaddr@
    &&& r.yiaddr == a
    &&& r.siaddr == cfg.server_ip
    &&& r.giaddr == req.giaddr
    &&& r.kind == t
    &&& r.server_id == cfg.server_ip
    &&& r.extra == Some((cfg.lease_secs, cfg.subnet_mask, cfg.gateway, cfg.server_ip))
}

/// The NAK shape: header fields echoed — the relay agent address among
/// them — no offered address and no next server, and only the message
/// type and the server identifier among the options.
pub open spec fn nak_reply(r: ReplyMsg, req: Request, cfg: Config) -> bool {
    &&& r.xid == req.xid
    &&& r.htype == req.htype
    &&& r.chaddr@ == req.chaddr@
    &&& r.yiaddr == 0
    &&& r.siaddr == 0
    &&& r.giaddr == req.giaddr
    &&& r.kind == MSG_NAK
    &&& r.server_id == cfg.server_ip
    &&& r.extra is None
}

/// Build an OFFER or ACK reply for `req` carrying the address `a` and the
/// message type `t`, under the configuration `cfg`.
pub fn build_reply(req: &Request, a: u32, t: u8, cfg: &Config) -> (r: ReplyMsg)
    ensures
        full_reply(r, *req, a, t, *cfg),
{
    ReplyMsg {
        xid: req.xid,
        htype: req.htype,
        chaddr: copy_bytes(&req.chaddr),
        yiaddr: a,
        siaddr: cfg.server_ip,
        giaddr: req.giaddr,
        kind: t,
        server_id: cfg.server_ip,
        extra: Some((cfg.lease_secs, cfg.subnet_mask, cfg.gateway, cfg.server_ip)),
    }
}

/// Build a NAK reply for `req`: no address is offered, the relay agent
/// address is echoed, and only the message type and the server
/// identifier are attached.
pub fn build_nak(req: &Request, cfg: &Config) -> (r: ReplyMsg)
    ensures
        nak_reply(r, *req, *cfg),
{
    ReplyMsg {
        xid: req.xid,
        htype: req.htype,
        chaddr: copy_bytes(&req.chaddr),
        yiaddr: 0,
        siaddr: 0,
        giaddr: req.giaddr,
        kind: MSG_NAK,
        server_id: cfg.server_ip,
        extra: None,
    }
}

} // verus!
