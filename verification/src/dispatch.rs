//! The protocol dispatcher: per-message decisions over the lease store.
//!
//! Only client-to-server messages are served; a message without a
//! decodable message-type option is dropped. DISCOVER offers an address
//! or stays silent under exhaustion; REQUEST acknowledges or answers NAK
//! under exhaustion; RELEASE drops the lease and never replies; INFORM is
//! acknowledged with the client's own claimed address and touches no
//! lease; any other type is ignored.

use vstd::prelude::*;
use crate::msg::{
    Request, ReplyMsg, build_reply, build_nak, full_reply, nak_reply,
    OP_BOOT_REQUEST, MSG_DISCOVER, MSG_OFFER, MSG_REQUEST, MSG_ACK, MSG_RELEASE, MSG_INFORM,
};
use crate::store::{LeaseDb, spec_assign, assign_transition, release_transition, same_state};
use crate::wire::{decode_request, encode_reply, parsed_request, encodes_reply};

verus! {

/// Effect of serving one decoded message: the protocol table, case by
/// case over the operation code and the message type.
pub open spec fn dispatch_transition(
    s0: LeaseDb,
    s1: LeaseDb,
    req: Request,
    rep: Option<ReplyMsg>,
) -> bool {
    if req.op != OP_BOOT_REQUEST {
        same_state(s0, s1) && rep is None
    } else {
        match req.msg_type {
            None => same_state(s0, s1) && rep is None,
            Some(t) => if t == MSG_DISCOVER {
                match spec_assign(s0, req.chaddr@) {
                    Some(a) => assign_transition(s0, s1, req.chaddr@, Some(a)) && (rep matches Some(
                        r,
                    ) && full_reply(r, req, a, MSG_OFFER, s0.cfg)),
                    None => assign_transition(s0, s1, req.chaddr@, None) && rep is None,
                }
            } else if t == MSG_REQUEST {
                match spec_assign(s0, req.chaddr@) {
                    Some(a) => assign_transition(s0, s1, req.chaddr@, Some(a)) && (rep matches Some(
                        r,
                    ) && full_reply(r, req, a, MSG_ACK, s0.cfg)),
                    None => assign_transition(s0, s1, req.chaddr@, None) && (rep matches Some(r)
                        && nak_reply(r, req, s0.cfg)),
                }
            } else if t == MSG_RELEASE {
                release_transition(s0, s1, req.chaddr@) && rep is None
            } else if t == MSG_INFORM {
                same_state(s0, s1) && (rep matches Some(r) && full_reply(
                    r,
                    req,
                    req.ciaddr,
                    MSG_ACK,
                    s0.cfg,
                ))
            } else {
                same_state(s0, s1) && rep is None
            },
        }
    }
}

/// Serve one decoded message: take the lease-store action and build the
/// reply the protocol table prescribes, or none.
pub fn dispatch(db: &mut LeaseDb, req: &Request) -> (rep: Option<ReplyMsg>)
    requires
        old(db).wf(),
    ensures
        final(db).wf(),
        final(db).cfg == old(db).cfg,
        old(db).cursor <= final(db).cursor,
        dispatch_transition(*old(db), *final(db), *req, rep),
{
    if req.op != OP_BOOT_REQUEST {
        return None;
    }
    let t = match req.msg_type {
        Some(t) => t,
        None => {
            return None;
        },
    };
    if t == MSG_DISCOVER {
        match db.assign(&req.chaddr) {
            Some(a) => Some(build_reply(req, a, MSG_OFFER, &db.cfg)),
            None => None,
        }
    } else if t == MSG_REQUEST {
        match db.assign(&req.chaddr) {
            Some(a) => Some(build_reply(req, a, MSG_ACK, &db.cfg)),
            None => Some(build_nak(req, &db.cfg)),
        }
    } else if t == MSG_RELEASE {
        db.release(&req.chaddr);
        None
    } else if t == MSG_INFORM {
        Some(build_reply(req, req.ciaddr, MSG_ACK, &db.cfg))
    } else {
        None
    }
}

/// Relation between the dispatcher's reply and the bytes handed back:
/// a reply is owed exactly when one was dispatched, and the bytes are
/// one serialisation of it.
pub open spec fn reply_encoded(rep: Option<ReplyMsg>, out: Option<Vec<u8>>) -> bool {
    match rep {
        None => out is None,
        Some(r) => out matches Some(v) && encodes_reply(v@, r),
    }
}

/// Serve one raw datagram end to end: decode it, dispatch it, and encode
/// the reply, if one is owed. A datagram the codec rejects leaves the
/// store untouched and yields no reply.
pub fn handle_datagram(db: &mut LeaseDb, buf: &Vec<u8>) -> (out: Option<Vec<u8>>)
    requires
        old(db).wf(),
    ensures
        final(db).wf(),
        final(db).cfg == old(db).cfg,
        old(db).cursor <= final(db).cursor,
        parsed_request(buf@) is None ==> same_state(*old(db), *final(db)) && out is None,
        forall|req: Request|
            parsed_request(buf@) == Some(req) ==> exists|rep: Option<ReplyMsg>|
                #[trigger] dispatch_transition(*old(db), *final(db), req, rep) && reply_encoded(
                    rep,
                    out,
                ),
{
    match decode_request(buf) {
        None => None,
        Some(req) => {
            let rep = dispatch(db, &req);
            let ghost grep = rep;
            match rep {
                None => {
                    proof {
                        assert(reply_encoded(grep, Option::<Vec<u8>>::None));
                    }
                    None
                },
                Some(r) => {
                    let bytes = encode_reply(
                        r.xid,
                        r.htype,
                        &r.chaddr,
                        r.yiaddr,
                        r.siaddr,
                        r.giaddr,
                        r.kind,
                        r.server_id,
                        r.extra,
                    );
                    proof {
                        assert(reply_encoded(grep, Some(bytes)));
                    }
                    Some(bytes)
                },
            }
        },
    }
}

} // verus!
