use dhcp_core::config::Config;
use dhcp_core::dispatch::dispatch;
use dhcp_core::msg::{
    Request, MSG_ACK, MSG_DISCOVER, MSG_INFORM, MSG_NAK, MSG_OFFER, MSG_RELEASE, MSG_REQUEST,
    OP_BOOT_REPLY, OP_BOOT_REQUEST,
};
use dhcp_core::store::LeaseDb;

fn mac(last: u8) -> Vec<u8> {
    vec![0x02, 0x00, 0x00, 0x00, 0x00, last]
}

fn small_config() -> Config {
    Config {
        server_ip: 0x0A00_0001,
        subnet_mask: 0xFFFF_FF00,
        gateway: 0x0A00_0002,
        lease_secs: 3600,
        pool_start: 100,
        pool_end: 101,
        statics: Vec::new(),
    }
}

fn request(t: Option<u8>, last: u8) -> Request {
    Request {
        op: OP_BOOT_REQUEST,
        msg_type: t,
        xid: 0x1122_3344,
        htype: 1,
        chaddr: mac(last),
        ciaddr: 0,
        giaddr: 0x0A00_00FE,
    }
}

#[test]
fn discover_yields_offer_with_address() {
    let mut db = LeaseDb::new(small_config());
    let rep = dispatch(&mut db, &request(Some(MSG_DISCOVER), 1)).unwrap();
    assert_eq!(rep.yiaddr, 100);
    assert_eq!(rep.xid, 0x1122_3344);
    assert_eq!(rep.htype, 1);
    assert_eq!(rep.chaddr, mac(1));
    assert_eq!(rep.siaddr, 0x0A00_0001);
    assert_eq!(rep.giaddr, 0x0A00_00FE);
    assert_eq!(rep.kind, MSG_OFFER);
    assert_eq!(rep.server_id, 0x0A00_0001);
    // Lease time, subnet mask, router, DNS — in that order.
    assert_eq!(rep.extra, Some((3600, 0xFFFF_FF00, 0x0A00_0002, 0x0A00_0001)));
}

#[test]
fn discover_under_exhaustion_is_silent() {
    let mut db = LeaseDb::new(small_config());
    dispatch(&mut db, &request(Some(MSG_DISCOVER), 1));
    dispatch(&mut db, &request(Some(MSG_DISCOVER), 2));
    let rep = dispatch(&mut db, &request(Some(MSG_DISCOVER), 3));
    assert!(rep.is_none());
}

#[test]
fn request_yields_ack() {
    let mut db = LeaseDb::new(small_config());
    let rep = dispatch(&mut db, &request(Some(MSG_REQUEST), 1)).unwrap();
    assert_eq!(rep.yiaddr, 100);
    assert_eq!(rep.kind, MSG_ACK);
}

#[test]
fn request_under_exhaustion_yields_nak() {
    let mut db = LeaseDb::new(small_config());
    dispatch(&mut db, &request(Some(MSG_REQUEST), 1));
    dispatch(&mut db, &request(Some(MSG_REQUEST), 2));
    let rep = dispatch(&mut db, &request(Some(MSG_REQUEST), 3)).unwrap();
    // A NAK offers no address and names no next server, but still echoes
    // the relay agent address; only two options are attached.
    assert_eq!(rep.yiaddr, 0);
    assert_eq!(rep.siaddr, 0);
    assert_eq!(rep.giaddr, 0x0A00_00FE);
    assert_eq!(rep.kind, MSG_NAK);
    assert_eq!(rep.server_id, 0x0A00_0001);
    assert_eq!(rep.extra, None);
    assert_eq!(rep.xid, 0x1122_3344);
    assert_eq!(rep.chaddr, mac(3));
}

#[test]
fn release_yields_no_reply() {
    let mut db = LeaseDb::new(small_config());
    dispatch(&mut db, &request(Some(MSG_REQUEST), 1));
    let rep = dispatch(&mut db, &request(Some(MSG_RELEASE), 1));
    assert!(rep.is_none());
    // The lease really is gone: the next client gets the next address,
    // and the released client would be served afresh.
    let rep2 = dispatch(&mut db, &request(Some(MSG_REQUEST), 1)).unwrap();
    assert_eq!(rep2.yiaddr, 101);
}

#[test]
fn inform_echoes_claimed_address() {
    let mut db = LeaseDb::new(small_config());
    let mut req = request(Some(MSG_INFORM), 1);
    req.ciaddr = 0x0A00_0063;
    let rep = dispatch(&mut db, &req).unwrap();
    assert_eq!(rep.yiaddr, 0x0A00_0063);
    assert_eq!(rep.kind, MSG_ACK);
    // No allocation was performed: the pool is untouched.
    let rep2 = dispatch(&mut db, &request(Some(MSG_DISCOVER), 2)).unwrap();
    assert_eq!(rep2.yiaddr, 100);
}

#[test]
fn non_boot_request_is_dropped() {
    let mut db = LeaseDb::new(small_config());
    let mut req = request(Some(MSG_DISCOVER), 1);
    req.op = OP_BOOT_REPLY;
    assert!(dispatch(&mut db, &req).is_none());
    // Nothing was allocated.
    let rep = dispatch(&mut db, &request(Some(MSG_DISCOVER), 2)).unwrap();
    assert_eq!(rep.yiaddr, 100);
}

#[test]
fn missing_message_type_is_dropped() {
    let mut db = LeaseDb::new(small_config());
    assert!(dispatch(&mut db, &request(None, 1)).is_none());
}

#[test]
fn unhandled_message_type_is_ignored() {
    let mut db = LeaseDb::new(small_config());
    // DECLINE (wire code 4) is not served.
    assert!(dispatch(&mut db, &request(Some(4), 1)).is_none());
}
