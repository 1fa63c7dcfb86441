use dhcp_core::config::{Config, LEASE_TIME_SECS, POOL_END, POOL_START, SERVER_IP, SUBNET_MASK};
use dhcp_core::dispatch::handle_datagram;
use dhcp_core::store::LeaseDb;
use dhcproto::v4::{DhcpOption, Flags, HType, Message, MessageType, Opcode, OptionCode};
use dhcproto::{Decodable, Decoder, Encodable, Encoder};

fn mac(last: u8) -> Vec<u8> {
    vec![0x02, 0x00, 0x00, 0x00, 0x00, last]
}

fn datagram(t: MessageType, hw: &[u8], xid: u32, ciaddr: u32) -> Vec<u8> {
    let mut m = Message::default();
    m.set_opcode(Opcode::BootRequest)
        .set_htype(HType::Eth)
        .set_xid(xid)
        .set_flags(Flags::default())
        .set_ciaddr(ciaddr)
        .set_chaddr(hw);
    m.opts_mut().insert(DhcpOption::MessageType(t));
    let mut buf = Vec::new();
    m.encode(&mut Encoder::new(&mut buf)).unwrap();
    buf
}

fn decode(bytes: &[u8]) -> Message {
    Message::decode(&mut Decoder::new(bytes)).unwrap()
}

#[test]
fn discover_datagram_yields_offer_on_the_wire() {
    let mut db = LeaseDb::new(Config::standard());
    let out = handle_datagram(&mut db, &datagram(MessageType::Discover, &mac(1), 0xABCD_1234, 0))
        .expect("an OFFER is owed");
    let reply = decode(&out);
    assert_eq!(reply.opcode(), Opcode::BootReply);
    assert_eq!(reply.xid(), 0xABCD_1234);
    assert_eq!(reply.opts().msg_type(), Some(MessageType::Offer));
    assert_eq!(u32::from(reply.yiaddr()), POOL_START);
    assert_eq!(u32::from(reply.siaddr()), SERVER_IP);
    assert_eq!(reply.chaddr(), mac(1).as_slice());
}

#[test]
fn request_datagram_yields_ack_with_options() {
    let mut db = LeaseDb::new(Config::standard());
    let out = handle_datagram(&mut db, &datagram(MessageType::Request, &mac(1), 7, 0)).unwrap();
    let reply = decode(&out);
    assert_eq!(reply.opts().msg_type(), Some(MessageType::Ack));
    assert_eq!(u32::from(reply.yiaddr()), POOL_START);
    match reply.opts().get(OptionCode::AddressLeaseTime) {
        Some(DhcpOption::AddressLeaseTime(t)) => assert_eq!(*t, LEASE_TIME_SECS),
        other => panic!("lease time option missing: {:?}", other),
    }
    match reply.opts().get(OptionCode::SubnetMask) {
        Some(DhcpOption::SubnetMask(m)) => assert_eq!(u32::from(*m), SUBNET_MASK),
        other => panic!("subnet mask option missing: {:?}", other),
    }
    match reply.opts().get(OptionCode::ServerIdentifier) {
        Some(DhcpOption::ServerIdentifier(s)) => assert_eq!(u32::from(*s), SERVER_IP),
        other => panic!("server identifier option missing: {:?}", other),
    }
}

#[test]
fn request_under_exhaustion_yields_nak_on_the_wire() {
    let mut db = LeaseDb::new(Config::standard());
    // Fill the whole pool with distinct dynamic-only clients.
    let pool_size = POOL_END - POOL_START + 1;
    for i in 0..pool_size {
        let hw = vec![0x04, 0, 0, 0, (i >> 8) as u8, i as u8];
        assert!(db.assign(&hw).is_some());
    }
    let relay: u32 = 0xC0A8_0163;
    let mut m = Message::default();
    m.set_opcode(Opcode::BootRequest).set_htype(HType::Eth).set_xid(42).set_giaddr(relay).set_chaddr(&mac(9));
    m.opts_mut().insert(DhcpOption::MessageType(MessageType::Request));
    let mut buf = Vec::new();
    m.encode(&mut Encoder::new(&mut buf)).unwrap();
    let out = handle_datagram(&mut db, &buf).unwrap();
    let reply = decode(&out);
    assert_eq!(reply.opts().msg_type(), Some(MessageType::Nak));
    // A NAK carries no offered address, but echoes the relay agent field.
    assert_eq!(u32::from(reply.yiaddr()), 0);
    assert_eq!(u32::from(reply.giaddr()), relay);
    assert!(reply.opts().get(OptionCode::AddressLeaseTime).is_none());
    match reply.opts().get(OptionCode::ServerIdentifier) {
        Some(DhcpOption::ServerIdentifier(s)) => assert_eq!(u32::from(*s), SERVER_IP),
        other => panic!("server identifier option missing: {:?}", other),
    }
}

#[test]
fn inform_datagram_echoes_claimed_address() {
    let mut db = LeaseDb::new(Config::standard());
    let claimed: u32 = 0xC0A8_0177;
    let out =
        handle_datagram(&mut db, &datagram(MessageType::Inform, &mac(5), 9, claimed)).unwrap();
    let reply = decode(&out);
    assert_eq!(reply.opts().msg_type(), Some(MessageType::Ack));
    assert_eq!(u32::from(reply.yiaddr()), claimed);
    // No allocation was performed.
    assert_eq!(db.assign(&mac(6)), Some(POOL_START));
}

#[test]
fn release_datagram_yields_no_reply_and_clears_the_lease() {
    let mut db = LeaseDb::new(Config::standard());
    handle_datagram(&mut db, &datagram(MessageType::Request, &mac(1), 1, 0)).unwrap();
    let out = handle_datagram(&mut db, &datagram(MessageType::Release, &mac(1), 2, 0));
    assert!(out.is_none());
    // A later request is served afresh: the cursor has moved on.
    let out2 = handle_datagram(&mut db, &datagram(MessageType::Request, &mac(1), 3, 0)).unwrap();
    assert_eq!(u32::from(decode(&out2).yiaddr()), POOL_START + 1);
}

#[test]
fn malformed_datagram_is_dropped() {
    let mut db = LeaseDb::new(Config::standard());
    let before = db.cursor;
    assert!(handle_datagram(&mut db, &vec![0x01, 0x02, 0x03]).is_none());
    assert_eq!(db.cursor, before);
    // The store is untouched: the next client still gets the first address.
    assert_eq!(db.assign(&mac(1)), Some(POOL_START));
}

#[test]
fn boot_reply_datagram_is_dropped() {
    let mut db = LeaseDb::new(Config::standard());
    let mut m = Message::default();
    m.set_opcode(Opcode::BootReply).set_htype(HType::Eth).set_xid(5).set_chaddr(&mac(1));
    m.opts_mut().insert(DhcpOption::MessageType(MessageType::Discover));
    let mut buf = Vec::new();
    m.encode(&mut Encoder::new(&mut buf)).unwrap();
    assert!(handle_datagram(&mut db, &buf).is_none());
    assert_eq!(db.assign(&mac(2)), Some(POOL_START));
}

#[test]
fn datagram_without_message_type_is_dropped() {
    let mut db = LeaseDb::new(Config::standard());
    let mut m = Message::default();
    m.set_opcode(Opcode::BootRequest).set_htype(HType::Eth).set_xid(8).set_chaddr(&mac(1));
    let mut buf = Vec::new();
    m.encode(&mut Encoder::new(&mut buf)).unwrap();
    assert!(handle_datagram(&mut db, &buf).is_none());
    assert_eq!(db.assign(&mac(2)), Some(POOL_START));
}
