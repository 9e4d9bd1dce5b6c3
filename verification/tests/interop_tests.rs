//! The replies the responder emits, decoded by an independent protocol
//! stack: smoltcp's wire module parses each reply and checks the checksums.

use frame_responder::responder::Responder;
use smoltcp::wire::{
    ArpOperation, ArpPacket, ArpRepr, EthernetAddress, EthernetFrame, EthernetProtocol,
    Icmpv4Message, Icmpv4Packet, IpProtocol, Ipv4Address, Ipv4Packet, UdpPacket,
};

const SELF_MAC: [u8; 6] = [0x20, 0x18, 0x03, 0x01, 0x00, 0x00];
const SELF_IP: [u8; 4] = [192, 168, 1, 2];
const PEER_MAC: [u8; 6] = [0xAA, 0xAA, 0xAA, 0xAA, 0xAA, 0xAA];
const PEER_IP: [u8; 4] = [192, 168, 1, 50];

fn arp_request() -> Vec<u8> {
    let mut f = Vec::new();
    f.extend_from_slice(&[0xFF; 6]);
    f.extend_from_slice(&PEER_MAC);
    f.extend_from_slice(&[0x08, 0x06]);
    f.extend_from_slice(&[0x00, 0x01, 0x08, 0x00, 0x06, 0x04, 0x00, 0x01]);
    f.extend_from_slice(&PEER_MAC);
    f.extend_from_slice(&PEER_IP);
    f.extend_from_slice(&[0x00; 6]);
    f.extend_from_slice(&SELF_IP);
    f
}

fn echo_request(data: &[u8]) -> Vec<u8> {
    let total_len = (28 + data.len()) as u16;
    let mut f = Vec::new();
    f.extend_from_slice(&SELF_MAC);
    f.extend_from_slice(&PEER_MAC);
    f.extend_from_slice(&[0x08, 0x00, 0x45, 0x00]);
    f.extend_from_slice(&total_len.to_be_bytes());
    f.extend_from_slice(&[0x00, 0x2A, 0x00, 0x00, 64, 1, 0x00, 0x00]);
    f.extend_from_slice(&PEER_IP);
    f.extend_from_slice(&SELF_IP);
    f.extend_from_slice(&[8, 0, 0, 0, 0x12, 0x34, 0x00, 0x07]);
    f.extend_from_slice(data);
    f
}

fn coap_request(coap: &[u8]) -> Vec<u8> {
    let udp_len = (8 + coap.len()) as u16;
    let total_len = 20 + udp_len;
    let mut f = Vec::new();
    f.extend_from_slice(&SELF_MAC);
    f.extend_from_slice(&PEER_MAC);
    f.extend_from_slice(&[0x08, 0x00, 0x45, 0x00]);
    f.extend_from_slice(&total_len.to_be_bytes());
    f.extend_from_slice(&[0x00, 0x2B, 0x00, 0x00, 64, 17, 0x00, 0x00]);
    f.extend_from_slice(&PEER_IP);
    f.extend_from_slice(&SELF_IP);
    f.extend_from_slice(&0x9000u16.to_be_bytes());
    f.extend_from_slice(&5683u16.to_be_bytes());
    f.extend_from_slice(&udp_len.to_be_bytes());
    f.extend_from_slice(&[0x00, 0x00]);
    f.extend_from_slice(coap);
    f
}

#[test]
fn arp_reply_parses_as_ethernet_ipv4_reply() {
    let mut r = Responder::new(SELF_MAC, SELF_IP);
    let reply = r.handle_frame(&arp_request()).expect("ARP reply");
    let frame = EthernetFrame::new_checked(&reply[..]).unwrap();
    assert_eq!(frame.ethertype(), EthernetProtocol::Arp);
    assert_eq!(frame.dst_addr(), EthernetAddress(PEER_MAC));
    assert_eq!(frame.src_addr(), EthernetAddress(SELF_MAC));
    let arp = ArpPacket::new_checked(frame.payload()).unwrap();
    match ArpRepr::parse(&arp).unwrap() {
        ArpRepr::EthernetIpv4 {
            operation,
            source_hardware_addr,
            source_protocol_addr,
            target_hardware_addr,
            target_protocol_addr,
        } => {
            assert_eq!(operation, ArpOperation::Reply);
            assert_eq!(source_hardware_addr, EthernetAddress(SELF_MAC));
            assert_eq!(source_protocol_addr, Ipv4Address::from(SELF_IP));
            assert_eq!(target_hardware_addr, EthernetAddress(PEER_MAC));
            assert_eq!(target_protocol_addr, Ipv4Address::from(PEER_IP));
        }
        _ => panic!("not an Ethernet/IPv4 ARP message"),
    }
}

#[test]
fn echo_reply_passes_checksum_verification() {
    let mut r = Responder::new(SELF_MAC, SELF_IP);
    let reply = r.handle_frame(&echo_request(b"abcdefgh")).expect("echo reply");
    let frame = EthernetFrame::new_checked(&reply[..]).unwrap();
    assert_eq!(frame.ethertype(), EthernetProtocol::Ipv4);
    let ip = Ipv4Packet::new_checked(frame.payload()).unwrap();
    assert!(ip.verify_checksum());
    assert_eq!(ip.next_header(), IpProtocol::Icmp);
    assert_eq!(ip.src_addr(), Ipv4Address::from(SELF_IP));
    assert_eq!(ip.dst_addr(), Ipv4Address::from(PEER_IP));
    let icmp = Icmpv4Packet::new_checked(ip.payload()).unwrap();
    assert!(icmp.verify_checksum());
    assert_eq!(icmp.msg_type(), Icmpv4Message::EchoReply);
    assert_eq!(icmp.msg_code(), 0);
    assert_eq!(icmp.echo_ident(), 0x1234);
    assert_eq!(icmp.echo_seq_no(), 7);
    assert_eq!(icmp.data(), b"abcdefgh");
}

#[test]
fn coap_reply_parses_as_udp_from_coap_port() {
    let mut r = Responder::new(SELF_MAC, SELF_IP);
    let get = [0x42, 0x01, 0x12, 0x34, 0x41, 0x42, 0xB3, 0x6C, 0x65, 0x64];
    let reply = r.handle_frame(&coap_request(&get)).expect("CoAP reply");
    let frame = EthernetFrame::new_checked(&reply[..]).unwrap();
    assert_eq!(frame.ethertype(), EthernetProtocol::Ipv4);
    let ip = Ipv4Packet::new_checked(frame.payload()).unwrap();
    assert!(ip.verify_checksum());
    assert_eq!(ip.next_header(), IpProtocol::Udp);
    assert_eq!(ip.src_addr(), Ipv4Address::from(SELF_IP));
    assert_eq!(ip.dst_addr(), Ipv4Address::from(PEER_IP));
    let udp = UdpPacket::new_checked(ip.payload()).unwrap();
    assert_eq!(udp.src_port(), 5683);
    assert_eq!(udp.dst_port(), 0x9000);
    assert_eq!(udp.checksum(), 0);
    let mut expected = vec![0x62, 0x45, 0x12, 0x34, 0x41, 0x42, 0xFF];
    expected.extend_from_slice(b"{\"led\": false}");
    assert_eq!(udp.payload(), &expected[..]);
}
