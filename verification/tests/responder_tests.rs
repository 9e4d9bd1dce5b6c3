use frame_responder::responder::Responder;

const SELF_MAC: [u8; 6] = [0x20, 0x18, 0x03, 0x01, 0x00, 0x00];
const SELF_IP: [u8; 4] = [192, 168, 1, 2];
const PEER_MAC: [u8; 6] = [0xAA, 0xAA, 0xAA, 0xAA, 0xAA, 0xAA];
const PEER_IP: [u8; 4] = [192, 168, 1, 50];

fn arp_request(sender_mac: [u8; 6], sender_ip: [u8; 4], target_ip: [u8; 4]) -> Vec<u8> {
    let mut f = Vec::new();
    f.extend_from_slice(&[0xFF; 6]);
    f.extend_from_slice(&sender_mac);
    f.extend_from_slice(&[0x08, 0x06]);
    f.extend_from_slice(&[0x00, 0x01, 0x08, 0x00, 0x06, 0x04, 0x00, 0x01]);
    f.extend_from_slice(&sender_mac);
    f.extend_from_slice(&sender_ip);
    f.extend_from_slice(&[0x00; 6]);
    f.extend_from_slice(&target_ip);
    f
}

fn echo_request(src_mac: [u8; 6], src_ip: [u8; 4], dst_ip: [u8; 4], data: &[u8]) -> Vec<u8> {
    let total_len = (20 + 8 + data.len()) as u16;
    let mut f = Vec::new();
    f.extend_from_slice(&SELF_MAC);
    f.extend_from_slice(&src_mac);
    f.extend_from_slice(&[0x08, 0x00]);
    f.extend_from_slice(&[0x45, 0x00]);
    f.extend_from_slice(&total_len.to_be_bytes());
    f.extend_from_slice(&[0x00, 0x2A, 0x00, 0x00, 64, 1, 0x00, 0x00]);
    f.extend_from_slice(&src_ip);
    f.extend_from_slice(&dst_ip);
    f.extend_from_slice(&[8, 0, 0, 0, 0x12, 0x34, 0x00, 0x07]);
    f.extend_from_slice(data);
    f
}

fn coap_request(src_mac: [u8; 6], src_ip: [u8; 4], dst_ip: [u8; 4], coap: &[u8]) -> Vec<u8> {
    let udp_len = (8 + coap.len()) as u16;
    let total_len = 20 + udp_len;
    let mut f = Vec::new();
    f.extend_from_slice(&SELF_MAC);
    f.extend_from_slice(&src_mac);
    f.extend_from_slice(&[0x08, 0x00]);
    f.extend_from_slice(&[0x45, 0x00]);
    f.extend_from_slice(&total_len.to_be_bytes());
    f.extend_from_slice(&[0x00, 0x2B, 0x00, 0x00, 64, 17, 0x00, 0x00]);
    f.extend_from_slice(&src_ip);
    f.extend_from_slice(&dst_ip);
    f.extend_from_slice(&0x9000u16.to_be_bytes());
    f.extend_from_slice(&5683u16.to_be_bytes());
    f.extend_from_slice(&udp_len.to_be_bytes());
    f.extend_from_slice(&[0x00, 0x00]);
    f.extend_from_slice(coap);
    f
}

/// GET /led, confirmable, message id 0x1234, two-byte token.
fn coap_get_led() -> Vec<u8> {
    vec![0x42, 0x01, 0x12, 0x34, 0x41, 0x42, 0xB3, 0x6C, 0x65, 0x64]
}

/// PUT /led with the given JSON payload.
fn coap_put_led(payload: &[u8]) -> Vec<u8> {
    let mut c = vec![0x42, 0x03, 0x56, 0x78, 0x41, 0x42, 0xB3, 0x6C, 0x65, 0x64, 0xFF];
    c.extend_from_slice(payload);
    c
}

fn fold_sum(bytes: &[u8]) -> u16 {
    let mut sum: u32 = 0;
    let mut i = 0;
    while i + 1 < bytes.len() {
        sum += u16::from_be_bytes([bytes[i], bytes[i + 1]]) as u32;
        i += 2;
    }
    if i < bytes.len() {
        sum += (bytes[i] as u32) << 8;
    }
    while sum > 0xFFFF {
        sum = (sum >> 16) + (sum & 0xFFFF);
    }
    sum as u16
}

#[test]
fn arp_request_gets_reply_scenario() {
    let mut r = Responder::new(SELF_MAC, SELF_IP);
    let req = arp_request(PEER_MAC, PEER_IP, SELF_IP);
    let reply = r.handle_frame(&req).expect("an ARP request for our IP must be answered");
    assert_eq!(reply.len(), 42);
    assert_eq!(&reply[0..6], &PEER_MAC);
    assert_eq!(&reply[6..12], &SELF_MAC);
    assert_eq!(&reply[12..14], &[0x08, 0x06]);
    assert_eq!(&reply[14..20], &[0x00, 0x01, 0x08, 0x00, 0x06, 0x04]);
    assert_eq!(&reply[20..22], &[0x00, 0x02]);
    assert_eq!(&reply[22..28], &SELF_MAC);
    assert_eq!(&reply[28..32], &SELF_IP);
    assert_eq!(&reply[32..38], &PEER_MAC);
    assert_eq!(&reply[38..42], &PEER_IP);
}

#[test]
fn arp_request_for_other_ip_dropped() {
    let mut r = Responder::new(SELF_MAC, SELF_IP);
    let req = arp_request(PEER_MAC, PEER_IP, [192, 168, 1, 77]);
    assert!(r.handle_frame(&req).is_none());
}

#[test]
fn arp_reply_learned_but_not_answered() {
    let mut r = Responder::new(SELF_MAC, SELF_IP);
    let mut req = arp_request(PEER_MAC, PEER_IP, SELF_IP);
    req[21] = 2;
    assert!(r.handle_frame(&req).is_none());
    // the sender was still learned: an echo with a broadcast source needs it
    let echo = echo_request([0xFF; 6], PEER_IP, SELF_IP, b"x");
    assert!(r.handle_frame(&echo).is_some());
}

#[test]
fn arp_probe_is_not_learned() {
    let mut r = Responder::new(SELF_MAC, SELF_IP);
    let probe = arp_request(PEER_MAC, [0, 0, 0, 0], SELF_IP);
    // a probe for our address is still answered
    assert!(r.handle_frame(&probe).is_some());
    // but nothing was learned: an echo that reveals no source MAC of its
    // own cannot be replied to
    let echo = echo_request([0xFF; 6], [0, 0, 0, 0], SELF_IP, b"x");
    assert!(r.handle_frame(&echo).is_none());
}

#[test]
fn arp_wrong_kind_dropped() {
    let mut r = Responder::new(SELF_MAC, SELF_IP);
    let mut req = arp_request(PEER_MAC, PEER_IP, SELF_IP);
    req[15] = 6; // hardware type not Ethernet
    assert!(r.handle_frame(&req).is_none());
    let echo = echo_request([0xFF; 6], PEER_IP, SELF_IP, b"x");
    assert!(r.handle_frame(&echo).is_none());
}

#[test]
fn short_frames_dropped() {
    let mut r = Responder::new(SELF_MAC, SELF_IP);
    assert!(r.handle_frame(&vec![]).is_none());
    assert!(r.handle_frame(&vec![0x00; 13]).is_none());
    let mut req = arp_request(PEER_MAC, PEER_IP, SELF_IP);
    req.truncate(41);
    assert!(r.handle_frame(&req).is_none());
}

#[test]
fn other_ethertype_ignored() {
    let mut r = Responder::new(SELF_MAC, SELF_IP);
    let mut f = arp_request(PEER_MAC, PEER_IP, SELF_IP);
    f[12] = 0x86;
    f[13] = 0xDD;
    assert!(r.handle_frame(&f).is_none());
}

#[test]
fn echo_request_gets_valid_reply() {
    let mut r = Responder::new(SELF_MAC, SELF_IP);
    let req = echo_request(PEER_MAC, PEER_IP, SELF_IP, b"abcdefgh");
    let reply = r.handle_frame(&req).expect("an echo addressed to us must be answered");
    assert_eq!(reply.len(), req.len());
    assert_eq!(&reply[0..6], &PEER_MAC);
    assert_eq!(&reply[6..12], &SELF_MAC);
    assert_eq!(&reply[12..14], &[0x08, 0x00]);
    // addresses swapped
    assert_eq!(&reply[26..30], &SELF_IP);
    assert_eq!(&reply[30..34], &PEER_IP);
    // type EchoReply, code kept
    assert_eq!(reply[34], 0);
    assert_eq!(reply[35], 0);
    // identifier, sequence and data echoed
    assert_eq!(&reply[38..], &req[38..]);
    // both checksums re-sum to all ones
    assert_eq!(fold_sum(&reply[14..34]), 0xFFFF);
    assert_eq!(fold_sum(&reply[34..]), 0xFFFF);
}

#[test]
fn echo_reply_drops_padding() {
    let mut r = Responder::new(SELF_MAC, SELF_IP);
    let mut req = echo_request(PEER_MAC, PEER_IP, SELF_IP, b"abc");
    let declared = req.len();
    req.extend_from_slice(&[0u8; 9]); // link-layer padding beyond the IPv4 total length
    let reply = r.handle_frame(&req).expect("padding must not prevent the reply");
    assert_eq!(reply.len(), declared);
}

#[test]
fn echo_of_full_size_frame() {
    // a frame that fills a whole 1024-byte receive buffer
    let mut r = Responder::new(SELF_MAC, SELF_IP);
    let data = vec![0x5Au8; 1024 - 42];
    let req = echo_request(PEER_MAC, PEER_IP, SELF_IP, &data);
    assert_eq!(req.len(), 1024);
    let reply = r.handle_frame(&req).expect("a full-size echo must be answered");
    assert_eq!(reply.len(), 1024);
    assert_eq!(&reply[38..], &req[38..]);
    assert_eq!(fold_sum(&reply[34..]), 0xFFFF);
}

#[test]
fn echo_for_other_ip_dropped() {
    let mut r = Responder::new(SELF_MAC, SELF_IP);
    let req = echo_request(PEER_MAC, PEER_IP, [192, 168, 1, 99], b"abc");
    assert!(r.handle_frame(&req).is_none());
}

#[test]
fn echo_wrong_type_or_code_dropped() {
    let mut r = Responder::new(SELF_MAC, SELF_IP);
    let mut req = echo_request(PEER_MAC, PEER_IP, SELF_IP, b"abc");
    req[34] = 0;
    assert!(r.handle_frame(&req).is_none());
    let mut req2 = echo_request(PEER_MAC, PEER_IP, SELF_IP, b"abc");
    req2[35] = 1;
    assert!(r.handle_frame(&req2).is_none());
}

#[test]
fn bad_ipv4_version_dropped() {
    let mut r = Responder::new(SELF_MAC, SELF_IP);
    let mut req = echo_request(PEER_MAC, PEER_IP, SELF_IP, b"abc");
    req[14] = 0x46;
    assert!(r.handle_frame(&req).is_none());
}

#[test]
fn overlong_declared_length_dropped() {
    let mut r = Responder::new(SELF_MAC, SELF_IP);
    let mut req = echo_request(PEER_MAC, PEER_IP, SELF_IP, b"abc");
    req[16] = 0x40; // declared total length far beyond the buffer
    assert!(r.handle_frame(&req).is_none());
}

#[test]
fn cache_capacity_rejects_ninth_key() {
    let mut r = Responder::new(SELF_MAC, SELF_IP);
    // eight distinct senders fill the cache
    for i in 0..8u8 {
        let req = arp_request(
            [0x02, 0, 0, 0, 0, i],
            [10, 0, 0, i + 1],
            SELF_IP,
        );
        assert!(r.handle_frame(&req).is_some());
    }
    // the ninth key is rejected: an echo that reveals no usable source MAC
    // of its own cannot be answered
    let req9 = arp_request([0x02, 0, 0, 0, 0, 9], [10, 0, 0, 9], SELF_IP);
    assert!(r.handle_frame(&req9).is_some());
    let echo9 = echo_request([0xFF; 6], [10, 0, 0, 9], SELF_IP, b"x");
    assert!(r.handle_frame(&echo9).is_none());
    // the first key is still there, untouched
    let echo1 = echo_request([0xFF; 6], [10, 0, 0, 1], SELF_IP, b"x");
    let reply = r.handle_frame(&echo1).expect("the first learned entry must survive");
    assert_eq!(&reply[0..6], &[0x02, 0, 0, 0, 0, 0]);
}

#[test]
fn cache_overwrites_existing_key() {
    let mut r = Responder::new(SELF_MAC, SELF_IP);
    let req_old = arp_request([0x02, 0, 0, 0, 0, 1], PEER_IP, SELF_IP);
    assert!(r.handle_frame(&req_old).is_some());
    let req_new = arp_request([0x02, 0, 0, 0, 0, 2], PEER_IP, SELF_IP);
    assert!(r.handle_frame(&req_new).is_some());
    let echo = echo_request([0xFF; 6], PEER_IP, SELF_IP, b"x");
    let reply = r.handle_frame(&echo).expect("the overwritten entry must resolve");
    assert_eq!(&reply[0..6], &[0x02, 0, 0, 0, 0, 2]);
}

#[test]
fn coap_get_led_returns_content() {
    let mut r = Responder::new(SELF_MAC, SELF_IP);
    let req = coap_request(PEER_MAC, PEER_IP, SELF_IP, &coap_get_led());
    let reply = r.handle_frame(&req).expect("a CoAP GET must be answered");
    // Ethernet and IPv4 of the reply
    assert_eq!(&reply[0..6], &PEER_MAC);
    assert_eq!(&reply[6..12], &SELF_MAC);
    assert_eq!(&reply[12..14], &[0x08, 0x00]);
    assert_eq!(reply[14], 0x45);
    assert_eq!(reply[22], 64);
    assert_eq!(reply[23], 17);
    assert_eq!(&reply[26..30], &SELF_IP);
    assert_eq!(&reply[30..34], &PEER_IP);
    assert_eq!(fold_sum(&reply[14..34]), 0xFFFF);
    // UDP: from the CoAP port back to the request's source port, checksum
    // disabled
    assert_eq!(&reply[34..36], &5683u16.to_be_bytes());
    assert_eq!(&reply[36..38], &0x9000u16.to_be_bytes());
    assert_eq!(&reply[40..42], &[0x00, 0x00]);
    // CoAP: acknowledgement, Content, echoed message id and token, payload
    assert_eq!(reply[42], 0x62);
    assert_eq!(reply[43], 0x45);
    assert_eq!(&reply[44..46], &[0x12, 0x34]);
    assert_eq!(&reply[46..48], &[0x41, 0x42]);
    assert_eq!(reply[48], 0xFF);
    assert_eq!(&reply[49..], b"{\"led\": false}");
    assert_eq!(reply.len(), 42 + 4 + 2 + 1 + 14);
    // declared lengths agree with the payload
    let total_len = u16::from_be_bytes([reply[16], reply[17]]) as usize;
    assert_eq!(total_len + 14, reply.len());
    let udp_len = u16::from_be_bytes([reply[38], reply[39]]) as usize;
    assert_eq!(udp_len + 34, reply.len());
}

#[test]
fn coap_put_led_switches_pin_and_returns_changed() {
    let mut r = Responder::new(SELF_MAC, SELF_IP);
    assert!(!r.led());
    let req = coap_request(PEER_MAC, PEER_IP, SELF_IP, &coap_put_led(b"{\"led\": true}"));
    let reply = r.handle_frame(&req).expect("a CoAP PUT must be answered");
    assert!(r.led());
    assert_eq!(reply[42], 0x62);
    assert_eq!(reply[43], 0x44);
    assert_eq!(&reply[44..46], &[0x56, 0x78]);
    assert_eq!(reply.len(), 42 + 4 + 2);
    // a following read reports the new state
    let get = coap_request(PEER_MAC, PEER_IP, SELF_IP, &coap_get_led());
    let reply2 = r.handle_frame(&get).expect("the GET after the PUT must be answered");
    assert_eq!(&reply2[49..], b"{\"led\": true}");
    // and switching back off works too
    let req_off = coap_request(PEER_MAC, PEER_IP, SELF_IP, &coap_put_led(b"{\"led\": false}"));
    assert!(r.handle_frame(&req_off).is_some());
    assert!(!r.led());
}

#[test]
fn coap_get_is_idempotent() {
    let mut r = Responder::new(SELF_MAC, SELF_IP);
    let req = coap_request(PEER_MAC, PEER_IP, SELF_IP, &coap_get_led());
    let reply1 = r.handle_frame(&req).expect("first GET");
    let reply2 = r.handle_frame(&req).expect("second GET");
    assert_eq!(reply1, reply2);
}

#[test]
fn coap_bad_method_or_path_returns_bad_request() {
    let mut r = Responder::new(SELF_MAC, SELF_IP);
    // DELETE /led
    let mut c = coap_get_led();
    c[1] = 0x04;
    let req = coap_request(PEER_MAC, PEER_IP, SELF_IP, &c);
    let reply = r.handle_frame(&req).expect("a bad method still gets an acknowledgement");
    assert_eq!(reply[43], 0x80);
    assert_eq!(reply.len(), 42 + 4 + 2);
    // GET /lad
    let mut c2 = coap_get_led();
    c2[8] = 0x61;
    let req2 = coap_request(PEER_MAC, PEER_IP, SELF_IP, &c2);
    let reply2 = r.handle_frame(&req2).expect("a bad path still gets an acknowledgement");
    assert_eq!(reply2[43], 0x80);
}

#[test]
fn coap_put_with_bad_payload_rejected() {
    let mut r = Responder::new(SELF_MAC, SELF_IP);
    let req = coap_request(PEER_MAC, PEER_IP, SELF_IP, &coap_put_led(b"{\"led\": maybe}"));
    let reply = r.handle_frame(&req).expect("a bad payload still gets an acknowledgement");
    assert_eq!(reply[43], 0x80);
    assert!(!r.led());
}

#[test]
fn coap_reply_dropped_on_cache_miss_but_pin_set() {
    let mut r = Responder::new(SELF_MAC, SELF_IP);
    // a broadcast source MAC is never learned, so the reply has no
    // destination and is dropped; the write itself still happens
    let req = coap_request([0xFF; 6], PEER_IP, SELF_IP, &coap_put_led(b"{\"led\": true}"));
    assert!(r.handle_frame(&req).is_none());
    assert!(r.led());
}

#[test]
fn coap_malformed_message_dropped() {
    let mut r = Responder::new(SELF_MAC, SELF_IP);
    // version 2
    let mut c = coap_get_led();
    c[0] = 0x82;
    assert!(r.handle_frame(&coap_request(PEER_MAC, PEER_IP, SELF_IP, &c)).is_none());
    // truncated token
    let short = vec![0x48, 0x01, 0x12, 0x34, 0x41];
    assert!(r.handle_frame(&coap_request(PEER_MAC, PEER_IP, SELF_IP, &short)).is_none());
}

#[test]
fn udp_other_port_ignored() {
    let mut r = Responder::new(SELF_MAC, SELF_IP);
    let mut req = coap_request(PEER_MAC, PEER_IP, SELF_IP, &coap_get_led());
    req[37] = 0x00; // destination port no longer the CoAP port
    assert!(r.handle_frame(&req).is_none());
}

#[test]
fn udp_length_mismatch_dropped() {
    let mut r = Responder::new(SELF_MAC, SELF_IP);
    let mut req = coap_request(PEER_MAC, PEER_IP, SELF_IP, &coap_get_led());
    req[39] += 1; // UDP length no longer agrees with the IPv4 total length
    assert!(r.handle_frame(&req).is_none());
}

#[test]
fn other_ip_protocol_ignored() {
    let mut r = Responder::new(SELF_MAC, SELF_IP);
    let mut req = echo_request(PEER_MAC, PEER_IP, SELF_IP, b"abc");
    req[23] = 6; // TCP
    assert!(r.handle_frame(&req).is_none());
}
