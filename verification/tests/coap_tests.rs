use frame_responder::coap::CoapMessage;
use frame_responder::coap::build_coap_ack;
use frame_responder::coap::build_led_json;
use frame_responder::coap::coap_decide;
use frame_responder::coap::parse_coap;
use frame_responder::coap::parse_led_json;
use frame_responder::frame::FrameError;

fn get_led_msg() -> CoapMessage {
    parse_coap(&vec![0x42, 0x01, 0x12, 0x34, 0x41, 0x42, 0xB3, 0x6C, 0x65, 0x64]).unwrap()
}

#[test]
fn parse_coap_basic_get() {
    let m = get_led_msg();
    assert_eq!(m.ctype, 0); // confirmable
    assert_eq!(m.code, 1);
    assert_eq!(m.msg_id, 0x1234);
    assert_eq!(m.token, vec![0x41, 0x42]);
    assert_eq!(m.options.len(), 1);
    assert_eq!(m.options[0].number, 11);
    assert_eq!(m.options[0].value, b"led".to_vec());
    assert!(m.payload.is_none());
}

#[test]
fn parse_coap_payload_after_marker() {
    let m = parse_coap(&vec![0x50, 0x03, 0x00, 0x01, 0xFF, 0x61, 0x62]).unwrap();
    assert_eq!(m.ctype, 1); // non-confirmable
    assert_eq!(m.token, Vec::<u8>::new());
    assert_eq!(m.options.len(), 0);
    assert_eq!(m.payload, Some(vec![0x61, 0x62]));
}

#[test]
fn parse_coap_extended_option_deltas() {
    // delta nibble 13: one extension byte, number 13 + 7 = 20;
    // then delta nibble 14: two extension bytes, number 20 + 269 + 256 = 545
    let m = parse_coap(&vec![
        0x40, 0x01, 0x00, 0x00, 0xD1, 0x07, 0x41, 0xE2, 0x01, 0x00, 0x51, 0x52,
    ])
    .unwrap();
    assert_eq!(m.options.len(), 2);
    assert_eq!(m.options[0].number, 20);
    assert_eq!(m.options[0].value, vec![0x41]);
    assert_eq!(m.options[1].number, 20 + 269 + 256);
    assert_eq!(m.options[1].value, vec![0x51, 0x52]);
}

#[test]
fn parse_coap_extended_option_length() {
    // length nibble 13: one extension byte, 13 + 1 = 14 value bytes
    let mut bytes = vec![0x40, 0x01, 0x00, 0x00, 0xBD, 0x01];
    bytes.extend_from_slice(&[0x61; 14]);
    let m = parse_coap(&bytes).unwrap();
    assert_eq!(m.options.len(), 1);
    assert_eq!(m.options[0].number, 11);
    assert_eq!(m.options[0].value.len(), 14);
}

#[test]
fn parse_coap_errors() {
    // too short for the fixed header
    assert_eq!(parse_coap(&vec![0x40, 0x01, 0x00]), Err(FrameError::Malformed));
    // version 2
    assert_eq!(
        parse_coap(&vec![0x80, 0x01, 0x00, 0x00]),
        Err(FrameError::Malformed)
    );
    // token length 9
    assert_eq!(
        parse_coap(&vec![0x49, 0x01, 0x00, 0x00, 1, 2, 3, 4, 5, 6, 7, 8, 9]),
        Err(FrameError::Malformed)
    );
    // token missing
    assert_eq!(
        parse_coap(&vec![0x42, 0x01, 0x00, 0x00, 0x41]),
        Err(FrameError::Malformed)
    );
    // payload marker with nothing after it
    assert_eq!(
        parse_coap(&vec![0x40, 0x01, 0x00, 0x00, 0xFF]),
        Err(FrameError::Malformed)
    );
    // reserved option nibble 15
    assert_eq!(
        parse_coap(&vec![0x40, 0x01, 0x00, 0x00, 0xF1, 0x00]),
        Err(FrameError::Malformed)
    );
    // option value runs past the message
    assert_eq!(
        parse_coap(&vec![0x40, 0x01, 0x00, 0x00, 0xB3, 0x6C]),
        Err(FrameError::Malformed)
    );
}

#[test]
fn led_json_round_trip() {
    assert_eq!(build_led_json(true), b"{\"led\": true}".to_vec());
    assert_eq!(build_led_json(false), b"{\"led\": false}".to_vec());
    assert_eq!(parse_led_json(&build_led_json(true)), Some(true));
    assert_eq!(parse_led_json(&build_led_json(false)), Some(false));
    assert_eq!(parse_led_json(&b"{\"led\": 1}".to_vec()), None);
    assert_eq!(parse_led_json(&vec![]), None);
}

#[test]
fn decide_get_put_and_bad_request() {
    let get = get_led_msg();
    let out = coap_decide(&get, true);
    assert_eq!(out.code, 0x45);
    assert_eq!(out.payload, Some(b"{\"led\": true}".to_vec()));
    assert!(out.led);

    let mut put_bytes = vec![0x42, 0x03, 0x56, 0x78, 0x41, 0x42, 0xB3, 0x6C, 0x65, 0x64, 0xFF];
    put_bytes.extend_from_slice(b"{\"led\": false}");
    let put = parse_coap(&put_bytes).unwrap();
    let out2 = coap_decide(&put, true);
    assert_eq!(out2.code, 0x44);
    assert_eq!(out2.payload, None);
    assert!(!out2.led);

    // two Uri-Path options are not the path /led
    let two_seg = parse_coap(&vec![
        0x40, 0x01, 0x00, 0x00, 0xB3, 0x6C, 0x65, 0x64, 0x03, 0x6C, 0x65, 0x64,
    ])
    .unwrap();
    let out3 = coap_decide(&two_seg, false);
    assert_eq!(out3.code, 0x80);
    assert_eq!(out3.payload, None);
    assert!(!out3.led);
}

#[test]
fn ack_bytes_exact() {
    let token = vec![0xAB, 0xCD];
    let payload = vec![0x31, 0x32];
    let ack = build_coap_ack(&token, 0xBEEF, 0x45, Some(&payload));
    assert_eq!(ack, vec![0x62, 0x45, 0xBE, 0xEF, 0xAB, 0xCD, 0xFF, 0x31, 0x32]);
    let ack2 = build_coap_ack(&token, 0x0001, 0x80, None);
    assert_eq!(ack2, vec![0x62, 0x80, 0x00, 0x01, 0xAB, 0xCD]);
}
