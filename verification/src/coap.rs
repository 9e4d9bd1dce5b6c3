//! The CoAP codec: a small subset of the constrained-application protocol —
//! a 4-byte fixed header, a token, delta/length-encoded options, a 0xFF
//! payload marker — together with the acknowledgement builder and the JSON
//! payload of the single `led` resource.

use vstd::prelude::*;
use crate::checksum::checksum16;
use crate::checksum::internet_checksum;
use crate::checksum::lemma_stored_checksum_validates;
use crate::checksum::sums_to_all_ones;
use crate::frame::ETHERTYPE_IPV4;
use crate::frame::FrameError;
use crate::frame::IP_PROTO_UDP;
use crate::frame::be16;
use crate::frame::bytes_eq;
use crate::frame::eth_dst;
use crate::frame::eth_src;
use crate::frame::eth_type;
use crate::frame::ipv4_dst;
use crate::frame::ipv4_ok;
use crate::frame::ipv4_protocol;
use crate::frame::ipv4_src;
use crate::frame::ipv4_total_len;
use crate::frame::udp_checksum;
use crate::frame::udp_len;
use crate::frame::udp_dst_port;
use crate::frame::udp_ok;
use crate::frame::push_be16;
use crate::frame::push_ip;
use crate::frame::push_mac;
use crate::frame::push_range;
use crate::frame::read_be16;
use crate::frame::set_be16;
use crate::frame::udp_src_port;

verus! {

/// The UDP port CoAP requests arrive on.
pub const COAP_PORT: u16 = 5683;

/// CoAP message type Acknowledgement.
pub const COAP_TYPE_ACK: u8 = 2;

/// Request method GET.
pub const COAP_CODE_GET: u8 = 1;

/// Request method PUT.
pub const COAP_CODE_PUT: u8 = 3;

/// Response 2.05 Content.
pub const COAP_CODE_CONTENT: u8 = 0x45;

/// Response 2.04 Changed.
pub const COAP_CODE_CHANGED: u8 = 0x44;

/// Response 4.00 Bad Request.
pub const COAP_CODE_BAD_REQUEST: u8 = 0x80;

/// The Uri-Path option number.
pub const COAP_OPTION_URI_PATH: u16 = 11;

/// One decoded option: its absolute number and its value bytes.
#[derive(Debug, PartialEq, Eq)]
pub struct CoapOption {
    pub number: u16,
    pub value: Vec<u8>,
}

/// A decoded CoAP message.
#[derive(Debug, PartialEq, Eq)]
pub struct CoapMessage {
    pub ctype: u8,
    pub code: u8,
    pub msg_id: u16,
    pub token: Vec<u8>,
    pub options: Vec<CoapOption>,
    pub payload: Option<Vec<u8>>,
}

/// The mathematical shape of a decoded message.
pub ghost struct CoapModel {
    pub ctype: int,
    pub code: int,
    pub msg_id: int,
    pub token: Seq<u8>,
    pub options: Seq<(int, Seq<u8>)>,
    pub payload: Option<Seq<u8>>,
}

/// The options of `v` as (number, value) pairs.
pub open spec fn options_view(v: Seq<CoapOption>) -> Seq<(int, Seq<u8>)> {
    v.map_values(|o: CoapOption| (o.number as int, o.value@))
}

/// The payload bytes, if any.
pub open spec fn payload_view(p: Option<Vec<u8>>) -> Option<Seq<u8>> {
    match p {
        Some(v) => Some(v@),
        None => None,
    }
}

/// What a decoded message states about the bytes it came from.
pub open spec fn coap_message_view(m: CoapMessage) -> CoapModel {
    CoapModel {
        ctype: m.ctype as int,
        code: m.code as int,
        msg_id: m.msg_id as int,
        token: m.token@,
        options: options_view(m.options@),
        payload: payload_view(m.payload),
    }
}

/// Decodes the option list of `s` from offset `i` on, with `running` the
/// option number reached so far: each option adds its delta to the running
/// number; nibble value 15 is reserved except in the 0xFF payload marker,
/// which must be followed by at least one payload byte; option numbers
/// beyond 16 bits are refused.
pub open spec fn parse_options(s: Seq<u8>, i: int, running: int) -> Option<
    (Seq<(int, Seq<u8>)>, Option<Seq<u8>>),
>
    decreases s.len() - i when 0 <= i <= s.len()
{
    if i == s.len() {
        Some((Seq::empty(), None))
    } else if s[i] == 0xFF {
        if i + 1 < s.len() {
            Some((Seq::empty(), Some(s.subrange(i + 1, s.len() as int))))
        } else {
            None
        }
    } else {
        let dn = s[i] as int / 16;
        let ln = s[i] as int % 16;
        if dn == 15 || ln == 15 {
            None
        } else {
            let dext: int = if dn == 13 { 1 } else if dn == 14 { 2 } else { 0 };
            let lext: int = if ln == 13 { 1 } else if ln == 14 { 2 } else { 0 };
            if i + 1 + dext + lext > s.len() {
                None
            } else {
                let delta: int = if dn == 13 {
                    s[i + 1] as int + 13
                } else if dn == 14 {
                    256 * (s[i + 1] as int) + s[i + 2] as int + 269
                } else {
                    dn
                };
                let vlen: int = if ln == 13 {
                    s[i + 1 + dext] as int + 13
                } else if ln == 14 {
                    256 * (s[i + 1 + dext] as int) + (s[i + 2 + dext] as int) + 269
                } else {
                    ln
                };
                let number = running + delta;
                let vstart = i + 1 + dext + lext;
                if number > 0xFFFF || vstart + vlen > s.len() {
                    None
                } else {
                    match parse_options(s, vstart + vlen, number) {
                        None => None,
                        Some(rest) => Some(
                            (
                                seq![(number, s.subrange(vstart, vstart + vlen))] + rest.0,
                                rest.1,
                            ),
                        ),
                    }
                }
            }
        }
    }
}

/// Decodes a whole CoAP message: version must be 1, the token length at
/// most 8 and present, then the options and payload.
pub open spec fn coap_model(s: Seq<u8>) -> Option<CoapModel> {
    if s.len() < 4 {
        None
    } else {
        let b0 = s[0] as int;
        let version = b0 / 64;
        let ctype = (b0 / 16) % 4;
        let tkl = b0 % 16;
        if version != 1 || tkl > 8 || 4 + tkl > s.len() {
            None
        } else {
            match parse_options(s, 4 + tkl, 0) {
                None => None,
                Some(rest) => Some(
                    CoapModel {
                        ctype,
                        code: s[1] as int,
                        msg_id: be16(s, 2),
                        token: s.subrange(4, 4 + tkl),
                        options: rest.0,
                        payload: rest.1,
                    },
                ),
            }
        }
    }
}

/// Prepends already-decoded options to a decode result.
pub open spec fn opt_concat(
    pre: Seq<(int, Seq<u8>)>,
    r: Option<(Seq<(int, Seq<u8>)>, Option<Seq<u8>>)>,
) -> Option<(Seq<(int, Seq<u8>)>, Option<Seq<u8>>)> {
    match r {
        None => None,
        Some(t) => Some((pre + t.0, t.1)),
    }
}

fn parse_options_exec(s: &Vec<u8>, start: usize) -> (r: Result<
    (Vec<CoapOption>, Option<Vec<u8>>),
    FrameError,
>)
    requires
        start <= s@.len(),
    ensures
        r is Ok <==> parse_options(s@, start as int, 0) is Some,
        r matches Ok(p) ==> Some((options_view(p.0@), payload_view(p.1))) == parse_options(
            s@,
            start as int,
            0,
        ),
        r matches Err(e) ==> e == FrameError::Malformed,
{
    let n = s.len();
    let mut i: usize = start;
    let mut running: u32 = 0;
    let mut acc: Vec<CoapOption> = Vec::new();
    proof {
        assert(options_view(acc@) =~= Seq::<(int, Seq<u8>)>::empty());
        if parse_options(s@, start as int, 0) is Some {
            let t = parse_options(s@, start as int, 0)->Some_0;
            assert(options_view(acc@) + t.0 =~= t.0);
        }
    }
    while i < n
        invariant
            start <= i <= n,
            n == s@.len(),
            running <= 0xFFFF,
            parse_options(s@, start as int, 0) == opt_concat(
                options_view(acc@),
                parse_options(s@, i as int, running as int),
            ),
        decreases n - i,
    {
        let ghost acc0 = acc@;
        let b = s[i];
        if b == 0xFF {
            if i + 1 < n {
                let mut pay: Vec<u8> = Vec::new();
                push_range(&mut pay, s, i + 1, n);
                proof {
                    assert(pay@ =~= s@.subrange(i as int + 1, n as int));
                    assert(parse_options(s@, i as int, running as int) == Some(
                        (Seq::<(int, Seq<u8>)>::empty(), Some(pay@)),
                    ));
                    assert(options_view(acc@) + Seq::<(int, Seq<u8>)>::empty() =~= options_view(
                        acc@,
                    ));
                }
                return Ok((acc, Some(pay)));
            } else {
                proof {
                    assert(parse_options(s@, i as int, running as int) is None);
                }
                return Err(FrameError::Malformed);
            }
        }
        let dn: u8 = b / 16;
        let ln: u8 = b % 16;
        if dn == 15 || ln == 15 {
            proof {
                assert(parse_options(s@, i as int, running as int) is None);
            }
            return Err(FrameError::Malformed);
        }
        let dext: usize = if dn == 13 {
            1
        } else if dn == 14 {
            2
        } else {
            0
        };
        let lext: usize = if ln == 13 {
            1
        } else if ln == 14 {
            2
        } else {
            0
        };
        if n - i - 1 < dext + lext {
            proof {
                assert(parse_options(s@, i as int, running as int) is None);
            }
            return Err(FrameError::Malformed);
        }
        let delta: u32 = if dn == 13 {
            s[i + 1] as u32 + 13
        } else if dn == 14 {
            256 * (s[i + 1] as u32) + s[i + 2] as u32 + 269
        } else {
            dn as u32
        };
        let vlen: usize = if ln == 13 {
            s[i + 1 + dext] as usize + 13
        } else if ln == 14 {
            256 * (s[i + 1 + dext] as usize) + (s[i + 2 + dext] as usize) + 269
        } else {
            ln as usize
        };
        let number: u32 = running + delta;
        let vstart: usize = i + 1 + dext + lext;
        if number > 0xFFFF {
            proof {
                assert(parse_options(s@, i as int, running as int) is None);
            }
            return Err(FrameError::Malformed);
        }
        if vlen > n - vstart {
            proof {
                assert(parse_options(s@, i as int, running as int) is None);
            }
            return Err(FrameError::Malformed);
        }
        let mut value: Vec<u8> = Vec::new();
        push_range(&mut value, s, vstart, vstart + vlen);
        proof {
            assert(value@ =~= s@.subrange(vstart as int, vstart as int + vlen as int));
        }
        acc.push(CoapOption { number: number as u16, value });
        proof {
            let step = parse_options(s@, i as int, running as int);
            let rest = parse_options(s@, vstart as int + vlen as int, number as int);
            assert(step == opt_concat(
                seq![(number as int, s@.subrange(vstart as int, vstart as int + vlen as int))],
                rest,
            ));
            assert(options_view(acc@) =~= options_view(acc0) + seq![
                (number as int, s@.subrange(vstart as int, vstart as int + vlen as int)),
            ]);
            if rest is Some {
                let t = rest->Some_0;
                assert(options_view(acc0) + (seq![
                    (number as int, s@.subrange(vstart as int, vstart as int + vlen as int)),
                ] + t.0) =~= options_view(acc@) + t.0);
            }
        }
        i = vstart + vlen;
        running = number;
    }
    proof {
        assert(parse_options(s@, i as int, running as int) == Some(
            (Seq::<(int, Seq<u8>)>::empty(), None::<Seq<u8>>),
        ));
        assert(options_view(acc@) + Seq::<(int, Seq<u8>)>::empty() =~= options_view(acc@));
    }
    Ok((acc, None))
}

/// Decodes a CoAP message from the bytes of a UDP payload.
pub fn parse_coap(s: &Vec<u8>) -> (r: Result<CoapMessage, FrameError>)
    ensures
        r is Ok <==> coap_model(s@) is Some,
        r matches Ok(m) ==> Some(coap_message_view(m)) == coap_model(s@),
        r matches Err(e) ==> e == FrameError::Malformed,
{
    let n = s.len();
    if n < 4 {
        return Err(FrameError::Malformed);
    }
    let b0 = s[0];
    if b0 / 64 != 1 {
        return Err(FrameError::Malformed);
    }
    let tkl = b0 % 16;
    if tkl > 8 {
        return Err(FrameError::Malformed);
    }
    if (tkl as usize) > n - 4 {
        return Err(FrameError::Malformed);
    }
    let mut token: Vec<u8> = Vec::new();
    push_range(&mut token, s, 4, 4 + tkl as usize);
    proof {
        assert(token@ =~= s@.subrange(4, 4 + (b0 % 16) as int));
    }
    match parse_options_exec(s, 4 + tkl as usize) {
        Err(e) => Err(e),
        Ok((options, payload)) => {
            let m = CoapMessage {
                ctype: (b0 / 16) % 4,
                code: s[1],
                msg_id: read_be16(s, 2),
                token,
                options,
                payload,
            };
            proof {
                let model = coap_model(s@)->Some_0;
                assert(coap_message_view(m).token =~= model.token);
                assert(coap_message_view(m) == model);
            }
            Ok(m)
        },
    }
}

/// The serialized state of the led resource: the JSON object
/// `{"led": true}` or `{"led": false}`.
pub open spec fn led_json(b: bool) -> Seq<u8> {
    if b {
        seq![
            0x7Bu8,
            0x22u8,
            0x6Cu8,
            0x65u8,
            0x64u8,
            0x22u8,
            0x3Au8,
            0x20u8,
            0x74u8,
            0x72u8,
            0x75u8,
            0x65u8,
            0x7Du8,
        ]
    } else {
        seq![
            0x7Bu8,
            0x22u8,
            0x6Cu8,
            0x65u8,
            0x64u8,
            0x22u8,
            0x3Au8,
            0x20u8,
            0x66u8,
            0x61u8,
            0x6Cu8,
            0x73u8,
            0x65u8,
            0x7Du8,
        ]
    }
}

/// Serializes the led state.
pub fn build_led_json(b: bool) -> (r: Vec<u8>)
    ensures
        r@ == led_json(b),
{
    let mut out: Vec<u8> = Vec::new();
    out.push(0x7B);
    out.push(0x22);
    out.push(0x6C);
    out.push(0x65);
    out.push(0x64);
    out.push(0x22);
    out.push(0x3A);
    out.push(0x20);
    if b {
        out.push(0x74);
        out.push(0x72);
        out.push(0x75);
        out.push(0x65);
    } else {
        out.push(0x66);
        out.push(0x61);
        out.push(0x6C);
        out.push(0x73);
        out.push(0x65);
    }
    out.push(0x7D);
    proof {
        assert(out@ =~= led_json(b));
    }
    out
}

/// The led state a payload asks for, when it is one of the two serialized
/// forms; anything else does not deserialize.
pub open spec fn led_value_of(p: Seq<u8>) -> Option<bool> {
    if p == led_json(true) {
        Some(true)
    } else if p == led_json(false) {
        Some(false)
    } else {
        None
    }
}

/// Deserializes a led-state payload.
pub fn parse_led_json(p: &Vec<u8>) -> (r: Option<bool>)
    ensures
        r == led_value_of(p@),
{
    let t = build_led_json(true);
    if bytes_eq(p, &t) {
        return Some(true);
    }
    let f = build_led_json(false);
    if bytes_eq(p, &f) {
        return Some(false);
    }
    None
}

/// The bytes of the `led` path segment.
pub open spec fn led_segment() -> Seq<u8> {
    seq![0x6Cu8, 0x65u8, 0x64u8]
}

/// Whether the option list names the resource path `/led`: exactly one
/// Uri-Path option, and its value is `led`.
pub open spec fn is_led_path(opts: Seq<(int, Seq<u8>)>) -> bool {
    exists|i: int|
        0 <= i < opts.len() && #[trigger] opts[i].0 == COAP_OPTION_URI_PATH && opts[i].1
            == led_segment() && (forall|j: int|
            0 <= j < opts.len() && j != i ==> opts[j].0 != COAP_OPTION_URI_PATH)
}

/// Whether the options of a decoded message name the path `/led`.
pub fn options_name_led(options: &Vec<CoapOption>) -> (r: bool)
    ensures
        r == is_led_path(options_view(options@)),
{
    let ghost ov = options_view(options@);
    let n = options.len();
    let mut first: usize = n;
    let mut dup: bool = false;
    let mut i: usize = 0;
    while i < n
        invariant
            0 <= i <= n,
            n == options@.len(),
            ov == options_view(options@),
            first <= n,
            first == n ==> !dup && (forall|j: int|
                0 <= j < i ==> #[trigger] ov[j].0 != COAP_OPTION_URI_PATH),
            first < n ==> first < i && ov[first as int].0 == COAP_OPTION_URI_PATH && (forall|
                j: int,
            |
                0 <= j < first ==> #[trigger] ov[j].0 != COAP_OPTION_URI_PATH),
            first < n && !dup ==> (forall|j: int|
                first < j < i ==> #[trigger] ov[j].0 != COAP_OPTION_URI_PATH),
            dup ==> first < n && (exists|j: int|
                first < j < i && #[trigger] ov[j].0 == COAP_OPTION_URI_PATH),
        decreases n - i,
    {
        let number = options[i].number;
        proof {
            assert(ov[i as int].0 == options@[i as int].number as int);
        }
        if number == COAP_OPTION_URI_PATH {
            if first == n {
                first = i;
            } else {
                dup = true;
            }
        }
        i = i + 1;
    }
    if first == n {
        proof {
            assert(!is_led_path(ov)) by {
                if is_led_path(ov) {
                    let w = choose|w: int|
                        0 <= w < ov.len() && #[trigger] ov[w].0 == COAP_OPTION_URI_PATH && ov[w].1
                            == led_segment() && (forall|j: int|
                            0 <= j < ov.len() && j != w ==> ov[j].0 != COAP_OPTION_URI_PATH);
                    assert(ov[w].0 != COAP_OPTION_URI_PATH);
                }
            }
        }
        return false;
    }
    if dup {
        proof {
            let d = choose|j: int|
                first < j < n && #[trigger] ov[j].0 == COAP_OPTION_URI_PATH;
            assert(first < d < n && ov[d].0 == COAP_OPTION_URI_PATH);
            assert(!is_led_path(ov)) by {
                if is_led_path(ov) {
                    let w = choose|w: int|
                        0 <= w < ov.len() && #[trigger] ov[w].0 == COAP_OPTION_URI_PATH && ov[w].1
                            == led_segment() && (forall|j: int|
                            0 <= j < ov.len() && j != w ==> ov[j].0 != COAP_OPTION_URI_PATH);
                    if w != first as int {
                        assert(ov[first as int].0 != COAP_OPTION_URI_PATH);
                    } else {
                        assert(ov[d].0 != COAP_OPTION_URI_PATH);
                    }
                }
            }
        }
        return false;
    }
    let seg = &options[first].value;
    let mut led: Vec<u8> = Vec::new();
    led.push(0x6C);
    led.push(0x65);
    led.push(0x64);
    proof {
        assert(led@ =~= led_segment());
    }
    let good = bytes_eq(seg, &led);
    proof {
        assert(options@[first as int].value@ == ov[first as int].1);
        if good {
            assert(is_led_path(ov)) by {
                assert(forall|j: int|
                    0 <= j < ov.len() && j != first ==> #[trigger] ov[j].0
                        != COAP_OPTION_URI_PATH);
                assert(0 <= first < ov.len() && ov[first as int].0 == COAP_OPTION_URI_PATH
                    && ov[first as int].1 == led_segment());
            }
        } else {
            assert(!is_led_path(ov)) by {
                if is_led_path(ov) {
                    let w = choose|w: int|
                        0 <= w < ov.len() && #[trigger] ov[w].0 == COAP_OPTION_URI_PATH && ov[w].1
                            == led_segment() && (forall|j: int|
                            0 <= j < ov.len() && j != w ==> ov[j].0 != COAP_OPTION_URI_PATH);
                    if w != first as int {
                        assert(ov[first as int].0 != COAP_OPTION_URI_PATH);
                    }
                }
            }
        }
    }
    good
}

/// What the respond-to-a-request step does, before the reply frame is
/// wrapped: the response code, the response payload, and the led state
/// afterwards.
pub struct CoapOutcome {
    pub code: u8,
    pub payload: Option<Vec<u8>>,
    pub led: bool,
}

/// Whether the request reads the led resource.
pub open spec fn coap_is_get_led(m: CoapModel) -> bool {
    m.code == COAP_CODE_GET && is_led_path(m.options)
}

/// The led state a write request asks for: meaningful only when the request
/// is a PUT on the led path whose payload deserializes.
pub open spec fn coap_put_led_value(m: CoapModel) -> Option<bool> {
    if m.code == COAP_CODE_PUT && is_led_path(m.options) {
        match m.payload {
            Some(p) => led_value_of(p),
            None => None,
        }
    } else {
        None
    }
}

/// The response code: Content for a read of the led, Changed for a valid
/// write to it, Bad Request for any other method, path or payload.
pub open spec fn coap_response_code(m: CoapModel) -> int {
    if coap_is_get_led(m) {
        COAP_CODE_CONTENT as int
    } else if coap_put_led_value(m) is Some {
        COAP_CODE_CHANGED as int
    } else {
        COAP_CODE_BAD_REQUEST as int
    }
}

/// The response payload: the serialized led state for a read, nothing
/// otherwise.
pub open spec fn coap_response_payload(m: CoapModel, led: bool) -> Option<Seq<u8>> {
    if coap_is_get_led(m) {
        Some(led_json(led))
    } else {
        None
    }
}

/// The led state after the request: a valid write sets it, everything else
/// leaves it.
pub open spec fn coap_led_after(m: CoapModel, led: bool) -> bool {
    match coap_put_led_value(m) {
        Some(b) => b,
        None => led,
    }
}

/// Decides what a decoded request does to the led resource and what the
/// response says.
pub fn coap_decide(m: &CoapMessage, led: bool) -> (r: CoapOutcome)
    ensures
        r.code as int == coap_response_code(coap_message_view(*m)),
        payload_view(r.payload) == coap_response_payload(coap_message_view(*m), led),
        r.led == coap_led_after(coap_message_view(*m), led),
{
    let led_path = options_name_led(&m.options);
    if m.code == COAP_CODE_GET && led_path {
        CoapOutcome { code: COAP_CODE_CONTENT, payload: Some(build_led_json(led)), led }
    } else if m.code == COAP_CODE_PUT && led_path {
        match &m.payload {
            Some(p) => {
                match parse_led_json(p) {
                    Some(b) => CoapOutcome { code: COAP_CODE_CHANGED, payload: None, led: b },
                    None => CoapOutcome { code: COAP_CODE_BAD_REQUEST, payload: None, led },
                }
            },
            None => CoapOutcome { code: COAP_CODE_BAD_REQUEST, payload: None, led },
        }
    } else {
        CoapOutcome { code: COAP_CODE_BAD_REQUEST, payload: None, led }
    }
}

/// The acknowledgement message sent back: version 1, type Acknowledgement,
/// the request's token length and token, the response code, the request's
/// message id, and the payload behind a 0xFF marker when there is one.
pub open spec fn coap_ack(token: Seq<u8>, msg_id: int, code: u8, payload: Option<Seq<u8>>) -> Seq<
    u8,
> {
    seq![(0x60 + token.len()) as u8, code, (msg_id / 256) as u8, (msg_id % 256) as u8] + token + (
    match payload {
        Some(p) => seq![0xFFu8] + p,
        None => Seq::<u8>::empty(),
    })
}

/// Builds the acknowledgement message.
pub fn build_coap_ack(token: &Vec<u8>, msg_id: u16, code: u8, payload: Option<&Vec<u8>>) -> (r: Vec<
    u8,
>)
    requires
        token@.len() <= 8,
    ensures
        r@ == coap_ack(
            token@,
            msg_id as int,
            code,
            match payload {
                Some(p) => Some(p@),
                None => None,
            },
        ),
{
    let mut out: Vec<u8> = Vec::new();
    out.push(0x60 + token.len() as u8);
    out.push(code);
    push_be16(&mut out, msg_id);
    push_range(&mut out, token, 0, token.len());
    match payload {
        Some(p) => {
            out.push(0xFF);
            push_range(&mut out, p, 0, p.len());
        },
        None => {},
    }
    proof {
        assert(out@ =~= coap_ack(
            token@,
            msg_id as int,
            code,
            match payload {
                Some(p) => Some(p@),
                None => None,
            },
        ));
    }
    out
}

/// Every acknowledgement carries protocol version 1 and message type
/// Acknowledgement, states the response code, echoes the request's message
/// id, and carries the request's token.
pub proof fn lemma_coap_ack_shape(token: Seq<u8>, msg_id: int, code: u8, payload: Option<Seq<u8>>)
    requires
        token.len() <= 8,
        0 <= msg_id <= 0xFFFF,
    ensures
        ({
            let ack = coap_ack(token, msg_id, code, payload);
            &&& ack.len() >= 4
            &&& (ack[0] as int) / 64 == 1
            &&& ((ack[0] as int) / 16) % 4 == COAP_TYPE_ACK as int
            &&& (ack[0] as int) % 16 == token.len()
            &&& ack[1] == code
            &&& be16(ack, 2) == msg_id
            &&& ack.subrange(4, 4 + token.len() as int) == token
        }),
{
    let ack = coap_ack(token, msg_id, code, payload);
    assert(ack[0] == (0x60 + token.len()) as u8);
    assert(0 <= msg_id / 256 < 256);
    assert(ack[2] == (msg_id / 256) as u8 && ack[3] == (msg_id % 256) as u8);
    vstd::arithmetic::div_mod::lemma_fundamental_div_mod(msg_id, 256);
    assert(ack.subrange(4, 4 + token.len() as int) =~= token);
}

/// The reply's IPv4 header with its checksum field zeroed: version 4, no
/// options, the total length of the IPv4/UDP/CoAP nest, no fragmentation,
/// TTL 64, protocol UDP, from the responder to the requester.
pub open spec fn reply_ip_header_zeroed(udp_total: int, self_ip: Seq<u8>, dst_ip: Seq<u8>) -> Seq<
    u8,
> {
    seq![
        0x45u8,
        0u8,
        (((20 + udp_total) / 256) as u8),
        (((20 + udp_total) % 256) as u8),
        0u8,
        0u8,
        0u8,
        0u8,
        64u8,
        17u8,
        0u8,
        0u8,
    ] + self_ip + dst_ip
}

/// The whole reply frame wrapped around an acknowledgement `ack`, answering
/// the request frame `s`: Ethernet to `dst_mac` from `self_mac`, a fresh
/// checksummed IPv4 header from `self_ip` back to the request's source
/// address, and a UDP header from the CoAP port back to the request's source
/// port with the checksum disabled (zero).
pub open spec fn coap_reply_frame(
    s: Seq<u8>,
    self_mac: Seq<u8>,
    self_ip: Seq<u8>,
    dst_mac: Seq<u8>,
    ack: Seq<u8>,
) -> Seq<u8> {
    let udp_total = 8 + ack.len() as int;
    let ziph = reply_ip_header_zeroed(udp_total, self_ip, ipv4_src(s));
    let ck = checksum16(ziph);
    let iph = ziph.update(10, (ck / 256) as u8).update(11, (ck % 256) as u8);
    dst_mac + self_mac + seq![0x08u8, 0x00u8] + iph + seq![
        0x16u8,
        0x33u8,
        ((udp_src_port(s) / 256) as u8),
        ((udp_src_port(s) % 256) as u8),
        ((udp_total / 256) as u8),
        ((udp_total % 256) as u8),
        0u8,
        0u8,
    ] + ack
}

/// Wraps an acknowledgement into a full Ethernet/IPv4/UDP reply frame.
pub fn build_coap_reply(
    f: &Vec<u8>,
    self_mac: &[u8; 6],
    self_ip: &[u8; 4],
    dst_mac: &[u8; 6],
    ack: &Vec<u8>,
) -> (r: Vec<u8>)
    requires
        ipv4_ok(f@),
        ipv4_total_len(f@) >= 28,
        ack@.len() <= 0xFF00,
    ensures
        r@ == coap_reply_frame(f@, self_mac@, self_ip@, dst_mac@, ack@),
        sums_to_all_ones(r@.subrange(14, 34)),
{
    let _n = f.len();
    let udp_total: u16 = 8 + ack.len() as u16;
    proof {
        assert(udp_total as int == 8 + ack@.len());
    }
    let ghost ziph = reply_ip_header_zeroed(udp_total as int, self_ip@, ipv4_src(f@));
    let mut out: Vec<u8> = Vec::new();
    push_mac(&mut out, dst_mac);
    push_mac(&mut out, self_mac);
    out.push(0x08);
    out.push(0x00);
    out.push(0x45);
    out.push(0);
    push_be16(&mut out, 20 + udp_total);
    out.push(0);
    out.push(0);
    out.push(0);
    out.push(0);
    out.push(64);
    out.push(17);
    out.push(0);
    out.push(0);
    push_ip(&mut out, self_ip);
    push_range(&mut out, f, 26, 30);
    proof {
        assert(out@.len() == 34);
        assert(out@.subrange(14, 34) =~= ziph);
    }
    let ck = internet_checksum(&out, 14, 34);
    set_be16(&mut out, 24, ck);
    let ghost after_ck = out@;
    proof {
        lemma_stored_checksum_validates(ziph, 5);
        assert(after_ck.subrange(14, 34) =~= ziph.update(10, (ck as int / 256) as u8).update(
            11,
            (ck as int % 256) as u8,
        ));
        assert(sums_to_all_ones(after_ck.subrange(14, 34)));
    }
    out.push(0x16);
    out.push(0x33);
    let sport = read_be16(f, 34);
    push_be16(&mut out, sport);
    push_be16(&mut out, udp_total);
    out.push(0);
    out.push(0);
    push_range(&mut out, ack, 0, ack.len());
    proof {
        assert(ack@.subrange(0, ack@.len() as int) =~= ack@);
        assert(out@ =~= coap_reply_frame(f@, self_mac@, self_ip@, dst_mac@, ack@));
        assert(out@.subrange(14, 34) =~= after_ck.subrange(14, 34));
    }
    out
}

/// The wrapped reply frame names the responder as source and the request's
/// source as destination at both layers, runs from the CoAP port back to
/// the request's source port with the UDP checksum disabled, declares
/// lengths that cover the acknowledgement exactly, and carries the
/// acknowledgement as the bytes after the UDP header — so, with the
/// acknowledgement's own shape, the reply is always of type
/// Acknowledgement and echoes the request's message id.
pub proof fn lemma_coap_reply_carries_ack(
    s: Seq<u8>,
    self_mac: Seq<u8>,
    self_ip: Seq<u8>,
    dst_mac: Seq<u8>,
    ack: Seq<u8>,
)
    requires
        self_mac.len() == 6,
        self_ip.len() == 4,
        dst_mac.len() == 6,
        ipv4_ok(s),
        ipv4_total_len(s) >= 28,
        ack.len() <= 0xFF00,
    ensures
        ({
            let r = coap_reply_frame(s, self_mac, self_ip, dst_mac, ack);
            &&& r.len() == 42 + ack.len()
            &&& r.subrange(42, r.len() as int) == ack
            &&& eth_dst(r) == dst_mac
            &&& eth_src(r) == self_mac
            &&& eth_type(r) == ETHERTYPE_IPV4
            &&& ipv4_ok(r)
            &&& ipv4_total_len(r) == 28 + ack.len()
            &&& ipv4_protocol(r) == IP_PROTO_UDP as int
            &&& ipv4_src(r) == self_ip
            &&& ipv4_dst(r) == ipv4_src(s)
            &&& udp_ok(r)
            &&& udp_src_port(r) == COAP_PORT as int
            &&& udp_dst_port(r) == udp_src_port(s)
            &&& udp_checksum(r) == 0
        }),
{
    let r = coap_reply_frame(s, self_mac, self_ip, dst_mac, ack);
    let udp_total = 8 + ack.len() as int;
    vstd::arithmetic::div_mod::lemma_fundamental_div_mod(20 + udp_total, 256);
    vstd::arithmetic::div_mod::lemma_fundamental_div_mod(udp_total, 256);
    vstd::arithmetic::div_mod::lemma_fundamental_div_mod(udp_src_port(s), 256);
    assert(0 <= (20 + udp_total) / 256 < 256);
    assert(0 <= udp_total / 256 < 256);
    assert(0 <= udp_src_port(s) / 256 < 256);
    assert(r.subrange(42, r.len() as int) =~= ack);
    assert(eth_dst(r) =~= dst_mac);
    assert(eth_src(r) =~= self_mac);
    assert(ipv4_src(r) =~= self_ip);
    assert(ipv4_dst(r) =~= ipv4_src(s));
    assert(ipv4_total_len(r) == 28 + ack.len());
    assert(udp_len(r) == udp_total) by {
        assert(r[38] == (udp_total / 256) as u8 && r[39] == (udp_total % 256) as u8);
    }
}

} // verus!
