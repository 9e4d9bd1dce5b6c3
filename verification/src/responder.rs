//! The dispatcher: one pass over a received frame that learns sender
//! addresses into the cache, answers ARP requests, ICMP echo requests and
//! CoAP requests addressed to the responder, and drops everything else
//! silently. Exactly one frame comes in; at most one reply comes out.

use vstd::prelude::*;
use crate::arp::arp_reply_frame;
use crate::arp::build_arp_reply;
use crate::arp::is_arp_request_for;
use crate::cache::ArpCache;
use crate::cache::cache_observe;
use crate::cache::cache_resolve;
use crate::coap::COAP_PORT;
use crate::coap::CoapModel;
use crate::coap::build_coap_ack;
use crate::coap::build_coap_reply;
use crate::coap::coap_ack;
use crate::coap::coap_decide;
use crate::coap::coap_led_after;
use crate::coap::coap_message_view;
use crate::coap::coap_model;
use crate::coap::coap_reply_frame;
use crate::coap::coap_response_code;
use crate::coap::coap_response_payload;
use crate::coap::parse_coap;
use crate::frame::ETHERTYPE_ARP;
use crate::frame::ETHERTYPE_IPV4;
use crate::frame::IP_PROTO_ICMP;
use crate::frame::IP_PROTO_UDP;
use crate::frame::arp_is_probe;
use crate::frame::arp_kind_ethernet_ipv4;
use crate::frame::arp_sha;
use crate::frame::arp_sized;
use crate::frame::arp_spa;
use crate::frame::be32;
use crate::frame::broadcast_mac_at;
use crate::frame::eth_sized;
use crate::frame::eth_src;
use crate::frame::eth_type;
use crate::frame::ipv4_dst;
use crate::frame::ipv4_ok;
use crate::frame::ipv4_protocol;
use crate::frame::is_broadcast_mac;
use crate::frame::parse_arp;
use crate::frame::parse_ethernet;
use crate::frame::parse_icmp;
use crate::frame::parse_ipv4;
use crate::frame::parse_udp;
use crate::frame::push_range;
use crate::frame::read_be32;
use crate::frame::udp_dst_port;
use crate::frame::udp_ok;
use crate::frame::udp_payload;
use crate::icmp::build_echo_reply;
use crate::icmp::echo_reply_ok;
use crate::icmp::is_echo_request_for;

verus! {

/// The cache key of an IPv4 frame's source address.
pub open spec fn src_ip_key(f: Seq<u8>) -> u32 {
    be32(f, 26) as u32
}

/// The cache key of an ARP message's sender protocol address.
pub open spec fn arp_sender_key(f: Seq<u8>) -> u32 {
    be32(f, 28) as u32
}

/// Whether a frame teaches the cache an ARP sender pair: a well-formed
/// Ethernet/IPv4 ARP message that is not a probe and whose sender MAC is not
/// broadcast.
pub open spec fn learns_arp(f: Seq<u8>) -> bool {
    &&& eth_sized(f)
    &&& eth_type(f) == ETHERTYPE_ARP
    &&& arp_sized(f)
    &&& arp_kind_ethernet_ipv4(f)
    &&& !arp_is_probe(f)
    &&& !is_broadcast_mac(f, 22)
}

/// Whether a frame teaches the cache its IPv4 source pair: any well-formed
/// IPv4 frame whose Ethernet source MAC is not broadcast.
pub open spec fn learns_ipv4(f: Seq<u8>) -> bool {
    &&& eth_sized(f)
    &&& eth_type(f) == ETHERTYPE_IPV4
    &&& ipv4_ok(f)
    &&& !is_broadcast_mac(f, 6)
}

/// The cache contents after one frame has been processed.
pub open spec fn cache_after(c: Seq<(u32, Seq<u8>)>, f: Seq<u8>) -> Seq<(u32, Seq<u8>)> {
    if learns_arp(f) {
        cache_observe(c, arp_sender_key(f), arp_sha(f))
    } else if learns_ipv4(f) {
        cache_observe(c, src_ip_key(f), eth_src(f))
    } else {
        c
    }
}

/// A UDP frame addressed to the responder on the CoAP port.
pub open spec fn is_coap_request_for(f: Seq<u8>, self_ip: Seq<u8>) -> bool {
    &&& eth_sized(f)
    &&& eth_type(f) == ETHERTYPE_IPV4
    &&& ipv4_ok(f)
    &&& ipv4_protocol(f) == IP_PROTO_UDP
    &&& udp_ok(f)
    &&& udp_dst_port(f) == COAP_PORT
    &&& ipv4_dst(f) == self_ip
}

/// The led state after one frame has been processed: only a valid CoAP
/// write addressed to the responder changes it.
pub open spec fn led_after(led: bool, f: Seq<u8>, self_ip: Seq<u8>) -> bool {
    if is_coap_request_for(f, self_ip) && coap_model(udp_payload(f)) is Some {
        coap_led_after(coap_model(udp_payload(f))->Some_0, led)
    } else {
        led
    }
}

/// The acknowledgement bytes the responder sends back for a decoded CoAP
/// request `m`, with `led` the led state when the request arrived.
pub open spec fn coap_ack_for(m: CoapModel, led: bool) -> Seq<u8> {
    coap_ack(m.token, m.msg_id, coap_response_code(m) as u8, coap_response_payload(m, led))
}

/// An ARP probe — sender IP 0.0.0.0 — never populates the cache, whatever
/// else the message carries.
pub proof fn lemma_arp_probe_never_cached(c: Seq<(u32, Seq<u8>)>, f: Seq<u8>)
    requires
        eth_sized(f),
        eth_type(f) == ETHERTYPE_ARP,
        arp_is_probe(f),
    ensures
        cache_after(c, f) == c,
{
}

/// Reading the led resource never changes it, and what a read returns is a
/// function of the led state alone: two consecutive reads with no
/// intervening write return byte-identical payloads.
pub proof fn lemma_get_led_idempotent(led: bool, self_ip: Seq<u8>, f1: Seq<u8>, f2: Seq<u8>)
    requires
        is_coap_request_for(f1, self_ip),
        coap_model(udp_payload(f1)) is Some,
        crate::coap::coap_is_get_led(coap_model(udp_payload(f1))->Some_0),
        is_coap_request_for(f2, self_ip),
        coap_model(udp_payload(f2)) is Some,
        crate::coap::coap_is_get_led(coap_model(udp_payload(f2))->Some_0),
    ensures
        led_after(led, f1, self_ip) == led,
        coap_response_payload(coap_model(udp_payload(f2))->Some_0, led_after(led, f1, self_ip))
            == coap_response_payload(coap_model(udp_payload(f1))->Some_0, led),
{
    let m1 = coap_model(udp_payload(f1))->Some_0;
    assert(crate::coap::coap_put_led_value(m1) is None);
}

/// The frame responder: its own addresses, the learned address cache, and
/// the state of the led resource.
pub struct Responder {
    mac: [u8; 6],
    ip: [u8; 4],
    cache: ArpCache,
    led: bool,
}

impl Responder {
    /// The responder's MAC address.
    pub closed spec fn mac_spec(&self) -> Seq<u8> {
        self.mac@
    }

    /// The responder's IPv4 address.
    pub closed spec fn ip_spec(&self) -> Seq<u8> {
        self.ip@
    }

    /// The learned address cache.
    pub closed spec fn cache_spec(&self) -> Seq<(u32, Seq<u8>)> {
        self.cache@
    }

    /// The current led state.
    pub closed spec fn led_spec(&self) -> bool {
        self.led
    }

    pub open spec fn wf(&self) -> bool {
        crate::cache::cache_wf(self.cache_spec())
    }

    /// A fresh responder with the given addresses, an empty cache, and the
    /// led off.
    pub fn new(mac: [u8; 6], ip: [u8; 4]) -> (r: Responder)
        ensures
            r.wf(),
            r.mac_spec() == mac@,
            r.ip_spec() == ip@,
            r.cache_spec() == Seq::<(u32, Seq<u8>)>::empty(),
            r.led_spec() == false,
    {
        Responder { mac, ip, cache: ArpCache::new(), led: false }
    }

    /// The current led state, for the driver loop to put on the pin.
    pub fn led(&self) -> (r: bool)
        ensures
            r == self.led_spec(),
    {
        self.led
    }

    /// One full dispatch pass over a received frame. The cache learns the
    /// sender addresses the frame reveals; an ARP request for the
    /// responder's IP gets an ARP reply; an ICMP echo request addressed to
    /// it gets an echo reply; a CoAP request addressed to it gets an
    /// acknowledgement and may switch the led; everything else — other
    /// ethertypes, protocols or ports, frames not addressed here, and any
    /// frame that fails to decode at any nesting level — is dropped
    /// silently. A reply whose destination MAC the cache cannot resolve is
    /// dropped rather than sent.
    pub fn handle_frame(&mut self, f: &Vec<u8>) -> (r: Option<Vec<u8>>)
        requires
            old(self).wf(),
        ensures
            final(self).wf(),
            final(self).mac_spec() == old(self).mac_spec(),
            final(self).ip_spec() == old(self).ip_spec(),
            final(self).cache_spec() == cache_after(old(self).cache_spec(), f@),
            final(self).led_spec() == led_after(old(self).led_spec(), f@, old(self).ip_spec()),
            is_arp_request_for(f@, old(self).ip_spec()) ==> (r matches Some(v) && v@
                == arp_reply_frame(
                old(self).mac_spec(),
                old(self).ip_spec(),
                arp_sha(f@),
                arp_spa(f@),
            )),
            is_echo_request_for(f@, old(self).ip_spec()) ==> (match cache_resolve(
                cache_after(old(self).cache_spec(), f@),
                src_ip_key(f@),
            ) {
                Some(m) => r matches Some(v) && echo_reply_ok(v@, f@, old(self).mac_spec(), m),
                None => r is None,
            }),
            is_coap_request_for(f@, old(self).ip_spec()) && coap_model(udp_payload(f@)) is Some
                ==> (match cache_resolve(cache_after(old(self).cache_spec(), f@), src_ip_key(f@)) {
                Some(m) => r matches Some(v) && v@ == coap_reply_frame(
                    f@,
                    old(self).mac_spec(),
                    old(self).ip_spec(),
                    m,
                    coap_ack_for(coap_model(udp_payload(f@))->Some_0, old(self).led_spec()),
                ),
                None => r is None,
            }),
            !is_arp_request_for(f@, old(self).ip_spec()) && !is_echo_request_for(
                f@,
                old(self).ip_spec(),
            ) && !(is_coap_request_for(f@, old(self).ip_spec()) && coap_model(
                udp_payload(f@),
            ) is Some) ==> r is None,
    {
        let eth = match parse_ethernet(f) {
            Ok(h) => h,
            Err(_) => { return None },
        };
        if eth.ethertype == ETHERTYPE_ARP {
            let m = match parse_arp(f) {
                Ok(m) => m,
                Err(_) => { return None },
            };
            let sender_key = read_be32(f, 28);
            if sender_key != 0 && !broadcast_mac_at(f, 22) {
                self.cache.observe(sender_key, m.sha);
            }
            proof {
                assert(self.cache@ == cache_after(old(self).cache_spec(), f@));
            }
            if m.oper == 1 && crate::frame::ips_eq(&m.tpa, &self.ip) {
                Some(build_arp_reply(&self.mac, &self.ip, &m.sha, &m.spa))
            } else {
                None
            }
        } else if eth.ethertype == ETHERTYPE_IPV4 {
            let ip = match parse_ipv4(f) {
                Ok(h) => h,
                Err(_) => { return None },
            };
            if !broadcast_mac_at(f, 6) {
                self.cache.observe(read_be32(f, 26), eth.src);
            }
            proof {
                assert(self.cache@ == cache_after(old(self).cache_spec(), f@));
            }
            if ip.protocol == IP_PROTO_ICMP {
                let icmp = match parse_icmp(f) {
                    Ok(m) => m,
                    Err(_) => { return None },
                };
                if icmp.mtype == 8 && icmp.code == 0 && crate::frame::ips_eq(&ip.dst, &self.ip) {
                    match self.cache.lookup(read_be32(f, 26)) {
                        Some(dmac) => Some(build_echo_reply(f, &self.mac, &dmac)),
                        None => None,
                    }
                } else {
                    None
                }
            } else if ip.protocol == IP_PROTO_UDP {
                let udp = match parse_udp(f) {
                    Ok(h) => h,
                    Err(_) => { return None },
                };
                if udp.dst_port == COAP_PORT && crate::frame::ips_eq(&ip.dst, &self.ip) {
                    let mut body: Vec<u8> = Vec::new();
                    push_range(&mut body, f, 42, 14 + ip.total_len as usize);
                    proof {
                        assert(body@ =~= udp_payload(f@));
                    }
                    let msg = match parse_coap(&body) {
                        Ok(m) => m,
                        Err(_) => { return None },
                    };
                    let ghost model = coap_model(udp_payload(f@))->Some_0;
                    proof {
                        assert(coap_message_view(msg) == model);
                    }
                    let outcome = coap_decide(&msg, self.led);
                    self.led = outcome.led;
                    match self.cache.lookup(read_be32(f, 26)) {
                        Some(dmac) => {
                            proof {
                                assert(msg.token@.len() <= 8);
                            }
                            let ack = build_coap_ack(
                                &msg.token,
                                msg.msg_id,
                                outcome.code,
                                match &outcome.payload {
                                    Some(p) => Some(p),
                                    None => None,
                                },
                            );
                            proof {
                                assert(ack@ == coap_ack_for(model, old(self).led_spec()));
                                assert(ack@.len() <= 4 + 8 + 1 + 14);
                            }
                            Some(build_coap_reply(f, &self.mac, &self.ip, &dmac, &ack))
                        },
                        None => None,
                    }
                } else {
                    None
                }
            } else {
                None
            }
        } else {
            None
        }
    }
}

} // verus!
